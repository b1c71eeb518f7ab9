//! Saved endpoints and the discovery contract. No renderer or OS dependencies.

use vstd::prelude::*;

use crate::address::is_local_address;
use crate::address::on_local_network;
use crate::text::byte_len;
use crate::text::chars_of;
use crate::text::decimal;
use crate::text::eq_ignore_ascii_case;
use crate::text::is_control_char;
use crate::text::is_white;
use crate::text::is_white_space;
use crate::text::lowercase;
use crate::text::owned;
use crate::text::parse_unsigned;
use crate::text::same_ignoring_case;
use crate::text::same_text;
use crate::text::strip_back;
use crate::text::text_byte_len;
use crate::text::to_lower;
use crate::text::trim;
use crate::text::trim_end_char;
use crate::text::trimmed;
use crate::text::unsigned_text;
use crate::text::unsigned_to_text;
use crate::wire::input::number_json;
use crate::wire::json::document;
use crate::wire::json::json_text;
use crate::wire::json::members_view;
use crate::wire::json::values_view;
use crate::wire::json::Json;
use crate::wire::json::Value;

verus! {

/// How many connections are kept.
pub const MAX_SAVED: usize = 12;

/// The largest connections file that is read, in bytes.
pub const MAX_FILE_LEN: usize = 64 * 1024;

#[derive(Debug, PartialEq, Eq)]
pub struct Connection {
    pub id: String,
    pub name: String,
    pub host: String,
    pub control_port: u16,
    pub video_port: Option<u16>,
}

/// What a [`Connection`] holds.
pub struct ConnectionNote {
    pub id: Seq<char>,
    pub name: Seq<char>,
    pub host: Seq<char>,
    pub control_port: u16,
    pub video_port: Option<u16>,
}

impl Clone for Connection {
    fn clone(&self) -> (copy: Self)
        ensures
            copy@ == self@,
    {
        Connection {
            id: self.id.clone(),
            name: self.name.clone(),
            host: self.host.clone(),
            control_port: self.control_port,
            video_port: self.video_port,
        }
    }
}

pub open spec fn connection_notes(connections: Seq<Connection>) -> Seq<ConnectionNote> {
    Seq::new(connections.len(), |i: int| connections[i]@)
}

impl ConnectionNote {
    /// Whether two connections lead to the same place: the same service by its id,
    /// or the same host and ports.
    pub open spec fn same_place(self, other: ConnectionNote) -> bool {
        ||| self.id == other.id
        ||| {
            &&& same_ignoring_case(self.host, other.host)
            &&& self.control_port == other.control_port
            &&& self.video_port == other.video_port
        }
    }

    /// The JSON object under which a connection is saved.
    pub open spec fn saved_json(self) -> Json {
        Json::Object(
            seq![
                ("id"@, Json::Str(self.id)),
                ("name"@, Json::Str(self.name)),
                ("host"@, Json::Str(self.host)),
                ("control"@, number_json(self.control_port as int)),
                (
                    "video"@,
                    match self.video_port {
                        Some(port) => number_json(port as int),
                        None => Json::Null,
                    },
                ),
            ],
        )
    }
}

/// The port that a text spells: 1 to 65535, with white space around it.
pub open spec fn port_in(text: Seq<char>) -> Option<u16> {
    match unsigned_text(trimmed(text), 65535) {
        Some(n) => if n == 0 {
            None
        } else {
            Some(n as u16)
        },
        None => None,
    }
}

pub open spec fn bad_host_char(c: char) -> bool {
    is_white(c) || c == '/' || c == '\\' || c == '\0'
}

/// The host that a text names: white space around it and dots behind it do not
/// count.
pub open spec fn host_in(text: Seq<char>) -> Seq<char> {
    strip_back(trimmed(text), '.')
}

/// Whether a text can name a host.
pub open spec fn is_host(host: Seq<char>) -> bool {
    &&& 0 < host.len()
    &&& byte_len(host) <= 253
    &&& forall|i: int| 0 <= i < host.len() ==> !bad_host_char(#[trigger] host[i])
}

/// The video port that a text spells: none where it is blank.
pub open spec fn video_port_in(text: Seq<char>) -> Result<Option<u16>, Seq<char>> {
    if trimmed(text).len() == 0 {
        Ok(None)
    } else {
        match port_in(text) {
            Some(port) => Ok(Some(port)),
            None => Err(
                "Video port must be between 1 and 65535, or blank to disable video."@,
            ),
        }
    }
}

/// The identity of a manual connection, from its host in lower case.
pub open spec fn manual_identity(host: Seq<char>, control_port: u16) -> Seq<char> {
    "manual:"@ + host + ":"@ + decimal(control_port as nat)
}

/// The identity of a manual connection, from its host in lower case.
pub fn manual_id(host: &str, control_port: u16) -> (id: String)
    ensures
        id@ == manual_identity(host@, control_port),
{
    String::from_str("manual:").concat(host).concat(":").concat(
        unsigned_to_text(control_port as u64).as_str(),
    )
}

/// The connection that three typed texts describe, or what is wrong with them.
pub open spec fn manual_note(host: Seq<char>, control: Seq<char>, video: Seq<char>) -> Result<
    ConnectionNote,
    Seq<char>,
> {
    let host = host_in(host);
    if !is_host(host) {
        Err("Enter a Mac hostname (such as Mac-Studio.local) or an IP address."@)
    } else {
        match port_in(control) {
            None => Err("Control port must be between 1 and 65535."@),
            Some(control_port) => match video_port_in(video) {
                Err(e) => Err(e),
                Ok(video_port) => if video_port == Some(control_port) {
                    Err("Control and video ports must be different."@)
                } else {
                    Ok(
                        ConnectionNote {
                            id: manual_identity(lowercase(host), control_port),
                            name: host,
                            host,
                            control_port,
                            video_port,
                        },
                    )
                },
            },
        }
    }
}

/// The value of the first field named `key`.
pub open spec fn field_value(fields: Seq<(Seq<char>, Seq<char>)>, key: Seq<char>) -> Option<
    Seq<char>,
>
    decreases fields.len(),
{
    if fields.len() == 0 {
        None
    } else if fields[0].0 == key {
        Some(fields[0].1)
    } else {
        field_value(fields.skip(1), key)
    }
}

pub open spec fn fields_notes(fields: Seq<(String, String)>) -> Seq<(Seq<char>, Seq<char>)> {
    Seq::new(fields.len(), |i: int| (fields[i].0@, fields[i].1@))
}

/// Whether a name can be shown: not empty, and no control characters.
pub open spec fn is_shown_name(name: Seq<char>) -> bool {
    &&& 0 < name.len()
    &&& forall|i: int| 0 <= i < name.len() ==> !is_control_char(#[trigger] name[i])
}

/// The video port of an advertisement: `0` for none.
pub open spec fn advertised_video(text: Seq<char>) -> Option<Option<u16>> {
    if text == "0"@ {
        Some(None)
    } else {
        match port_in(text) {
            Some(port) => Some(Some(port)),
            None => None,
        }
    }
}

/// The connection that a service advertises with its control port and its text
/// fields: version 1, a local address, an id, a name to show and a video port, each
/// of which must be there and sound.
pub open spec fn advertised(control_port: u16, fields: Seq<(Seq<char>, Seq<char>)>) -> Option<
    ConnectionNote,
> {
    match (
        field_value(fields, "v"@),
        field_value(fields, "addr"@),
        field_value(fields, "id"@),
        field_value(fields, "name"@),
        field_value(fields, "video"@),
    ) {
        (Some(version), Some(host), Some(id), Some(name), Some(video)) => {
            let name = trimmed(name);
            if version == "1"@ && control_port != 0 && is_local_address(host) && 0 < id.len()
                && byte_len(id) <= 128 && is_shown_name(name) {
                match advertised_video(video) {
                    Some(video_port) => if video_port == Some(control_port) {
                        None
                    } else {
                        Some(ConnectionNote { id, name, host, control_port, video_port })
                    },
                    None => None,
                }
            } else {
                None
            }
        },
        _ => None,
    }
}

// ---------------------------------------------------------------------------
// Connections
// ---------------------------------------------------------------------------

/// The port that a text spells.
pub fn port(s: &str) -> (port: Option<u16>)
    ensures
        port == port_in(s@),
{
    let digits = trim(s);
    match parse_unsigned(digits.as_str(), 65535) {
        Some(n) => if n == 0 {
            None
        } else {
            Some(n as u16)
        },
        None => None,
    }
}

fn names_host(host: &str) -> (sound: bool)
    ensures
        sound == is_host(host@),
{
    if text_byte_len(host) > 253 {
        return false;
    }
    let chars = chars_of(host);
    if chars.len() == 0 {
        return false;
    }
    let mut i: usize = 0;
    while i < chars.len()
        invariant
            i <= chars@.len(),
            chars@ == host@,
            forall|k: int| 0 <= k < i ==> !bad_host_char(#[trigger] host@[k]),
        decreases chars@.len() - i,
    {
        let c = chars[i];
        if is_white_space(c) || c == '/' || c == '\\' || c == '\0' {
            proof {
                assert(bad_host_char(host@[i as int]));
            }
            return false;
        }
        i += 1;
    }
    true
}

fn shown_name(name: &str) -> (sound: bool)
    ensures
        sound == is_shown_name(name@),
{
    let chars = chars_of(name);
    if chars.len() == 0 {
        return false;
    }
    let mut i: usize = 0;
    while i < chars.len()
        invariant
            i <= chars@.len(),
            chars@ == name@,
            forall|k: int| 0 <= k < i ==> !is_control_char(#[trigger] name@[k]),
        decreases chars@.len() - i,
    {
        let n: u32 = chars[i] as u32;
        if n <= 0x1F || (0x7F <= n && n <= 0x9F) {
            proof {
                assert(is_control_char(name@[i as int]));
            }
            return false;
        }
        i += 1;
    }
    true
}

fn find_field<'a>(fields: &'a [(String, String)], key: &str) -> (value: Option<&'a str>)
    ensures
        match value {
            Some(value) => field_value(fields_notes(fields@), key@) == Some(value@),
            None => field_value(fields_notes(fields@), key@) is None,
        },
{
    let ghost all = fields_notes(fields@);
    let mut i: usize = 0;
    proof {
        assert(all.skip(0) =~= all);
    }
    while i < fields.len()
        invariant
            i <= fields@.len(),
            all == fields_notes(fields@),
            field_value(all.skip(i as int), key@) == field_value(all, key@),
        decreases fields@.len() - i,
    {
        proof {
            assert(all.skip(i as int).skip(1) =~= all.skip(i + 1));
            assert(all.skip(i as int)[0] == all[i as int]);
        }
        if same_text(fields[i].0.as_str(), key) {
            return Some(fields[i].1.as_str());
        }
        i += 1;
    }
    None
}

impl Connection {
    pub open spec fn view(&self) -> ConnectionNote {
        ConnectionNote {
            id: self.id@,
            name: self.name@,
            host: self.host@,
            control_port: self.control_port,
            video_port: self.video_port,
        }
    }

    pub fn same_destination(&self, other: &Self) -> (same: bool)
        ensures
            same == self@.same_place(other@),
    {
        same_text(self.id.as_str(), other.id.as_str()) || (eq_ignore_ascii_case(
            self.host.as_str(),
            other.host.as_str(),
        ) && self.control_port == other.control_port && same_port(
            self.video_port,
            other.video_port,
        ))
    }

    /// The connection that three typed texts describe, or what to tell the user.
    pub fn manual(host: &str, control: &str, video: &str) -> (result: Result<Self, String>)
        ensures
            match result {
                Ok(connection) => manual_note(host@, control@, video@) == Ok::<
                    ConnectionNote,
                    Seq<char>,
                >(connection@),
                Err(e) => manual_note(host@, control@, video@) == Err::<ConnectionNote, Seq<char>>(
                    e@,
                ),
            },
    {
        let host = trim_end_char(trim(host).as_str(), '.');
        if !names_host(host.as_str()) {
            return Err(
                owned("Enter a Mac hostname (such as Mac-Studio.local) or an IP address."),
            );
        }
        let control_port: u16 = match port(control) {
            Some(port) => port,
            None => {
                return Err(owned("Control port must be between 1 and 65535."));
            },
        };
        let video_port: Option<u16> = if trim(video).as_str().is_empty() {
            None
        } else {
            match port(video) {
                Some(port) => Some(port),
                None => {
                    return Err(
                        owned("Video port must be between 1 and 65535, or blank to disable video."),
                    );
                },
            }
        };
        if same_port(video_port, Some(control_port)) {
            return Err(owned("Control and video ports must be different."));
        }
        let id = manual_id(to_lower(host.as_str()).as_str(), control_port);
        Ok(Connection { id, name: host.clone(), host, control_port, video_port })
    }

    /// The connection that a discovered service advertises.
    pub fn from_advertisement(control_port: u16, fields: &[(String, String)]) -> (found: Option<
        Self,
    >)
        ensures
            match found {
                Some(connection) => advertised(control_port, fields_notes(fields@)) == Some(
                    connection@,
                ),
                None => advertised(control_port, fields_notes(fields@)) is None,
            },
    {
        let version = find_field(fields, "v")?;
        if !same_text(version, "1") || control_port == 0 {
            return None;
        }
        let host = find_field(fields, "addr")?;
        if !on_local_network(host) {
            return None;
        }
        let id = find_field(fields, "id")?;
        if id.is_empty() || text_byte_len(id) > 128 {
            return None;
        }
        let name = trim(find_field(fields, "name")?);
        if !shown_name(name.as_str()) {
            return None;
        }
        let video = find_field(fields, "video")?;
        let video_port: Option<u16> = if same_text(video, "0") {
            None
        } else {
            Some(port(video)?)
        };
        if same_port(video_port, Some(control_port)) {
            return None;
        }
        Some(Connection { id: owned(id), name, host: owned(host), control_port, video_port })
    }

    /// The JSON object under which this connection is saved.
    pub fn json(&self) -> (value: Value)
        ensures
            value@ == self@.saved_json(),
    {
        let video = match self.video_port {
            Some(port) => Value::uint(port as u64),
            None => Value::Null,
        };
        let fields = vec![
            ("id", Value::str(self.id.as_str())),
            ("name", Value::str(self.name.as_str())),
            ("host", Value::str(self.host.as_str())),
            ("control", Value::uint(self.control_port as u64)),
            ("video", video),
        ];
        proof {
            assert(members_view(fields@) =~= self@.saved_json()->Object_0);
        }
        Value::object(fields)
    }
}

fn same_port(a: Option<u16>, b: Option<u16>) -> (same: bool)
    ensures
        same == (a == b),
{
    match (a, b) {
        (Some(a), Some(b)) => a == b,
        (None, None) => true,
        _ => false,
    }
}

// ---------------------------------------------------------------------------
// Lists of connections
// ---------------------------------------------------------------------------

/// The connections that do not lead where `c` leads, in their order.
pub open spec fn others(saved: Seq<ConnectionNote>, c: ConnectionNote) -> Seq<ConnectionNote>
    decreases saved.len(),
{
    if saved.len() == 0 {
        Seq::empty()
    } else {
        let before = others(saved.drop_last(), c);
        if saved.last().same_place(c) {
            before
        } else {
            before.push(saved.last())
        }
    }
}

/// At most the first `n` connections.
pub open spec fn first_of(list: Seq<ConnectionNote>, n: int) -> Seq<ConnectionNote> {
    if list.len() <= n {
        list
    } else {
        list.take(n)
    }
}

/// The saved list once `c` has been used: `c` in front, the others behind it.
pub open spec fn remembered(saved: Seq<ConnectionNote>, c: ConnectionNote) -> Seq<ConnectionNote> {
    first_of(seq![c] + others(saved, c), MAX_SAVED as int)
}

/// Whether a row leads where `c` leads.
pub open spec fn leads_there(rows: Seq<ConnectionNote>, c: ConnectionNote) -> bool {
    exists|i: int| 0 <= i < rows.len() && (#[trigger] rows[i]).same_place(c)
}

/// A list in which whatever leads where an earlier row leads is left out.
pub open spec fn without_repeats(list: Seq<ConnectionNote>) -> Seq<ConnectionNote>
    decreases list.len(),
{
    if list.len() == 0 {
        Seq::empty()
    } else {
        let rows = without_repeats(list.drop_last());
        if leads_there(rows, list.last()) {
            rows
        } else {
            rows.push(list.last())
        }
    }
}

/// Put a used connection in front of the saved list, in place of every saved one
/// that leads to the same place. At most [`MAX_SAVED`] are kept.
pub fn remember(saved: &mut Vec<Connection>, connection: Connection)
    ensures
        connection_notes(final(saved)@) == remembered(
            connection_notes(old(saved)@),
            connection@,
        ),
{
    let ghost all = connection_notes(saved@);
    let ghost c = connection@;
    let mut i: usize = 0;
    let ghost mut seen: int = 0;
    proof {
        assert(all.take(0) =~= Seq::<ConnectionNote>::empty());
        assert(Seq::<ConnectionNote>::empty() + all.skip(0) =~= all);
    }
    while i < saved.len()
        invariant
            0 <= seen <= all.len(),
            c == connection@,
            i == others(all.take(seen), c).len(),
            connection_notes(saved@) == others(all.take(seen), c) + all.skip(seen),
        decreases saved@.len() - i,
    {
        let ghost kept = others(all.take(seen), c);
        proof {
            assert(connection_notes(saved@)[i as int] == all[seen]);
            assert(all.take(seen + 1).drop_last() =~= all.take(seen));
        }
        if saved[i].same_destination(&connection) {
            let ghost notes = connection_notes(saved@);
            saved.remove(i);
            proof {
                assert(connection_notes(saved@) =~= notes.remove(i as int));
                assert(connection_notes(saved@) =~= kept + all.skip(seen + 1));
            }
        } else {
            proof {
                assert(kept + all.skip(seen) =~= kept.push(all[seen]) + all.skip(seen + 1));
            }
            i += 1;
        }
        proof {
            seen = seen + 1;
        }
    }
    proof {
        assert(all.skip(seen).len() == 0);
        assert(all.take(seen) =~= all);
        assert(connection_notes(saved@) =~= others(all, c));
    }
    saved.insert(0, connection);
    proof {
        assert(connection_notes(saved@) =~= seq![c] + others(all, c));
    }
    if saved.len() > MAX_SAVED {
        let ghost notes = connection_notes(saved@);
        saved.truncate(MAX_SAVED);
        proof {
            assert(connection_notes(saved@) =~= notes.take(MAX_SAVED as int));
        }
    }
}

/// Whether a row leads where `c` leads.
pub fn any_leads_there(rows: &Vec<Connection>, c: &Connection) -> (found: bool)
    ensures
        found == leads_there(connection_notes(rows@), c@),
{
    let mut i: usize = 0;
    while i < rows.len()
        invariant
            i <= rows@.len(),
            forall|k: int| 0 <= k < i ==> !(#[trigger] rows@[k])@.same_place(c@),
        decreases rows@.len() - i,
    {
        if rows[i].same_destination(c) {
            proof {
                assert(connection_notes(rows@)[i as int].same_place(c@));
            }
            return true;
        }
        i += 1;
    }
    proof {
        assert forall|k: int| 0 <= k < connection_notes(rows@).len() implies !(
        #[trigger] connection_notes(rows@)[k]).same_place(c@) by {
            assert(!rows@[k]@.same_place(c@));
        }
    }
    false
}

/// Discovery supplies the current name and address; saved endpoints fill the gaps.
pub fn available(nearby: &[Connection], saved: &[Connection]) -> (rows: Vec<Connection>)
    ensures
        connection_notes(rows@) == without_repeats(
            connection_notes(nearby@) + connection_notes(saved@),
        ),
{
    let ghost all = connection_notes(nearby@) + connection_notes(saved@);
    let mut rows: Vec<Connection> = Vec::new();
    let mut i: usize = 0;
    proof {
        assert(all.take(0) =~= Seq::<ConnectionNote>::empty());
        assert(connection_notes(rows@) =~= Seq::<ConnectionNote>::empty());
    }
    while i < nearby.len()
        invariant
            i <= nearby@.len(),
            all == connection_notes(nearby@) + connection_notes(saved@),
            connection_notes(rows@) == without_repeats(all.take(i as int)),
        decreases nearby@.len() - i,
    {
        proof {
            assert(all.take(i + 1).drop_last() =~= all.take(i as int));
            assert(all.take(i + 1).last() == nearby@[i as int]@);
        }
        push_unless_there(&mut rows, &nearby[i]);
        i += 1;
    }
    let mut j: usize = 0;
    while j < saved.len()
        invariant
            j <= saved@.len(),
            all == connection_notes(nearby@) + connection_notes(saved@),
            connection_notes(rows@) == without_repeats(all.take(nearby@.len() + j)),
        decreases saved@.len() - j,
    {
        proof {
            let n = nearby@.len() + j;
            assert(all.take(n + 1).drop_last() =~= all.take(n));
            assert(all.take(n + 1).last() == saved@[j as int]@);
        }
        push_unless_there(&mut rows, &saved[j]);
        j += 1;
    }
    proof {
        assert(all.take(nearby@.len() + j) =~= all);
    }
    rows
}

fn push_unless_there(rows: &mut Vec<Connection>, c: &Connection)
    ensures
        connection_notes(final(rows)@) == if leads_there(connection_notes(old(rows)@), c@) {
            connection_notes(old(rows)@)
        } else {
            connection_notes(old(rows)@).push(c@)
        },
{
    if !any_leads_there(rows, c) {
        rows.push(c.clone());
        proof {
            assert(connection_notes(rows@) =~= connection_notes(old(rows)@).push(c@));
        }
    }
}

// ---------------------------------------------------------------------------
// The connections file
// ---------------------------------------------------------------------------

/// The connection that a row of the file holds, if it is sound.
pub open spec fn row_note(v: Json) -> Option<ConnectionNote> {
    match (v.field("control"@), v.field("video"@), v.field("host"@), v.field("id"@), v.field(
        "name"@,
    )) {
        (
            Some(control),
            Some(video),
            Some(Json::Str(host)),
            Some(Json::Str(id)),
            Some(Json::Str(name)),
        ) => match control.unsigned(u64::MAX as nat) {
            None => None,
            Some(control) => {
                let video = match video.unsigned(u64::MAX as nat) {
                    Some(n) => decimal(n),
                    None => Seq::empty(),
                };
                match manual_note(host, decimal(control), video) {
                    Err(e) => None,
                    Ok(c) => Some(ConnectionNote { id, name, ..c }),
                }
            },
        },
        _ => None,
    }
}

/// The sound rows among `rows`, in their order.
pub open spec fn row_notes(rows: Seq<Json>) -> Seq<ConnectionNote>
    decreases rows.len(),
{
    if rows.len() == 0 {
        Seq::empty()
    } else {
        let before = row_notes(rows.drop_last());
        match row_note(rows.last()) {
            Some(c) => before.push(c),
            None => before,
        }
    }
}

/// The connections that the text of a file holds, or what is wrong with it.
pub open spec fn loaded(text: Seq<char>) -> Result<Seq<ConnectionNote>, Seq<char>> {
    if byte_len(text) > MAX_FILE_LEN {
        Err("Saved connections file is too large"@)
    } else {
        match document(text) {
            Err(f) => Err("JSON error at byte "@ + decimal(f.at as nat) + ": "@ + f.message),
            Ok(Json::Array(rows)) => Ok(
                row_notes(
                    if rows.len() <= MAX_SAVED {
                        rows
                    } else {
                        rows.take(MAX_SAVED as int)
                    },
                ),
            ),
            Ok(_) => Err("Invalid connections file"@),
        }
    }
}

/// The JSON value of a whole file.
pub open spec fn file_json(saved: Seq<ConnectionNote>) -> Json {
    Json::Array(Seq::new(saved.len(), |i: int| saved[i].saved_json()))
}

fn load_row(v: &Value) -> (row: Option<Connection>)
    ensures
        match row {
            Some(c) => row_note(v@) == Some(c@),
            None => row_note(v@) is None,
        },
{
    let control: u64 = v.get("control")?.as_u64()?;
    let video = match v.get("video")?.as_u64() {
        Some(n) => unsigned_to_text(n),
        None => String::new(),
    };
    let host = v.get("host")?.as_str()?;
    let connection = Connection::manual(host, unsigned_to_text(control).as_str(), video.as_str());
    let id = v.get("id")?.as_str()?;
    let name = v.get("name")?.as_str()?;
    match connection {
        Ok(c) => Some(
            Connection {
                id: owned(id),
                name: owned(name),
                host: c.host,
                control_port: c.control_port,
                video_port: c.video_port,
            },
        ),
        Err(e) => None,
    }
}

/// Read the text of a connections file. Rows that are not sound are left out.
pub fn load(text: &str) -> (result: Result<Vec<Connection>, String>)
    ensures
        match result {
            Ok(connections) => loaded(text@) == Ok::<Seq<ConnectionNote>, Seq<char>>(
                connection_notes(connections@),
            ),
            Err(e) => loaded(text@) == Err::<Seq<ConnectionNote>, Seq<char>>(e@),
        },
{
    if text_byte_len(text) > MAX_FILE_LEN {
        return Err(owned("Saved connections file is too large"));
    }
    let root = match Value::parse(text) {
        Ok(root) => root,
        Err(e) => {
            return Err(e.describe());
        },
    };
    let rows = match root.as_array() {
        Some(rows) => rows,
        None => {
            return Err(owned("Invalid connections file"));
        },
    };
    let count: usize = if rows.len() <= MAX_SAVED {
        rows.len()
    } else {
        MAX_SAVED
    };
    let ghost all = values_view(rows@);
    let mut out: Vec<Connection> = Vec::new();
    let mut i: usize = 0;
    proof {
        assert(all.take(0) =~= Seq::<Json>::empty());
        assert(connection_notes(out@) =~= Seq::<ConnectionNote>::empty());
    }
    while i < count
        invariant
            i <= count <= rows@.len(),
            all == values_view(rows@),
            connection_notes(out@) == row_notes(all.take(i as int)),
        decreases count - i,
    {
        let ghost before = connection_notes(out@);
        proof {
            assert(all.take(i + 1).drop_last() =~= all.take(i as int));
        }
        match load_row(&rows[i]) {
            Some(c) => {
                let ghost note = c@;
                out.push(c);
                proof {
                    assert(connection_notes(out@) =~= before.push(note));
                }
            },
            None => {},
        }
        i += 1;
    }
    proof {
        assert(all.take(all.len() as int) =~= all);
    }
    Ok(out)
}

/// The text of a connections file.
pub fn save(saved: &[Connection]) -> (text: String)
    ensures
        text@ == json_text(file_json(connection_notes(saved@))),
{
    let mut rows: Vec<Value> = Vec::new();
    let mut i: usize = 0;
    while i < saved.len()
        invariant
            i <= saved@.len(),
            rows@.len() == i,
            forall|k: int| 0 <= k < i ==> (#[trigger] rows@[k])@ == saved@[k]@.saved_json(),
        decreases saved@.len() - i,
    {
        rows.push(saved[i].json());
        i += 1;
    }
    let root = Value::Array(rows);
    proof {
        assert(root@->Array_0 =~= values_view(rows@));
        assert(root@->Array_0 =~= file_json(connection_notes(saved@))->Array_0);
    }
    root.to_json()
}

} // verus!
