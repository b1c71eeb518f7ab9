//! The control channel messages, decoded from and encoded to the host's exact JSON
//! shapes.
//!
//! The discriminators are camelCase (`"requestResize"`, `"input"`), and `hello`
//! carries the version under the key `"protocol"`.

use vstd::prelude::*;
use vstd::utf8::decode_utf8;
use vstd::utf8::encode_utf8;
use vstd::utf8::encode_utf8_decode_utf8;
use vstd::utf8::valid_utf8;

use crate::text::law_decimal_int_reads_back;
use crate::text::owned;
use crate::text::same_text;
use crate::text::utf8_text;
use crate::wire::input::number_json;
use crate::wire::input::InputEvent;
use crate::wire::json::document;
use crate::wire::json::json_text;
use crate::wire::json::members_view;
use crate::wire::json::values_view;
use crate::wire::json::Fault;
use crate::wire::json::Json;
use crate::wire::json::JsonError;
use crate::wire::json::Value;
use crate::wire::json_laws::law_written_values_read_back;
use crate::wire::json_laws::lemma_decimal_is_number;
use crate::wire::json_laws::numbers_are_sound;

verus! {

/// A rectangle in VDS physical pixels: origin top-left, Y down.
#[derive(Debug, Clone, Copy, PartialEq, Eq, Structural)]
pub struct Rect {
    pub x: u32,
    pub y: u32,
    pub w: u32,
    pub h: u32,
}

/// A size in physical pixels.
#[derive(Debug, Clone, Copy, PartialEq, Eq, Structural)]
pub struct Size {
    pub w: u32,
    pub h: u32,
}

/// What kind of surface a window is. The client must not give a menu, sheet or
/// popover a resizable frame or an Alt-Tab entry.
#[derive(Debug, Clone, Copy, PartialEq, Eq, Structural)]
pub enum WindowKind {
    Normal,
    Menu,
    Sheet,
    Popover,
}

/// Maps to the client's `WM_ENTERSIZEMOVE` / `WM_SIZING` / `WM_EXITSIZEMOVE`.
#[derive(Debug, Clone, Copy, PartialEq, Eq, Structural)]
pub enum ResizePhase {
    Begin,
    Live,
    End,
}

/// One window's id and rect, as carried in a `tileLayout`.
#[derive(Debug, Clone, Copy, PartialEq, Eq, Structural)]
pub struct TileWindow {
    pub id: u64,
    pub rect: Rect,
}

/// Host to client: the full set the host can push.
#[derive(Debug, Clone, PartialEq)]
pub enum ServerMessage {
    /// First message on a fresh connection: protocol version and the whole virtual
    /// display size, so that every rect received can be sanity-checked.
    Hello { protocol: u32, vds: Size },
    WindowCreated { id: u64, rect: Rect, title: String, kind: WindowKind },
    /// Actual geometry after a write or an observed move, never requested geometry.
    WindowMoved { id: u64, rect: Rect },
    WindowDestroyed { id: u64 },
    WindowTitle { id: u64, title: String },
    WindowFocused { id: u64 },
    TileLayout { windows: Vec<TileWindow>, display: Size },
    Error { code: u32, message: String },
}

/// What a [`ServerMessage`] says.
pub enum ServerNote {
    Hello { protocol: u32, vds: Size },
    WindowCreated { id: u64, rect: Rect, title: Seq<char>, kind: WindowKind },
    WindowMoved { id: u64, rect: Rect },
    WindowDestroyed { id: u64 },
    WindowTitle { id: u64, title: Seq<char> },
    WindowFocused { id: u64 },
    TileLayout { windows: Seq<TileWindow>, display: Size },
    Error { code: u32, message: Seq<char> },
}

/// Client to host: what the client may ask the host to do.
#[derive(Debug, Clone, Copy, PartialEq, Eq, Structural)]
pub enum ClientMessage {
    RequestResize { id: u64, size: Size, phase: ResizePhase },
    RequestFocus { id: u64 },
    RequestClose { id: u64 },
    Input {
        id: u64,
        event: InputEvent,
        /// Client's monotonic timestamp in milliseconds; opaque to the host.
        ts: u64,
    },
}

/// A decode failure with enough context to log which message shape was malformed.
#[derive(Debug, Clone, PartialEq, Eq)]
pub enum DecodeError {
    Json(JsonError),
    /// Structurally valid JSON, but not a message we understand or missing a field.
    Shape(String),
}

/// What a [`DecodeError`] says.
pub enum Problem {
    Json(Fault),
    Shape(Seq<char>),
}

impl ServerMessage {
    pub open spec fn view(&self) -> ServerNote {
        match self {
            ServerMessage::Hello { protocol, vds } => ServerNote::Hello {
                protocol: *protocol,
                vds: *vds,
            },
            ServerMessage::WindowCreated { id, rect, title, kind } => ServerNote::WindowCreated {
                id: *id,
                rect: *rect,
                title: title@,
                kind: *kind,
            },
            ServerMessage::WindowMoved { id, rect } => ServerNote::WindowMoved {
                id: *id,
                rect: *rect,
            },
            ServerMessage::WindowDestroyed { id } => ServerNote::WindowDestroyed { id: *id },
            ServerMessage::WindowTitle { id, title } => ServerNote::WindowTitle {
                id: *id,
                title: title@,
            },
            ServerMessage::WindowFocused { id } => ServerNote::WindowFocused { id: *id },
            ServerMessage::TileLayout { windows, display } => ServerNote::TileLayout {
                windows: windows@,
                display: *display,
            },
            ServerMessage::Error { code, message } => ServerNote::Error {
                code: *code,
                message: message@,
            },
        }
    }
}

impl DecodeError {
    pub open spec fn view(&self) -> Problem {
        match self {
            DecodeError::Json(e) => Problem::Json(e@),
            DecodeError::Shape(m) => Problem::Shape(m@),
        }
    }

    /// The error in words.
    pub fn describe(&self) -> (text: String)
        ensures
            match self {
                DecodeError::Json(e) => text@ == "JSON error at byte "@ + crate::text::decimal(
                    e.at as nat,
                ) + ": "@ + e.message@,
                DecodeError::Shape(m) => text@ == "malformed control message: "@ + m@,
            },
    {
        match self {
            DecodeError::Json(e) => e.describe(),
            DecodeError::Shape(m) => String::from_str("malformed control message: ").concat(
                m.as_str(),
            ),
        }
    }
}

impl vstd::std_specs::convert::FromSpecImpl<JsonError> for DecodeError {
    open spec fn obeys_from_spec() -> bool {
        true
    }

    open spec fn from_spec(e: JsonError) -> Self {
        DecodeError::Json(e)
    }
}

impl From<JsonError> for DecodeError {
    fn from(e: JsonError) -> (error: Self) {
        DecodeError::Json(e)
    }
}

impl WindowKind {
    /// The kind that a name on the wire stands for. Anything unrecognized is a
    /// normal window: forward-compatible with a host that adds a kind.
    pub open spec fn named(name: Seq<char>) -> WindowKind {
        if name == "menu"@ {
            WindowKind::Menu
        } else if name == "sheet"@ {
            WindowKind::Sheet
        } else if name == "popover"@ {
            WindowKind::Popover
        } else {
            WindowKind::Normal
        }
    }

    pub fn from_wire(s: &str) -> (kind: WindowKind)
        ensures
            kind == Self::named(s@),
    {
        if same_text(s, "menu") {
            WindowKind::Menu
        } else if same_text(s, "sheet") {
            WindowKind::Sheet
        } else if same_text(s, "popover") {
            WindowKind::Popover
        } else {
            WindowKind::Normal
        }
    }
}

/// Whether a window of a kind gets a resizable frame and an Alt-Tab entry.
pub fn has_frame(kind: WindowKind) -> (framed: bool)
    ensures
        framed == (kind == WindowKind::Normal),
{
    match kind {
        WindowKind::Normal => true,
        WindowKind::Menu | WindowKind::Sheet | WindowKind::Popover => false,
    }
}

impl ResizePhase {
    /// The phase's name on the wire.
    pub open spec fn name(self) -> Seq<char> {
        match self {
            ResizePhase::Begin => "begin"@,
            ResizePhase::Live => "live"@,
            ResizePhase::End => "end"@,
        }
    }

    pub fn wire(self) -> (name: &'static str)
        ensures
            name@ == self.name(),
    {
        match self {
            ResizePhase::Begin => "begin",
            ResizePhase::Live => "live",
            ResizePhase::End => "end",
        }
    }
}

// ---------------------------------------------------------------------------
// Decoding
// ---------------------------------------------------------------------------

/// The member `key` of `v`.
pub open spec fn field_in(v: Json, key: Seq<char>) -> Result<Json, Problem> {
    match v.field(key) {
        Some(found) => Ok(found),
        None => Err(Problem::Shape("missing field `"@ + key + "`"@)),
    }
}

/// The member `key` of `v`, an unsigned 64-bit number.
pub open spec fn u64_in(v: Json, key: Seq<char>) -> Result<u64, Problem> {
    match field_in(v, key) {
        Err(p) => Err(p),
        Ok(found) => match found.unsigned(u64::MAX as nat) {
            Some(n) => Ok(n as u64),
            None => Err(Problem::Shape("field `"@ + key + "` is not a u64"@)),
        },
    }
}

/// The member `key` of `v`, an unsigned 32-bit number.
pub open spec fn u32_in(v: Json, key: Seq<char>) -> Result<u32, Problem> {
    match field_in(v, key) {
        Err(p) => Err(p),
        Ok(found) => match found.unsigned(u32::MAX as nat) {
            Some(n) => Ok(n as u32),
            None => Err(Problem::Shape("field `"@ + key + "` is not a u32"@)),
        },
    }
}

/// The member `key` of `v`, a string.
pub open spec fn str_in(v: Json, key: Seq<char>) -> Result<Seq<char>, Problem> {
    match field_in(v, key) {
        Err(p) => Err(p),
        Ok(found) => match found.string() {
            Some(s) => Ok(s),
            None => Err(Problem::Shape("field `"@ + key + "` is not a string"@)),
        },
    }
}

/// The member `key` of `v`, a rectangle.
pub open spec fn rect_in(v: Json, key: Seq<char>) -> Result<Rect, Problem> {
    match field_in(v, key) {
        Err(p) => Err(p),
        Ok(r) => match u32_in(r, "x"@) {
            Err(p) => Err(p),
            Ok(x) => match u32_in(r, "y"@) {
                Err(p) => Err(p),
                Ok(y) => match u32_in(r, "w"@) {
                    Err(p) => Err(p),
                    Ok(w) => match u32_in(r, "h"@) {
                        Err(p) => Err(p),
                        Ok(h) => Ok(Rect { x, y, w, h }),
                    },
                },
            },
        },
    }
}

/// The member `key` of `v`, a size.
pub open spec fn size_in(v: Json, key: Seq<char>) -> Result<Size, Problem> {
    match field_in(v, key) {
        Err(p) => Err(p),
        Ok(s) => match u32_in(s, "w"@) {
            Err(p) => Err(p),
            Ok(w) => match u32_in(s, "h"@) {
                Err(p) => Err(p),
                Ok(h) => Ok(Size { w, h }),
            },
        },
    }
}

/// One window of a tile layout.
pub open spec fn tile_in(v: Json) -> Result<TileWindow, Problem> {
    match u64_in(v, "id"@) {
        Err(p) => Err(p),
        Ok(id) => match rect_in(v, "rect"@) {
            Err(p) => Err(p),
            Ok(rect) => Ok(TileWindow { id, rect }),
        },
    }
}

/// The windows of a tile layout, or what is wrong with the first bad one.
pub open spec fn tiles_in(items: Seq<Json>) -> Result<Seq<TileWindow>, Problem>
    decreases items.len(),
{
    if items.len() == 0 {
        Ok(seq![])
    } else {
        match tiles_in(items.drop_last()) {
            Err(p) => Err(p),
            Ok(tiles) => match tile_in(items.last()) {
                Err(p) => Err(p),
                Ok(tile) => Ok(tiles.push(tile)),
            },
        }
    }
}

/// The message that a JSON value holds. Fields are looked at in the order in which
/// the message declares them, and the first bad one is reported.
pub open spec fn note_in(v: Json) -> Result<ServerNote, Problem> {
    match field_in(v, "type"@) {
        Err(p) => Err(p),
        Ok(ty) => match ty.string() {
            None => Err(Problem::Shape("`type` is not a string"@)),
            Some(name) => note_named(name, v),
        },
    }
}

/// The message of type `name` that a JSON value holds.
pub open spec fn note_named(name: Seq<char>, v: Json) -> Result<ServerNote, Problem> {
    if name == "hello"@ {
        match u32_in(v, "protocol"@) {
            Err(p) => Err(p),
            Ok(protocol) => match size_in(v, "vdsSize"@) {
                Err(p) => Err(p),
                Ok(vds) => Ok(ServerNote::Hello { protocol, vds }),
            },
        }
    } else if name == "windowCreated"@ {
        match u64_in(v, "id"@) {
            Err(p) => Err(p),
            Ok(id) => match rect_in(v, "rect"@) {
                Err(p) => Err(p),
                Ok(rect) => match str_in(v, "title"@) {
                    Err(p) => Err(p),
                    Ok(title) => match field_in(v, "kind"@) {
                        Err(p) => Err(p),
                        Ok(kind) => Ok(
                            ServerNote::WindowCreated {
                                id,
                                rect,
                                title,
                                kind: match kind.string() {
                                    Some(s) => WindowKind::named(s),
                                    None => WindowKind::Normal,
                                },
                            },
                        ),
                    },
                },
            },
        }
    } else if name == "windowMoved"@ {
        match u64_in(v, "id"@) {
            Err(p) => Err(p),
            Ok(id) => match rect_in(v, "rect"@) {
                Err(p) => Err(p),
                Ok(rect) => Ok(ServerNote::WindowMoved { id, rect }),
            },
        }
    } else if name == "windowDestroyed"@ {
        match u64_in(v, "id"@) {
            Err(p) => Err(p),
            Ok(id) => Ok(ServerNote::WindowDestroyed { id }),
        }
    } else if name == "windowTitle"@ {
        match u64_in(v, "id"@) {
            Err(p) => Err(p),
            Ok(id) => match str_in(v, "title"@) {
                Err(p) => Err(p),
                Ok(title) => Ok(ServerNote::WindowTitle { id, title }),
            },
        }
    } else if name == "windowFocused"@ {
        match u64_in(v, "id"@) {
            Err(p) => Err(p),
            Ok(id) => Ok(ServerNote::WindowFocused { id }),
        }
    } else if name == "tileLayout"@ {
        match field_in(v, "windows"@) {
            Err(p) => Err(p),
            Ok(list) => match list {
                Json::Array(items) => match tiles_in(items) {
                    Err(p) => Err(p),
                    Ok(windows) => match size_in(v, "displaySize"@) {
                        Err(p) => Err(p),
                        Ok(display) => Ok(ServerNote::TileLayout { windows, display }),
                    },
                },
                _ => Err(Problem::Shape("`windows` is not an array"@)),
            },
        }
    } else if name == "error"@ {
        match u32_in(v, "code"@) {
            Err(p) => Err(p),
            Ok(code) => match str_in(v, "message"@) {
                Err(p) => Err(p),
                Ok(message) => Ok(ServerNote::Error { code, message }),
            },
        }
    } else {
        Err(Problem::Shape("unknown control message type `"@ + name + "`"@))
    }
}

/// The message that a payload holds.
pub open spec fn note_of(payload: Seq<u8>) -> Result<ServerNote, Problem> {
    if !valid_utf8(payload) {
        Err(Problem::Shape("payload is not UTF-8"@))
    } else {
        match document(decode_utf8(payload)) {
            Err(f) => Err(Problem::Json(f)),
            Ok(v) => note_in(v),
        }
    }
}

/// A field lookup agrees with what it should find.
pub open spec fn agrees<T>(result: Result<T, DecodeError>, expected: Result<T, Problem>) -> bool {
    match result {
        Ok(found) => expected == Ok::<T, Problem>(found),
        Err(e) => expected == Err::<T, Problem>(e@),
    }
}

fn shape(message: String) -> (error: DecodeError)
    ensures
        error@ == Problem::Shape(message@),
{
    DecodeError::Shape(message)
}

fn field<'a>(obj: &'a Value, key: &str) -> (result: Result<&'a Value, DecodeError>)
    ensures
        match result {
            Ok(found) => field_in(obj@, key@) == Ok::<Json, Problem>(found@),
            Err(e) => field_in(obj@, key@) == Err::<Json, Problem>(e@),
        },
{
    match obj.get(key) {
        Some(found) => Ok(found),
        None => Err(shape(String::from_str("missing field `").concat(key).concat("`"))),
    }
}

fn u64_field(obj: &Value, key: &str) -> (result: Result<u64, DecodeError>)
    ensures
        agrees(result, u64_in(obj@, key@)),
{
    let found = field(obj, key)?;
    match found.as_u64() {
        Some(n) => Ok(n),
        None => Err(shape(String::from_str("field `").concat(key).concat("` is not a u64"))),
    }
}

fn u32_field(obj: &Value, key: &str) -> (result: Result<u32, DecodeError>)
    ensures
        agrees(result, u32_in(obj@, key@)),
{
    let found = field(obj, key)?;
    match found.as_u32() {
        Some(n) => Ok(n),
        None => Err(shape(String::from_str("field `").concat(key).concat("` is not a u32"))),
    }
}

fn str_field(obj: &Value, key: &str) -> (result: Result<String, DecodeError>)
    ensures
        match result {
            Ok(s) => str_in(obj@, key@) == Ok::<Seq<char>, Problem>(s@),
            Err(e) => str_in(obj@, key@) == Err::<Seq<char>, Problem>(e@),
        },
{
    let found = field(obj, key)?;
    match found.as_str() {
        Some(s) => Ok(owned(s)),
        None => Err(shape(String::from_str("field `").concat(key).concat("` is not a string"))),
    }
}

fn rect_field(obj: &Value, key: &str) -> (result: Result<Rect, DecodeError>)
    ensures
        agrees(result, rect_in(obj@, key@)),
{
    let r = field(obj, key)?;
    let x: u32 = u32_field(r, "x")?;
    let y: u32 = u32_field(r, "y")?;
    let w: u32 = u32_field(r, "w")?;
    let h: u32 = u32_field(r, "h")?;
    Ok(Rect { x, y, w, h })
}

fn size_field(obj: &Value, key: &str) -> (result: Result<Size, DecodeError>)
    ensures
        agrees(result, size_in(obj@, key@)),
{
    let s = field(obj, key)?;
    let w: u32 = u32_field(s, "w")?;
    let h: u32 = u32_field(s, "h")?;
    Ok(Size { w, h })
}

fn tile_fields(items: &[Value]) -> (result: Result<Vec<TileWindow>, DecodeError>)
    ensures
        match result {
            Ok(tiles) => tiles_in(values_view(items@)) == Ok::<Seq<TileWindow>, Problem>(tiles@),
            Err(e) => tiles_in(values_view(items@)) == Err::<Seq<TileWindow>, Problem>(e@),
        },
{
    let ghost all = values_view(items@);
    let mut windows: Vec<TileWindow> = Vec::new();
    let mut i: usize = 0;
    proof {
        assert(all.take(0) =~= Seq::<Json>::empty());
        assert(windows@ =~= Seq::<TileWindow>::empty());
    }
    while i < items.len()
        invariant
            i <= items@.len(),
            all == values_view(items@),
            tiles_in(all.take(i as int)) == Ok::<Seq<TileWindow>, Problem>(windows@),
        decreases items@.len() - i,
    {
        let tile = tile_field(&items[i]);
        proof {
            assert(all.take(i + 1).drop_last() =~= all.take(i as int));
            if tile is Err {
                lemma_first_bad_tile(all, i as int);
            }
        }
        windows.push(tile?);
        i += 1;
    }
    proof {
        assert(all.take(i as int) =~= all);
    }
    Ok(windows)
}

fn tile_field(item: &Value) -> (result: Result<TileWindow, DecodeError>)
    ensures
        agrees(result, tile_in(item@)),
{
    let id: u64 = u64_field(item, "id")?;
    let rect = rect_field(item, "rect")?;
    Ok(TileWindow { id, rect })
}

proof fn lemma_first_bad_tile(items: Seq<Json>, i: int)
    requires
        0 <= i < items.len(),
        tiles_in(items.take(i + 1)) is Err,
    ensures
        tiles_in(items) == tiles_in(items.take(i + 1)),
    decreases items.len(),
{
    if i + 1 == items.len() {
        assert(items.take(i + 1) =~= items);
    } else {
        assert(items.drop_last().take(i + 1) =~= items.take(i + 1));
        lemma_first_bad_tile(items.drop_last(), i);
    }
}

impl ServerMessage {
    /// Decode one control-channel JSON payload (already de-framed).
    pub fn decode(payload: &[u8]) -> (result: Result<ServerMessage, DecodeError>)
        ensures
            match result {
                Ok(message) => note_of(payload@) == Ok::<ServerNote, Problem>(message@),
                Err(error) => note_of(payload@) == Err::<ServerNote, Problem>(error@),
            },
    {
        let text = match utf8_text(payload) {
            Some(text) => text,
            None => {
                return Err(shape(owned("payload is not UTF-8")));
            },
        };
        proof {
            encode_utf8_decode_utf8(text@);
        }
        let v = match Value::parse(text) {
            Ok(v) => v,
            Err(e) => {
                return Err(DecodeError::from(e));
            },
        };
        Self::decode_value(&v)
    }

    fn decode_value(v: &Value) -> (result: Result<ServerMessage, DecodeError>)
        ensures
            match result {
                Ok(message) => note_in(v@) == Ok::<ServerNote, Problem>(message@),
                Err(error) => note_in(v@) == Err::<ServerNote, Problem>(error@),
            },
    {
        let ty = match field(v, "type")?.as_str() {
            Some(ty) => ty,
            None => {
                return Err(shape(owned("`type` is not a string")));
            },
        };
        if same_text(ty, "hello") {
            let protocol: u32 = u32_field(v, "protocol")?;
            let vds = size_field(v, "vdsSize")?;
            Ok(ServerMessage::Hello { protocol, vds })
        } else if same_text(ty, "windowCreated") {
            let id: u64 = u64_field(v, "id")?;
            let rect = rect_field(v, "rect")?;
            let title = str_field(v, "title")?;
            let kind = match field(v, "kind")?.as_str() {
                Some(s) => WindowKind::from_wire(s),
                None => WindowKind::Normal,
            };
            Ok(ServerMessage::WindowCreated { id, rect, title, kind })
        } else if same_text(ty, "windowMoved") {
            let id: u64 = u64_field(v, "id")?;
            let rect = rect_field(v, "rect")?;
            Ok(ServerMessage::WindowMoved { id, rect })
        } else if same_text(ty, "windowDestroyed") {
            let id: u64 = u64_field(v, "id")?;
            Ok(ServerMessage::WindowDestroyed { id })
        } else if same_text(ty, "windowTitle") {
            let id: u64 = u64_field(v, "id")?;
            let title = str_field(v, "title")?;
            Ok(ServerMessage::WindowTitle { id, title })
        } else if same_text(ty, "windowFocused") {
            let id: u64 = u64_field(v, "id")?;
            Ok(ServerMessage::WindowFocused { id })
        } else if same_text(ty, "tileLayout") {
            let items = match field(v, "windows")?.as_array() {
                Some(items) => items,
                None => {
                    return Err(shape(owned("`windows` is not an array")));
                },
            };
            let windows = tile_fields(items)?;
            let display = size_field(v, "displaySize")?;
            Ok(ServerMessage::TileLayout { windows, display })
        } else if same_text(ty, "error") {
            let code: u32 = u32_field(v, "code")?;
            let message = str_field(v, "message")?;
            Ok(ServerMessage::Error { code, message })
        } else {
            Err(
                shape(
                    String::from_str("unknown control message type `").concat(ty).concat("`"),
                ),
            )
        }
    }
}

// ---------------------------------------------------------------------------
// Encoding
// ---------------------------------------------------------------------------

impl ClientMessage {
    /// The JSON object that the host expects.
    pub open spec fn json(self) -> Json {
        match self {
            ClientMessage::RequestResize { id, size, phase } => Json::Object(
                seq![
                    ("type"@, Json::Str("requestResize"@)),
                    ("id"@, number_json(id as int)),
                    (
                        "size"@,
                        Json::Object(
                            seq![
                                ("w"@, number_json(size.w as int)),
                                ("h"@, number_json(size.h as int)),
                            ],
                        ),
                    ),
                    ("phase"@, Json::Str(phase.name())),
                ],
            ),
            ClientMessage::RequestFocus { id } => Json::Object(
                seq![("type"@, Json::Str("requestFocus"@)), ("id"@, number_json(id as int))],
            ),
            ClientMessage::RequestClose { id } => Json::Object(
                seq![("type"@, Json::Str("requestClose"@)), ("id"@, number_json(id as int))],
            ),
            ClientMessage::Input { id, event, ts } => Json::Object(
                seq![
                    ("type"@, Json::Str("input"@)),
                    ("id"@, number_json(id as int)),
                    ("event"@, event.json()),
                    ("ts"@, number_json(ts as int)),
                ],
            ),
        }
    }

    /// The UTF-8 payload that goes on the wire.
    pub open spec fn payload(self) -> Seq<u8> {
        encode_utf8(json_text(self.json()))
    }

    /// Encode to a JSON `Value` matching the host's decoder.
    pub fn to_value(&self) -> (value: Value)
        ensures
            value@ == self.json(),
    {
        match self {
            ClientMessage::RequestResize { id, size, phase } => {
                let size_fields = vec![
                    ("w", Value::uint(size.w as u64)),
                    ("h", Value::uint(size.h as u64)),
                ];
                proof {
                    assert(members_view(size_fields@) =~= seq![
                        ("w"@, number_json(size.w as int)),
                        ("h"@, number_json(size.h as int)),
                    ]);
                }
                let fields = vec![
                    ("type", Value::str("requestResize")),
                    ("id", Value::uint(*id)),
                    ("size", Value::object(size_fields)),
                    ("phase", Value::str(phase.wire())),
                ];
                proof {
                    assert(members_view(fields@) =~= self.json()->Object_0);
                }
                Value::object(fields)
            },
            ClientMessage::RequestFocus { id } => {
                let fields = vec![
                    ("type", Value::str("requestFocus")),
                    ("id", Value::uint(*id)),
                ];
                proof {
                    assert(members_view(fields@) =~= self.json()->Object_0);
                }
                Value::object(fields)
            },
            ClientMessage::RequestClose { id } => {
                let fields = vec![
                    ("type", Value::str("requestClose")),
                    ("id", Value::uint(*id)),
                ];
                proof {
                    assert(members_view(fields@) =~= self.json()->Object_0);
                }
                Value::object(fields)
            },
            ClientMessage::Input { id, event, ts } => {
                let fields = vec![
                    ("type", Value::str("input")),
                    ("id", Value::uint(*id)),
                    ("event", event.to_value()),
                    ("ts", Value::uint(*ts)),
                ];
                proof {
                    assert(members_view(fields@) =~= self.json()->Object_0);
                }
                Value::object(fields)
            },
        }
    }

    /// Serialize to a UTF-8 JSON payload (not yet length-prefixed).
    pub fn encode(&self) -> (payload: Vec<u8>)
        ensures
            payload@ == self.payload(),
    {
        self.to_value().to_json().as_str().as_bytes_vec()
    }
}

// ---------------------------------------------------------------------------
// Laws
// ---------------------------------------------------------------------------

pub proof fn lemma_numbers_sound(n: int)
    ensures
        numbers_are_sound(number_json(n)),
{
    lemma_decimal_is_number(n);
}

proof fn lemma_strings_sound(text: Seq<char>)
    ensures
        numbers_are_sound(Json::Str(text)),
{
}

/// An object is sound where each of its members is.
pub proof fn lemma_object_is_sound(fields: Seq<(Seq<char>, Json)>)
    requires
        forall|i: int| 0 <= i < fields.len() ==> numbers_are_sound((#[trigger] fields[i]).1),
    ensures
        numbers_are_sound(Json::Object(fields)),
{
}

proof fn lemma_event_is_sound(event: InputEvent)
    ensures
        numbers_are_sound(event.json()),
{
    assert forall|n: int| numbers_are_sound(#[trigger] number_json(n)) by {
        lemma_numbers_sound(n);
    }
    assert forall|text: Seq<char>| #[trigger] numbers_are_sound(Json::Str(text)) by {
        lemma_strings_sound(text);
    }
    lemma_object_is_sound(event.json()->Object_0);
}

proof fn lemma_message_is_sound(message: ClientMessage)
    ensures
        numbers_are_sound(message.json()),
{
    match message {
        ClientMessage::RequestResize { id, size, phase } => {
            let lengths = seq![
                ("w"@, number_json(size.w as int)),
                ("h"@, number_json(size.h as int)),
            ];
            lemma_numbers_sound(size.w as int);
            lemma_numbers_sound(size.h as int);
            lemma_object_is_sound(lengths);
            lemma_numbers_sound(id as int);
        },
        ClientMessage::RequestFocus { id } => {
            lemma_numbers_sound(id as int);
        },
        ClientMessage::RequestClose { id } => {
            lemma_numbers_sound(id as int);
        },
        ClientMessage::Input { id, event, ts } => {
            lemma_event_is_sound(event);
            lemma_numbers_sound(id as int);
            lemma_numbers_sound(ts as int);
        },
    }
    lemma_object_is_sound(message.json()->Object_0);
}

/// The payload of every client message reads back as the JSON object that the host
/// expects.
pub proof fn law_payloads_read_back(message: ClientMessage)
    ensures
        valid_utf8(message.payload()),
        document(decode_utf8(message.payload())) == Ok::<Json, Fault>(message.json()),
{
    lemma_message_is_sound(message);
    lemma_value_payload_reads_back(message.json());
}

pub proof fn lemma_value_payload_reads_back(v: Json)
    requires
        numbers_are_sound(v),
    ensures
        valid_utf8(encode_utf8(json_text(v))),
        document(decode_utf8(encode_utf8(json_text(v)))) == Ok::<Json, Fault>(v),
{
    law_written_values_read_back(v);
    vstd::utf8::encode_utf8_valid_utf8(json_text(v));
    encode_utf8_decode_utf8(json_text(v));
}

proof fn lemma_numbers_differ(a: int, b: int)
    ensures
        number_json(a) == number_json(b) ==> a == b,
{
    let low = if a < b {
        a
    } else {
        b
    };
    let high = if a < b {
        b
    } else {
        a
    };
    law_decimal_int_reads_back(a, low, high);
    law_decimal_int_reads_back(b, low, high);
}

proof fn lemma_names_differ()
    ensures
        "left"@ != "right"@ && "left"@ != "middle"@ && "right"@ != "middle"@,
        "begin"@ != "live"@ && "begin"@ != "end"@ && "live"@ != "end"@,
        "requestResize"@ != "requestFocus"@ && "requestResize"@ != "requestClose"@
            && "requestResize"@ != "input"@,
        "requestFocus"@ != "requestClose"@ && "requestFocus"@ != "input"@ && "requestClose"@
            != "input"@,
        "mouseDown"@ != "mouseUp"@ && "mouseDown"@ != "mouseMove"@ && "mouseDown"@ != "scroll"@
            && "mouseDown"@ != "keyDown"@ && "mouseDown"@ != "keyUp"@,
        "mouseUp"@ != "mouseMove"@ && "mouseUp"@ != "scroll"@ && "mouseUp"@ != "keyDown"@
            && "mouseUp"@ != "keyUp"@,
        "mouseMove"@ != "scroll"@ && "mouseMove"@ != "keyDown"@ && "mouseMove"@ != "keyUp"@,
        "scroll"@ != "keyDown"@ && "scroll"@ != "keyUp"@ && "keyDown"@ != "keyUp"@,
{
    reveal_strlit("left");
    reveal_strlit("right");
    reveal_strlit("middle");
    reveal_strlit("begin");
    reveal_strlit("live");
    reveal_strlit("end");
    reveal_strlit("requestResize");
    reveal_strlit("requestFocus");
    reveal_strlit("requestClose");
    reveal_strlit("input");
    reveal_strlit("mouseDown");
    reveal_strlit("mouseUp");
    reveal_strlit("mouseMove");
    reveal_strlit("scroll");
    reveal_strlit("keyDown");
    reveal_strlit("keyUp");
    assert("left"@.len() == 4);
    assert("right"@.len() == 5);
    assert("middle"@.len() == 6);
    assert("begin"@.len() == 5);
    assert("live"@.len() == 4);
    assert("end"@.len() == 3);
    assert("mouseDown"@.len() == 9);
    assert("mouseUp"@.len() == 7);
    assert("mouseMove"@.len() == 9);
    assert("scroll"@.len() == 6);
    assert("keyDown"@.len() == 7);
    assert("keyUp"@.len() == 5);
    assert("mouseUp"@[0] == 'm');
    assert("keyDown"@[0] == 'k');
    assert("requestFocus"@[7] == 'F');
    assert("requestClose"@[7] == 'C');
    assert("requestFocus"@.len() == 12);
    assert("requestClose"@.len() == 12);
    assert("requestResize"@.len() == 13);
    assert("input"@.len() == 5);
    assert("mouseDown"@[5] == 'D');
    assert("mouseMove"@[5] == 'M');
}

proof fn lemma_events_differ(a: InputEvent, b: InputEvent)
    requires
        a.json() == b.json(),
    ensures
        a == b,
{
    lemma_names_differ();
    let x = a.json()->Object_0;
    let y = b.json()->Object_0;
    assert(x[0] == y[0]);
    assert(x[1] == y[1]);
    match (a, b) {
        (
            InputEvent::MouseDown { x: ax, y: ay, button: p },
            InputEvent::MouseDown { x: bx, y: by, button: q },
        ) => {
            assert(x[2] == y[2]);
            assert(x[3] == y[3]);
            lemma_numbers_differ(ax as int, bx as int);
            lemma_numbers_differ(ay as int, by as int);
        },
        (
            InputEvent::MouseUp { x: ax, y: ay, button: p },
            InputEvent::MouseUp { x: bx, y: by, button: q },
        ) => {
            assert(x[2] == y[2]);
            assert(x[3] == y[3]);
            lemma_numbers_differ(ax as int, bx as int);
            lemma_numbers_differ(ay as int, by as int);
        },
        (InputEvent::MouseMove { x: ax, y: ay }, InputEvent::MouseMove { x: bx, y: by }) => {
            assert(x[2] == y[2]);
            lemma_numbers_differ(ax as int, bx as int);
            lemma_numbers_differ(ay as int, by as int);
        },
        (
            InputEvent::Scroll { x: ax, y: ay, dx: adx, dy: ady },
            InputEvent::Scroll { x: bx, y: by, dx: bdx, dy: bdy },
        ) => {
            assert(x[2] == y[2]);
            assert(x[3] == y[3]);
            assert(x[4] == y[4]);
            lemma_numbers_differ(ax as int, bx as int);
            lemma_numbers_differ(ay as int, by as int);
            lemma_numbers_differ(adx as int, bdx as int);
            lemma_numbers_differ(ady as int, bdy as int);
        },
        (InputEvent::KeyDown { vk: p }, InputEvent::KeyDown { vk: q }) => {
            lemma_numbers_differ(p as int, q as int);
        },
        (InputEvent::KeyUp { vk: p }, InputEvent::KeyUp { vk: q }) => {
            lemma_numbers_differ(p as int, q as int);
        },
        _ => {},
    }
}

proof fn lemma_messages_differ(a: ClientMessage, b: ClientMessage)
    requires
        a.json() == b.json(),
    ensures
        a == b,
{
    lemma_names_differ();
    let x = a.json()->Object_0;
    let y = b.json()->Object_0;
    assert(x[0] == y[0]);
    assert(x[1] == y[1]);
    match (a, b) {
        (
            ClientMessage::RequestResize { id, size, phase },
            ClientMessage::RequestResize { id: other_id, size: other, phase: other_phase },
        ) => {
            assert(x[2] == y[2]);
            assert(x[3] == y[3]);
            let p = x[2].1->Object_0;
            let q = y[2].1->Object_0;
            assert(p[0] == q[0]);
            assert(p[1] == q[1]);
            lemma_numbers_differ(id as int, other_id as int);
            lemma_numbers_differ(size.w as int, other.w as int);
            lemma_numbers_differ(size.h as int, other.h as int);
        },
        (
            ClientMessage::RequestFocus { id },
            ClientMessage::RequestFocus { id: other_id },
        ) => {
            lemma_numbers_differ(id as int, other_id as int);
        },
        (
            ClientMessage::RequestClose { id },
            ClientMessage::RequestClose { id: other_id },
        ) => {
            lemma_numbers_differ(id as int, other_id as int);
        },
        (
            ClientMessage::Input { id, event, ts },
            ClientMessage::Input { id: other_id, event: other, ts: other_ts },
        ) => {
            assert(x[2] == y[2]);
            assert(x[3] == y[3]);
            lemma_numbers_differ(id as int, other_id as int);
            lemma_numbers_differ(ts as int, other_ts as int);
            lemma_events_differ(event, other);
        },
        _ => {},
    }
}

/// No two client messages look alike on the wire.
pub proof fn law_payloads_tell_messages_apart(a: ClientMessage, b: ClientMessage)
    requires
        a.payload() == b.payload(),
    ensures
        a == b,
{
    law_payloads_read_back(a);
    law_payloads_read_back(b);
    lemma_messages_differ(a, b);
}

} // verus!
