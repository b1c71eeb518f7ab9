//! One scan of the local network: which instances to ask about, what the services
//! say of themselves, and which hosts come of it.

use vstd::prelude::*;

use crate::connections::advertised;
use crate::connections::connection_notes;
use crate::connections::fields_notes;
use crate::connections::Connection;
use crate::connections::ConnectionNote;
use crate::discovery::record_notes;
use crate::discovery::records;
use crate::discovery::records_in;
use crate::discovery::Record;
use crate::discovery::RecordNote;
use crate::discovery::MAX_FOUND;
use crate::discovery::MDNS_PORT;
use crate::discovery::RETRY_AFTER_MS;
use crate::discovery::SCAN_MS;
use crate::discovery::SERVICE;
use crate::discovery::TYPE_PTR;
use crate::discovery::TYPE_SRV;
use crate::discovery::TYPE_TXT;
use crate::text::chars_of;
use crate::text::eq_ignore_ascii_case;
use crate::text::lowercase;
use crate::text::parts_notes;
use crate::text::same_ignoring_case;
use crate::text::same_text;
use crate::text::to_lower;

verus! {

/// What a service has said of itself so far.
pub struct Service {
    port: Option<u16>,
    txt: Option<Vec<(String, String)>>,
}

/// The state of a scan: the services by their lower-case names, in the order in
/// which they came up, and the instances that have been asked about.
pub struct Scan {
    services: Vec<(String, Service)>,
    queried: Vec<String>,
}

/// What a [`Service`] holds.
pub struct ServiceNote {
    pub port: Option<u16>,
    pub txt: Option<Seq<(Seq<char>, Seq<char>)>>,
}

/// What a [`Scan`] holds.
pub struct ScanNote {
    pub services: Seq<(Seq<char>, ServiceNote)>,
    pub queried: Seq<Seq<char>>,
}

/// Whether a service of this name is known.
pub open spec fn has_service(services: Seq<(Seq<char>, ServiceNote)>, name: Seq<char>) -> bool {
    exists|i: int| 0 <= i < services.len() && (#[trigger] services[i]).0 == name
}

/// Where the service of this name stands.
pub open spec fn service_place(services: Seq<(Seq<char>, ServiceNote)>, name: Seq<char>) -> int {
    choose|i: int| 0 <= i < services.len() && (#[trigger] services[i]).0 == name
}

/// Whether `text` ends in a dot and the service name.
pub open spec fn names_an_instance(text: Seq<char>) -> bool {
    let tail = seq!['.'] + SERVICE@;
    text.len() >= tail.len() && text.skip(text.len() - tail.len()) == tail
}

/// What a record changes about its service: a lifetime of zero withdraws it.
pub open spec fn service_after(service: ServiceNote, r: RecordNote) -> ServiceNote {
    if r.ttl == 0 {
        ServiceNote { port: None, txt: None }
    } else if r.kind == TYPE_SRV {
        ServiceNote { port: r.port, ..service }
    } else if r.kind == TYPE_TXT {
        ServiceNote { txt: r.txt, ..service }
    } else {
        service
    }
}

/// What a record changes about the scan, and the instance to ask about, if it names
/// a new one.
pub open spec fn scan_after(scan: ScanNote, r: RecordNote) -> (ScanNote, Seq<Seq<char>>) {
    if r.kind == TYPE_PTR && same_ignoring_case(r.name, SERVICE@) {
        match r.target {
            Some(instance) => if scan.queried.len() < MAX_FOUND && !scan.queried.contains(
                instance,
            ) {
                (
                    ScanNote { queried: scan.queried.push(instance), ..scan },
                    seq![instance],
                )
            } else {
                (scan, Seq::empty())
            },
            None => (scan, Seq::empty()),
        }
    } else {
        (service_recorded(scan, lowercase(r.name), r), Seq::empty())
    }
}

/// What a record changes about the service with a name, in lower case.
pub open spec fn service_recorded(scan: ScanNote, name: Seq<char>, r: RecordNote) -> ScanNote {
    if names_an_instance(name) && scan.services.len() < MAX_FOUND {
        if has_service(scan.services, name) {
            let i = service_place(scan.services, name);
            ScanNote {
                services: scan.services.update(i, (name, service_after(scan.services[i].1, r))),
                ..scan
            }
        } else {
            let fresh = ServiceNote { port: None, txt: None };
            ScanNote {
                services: scan.services.push((name, service_after(fresh, r))),
                ..scan
            }
        }
    } else {
        scan
    }
}

/// What several records change, in order, and all the instances to ask about.
pub open spec fn scan_after_all(scan: ScanNote, records: Seq<RecordNote>) -> (
    ScanNote,
    Seq<Seq<char>>,
)
    decreases records.len(),
{
    if records.len() == 0 {
        (scan, Seq::empty())
    } else {
        let (before, asked) = scan_after_all(scan, records.drop_last());
        let (after, more) = scan_after(before, records.last());
        (after, asked + more)
    }
}

/// What a datagram changes. Only what comes from the mDNS port counts, and only a
/// sound reply.
pub open spec fn scan_received(scan: ScanNote, datagram: Seq<u8>, from_port: u16) -> (
    ScanNote,
    Seq<Seq<char>>,
) {
    match records_in(datagram) {
        Some(records) => if from_port == MDNS_PORT {
            scan_after_all(scan, records)
        } else {
            (scan, Seq::empty())
        },
        None => (scan, Seq::empty()),
    }
}

impl ScanNote {
    /// No service and no instance twice, and not too many of either.
    pub open spec fn sound(self) -> bool {
        &&& self.services.len() <= MAX_FOUND
        &&& self.queried.len() <= MAX_FOUND
        &&& self.queried.no_duplicates()
        &&& forall|i: int, j: int|
            0 <= i < j < self.services.len() ==> (#[trigger] self.services[i]).0 != (
            #[trigger] self.services[j]).0
    }
}

/// However many records come in, a scan stays within its bounds and keeps no
/// service or instance twice.
pub proof fn law_scans_stay_bounded(scan: ScanNote, datagram: Seq<u8>, from_port: u16)
    requires
        scan.sound(),
    ensures
        scan_received(scan, datagram, from_port).0.sound(),
{
    if let Some(records) = records_in(datagram) {
        lemma_all_stay_sound(scan, records);
    }
}

proof fn lemma_all_stay_sound(scan: ScanNote, records: Seq<RecordNote>)
    requires
        scan.sound(),
    ensures
        scan_after_all(scan, records).0.sound(),
    decreases records.len(),
{
    if records.len() > 0 {
        lemma_all_stay_sound(scan, records.drop_last());
        lemma_stays_sound(scan_after_all(scan, records.drop_last()).0, records.last());
    }
}

proof fn lemma_stays_sound(scan: ScanNote, r: RecordNote)
    requires
        scan.sound(),
    ensures
        scan_after(scan, r).0.sound(),
{
}

// ---------------------------------------------------------------------------
// The order of what was found
// ---------------------------------------------------------------------------

/// Whether `a` comes before `b` in the order of their characters.
pub open spec fn text_less(a: Seq<char>, b: Seq<char>) -> bool
    decreases a.len(),
{
    if b.len() == 0 {
        false
    } else if a.len() == 0 {
        true
    } else if a[0] != b[0] {
        a[0] < b[0]
    } else {
        text_less(a.skip(1), b.skip(1))
    }
}

/// Whether `a` comes before `b`: by name, then by id.
pub open spec fn listed_before(a: ConnectionNote, b: ConnectionNote) -> bool {
    text_less(a.name, b.name) || (a.name == b.name && text_less(a.id, b.id))
}

/// `c` put into its place in a list, behind its equals.
pub open spec fn inserted(list: Seq<ConnectionNote>, c: ConnectionNote) -> Seq<ConnectionNote>
    decreases list.len(),
{
    if list.len() == 0 || !listed_before(c, list.last()) {
        list.push(c)
    } else {
        inserted(list.drop_last(), c).push(list.last())
    }
}

/// A list put in order.
pub open spec fn ordered(list: Seq<ConnectionNote>) -> Seq<ConnectionNote>
    decreases list.len(),
{
    if list.len() == 0 {
        Seq::empty()
    } else {
        inserted(ordered(list.drop_last()), list.last())
    }
}

/// Whether a row has this id.
pub open spec fn has_id(rows: Seq<ConnectionNote>, id: Seq<char>) -> bool {
    exists|i: int| 0 <= i < rows.len() && (#[trigger] rows[i]).id == id
}

/// A list in which only the first connection of each id is kept.
pub open spec fn first_of_each_id(list: Seq<ConnectionNote>) -> Seq<ConnectionNote>
    decreases list.len(),
{
    if list.len() == 0 {
        Seq::empty()
    } else {
        let rows = first_of_each_id(list.drop_last());
        if has_id(rows, list.last().id) {
            rows
        } else {
            rows.push(list.last())
        }
    }
}

/// The connection that a service offers, once it has told its port and its fields.
pub open spec fn offer_of(service: ServiceNote) -> Option<ConnectionNote> {
    match (service.port, service.txt) {
        (Some(port), Some(txt)) => advertised(port, txt),
        _ => None,
    }
}

/// What the services offer, in their order.
pub open spec fn offers(services: Seq<(Seq<char>, ServiceNote)>) -> Seq<ConnectionNote>
    decreases services.len(),
{
    if services.len() == 0 {
        Seq::empty()
    } else {
        let before = offers(services.drop_last());
        match offer_of(services.last().1) {
            Some(c) => before.push(c),
            None => before,
        }
    }
}

/// Whether `a` comes before `b` in the order of their characters.
pub fn less(a: &str, b: &str) -> (result: bool)
    ensures
        result == text_less(a@, b@),
{
    let x = chars_of(a);
    let y = chars_of(b);
    let mut i: usize = 0;
    proof {
        assert(a@.skip(0) =~= a@);
        assert(b@.skip(0) =~= b@);
    }
    while i < x.len() && i < y.len()
        invariant
            i <= x@.len(),
            i <= y@.len(),
            x@ == a@,
            y@ == b@,
            text_less(a@, b@) == text_less(a@.skip(i as int), b@.skip(i as int)),
        decreases x@.len() - i,
    {
        proof {
            assert(a@.skip(i as int).skip(1) =~= a@.skip(i + 1));
            assert(b@.skip(i as int).skip(1) =~= b@.skip(i + 1));
        }
        if x[i] != y[i] {
            return x[i] < y[i];
        }
        i += 1;
    }
    i < y.len()
}

fn comes_before(a: &Connection, b: &Connection) -> (result: bool)
    ensures
        result == listed_before(a@, b@),
{
    less(a.name.as_str(), b.name.as_str()) || (same_text(a.name.as_str(), b.name.as_str()) && less(
        a.id.as_str(),
        b.id.as_str(),
    ))
}

fn insert_in_order(list: &mut Vec<Connection>, c: Connection)
    ensures
        connection_notes(final(list)@) == inserted(connection_notes(old(list)@), c@),
{
    let ghost all = connection_notes(list@);
    let mut i: usize = list.len();
    proof {
        assert(all.take(all.len() as int) =~= all);
        assert(inserted(all, c@) + all.skip(all.len() as int) =~= inserted(all, c@));
    }
    while i > 0 && comes_before(&c, &list[i - 1])
        invariant
            i <= list@.len(),
            all == connection_notes(list@),
            inserted(all, c@) == inserted(all.take(i as int), c@) + all.skip(i as int),
        decreases i,
    {
        proof {
            let front = all.take(i as int);
            assert(front.last() == all[i - 1]);
            assert(front.drop_last() =~= all.take(i - 1));
            assert(inserted(all.take(i - 1), c@).push(all[i - 1]) + all.skip(i as int) =~= inserted(
                all.take(i - 1),
                c@,
            ) + all.skip(i - 1));
        }
        i -= 1;
    }
    let ghost note = c@;
    proof {
        let front = all.take(i as int);
        if i > 0 {
            assert(front.last() == list@[i - 1]@);
        }
        assert(inserted(front, note) == front.push(note));
    }
    list.insert(i, c);
    proof {
        assert(connection_notes(list@) =~= all.take(i as int).push(note) + all.skip(i as int));
    }
}

fn any_has_id(rows: &Vec<Connection>, id: &str) -> (found: bool)
    ensures
        found == has_id(connection_notes(rows@), id@),
{
    let mut i: usize = 0;
    while i < rows.len()
        invariant
            i <= rows@.len(),
            forall|k: int| 0 <= k < i ==> (#[trigger] rows@[k]).id@ != id@,
        decreases rows@.len() - i,
    {
        if same_text(rows[i].id.as_str(), id) {
            proof {
                assert(connection_notes(rows@)[i as int].id == id@);
            }
            return true;
        }
        i += 1;
    }
    proof {
        assert forall|k: int| 0 <= k < connection_notes(rows@).len() implies (
        #[trigger] connection_notes(rows@)[k]).id != id@ by {
            assert(rows@[k].id@ != id@);
        }
    }
    false
}

// ---------------------------------------------------------------------------
// The scan
// ---------------------------------------------------------------------------

impl Service {
    pub closed spec fn view(&self) -> ServiceNote {
        ServiceNote {
            port: self.port,
            txt: match self.txt {
                Some(txt) => Some(fields_notes(txt@)),
                None => None,
            },
        }
    }

    fn update(&mut self, r: Record)
        ensures
            final(self)@ == service_after(old(self)@, r@),
    {
        if r.ttl == 0 {
            self.port = None;
            self.txt = None;
        } else if r.kind == TYPE_SRV {
            self.port = r.port;
        } else if r.kind == TYPE_TXT {
            self.txt = r.txt;
        }
    }
}

pub open spec fn service_notes(services: Seq<(String, Service)>) -> Seq<(Seq<char>, ServiceNote)> {
    Seq::new(services.len(), |i: int| (services[i].0@, services[i].1@))
}

impl Scan {
    pub closed spec fn view(&self) -> ScanNote {
        ScanNote { services: service_notes(self.services@), queried: parts_notes(self.queried@) }
    }

    /// Nothing has been heard yet.
    pub fn new() -> (scan: Self)
        ensures
            scan@ == (ScanNote { services: Seq::empty(), queried: Seq::empty() }),
            scan@.sound(),
    {
        let scan = Scan { services: Vec::new(), queried: Vec::new() };
        proof {
            assert(scan@.services =~= Seq::empty());
            assert(scan@.queried =~= Seq::empty());
        }
        scan
    }

    /// Take in a datagram. The instances that come back are to be asked about, on
    /// the socket that it came from: one query for `TYPE_SRV`, one for `TYPE_TXT`.
    pub fn receive(&mut self, datagram: &[u8], from_port: u16) -> (ask: Vec<String>)
        requires
            old(self)@.sound(),
        ensures
            final(self)@.sound(),
            (final(self)@, parts_notes(ask@)) == scan_received(
                old(self)@,
                datagram@,
                from_port,
            ),
    {
        let ghost before = self@;
        let mut ask: Vec<String> = Vec::new();
        proof {
            law_scans_stay_bounded(before, datagram@, from_port);
            assert(parts_notes(ask@) =~= Seq::<Seq<char>>::empty());
        }
        if from_port != MDNS_PORT {
            return ask;
        }
        let found = match records(datagram) {
            Some(found) => found,
            None => {
                return ask;
            },
        };
        let ghost notes = record_notes(found@);
        let ghost items = found@;
        proof {
            assert(notes.take(0) =~= Seq::<RecordNote>::empty());
        }
        for r in it: found.into_iter()
            invariant
                it.seq() == items,
                notes == record_notes(items),
                self@.sound(),
                (self@, parts_notes(ask@)) == scan_after_all(
                    before,
                    notes.take(it.index() as int),
                ),
        {
            let ghost so_far = parts_notes(ask@);
            let ghost here = self@;
            proof {
                assert(notes.take(it.index() + 1).drop_last() =~= notes.take(it.index() as int));
                assert(notes.take(it.index() + 1).last() == r@);
                lemma_stays_sound(here, r@);
            }
            match self.take_record(r) {
                Some(instance) => {
                    let ghost name = instance@;
                    ask.push(instance);
                    proof {
                        assert(parts_notes(ask@) =~= so_far + seq![name]);
                    }
                },
                None => {
                    proof {
                        assert(so_far + Seq::<Seq<char>>::empty() =~= so_far);
                    }
                },
            }
        }
        proof {
            assert(notes.take(items.len() as int) =~= notes);
        }
        ask
    }

    fn take_record(&mut self, r: Record) -> (ask: Option<String>)
        requires
            old(self)@.sound(),
        ensures
            (
                final(self)@,
                match ask {
                    Some(instance) => seq![instance@],
                    None => Seq::empty(),
                },
            ) == scan_after(old(self)@, r@),
    {
        let ghost before = self@;
        if r.kind == TYPE_PTR && eq_ignore_ascii_case(r.name.as_str(), SERVICE) {
            match r.target {
                Some(instance) => {
                    if self.queried.len() < MAX_FOUND && !self.was_queried(instance.as_str()) {
                        self.queried.push(instance.clone());
                        proof {
                            assert(self@.queried =~= before.queried.push(instance@));
                        }
                        Some(instance)
                    } else {
                        None
                    }
                },
                None => None,
            }
        } else {
            let name = to_lower(r.name.as_str());
            self.record_service(name, r);
            None
        }
    }

    /// Take in a record of the service with a name, in lower case.
    pub fn record_service(&mut self, name: String, r: Record)
        requires
            old(self)@.sound(),
        ensures
            final(self)@ == service_recorded(old(self)@, name@, r@),
    {
        let ghost before = self@;
        if is_instance(name.as_str()) && self.services.len() < MAX_FOUND {
            let ghost note = r@;
            match self.find_service(name.as_str()) {
                Some(i) => {
                    self.services[i].1.update(r);
                    proof {
                        assert(self@.services =~= before.services.update(
                            i as int,
                            (name@, service_after(before.services[i as int].1, note)),
                        ));
                    }
                },
                None => {
                    let mut service = Service { port: None, txt: None };
                    service.update(r);
                    let ghost made = service@;
                    let ghost key = name@;
                    self.services.push((name, service));
                    proof {
                        assert(self@.services =~= before.services.push((key, made)));
                    }
                },
            }
        }
    }

    fn was_queried(&self, instance: &str) -> (found: bool)
        ensures
            found == self@.queried.contains(instance@),
    {
        let mut i: usize = 0;
        while i < self.queried.len()
            invariant
                i <= self.queried@.len(),
                forall|k: int| 0 <= k < i ==> (#[trigger] self.queried@[k])@ != instance@,
            decreases self.queried@.len() - i,
        {
            if same_text(self.queried[i].as_str(), instance) {
                proof {
                    assert(self@.queried[i as int] == instance@);
                }
                return true;
            }
            i += 1;
        }
        proof {
            assert forall|k: int| 0 <= k < self@.queried.len() implies self@.queried[k]
                != instance@ by {
                assert(self.queried@[k]@ != instance@);
            }
        }
        false
    }

    fn find_service(&self, name: &str) -> (index: Option<usize>)
        requires
            self@.sound(),
        ensures
            match index {
                Some(i) => {
                    &&& has_service(self@.services, name@)
                    &&& i == service_place(self@.services, name@)
                    &&& i < self.services@.len()
                    &&& self.services@[i as int].0@ == name@
                },
                None => !has_service(self@.services, name@),
            },
    {
        let mut i: usize = 0;
        while i < self.services.len()
            invariant
                i <= self.services@.len(),
                self@.sound(),
                forall|k: int| 0 <= k < i ==> (#[trigger] self.services@[k]).0@ != name@,
            decreases self.services@.len() - i,
        {
            if same_text(self.services[i].0.as_str(), name) {
                proof {
                    assert(self@.services[i as int].0 == name@);
                    let p = service_place(self@.services, name@);
                    assert(self@.services[p].0 == name@);
                    if p < i {
                        assert(self@.services[p].0 != self@.services[i as int].0);
                    } else if i < p {
                        assert(self@.services[i as int].0 != self@.services[p].0);
                    }
                }
                return Some(i);
            }
            i += 1;
        }
        proof {
            assert forall|k: int| 0 <= k < self@.services.len() implies (
            #[trigger] self@.services[k]).0 != name@ by {
                assert(self.services@[k].0@ != name@);
            }
        }
        None
    }

    /// The hosts found, by name and then by id, each id once.
    pub fn found(&self) -> (rows: Vec<Connection>)
        ensures
            connection_notes(rows@) == first_of_each_id(ordered(offers(self@.services))),
    {
        let ghost all = self@.services;
        let mut list: Vec<Connection> = Vec::new();
        let mut i: usize = 0;
        proof {
            assert(all.take(0) =~= Seq::empty());
            assert(offers(all.take(0)) =~= Seq::<ConnectionNote>::empty());
            assert(connection_notes(list@) =~= Seq::<ConnectionNote>::empty());
        }
        while i < self.services.len()
            invariant
                i <= self.services@.len(),
                all == self@.services,
                connection_notes(list@) == ordered(offers(all.take(i as int))),
            decreases self.services@.len() - i,
        {
            proof {
                assert(all.take(i + 1).drop_last() =~= all.take(i as int));
                assert(all.take(i + 1).last() == all[i as int]);
            }
            match offer(&self.services[i].1) {
                Some(c) => {
                    proof {
                        let before = offers(all.take(i as int));
                        assert(before.push(c@).drop_last() =~= before);
                    }
                    insert_in_order(&mut list, c);
                },
                None => {},
            }
            i += 1;
        }
        proof {
            assert(all.take(i as int) =~= all);
        }
        let ghost sorted = connection_notes(list@);
        let mut rows: Vec<Connection> = Vec::new();
        let mut k: usize = 0;
        proof {
            assert(sorted.take(0) =~= Seq::<ConnectionNote>::empty());
            assert(connection_notes(rows@) =~= Seq::<ConnectionNote>::empty());
        }
        while k < list.len()
            invariant
                k <= list@.len(),
                sorted == connection_notes(list@),
                connection_notes(rows@) == first_of_each_id(sorted.take(k as int)),
            decreases list@.len() - k,
        {
            let ghost before = connection_notes(rows@);
            proof {
                assert(sorted.take(k + 1).drop_last() =~= sorted.take(k as int));
                assert(sorted.take(k + 1).last() == list@[k as int]@);
            }
            if !any_has_id(&rows, list[k].id.as_str()) {
                rows.push(list[k].clone());
                proof {
                    assert(connection_notes(rows@) =~= before.push(list@[k as int]@));
                }
            }
            k += 1;
        }
        proof {
            assert(sorted.take(k as int) =~= sorted);
        }
        rows
    }

    /// Whether the browse query is due again: once, after a while.
    pub fn retry_due(elapsed_ms: u64, retried: bool) -> (due: bool)
        ensures
            due == (!retried && elapsed_ms > RETRY_AFTER_MS),
    {
        !retried && elapsed_ms > RETRY_AFTER_MS
    }

    /// Whether the scan has run its time.
    pub fn over(elapsed_ms: u64) -> (over: bool)
        ensures
            over == (elapsed_ms >= SCAN_MS),
    {
        elapsed_ms >= SCAN_MS
    }
}

fn offer(service: &Service) -> (found: Option<Connection>)
    ensures
        match found {
            Some(c) => offer_of(service@) == Some(c@),
            None => offer_of(service@) is None,
        },
{
    match (service.port, &service.txt) {
        (Some(port), Some(txt)) => Connection::from_advertisement(port, txt.as_slice()),
        _ => None,
    }
}

fn is_instance(text: &str) -> (found: bool)
    ensures
        found == names_an_instance(text@),
{
    let chars = chars_of(text);
    let mut tail = vec!['.'];
    let service = chars_of(SERVICE);
    let mut k: usize = 0;
    while k < service.len()
        invariant
            k <= service@.len(),
            service@ == SERVICE@,
            tail@ == seq!['.'] + SERVICE@.take(k as int),
        decreases service@.len() - k,
    {
        tail.push(service[k]);
        proof {
            assert(SERVICE@.take(k + 1) =~= SERVICE@.take(k as int).push(SERVICE@[k as int]));
            assert(tail@ =~= seq!['.'] + SERVICE@.take(k + 1));
        }
        k += 1;
    }
    proof {
        assert(SERVICE@.take(k as int) =~= SERVICE@);
    }
    if chars.len() < tail.len() {
        return false;
    }
    let start: usize = chars.len() - tail.len();
    let ghost end = text@.skip(start as int);
    let mut i: usize = 0;
    proof {
        assert(chars@.len() == chars.len());
    }
    while i < tail.len()
        invariant
            i <= tail@.len(),
            chars@ == text@,
            chars@.len() <= usize::MAX,
            start + tail@.len() == chars@.len(),
            end == text@.skip(start as int),
            tail@ == seq!['.'] + SERVICE@,
            forall|m: int| 0 <= m < i ==> end[m] == #[trigger] tail@[m],
        decreases tail@.len() - i,
    {
        if chars[start + i] != tail[i] {
            proof {
                assert(end[i as int] != tail@[i as int]);
            }
            return false;
        }
        i += 1;
    }
    proof {
        assert(end =~= tail@);
    }
    true
}

// ---------------------------------------------------------------------------
// Laws of the order
// ---------------------------------------------------------------------------

pub proof fn lemma_less_is_strict(a: Seq<char>, b: Seq<char>)
    ensures
        !(text_less(a, b) && text_less(b, a)),
        a == b ==> !text_less(a, b),
        !text_less(a, b) && !text_less(b, a) ==> a == b,
    decreases a.len(),
{
    if a.len() > 0 && b.len() > 0 && a[0] == b[0] {
        lemma_less_is_strict(a.skip(1), b.skip(1));
        if a.skip(1) == b.skip(1) {
            assert(a =~= seq![a[0]] + a.skip(1));
            assert(b =~= seq![b[0]] + b.skip(1));
        }
    } else if a.len() == 0 && b.len() == 0 {
        assert(a =~= b);
    }
}

pub proof fn lemma_less_is_transitive(a: Seq<char>, b: Seq<char>, c: Seq<char>)
    requires
        text_less(a, b),
        text_less(b, c),
    ensures
        text_less(a, c),
    decreases a.len(),
{
    if a.len() > 0 && b.len() > 0 && c.len() > 0 && a[0] == b[0] && b[0] == c[0] {
        lemma_less_is_transitive(a.skip(1), b.skip(1), c.skip(1));
    }
}

/// No later row comes before an earlier one.
pub open spec fn in_order(list: Seq<ConnectionNote>) -> bool {
    forall|i: int, j: int|
        0 <= i < j < list.len() ==> !listed_before(#[trigger] list[j], #[trigger] list[i])
}

proof fn lemma_before_is_transitive(a: ConnectionNote, b: ConnectionNote, c: ConnectionNote)
    requires
        !listed_before(b, a),
        !listed_before(c, b),
    ensures
        !listed_before(c, a),
{
    lemma_less_is_strict(a.name, b.name);
    lemma_less_is_strict(b.name, c.name);
    lemma_less_is_strict(a.name, c.name);
    lemma_less_is_strict(a.id, b.id);
    lemma_less_is_strict(b.id, c.id);
    lemma_less_is_strict(a.id, c.id);
    if text_less(a.name, b.name) && text_less(b.name, c.name) {
        lemma_less_is_transitive(a.name, b.name, c.name);
    }
    if text_less(a.id, b.id) && text_less(b.id, c.id) {
        lemma_less_is_transitive(a.id, b.id, c.id);
    }
}

proof fn lemma_inserted(list: Seq<ConnectionNote>, c: ConnectionNote)
    requires
        in_order(list),
    ensures
        in_order(inserted(list, c)),
        inserted(list, c).to_multiset() == list.to_multiset().insert(c),
        inserted(list, c).len() == list.len() + 1,
    decreases list.len(),
{
    broadcast use vstd::seq_lib::group_to_multiset_ensures;

    if list.len() == 0 || !listed_before(c, list.last()) {
        assert forall|i: int, j: int| 0 <= i < j < list.len() + 1 implies !listed_before(
            #[trigger] list.push(c)[j],
            #[trigger] list.push(c)[i],
        ) by {
            if j == list.len() {
                if i < list.len() - 1 {
                    assert(!listed_before(list[list.len() - 1], list[i]));
                    lemma_before_is_transitive(list[i], list.last(), c);
                }
            } else {
                assert(!listed_before(list[j], list[i]));
            }
        }
    } else {
        let front = list.drop_last();
        assert forall|i: int, j: int| 0 <= i < j < front.len() implies !listed_before(
            #[trigger] front[j],
            #[trigger] front[i],
        ) by {
            assert(!listed_before(list[j], list[i]));
        }
        lemma_inserted(front, c);
        let before = inserted(front, c);
        let all = before.push(list.last());
        assert(front.push(list.last()) =~= list);
        assert(all.to_multiset() =~= list.to_multiset().insert(c));
        assert forall|i: int, j: int| 0 <= i < j < all.len() implies !listed_before(
            #[trigger] all[j],
            #[trigger] all[i],
        ) by {
            if j < before.len() {
                assert(!listed_before(before[j], before[i]));
            } else {
                assert(before.to_multiset().count(before[i]) > 0) by {
                    assert(before.contains(before[i]));
                }
                if before[i] != c {
                    assert(front.to_multiset().count(before[i]) > 0);
                    assert(front.contains(before[i]));
                    let k = choose|k: int| 0 <= k < front.len() && front[k] == before[i];
                    assert(!listed_before(list[list.len() - 1], list[k]));
                } else {
                    lemma_less_is_strict(c.name, list.last().name);
                    lemma_less_is_strict(c.id, list.last().id);
                }
            }
        }
    }
}

/// The ordered list holds what the list held, each as often, in order.
pub proof fn law_ordered_lists_are_in_order(list: Seq<ConnectionNote>)
    ensures
        in_order(ordered(list)),
        ordered(list).to_multiset() == list.to_multiset(),
    decreases list.len(),
{
    broadcast use vstd::seq_lib::group_to_multiset_ensures;

    if list.len() > 0 {
        law_ordered_lists_are_in_order(list.drop_last());
        lemma_inserted(ordered(list.drop_last()), list.last());
        assert(list.drop_last().push(list.last()) =~= list);
    } else {
        assert(ordered(list) =~= list);
    }
}

/// Of the rows that are kept no two share an id, the order stays, every row was
/// there, and every id is still there.
pub proof fn law_each_id_once(list: Seq<ConnectionNote>)
    requires
        in_order(list),
    ensures
        in_order(first_of_each_id(list)),
        forall|i: int, j: int|
            0 <= i < j < first_of_each_id(list).len() ==> (#[trigger] first_of_each_id(list)[i]).id
                != (#[trigger] first_of_each_id(list)[j]).id,
        forall|i: int|
            0 <= i < first_of_each_id(list).len() ==> list.contains(
                #[trigger] first_of_each_id(list)[i],
            ),
        forall|i: int| 0 <= i < list.len() ==> has_id(first_of_each_id(list), (#[trigger] list[i]).id),
    decreases list.len(),
{
    if list.len() > 0 {
        let front = list.drop_last();
        assert forall|i: int, j: int| 0 <= i < j < front.len() implies !listed_before(
            #[trigger] front[j],
            #[trigger] front[i],
        ) by {
            assert(!listed_before(list[j], list[i]));
        }
        law_each_id_once(front);
        let before = first_of_each_id(front);
        let rows = first_of_each_id(list);
        let last = list.last();
        assert forall|i: int| 0 <= i < rows.len() implies list.contains(#[trigger] rows[i]) by {
            if i < before.len() {
                assert(rows[i] == before[i]);
                let k = choose|k: int| 0 <= k < front.len() && front[k] == before[i];
                assert(list[k] == rows[i]);
            } else {
                assert(list[list.len() - 1] == rows[i]);
            }
        }
        assert forall|i: int, j: int| 0 <= i < j < rows.len() implies !listed_before(
            #[trigger] rows[j],
            #[trigger] rows[i],
        ) by {
            assert(rows[i] == before[i]);
            if j < before.len() {
                assert(rows[j] == before[j]);
            } else {
                let k = choose|k: int| 0 <= k < front.len() && front[k] == before[i];
                assert(!listed_before(list[list.len() - 1], list[k]));
            }
        }
        assert forall|i: int, j: int| 0 <= i < j < rows.len() implies (#[trigger] rows[i]).id != (
        #[trigger] rows[j]).id by {
            assert(rows[i] == before[i]);
            if j < before.len() {
                assert(rows[j] == before[j]);
            }
        }
        assert forall|i: int| 0 <= i < list.len() implies has_id(rows, (#[trigger] list[i]).id) by {
            if i < front.len() {
                assert(front[i] == list[i]);
                let k = choose|k: int| 0 <= k < before.len() && (#[trigger] before[k]).id == front[i].id;
                assert(rows[k] == before[k]);
            } else if has_id(before, last.id) {
                let k = choose|k: int| 0 <= k < before.len() && (#[trigger] before[k]).id == last.id;
                assert(rows[k] == before[k]);
            } else {
                assert(rows[rows.len() - 1] == last);
            }
        }
    }
}

} // verus!
