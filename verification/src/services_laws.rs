//! What a scan promises: which instances are asked about, what comes of the records of
//! a service, and which hosts are found in the end.

use vstd::prelude::*;

use crate::connections::advertised;
use crate::connections::ConnectionNote;
use crate::discovery::records_in;
use crate::discovery::RecordNote;
use crate::services::first_of_each_id;
use crate::services::has_id;
use crate::services::has_service;
use crate::services::in_order;
use crate::services::law_each_id_once;
use crate::services::law_ordered_lists_are_in_order;
use crate::services::names_an_instance;
use crate::services::offers;
use crate::services::ordered;
use crate::services::scan_after;
use crate::services::scan_after_all;
use crate::services::scan_received;
use crate::services::service_place;
use crate::services::service_recorded;
use crate::services::text_less;
use crate::services::ScanNote;
use crate::services::ServiceNote;
use crate::text::lowercase;
use crate::text::same_ignoring_case;

verus! {

/// What is known of the service of a name.
pub open spec fn service_of(scan: ScanNote, name: Seq<char>) -> Option<ServiceNote> {
    if has_service(scan.services, name) {
        Some(scan.services[service_place(scan.services, name)].1)
    } else {
        None
    }
}

/// The port that a service has told.
pub open spec fn port_of(scan: ScanNote, name: Seq<char>) -> Option<u16> {
    match service_of(scan, name) {
        Some(service) => service.port,
        None => None,
    }
}

/// The fields that a service has told.
pub open spec fn txt_of(scan: ScanNote, name: Seq<char>) -> Option<Seq<(Seq<char>, Seq<char>)>> {
    match service_of(scan, name) {
        Some(service) => service.txt,
        None => None,
    }
}

/// Whether a name is that of an instance: it ends in a dot and the service.
pub open spec fn is_instance_name(name: Seq<char>) -> bool {
    exists|front: Seq<char>| name == #[trigger] (front + seq!['.'] + "_transom._tcp.local"@)
}

proof fn lemma_instance_name(name: Seq<char>)
    ensures
        is_instance_name(name) <==> names_an_instance(name),
{
    let tail = seq!['.'] + "_transom._tcp.local"@;
    if names_an_instance(name) {
        let front = name.take(name.len() - tail.len());
        assert(name =~= front + name.skip(name.len() - tail.len()));
        assert(front + tail =~= front + seq!['.'] + "_transom._tcp.local"@);
    }
    if is_instance_name(name) {
        let front = choose|front: Seq<char>|
            name == #[trigger] (front + seq!['.'] + "_transom._tcp.local"@);
        assert(name.skip(name.len() - tail.len()) =~= tail);
    }
}

proof fn lemma_service_at(scan: ScanNote, i: int)
    requires
        scan.sound(),
        0 <= i < scan.services.len(),
    ensures
        service_of(scan, scan.services[i].0) == Some(scan.services[i].1),
        service_place(scan.services, scan.services[i].0) == i,
{
    let p = service_place(scan.services, scan.services[i].0);
    assert(scan.services[i].0 == scan.services[i].0);
    if p < i {
        assert(scan.services[p].0 != scan.services[i].0);
    } else if i < p {
        assert(scan.services[i].0 != scan.services[p].0);
    }
}

proof fn lemma_recorded_is_sound(scan: ScanNote, name: Seq<char>, r: RecordNote)
    requires
        scan.sound(),
    ensures
        service_recorded(scan, name, r).sound(),
{
}

proof fn lemma_others_stay(scan: ScanNote, name: Seq<char>, r: RecordNote, other: Seq<char>)
    requires
        scan.sound(),
        other != name,
    ensures
        service_of(service_recorded(scan, name, r), other) == service_of(scan, other),
{
    let after = service_recorded(scan, name, r);
    lemma_recorded_is_sound(scan, name, r);
    if has_service(scan.services, other) {
        let i = service_place(scan.services, other);
        assert(scan.services[i].0 == other);
        assert(after.services[i] == scan.services[i]);
        lemma_service_at(after, i);
    } else if has_service(after.services, other) {
        let i = service_place(after.services, other);
        assert(after.services[i].0 == other);
        if i < scan.services.len() {
            assert(scan.services[i].0 == other);
        }
    }
}

proof fn lemma_place_of_recorded(scan: ScanNote, name: Seq<char>, r: RecordNote)
    requires
        scan.sound(),
        scan.services.len() < 128,
        names_an_instance(name),
    ensures
        service_of(service_recorded(scan, name, r), name) == Some(
            crate::services::service_after(
                match service_of(scan, name) {
                    Some(service) => service,
                    None => (ServiceNote { port: None, txt: None }),
                },
                r,
            ),
        ),
{
    let after = service_recorded(scan, name, r);
    lemma_recorded_is_sound(scan, name, r);
    if has_service(scan.services, name) {
        let i = service_place(scan.services, name);
        assert(scan.services[i].0 == name);
        lemma_service_at(after, i);
    } else {
        lemma_service_at(after, scan.services.len() as int);
    }
}

/// While there is room, a service record (type 33) tells the port of its service and a
/// text record (type 16) its fields, and neither touches the other. A record whose
/// lifetime is zero withdraws both. No other service changes.
pub proof fn law_records_tell_of_their_service(
    scan: ScanNote,
    name: Seq<char>,
    r: RecordNote,
    other: Seq<char>,
)
    requires
        scan.sound(),
        scan.services.len() < 128,
        is_instance_name(name),
    ensures
        ({
            let after = service_recorded(scan, name, r);
            &&& after.sound()
            &&& after.queried == scan.queried
            &&& service_of(after, name) is Some
            &&& r.ttl == 0 ==> port_of(after, name) is None && txt_of(after, name) is None
            &&& r.ttl > 0 ==> port_of(after, name) == if r.kind == 33 {
                r.port
            } else {
                port_of(scan, name)
            }
            &&& r.ttl > 0 ==> txt_of(after, name) == if r.kind == 16 {
                r.txt
            } else {
                txt_of(scan, name)
            }
            &&& other != name ==> service_of(after, other) == service_of(scan, other)
        }),
{
    lemma_instance_name(name);
    lemma_recorded_is_sound(scan, name, r);
    lemma_place_of_recorded(scan, name, r);
    if other != name {
        lemma_others_stay(scan, name, r, other);
    }
}

/// What is no instance of the service is passed over.
pub proof fn law_other_names_are_passed_over(scan: ScanNote, name: Seq<char>, r: RecordNote)
    requires
        !is_instance_name(name),
    ensures
        service_recorded(scan, name, r) == scan,
{
    lemma_instance_name(name);
}

/// A service is known by its name in lower case: of two records whose names differ in
/// case alone, one tells the port and the other the fields, in either order.
pub proof fn law_the_order_of_records_does_not_matter(
    scan: ScanNote,
    told: RecordNote,
    text: RecordNote,
)
    requires
        scan.sound(),
        scan.services.len() < 127,
        told.kind == 33,
        text.kind == 16,
        told.ttl > 0,
        text.ttl > 0,
        lowercase(told.name) == lowercase(text.name),
        is_instance_name(lowercase(told.name)),
    ensures
        ({
            let name = lowercase(told.name);
            let one = scan_after_all(scan, seq![told, text]);
            let two = scan_after_all(scan, seq![text, told]);
            &&& port_of(one.0, name) == told.port
            &&& txt_of(one.0, name) == text.txt
            &&& port_of(two.0, name) == told.port
            &&& txt_of(two.0, name) == text.txt
            &&& one.1.len() == 0
            &&& two.1.len() == 0
        }),
{
    let name = lowercase(told.name);
    let none = Seq::<RecordNote>::empty();
    let one = service_recorded(scan, name, told);
    let two = service_recorded(scan, name, text);
    reveal_with_fuel(scan_after_all, 3);
    assert(seq![told, text].drop_last() =~= seq![told]);
    assert(seq![text, told].drop_last() =~= seq![text]);
    assert(seq![told].drop_last() =~= none);
    assert(seq![text].drop_last() =~= none);
    law_records_tell_of_their_service(scan, name, told, name);
    law_records_tell_of_their_service(scan, name, text, name);
    law_records_tell_of_their_service(one, name, text, name);
    law_records_tell_of_their_service(two, name, told, name);
}

/// A pointer record (type 12) of the service names an instance, which is asked about the
/// first time and never again. It changes no service. At most 128 are asked about.
pub proof fn law_instances_are_asked_about_once(scan: ScanNote, r: RecordNote, instance: Seq<char>)
    requires
        scan.sound(),
        r.kind == 12,
        same_ignoring_case(r.name, "_transom._tcp.local"@),
        r.target == Some(instance),
    ensures
        ({
            let (after, asked) = scan_after(scan, r);
            let (again, more) = scan_after(after, r);
            let is_new = scan.queried.len() < 128 && !scan.queried.contains(instance);
            &&& asked == if is_new {
                seq![instance]
            } else {
                Seq::empty()
            }
            &&& after.queried == scan.queried + asked
            &&& after.services == scan.services
            &&& more.len() == 0
            &&& again == after
        }),
{
    let (after, asked) = scan_after(scan, r);
    if scan.queried.len() < 128 && !scan.queried.contains(instance) {
        assert(after.queried.last() == instance);
        assert(after.queried =~= scan.queried + asked);
    } else {
        assert(after.queried =~= scan.queried + asked);
    }
}

/// Only replies that come from port 5353 count, and only sound ones.
pub proof fn law_only_replies_count(scan: ScanNote, datagram: Seq<u8>, from_port: u16)
    ensures
        from_port != 5353 || records_in(datagram) is None ==> scan_received(
            scan,
            datagram,
            from_port,
        ) == (scan, Seq::<Seq<char>>::empty()),
        from_port == 5353 && records_in(datagram) is Some ==> scan_received(
            scan,
            datagram,
            from_port,
        ) == scan_after_all(scan, records_in(datagram)->0),
{
}

/// Records that come in two replies do what they do in one.
pub proof fn law_replies_add_up(scan: ScanNote, front: Seq<RecordNote>, back: Seq<RecordNote>)
    ensures
        ({
            let (between, asked) = scan_after_all(scan, front);
            let (after, more) = scan_after_all(between, back);
            scan_after_all(scan, front + back) == (after, asked + more)
        }),
    decreases back.len(),
{
    let (between, asked) = scan_after_all(scan, front);
    if back.len() == 0 {
        assert(front + back =~= front);
        assert(asked + Seq::<Seq<char>>::empty() =~= asked);
    } else {
        law_replies_add_up(scan, front, back.drop_last());
        assert((front + back).drop_last() =~= front + back.drop_last());
        let (before, some) = scan_after_all(between, back.drop_last());
        let (after, more) = scan_after(before, back.last());
        assert((asked + some) + more =~= asked + (some + more));
    }
}

// --- what is found ---------------------------------------------------------

proof fn lemma_offers_come_of_services(services: Seq<(Seq<char>, ServiceNote)>, c: ConnectionNote)
    ensures
        offers(services).contains(c) <==> exists|i: int|
            0 <= i < services.len() && (#[trigger] services[i]).1.port is Some
                && services[i].1.txt is Some && advertised(
                services[i].1.port->0,
                services[i].1.txt->0,
            ) == Some(c),
    decreases services.len(),
{
    if services.len() > 0 {
        let front = services.drop_last();
        let last = services.last().1;
        let n = services.len() - 1;
        lemma_offers_come_of_services(front, c);
        let before = offers(front);
        let all = offers(services);
        if all.contains(c) {
            let k = choose|k: int| 0 <= k < all.len() && all[k] == c;
            if k < before.len() {
                assert(before[k] == c);
                let i = choose|i: int|
                    0 <= i < front.len() && (#[trigger] front[i]).1.port is Some
                        && front[i].1.txt is Some && advertised(
                        front[i].1.port->0,
                        front[i].1.txt->0,
                    ) == Some(c);
                assert(services[i] == front[i]);
            } else {
                assert(services[n].1.port is Some);
            }
        }
        if exists|i: int|
            0 <= i < services.len() && (#[trigger] services[i]).1.port is Some
                && services[i].1.txt is Some && advertised(
                services[i].1.port->0,
                services[i].1.txt->0,
            ) == Some(c) {
            let i = choose|i: int|
                0 <= i < services.len() && (#[trigger] services[i]).1.port is Some
                    && services[i].1.txt is Some && advertised(
                    services[i].1.port->0,
                    services[i].1.txt->0,
                ) == Some(c);
            if i < n {
                assert(front[i] == services[i]);
                assert(before.contains(c));
                let k = choose|k: int| 0 <= k < before.len() && before[k] == c;
                assert(all[k] == c);
            } else {
                assert(all[all.len() - 1] == c);
            }
        }
    }
}

/// Every row that a scan finds is what some service advertises with its port and its
/// fields; every host that a service advertises is found under its id; no id comes twice,
/// and the rows stand by name and then by id.
pub proof fn law_found_is_what_services_advertise(
    services: Seq<(Seq<char>, ServiceNote)>,
    i: int,
    k: int,
)
    ensures
        ({
            let rows = first_of_each_id(ordered(offers(services)));
            &&& 0 <= k < rows.len() ==> exists|j: int|
                0 <= j < services.len() && (#[trigger] services[j]).1.port is Some
                    && services[j].1.txt is Some && advertised(
                    services[j].1.port->0,
                    services[j].1.txt->0,
                ) == Some(rows[k])
            &&& 0 <= i < services.len() && services[i].1.port is Some && services[i].1.txt is Some
                ==> (advertised(services[i].1.port->0, services[i].1.txt->0) matches Some(c)
                ==> has_id(rows, c.id))
            &&& forall|a: int, b: int|
                0 <= a < b < rows.len() ==> (#[trigger] rows[a]).id != (#[trigger] rows[b]).id
            &&& forall|a: int, b: int|
                0 <= a < b < rows.len() ==> !text_less(
                    (#[trigger] rows[b]).name,
                    (#[trigger] rows[a]).name,
                )
            &&& forall|a: int, b: int|
                0 <= a < b < rows.len() && (#[trigger] rows[a]).name == (#[trigger] rows[b]).name
                    ==> !text_less(rows[b].id, rows[a].id)
        }),
{
    broadcast use vstd::seq_lib::group_to_multiset_ensures;

    let list = offers(services);
    let sorted = ordered(list);
    let rows = first_of_each_id(sorted);
    law_ordered_lists_are_in_order(list);
    law_each_id_once(sorted);
    if 0 <= k < rows.len() {
        assert(sorted.contains(rows[k]));
        assert(sorted.to_multiset().count(rows[k]) > 0);
        assert(list.contains(rows[k]));
        lemma_offers_come_of_services(services, rows[k]);
    }
    if 0 <= i < services.len() && services[i].1.port is Some && services[i].1.txt is Some {
        if let Some(c) = advertised(services[i].1.port->0, services[i].1.txt->0) {
            lemma_offers_come_of_services(services, c);
            assert(services[i].1.port is Some);
            assert(list.contains(c));
            assert(list.to_multiset().count(c) > 0);
            assert(sorted.contains(c));
            let m = choose|m: int| 0 <= m < sorted.len() && sorted[m] == c;
            assert(has_id(rows, sorted[m].id));
        }
    }
    assert(in_order(rows));
    assert forall|a: int, b: int| 0 <= a < b < rows.len() implies !text_less(
        (#[trigger] rows[b]).name,
        (#[trigger] rows[a]).name,
    ) by {
        assert(!crate::services::listed_before(rows[b], rows[a]));
    }
    assert forall|a: int, b: int|
        0 <= a < b < rows.len() && (#[trigger] rows[a]).name == (#[trigger] rows[b]).name implies
        !text_less(rows[b].id, rows[a].id) by {
        assert(!crate::services::listed_before(rows[b], rows[a]));
    }
}

/// The order of texts is that of their characters: a text comes before another if at the
/// first place where they differ it has the smaller character, or if it ends there.
pub proof fn law_texts_are_ordered_by_character(front: Seq<char>, a: Seq<char>, b: Seq<char>)
    ensures
        a.len() == 0 && b.len() > 0 ==> text_less(front + a, front + b) && !text_less(
            front + b,
            front + a,
        ),
        a.len() > 0 && b.len() > 0 && a[0] < b[0] ==> text_less(front + a, front + b)
            && !text_less(front + b, front + a),
        !text_less(front, front),
    decreases front.len(),
{
    if front.len() > 0 {
        let rest = front.skip(1);
        law_texts_are_ordered_by_character(rest, a, b);
        assert((front + a).skip(1) =~= rest + a);
        assert((front + b).skip(1) =~= rest + b);
    } else {
        assert(front + a =~= a);
        assert(front + b =~= b);
    }
}

} // verus!
