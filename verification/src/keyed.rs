//! Lists of values by number. The first entry of a number is the one that counts.

use vstd::prelude::*;

verus! {

/// The first index from `i` on with this key, or the length.
pub open spec fn slot_from<T>(items: Seq<(u64, T)>, key: u64, i: int) -> int
    decreases items.len() - i,
{
    if 0 <= i < items.len() && items[i].0 != key {
        slot_from(items, key, i + 1)
    } else {
        i
    }
}

/// The first index with this key, or the length.
pub open spec fn slot<T>(items: Seq<(u64, T)>, key: u64) -> int {
    slot_from(items, key, 0)
}

pub open spec fn has_key<T>(items: Seq<(u64, T)>, key: u64) -> bool {
    slot(items, key) < items.len()
}

/// The value of a key.
pub open spec fn value_of<T>(items: Seq<(u64, T)>, key: u64) -> Option<T> {
    if has_key(items, key) {
        Some(items[slot(items, key)].1)
    } else {
        None
    }
}

/// The list with a value for a key: in the place of its old value, or at the end.
pub open spec fn with_value<T>(items: Seq<(u64, T)>, key: u64, value: T) -> Seq<(u64, T)> {
    if has_key(items, key) {
        items.update(slot(items, key), (key, value))
    } else {
        items.push((key, value))
    }
}

/// The list without a key.
pub open spec fn without_key<T>(items: Seq<(u64, T)>, key: u64) -> Seq<(u64, T)> {
    if has_key(items, key) {
        items.remove(slot(items, key))
    } else {
        items
    }
}

/// The list with every value seen through `f`.
pub open spec fn seen<T, U>(items: Seq<(u64, T)>, f: spec_fn(T) -> U) -> Seq<(u64, U)> {
    Seq::new(items.len(), |i: int| (items[i].0, f(items[i].1)))
}

pub proof fn lemma_slot_from<T>(items: Seq<(u64, T)>, key: u64, i: int)
    requires
        0 <= i <= items.len(),
    ensures
        i <= slot_from(items, key, i) <= items.len(),
        slot_from(items, key, i) < items.len() ==> items[slot_from(items, key, i)].0 == key,
    decreases items.len() - i,
{
    if i < items.len() && items[i].0 != key {
        lemma_slot_from(items, key, i + 1);
    }
}

proof fn lemma_slot_seen<T, U>(items: Seq<(u64, T)>, f: spec_fn(T) -> U, key: u64, i: int)
    requires
        0 <= i <= items.len(),
    ensures
        slot_from(seen(items, f), key, i) == slot_from(items, key, i),
    decreases items.len() - i,
{
    if i < items.len() && items[i].0 != key {
        lemma_slot_seen(items, f, key, i + 1);
    }
}

/// Looking a key up, setting it and dropping it can be seen through `f`.
pub proof fn lemma_seen<T, U>(items: Seq<(u64, T)>, f: spec_fn(T) -> U, key: u64, value: T)
    ensures
        slot(seen(items, f), key) == slot(items, key),
        0 <= slot(items, key) <= items.len(),
        has_key(items, key) ==> items[slot(items, key)].0 == key,
        seen(with_value(items, key, value), f) == with_value(seen(items, f), key, f(value)),
        seen(without_key(items, key), f) == without_key(seen(items, f), key),
{
    lemma_slot_seen(items, f, key, 0);
    lemma_slot_from(items, key, 0);
    assert(seen(with_value(items, key, value), f) =~= with_value(seen(items, f), key, f(value)));
    assert(seen(without_key(items, key), f) =~= without_key(seen(items, f), key));
}

/// What was set is found, and other keys keep their values.
pub proof fn law_set_values_are_found<T>(items: Seq<(u64, T)>, key: u64, value: T, other: u64)
    ensures
        value_of(with_value(items, key, value), key) == Some(value),
        other != key ==> value_of(with_value(items, key, value), other) == value_of(items, other),
{
    let after = with_value(items, key, value);
    lemma_slot_from(items, key, 0);
    lemma_slot_from(items, other, 0);
    if has_key(items, key) {
        let at = slot(items, key);
        lemma_first_slot(items, key, 0, at);
        lemma_found_at(after, key, at);
        if has_key(items, other) {
            let p = slot(items, other);
            lemma_first_slot(items, other, 0, p);
            lemma_found_at(after, other, p);
        } else {
            lemma_missing(items, other, 0);
            lemma_absent(after, other, 0);
        }
    } else {
        lemma_missing(items, key, 0);
        lemma_found_at(after, key, items.len() as int);
        if has_key(items, other) {
            let p = slot(items, other);
            lemma_first_slot(items, other, 0, p);
            lemma_found_at(after, other, p);
        } else {
            lemma_missing(items, other, 0);
            if other != key {
                lemma_absent(after, other, 0);
            }
        }
    }
}

/// Before the first slot no key is the key.
proof fn lemma_first_slot<T>(items: Seq<(u64, T)>, key: u64, i: int, at: int)
    requires
        0 <= i <= items.len(),
        slot_from(items, key, i) == at,
    ensures
        forall|k: int| i <= k < at && k < items.len() ==> (#[trigger] items[k]).0 != key,
    decreases items.len() - i,
{
    if i < items.len() && items[i].0 != key {
        lemma_first_slot(items, key, i + 1, at);
    }
}

proof fn lemma_missing<T>(items: Seq<(u64, T)>, key: u64, i: int)
    requires
        0 <= i <= items.len(),
        slot_from(items, key, i) >= items.len(),
    ensures
        forall|k: int| i <= k < items.len() ==> (#[trigger] items[k]).0 != key,
    decreases items.len() - i,
{
    if i < items.len() && items[i].0 != key {
        lemma_missing(items, key, i + 1);
    }
}

proof fn lemma_absent<T>(items: Seq<(u64, T)>, key: u64, i: int)
    requires
        0 <= i <= items.len(),
        forall|k: int| i <= k < items.len() ==> (#[trigger] items[k]).0 != key,
    ensures
        slot_from(items, key, i) == items.len(),
    decreases items.len() - i,
{
    if i < items.len() {
        assert(items[i].0 != key);
        lemma_absent(items, key, i + 1);
    }
}

proof fn lemma_found_at<T>(items: Seq<(u64, T)>, key: u64, at: int)
    requires
        0 <= at < items.len(),
        items[at].0 == key,
        forall|k: int| 0 <= k < at ==> (#[trigger] items[k]).0 != key,
    ensures
        slot(items, key) == at,
{
    lemma_found_from(items, key, 0, at);
}

proof fn lemma_found_from<T>(items: Seq<(u64, T)>, key: u64, i: int, at: int)
    requires
        0 <= i <= at < items.len(),
        items[at].0 == key,
        forall|k: int| i <= k < at ==> (#[trigger] items[k]).0 != key,
    ensures
        slot_from(items, key, i) == at,
    decreases at - i,
{
    if i < at {
        assert(items[i].0 != key);
        lemma_found_from(items, key, i + 1, at);
    }
}

/// No key stands twice.
pub open spec fn keys_unique<T>(items: Seq<(u64, T)>) -> bool {
    forall|i: int, j: int| 0 <= i < j < items.len() ==> items[i].0 != items[j].0
}

/// A key is there if some entry has it.
pub proof fn lemma_has_key<T>(items: Seq<(u64, T)>, key: u64)
    ensures
        has_key(items, key) <==> exists|i: int| 0 <= i < items.len() && items[i].0 == key,
{
    lemma_slot_from(items, key, 0);
    if !has_key(items, key) {
        lemma_missing(items, key, 0);
    }
}

/// Setting and dropping a key keep the keys unique.
pub proof fn law_keys_stay_unique<T>(items: Seq<(u64, T)>, key: u64, value: T)
    requires
        keys_unique(items),
    ensures
        keys_unique(with_value(items, key, value)),
        keys_unique(without_key(items, key)),
{
    lemma_has_key(items, key);
    lemma_slot_from(items, key, 0);
}

/// A dropped key is gone, and the others keep their values.
pub proof fn law_dropped_keys_are_gone<T>(items: Seq<(u64, T)>, key: u64, other: u64)
    requires
        keys_unique(items),
    ensures
        !has_key(without_key(items, key), key),
        other != key ==> (has_key(without_key(items, key), other) <==> has_key(items, other)),
        other != key ==> value_of(without_key(items, key), other) == value_of(items, other),
{
    let after = without_key(items, key);
    lemma_slot_from(items, key, 0);
    lemma_has_key(items, key);
    lemma_has_key(items, other);
    lemma_has_key(after, key);
    lemma_has_key(after, other);
    if has_key(items, key) {
        let at = slot(items, key);
        assert(after =~= items.take(at) + items.skip(at + 1));
        if other != key && has_key(items, other) {
            let i = slot(items, other);
            lemma_slot_from(items, other, 0);
            lemma_slot_from(after, other, 0);
            let k = slot(after, other);
            if i < at {
                assert(after[i].0 == other);
                assert(after[k] == items[i]);
            } else {
                assert(after[i - 1].0 == other);
                assert(after[k] == items[i]);
            }
        }
    }
}

/// The first index with this key, or the length.
pub fn find_slot<T>(items: &Vec<(u64, T)>, key: u64) -> (index: usize)
    ensures
        index == slot(items@, key),
        index <= items@.len(),
        index < items@.len() ==> items@[index as int].0 == key,
{
    let mut i: usize = 0;
    while i < items.len() && items[i].0 != key
        invariant
            i <= items@.len(),
            slot(items@, key) == slot_from(items@, key, i as int),
        decreases items@.len() - i,
    {
        i += 1;
    }
    i
}

/// Set the value of a key.
pub fn set_value<T>(items: &mut Vec<(u64, T)>, key: u64, value: T)
    ensures
        final(items)@ == with_value(old(items)@, key, value),
{
    let i: usize = find_slot(items, key);
    if i < items.len() {
        items[i] = (key, value);
    } else {
        items.push((key, value));
    }
}

/// Drop a key: whether it was there.
pub fn drop_key<T>(items: &mut Vec<(u64, T)>, key: u64) -> (found: bool)
    ensures
        final(items)@ == without_key(old(items)@, key),
        found == has_key(old(items)@, key),
{
    let i: usize = find_slot(items, key);
    if i < items.len() {
        items.remove(i);
        true
    } else {
        false
    }
}

} // verus!
