//! Searching a list of texts. The texts and the query are compared as they are; whoever
//! searches without regard to case brings both to lower case first.

use vstd::prelude::*;

use crate::services::lemma_less_is_strict;
use crate::services::lemma_less_is_transitive;
use crate::services::less;
use crate::services::text_less;
use crate::text::contains_text;
use crate::text::holds_text;
use crate::text::parts_notes;

verus! {

/// The indices of `usize` as mathematical numbers.
pub open spec fn index_notes(indices: Seq<usize>) -> Seq<int> {
    Seq::new(indices.len(), |i: int| indices[i] as int)
}

/// Which of the first `count` texts hold the query, in their order.
pub open spec fn hits(keys: Seq<Seq<char>>, query: Seq<char>, count: int) -> Seq<int>
    decreases count,
{
    if count <= 0 {
        Seq::empty()
    } else {
        let before = hits(keys, query, count - 1);
        if holds_text(keys[count - 1], query) {
            before.push(count - 1)
        } else {
            before
        }
    }
}

/// `i` put into its place in a list of indices, by text, behind its equals.
pub open spec fn placed_by_key(keys: Seq<Seq<char>>, list: Seq<int>, i: int) -> Seq<int>
    decreases list.len(),
{
    if list.len() == 0 || !text_less(keys[i], keys[list.last()]) {
        list.push(i)
    } else {
        placed_by_key(keys, list.drop_last(), i).push(list.last())
    }
}

/// A list of indices put in the order of their texts.
pub open spec fn by_key(keys: Seq<Seq<char>>, list: Seq<int>) -> Seq<int>
    decreases list.len(),
{
    if list.len() == 0 {
        Seq::empty()
    } else {
        placed_by_key(keys, by_key(keys, list.drop_last()), list.last())
    }
}

/// Which texts hold the query, in their order or sorted.
pub open spec fn found_in(keys: Seq<Seq<char>>, query: Seq<char>, sorted: bool) -> Seq<int> {
    let found = hits(keys, query, keys.len() as int);
    if sorted {
        by_key(keys, found)
    } else {
        found
    }
}

/// Put `i` into its place in a list of indices, by text.
fn insert_by_key(keys: &Vec<String>, list: &mut Vec<usize>, i: usize)
    requires
        i < keys@.len(),
        forall|k: int| 0 <= k < old(list)@.len() ==> #[trigger] old(list)@[k] < keys@.len(),
    ensures
        index_notes(final(list)@) == placed_by_key(
            parts_notes(keys@),
            index_notes(old(list)@),
            i as int,
        ),
        forall|k: int| 0 <= k < final(list)@.len() ==> #[trigger] final(list)@[k] < keys@.len(),
{
    let ghost texts = parts_notes(keys@);
    let ghost all = index_notes(list@);
    let mut at: usize = list.len();
    proof {
        assert(all.take(all.len() as int) =~= all);
        assert(placed_by_key(texts, all, i as int) + all.skip(all.len() as int) =~= placed_by_key(
            texts,
            all,
            i as int,
        ));
        assert(texts[i as int] == keys@[i as int]@);
    }
    while at > 0 && less(keys[i].as_str(), keys[list[at - 1]].as_str())
        invariant
            at <= list@.len(),
            list@ == old(list)@,
            texts == parts_notes(keys@),
            i < keys@.len(),
            texts[i as int] == keys@[i as int]@,
            all == index_notes(list@),
            forall|k: int| 0 <= k < list@.len() ==> #[trigger] list@[k] < keys@.len(),
            placed_by_key(texts, all, i as int) == placed_by_key(
                texts,
                all.take(at as int),
                i as int,
            ) + all.skip(at as int),
        decreases at,
    {
        proof {
            let front = all.take(at as int);
            assert(front.last() == all[at - 1]);
            assert(front.drop_last() =~= all.take(at - 1));
            assert(placed_by_key(texts, all.take(at - 1), i as int).push(all[at - 1]) + all.skip(
                at as int,
            ) =~= placed_by_key(texts, all.take(at - 1), i as int) + all.skip(at - 1));
        }
        at -= 1;
    }
    proof {
        let front = all.take(at as int);
        if at > 0 {
            assert(front.last() == list@[at - 1]);
        }
        assert(placed_by_key(texts, front, i as int) == front.push(i as int));
    }
    list.insert(at, i);
    proof {
        assert(index_notes(list@) =~= all.take(at as int).push(i as int) + all.skip(at as int));
        assert forall|k: int| 0 <= k < list@.len() implies #[trigger] list@[k] < keys@.len() by {
            if k < at {
                assert(list@[k] == old(list)@[k]);
            } else if k > at {
                assert(list@[k] == old(list)@[k - 1]);
            }
        }
    }
}

/// Which texts hold the query, in their order or sorted.
pub fn matching(keys: &Vec<String>, query: &str, sorted: bool) -> (found: Vec<usize>)
    ensures
        index_notes(found@) == found_in(parts_notes(keys@), query@, sorted),
        forall|k: int| 0 <= k < found@.len() ==> #[trigger] found@[k] < keys@.len(),
{
    let ghost texts = parts_notes(keys@);
    let mut found: Vec<usize> = Vec::new();
    let mut i: usize = 0;
    proof {
        assert(index_notes(found@) =~= Seq::<int>::empty());
    }
    while i < keys.len()
        invariant
            i <= keys@.len(),
            texts == parts_notes(keys@),
            index_notes(found@) == hits(texts, query@, i as int),
            forall|k: int| 0 <= k < found@.len() ==> #[trigger] found@[k] < keys@.len(),
        decreases keys@.len() - i,
    {
        let ghost before = index_notes(found@);
        if contains_text(keys[i].as_str(), query) {
            found.push(i);
            proof {
                assert(index_notes(found@) =~= before.push(i as int));
            }
        }
        i += 1;
    }
    if !sorted {
        return found;
    }
    let ghost all = index_notes(found@);
    let mut list: Vec<usize> = Vec::new();
    let mut k: usize = 0;
    proof {
        assert(all.take(0) =~= Seq::<int>::empty());
        assert(index_notes(list@) =~= Seq::<int>::empty());
    }
    while k < found.len()
        invariant
            k <= found@.len(),
            texts == parts_notes(keys@),
            all == index_notes(found@),
            forall|m: int| 0 <= m < found@.len() ==> #[trigger] found@[m] < keys@.len(),
            forall|m: int| 0 <= m < list@.len() ==> #[trigger] list@[m] < keys@.len(),
            index_notes(list@) == by_key(texts, all.take(k as int)),
        decreases found@.len() - k,
    {
        proof {
            assert(all.take(k + 1).drop_last() =~= all.take(k as int));
            assert(all.take(k + 1).last() == found@[k as int]);
        }
        insert_by_key(keys, &mut list, found[k]);
        k += 1;
    }
    proof {
        assert(all.take(k as int) =~= all);
    }
    list
}

// ---------------------------------------------------------------------------
// Laws
// ---------------------------------------------------------------------------

proof fn lemma_hits(keys: Seq<Seq<char>>, query: Seq<char>, count: int)
    requires
        0 <= count <= keys.len(),
    ensures
        forall|k: int|
            0 <= k < hits(keys, query, count).len() ==> 0 <= #[trigger] hits(keys, query, count)[k]
                < count,
        forall|i: int|
            0 <= i < count ==> (holds_text(#[trigger] keys[i], query) <==> hits(
                keys,
                query,
                count,
            ).contains(i)),
    decreases count,
{
    if count > 0 {
        lemma_hits(keys, query, count - 1);
        let before = hits(keys, query, count - 1);
        let all = hits(keys, query, count);
        assert forall|i: int| 0 <= i < count implies (holds_text(#[trigger] keys[i], query)
            <==> all.contains(i)) by {
            if i < count - 1 {
                assert(holds_text(keys[i], query) <==> before.contains(i));
                if before.contains(i) {
                    let k = choose|k: int| 0 <= k < before.len() && before[k] == i;
                    assert(all[k] == i);
                }
                if all.contains(i) {
                    let k = choose|k: int| 0 <= k < all.len() && all[k] == i;
                    if k == before.len() {
                        assert(all[k] == count - 1);
                    } else {
                        assert(before[k] == i);
                    }
                }
            } else {
                if holds_text(keys[i], query) {
                    assert(all[all.len() - 1] == i);
                } else if all.contains(i) {
                    let k = choose|k: int| 0 <= k < all.len() && all[k] == i;
                    assert(before[k] < count - 1);
                }
            }
        }
    }
}

proof fn lemma_placed_keeps_items(keys: Seq<Seq<char>>, list: Seq<int>, i: int)
    ensures
        placed_by_key(keys, list, i).to_multiset() == list.to_multiset().insert(i),
    decreases list.len(),
{
    broadcast use vstd::seq_lib::group_to_multiset_ensures;

    if list.len() == 0 || !text_less(keys[i], keys[list.last()]) {
    } else {
        lemma_placed_keeps_items(keys, list.drop_last(), i);
        assert(list.drop_last().push(list.last()) =~= list);
        assert(placed_by_key(keys, list, i).to_multiset() =~= list.to_multiset().insert(i));
    }
}

proof fn lemma_sorted_keeps_items(keys: Seq<Seq<char>>, list: Seq<int>)
    ensures
        by_key(keys, list).to_multiset() == list.to_multiset(),
    decreases list.len(),
{
    broadcast use vstd::seq_lib::group_to_multiset_ensures;

    if list.len() > 0 {
        lemma_sorted_keeps_items(keys, list.drop_last());
        lemma_placed_keeps_items(keys, by_key(keys, list.drop_last()), list.last());
        assert(list.drop_last().push(list.last()) =~= list);
    } else {
        assert(by_key(keys, list) =~= list);
    }
}

/// A search finds exactly the texts that hold the query, sorted or not.
pub proof fn law_search_finds_exactly_the_matches(
    keys: Seq<Seq<char>>,
    query: Seq<char>,
    sorted: bool,
    i: int,
)
    requires
        0 <= i < keys.len(),
    ensures
        found_in(keys, query, sorted).contains(i) <==> holds_text(keys[i], query),
{
    broadcast use vstd::seq_lib::group_to_multiset_ensures;

    let found = hits(keys, query, keys.len() as int);
    lemma_hits(keys, query, keys.len() as int);
    lemma_sorted_keeps_items(keys, found);
    assert(holds_text(keys[i], query) <==> found.contains(i));
    assert(found.to_multiset().count(i) > 0 <==> found.contains(i));
    let ordered = by_key(keys, found);
    assert(ordered.to_multiset().count(i) > 0 <==> ordered.contains(i));
}

/// No later index has a text that comes before that of an earlier one.
pub open spec fn in_key_order(keys: Seq<Seq<char>>, list: Seq<int>) -> bool {
    forall|i: int, j: int|
        0 <= i < j < list.len() ==> !text_less(keys[#[trigger] list[j]], keys[#[trigger] list[i]])
}

proof fn lemma_not_less_is_transitive(a: Seq<char>, b: Seq<char>, c: Seq<char>)
    requires
        !text_less(b, a),
        !text_less(c, b),
    ensures
        !text_less(c, a),
{
    lemma_less_is_strict(a, b);
    lemma_less_is_strict(b, c);
    lemma_less_is_strict(a, c);
    if text_less(a, b) && text_less(b, c) {
        lemma_less_is_transitive(a, b, c);
    }
}

proof fn lemma_placed_items(keys: Seq<Seq<char>>, list: Seq<int>, i: int, k: int)
    requires
        0 <= k < placed_by_key(keys, list, i).len(),
    ensures
        ({
            let item = placed_by_key(keys, list, i)[k];
            item == i || list.contains(item)
        }),
    decreases list.len(),
{
    let placed = placed_by_key(keys, list, i);
    if list.len() == 0 || !text_less(keys[i], keys[list.last()]) {
        if k < list.len() {
            assert(list[k] == placed[k]);
        }
    } else if k < placed.len() - 1 {
        lemma_placed_items(keys, list.drop_last(), i, k);
        let item = placed[k];
        if list.drop_last().contains(item) {
            let m = choose|m: int| 0 <= m < list.len() - 1 && list.drop_last()[m] == item;
            assert(list[m] == item);
        }
    } else {
        assert(list[list.len() - 1] == placed[k]);
    }
}

proof fn lemma_placed_in_order(keys: Seq<Seq<char>>, list: Seq<int>, i: int)
    requires
        in_key_order(keys, list),
    ensures
        in_key_order(keys, placed_by_key(keys, list, i)),
    decreases list.len(),
{
    let placed = placed_by_key(keys, list, i);
    if list.len() == 0 {
    } else if !text_less(keys[i], keys[list.last()]) {
        assert forall|a: int, b: int| 0 <= a < b < placed.len() implies !text_less(
            keys[#[trigger] placed[b]],
            keys[#[trigger] placed[a]],
        ) by {
            if b < list.len() {
                assert(placed[a] == list[a] && placed[b] == list[b]);
            } else if a < list.len() - 1 {
                let last = list.len() - 1;
                assert(!text_less(keys[list[last]], keys[list[a]]));
                lemma_not_less_is_transitive(keys[list[a]], keys[list[last]], keys[i]);
            }
        }
    } else {
        let front = list.drop_last();
        assert(in_key_order(keys, front)) by {
            assert forall|a: int, b: int| 0 <= a < b < front.len() implies !text_less(
                keys[#[trigger] front[b]],
                keys[#[trigger] front[a]],
            ) by {
                assert(front[a] == list[a] && front[b] == list[b]);
            }
        }
        lemma_placed_in_order(keys, front, i);
        let before = placed_by_key(keys, front, i);
        assert forall|a: int, b: int| 0 <= a < b < placed.len() implies !text_less(
            keys[#[trigger] placed[b]],
            keys[#[trigger] placed[a]],
        ) by {
            if b < before.len() {
                assert(placed[a] == before[a] && placed[b] == before[b]);
            } else {
                lemma_placed_items(keys, front, i, a);
                lemma_less_is_strict(keys[i], keys[list.last()]);
                let item = placed[a];
                if item != i {
                    let m = choose|m: int| 0 <= m < front.len() && front[m] == item;
                    assert(list[m] == item);
                    assert(!text_less(keys[list[list.len() - 1]], keys[list[m]]));
                }
            }
        }
    }
}

/// A sorted search gives its finds in the order of their texts.
pub proof fn law_sorted_searches_are_in_order(keys: Seq<Seq<char>>, list: Seq<int>)
    ensures
        in_key_order(keys, by_key(keys, list)),
    decreases list.len(),
{
    if list.len() > 0 {
        law_sorted_searches_are_in_order(keys, list.drop_last());
        lemma_placed_in_order(keys, by_key(keys, list.drop_last()), list.last());
    }
}

} // verus!
