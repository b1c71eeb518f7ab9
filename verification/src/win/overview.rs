//! What the dashboard shows of the session, and which Mac a saved connection means.

use vstd::prelude::*;

use crate::connections::connection_notes;
use crate::connections::Connection;
use crate::connections::ConnectionNote;
use crate::keyed::find_slot;
use crate::keyed::has_key;
use crate::model::Window;
use crate::model::WindowNote;
use crate::text::begins_with;
use crate::text::owned;
use crate::text::same_text;
use crate::text::starts_with;
use crate::win::app::keyed_windows;
use crate::win::app::lemma_proxies;
use crate::win::app::App;
use crate::win::app::AppNote;
use crate::win::commands::shared_notes;

verus! {

/// Each shared window, and whether its native window is there and visible.
pub open spec fn overview(a: AppNote, visible: Seq<u64>) -> Seq<(WindowNote, bool)> {
    Seq::new(
        a.windows.len(),
        |i: int|
            (
                a.windows[i].1,
                has_key(a.proxies, a.windows[i].1.id) && visible.contains(a.windows[i].1.id),
            ),
    )
}

/// The windows stand in the order of their numbers.
pub open spec fn in_id_order(cards: Seq<(WindowNote, bool)>) -> bool {
    forall|i: int, j: int| 0 <= i <= j < cards.len() ==> cards[i].0.id <= cards[j].0.id
}

fn holds(ids: &[u64], id: u64) -> (found: bool)
    ensures
        found == ids@.contains(id),
{
    let mut i: usize = 0;
    while i < ids.len()
        invariant
            i <= ids@.len(),
            forall|k: int| 0 <= k < i ==> ids@[k] != id,
        decreases ids@.len() - i,
    {
        if ids[i] == id {
            return true;
        }
        i += 1;
    }
    false
}

/// Put a window where its number belongs.
fn insert_card(cards: &mut Vec<(Window, bool)>, card: (Window, bool))
    requires
        in_id_order(shared_notes(old(cards)@)),
    ensures
        in_id_order(shared_notes(final(cards)@)),
        shared_notes(final(cards)@).to_multiset() == shared_notes(
            old(cards)@,
        ).to_multiset().insert((card.0@, card.1)),
{
    let ghost before = shared_notes(cards@);
    let ghost note = (card.0@, card.1);
    let id: u64 = card.0.id;
    let mut i: usize = cards.len();
    while i > 0 && cards[i - 1].0.id > id
        invariant
            i <= cards@.len(),
            id == note.0.id,
            before == shared_notes(cards@),
            in_id_order(before),
            *cards == *old(cards),
            forall|k: int| i <= k < before.len() ==> (#[trigger] before[k]).0.id > id,
        decreases i,
    {
        proof {
            assert(before[i - 1].0.id == cards@[i - 1].0.id);
        }
        i -= 1;
    }
    proof {
        if i > 0 {
            assert(before[i - 1].0.id == cards@[i - 1].0.id);
        }
    }
    cards.insert(i, card);
    proof {
        assert(shared_notes(cards@) =~= before.insert(i as int, note));
        vstd::seq_lib::to_multiset_insert(before, i as int, note);
    }
}

impl App {
    /// The shared windows in the order of their numbers, and which of them are open.
    /// `visible` holds the numbers whose native windows are visible.
    pub fn gallery(&self, visible: &[u64]) -> (cards: Vec<(Window, bool)>)
        ensures
            in_id_order(shared_notes(cards@)),
            shared_notes(cards@).to_multiset() == overview(self@, visible@).to_multiset(),
    {
        let ghost all = overview(self@, visible@);
        let mut cards: Vec<(Window, bool)> = Vec::new();
        let mut i: usize = 0;
        proof {
            assert(shared_notes(cards@) =~= all.take(0));
        }
        while i < self.windows.len()
            invariant
                i <= self.windows@.len(),
                all == overview(self@, visible@),
                in_id_order(shared_notes(cards@)),
                shared_notes(cards@).to_multiset() == all.take(i as int).to_multiset(),
            decreases self.windows@.len() - i,
        {
            let window = self.windows[i].1.clone();
            proof {
                lemma_proxies(self.proxies@, window.id);
                assert(keyed_windows(self.windows@)[i as int].1 == self.windows@[i as int].1@);
                assert(all.take(i + 1) =~= all.take(i as int).push(all[i as int]));
                vstd::seq_lib::to_multiset_build(all.take(i as int), all[i as int]);
            }
            let opened = find_slot(&self.proxies, window.id) < self.proxies.len() && holds(
                visible,
                window.id,
            );
            insert_card(&mut cards, (window, opened));
            i += 1;
        }
        proof {
            assert(all.take(i as int) =~= all);
        }
        cards
    }
}

/// Whether a connection has to be found anew before its endpoint is used: the address
/// of a Mac that was discovered may by now belong to another machine.
pub fn needs_discovery(c: &Connection) -> (needed: bool)
    ensures
        needed == !begins_with(c@.id, "manual:"@),
{
    !starts_with(c.id.as_str(), "manual:")
}

/// The first index from `i` on with this identity, or the length.
pub open spec fn first_with_id(found: Seq<ConnectionNote>, id: Seq<char>, i: int) -> int
    decreases found.len() - i,
{
    if 0 <= i < found.len() && found[i].id != id {
        first_with_id(found, id, i + 1)
    } else {
        i
    }
}

/// The Mac of a saved connection among those that were found.
pub fn rediscovered(found: Vec<Connection>, id: &str) -> (result: Result<Connection, String>)
    ensures
        ({
            let notes = connection_notes(found@);
            let at = first_with_id(notes, id@, 0);
            match result {
                Ok(c) => 0 <= at < notes.len() && c@ == notes[at],
                Err(e) => {
                    &&& at == notes.len()
                    &&& e@
                        == "Mac is offline or not sharing. Open Transom Host and press Start."@
                },
            }
        }),
{
    let ghost notes = connection_notes(found@);
    let mut i: usize = 0;
    while i < found.len()
        invariant
            i <= found@.len(),
            notes == connection_notes(found@),
            first_with_id(notes, id@, 0) == first_with_id(notes, id@, i as int),
        decreases found@.len() - i,
    {
        proof {
            assert(notes[i as int] == found@[i as int]@);
        }
        if same_text(found[i].id.as_str(), id) {
            return Ok(found[i].clone());
        }
        i += 1;
    }
    Err(owned("Mac is offline or not sharing. Open Transom Host and press Start."))
}

} // verus!
