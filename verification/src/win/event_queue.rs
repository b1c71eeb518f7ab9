//! The messages of proxy windows, queued until the application takes its turn.
//! Paint, size and hover messages are coalesced before they can flood it.

use vstd::prelude::*;

use crate::win::chrome::Bounds;
use crate::win::messages::WM_ACTIVATE;
use crate::win::messages::WM_CLOSE;
use crate::win::messages::WM_DESTROY;
use crate::win::messages::WM_DPICHANGED;
use crate::win::messages::WM_ENTERSIZEMOVE;
use crate::win::messages::WM_EXITSIZEMOVE;
use crate::win::messages::WM_KEYDOWN;
use crate::win::messages::WM_KEYUP;
use crate::win::messages::WM_LBUTTONDOWN;
use crate::win::messages::WM_LBUTTONUP;
use crate::win::messages::WM_MBUTTONDOWN;
use crate::win::messages::WM_MBUTTONUP;
use crate::win::messages::WM_MOUSEHWHEEL;
use crate::win::messages::WM_MOUSEMOVE;
use crate::win::messages::WM_MOUSEWHEEL;
use crate::win::messages::WM_PAINT;
use crate::win::messages::WM_RBUTTONDOWN;
use crate::win::messages::WM_RBUTTONUP;
use crate::win::messages::WM_SIZE;
use crate::win::messages::WM_SIZING;
use crate::win::messages::WM_SYSKEYDOWN;
use crate::win::messages::WM_SYSKEYUP;

verus! {

/// How many events are handled in one turn.
pub const TURN_EVENTS: usize = 256;

/// A message of a proxy window. The window is known by its handle.
#[derive(Debug, Clone, Copy, PartialEq, Eq, Structural)]
pub struct NativeEvent {
    pub window: u64,
    pub msg: u32,
    pub wparam: usize,
    pub lparam: isize,
    /// The rectangle that the message points to, where it does.
    pub rect: Option<Bounds>,
}

pub struct EventQueue {
    events: Vec<NativeEvent>,
}

/// What the window procedure answers.
#[derive(Debug, Clone, Copy, PartialEq, Eq, Structural)]
pub enum Answer {
    /// Leave the message to the system.
    Default,
    /// The message is dealt with.
    Done(isize),
    /// The message is dealt with, and the window counts as painted.
    Painted,
}

/// Whether a message waits for the application's turn.
pub open spec fn is_queued(msg: u32) -> bool {
    ||| msg == WM_SIZE
    ||| msg == WM_ENTERSIZEMOVE
    ||| msg == WM_SIZING
    ||| msg == WM_EXITSIZEMOVE
    ||| msg == WM_DPICHANGED
    ||| msg == WM_PAINT
    ||| msg == WM_ACTIVATE
    ||| msg == WM_MOUSEMOVE
    ||| msg == WM_LBUTTONDOWN
    ||| msg == WM_LBUTTONUP
    ||| msg == WM_RBUTTONDOWN
    ||| msg == WM_RBUTTONUP
    ||| msg == WM_MBUTTONDOWN
    ||| msg == WM_MBUTTONUP
    ||| msg == WM_MOUSEWHEEL
    ||| msg == WM_MOUSEHWHEEL
    ||| msg == WM_KEYDOWN
    ||| msg == WM_KEYUP
    ||| msg == WM_SYSKEYDOWN
    ||| msg == WM_SYSKEYUP
    ||| msg == WM_CLOSE
    ||| msg == WM_DESTROY
}

/// Whether only the last message of a kind counts.
pub open spec fn is_coalesced(msg: u32) -> bool {
    msg == WM_PAINT || msg == WM_SIZE || msg == WM_MOUSEMOVE
}

/// What the window procedure answers to a message.
pub open spec fn answer_to(msg: u32) -> Answer {
    if msg == WM_PAINT {
        Answer::Painted
    } else if msg == WM_CLOSE || msg == WM_DPICHANGED {
        Answer::Done(0)
    } else if msg == WM_SIZING {
        Answer::Done(1)
    } else {
        Answer::Default
    }
}

/// The events but for those of a window, or only its events of one message.
pub open spec fn without(events: Seq<NativeEvent>, window: u64, msg: Option<u32>) -> Seq<
    NativeEvent,
>
    decreases events.len(),
{
    if events.len() == 0 {
        Seq::empty()
    } else {
        let before = without(events.drop_last(), window, msg);
        let e = events.last();
        if e.window == window && (msg is None || msg == Some(e.msg)) {
            before
        } else {
            before.push(e)
        }
    }
}

/// The queue once an event came in.
pub open spec fn queued(events: Seq<NativeEvent>, e: NativeEvent) -> Seq<NativeEvent> {
    if is_coalesced(e.msg) {
        without(events, e.window, Some(e.msg)).push(e)
    } else {
        events.push(e)
    }
}

/// No window has two events of a kind of which only the last counts.
pub open spec fn is_coalesced_queue(events: Seq<NativeEvent>) -> bool {
    forall|i: int, j: int|
        0 <= i < j < events.len() && is_coalesced((#[trigger] events[i]).msg) && events[i].msg == (
        #[trigger] events[j]).msg ==> events[i].window != events[j].window
}

proof fn lemma_without(events: Seq<NativeEvent>, window: u64, msg: Option<u32>)
    ensures
        forall|i: int|
            0 <= i < without(events, window, msg).len() ==> {
                let e = #[trigger] without(events, window, msg)[i];
                events.contains(e) && !(e.window == window && (msg is None || msg == Some(e.msg)))
            },
        is_coalesced_queue(events) ==> is_coalesced_queue(without(events, window, msg)),
    decreases events.len(),
{
    if events.len() > 0 {
        let front = events.drop_last();
        lemma_without(front, window, msg);
        let before = without(front, window, msg);
        let all = without(events, window, msg);
        assert forall|i: int| 0 <= i < all.len() implies {
            let e = #[trigger] all[i];
            events.contains(e) && !(e.window == window && (msg is None || msg == Some(e.msg)))
        } by {
            if i < before.len() {
                assert(before[i] == all[i]);
                let k = choose|k: int| 0 <= k < front.len() && front[k] == before[i];
                assert(events[k] == all[i]);
            } else {
                assert(events[events.len() - 1] == all[i]);
            }
        }
        if is_coalesced_queue(events) {
            assert forall|i: int, j: int|
                0 <= i < j < front.len() && is_coalesced((#[trigger] front[i]).msg)
                    && front[i].msg == (#[trigger] front[j]).msg implies front[i].window
                != front[j].window by {
                assert(front[i] == events[i] && front[j] == events[j]);
            }
            assert forall|i: int, j: int|
                0 <= i < j < all.len() && is_coalesced((#[trigger] all[i]).msg) && all[i].msg == (
                #[trigger] all[j]).msg implies all[i].window != all[j].window by {
                assert(all[i] == before[i]);
                if j < before.len() {
                    assert(all[j] == before[j]);
                } else {
                    let k = choose|k: int| 0 <= k < front.len() && front[k] == before[i];
                    assert(events[k].window != events[events.len() - 1].window);
                }
            }
        }
    }
}

/// However many events come in, each window has at most one of each kind of which
/// only the last counts.
pub proof fn law_queue_stays_coalesced(events: Seq<NativeEvent>, e: NativeEvent)
    requires
        is_coalesced_queue(events),
    ensures
        is_coalesced_queue(queued(events, e)),
{
    lemma_without(events, e.window, Some(e.msg));
    if is_coalesced(e.msg) {
        let kept = without(events, e.window, Some(e.msg));
        let all = kept.push(e);
        assert forall|i: int, j: int|
            0 <= i < j < all.len() && is_coalesced((#[trigger] all[i]).msg) && all[i].msg == (
            #[trigger] all[j]).msg implies all[i].window != all[j].window by {
            if j == kept.len() {
                assert(all[i] == kept[i]);
            } else {
                assert(all[i] == kept[i] && all[j] == kept[j]);
            }
        }
    }
}

/// Whether a message waits for the application's turn.
pub fn waits(msg: u32) -> (queued: bool)
    ensures
        queued == is_queued(msg),
{
    msg == WM_SIZE || msg == WM_ENTERSIZEMOVE || msg == WM_SIZING || msg == WM_EXITSIZEMOVE || msg
        == WM_DPICHANGED || msg == WM_PAINT || msg == WM_ACTIVATE || msg == WM_MOUSEMOVE || msg
        == WM_LBUTTONDOWN || msg == WM_LBUTTONUP || msg == WM_RBUTTONDOWN || msg == WM_RBUTTONUP
        || msg == WM_MBUTTONDOWN || msg == WM_MBUTTONUP || msg == WM_MOUSEWHEEL || msg
        == WM_MOUSEHWHEEL || msg == WM_KEYDOWN || msg == WM_KEYUP || msg == WM_SYSKEYDOWN || msg
        == WM_SYSKEYUP || msg == WM_CLOSE || msg == WM_DESTROY
}

impl EventQueue {
    pub closed spec fn view(&self) -> Seq<NativeEvent> {
        self.events@
    }

    pub fn new() -> (queue: Self)
        ensures
            queue@ == Seq::<NativeEvent>::empty(),
            is_coalesced_queue(queue@),
    {
        EventQueue { events: Vec::new() }
    }

    /// Drop a window's events, or only those of one message.
    fn remove(&mut self, window: u64, msg: Option<u32>)
        ensures
            final(self)@ == without(old(self)@, window, msg),
    {
        let ghost all = self.events@;
        let mut i: usize = 0;
        let ghost mut seen: int = 0;
        proof {
            assert(all.take(0) =~= Seq::<NativeEvent>::empty());
            assert(Seq::<NativeEvent>::empty() + all.skip(0) =~= all);
        }
        while i < self.events.len()
            invariant
                0 <= seen <= all.len(),
                i == without(all.take(seen), window, msg).len(),
                self.events@ == without(all.take(seen), window, msg) + all.skip(seen),
            decreases self.events@.len() - i,
        {
            let ghost kept = without(all.take(seen), window, msg);
            let e = self.events[i];
            proof {
                assert(e == all[seen]);
                assert(all.take(seen + 1).drop_last() =~= all.take(seen));
            }
            let same_msg = match msg {
                Some(m) => m == e.msg,
                None => true,
            };
            if e.window == window && same_msg {
                self.events.remove(i);
                proof {
                    assert(self.events@ =~= kept + all.skip(seen + 1));
                }
            } else {
                proof {
                    assert(kept + all.skip(seen) =~= kept.push(all[seen]) + all.skip(seen + 1));
                }
                i += 1;
            }
            proof {
                seen = seen + 1;
            }
        }
        proof {
            assert(all.skip(seen).len() == 0);
            assert(all.take(seen) =~= all);
            assert(self.events@ =~= without(all, window, msg));
        }
    }

    /// Take in a message that waits, and say what the window procedure answers.
    pub fn push(&mut self, e: NativeEvent) -> (answer: Answer)
        ensures
            final(self)@ == queued(old(self)@, e),
            answer == answer_to(e.msg),
            is_coalesced_queue(old(self)@) ==> is_coalesced_queue(final(self)@),
    {
        proof {
            if is_coalesced_queue(self@) {
                law_queue_stays_coalesced(self@, e);
            }
        }
        if e.msg == WM_PAINT || e.msg == WM_SIZE || e.msg == WM_MOUSEMOVE {
            self.remove(e.window, Some(e.msg));
        }
        self.events.push(e);
        if e.msg == WM_PAINT {
            Answer::Painted
        } else if e.msg == WM_CLOSE || e.msg == WM_DPICHANGED {
            Answer::Done(0)
        } else if e.msg == WM_SIZING {
            Answer::Done(1)
        } else {
            Answer::Default
        }
    }

    /// The oldest event.
    pub fn pop(&mut self) -> (e: Option<NativeEvent>)
        ensures
            match e {
                Some(e) => old(self)@.len() > 0 && e == old(self)@[0] && final(self)@ == old(
                    self,
                )@.skip(1),
                None => old(self)@.len() == 0 && final(self)@ == old(self)@,
            },
    {
        if self.events.len() == 0 {
            return None;
        }
        let e = self.events.remove(0);
        proof {
            assert(self@ =~= old(self)@.skip(1));
        }
        Some(e)
    }

    /// A window is gone: its handle may be used again, so its events must not be.
    pub fn forget(&mut self, window: u64)
        ensures
            final(self)@ == without(old(self)@, window, None),
            forall|i: int| 0 <= i < final(self)@.len() ==> (#[trigger] final(self)@[i]).window != window,
    {
        proof {
            lemma_without(self@, window, None);
        }
        self.remove(window, None);
    }
}

} // verus!
