//! Native cursor feedback. A pointer is never baked into delayed video frames; the
//! host only hints where text is.
//!
//! Times are nanoseconds on the client's monotonic clock.

use vstd::prelude::*;
use std::collections::HashMap;

use crate::wire::control::Rect;

verus! {

broadcast use vstd::std_specs::hash::group_hash_axioms;

/// How long a hint counts.
pub const HINT_LIFETIME: u64 = 600_000_000;

/// What the host last said of the pointer over a window.
#[derive(Debug, Clone, Copy, PartialEq, Eq, Structural)]
pub struct Hint {
    pub text: bool,
    pub rect: Rect,
    /// The time of the input event that the hint answers, on the sender's clock.
    pub ts: u64,
    pub received: u64,
}

/// The hints by window.
pub struct CursorHints {
    hints: HashMap<u64, Hint>,
}

/// Whether a rect holds a point. The far edges lie outside, and a rect that reaches
/// beyond what can be counted ends there.
pub open spec fn holds_point(rect: Rect, x: int, y: int) -> bool {
    let right = if rect.x + rect.w > u32::MAX {
        u32::MAX as int
    } else {
        rect.x + rect.w
    };
    let bottom = if rect.y + rect.h > u32::MAX {
        u32::MAX as int
    } else {
        rect.y + rect.h
    };
    rect.x <= x < right && rect.y <= y < bottom
}

/// Whether a rect holds a point of the client area.
pub fn contains(rect: Rect, x: i32, y: i32) -> (inside: bool)
    ensures
        inside == holds_point(rect, x as int, y as int),
{
    x >= 0 && y >= 0 && x as u32 >= rect.x && y as u32 >= rect.y && (x as u32)
        < rect.x.saturating_add(rect.w) && (y as u32) < rect.y.saturating_add(rect.h)
}

/// Whether a hint asks for the text cursor at a point.
pub open spec fn asks_for_text(hint: Hint, x: int, y: int, now: u64) -> bool {
    hint.text && now - hint.received < HINT_LIFETIME && holds_point(hint.rect, x, y)
}

impl CursorHints {
    pub closed spec fn view(&self) -> Map<u64, Hint> {
        self.hints@
    }

    pub fn new() -> (hints: Self)
        ensures
            hints@ == Map::<u64, Hint>::empty(),
    {
        CursorHints { hints: HashMap::new() }
    }

    /// Note a hint, unless a later one is known. The host also polls a stationary
    /// pointer, so a fresh shape may carry an old input time.
    pub fn update(&mut self, window: u64, text: bool, rect: Rect, ts: u64, now: u64)
        ensures
            final(self)@ == if old(self)@.contains_key(window) && old(self)@[window].ts > ts {
                old(self)@
            } else {
                old(self)@.insert(window, Hint { text, rect, ts, received: now })
            },
    {
        match self.hints.get(&window) {
            Some(known) => {
                if known.ts > ts {
                    return;
                }
            },
            None => {},
        }
        self.hints.insert(window, Hint { text, rect, ts, received: now });
    }

    /// Forget a window.
    pub fn clear(&mut self, window: u64)
        ensures
            final(self)@ == old(self)@.remove(window),
    {
        self.hints.remove(&window);
        proof {
            assert(self@ =~= old(self)@.remove(window));
        }
    }

    /// Whether the text cursor shows at a point of a window.
    pub fn shows_text(&self, window: u64, x: i32, y: i32, now: u64) -> (text: bool)
        ensures
            text == (self@.contains_key(window) && asks_for_text(
                self@[window],
                x as int,
                y as int,
                now,
            )),
    {
        match self.hints.get(&window) {
            Some(hint) => {
                hint.text && (now < hint.received || now - hint.received < HINT_LIFETIME)
                    && contains(hint.rect, x, y)
            },
            None => false,
        }
    }
}

/// A hint never applies outside its field.
pub proof fn law_hints_stay_inside_their_field(hint: Hint, x: int, y: int, now: u64)
    requires
        asks_for_text(hint, x, y, now),
    ensures
        hint.rect.x <= x < hint.rect.x + hint.rect.w,
        hint.rect.y <= y < hint.rect.y + hint.rect.h,
{
}

} // verus!
