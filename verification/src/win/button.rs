//! The buttons of the dashboard: native ones, drawn by the dashboard itself.

use vstd::prelude::*;

use crate::win::messages::BM_SETSTATE;
use crate::win::messages::BM_SETSTYLE;
use crate::win::messages::WM_ENABLE;
use crate::win::messages::WM_ERASEBKGND;
use crate::win::messages::WM_KILLFOCUS;
use crate::win::messages::WM_MOUSELEAVE;
use crate::win::messages::WM_MOUSEMOVE;
use crate::win::messages::WM_NCDESTROY;
use crate::win::messages::WM_PAINT;
use crate::win::messages::WM_SETFOCUS;

verus! {

/// What a button does about a message.
#[derive(Debug, Clone, Copy, PartialEq, Eq, Structural)]
pub enum ButtonStep {
    /// Count as painted.
    Paint,
    /// The background needs no erasing.
    Keep,
    /// The pointer came: notice when it leaves, draw again, and go on.
    Enter,
    /// The pointer left: draw again, and go on.
    Leave,
    /// The button goes: let go of it, and go on.
    Release,
    /// Let the system deal with it, then draw again.
    Redraw,
    /// Let the system deal with it.
    Pass,
}

/// Whether a message changes how a button looks.
pub open spec fn changes_look(msg: u32) -> bool {
    msg == WM_SETFOCUS || msg == WM_KILLFOCUS || msg == BM_SETSTATE || msg == BM_SETSTYLE || msg
        == WM_ENABLE
}

/// What a button does about a message, given whether the pointer is known to be over
/// it.
pub open spec fn button_does(msg: u32, hovered: bool) -> ButtonStep {
    if msg == WM_PAINT {
        ButtonStep::Paint
    } else if msg == WM_ERASEBKGND {
        ButtonStep::Keep
    } else if msg == WM_MOUSEMOVE {
        if hovered {
            ButtonStep::Pass
        } else {
            ButtonStep::Enter
        }
    } else if msg == WM_MOUSELEAVE {
        ButtonStep::Leave
    } else if msg == WM_NCDESTROY {
        ButtonStep::Release
    } else if changes_look(msg) {
        ButtonStep::Redraw
    } else {
        ButtonStep::Pass
    }
}

/// What a button does about a message, given whether the pointer is known to be over
/// it.
pub fn button_step(msg: u32, hovered: bool) -> (step: ButtonStep)
    ensures
        step == button_does(msg, hovered),
{
    if msg == WM_PAINT {
        ButtonStep::Paint
    } else if msg == WM_ERASEBKGND {
        ButtonStep::Keep
    } else if msg == WM_MOUSEMOVE {
        if hovered {
            ButtonStep::Pass
        } else {
            ButtonStep::Enter
        }
    } else if msg == WM_MOUSELEAVE {
        ButtonStep::Leave
    } else if msg == WM_NCDESTROY {
        ButtonStep::Release
    } else if msg == WM_SETFOCUS || msg == WM_KILLFOCUS || msg == BM_SETSTATE || msg == BM_SETSTYLE
        || msg == WM_ENABLE {
        ButtonStep::Redraw
    } else {
        ButtonStep::Pass
    }
}

} // verus!
