//! The dashboard's own frame: scaling, hit testing, bounds, and its controls.

use vstd::prelude::*;

use crate::text::owned;
use crate::win::dashboard::ADD_MAC;
use crate::win::dashboard::CARD_MENU_BASE;
use crate::win::dashboard::CLOSE;
use crate::win::dashboard::CONNECT;
use crate::win::dashboard::CONTROL;
use crate::win::dashboard::FORGET;
use crate::win::dashboard::GRID;
use crate::win::dashboard::HOST;
use crate::win::dashboard::LIST;
use crate::win::dashboard::MAC_BASE;
use crate::win::dashboard::MANUAL;
use crate::win::dashboard::MAXIMIZE;
use crate::win::dashboard::MINIMIZE;
use crate::win::dashboard::NAV_APPS;
use crate::win::dashboard::NAV_CONNECTIONS;
use crate::win::dashboard::NAV_SETTINGS;
use crate::win::dashboard::NEXT;
use crate::win::dashboard::PREVIOUS;
use crate::win::dashboard::REFRESH;
use crate::win::dashboard::SEARCH;
use crate::win::dashboard::SORT;
use crate::win::dashboard::UPDATE;
use crate::win::dashboard::VIDEO;
use crate::win::gallery::CARD_BASE;
use crate::win::gallery::CARD_COUNT;
use crate::win::input::high_word;
use crate::win::input::hiword_signed;
use crate::win::input::low_word;
use crate::win::input::loword_signed;
use crate::win::input::quotient;
use crate::win::messages::HTBOTTOM;
use crate::win::messages::HTBOTTOMLEFT;
use crate::win::messages::HTBOTTOMRIGHT;
use crate::win::messages::HTCAPTION;
use crate::win::messages::HTCLIENT;
use crate::win::messages::HTLEFT;
use crate::win::messages::HTRIGHT;
use crate::win::messages::HTTOP;
use crate::win::messages::HTTOPLEFT;
use crate::win::messages::HTTOPRIGHT;

verus! {

/// The size of the dashboard's window when it opens.
pub const OPEN_WIDTH: i32 = 1464;

pub const OPEN_HEIGHT: i32 = 934;

/// The smallest size of the dashboard's window.
pub const MIN_WIDTH: i32 = 1100;

pub const MIN_HEIGHT: i32 = 720;

/// A rectangle on the screen, in physical pixels.
#[derive(Debug, Clone, Copy, PartialEq, Eq, Structural)]
pub struct Bounds {
    pub left: i32,
    pub top: i32,
    pub right: i32,
    pub bottom: i32,
}

/// Device-independent pixels as physical ones.
pub open spec fn scaled(n: int, dpi: int) -> int {
    quotient(n * dpi, 96)
}

proof fn lemma_scaled_bound(n: int, dpi: int)
    ensures
        n * dpi >= 0 ==> 0 <= scaled(n, dpi) <= n * dpi,
        n * dpi < 0 ==> n * dpi <= scaled(n, dpi) <= 0,
{
    let p = n * dpi;
    if p >= 0 {
        assert(0 <= p / 96 <= p);
    } else {
        assert(0 <= (-p) / 96 <= -p);
    }
}

/// Device-independent pixels as physical ones, rounded towards zero.
pub fn scale(n: i32, dpi: u32) -> (px: i32)
    requires
        i32::MIN < n * dpi <= i32::MAX,
    ensures
        px == scaled(n as int, dpi as int),
{
    proof {
        lemma_scaled_bound(n as int, dpi as int);
    }
    let product: i64 = n as i64 * dpi as i64;
    if product < 0 {
        (0 - (0 - product) / 96) as i32
    } else {
        (product / 96) as i32
    }
}

/// Physical pixels as device-independent ones, rounded towards zero.
pub fn unscale(px: i32, dpi: u32) -> (n: i32)
    requires
        0 <= px,
        px * 96 <= i32::MAX,
        0 < dpi,
    ensures
        n == px * 96 / (dpi as int),
        0 <= n <= px * 96,
{
    proof {
        assert(0 <= px * 96 / (dpi as int) <= px * 96) by (nonlinear_arith)
            requires
                0 <= px,
                0 < dpi,
        ;
    }
    (px as i64 * 96 / dpi as i64) as i32
}

/// Which part of the frame a point lies on: the edges size the window, unless it
/// fills the screen, and the top strip moves it.
pub open spec fn frame_part(x: int, y: int, w: int, h: int, dpi: int, zoomed: bool) -> u32 {
    let border = scaled(6, dpi);
    let left = x < border;
    let right = x >= w - border;
    let top = y < border;
    let bottom = y >= h - border;
    if !zoomed && left && top {
        HTTOPLEFT
    } else if !zoomed && right && top {
        HTTOPRIGHT
    } else if !zoomed && left && bottom {
        HTBOTTOMLEFT
    } else if !zoomed && right && bottom {
        HTBOTTOMRIGHT
    } else if !zoomed && left {
        HTLEFT
    } else if !zoomed && right {
        HTRIGHT
    } else if !zoomed && top {
        HTTOP
    } else if !zoomed && bottom {
        HTBOTTOM
    } else if y < scaled(32, dpi) && x < w - scaled(144, dpi) {
        HTCAPTION
    } else {
        HTCLIENT
    }
}

/// Which part of the frame the point of a hit-test message lies on.
pub fn dashboard_hit(lparam: isize, window: Bounds, dpi: u32, zoomed: bool) -> (hit: u32)
    requires
        144 * dpi <= i32::MAX,
    ensures
        hit == frame_part(
            low_word(lparam as int) - window.left,
            high_word(lparam as int) - window.top,
            window.right - window.left,
            window.bottom - window.top,
            dpi as int,
            zoomed,
        ),
{
    let x: i64 = loword_signed(lparam) as i64 - window.left as i64;
    let y: i64 = hiword_signed(lparam) as i64 - window.top as i64;
    let w: i64 = window.right as i64 - window.left as i64;
    let h: i64 = window.bottom as i64 - window.top as i64;
    let border: i64 = scale(6, dpi) as i64;
    if !zoomed {
        let left = x < border;
        let right = x >= w - border;
        let top = y < border;
        let bottom = y >= h - border;
        if left && top {
            return HTTOPLEFT;
        }
        if right && top {
            return HTTOPRIGHT;
        }
        if left && bottom {
            return HTBOTTOMLEFT;
        }
        if right && bottom {
            return HTBOTTOMRIGHT;
        }
        if left {
            return HTLEFT;
        }
        if right {
            return HTRIGHT;
        }
        if top {
            return HTTOP;
        }
        if bottom {
            return HTBOTTOM;
        }
    }
    if y < scale(32, dpi) as i64 && x < w - scale(144, dpi) as i64 {
        HTCAPTION
    } else {
        HTCLIENT
    }
}

pub open spec fn least(a: int, b: int) -> int {
    if a <= b {
        a
    } else {
        b
    }
}

/// Where the dashboard's window opens: in the corner of the work area, no larger
/// than fits into it. The result is the position and the size.
pub fn opening_bounds(work: Bounds, dpi: u32) -> (bounds: (i32, i32, i32, i32))
    requires
        OPEN_WIDTH * dpi <= i32::MAX,
        work.left + 32 <= i32::MAX,
        work.top + 32 <= i32::MAX,
        work.right - work.left - 64 >= i32::MIN,
        work.bottom - work.top - 64 >= i32::MIN,
    ensures
        bounds.0 == work.left + 32,
        bounds.1 == work.top + 32,
        bounds.2 == least(
            scaled(OPEN_WIDTH as int, dpi as int),
            work.right - work.left - 64,
        ),
        bounds.3 == least(
            scaled(OPEN_HEIGHT as int, dpi as int),
            work.bottom - work.top - 64,
        ),
{
    let wanted_w: i64 = scale(OPEN_WIDTH, dpi) as i64;
    let wanted_h: i64 = scale(OPEN_HEIGHT, dpi) as i64;
    let room_w: i64 = work.right as i64 - work.left as i64 - 64;
    let room_h: i64 = work.bottom as i64 - work.top as i64 - 64;
    let w: i64 = if wanted_w <= room_w {
        wanted_w
    } else {
        room_w
    };
    let h: i64 = if wanted_h <= room_h {
        wanted_h
    } else {
        room_h
    };
    (work.left + 32, work.top + 32, w as i32, h as i32)
}

/// The part of a rectangle that lies within the work area.
pub fn within_work_area(r: Bounds, work: Bounds) -> (clipped: Bounds)
    ensures
        clipped.left == if r.left >= work.left {
            r.left
        } else {
            work.left
        },
        clipped.top == if r.top >= work.top {
            r.top
        } else {
            work.top
        },
        clipped.right == least(r.right as int, work.right as int),
        clipped.bottom == least(r.bottom as int, work.bottom as int),
{
    Bounds {
        left: if r.left >= work.left {
            r.left
        } else {
            work.left
        },
        top: if r.top >= work.top {
            r.top
        } else {
            work.top
        },
        right: if r.right <= work.right {
            r.right
        } else {
            work.right
        },
        bottom: if r.bottom <= work.bottom {
            r.bottom
        } else {
            work.bottom
        },
    }
}

/// How small and how large the dashboard's window gets: the least size that can be
/// dragged to, and where it lies and how large it is when it fills the work area of
/// its monitor.
#[derive(Debug, Clone, Copy)]
pub struct TrackLimits {
    pub least: (i32, i32),
    pub full_position: (i32, i32),
    pub full_size: (i32, i32),
}

/// The limits of a window on a monitor. A window that fills the screen leaves the
/// taskbar free.
pub fn track_limits(monitor: Bounds, work: Bounds, dpi: u32) -> (limits: TrackLimits)
    requires
        MIN_WIDTH * dpi <= i32::MAX,
        i32::MIN <= work.left - monitor.left <= i32::MAX,
        i32::MIN <= work.top - monitor.top <= i32::MAX,
        i32::MIN <= work.right - work.left <= i32::MAX,
        i32::MIN <= work.bottom - work.top <= i32::MAX,
    ensures
        limits.least.0 == scaled(MIN_WIDTH as int, dpi as int),
        limits.least.1 == scaled(MIN_HEIGHT as int, dpi as int),
        limits.full_position.0 == work.left - monitor.left,
        limits.full_position.1 == work.top - monitor.top,
        limits.full_size.0 == work.right - work.left,
        limits.full_size.1 == work.bottom - work.top,
{
    TrackLimits {
        least: (scale(MIN_WIDTH, dpi), scale(MIN_HEIGHT, dpi)),
        full_position: (work.left - monitor.left, work.top - monitor.top),
        full_size: (work.right - work.left, work.bottom - work.top),
    }
}

/// A point lies on exactly one part of the frame, and a window that fills the screen
/// has no edges to size it by.
pub proof fn law_zoomed_windows_have_no_edges(x: int, y: int, w: int, h: int, dpi: int)
    ensures
        frame_part(x, y, w, h, dpi, true) == HTCAPTION || frame_part(x, y, w, h, dpi, true)
            == HTCLIENT,
{
}

// ---------------------------------------------------------------------------
// The controls
// ---------------------------------------------------------------------------

/// A control of the dashboard.
#[derive(Debug)]
pub struct ControlSpec {
    pub id: usize,
    pub text: String,
    /// A text field rather than a button.
    pub edit: bool,
}

/// What a [`ControlSpec`] holds.
pub struct ControlNote {
    pub id: usize,
    pub text: Seq<char>,
    pub edit: bool,
}

impl ControlSpec {
    pub open spec fn view(&self) -> ControlNote {
        ControlNote { id: self.id, text: self.text@, edit: self.edit }
    }
}

pub open spec fn control_notes(controls: Seq<ControlSpec>) -> Seq<ControlNote> {
    Seq::new(controls.len(), |i: int| controls[i]@)
}

pub open spec fn button(id: usize, text: Seq<char>) -> ControlNote {
    ControlNote { id, text, edit: false }
}

/// The buttons that are there once.
pub open spec fn single_buttons() -> Seq<ControlNote> {
    seq![
        button(CONNECT, "Connect"@),
        button(NAV_CONNECTIONS, "Macs"@),
        button(NAV_APPS, "Windows"@),
        button(NAV_SETTINGS, "Settings"@),
        button(SORT, "Sort: Name"@),
        button(GRID, "Grid view"@),
        button(LIST, "List view"@),
        button(PREVIOUS, "Previous"@),
        button(NEXT, "Next"@),
        button(MANUAL, "Connect manually"@),
        button(UPDATE, "Check for updates"@),
        button(REFRESH, "Refresh Macs"@),
        button(FORGET, "Forget saved Mac"@),
        button(ADD_MAC, "Add Mac manually"@),
        button(MINIMIZE, "Minimize"@),
        button(MAXIMIZE, "Maximize or restore"@),
        button(CLOSE, "Close"@),
    ]
}

/// The buttons of the first `count` slots: a Mac and a card each.
pub open spec fn slot_buttons(count: int) -> Seq<ControlNote>
    decreases count,
{
    if count <= 0 {
        Seq::empty()
    } else {
        slot_buttons(count - 1).push(
            button((MAC_BASE + count - 1) as usize, "Select Mac"@),
        ).push(button((CARD_BASE + count - 1) as usize, "Open window"@))
    }
}

/// The options buttons of the first `count` slots.
pub open spec fn menu_buttons(count: int) -> Seq<ControlNote>
    decreases count,
{
    if count <= 0 {
        Seq::empty()
    } else {
        menu_buttons(count - 1).push(
            button((CARD_MENU_BASE + count - 1) as usize, "Window options"@),
        )
    }
}

/// The text fields.
pub open spec fn text_fields() -> Seq<ControlNote> {
    seq![
        ControlNote { id: SEARCH, text: ""@, edit: true },
        ControlNote { id: HOST, text: ""@, edit: true },
        ControlNote { id: CONTROL, text: "47100"@, edit: true },
        ControlNote { id: VIDEO, text: "47101"@, edit: true },
    ]
}

/// All controls, in the order in which they are made.
pub open spec fn all_controls() -> Seq<ControlNote> {
    single_buttons() + slot_buttons(CARD_COUNT as int) + menu_buttons(CARD_COUNT as int)
        + text_fields()
}

fn add_control(out: &mut Vec<ControlSpec>, id: usize, text: &str, edit: bool)
    ensures
        control_notes(final(out)@) == control_notes(old(out)@).push(
            ControlNote { id, text: text@, edit },
        ),
{
    out.push(ControlSpec { id, text: owned(text), edit });
    proof {
        assert(control_notes(out@) =~= control_notes(old(out)@).push(
            ControlNote { id, text: text@, edit },
        ));
    }
}

/// All controls, in the order in which they are made.
pub fn create_controls() -> (controls: Vec<ControlSpec>)
    ensures
        control_notes(controls@) == all_controls(),
{
    let mut out: Vec<ControlSpec> = Vec::new();
    add_control(&mut out, CONNECT, "Connect", false);
    add_control(&mut out, NAV_CONNECTIONS, "Macs", false);
    add_control(&mut out, NAV_APPS, "Windows", false);
    add_control(&mut out, NAV_SETTINGS, "Settings", false);
    add_control(&mut out, SORT, "Sort: Name", false);
    add_control(&mut out, GRID, "Grid view", false);
    add_control(&mut out, LIST, "List view", false);
    add_control(&mut out, PREVIOUS, "Previous", false);
    add_control(&mut out, NEXT, "Next", false);
    add_control(&mut out, MANUAL, "Connect manually", false);
    add_control(&mut out, UPDATE, "Check for updates", false);
    add_control(&mut out, REFRESH, "Refresh Macs", false);
    add_control(&mut out, FORGET, "Forget saved Mac", false);
    add_control(&mut out, ADD_MAC, "Add Mac manually", false);
    add_control(&mut out, MINIMIZE, "Minimize", false);
    add_control(&mut out, MAXIMIZE, "Maximize or restore", false);
    add_control(&mut out, CLOSE, "Close", false);
    proof {
        assert(control_notes(out@) =~= single_buttons());
        assert(single_buttons() + slot_buttons(0) =~= single_buttons());
    }
    let mut slot: usize = 0;
    while slot < CARD_COUNT
        invariant
            slot <= CARD_COUNT,
            control_notes(out@) == single_buttons() + slot_buttons(slot as int),
        decreases CARD_COUNT - slot,
    {
        add_control(&mut out, MAC_BASE + slot, "Select Mac", false);
        add_control(&mut out, CARD_BASE + slot, "Open window", false);
        proof {
            assert(control_notes(out@) =~= single_buttons() + slot_buttons(slot + 1));
        }
        slot += 1;
    }
    let ghost slots = control_notes(out@);
    proof {
        assert(slots + menu_buttons(0) =~= slots);
    }
    slot = 0;
    while slot < CARD_COUNT
        invariant
            slot <= CARD_COUNT,
            control_notes(out@) == slots + menu_buttons(slot as int),
        decreases CARD_COUNT - slot,
    {
        add_control(&mut out, CARD_MENU_BASE + slot, "Window options", false);
        proof {
            assert(control_notes(out@) =~= slots + menu_buttons(slot + 1));
        }
        slot += 1;
    }
    add_control(&mut out, SEARCH, "", true);
    add_control(&mut out, HOST, "", true);
    add_control(&mut out, CONTROL, "47100", true);
    add_control(&mut out, VIDEO, "47101", true);
    proof {
        assert(control_notes(out@) =~= all_controls());
    }
    out
}

/// How many characters a text field takes: a host name, or a port.
pub fn text_limit(id: usize) -> (limit: Option<usize>)
    ensures
        limit == if id == HOST || id == SEARCH {
            Some(253usize)
        } else if id == CONTROL || id == VIDEO {
            Some(5usize)
        } else {
            None
        },
{
    if id == HOST || id == SEARCH {
        Some(253)
    } else if id == CONTROL || id == VIDEO {
        Some(5)
    } else {
        None
    }
}

} // verus!
