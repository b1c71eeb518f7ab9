//! One proxy window: a native window that stands in for a single Mac window.
//!
//! The swapchain is sized to the exact physical client rect, and the quad is
//! point-sampled from the window's source rect. When the two sizes are equal that is
//! a pixel-exact blit; during a live drag the source is transiently stretched.
//!
//! Times are nanoseconds on the client's monotonic clock.

use vstd::prelude::*;

use crate::resize_sync::ResizeSync;
use crate::resize_sync::SyncNote;
use crate::text::decimal;
use crate::text::decimal_int;
use crate::text::signed_to_text;
use crate::text::unsigned_to_text;
use crate::wire::control::Rect;
use crate::wire::control::Size;

verus! {

/// Live resize requests are sent no more often than this, about ten times a second.
pub const LIVE_RESIZE_INTERVAL: u64 = 100_000_000;

pub struct Proxy {
    /// Physical client size, which is the swapchain's buffer size.
    pub width: u32,
    pub height: u32,
    /// The window's part of the shared texture, in physical pixels.
    pub source: Rect,
    /// Whether the user is moving or sizing the window.
    pub in_size_move: bool,
    pub resizing: bool,
    pub host_resize_pending: bool,
    pub resize_sync: ResizeSync,
    pub dirty: bool,
    /// When the last live resize request of this drag was sent.
    pub last_live_send: Option<u64>,
    /// Draw a one-pixel checkerboard instead of sampling the stream.
    pub checkerboard: bool,
}

/// What a [`Proxy`] holds.
pub struct ProxyNote {
    pub width: u32,
    pub height: u32,
    pub source: Rect,
    pub in_size_move: bool,
    pub resizing: bool,
    pub host_resize_pending: bool,
    pub resize_sync: SyncNote,
    pub dirty: bool,
    pub last_live_send: Option<u64>,
    pub checkerboard: bool,
}

/// What to do about a new client size.
#[derive(Debug, Clone, Copy, PartialEq, Eq, Structural)]
pub enum ResizeStep {
    /// Minimized: nothing to size to.
    Ignore,
    /// The size has not changed.
    Report,
    /// Resize the swapchain's buffers.
    Resize,
}

/// What a frame is drawn from.
#[derive(Debug, Clone, Copy, PartialEq, Eq, Structural)]
pub enum RenderMode {
    /// The part `crop` of the texture.
    Source { crop: Rect },
    Checkerboard,
    /// No frame has arrived yet.
    Waiting,
}

/// How to draw one frame.
#[derive(Debug, Clone, Copy, PartialEq, Eq, Structural)]
pub struct RenderPlan {
    pub draw: Size,
    /// The drawing does not cover the window: clear it first.
    pub clear: bool,
    pub mode: RenderMode,
}

pub open spec fn min_u32(a: u32, b: u32) -> u32 {
    if a <= b {
        a
    } else {
        b
    }
}

pub open spec fn positive(n: u32) -> u32 {
    if n == 0 {
        1
    } else {
        n
    }
}

impl ProxyNote {
    pub open spec fn created(source: Rect, checkerboard: bool) -> ProxyNote {
        ProxyNote {
            width: source.w,
            height: source.h,
            source,
            in_size_move: false,
            resizing: false,
            host_resize_pending: false,
            resize_sync: SyncNote { serial: 0, pending: None },
            dirty: true,
            last_live_send: None,
            checkerboard,
        }
    }

    /// The part of a texture that the window shows: its own texture from the corner
    /// on, or its part of the shared one.
    pub open spec fn shown(self, texture: Option<Size>, independent: bool) -> Rect {
        if independent {
            match texture {
                Some(t) => Rect {
                    x: 0,
                    y: 0,
                    w: min_u32(t.w, self.source.w),
                    h: min_u32(t.h, self.source.h),
                },
                None => Rect { x: 0, y: 0, w: self.source.w, h: self.source.h },
            }
        } else {
            self.source
        }
    }

    /// How to draw one frame: only an actual interactive resize may stretch the
    /// pixels; otherwise they are cropped or letterboxed at native scale.
    pub open spec fn plan(self, texture: Option<Size>, independent: bool) -> RenderPlan {
        let source = self.shown(texture, independent);
        let stretch = self.in_size_move && self.resizing;
        let draw = if stretch || self.checkerboard {
            Size { w: self.width, h: self.height }
        } else {
            Size {
                w: positive(min_u32(self.width, source.w)),
                h: positive(min_u32(self.height, source.h)),
            }
        };
        let crop = if stretch {
            Rect { x: source.x, y: source.y, w: source.w, h: source.h }
        } else {
            Rect { x: source.x, y: source.y, w: draw.w, h: draw.h }
        };
        RenderPlan {
            draw,
            clear: draw.w != self.width || draw.h != self.height,
            mode: if self.checkerboard {
                RenderMode::Checkerboard
            } else if texture is Some {
                RenderMode::Source { crop }
            } else {
                RenderMode::Waiting
            },
        }
    }

    /// Whether another live request may be sent.
    pub open spec fn live_due(self, now: u64) -> bool {
        match self.last_live_send {
            Some(before) => now - before >= LIVE_RESIZE_INTERVAL,
            None => true,
        }
    }
}

impl Proxy {
    pub open spec fn view(&self) -> ProxyNote {
        ProxyNote {
            width: self.width,
            height: self.height,
            source: self.source,
            in_size_move: self.in_size_move,
            resizing: self.resizing,
            host_resize_pending: self.host_resize_pending,
            resize_sync: self.resize_sync@,
            dirty: self.dirty,
            last_live_send: self.last_live_send,
            checkerboard: self.checkerboard,
        }
    }

    pub fn new(source: Rect, checkerboard: bool) -> (proxy: Proxy)
        ensures
            proxy@ == ProxyNote::created(source, checkerboard),
    {
        Proxy {
            width: source.w,
            height: source.h,
            source,
            in_size_move: false,
            resizing: false,
            host_resize_pending: false,
            resize_sync: ResizeSync::default(),
            dirty: true,
            last_live_send: None,
            checkerboard,
        }
    }

    /// What to do about a new client size; `ready` tells whether there is a target
    /// to draw to.
    pub fn resize_swapchain(&mut self, width: u32, height: u32, ready: bool) -> (step: ResizeStep)
        ensures
            step == if width == 0 || height == 0 {
                ResizeStep::Ignore
            } else if width == old(self)@.width && height == old(self)@.height && ready {
                ResizeStep::Report
            } else {
                ResizeStep::Resize
            },
            final(self)@ == (ProxyNote {
                dirty: old(self)@.dirty || step == ResizeStep::Resize,
                ..old(self)@
            }),
    {
        if width == 0 || height == 0 {
            return ResizeStep::Ignore;
        }
        if width == self.width && height == self.height && ready {
            return ResizeStep::Report;
        }
        self.dirty = true;
        ResizeStep::Resize
    }

    /// The swapchain's buffers have the new size now.
    pub fn resized(&mut self, width: u32, height: u32)
        ensures
            final(self)@ == (ProxyNote { width, height, ..old(self)@ }),
    {
        self.width = width;
        self.height = height;
    }

    /// How to draw one frame from a texture of a size, if there is one.
    pub fn render(&self, texture: Option<Size>, independent: bool) -> (plan: RenderPlan)
        ensures
            plan == self@.plan(texture, independent),
    {
        let source = if independent {
            match texture {
                Some(t) => Rect {
                    x: 0,
                    y: 0,
                    w: smaller(t.w, self.source.w),
                    h: smaller(t.h, self.source.h),
                },
                None => Rect { x: 0, y: 0, w: self.source.w, h: self.source.h },
            }
        } else {
            self.source
        };
        let stretch = self.in_size_move && self.resizing;
        let draw = if stretch || self.checkerboard {
            Size { w: self.width, h: self.height }
        } else {
            Size {
                w: at_least_one(smaller(self.width, source.w)),
                h: at_least_one(smaller(self.height, source.h)),
            }
        };
        let crop = if stretch {
            source
        } else {
            Rect { x: source.x, y: source.y, w: draw.w, h: draw.h }
        };
        let mode = if self.checkerboard {
            RenderMode::Checkerboard
        } else if texture.is_some() {
            RenderMode::Source { crop }
        } else {
            RenderMode::Waiting
        };
        RenderPlan { draw, clear: draw.w != self.width || draw.h != self.height, mode }
    }

    /// A frame was handed to the compositor; one that it did not take is drawn
    /// again.
    pub fn presented(&mut self, taken: bool)
        ensures
            final(self)@ == (ProxyNote { dirty: !taken, ..old(self)@ }),
    {
        self.dirty = !taken;
    }

    /// The host reported this window's actual geometry. Returns whether the size
    /// changed.
    pub fn set_source(&mut self, source: Rect) -> (size_changed: bool)
        ensures
            size_changed == (old(self)@.source.w != source.w || old(self)@.source.h != source.h),
            final(self)@ == (ProxyNote {
                source,
                dirty: old(self)@.dirty || old(self)@.source != source,
                ..old(self)@
            }),
    {
        let size_changed = self.source.w != source.w || self.source.h != source.h;
        if self.source != source {
            self.dirty = true;
        }
        self.source = source;
        size_changed
    }

    /// Whether enough time has passed to send another live resize request, and
    /// records the send if so.
    pub fn should_send_live(&mut self, now: u64) -> (send: bool)
        ensures
            send == old(self)@.live_due(now),
            final(self)@ == if send {
                ProxyNote { last_live_send: Some(now), ..old(self)@ }
            } else {
                old(self)@
            },
    {
        match self.last_live_send {
            Some(before) => {
                if now < before || now - before < LIVE_RESIZE_INTERVAL {
                    return false;
                }
            },
            None => {},
        }
        self.last_live_send = Some(now);
        true
    }

    pub fn begin_size_move(&mut self)
        ensures
            final(self)@ == (ProxyNote {
                resize_sync: old(self)@.resize_sync.begun(),
                in_size_move: true,
                resizing: false,
                last_live_send: None,
                ..old(self)@
            }),
    {
        self.resize_sync.begin();
        self.in_size_move = true;
        self.resizing = false;
        self.last_live_send = None;
    }

    pub fn end_size_move(&mut self)
        ensures
            final(self)@ == (ProxyNote {
                dirty: true,
                in_size_move: false,
                resizing: false,
                last_live_send: None,
                ..old(self)@
            }),
    {
        self.dirty = true;
        self.in_size_move = false;
        self.resizing = false;
        self.last_live_send = None;
    }
}

fn smaller(a: u32, b: u32) -> (least: u32)
    ensures
        least == min_u32(a, b),
{
    if a <= b {
        a
    } else {
        b
    }
}

fn at_least_one(n: u32) -> (result: u32)
    ensures
        result == positive(n),
{
    if n == 0 {
        1
    } else {
        n
    }
}

/// A length as 32 bits without a sign.
pub open spec fn unsigned_word(n: i32) -> int {
    n as int % 0x1_0000_0000
}

fn word_of(n: i32) -> (word: u32)
    ensures
        word == unsigned_word(n),
{
    if n < 0 {
        (n as i64 + 0x1_0000_0000) as u32
    } else {
        n as u32
    }
}

/// What the geometry trace says of a window: whether its swapchain has exactly the
/// size of its client area.
pub open spec fn pixel_line(dpi: u32, physical: (i32, i32), swapchain: (u32, u32)) -> Seq<char> {
    "pixel-check: DPI="@ + decimal(dpi as nat) + " physical="@ + decimal_int(physical.0 as int)
        + "x"@ + decimal_int(physical.1 as int) + " swapchain="@ + decimal(swapchain.0 as nat)
        + "x"@ + decimal(swapchain.1 as nat) + " "@ + if unsigned_word(physical.0)
        == swapchain.0 && unsigned_word(physical.1) == swapchain.1 {
        "PASS"@
    } else {
        "FAIL"@
    }
}

/// What the geometry trace says of a window.
pub fn pixel_check_line(dpi: u32, physical: (i32, i32), swapchain: (u32, u32)) -> (line: String)
    ensures
        line@ == pixel_line(dpi, physical, swapchain),
{
    let matched = word_of(physical.0) == swapchain.0 && word_of(physical.1) == swapchain.1;
    String::from_str("pixel-check: DPI=").concat(unsigned_to_text(dpi as u64).as_str()).concat(
        " physical=",
    ).concat(signed_to_text(physical.0 as i64).as_str()).concat("x").concat(
        signed_to_text(physical.1 as i64).as_str(),
    ).concat(" swapchain=").concat(unsigned_to_text(swapchain.0 as u64).as_str()).concat("x").concat(
        unsigned_to_text(swapchain.1 as u64).as_str(),
    ).concat(" ").concat(
        if matched {
            "PASS"
        } else {
            "FAIL"
        },
    )
}

/// Outside an interactive resize nothing is ever scaled: each drawn pixel comes from
/// one pixel of the texture.
pub proof fn law_pixels_are_never_scaled(p: ProxyNote, texture: Option<Size>, independent: bool)
    requires
        !(p.in_size_move && p.resizing),
    ensures
        p.plan(texture, independent).mode matches RenderMode::Source { crop } ==> {
            &&& crop.w == p.plan(texture, independent).draw.w
            &&& crop.h == p.plan(texture, independent).draw.h
        },
{
}

/// A window that has exactly the size of its source shows exactly its source.
pub proof fn law_matching_sizes_blit_exactly(p: ProxyNote, texture: Size)
    requires
        p.width == p.source.w >= 1,
        p.height == p.source.h >= 1,
        !p.checkerboard,
    ensures
        p.plan(Some(texture), false) == (RenderPlan {
            draw: Size { w: p.width, h: p.height },
            clear: false,
            mode: RenderMode::Source { crop: p.source },
        }),
{
}

} // verus!
