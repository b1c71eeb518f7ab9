//! The application's turn: what it does about session events, decoded video and the
//! messages of its native windows, and how a proxy window comes into being.
//!
//! Times are nanoseconds on the client's monotonic clock.

use vstd::prelude::*;

use crate::keyed::drop_key;
use crate::keyed::find_slot;
use crate::keyed::lemma_seen;
use crate::keyed::set_value;
use crate::keyed::value_of;
use crate::keyed::with_value;
use crate::keyed::without_key;
use crate::model::EventNote;
use crate::model::ModelEvent;
use crate::options::optional_text;
use crate::text::owned;
use crate::win::app::add_effect;
use crate::win::app::add_effects;
use crate::win::app::app_effects;
use crate::win::app::lemma_proxies;
use crate::win::app::lemma_proxy_changed;
use crate::win::app::lemma_windows;
use crate::win::app::native_title;
use crate::win::app::nothing;
use crate::win::app::only;
use crate::win::app::proxy_notes;
use crate::win::app::show_title;
use crate::win::app::suffix;
use crate::win::app::suffix_text;
use crate::win::app::App;
use crate::win::app::AppEffect;
use crate::win::app::AppEffectNote;
use crate::win::app::AppNote;
use crate::win::app::AppStep;
use crate::win::app::SILENT_UNITS;
use crate::win::chrome::Bounds;
use crate::win::event_queue::NativeEvent;
use crate::win::frame::client_size;
use crate::win::frame::inner_length;
use crate::win::frame::outer_size;
use crate::win::input::event_for_message;
use crate::win::input::message_event;
use crate::win::messages::WM_ACTIVATE;
use crate::win::messages::WM_CLOSE;
use crate::win::messages::WM_DESTROY;
use crate::win::messages::WM_DPICHANGED;
use crate::win::messages::WM_ENTERSIZEMOVE;
use crate::win::messages::WM_EXITSIZEMOVE;
use crate::win::messages::WM_KEYDOWN;
use crate::win::messages::WM_KEYUP;
use crate::win::messages::WM_LBUTTONDOWN;
use crate::win::messages::WM_LBUTTONUP;
use crate::win::messages::WM_MBUTTONDOWN;
use crate::win::messages::WM_MBUTTONUP;
use crate::win::messages::WM_MOUSEHWHEEL;
use crate::win::messages::WM_MOUSEMOVE;
use crate::win::messages::WM_MOUSEWHEEL;
use crate::win::messages::WM_PAINT;
use crate::win::messages::WM_RBUTTONDOWN;
use crate::win::messages::WM_RBUTTONUP;
use crate::win::messages::WM_SIZE;
use crate::win::messages::WM_SIZING;
use crate::win::messages::WM_SYSKEYDOWN;
use crate::win::messages::WM_SYSKEYUP;
use crate::win::proxy::Proxy;
use crate::win::proxy::ProxyNote;
use crate::win::proxy::RenderPlan;
use crate::win::proxy::ResizeStep;
use crate::window_fit::fitted;
use crate::window_fit::initial_proxy_size;
use crate::window_fit::law_initial_size_stays_within_work_area;
use crate::wire::control::has_frame;
use crate::wire::control::ClientMessage;
use crate::wire::control::Rect;
use crate::wire::control::ResizePhase;
use crate::wire::control::Size;
use crate::wire::control::WindowKind;
use crate::wire::input::InputEvent;

verus! {

/// Where the first window of a session appears, how far the next ones are shifted,
/// and how many of them before the place repeats.
pub const SPAWN_EDGE: i32 = 40;

pub const SPAWN_SHIFT: i32 = 48;

pub const SPAWN_PLACES: u32 = 8;

pub const NANOSECONDS_PER_MILLISECOND: u64 = 1_000_000;

/// What came in from the session.
#[derive(Debug)]
pub enum SessionEvent {
    Control(ModelEvent),
    /// How large a window may get.
    ResizeBounds { id: u64, max_size: Size },
    /// A resize request was carried out.
    ResizeCompleted { id: u64, source: Rect, request: u64 },
    ControlClosed(Option<String>),
    VideoClosed(Option<String>),
    /// The session is gone without a word.
    Lost,
}

/// What a [`SessionEvent`] says.
pub enum SessionNote {
    Control(EventNote),
    ResizeBounds { id: u64, max_size: Size },
    ResizeCompleted { id: u64, source: Rect, request: u64 },
    ControlClosed(Option<Seq<char>>),
    VideoClosed(Option<Seq<char>>),
    Lost,
}

impl SessionEvent {
    pub open spec fn view(&self) -> SessionNote {
        match self {
            SessionEvent::Control(ev) => SessionNote::Control(ev@),
            SessionEvent::ResizeBounds { id, max_size } => SessionNote::ResizeBounds {
                id: *id,
                max_size: *max_size,
            },
            SessionEvent::ResizeCompleted { id, source, request } => SessionNote::ResizeCompleted {
                id: *id,
                source: *source,
                request: *request,
            },
            SessionEvent::ControlClosed(reason) => SessionNote::ControlClosed(
                optional_text(*reason),
            ),
            SessionEvent::VideoClosed(reason) => SessionNote::VideoClosed(optional_text(*reason)),
            SessionEvent::Lost => SessionNote::Lost,
        }
    }
}

/// What the decoder tells of its work.
#[derive(Debug)]
pub struct VideoReport {
    /// How many access units came so far.
    pub received: u64,
    pub request_keyframe: bool,
    pub error: Option<String>,
    /// Whether a new picture is ready.
    pub frame: bool,
}

/// How to make a native window.
#[derive(Debug)]
pub struct ProxyPlan {
    pub source: Rect,
    pub title: String,
    pub x: i32,
    pub y: i32,
    /// The outer size.
    pub outer: (i32, i32),
    /// The client size.
    pub size: Size,
    /// Whether the window is smaller than its source, so that the host is asked for
    /// the smaller size.
    pub clamped: bool,
    pub limit: Option<Size>,
    /// Whether the window has a resizable frame and an Alt-Tab entry.
    pub framed: bool,
}

/// What a [`ProxyPlan`] holds.
pub struct PlanNote {
    pub source: Rect,
    pub title: Seq<char>,
    pub x: i32,
    pub y: i32,
    pub outer: (i32, i32),
    pub size: Size,
    pub clamped: bool,
    pub limit: Option<Size>,
    pub framed: bool,
}

impl ProxyPlan {
    pub open spec fn view(&self) -> PlanNote {
        PlanNote {
            source: self.source,
            title: self.title@,
            x: self.x,
            y: self.y,
            outer: self.outer,
            size: self.size,
            clamped: self.clamped,
            limit: self.limit,
            framed: self.framed,
        }
    }
}

/// What the system says of a native window when its message is handled.
#[derive(Debug, Clone, Copy)]
pub struct WindowFacts {
    /// The lower right corner of the client area.
    pub client: (i32, i32),
    /// Whether the swapchain has a target to draw to.
    pub ready: bool,
    /// How much larger the window is than its client area.
    pub inset: (i32, i32),
    /// The pointer, relative to the client area.
    pub pointer: (i32, i32),
}

// ---------------------------------------------------------------------------
// What happens
// ---------------------------------------------------------------------------

/// A length that is at least one pixel.
pub open spec fn pixels(length: int) -> int {
    if length < 1 {
        1
    } else {
        length
    }
}

/// A work area's size, at least one pixel each way.
pub open spec fn area_size(work: Bounds) -> Size {
    Size {
        w: pixels(work.right - work.left) as u32,
        h: pixels(work.bottom - work.top) as u32,
    }
}

/// Whether lengths and corners of a work area can be counted.
pub open spec fn countable(work: Bounds) -> bool {
    &&& i32::MIN < work.right
    &&& i32::MIN < work.bottom
    &&& i32::MIN <= work.right - work.left <= i32::MAX
    &&& i32::MIN <= work.bottom - work.top <= i32::MAX
}

/// A coordinate as near to `wished` as lets a length end before `end`, but not before
/// `start`.
pub open spec fn placed(wished: int, start: int, end: int, length: int) -> int {
    let fitting = if wished <= end - length {
        wished
    } else {
        end - length
    };
    if fitting >= start {
        fitting
    } else {
        start
    }
}

/// The effects of a resize step.
pub open spec fn resize_effects(id: u64, step: ResizeStep, size: Size) -> Seq<AppEffectNote> {
    match step {
        ResizeStep::Ignore => Seq::empty(),
        ResizeStep::Report => seq![AppEffectNote::ReportSize { id }],
        ResizeStep::Resize => seq![AppEffectNote::ResizeSwapchain { id, size }],
    }
}

/// What to do about a new client size.
pub open spec fn resize_step(p: ProxyNote, size: Size, ready: bool) -> ResizeStep {
    if size.w == 0 || size.h == 0 {
        ResizeStep::Ignore
    } else if size.w == p.width && size.h == p.height && ready {
        ResizeStep::Report
    } else {
        ResizeStep::Resize
    }
}

/// A proxy that was told of a new client size.
pub open spec fn told_size(p: ProxyNote, size: Size, ready: bool) -> ProxyNote {
    ProxyNote { dirty: p.dirty || resize_step(p, size, ready) == ResizeStep::Resize, ..p }
}

/// A proxy that no longer waits for an answer that is overdue.
pub open spec fn settled(p: ProxyNote, now: u64) -> ProxyNote {
    if p.resize_sync.is_expired(now) {
        ProxyNote { resize_sync: p.resize_sync.begun(), ..p }
    } else {
        p
    }
}

pub open spec fn all_settled(proxies: Seq<(u64, ProxyNote)>, now: u64) -> Seq<(u64, ProxyNote)> {
    Seq::new(proxies.len(), |i: int| (proxies[i].0, settled(proxies[i].1, now)))
}

pub open spec fn all_dirty(proxies: Seq<(u64, ProxyNote)>) -> Seq<(u64, ProxyNote)> {
    Seq::new(
        proxies.len(),
        |i: int| (proxies[i].0, ProxyNote { dirty: true, ..proxies[i].1 }),
    )
}

/// The native windows that give up waiting take the size of their source.
pub open spec fn late_snaps(proxies: Seq<(u64, ProxyNote)>, now: u64) -> Seq<AppEffectNote>
    decreases proxies.len(),
{
    if proxies.len() == 0 {
        Seq::empty()
    } else {
        let (id, p) = proxies.last();
        let before = late_snaps(proxies.drop_last(), now);
        if p.resize_sync.is_expired(now) && AppNote::snaps(settled(p, now)) {
            before.push(
                AppEffectNote::Snap { id, size: Size { w: p.source.w, h: p.source.h } },
            )
        } else {
            before
        }
    }
}

pub open spec fn renders(proxies: Seq<(u64, ProxyNote)>) -> Seq<AppEffectNote> {
    Seq::new(proxies.len(), |i: int| AppEffectNote::Render { id: proxies[i].0 })
}

/// One input message for each of the moves.
pub open spec fn move_messages(moves: Seq<(u64, InputEvent)>, now: u64) -> Seq<AppEffectNote> {
    Seq::new(
        moves.len(),
        |i: int|
            AppEffectNote::Send(
                ClientMessage::Input { id: moves[i].0, event: moves[i].1, ts: stamp(now) },
            ),
    )
}

/// The client's time stamp, in milliseconds.
pub open spec fn stamp(now: u64) -> u64 {
    now / NANOSECONDS_PER_MILLISECOND
}

/// Whether a message tells of a mouse button or a wheel.
pub open spec fn is_button(msg: u32) -> bool {
    ||| msg == WM_LBUTTONDOWN
    ||| msg == WM_LBUTTONUP
    ||| msg == WM_RBUTTONDOWN
    ||| msg == WM_RBUTTONUP
    ||| msg == WM_MBUTTONDOWN
    ||| msg == WM_MBUTTONUP
    ||| msg == WM_MOUSEWHEEL
    ||| msg == WM_MOUSEHWHEEL
}

/// Whether a message tells of a key.
pub open spec fn is_key(msg: u32) -> bool {
    msg == WM_KEYDOWN || msg == WM_KEYUP || msg == WM_SYSKEYDOWN || msg == WM_SYSKEYUP
}

/// The lengths of a rectangle can be counted.
pub open spec fn countable_rect(r: Bounds) -> bool {
    &&& i32::MIN <= r.right - r.left <= i32::MAX
    &&& i32::MIN <= r.bottom - r.top <= i32::MAX
}

/// What a queued message carries: a rectangle where it points to one.
pub open spec fn well_formed(event: NativeEvent, facts: WindowFacts) -> bool {
    &&& event.msg == WM_DPICHANGED ==> (event.rect matches Some(r) && countable_rect(r))
    &&& event.msg == WM_SIZING ==> (event.rect matches Some(r) && {
        &&& countable_rect(r)
        &&& pixels(r.right - r.left) - facts.inset.0 <= u32::MAX
        &&& pixels(r.bottom - r.top) - facts.inset.1 <= u32::MAX
    })
}

/// A client size, at least `least` pixels each way.
pub open spec fn client_area(corner: (i32, i32), least: u32) -> Size {
    Size {
        w: if corner.0 < least as int {
            least
        } else {
            corner.0 as u32
        },
        h: if corner.1 < least as int {
            least
        } else {
            corner.1 as u32
        },
    }
}

/// The client size of a window that is dragged to a rectangle.
pub open spec fn dragged_size(r: Bounds, inset: (i32, i32)) -> Size {
    Size {
        w: inner_length(pixels(r.right - r.left), inset.0 as int) as u32,
        h: inner_length(pixels(r.bottom - r.top), inset.1 as int) as u32,
    }
}

impl AppNote {
    /// Whether an attempt to connect is due.
    pub open spec fn reconnect_due(self, now: u64) -> bool {
        match self.reconnect_at {
            Some(at) => now >= at,
            None => true,
        }
    }

    /// What to do about the session in this turn.
    pub open spec fn session_polled(self, now: u64) -> AppStep {
        if self.active && !self.session && self.reconnect_due(now) {
            self.connect_tried()
        } else {
            (self, Seq::empty())
        }
    }

    /// A session event came in.
    pub open spec fn told(self, ev: SessionNote, now: u64) -> AppStep {
        match ev {
            SessionNote::Control(ev) => self.modelled(ev),
            SessionNote::ResizeBounds { id, max_size } => self.bounded(id, max_size),
            SessionNote::ResizeCompleted { id, source, request } => self.resize_acknowledged(
                id,
                source,
                request,
            ),
            SessionNote::ControlClosed(reason) => {
                let (a, effects) = self.dropped(now);
                (
                    a,
                    seq![
                        AppEffectNote::Status {
                            text: "Connection lost"@ + suffix_text(reason) + ". Retrying…"@,
                            active: true,
                        },
                    ] + effects,
                )
            },
            SessionNote::VideoClosed(reason) => {
                let (a, effects) = self.dropped(now);
                (
                    a,
                    seq![
                        AppEffectNote::Status {
                            text: "Video unavailable"@ + suffix_text(reason) + ". Retrying…"@,
                            active: true,
                        },
                    ] + effects,
                )
            },
            SessionNote::Lost => self.dropped(now),
        }
    }

    /// Video comes, but no picture has ever come of it, and nobody was told.
    pub open spec fn silent(self) -> bool {
        &&& !self.warned_no_decode
        &&& self.video_notice is None
        &&& self.video_decoded == 0
        &&& self.video_in >= SILENT_UNITS
    }

    /// The decoder told of its work.
    pub open spec fn decoder_polled(
        self,
        received: u64,
        request_keyframe: bool,
        error: Option<Seq<char>>,
        frame: bool,
    ) -> AppStep {
        let a = AppNote {
            video_in: received,
            video_notice: if error is Some {
                error
            } else {
                self.video_notice
            },
            ..self
        };
        let asked = if request_keyframe && self.session {
            seq![AppEffectNote::RequestKeyframe]
        } else {
            Seq::empty()
        };
        let failed = if error is Some {
            a.status()
        } else {
            Seq::empty()
        };
        let b = if a.silent() {
            AppNote {
                warned_no_decode: true,
                video_notice: Some(
                    "Video is arriving but no picture has decoded yet. Waiting for a complete keyframe..."@,
                ),
                ..a
            }
        } else {
            a
        };
        let warned = if a.silent() {
            b.status()
        } else {
            Seq::empty()
        };
        let upload = if frame && self.source is Some {
            seq![AppEffectNote::UploadFrame]
        } else {
            Seq::empty()
        };
        (b, asked + failed + warned + upload)
    }

    /// A picture was put into the texture, or could not be.
    pub open spec fn uploaded(self, error: Option<Seq<char>>) -> AppStep {
        match error {
            Some(error) => {
                let a = AppNote {
                    video_notice: Some("Cannot render video: "@ + error),
                    ..self
                };
                (a, a.status())
            },
            None => {
                let a = AppNote {
                    proxies: all_dirty(self.proxies),
                    video_decoded: (self.video_decoded + 1) as u64,
                    video_notice: None,
                    ..self
                };
                (
                    a,
                    seq![AppEffectNote::RefreshPreviews] + if self.video_decoded == 0
                        || self.video_notice is Some {
                        a.status()
                    } else {
                        Seq::empty()
                    },
                )
            },
        }
    }

    /// Where the next window appears, in both directions.
    pub open spec fn next_spawn(self) -> i32 {
        (SPAWN_EDGE + self.cascade % SPAWN_PLACES * SPAWN_SHIFT) as i32
    }

    /// How the native window of a shared window is made.
    pub open spec fn proxy_plan(
        self,
        id: u64,
        spawn: i32,
        work: Bounds,
        inset: (i32, i32),
    ) -> Option<PlanNote> {
        match value_of(self.windows, id) {
            None => None,
            Some(w) => {
                let source = Size { w: w.source.w, h: w.source.h };
                let (width, height) = fitted(source, area_size(work));
                let size = Size { w: width as u32, h: height as u32 };
                let framed = w.kind == WindowKind::Normal;
                Some(
                    PlanNote {
                        source: w.source,
                        title: native_title(w.title),
                        x: placed(spawn as int, work.left as int, work.right as int, width) as i32,
                        y: placed(spawn as int, work.top as int, work.bottom as int, height) as i32,
                        outer: if framed {
                            ((width + inset.0) as i32, (height + inset.1) as i32)
                        } else {
                            (width as i32, height as i32)
                        },
                        size,
                        clamped: size != source,
                        limit: value_of(self.resize_limits, id),
                        framed,
                    },
                )
            },
        }
    }

    /// A native window was made.
    pub open spec fn proxy_made(
        self,
        id: u64,
        source: Rect,
        size: Size,
        clamped: bool,
        facts: WindowFacts,
        now: u64,
    ) -> AppStep {
        let actual = client_area(facts.client, 1);
        let p = ProxyNote::created(source, self.cfg.checkerboard);
        let a = AppNote {
            proxies: with_value(self.proxies, id, told_size(p, actual, facts.ready)),
            ..self
        };
        let made = resize_effects(id, resize_step(p, actual, facts.ready), actual) + seq![
            AppEffectNote::Reveal { id },
        ];
        let (b, asked) = if clamped {
            a.committed(id, size, now)
        } else {
            (a, Seq::empty())
        };
        (b, made + asked + b.shown())
    }

    /// The native windows that give up waiting, and then all of them drawn.
    pub open spec fn rendered(self, now: u64) -> AppStep {
        (
            AppNote { proxies: all_settled(self.proxies, now), ..self },
            late_snaps(self.proxies, now) + renders(self.proxies),
        )
    }

    /// One proxy changed.
    pub open spec fn changed(self, id: u64, p: ProxyNote) -> AppNote {
        AppNote { proxies: with_value(self.proxies, id, p), ..self }
    }

    /// A window's unsent hover move is forgotten.
    pub open spec fn unhovered(self, id: u64) -> AppNote {
        AppNote { pending_mouse_moves: without_key(self.pending_mouse_moves, id), ..self }
    }

    /// Whether the user is moving or sizing a window.
    pub open spec fn dragging(self, id: u64) -> bool {
        value_of(self.proxies, id) matches Some(p) && p.in_size_move
    }

    /// A native window has a new client size. Other than in a drag the host is asked
    /// for the same size.
    pub open spec fn sized(self, id: u64, size: Size, ready: bool, now: u64) -> AppStep {
        match value_of(self.proxies, id) {
            None => (self, Seq::empty()),
            Some(p) => {
                let a = self.changed(id, told_size(p, size, ready));
                let drawn = resize_effects(id, resize_step(p, size, ready), size) + seq![
                    AppEffectNote::Render { id },
                ];
                if size.w > 0 && size.h > 0 && !p.in_size_move && (size.w != p.source.w || size.h
                    != p.source.h) {
                    let (b, asked) = a.committed(id, size, now);
                    (b, drawn + asked)
                } else {
                    (a, drawn)
                }
            },
        }
    }

    /// The user begins to move or size a window.
    pub open spec fn drag_begun(self, id: u64) -> AppNote {
        let a = self.unhovered(id);
        match value_of(self.proxies, id) {
            None => a,
            Some(p) => a.changed(
                id,
                ProxyNote {
                    resize_sync: p.resize_sync.begun(),
                    in_size_move: true,
                    resizing: false,
                    last_live_send: None,
                    ..p
                },
            ),
        }
    }

    /// The user drags an edge: the host hears of the first step and now and then of
    /// another.
    pub open spec fn dragged(self, id: u64, size: Size, now: u64) -> AppStep {
        match value_of(self.proxies, id) {
            None => (self, Seq::empty()),
            Some(p) => (
                self.changed(
                    id,
                    ProxyNote {
                        resizing: true,
                        last_live_send: if p.live_due(now) {
                            Some(now)
                        } else {
                            p.last_live_send
                        },
                        ..p
                    },
                ),
                (if !p.resizing {
                    self.sent(
                        ClientMessage::RequestResize { id, size, phase: ResizePhase::Begin },
                    )
                } else {
                    Seq::empty()
                }) + if p.live_due(now) {
                    self.sent(
                        ClientMessage::RequestResize { id, size, phase: ResizePhase::Live },
                    )
                } else {
                    Seq::empty()
                },
            ),
        }
    }

    /// The user let go of a window.
    pub open spec fn drag_ended(self, id: u64, size: Size, now: u64) -> AppStep {
        match value_of(self.proxies, id) {
            None => (self, Seq::empty()),
            Some(p) => {
                let a = self.changed(
                    id,
                    ProxyNote {
                        dirty: true,
                        in_size_move: false,
                        resizing: false,
                        last_live_send: None,
                        ..p
                    },
                );
                if p.resizing {
                    a.committed(id, size, now)
                } else {
                    (a, Seq::empty())
                }
            },
        }
    }

    /// A native window has to be painted.
    pub open spec fn painted(self, id: u64) -> AppStep {
        match value_of(self.proxies, id) {
            None => (self, seq![AppEffectNote::Validate { id }]),
            Some(p) => (
                self.changed(id, ProxyNote { dirty: true, ..p }),
                seq![AppEffectNote::Render { id }, AppEffectNote::Validate { id }],
            ),
        }
    }

    /// An input event goes to the host.
    pub open spec fn forwarded(self, id: u64, event: Option<InputEvent>, now: u64) -> Seq<
        AppEffectNote,
    > {
        match event {
            Some(event) => self.sent(ClientMessage::Input { id, event, ts: stamp(now) }),
            None => Seq::empty(),
        }
    }

    /// What a message of a native window does.
    pub open spec fn message_done(
        self,
        id: u64,
        event: NativeEvent,
        facts: WindowFacts,
        now: u64,
    ) -> AppStep {
        let input = message_event(event.msg, event.wparam, event.lparam, facts.pointer);
        if event.msg == WM_SIZE {
            self.sized(id, client_area(facts.client, 0), facts.ready, now)
        } else if event.msg == WM_ENTERSIZEMOVE {
            (self.drag_begun(id), Seq::empty())
        } else if event.msg == WM_SIZING {
            self.dragged(id, dragged_size(event.rect->0, facts.inset), now)
        } else if event.msg == WM_EXITSIZEMOVE {
            self.drag_ended(id, client_area(facts.client, 1), now)
        } else if event.msg == WM_DPICHANGED {
            (self, seq![AppEffectNote::MoveTo { id, bounds: event.rect->0 }])
        } else if event.msg == WM_PAINT {
            self.painted(id)
        } else if event.msg == WM_ACTIVATE && event.wparam % 0x1_0000 != 0 {
            (self, self.sent(ClientMessage::RequestFocus { id }))
        } else if event.msg == WM_MOUSEMOVE {
            if self.dragging(id) || input is None {
                (self, Seq::empty())
            } else {
                (
                    AppNote {
                        pending_mouse_moves: with_value(self.pending_mouse_moves, id, input->0),
                        ..self
                    },
                    Seq::empty(),
                )
            }
        } else if is_button(event.msg) {
            if self.dragging(id) {
                (self, Seq::empty())
            } else {
                (self.unhovered(id), self.forwarded(id, input, now))
            }
        } else if is_key(event.msg) {
            (self, self.forwarded(id, input, now))
        } else if event.msg == WM_CLOSE {
            (
                self.unhovered(id),
                seq![AppEffectNote::HideProxy { id }, AppEffectNote::RefreshGallery],
            )
        } else if event.msg == WM_DESTROY {
            (AppNote { proxies: without_key(self.proxies, id), ..self }, Seq::empty())
        } else {
            (self, Seq::empty())
        }
    }
}

/// What the window procedure would answer, if the message is dealt with.
pub open spec fn message_answer(event: NativeEvent) -> Option<isize> {
    if event.msg == WM_SIZING {
        Some(1)
    } else if event.msg == WM_SIZE || event.msg == WM_ENTERSIZEMOVE || event.msg == WM_EXITSIZEMOVE
        || event.msg == WM_DPICHANGED || event.msg == WM_PAINT || event.msg == WM_CLOSE || event.msg
        == WM_DESTROY || (event.msg == WM_ACTIVATE && event.wparam % 0x1_0000 != 0) {
        Some(0)
    } else {
        None
    }
}

// ---------------------------------------------------------------------------
// The application's turn
// ---------------------------------------------------------------------------

fn at_least_a_pixel(length: i32) -> (result: u32)
    ensures
        result == pixels(length as int),
{
    if length < 1 {
        1
    } else {
        length as u32
    }
}

fn corner_size(corner: (i32, i32), least: u32) -> (size: Size)
    requires
        least <= 1,
    ensures
        size == client_area(corner, least),
{
    Size {
        w: if corner.0 < least as i32 {
            least
        } else {
            corner.0 as u32
        },
        h: if corner.1 < least as i32 {
            least
        } else {
            corner.1 as u32
        },
    }
}

fn place(wished: i32, start: i32, end: i32, length: u32) -> (at: i32)
    requires
        length <= i32::MAX,
        i32::MIN <= end - length,
    ensures
        at == placed(wished as int, start as int, end as int, length as int),
{
    let last: i32 = (end as i64 - length as i64) as i32;
    let fitting: i32 = if wished <= last {
        wished
    } else {
        last
    };
    if fitting >= start {
        fitting
    } else {
        start
    }
}

fn add_step(effects: &mut Vec<AppEffect>, id: u64, step: ResizeStep, size: Size)
    ensures
        app_effects(final(effects)@) == app_effects(old(effects)@) + resize_effects(
            id,
            step,
            size,
        ),
{
    match step {
        ResizeStep::Ignore => {},
        ResizeStep::Report => {
            add_effect(effects, AppEffect::ReportSize { id });
        },
        ResizeStep::Resize => {
            add_effect(effects, AppEffect::ResizeSwapchain { id, size });
        },
    }
    proof {
        assert(app_effects(effects@) =~= app_effects(old(effects)@) + resize_effects(
            id,
            step,
            size,
        ));
    }
}

fn points_at_button(msg: u32) -> (yes: bool)
    ensures
        yes == is_button(msg),
{
    msg == WM_LBUTTONDOWN || msg == WM_LBUTTONUP || msg == WM_RBUTTONDOWN || msg == WM_RBUTTONUP
        || msg == WM_MBUTTONDOWN || msg == WM_MBUTTONUP || msg == WM_MOUSEWHEEL || msg
        == WM_MOUSEHWHEEL
}

impl App {
    /// Connect if that is due. Whether the session's events are to be drained.
    pub fn poll_session(&mut self, now: u64) -> (result: (Vec<AppEffect>, bool))
        ensures
            (final(self)@, app_effects(result.0@)) == old(self)@.session_polled(now),
            result.1 == (old(self)@.active && old(self)@.session),
    {
        if !self.active {
            return (nothing(), false);
        }
        if self.session {
            return (nothing(), true);
        }
        let due = match self.reconnect_at {
            Some(at) => now >= at,
            None => true,
        };
        if due {
            (self.connect(), false)
        } else {
            (nothing(), false)
        }
    }

    fn lose_session(&mut self, text: String, now: u64) -> (effects: Vec<AppEffect>)
        ensures
            final(self)@ == old(self)@.dropped(now).0,
            app_effects(effects@) == seq![
                AppEffectNote::Status { text: text@, active: true },
            ] + old(self)@.dropped(now).1,
    {
        let mut effects = only(AppEffect::Status { text, active: true });
        let more = self.drop_session(now);
        add_effects(&mut effects, more);
        effects
    }

    /// Deal with a session event. Whether the session goes on.
    pub fn session_event(&mut self, ev: SessionEvent, now: u64) -> (result: (Vec<AppEffect>, bool))
        ensures
            (final(self)@, app_effects(result.0@)) == old(self)@.told(ev@, now),
            result.1 == !(ev@ is ControlClosed || ev@ is VideoClosed || ev@ is Lost),
    {
        match ev {
            SessionEvent::Control(ev) => (self.apply_model_event(&ev), true),
            SessionEvent::ResizeBounds { id, max_size } => (self.resize_bounds(id, max_size), true),
            SessionEvent::ResizeCompleted { id, source, request } => (
                self.resize_completed(id, source, request),
                true,
            ),
            SessionEvent::ControlClosed(reason) => {
                let text = String::from_str("Connection lost").concat(
                    suffix(reason).as_str(),
                ).concat(". Retrying…");
                (self.lose_session(text, now), false)
            },
            SessionEvent::VideoClosed(reason) => {
                let text = String::from_str("Video unavailable").concat(
                    suffix(reason).as_str(),
                ).concat(". Retrying…");
                (self.lose_session(text, now), false)
            },
            SessionEvent::Lost => (self.drop_session(now), false),
        }
    }

    /// Deal with what the decoder tells of its work.
    pub fn poll_decoder(&mut self, report: VideoReport) -> (effects: Vec<AppEffect>)
        ensures
            (final(self)@, app_effects(effects@)) == old(self)@.decoder_polled(
                report.received,
                report.request_keyframe,
                optional_text(report.error),
                report.frame,
            ),
    {
        let mut effects = nothing();
        self.video_in = report.received;
        if report.request_keyframe && self.session {
            add_effect(&mut effects, AppEffect::RequestKeyframe);
        }
        let ghost asked = app_effects(effects@);
        match report.error {
            Some(error) => {
                self.video_notice = Some(error);
                let status = self.update_status();
                add_effects(&mut effects, status);
            },
            None => {},
        }
        let ghost failed = app_effects(effects@);
        let ghost a = self@;
        if !self.warned_no_decode && self.video_notice.is_none() && self.video_decoded == 0
            && self.video_in >= SILENT_UNITS {
            self.warned_no_decode = true;
            self.video_notice = Some(
                owned(
                    "Video is arriving but no picture has decoded yet. Waiting for a complete keyframe...",
                ),
            );
            let status = self.update_status();
            add_effects(&mut effects, status);
        }
        if report.frame && self.source.is_some() {
            add_effect(&mut effects, AppEffect::UploadFrame);
        }
        proof {
            let expected = old(self)@.decoder_polled(
                report.received,
                report.request_keyframe,
                optional_text(report.error),
                report.frame,
            );
            assert(self@ == expected.0);
            assert(app_effects(effects@) =~= expected.1);
        }
        effects
    }

    /// Every proxy has to be drawn again.
    fn mark_dirty(&mut self)
        ensures
            final(self)@ == (AppNote { proxies: all_dirty(old(self)@.proxies), ..old(self)@ }),
    {
        let ghost before = self.proxies@;
        let mut i: usize = 0;
        while i < self.proxies.len()
            invariant
                i <= self.proxies@.len(),
                self.proxies@.len() == before.len(),
                before == old(self).proxies@,
                *self == (App { proxies: self.proxies, ..*old(self) }),
                forall|k: int| i <= k < before.len() ==> #[trigger] self.proxies@[k] == before[k],
                forall|k: int|
                    0 <= k < i ==> {
                        &&& (#[trigger] self.proxies@[k]).0 == before[k].0
                        &&& self.proxies@[k].1@ == (ProxyNote { dirty: true, ..before[k].1@ })
                    },
            decreases self.proxies@.len() - i,
        {
            self.proxies[i].1.dirty = true;
            i += 1;
        }
        proof {
            assert(proxy_notes(self.proxies@) =~= all_dirty(proxy_notes(before)));
        }
    }

    /// The decoded picture was put into the texture, or could not be.
    pub fn frame_uploaded(&mut self, error: Option<&str>) -> (effects: Vec<AppEffect>)
        requires
            old(self)@.video_decoded < u64::MAX,
        ensures
            (final(self)@, app_effects(effects@)) == old(self)@.uploaded(
                match error {
                    Some(error) => Some(error@),
                    None => None,
                },
            ),
    {
        match error {
            Some(error) => {
                self.video_notice = Some(String::from_str("Cannot render video: ").concat(error));
                self.update_status()
            },
            None => {
                let mut effects = only(AppEffect::RefreshPreviews);
                self.mark_dirty();
                self.video_decoded = self.video_decoded + 1;
                let recovered = self.video_notice.is_some();
                self.video_notice = None;
                if self.video_decoded == 1 || recovered {
                    let status = self.update_status();
                    add_effects(&mut effects, status);
                }
                proof {
                    assert(app_effects(effects@) =~= old(self)@.uploaded(None).1);
                }
                effects
            },
        }
    }

    /// Where the next window appears, in both directions: shifted a little, so that
    /// windows do not stack exactly.
    pub fn spawn_point(&mut self) -> (at: i32)
        requires
            old(self)@.cascade < u32::MAX,
        ensures
            at == old(self)@.next_spawn(),
            final(self)@ == (AppNote { cascade: (old(self)@.cascade + 1) as u32, ..old(self)@ }),
    {
        let at: i32 = SPAWN_EDGE + (self.cascade % SPAWN_PLACES) as i32 * SPAWN_SHIFT;
        self.cascade = self.cascade + 1;
        at
    }

    /// How to make the native window of a shared window, on a work area. A source that
    /// is too large is fitted, and only a normal window gets a frame, which `inset` is
    /// the size of.
    pub fn plan_proxy(&self, id: u64, spawn: i32, work: Bounds, inset: (i32, i32)) -> (plan: Option<
        ProxyPlan,
    >)
        requires
            countable(work),
            self@.proxy_plan(id, spawn, work, inset) matches Some(plan) ==> (plan.framed ==> {
                &&& i32::MIN <= plan.size.w + inset.0 <= i32::MAX
                &&& i32::MIN <= plan.size.h + inset.1 <= i32::MAX
            }),
        ensures
            match plan {
                Some(plan) => Some(plan@),
                None => None,
            } == self@.proxy_plan(id, spawn, work, inset),
    {
        proof {
            lemma_windows(self.windows@, id);
        }
        let i: usize = find_slot(&self.windows, id);
        if i >= self.windows.len() {
            return None;
        }
        let window = &self.windows[i].1;
        let source = window.source;
        let wanted = Size { w: source.w, h: source.h };
        let area = Size {
            w: at_least_a_pixel(work.right - work.left),
            h: at_least_a_pixel(work.bottom - work.top),
        };
        let size = initial_proxy_size(wanted, area);
        proof {
            law_initial_size_stays_within_work_area(wanted, area);
        }
        let at: usize = find_slot(&self.resize_limits, id);
        let limit = if at < self.resize_limits.len() {
            Some(self.resize_limits[at].1)
        } else {
            None
        };
        let framed = has_frame(window.kind);
        let outer = if framed {
            outer_size(size.w, size.h, inset)
        } else {
            (size.w as i32, size.h as i32)
        };
        Some(
            ProxyPlan {
                source,
                title: show_title(window.title.as_str()),
                x: place(spawn, work.left, work.right, size.w),
                y: place(spawn, work.top, work.bottom, size.h),
                outer,
                size,
                clamped: size.w != source.w || size.h != source.h,
                limit,
                framed,
            },
        )
    }

    /// The native window of a plan was made.
    pub fn proxy_opened(&mut self, id: u64, plan: &ProxyPlan, facts: WindowFacts, now: u64) -> (effects:
        Vec<AppEffect>)
        ensures
            (final(self)@, app_effects(effects@)) == old(self)@.proxy_made(
                id,
                plan.source,
                plan.size,
                plan.clamped,
                facts,
                now,
            ),
    {
        let actual = corner_size(facts.client, 1);
        let mut proxy = Proxy::new(plan.source, self.cfg.checkerboard);
        let step = proxy.resize_swapchain(actual.w, actual.h, facts.ready);
        let mut effects = nothing();
        add_step(&mut effects, id, step, actual);
        proof {
            lemma_seen(self.proxies@, |p: Proxy| p@, id, proxy);
        }
        set_value(&mut self.proxies, id, proxy);
        add_effect(&mut effects, AppEffect::Reveal { id });
        let ghost made = app_effects(effects@);
        if plan.clamped {
            let asked = self.commit_resize(id, plan.size, now);
            add_effects(&mut effects, asked);
        }
        self.show(&mut effects);
        proof {
            let expected = old(self)@.proxy_made(
                id,
                plan.source,
                plan.size,
                plan.clamped,
                facts,
                now,
            );
            assert(app_effects(effects@) =~= expected.1);
        }
        effects
    }

    /// The swapchain of a proxy has a new size.
    pub fn swapchain_resized(&mut self, id: u64, size: Size)
        ensures
            final(self)@ == match value_of(old(self)@.proxies, id) {
                Some(p) => old(self)@.changed(
                    id,
                    ProxyNote { width: size.w, height: size.h, ..p },
                ),
                None => old(self)@,
            },
    {
        proof {
            lemma_proxies(self.proxies@, id);
        }
        let i: usize = find_slot(&self.proxies, id);
        if i < self.proxies.len() {
            self.proxies[i].1.resized(size.w, size.h);
            proof {
                lemma_proxy_changed(old(self).proxies@, self.proxies@, id, i as int);
            }
        }
    }

    /// A frame of a proxy was handed to the compositor.
    pub fn frame_presented(&mut self, id: u64, taken: bool)
        ensures
            final(self)@ == match value_of(old(self)@.proxies, id) {
                Some(p) => old(self)@.changed(id, ProxyNote { dirty: !taken, ..p }),
                None => old(self)@,
            },
    {
        proof {
            lemma_proxies(self.proxies@, id);
        }
        let i: usize = find_slot(&self.proxies, id);
        if i < self.proxies.len() {
            self.proxies[i].1.presented(taken);
            proof {
                lemma_proxy_changed(old(self).proxies@, self.proxies@, id, i as int);
            }
        }
    }

    /// How to draw a proxy from a texture of a size, if there is one; nothing where
    /// there is no such proxy, or nothing new to draw.
    pub fn frame_plan(&self, id: u64, texture: Option<Size>) -> (plan: Option<RenderPlan>)
        ensures
            plan == match value_of(self@.proxies, id) {
                Some(p) => if p.dirty {
                    Some(p.plan(texture, false))
                } else {
                    None
                },
                None => None,
            },
    {
        proof {
            lemma_proxies(self.proxies@, id);
        }
        let i: usize = find_slot(&self.proxies, id);
        if i < self.proxies.len() && self.proxies[i].1.dirty {
            Some(self.proxies[i].1.render(texture, false))
        } else {
            None
        }
    }

    /// Give up waiting where an answer is overdue, and draw every proxy.
    pub fn render_all(&mut self, now: u64) -> (effects: Vec<AppEffect>)
        ensures
            (final(self)@, app_effects(effects@)) == old(self)@.rendered(now),
    {
        let ghost before = self.proxies@;
        let ghost notes = proxy_notes(before);
        let mut effects = nothing();
        let mut i: usize = 0;
        proof {
            assert(notes.take(0) =~= Seq::<(u64, ProxyNote)>::empty());
        }
        while i < self.proxies.len()
            invariant
                i <= self.proxies@.len(),
                self.proxies@.len() == before.len(),
                before == old(self).proxies@,
                notes == proxy_notes(before),
                *self == (App { proxies: self.proxies, ..*old(self) }),
                forall|k: int| i <= k < before.len() ==> #[trigger] self.proxies@[k] == before[k],
                forall|k: int|
                    0 <= k < i ==> {
                        &&& (#[trigger] self.proxies@[k]).0 == before[k].0
                        &&& self.proxies@[k].1@ == settled(before[k].1@, now)
                    },
                app_effects(effects@) == late_snaps(notes.take(i as int), now),
            decreases self.proxies@.len() - i,
        {
            proof {
                assert(notes.take(i + 1).drop_last() =~= notes.take(i as int));
                assert(notes.take(i + 1).last() == notes[i as int]);
            }
            let overdue = self.proxies[i].1.resize_sync.expired(now);
            let id: u64 = self.proxies[i].0;
            let p = &self.proxies[i].1;
            if overdue && (p.width != p.source.w || p.height != p.source.h) && !p.in_size_move {
                let size = Size { w: p.source.w, h: p.source.h };
                add_effect(&mut effects, AppEffect::Snap { id, size });
            }
            i += 1;
        }
        proof {
            assert(notes.take(i as int) =~= notes);
            assert(proxy_notes(self.proxies@) =~= all_settled(notes, now));
        }
        let ghost snaps = app_effects(effects@);
        let mut k: usize = 0;
        proof {
            assert(snaps + renders(notes.take(0)) =~= snaps);
        }
        while k < self.proxies.len()
            invariant
                k <= self.proxies@.len(),
                self.proxies@.len() == notes.len(),
                forall|j: int| 0 <= j < notes.len() ==> (#[trigger] self.proxies@[j]).0 == notes[j].0,
                app_effects(effects@) == snaps + renders(notes.take(k as int)),
            decreases self.proxies@.len() - k,
        {
            add_effect(&mut effects, AppEffect::Render { id: self.proxies[k].0 });
            proof {
                assert(app_effects(effects@) =~= snaps + renders(notes.take(k + 1)));
            }
            k += 1;
        }
        proof {
            assert(notes.take(k as int) =~= notes);
        }
        effects
    }

    fn send(&self, message: ClientMessage) -> (effects: Vec<AppEffect>)
        ensures
            app_effects(effects@) == self@.sent(message),
    {
        if self.session {
            only(AppEffect::Send(message))
        } else {
            nothing()
        }
    }

    fn send_input(&self, id: u64, event: Option<InputEvent>, now: u64) -> (effects: Vec<AppEffect>)
        ensures
            app_effects(effects@) == self@.forwarded(id, event, now),
    {
        match event {
            Some(event) => self.send(
                ClientMessage::Input { id, event, ts: now / NANOSECONDS_PER_MILLISECOND },
            ),
            None => nothing(),
        }
    }

    /// Send the latest hover move of each window.
    pub fn flush_mouse_moves(&mut self, now: u64) -> (effects: Vec<AppEffect>)
        ensures
            final(self)@ == (AppNote { pending_mouse_moves: Seq::empty(), ..old(self)@ }),
            app_effects(effects@) == if old(self)@.session {
                move_messages(old(self)@.pending_mouse_moves, now)
            } else {
                Seq::empty()
            },
    {
        let mut moves: Vec<(u64, InputEvent)> = Vec::new();
        moves.append(&mut self.pending_mouse_moves);
        let mut effects = nothing();
        if self.session {
            let mut i: usize = 0;
            while i < moves.len()
                invariant
                    i <= moves@.len(),
                    app_effects(effects@) == move_messages(moves@.take(i as int), now),
                decreases moves@.len() - i,
            {
                let (id, event) = moves[i];
                let message = ClientMessage::Input {
                    id,
                    event,
                    ts: now / NANOSECONDS_PER_MILLISECOND,
                };
                add_effect(&mut effects, AppEffect::Send(message));
                proof {
                    assert(app_effects(effects@) =~= move_messages(moves@.take(i + 1), now));
                }
                i += 1;
            }
            proof {
                assert(moves@.take(i as int) =~= old(self)@.pending_mouse_moves);
            }
        }
        effects
    }

    fn size_changed(&mut self, id: u64, size: Size, ready: bool, now: u64) -> (effects: Vec<AppEffect>)
        ensures
            (final(self)@, app_effects(effects@)) == old(self)@.sized(id, size, ready, now),
    {
        proof {
            lemma_proxies(self.proxies@, id);
        }
        let i: usize = find_slot(&self.proxies, id);
        if i >= self.proxies.len() {
            return nothing();
        }
        let step = self.proxies[i].1.resize_swapchain(size.w, size.h, ready);
        proof {
            lemma_proxy_changed(old(self).proxies@, self.proxies@, id, i as int);
        }
        let p = &self.proxies[i].1;
        let request = size.w > 0 && size.h > 0 && !p.in_size_move && (size.w != p.source.w || size.h
            != p.source.h);
        let mut effects = nothing();
        add_step(&mut effects, id, step, size);
        add_effect(&mut effects, AppEffect::Render { id });
        let ghost drawn = app_effects(effects@);
        if request {
            let asked = self.commit_resize(id, size, now);
            add_effects(&mut effects, asked);
        }
        proof {
            let expected = old(self)@.sized(id, size, ready, now);
            assert(self@ == expected.0);
            assert(app_effects(effects@) =~= expected.1);
        }
        effects
    }

    fn begin_drag(&mut self, id: u64)
        ensures
            final(self)@ == old(self)@.drag_begun(id),
    {
        drop_key(&mut self.pending_mouse_moves, id);
        proof {
            lemma_proxies(self.proxies@, id);
        }
        let i: usize = find_slot(&self.proxies, id);
        if i < self.proxies.len() {
            self.proxies[i].1.begin_size_move();
            proof {
                lemma_proxy_changed(old(self).proxies@, self.proxies@, id, i as int);
            }
        }
    }

    fn drag(&mut self, id: u64, size: Size, now: u64) -> (effects: Vec<AppEffect>)
        ensures
            (final(self)@, app_effects(effects@)) == old(self)@.dragged(id, size, now),
    {
        proof {
            lemma_proxies(self.proxies@, id);
        }
        let i: usize = find_slot(&self.proxies, id);
        if i >= self.proxies.len() {
            return nothing();
        }
        let begin = !self.proxies[i].1.resizing;
        self.proxies[i].1.resizing = true;
        let live = self.proxies[i].1.should_send_live(now);
        proof {
            lemma_proxy_changed(old(self).proxies@, self.proxies@, id, i as int);
        }
        let mut effects = nothing();
        if begin {
            let more = self.send(
                ClientMessage::RequestResize { id, size, phase: ResizePhase::Begin },
            );
            add_effects(&mut effects, more);
        }
        if live {
            let more = self.send(
                ClientMessage::RequestResize { id, size, phase: ResizePhase::Live },
            );
            add_effects(&mut effects, more);
        }
        proof {
            let expected = old(self)@.dragged(id, size, now);
            assert(self@ == expected.0);
            assert(app_effects(effects@) =~= expected.1);
        }
        effects
    }

    fn end_drag(&mut self, id: u64, size: Size, now: u64) -> (effects: Vec<AppEffect>)
        ensures
            (final(self)@, app_effects(effects@)) == old(self)@.drag_ended(id, size, now),
    {
        proof {
            lemma_proxies(self.proxies@, id);
        }
        let i: usize = find_slot(&self.proxies, id);
        if i >= self.proxies.len() {
            return nothing();
        }
        let resized = self.proxies[i].1.resizing;
        self.proxies[i].1.end_size_move();
        proof {
            lemma_proxy_changed(old(self).proxies@, self.proxies@, id, i as int);
        }
        if resized {
            self.commit_resize(id, size, now)
        } else {
            nothing()
        }
    }

    fn paint(&mut self, id: u64) -> (effects: Vec<AppEffect>)
        ensures
            (final(self)@, app_effects(effects@)) == old(self)@.painted(id),
    {
        proof {
            lemma_proxies(self.proxies@, id);
        }
        let i: usize = find_slot(&self.proxies, id);
        let mut effects = nothing();
        if i < self.proxies.len() {
            self.proxies[i].1.dirty = true;
            proof {
                lemma_proxy_changed(old(self).proxies@, self.proxies@, id, i as int);
            }
            add_effect(&mut effects, AppEffect::Render { id });
        }
        add_effect(&mut effects, AppEffect::Validate { id });
        proof {
            assert(app_effects(effects@) =~= old(self)@.painted(id).1);
        }
        effects
    }

    fn in_size_move(&self, id: u64) -> (dragging: bool)
        ensures
            dragging == self@.dragging(id),
    {
        proof {
            lemma_proxies(self.proxies@, id);
        }
        let i: usize = find_slot(&self.proxies, id);
        i < self.proxies.len() && self.proxies[i].1.in_size_move
    }

    fn move_pointer(&mut self, id: u64, event: &NativeEvent, pointer: (i32, i32))
        requires
            event.msg == WM_MOUSEMOVE,
        ensures
            final(self)@ == ({
                let input = message_event(event.msg, event.wparam, event.lparam, pointer);
                if old(self)@.dragging(id) || input is None {
                    old(self)@
                } else {
                    AppNote {
                        pending_mouse_moves: with_value(
                            old(self)@.pending_mouse_moves,
                            id,
                            input->0,
                        ),
                        ..old(self)@
                    }
                }
            }),
    {
        if !self.in_size_move(id) {
            match event_for_message(event.msg, event.wparam, event.lparam, pointer) {
                Some(input) => {
                    set_value(&mut self.pending_mouse_moves, id, input);
                },
                None => {},
            }
        }
    }

    /// Handle one message of a proxy window. `Some` is the answer to a message that is
    /// dealt with; the system deals with the others.
    pub fn handle_message(&mut self, id: u64, event: &NativeEvent, facts: WindowFacts, now: u64) -> (result:
        (Vec<AppEffect>, Option<isize>))
        requires
            well_formed(*event, facts),
        ensures
            (final(self)@, app_effects(result.0@)) == old(self)@.message_done(
                id,
                *event,
                facts,
                now,
            ),
            result.1 == message_answer(*event),
    {
        let msg: u32 = event.msg;
        if msg == WM_SIZE {
            (self.size_changed(id, corner_size(facts.client, 0), facts.ready, now), Some(0))
        } else if msg == WM_ENTERSIZEMOVE {
            self.begin_drag(id);
            (nothing(), Some(0))
        } else if msg == WM_SIZING {
            match event.rect {
                Some(r) => {
                    let size = client_size(
                        at_least_a_pixel(r.right - r.left),
                        at_least_a_pixel(r.bottom - r.top),
                        facts.inset,
                    );
                    (self.drag(id, size, now), Some(1))
                },
                None => (nothing(), Some(1)),
            }
        } else if msg == WM_EXITSIZEMOVE {
            (self.end_drag(id, corner_size(facts.client, 1), now), Some(0))
        } else if msg == WM_DPICHANGED {
            match event.rect {
                Some(bounds) => (only(AppEffect::MoveTo { id, bounds }), Some(0)),
                None => (nothing(), Some(0)),
            }
        } else if msg == WM_PAINT {
            (self.paint(id), Some(0))
        } else if msg == WM_ACTIVATE && event.wparam % 0x1_0000 != 0 {
            // Becoming active: the host raises the Mac window, so that focus and keys
            // line up.
            (self.send(ClientMessage::RequestFocus { id }), Some(0))
        } else if msg == WM_MOUSEMOVE {
            self.move_pointer(id, event, facts.pointer);
            (nothing(), None)
        } else if points_at_button(msg) {
            if self.in_size_move(id) {
                return (nothing(), None);
            }
            // The event carries its own position, so an older hover is forgotten.
            drop_key(&mut self.pending_mouse_moves, id);
            let input = event_for_message(msg, event.wparam, event.lparam, facts.pointer);
            (self.send_input(id, input, now), None)
        } else if msg == WM_KEYDOWN || msg == WM_KEYUP || msg == WM_SYSKEYDOWN || msg
            == WM_SYSKEYUP {
            let input = event_for_message(msg, event.wparam, event.lparam, facts.pointer);
            (self.send_input(id, input, now), None)
        } else if msg == WM_CLOSE {
            // The local view closes, never the remote document.
            drop_key(&mut self.pending_mouse_moves, id);
            let mut effects = only(AppEffect::HideProxy { id });
            add_effect(&mut effects, AppEffect::RefreshGallery);
            proof {
                assert(app_effects(effects@) =~= seq![
                    AppEffectNote::HideProxy { id },
                    AppEffectNote::RefreshGallery,
                ]);
            }
            (effects, Some(0))
        } else if msg == WM_DESTROY {
            proof {
                lemma_proxies(self.proxies@, id);
            }
            drop_key(&mut self.proxies, id);
            (nothing(), Some(0))
        } else {
            (nothing(), None)
        }
    }
}

} // verus!
