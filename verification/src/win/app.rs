//! The application: what it knows of the session, the shared windows and their
//! proxies, and what it does when something happens. Sessions, windows, textures and
//! decoders belong to the caller, who tells of events and performs the effects that
//! come back, in order.
//!
//! Times are nanoseconds on the client's monotonic clock.

use vstd::prelude::*;

use crate::connections::manual_note;
use crate::connections::Connection;
use crate::connections::ConnectionNote;
use crate::keyed::drop_key;
use crate::keyed::find_slot;
use crate::keyed::has_key;
use crate::keyed::lemma_seen;
use crate::keyed::seen;
use crate::keyed::set_value;
use crate::keyed::slot;
use crate::keyed::value_of;
use crate::keyed::with_value;
use crate::keyed::without_key;
use crate::model::EventNote;
use crate::model::ModelEvent;
use crate::model::Window;
use crate::model::WindowNote;
use crate::options::optional_text;
use crate::text::decimal;
use crate::text::owned;
use crate::text::trim;
use crate::text::trimmed;
use crate::text::unsigned_to_text;
use crate::wire::control::ClientMessage;
use crate::wire::control::Rect;
use crate::wire::control::Size;
use crate::wire::input::InputEvent;
use crate::wire::DEFAULT_CONTROL_PORT;
use crate::wire::DEFAULT_VIDEO_PORT;
use crate::win::chrome::Bounds;
use crate::win::dashboard::Action;
use crate::win::dashboard::ActionNote;
use crate::win::proxy::Proxy;
use crate::win::proxy::ProxyNote;

verus! {

/// The pause before the next attempt after the connection dropped.
pub const RECONNECT_DELAY: u64 = 2_000_000_000;

/// How many session events are handled in one turn.
pub const TURN_SESSION_EVENTS: usize = 64;

/// How many access units may come without a picture before that is said.
pub const SILENT_UNITS: u64 = 120;

/// Where to connect to from the start.
#[derive(Debug)]
pub struct AppConfig {
    pub host: String,
    pub control_port: u16,
    pub video_port: Option<u16>,
    pub checkerboard: bool,
}

/// What an [`AppConfig`] holds.
pub struct ConfigNote {
    pub host: Seq<char>,
    pub control_port: u16,
    pub video_port: Option<u16>,
    pub checkerboard: bool,
}

impl AppConfig {
    pub open spec fn view(&self) -> ConfigNote {
        ConfigNote {
            host: self.host@,
            control_port: self.control_port,
            video_port: self.video_port,
            checkerboard: self.checkerboard,
        }
    }
}

/// What the caller has to do.
#[derive(Debug)]
pub enum AppEffect {
    /// Open a session, away from this thread.
    Connect(Connection),
    /// Close the session and drop what belongs to it.
    CloseSession,
    Send(ClientMessage),
    /// Ask for a size, under a number that the acknowledgement repeats.
    CommitResize { id: u64, size: Size, request: u64 },
    RequestKeyframe,
    /// Show the state of the connection on the dashboard.
    Status { text: String, active: bool },
    SetConnected(bool),
    Remember(Connection),
    /// Show the shared windows on the dashboard.
    RefreshGallery,
    ShowDashboard,
    /// Make the native window of a shared window.
    OpenProxy { id: u64 },
    /// Destroy a native window and forget its messages.
    DestroyProxy { id: u64 },
    /// Show a native window, above the others.
    ShowProxy { id: u64 },
    HideProxy { id: u64 },
    /// Show a native window for the first time.
    Reveal { id: u64 },
    SetTitle { id: u64, text: String },
    SetLimit { id: u64, limit: Size },
    /// Give a native window's client area a size, unless it fills the screen.
    Snap { id: u64, size: Size },
    /// Make the texture of the whole display.
    CreateTexture { size: Size },
    ResizeSwapchain { id: u64, size: Size },
    ReportSize { id: u64 },
    /// Draw a native window, if it is on the screen.
    Render { id: u64 },
    /// A native window counts as painted.
    Validate { id: u64 },
    /// Put a native window where the system suggests.
    MoveTo { id: u64, bounds: Bounds },
    /// Put the decoded frame into the texture.
    UploadFrame,
    /// Refresh the dashboard's thumbnails, if that is due.
    RefreshPreviews,
}

/// What an [`AppEffect`] says.
pub enum AppEffectNote {
    Connect(ConnectionNote),
    CloseSession,
    Send(ClientMessage),
    CommitResize { id: u64, size: Size, request: u64 },
    RequestKeyframe,
    Status { text: Seq<char>, active: bool },
    SetConnected(bool),
    Remember(ConnectionNote),
    RefreshGallery,
    ShowDashboard,
    OpenProxy { id: u64 },
    DestroyProxy { id: u64 },
    ShowProxy { id: u64 },
    HideProxy { id: u64 },
    Reveal { id: u64 },
    SetTitle { id: u64, text: Seq<char> },
    SetLimit { id: u64, limit: Size },
    Snap { id: u64, size: Size },
    CreateTexture { size: Size },
    ResizeSwapchain { id: u64, size: Size },
    ReportSize { id: u64 },
    Render { id: u64 },
    Validate { id: u64 },
    MoveTo { id: u64, bounds: Bounds },
    UploadFrame,
    RefreshPreviews,
}

impl AppEffect {
    pub open spec fn view(&self) -> AppEffectNote {
        match self {
            AppEffect::Connect(c) => AppEffectNote::Connect(c@),
            AppEffect::CloseSession => AppEffectNote::CloseSession,
            AppEffect::Send(m) => AppEffectNote::Send(*m),
            AppEffect::CommitResize { id, size, request } => AppEffectNote::CommitResize {
                id: *id,
                size: *size,
                request: *request,
            },
            AppEffect::RequestKeyframe => AppEffectNote::RequestKeyframe,
            AppEffect::Status { text, active } => AppEffectNote::Status {
                text: text@,
                active: *active,
            },
            AppEffect::SetConnected(on) => AppEffectNote::SetConnected(*on),
            AppEffect::Remember(c) => AppEffectNote::Remember(c@),
            AppEffect::RefreshGallery => AppEffectNote::RefreshGallery,
            AppEffect::ShowDashboard => AppEffectNote::ShowDashboard,
            AppEffect::OpenProxy { id } => AppEffectNote::OpenProxy { id: *id },
            AppEffect::DestroyProxy { id } => AppEffectNote::DestroyProxy { id: *id },
            AppEffect::ShowProxy { id } => AppEffectNote::ShowProxy { id: *id },
            AppEffect::HideProxy { id } => AppEffectNote::HideProxy { id: *id },
            AppEffect::Reveal { id } => AppEffectNote::Reveal { id: *id },
            AppEffect::SetTitle { id, text } => AppEffectNote::SetTitle { id: *id, text: text@ },
            AppEffect::SetLimit { id, limit } => AppEffectNote::SetLimit {
                id: *id,
                limit: *limit,
            },
            AppEffect::Snap { id, size } => AppEffectNote::Snap { id: *id, size: *size },
            AppEffect::CreateTexture { size } => AppEffectNote::CreateTexture { size: *size },
            AppEffect::ResizeSwapchain { id, size } => AppEffectNote::ResizeSwapchain {
                id: *id,
                size: *size,
            },
            AppEffect::ReportSize { id } => AppEffectNote::ReportSize { id: *id },
            AppEffect::Render { id } => AppEffectNote::Render { id: *id },
            AppEffect::Validate { id } => AppEffectNote::Validate { id: *id },
            AppEffect::MoveTo { id, bounds } => AppEffectNote::MoveTo {
                id: *id,
                bounds: *bounds,
            },
            AppEffect::UploadFrame => AppEffectNote::UploadFrame,
            AppEffect::RefreshPreviews => AppEffectNote::RefreshPreviews,
        }
    }
}

pub open spec fn app_effects(effects: Seq<AppEffect>) -> Seq<AppEffectNote> {
    Seq::new(effects.len(), |i: int| effects[i]@)
}

pub struct App {
    pub cfg: AppConfig,
    pub selected: Option<Connection>,
    pub connecting: bool,
    pub active: bool,
    pub notice: Option<String>,
    pub video_notice: Option<String>,
    /// Whether there is a session.
    pub session: bool,
    pub proxies: Vec<(u64, Proxy)>,
    pub windows: Vec<(u64, Window)>,
    pub resize_limits: Vec<(u64, Size)>,
    /// The size of the display's texture.
    pub source: Option<Size>,
    pub vds: Option<Size>,
    /// How many proxies have been made in this session.
    pub cascade: u32,
    /// The latest unsent hover move of each proxy: one for each turn keeps the
    /// newest position without flooding the control channel.
    pub pending_mouse_moves: Vec<(u64, InputEvent)>,
    pub reconnect_at: Option<u64>,
    /// Access units that came, and pictures that came of them.
    pub video_in: u64,
    pub video_decoded: u64,
    pub warned_no_decode: bool,
}

/// What an [`App`] holds.
pub struct AppNote {
    pub cfg: ConfigNote,
    pub selected: Option<ConnectionNote>,
    pub connecting: bool,
    pub active: bool,
    pub notice: Option<Seq<char>>,
    pub video_notice: Option<Seq<char>>,
    pub session: bool,
    pub proxies: Seq<(u64, ProxyNote)>,
    pub windows: Seq<(u64, WindowNote)>,
    pub resize_limits: Seq<(u64, Size)>,
    pub source: Option<Size>,
    pub vds: Option<Size>,
    pub cascade: u32,
    pub pending_mouse_moves: Seq<(u64, InputEvent)>,
    pub reconnect_at: Option<u64>,
    pub video_in: u64,
    pub video_decoded: u64,
    pub warned_no_decode: bool,
}

/// An application and what has to be done.
pub type AppStep = (AppNote, Seq<AppEffectNote>);

pub open spec fn proxy_notes(proxies: Seq<(u64, Proxy)>) -> Seq<(u64, ProxyNote)> {
    seen(proxies, |p: Proxy| p@)
}

pub open spec fn keyed_windows(windows: Seq<(u64, Window)>) -> Seq<(u64, WindowNote)> {
    seen(windows, |w: Window| w@)
}

pub open spec fn optional_connection(c: Option<Connection>) -> Option<ConnectionNote> {
    match c {
        Some(c) => Some(c@),
        None => None,
    }
}

impl App {
    pub open spec fn view(&self) -> AppNote {
        AppNote {
            cfg: self.cfg@,
            selected: optional_connection(self.selected),
            connecting: self.connecting,
            active: self.active,
            notice: optional_text(self.notice),
            video_notice: optional_text(self.video_notice),
            session: self.session,
            proxies: proxy_notes(self.proxies@),
            windows: keyed_windows(self.windows@),
            resize_limits: self.resize_limits@,
            source: self.source,
            vds: self.vds,
            cascade: self.cascade,
            pending_mouse_moves: self.pending_mouse_moves@,
            reconnect_at: self.reconnect_at,
            video_in: self.video_in,
            video_decoded: self.video_decoded,
            warned_no_decode: self.warned_no_decode,
        }
    }
}

// ---------------------------------------------------------------------------
// What happens
// ---------------------------------------------------------------------------

/// The title of a native window.
pub open spec fn native_title(title: Seq<char>) -> Seq<char> {
    if trimmed(title).len() == 0 {
        "Transom"@
    } else {
        title
    }
}

/// Why a channel closed, if that is known.
pub open spec fn suffix_text(reason: Option<Seq<char>>) -> Seq<char> {
    match reason {
        Some(reason) => ": "@ + reason,
        None => Seq::empty(),
    }
}

/// A time later, as late as can be counted.
pub open spec fn later(now: u64, pause: u64) -> u64 {
    if now + pause > u64::MAX {
        u64::MAX
    } else {
        (now + pause) as u64
    }
}

/// What one of the keyed windows changes to.
pub open spec fn with_source(windows: Seq<(u64, WindowNote)>, id: u64, source: Rect) -> Seq<
    (u64, WindowNote),
> {
    match value_of(windows, id) {
        Some(w) => with_value(windows, id, WindowNote { source, ..w }),
        None => windows,
    }
}

pub open spec fn with_title(windows: Seq<(u64, WindowNote)>, id: u64, title: Seq<char>) -> Seq<
    (u64, WindowNote),
> {
    match value_of(windows, id) {
        Some(w) => with_value(windows, id, WindowNote { title, ..w }),
        None => windows,
    }
}

/// A `DestroyProxy` for each of the proxies.
pub open spec fn destroyed(proxies: Seq<(u64, ProxyNote)>) -> Seq<AppEffectNote> {
    Seq::new(proxies.len(), |i: int| AppEffectNote::DestroyProxy { id: proxies[i].0 })
}

impl AppNote {
    /// A message to the host, if there is a session.
    pub open spec fn sent(self, message: ClientMessage) -> Seq<AppEffectNote> {
        if self.session {
            seq![AppEffectNote::Send(message)]
        } else {
            Seq::empty()
        }
    }

    /// What the dashboard says of an open session.
    pub open spec fn state_text(self) -> Seq<char> {
        match self.notice {
            Some(notice) => notice,
            None => match self.video_notice {
                Some(notice) => notice,
                None => if self.cfg.video_port is None {
                    "Control only · video is off"@
                } else if self.video_decoded > 0 {
                    "Streaming"@
                } else {
                    "Waiting for video…"@
                },
            },
        }
    }

    pub open spec fn status(self) -> Seq<AppEffectNote> {
        if self.selected is Some {
            seq![AppEffectNote::Status { text: self.state_text(), active: true }]
        } else {
            Seq::empty()
        }
    }

    /// The dashboard shows the windows and the state.
    pub open spec fn shown(self) -> Seq<AppEffectNote> {
        seq![AppEffectNote::RefreshGallery] + self.status()
    }

    /// Try to open a session with the selected Mac. A live host is not required for
    /// the window manager to be up.
    pub open spec fn connect_tried(self) -> AppStep {
        match self.selected {
            Some(c) => if self.active && !self.connecting {
                (
                    AppNote { connecting: true, ..self },
                    seq![
                        AppEffectNote::Status {
                            text: "Connecting to "@ + c.name + "…"@,
                            active: true,
                        },
                        AppEffectNote::Connect(c),
                    ],
                )
            } else {
                (self, Seq::empty())
            },
            None => (self, Seq::empty()),
        }
    }

    /// The session is gone, and everything that came of it.
    pub open spec fn cleared(self) -> AppStep {
        (
            AppNote {
                session: false,
                source: None,
                vds: None,
                video_in: 0,
                video_decoded: 0,
                warned_no_decode: false,
                notice: None,
                video_notice: None,
                proxies: Seq::empty(),
                windows: Seq::empty(),
                resize_limits: Seq::empty(),
                pending_mouse_moves: Seq::empty(),
                cascade: 0,
                ..self
            },
            seq![AppEffectNote::SetConnected(false), AppEffectNote::CloseSession] + destroyed(
                self.proxies,
            ) + seq![AppEffectNote::RefreshGallery],
        )
    }

    /// The user is done with this Mac.
    pub open spec fn disconnected(self) -> AppStep {
        (AppNote { active: false, connecting: false, reconnect_at: None, ..self }).cleared()
    }

    /// The user is done with this Mac and sees the dashboard.
    pub open spec fn back_to_dashboard(self) -> AppStep {
        let (a, effects) = self.disconnected();
        (
            a,
            effects + seq![
                AppEffectNote::Status {
                    text: "Disconnected. Your Mac apps are still open."@,
                    active: false,
                },
                AppEffectNote::ShowDashboard,
            ],
        )
    }

    /// The session broke: it is tried again after a pause.
    pub open spec fn dropped(self, now: u64) -> AppStep {
        let (a, effects) = self.cleared();
        (AppNote { reconnect_at: Some(later(now, RECONNECT_DELAY)), ..a }, effects)
    }

    /// The endpoint that is in use.
    pub open spec fn using(self, c: ConnectionNote) -> AppNote {
        AppNote {
            cfg: ConfigNote {
                host: c.host,
                control_port: c.control_port,
                video_port: c.video_port,
                ..self.cfg
            },
            selected: Some(c),
            ..self
        }
    }

    /// What the user asked for on the dashboard.
    pub open spec fn acted(self, action: ActionNote) -> AppStep {
        match action {
            ActionNote::Connect(c) => {
                let (idle, effects) = self.disconnected();
                let (a, more) = (AppNote { active: true, ..idle.using(c) }).connect_tried();
                (a, effects + more)
            },
            ActionNote::Disconnect => self.back_to_dashboard(),
            ActionNote::OpenWindow(id) => if has_key(self.proxies, id) {
                (self, seq![AppEffectNote::ShowProxy { id }] + self.shown())
            } else if has_key(self.windows, id) {
                (self, seq![AppEffectNote::OpenProxy { id }])
            } else {
                (self, self.shown())
            },
            ActionNote::HideWindow(id) => if has_key(self.proxies, id) {
                (self, seq![AppEffectNote::HideProxy { id }] + self.shown())
            } else {
                (self, self.shown())
            },
        }
    }

    /// A native window could not be made.
    pub open spec fn open_failed(self, error: Seq<char>) -> AppStep {
        let a = AppNote { notice: Some("Could not open window: "@ + error), ..self };
        (a, a.shown())
    }

    /// An attempt to connect ended.
    pub open spec fn connect_ended(
        self,
        result: Result<ConnectionNote, Seq<char>>,
        now: u64,
    ) -> AppStep {
        match result {
            Ok(c) => {
                let a = AppNote {
                    connecting: false,
                    session: true,
                    reconnect_at: None,
                    notice: None,
                    ..self.using(c)
                };
                (
                    a,
                    seq![AppEffectNote::SetConnected(true), AppEffectNote::Remember(c)]
                        + a.status(),
                )
            },
            Err(e) => (
                AppNote {
                    connecting: false,
                    reconnect_at: Some(later(now, RECONNECT_DELAY)),
                    ..self
                },
                seq![
                    AppEffectNote::Status {
                        text: "Could not connect: "@ + e + " Retrying…"@,
                        active: true,
                    },
                ],
            ),
        }
    }

    /// Whether a native window should take the size of its source.
    pub open spec fn snaps(p: ProxyNote) -> bool {
        (p.width != p.source.w || p.height != p.source.h) && !p.in_size_move
            && p.resize_sync.pending is None
    }

    /// The host reported the actual geometry of a window. Its native window follows,
    /// unless the user is dragging it or a request is under way.
    pub open spec fn source_moved(self, id: u64, source: Rect) -> AppStep {
        match value_of(self.proxies, id) {
            None => (self, Seq::empty()),
            Some(p) => {
                let moved = ProxyNote { source, dirty: p.dirty || p.source != source, ..p };
                (
                    AppNote { proxies: with_value(self.proxies, id, moved), ..self },
                    if Self::snaps(moved) {
                        seq![AppEffectNote::Snap { id, size: Size { w: source.w, h: source.h } }]
                    } else {
                        Seq::empty()
                    },
                )
            },
        }
    }

    /// A window is gone.
    pub open spec fn window_gone(self, id: u64) -> AppStep {
        (
            AppNote {
                windows: without_key(self.windows, id),
                pending_mouse_moves: without_key(self.pending_mouse_moves, id),
                proxies: without_key(self.proxies, id),
                ..self
            },
            if has_key(self.proxies, id) {
                seq![AppEffectNote::DestroyProxy { id }]
            } else {
                Seq::empty()
            },
        )
    }

    /// Several windows are gone.
    pub open spec fn windows_gone(self, ids: Seq<u64>) -> AppStep
        decreases ids.len(),
    {
        if ids.len() == 0 {
            (self, Seq::empty())
        } else {
            let (a, effects) = self.windows_gone(ids.drop_last());
            let (b, more) = a.window_gone(ids.last());
            (b, effects + more)
        }
    }

    /// What a model event changes, before the dashboard shows it.
    pub open spec fn model_changed(self, ev: EventNote) -> AppStep {
        match ev {
            EventNote::Connected { vds } => (
                AppNote { vds: Some(vds), ..self },
                if self.source == Some(vds) {
                    Seq::empty()
                } else {
                    seq![AppEffectNote::CreateTexture { size: vds }]
                },
            ),
            EventNote::WindowAdded(w) => (
                AppNote { windows: with_value(self.windows, w.id, w), ..self },
                Seq::empty(),
            ),
            EventNote::WindowRectChanged { id, source, size_changed } => (AppNote {
                windows: with_source(self.windows, id, source),
                ..self
            }).source_moved(id, source),
            EventNote::WindowTitleChanged { id, title } => (
                AppNote { windows: with_title(self.windows, id, title), ..self },
                if has_key(self.proxies, id) {
                    seq![AppEffectNote::SetTitle { id, text: native_title(title) }]
                } else {
                    Seq::empty()
                },
            ),
            EventNote::WindowFocused { id } => (self, Seq::empty()),
            EventNote::WindowRemoved { id } => self.window_gone(id),
            EventNote::Resynced { removed } => self.windows_gone(removed),
            EventNote::HostError { code, message } => (
                AppNote {
                    notice: Some("Host error "@ + decimal(code as nat) + ": "@ + message),
                    ..self
                },
                Seq::empty(),
            ),
        }
    }

    /// A model event came in.
    pub open spec fn modelled(self, ev: EventNote) -> AppStep {
        let (a, effects) = self.model_changed(ev);
        (a, effects + a.shown())
    }

    /// The host tells how large a window may get.
    pub open spec fn bounded(self, id: u64, limit: Size) -> AppStep {
        (
            AppNote { resize_limits: with_value(self.resize_limits, id, limit), ..self },
            if has_key(self.proxies, id) {
                seq![AppEffectNote::SetLimit { id, limit }]
            } else {
                Seq::empty()
            },
        )
    }

    /// The host acknowledged a request. Only the one that is waited for counts.
    pub open spec fn resize_acknowledged(self, id: u64, source: Rect, request: u64) -> AppStep {
        match value_of(self.proxies, id) {
            Some(p) => if p.resize_sync.completes(request) {
                let done = ProxyNote { resize_sync: p.resize_sync.begun(), ..p };
                let (a, effects) = (AppNote {
                    proxies: with_value(self.proxies, id, done),
                    windows: with_source(self.windows, id, source),
                    ..self
                }).source_moved(id, source);
                (a, effects + a.shown())
            } else {
                (self, self.shown())
            },
            None => (self, self.shown()),
        }
    }

    /// Ask the host for a size.
    pub open spec fn committed(self, id: u64, size: Size, now: u64) -> AppStep {
        match value_of(self.proxies, id) {
            None => (self, Seq::empty()),
            Some(p) => {
                let request = p.resize_sync.next_serial();
                (
                    AppNote {
                        proxies: with_value(
                            self.proxies,
                            id,
                            ProxyNote { resize_sync: p.resize_sync.committed(now), ..p },
                        ),
                        ..self
                    },
                    if self.session {
                        seq![AppEffectNote::CommitResize { id, size, request }]
                    } else {
                        Seq::empty()
                    },
                )
            },
        }
    }
}

// ---------------------------------------------------------------------------
// The application itself
// ---------------------------------------------------------------------------

pub(crate) fn add_effect(out: &mut Vec<AppEffect>, effect: AppEffect)
    ensures
        app_effects(final(out)@) == app_effects(old(out)@).push(effect@),
{
    out.push(effect);
    proof {
        assert(app_effects(out@) =~= app_effects(old(out)@).push(effect@));
    }
}

pub(crate) fn add_effects(out: &mut Vec<AppEffect>, more: Vec<AppEffect>)
    ensures
        app_effects(final(out)@) == app_effects(old(out)@) + app_effects(more@),
{
    let mut more = more;
    let ghost added = more@;
    out.append(&mut more);
    proof {
        assert(app_effects(out@) =~= app_effects(old(out)@) + app_effects(added));
    }
}

pub(crate) fn nothing() -> (effects: Vec<AppEffect>)
    ensures
        app_effects(effects@) == Seq::<AppEffectNote>::empty(),
{
    let effects: Vec<AppEffect> = Vec::new();
    proof {
        assert(app_effects(effects@) =~= Seq::<AppEffectNote>::empty());
    }
    effects
}

pub(crate) fn only(effect: AppEffect) -> (effects: Vec<AppEffect>)
    ensures
        app_effects(effects@) == seq![effect@],
{
    let mut effects = nothing();
    add_effect(&mut effects, effect);
    proof {
        assert(app_effects(effects@) =~= seq![effect@]);
    }
    effects
}

pub(crate) fn show_title(title: &str) -> (text: String)
    ensures
        text@ == native_title(title@),
{
    if trim(title).as_str().is_empty() {
        owned("Transom")
    } else {
        owned(title)
    }
}

/// Why a channel closed, if that is known.
pub fn suffix(reason: Option<String>) -> (text: String)
    ensures
        text@ == suffix_text(optional_text(reason)),
{
    match reason {
        Some(reason) => String::from_str(": ").concat(reason.as_str()),
        None => String::new(),
    }
}

fn add_pause(now: u64, pause: u64) -> (time: u64)
    ensures
        time == later(now, pause),
{
    if now > u64::MAX - pause {
        u64::MAX
    } else {
        now + pause
    }
}

pub(crate) fn port_words(port: Option<u16>) -> (text: String)
    ensures
        text@ == match port {
            Some(port) => decimal(port as nat),
            None => Seq::empty(),
        },
{
    match port {
        Some(port) => unsigned_to_text(port as u64),
        None => String::new(),
    }
}

/// The connection that the options name, where they name a sound one.
pub open spec fn named_connection(cfg: ConfigNote) -> Option<ConnectionNote> {
    match manual_note(
        cfg.host,
        decimal(cfg.control_port as nat),
        match cfg.video_port {
            Some(port) => decimal(port as nat),
            None => Seq::empty(),
        },
    ) {
        Ok(c) => Some(c),
        Err(e) => None,
    }
}

impl App {
    /// The application before anything has happened, with a Mac to connect to or
    /// without.
    pub fn new(cfg: Option<AppConfig>) -> (app: App)
        ensures
            app@ == ({
                let config = match cfg {
                    Some(cfg) => cfg@,
                    None => ConfigNote {
                        host: Seq::empty(),
                        control_port: DEFAULT_CONTROL_PORT,
                        video_port: Some(DEFAULT_VIDEO_PORT),
                        checkerboard: false,
                    },
                };
                AppNote {
                    cfg: config,
                    selected: if cfg is Some {
                        named_connection(config)
                    } else {
                        None
                    },
                    connecting: false,
                    active: cfg is Some,
                    notice: None,
                    video_notice: None,
                    session: false,
                    proxies: Seq::empty(),
                    windows: Seq::empty(),
                    resize_limits: Seq::empty(),
                    source: None,
                    vds: None,
                    cascade: 0,
                    pending_mouse_moves: Seq::empty(),
                    reconnect_at: None,
                    video_in: 0,
                    video_decoded: 0,
                    warned_no_decode: false,
                }
            }),
    {
        let active = cfg.is_some();
        let cfg = match cfg {
            Some(cfg) => cfg,
            None => AppConfig {
                host: String::new(),
                control_port: DEFAULT_CONTROL_PORT,
                video_port: Some(DEFAULT_VIDEO_PORT),
                checkerboard: false,
            },
        };
        let selected = if active {
            match Connection::manual(
                cfg.host.as_str(),
                unsigned_to_text(cfg.control_port as u64).as_str(),
                port_words(cfg.video_port).as_str(),
            ) {
                Ok(c) => Some(c),
                Err(e) => None,
            }
        } else {
            None
        };
        let app = App {
            cfg,
            selected,
            connecting: false,
            active,
            notice: None,
            video_notice: None,
            session: false,
            proxies: Vec::new(),
            windows: Vec::new(),
            resize_limits: Vec::new(),
            source: None,
            vds: None,
            cascade: 0,
            pending_mouse_moves: Vec::new(),
            reconnect_at: None,
            video_in: 0,
            video_decoded: 0,
            warned_no_decode: false,
        };
        proof {
            assert(app@.proxies =~= Seq::<(u64, ProxyNote)>::empty());
            assert(app@.windows =~= Seq::<(u64, WindowNote)>::empty());
        }
        app
    }

    fn status_words(&self) -> (text: String)
        ensures
            text@ == self@.state_text(),
    {
        match &self.notice {
            Some(notice) => notice.clone(),
            None => match &self.video_notice {
                Some(notice) => notice.clone(),
                None => if self.cfg.video_port.is_none() {
                    owned("Control only · video is off")
                } else if self.video_decoded > 0 {
                    owned("Streaming")
                } else {
                    owned("Waiting for video…")
                },
            },
        }
    }

    /// Show the state of the session, if a Mac is selected.
    pub fn update_status(&self) -> (effects: Vec<AppEffect>)
        ensures
            app_effects(effects@) == self@.status(),
    {
        if self.selected.is_some() {
            only(AppEffect::Status { text: self.status_words(), active: true })
        } else {
            nothing()
        }
    }

    pub(crate) fn show(&self, effects: &mut Vec<AppEffect>)
        ensures
            app_effects(final(effects)@) == app_effects(old(effects)@) + self@.shown(),
    {
        add_effect(effects, AppEffect::RefreshGallery);
        let status = self.update_status();
        add_effects(effects, status);
        proof {
            assert(app_effects(effects@) =~= app_effects(old(effects)@) + self@.shown());
        }
    }

    /// Try to open a session with the selected Mac.
    pub fn connect(&mut self) -> (effects: Vec<AppEffect>)
        ensures
            (final(self)@, app_effects(effects@)) == old(self)@.connect_tried(),
    {
        if !self.active || self.connecting {
            return nothing();
        }
        let connection = match &self.selected {
            Some(c) => c.clone(),
            None => {
                return nothing();
            },
        };
        let text = String::from_str("Connecting to ").concat(connection.name.as_str()).concat("…");
        self.connecting = true;
        let mut effects = only(AppEffect::Status { text, active: true });
        add_effect(&mut effects, AppEffect::Connect(connection));
        proof {
            assert(app_effects(effects@) =~= old(self)@.connect_tried().1);
        }
        effects
    }

    /// Drop everything that came of the session.
    pub fn clear_session(&mut self) -> (effects: Vec<AppEffect>)
        ensures
            (final(self)@, app_effects(effects@)) == old(self)@.cleared(),
    {
        let ghost proxies = self@.proxies;
        let mut effects = only(AppEffect::SetConnected(false));
        add_effect(&mut effects, AppEffect::CloseSession);
        let ghost start = app_effects(effects@);
        let mut i: usize = 0;
        proof {
            assert(start =~= seq![
                AppEffectNote::SetConnected(false),
                AppEffectNote::CloseSession,
            ]);
            assert(start + destroyed(proxies.take(0)) =~= start);
        }
        while i < self.proxies.len()
            invariant
                i <= self.proxies@.len(),
                *self == *old(self),
                proxies == self@.proxies,
                app_effects(effects@) == start + destroyed(proxies.take(i as int)),
            decreases self.proxies@.len() - i,
        {
            add_effect(&mut effects, AppEffect::DestroyProxy { id: self.proxies[i].0 });
            proof {
                assert(app_effects(effects@) =~= start + destroyed(proxies.take(i + 1)));
            }
            i += 1;
        }
        proof {
            assert(proxies.take(i as int) =~= proxies);
        }
        add_effect(&mut effects, AppEffect::RefreshGallery);
        self.session = false;
        self.source = None;
        self.vds = None;
        self.video_in = 0;
        self.video_decoded = 0;
        self.warned_no_decode = false;
        self.notice = None;
        self.video_notice = None;
        self.proxies = Vec::new();
        self.windows = Vec::new();
        self.resize_limits = Vec::new();
        self.pending_mouse_moves = Vec::new();
        self.cascade = 0;
        proof {
            assert(self@.proxies =~= Seq::<(u64, ProxyNote)>::empty());
            assert(self@.windows =~= Seq::<(u64, WindowNote)>::empty());
            assert(app_effects(effects@) =~= old(self)@.cleared().1);
        }
        effects
    }

    /// End the session and try no other.
    pub fn disconnect(&mut self) -> (effects: Vec<AppEffect>)
        ensures
            (final(self)@, app_effects(effects@)) == old(self)@.disconnected(),
    {
        self.active = false;
        self.connecting = false;
        self.reconnect_at = None;
        self.clear_session()
    }

    /// End the session and show the dashboard.
    pub fn disconnect_to_dashboard(&mut self) -> (effects: Vec<AppEffect>)
        ensures
            (final(self)@, app_effects(effects@)) == old(self)@.back_to_dashboard(),
    {
        let mut effects = self.disconnect();
        let ghost ended = app_effects(effects@);
        add_effect(
            &mut effects,
            AppEffect::Status {
                text: owned("Disconnected. Your Mac apps are still open."),
                active: false,
            },
        );
        add_effect(&mut effects, AppEffect::ShowDashboard);
        proof {
            assert(app_effects(effects@) =~= old(self)@.back_to_dashboard().1);
        }
        effects
    }

    /// The session broke: try again after a pause.
    pub fn drop_session(&mut self, now: u64) -> (effects: Vec<AppEffect>)
        ensures
            (final(self)@, app_effects(effects@)) == old(self)@.dropped(now),
    {
        let effects = self.clear_session();
        self.reconnect_at = Some(add_pause(now, RECONNECT_DELAY));
        effects
    }

    fn use_connection(&mut self, c: Connection)
        ensures
            final(self)@ == old(self)@.using(c@),
    {
        self.cfg.host = c.host.clone();
        self.cfg.control_port = c.control_port;
        self.cfg.video_port = c.video_port;
        self.selected = Some(c);
    }

    /// Do what the user asked for on the dashboard.
    pub fn poll_dashboard(&mut self, action: Action) -> (effects: Vec<AppEffect>)
        ensures
            (final(self)@, app_effects(effects@)) == old(self)@.acted(action@),
    {
        match action {
            Action::Connect(c) => {
                let mut effects = self.disconnect();
                self.use_connection(c);
                self.active = true;
                let more = self.connect();
                add_effects(&mut effects, more);
                effects
            },
            Action::Disconnect => self.disconnect_to_dashboard(),
            Action::OpenWindow(id) => {
                proof {
                    lemma_proxies(self.proxies@, id);
                    lemma_windows(self.windows@, id);
                }
                if find_slot(&self.proxies, id) < self.proxies.len() {
                    let mut effects = only(AppEffect::ShowProxy { id });
                    self.show(&mut effects);
                    effects
                } else if find_slot(&self.windows, id) < self.windows.len() {
                    only(AppEffect::OpenProxy { id })
                } else {
                    let mut effects = nothing();
                    self.show(&mut effects);
                    proof {
                        assert(app_effects(effects@) =~= self@.shown());
                    }
                    effects
                }
            },
            Action::HideWindow(id) => {
                proof {
                    lemma_proxies(self.proxies@, id);
                }
                if find_slot(&self.proxies, id) < self.proxies.len() {
                    let mut effects = only(AppEffect::HideProxy { id });
                    self.show(&mut effects);
                    effects
                } else {
                    let mut effects = nothing();
                    self.show(&mut effects);
                    proof {
                        assert(app_effects(effects@) =~= self@.shown());
                    }
                    effects
                }
            },
        }
    }

    /// A native window could not be made.
    pub fn proxy_failed(&mut self, error: &str) -> (effects: Vec<AppEffect>)
        ensures
            (final(self)@, app_effects(effects@)) == old(self)@.open_failed(error@),
    {
        self.notice = Some(String::from_str("Could not open window: ").concat(error));
        let mut effects = nothing();
        self.show(&mut effects);
        proof {
            assert(app_effects(effects@) =~= self@.shown());
        }
        effects
    }

    /// An attempt to connect ended.
    pub fn connect_finished(&mut self, result: Result<Connection, String>, now: u64) -> (effects:
        Vec<AppEffect>)
        ensures
            (final(self)@, app_effects(effects@)) == old(self)@.connect_ended(
                match result {
                    Ok(c) => Ok(c@),
                    Err(e) => Err(e@),
                },
                now,
            ),
    {
        self.connecting = false;
        match result {
            Ok(c) => {
                let ghost note = c@;
                let copy = c.clone();
                self.use_connection(c);
                self.session = true;
                self.reconnect_at = None;
                self.notice = None;
                let mut effects = only(AppEffect::SetConnected(true));
                add_effect(&mut effects, AppEffect::Remember(copy));
                let status = self.update_status();
                add_effects(&mut effects, status);
                proof {
                    assert(app_effects(effects@) =~= seq![
                        AppEffectNote::SetConnected(true),
                        AppEffectNote::Remember(note),
                    ] + self@.status());
                }
                effects
            },
            Err(e) => {
                self.reconnect_at = Some(add_pause(now, RECONNECT_DELAY));
                let text = String::from_str("Could not connect: ").concat(e.as_str()).concat(
                    " Retrying…",
                );
                only(AppEffect::Status { text, active: true })
            },
        }
    }

    /// The host reported the actual geometry of a window.
    pub fn update_source_rect(&mut self, id: u64, source: Rect) -> (effects: Vec<AppEffect>)
        ensures
            (final(self)@, app_effects(effects@)) == old(self)@.source_moved(id, source),
    {
        let ghost before = self@.proxies;
        proof {
            lemma_proxies(self.proxies@, id);
        }
        let i: usize = find_slot(&self.proxies, id);
        if i >= self.proxies.len() {
            return nothing();
        }
        let _size_changed = self.proxies[i].1.set_source(source);
        proof {
            lemma_proxy_changed(old(self).proxies@, self.proxies@, id, i as int);
        }
        let p = &self.proxies[i].1;
        if (p.width != source.w || p.height != source.h) && !p.in_size_move
            && !p.resize_sync.waiting() {
            only(AppEffect::Snap { id, size: Size { w: source.w, h: source.h } })
        } else {
            nothing()
        }
    }

    /// Give a shared window another source rect.
    fn move_window(&mut self, id: u64, source: Rect)
        ensures
            final(self)@ == (AppNote {
                windows: with_source(old(self)@.windows, id, source),
                ..old(self)@
            }),
    {
        proof {
            lemma_windows(self.windows@, id);
        }
        let i: usize = find_slot(&self.windows, id);
        if i < self.windows.len() {
            self.windows[i].1.source = source;
            proof {
                lemma_window_changed(old(self).windows@, self.windows@, id, i as int);
            }
        }
    }

    fn rename_window(&mut self, id: u64, title: &str)
        ensures
            final(self)@ == (AppNote {
                windows: with_title(old(self)@.windows, id, title@),
                ..old(self)@
            }),
    {
        proof {
            lemma_windows(self.windows@, id);
        }
        let i: usize = find_slot(&self.windows, id);
        if i < self.windows.len() {
            self.windows[i].1.title = owned(title);
            proof {
                lemma_window_changed(old(self).windows@, self.windows@, id, i as int);
            }
        }
    }

    fn forget_window(&mut self, id: u64, effects: &mut Vec<AppEffect>)
        ensures
            final(self)@ == old(self)@.window_gone(id).0,
            app_effects(final(effects)@) == app_effects(old(effects)@) + old(self)@.window_gone(
                id,
            ).1,
    {
        proof {
            lemma_windows(self.windows@, id);
            lemma_proxies(self.proxies@, id);
        }
        drop_key(&mut self.windows, id);
        drop_key(&mut self.pending_mouse_moves, id);
        if drop_key(&mut self.proxies, id) {
            add_effect(effects, AppEffect::DestroyProxy { id });
        }
        proof {
            assert(app_effects(effects@) =~= app_effects(old(effects)@) + old(self)@.window_gone(
                id,
            ).1);
        }
    }

    fn change_model(&mut self, ev: &ModelEvent) -> (effects: Vec<AppEffect>)
        ensures
            (final(self)@, app_effects(effects@)) == old(self)@.model_changed(ev@),
    {
        match ev {
            ModelEvent::Connected { vds } => {
                self.vds = Some(*vds);
                let fits = match self.source {
                    Some(size) => size == *vds,
                    None => false,
                };
                if fits {
                    nothing()
                } else {
                    only(AppEffect::CreateTexture { size: *vds })
                }
            },
            ModelEvent::WindowAdded(w) => {
                proof {
                    lemma_seen(self.windows@, |w: Window| w@, w.id, *w);
                }
                let copy = w.clone();
                proof {
                    lemma_seen(self.windows@, |w: Window| w@, w.id, copy);
                }
                set_value(&mut self.windows, w.id, copy);
                nothing()
            },
            ModelEvent::WindowRectChanged { id, source, size_changed } => {
                self.move_window(*id, *source);
                self.update_source_rect(*id, *source)
            },
            ModelEvent::WindowTitleChanged { id, title } => {
                self.rename_window(*id, title.as_str());
                proof {
                    lemma_proxies(self.proxies@, *id);
                }
                if find_slot(&self.proxies, *id) < self.proxies.len() {
                    only(AppEffect::SetTitle { id: *id, text: show_title(title.as_str()) })
                } else {
                    nothing()
                }
            },
            ModelEvent::WindowFocused { id } => nothing(),
            ModelEvent::WindowRemoved { id } => {
                let mut effects = nothing();
                self.forget_window(*id, &mut effects);
                proof {
                    assert(app_effects(effects@) =~= old(self)@.window_gone(*id).1);
                }
                effects
            },
            ModelEvent::Resynced { removed } => {
                let ghost start = self@;
                let mut effects = nothing();
                let mut i: usize = 0;
                proof {
                    assert(removed@.take(0) =~= Seq::<u64>::empty());
                }
                while i < removed.len()
                    invariant
                        i <= removed@.len(),
                        (self@, app_effects(effects@)) == start.windows_gone(
                            removed@.take(i as int),
                        ),
                    decreases removed@.len() - i,
                {
                    proof {
                        assert(removed@.take(i + 1).drop_last() =~= removed@.take(i as int));
                    }
                    self.forget_window(removed[i], &mut effects);
                    i += 1;
                }
                proof {
                    assert(removed@.take(i as int) =~= removed@);
                }
                effects
            },
            ModelEvent::HostError { code, message } => {
                self.notice = Some(
                    String::from_str("Host error ").concat(
                        unsigned_to_text(*code as u64).as_str(),
                    ).concat(": ").concat(message.as_str()),
                );
                nothing()
            },
        }
    }

    /// A model event came in.
    pub fn apply_model_event(&mut self, ev: &ModelEvent) -> (effects: Vec<AppEffect>)
        ensures
            (final(self)@, app_effects(effects@)) == old(self)@.modelled(ev@),
    {
        let mut effects = self.change_model(ev);
        self.show(&mut effects);
        effects
    }

    /// The host tells how large a window may get.
    pub fn resize_bounds(&mut self, id: u64, limit: Size) -> (effects: Vec<AppEffect>)
        ensures
            (final(self)@, app_effects(effects@)) == old(self)@.bounded(id, limit),
    {
        set_value(&mut self.resize_limits, id, limit);
        proof {
            lemma_proxies(self.proxies@, id);
        }
        if find_slot(&self.proxies, id) < self.proxies.len() {
            only(AppEffect::SetLimit { id, limit })
        } else {
            nothing()
        }
    }

    /// The host acknowledged a resize request.
    pub fn resize_completed(&mut self, id: u64, source: Rect, request: u64) -> (effects: Vec<
        AppEffect,
    >)
        ensures
            (final(self)@, app_effects(effects@)) == old(self)@.resize_acknowledged(
                id,
                source,
                request,
            ),
    {
        proof {
            lemma_proxies(self.proxies@, id);
        }
        let i: usize = find_slot(&self.proxies, id);
        let mut effects = nothing();
        if i < self.proxies.len() {
            if self.proxies[i].1.resize_sync.complete(request) {
                proof {
                    lemma_proxy_changed(old(self).proxies@, self.proxies@, id, i as int);
                }
                self.move_window(id, source);
                let more = self.update_source_rect(id, source);
                add_effects(&mut effects, more);
            } else {
                proof {
                    assert(proxy_notes(self.proxies@) =~= proxy_notes(old(self).proxies@));
                }
            }
        }
        let ghost so_far = app_effects(effects@);
        self.show(&mut effects);
        proof {
            assert(app_effects(effects@) =~= old(self)@.resize_acknowledged(
                id,
                source,
                request,
            ).1);
        }
        effects
    }

    /// Ask the host for a size.
    pub fn commit_resize(&mut self, id: u64, size: Size, now: u64) -> (effects: Vec<AppEffect>)
        ensures
            (final(self)@, app_effects(effects@)) == old(self)@.committed(id, size, now),
    {
        proof {
            lemma_proxies(self.proxies@, id);
        }
        let i: usize = find_slot(&self.proxies, id);
        if i >= self.proxies.len() {
            return nothing();
        }
        let request: u64 = self.proxies[i].1.resize_sync.commit(now);
        proof {
            lemma_proxy_changed(old(self).proxies@, self.proxies@, id, i as int);
        }
        if self.session {
            only(AppEffect::CommitResize { id, size, request })
        } else {
            nothing()
        }
    }

    /// The display's texture was made.
    pub fn texture_created(&mut self, size: Size)
        ensures
            final(self)@ == (AppNote { source: Some(size), ..old(self)@ }),
    {
        self.source = Some(size);
    }
}

pub(crate) proof fn lemma_proxies(proxies: Seq<(u64, Proxy)>, id: u64)
    ensures
        slot(proxy_notes(proxies), id) == slot(proxies, id),
        proxy_notes(proxies).len() == proxies.len(),
        0 <= slot(proxies, id) <= proxies.len(),
        has_key(proxies, id) ==> proxies[slot(proxies, id)].0 == id && value_of(
            proxy_notes(proxies),
            id,
        ) == Some(proxies[slot(proxies, id)].1@),
        proxy_notes(without_key(proxies, id)) == without_key(proxy_notes(proxies), id),
{
    let any = proxies[0].1;
    lemma_seen(proxies, |p: Proxy| p@, id, any);
}

pub(crate) proof fn lemma_windows(windows: Seq<(u64, Window)>, id: u64)
    ensures
        slot(keyed_windows(windows), id) == slot(windows, id),
        keyed_windows(windows).len() == windows.len(),
        0 <= slot(windows, id) <= windows.len(),
        has_key(windows, id) ==> windows[slot(windows, id)].0 == id && value_of(
            keyed_windows(windows),
            id,
        ) == Some(windows[slot(windows, id)].1@),
        keyed_windows(without_key(windows, id)) == without_key(keyed_windows(windows), id),
{
    let any = windows[0].1;
    lemma_seen(windows, |w: Window| w@, id, any);
}

/// One proxy changed in its place.
pub(crate) proof fn lemma_proxy_changed(
    before: Seq<(u64, Proxy)>,
    after: Seq<(u64, Proxy)>,
    id: u64,
    i: int,
)
    requires
        i == slot(before, id),
        i < before.len(),
        after.len() == before.len(),
        after[i].0 == before[i].0,
        forall|k: int| 0 <= k < before.len() && k != i ==> #[trigger] after[k] == before[k],
    ensures
        proxy_notes(after) == with_value(proxy_notes(before), id, after[i].1@),
        value_of(proxy_notes(after), id) == Some(after[i].1@),
{
    lemma_proxies(before, id);
    assert(proxy_notes(after) =~= with_value(proxy_notes(before), id, after[i].1@));
    crate::keyed::law_set_values_are_found(proxy_notes(before), id, after[i].1@, id);
}

/// One window changed in its place.
proof fn lemma_window_changed(
    before: Seq<(u64, Window)>,
    after: Seq<(u64, Window)>,
    id: u64,
    i: int,
)
    requires
        i == slot(before, id),
        i < before.len(),
        after.len() == before.len(),
        after[i].0 == before[i].0,
        forall|k: int| 0 <= k < before.len() && k != i ==> #[trigger] after[k] == before[k],
    ensures
        keyed_windows(after) == with_value(keyed_windows(before), id, after[i].1@),
{
    lemma_windows(before, id);
    assert(keyed_windows(after) =~= with_value(keyed_windows(before), id, after[i].1@));
}

} // verus!
