use transom_client::connections::Connection;
use transom_client::model::ModelEvent;
use transom_client::model::Window;
use transom_client::model::WindowModel;
use transom_client::win::app::App;
use transom_client::win::app::AppConfig;
use transom_client::win::app::AppEffect;
use transom_client::win::app::RECONNECT_DELAY;
use transom_client::win::args::parse;
use transom_client::win::args::startup;
use transom_client::win::chrome::Bounds;
use transom_client::win::dashboard::Action;
use transom_client::win::event_queue::Answer;
use transom_client::win::event_queue::EventQueue;
use transom_client::win::event_queue::NativeEvent;
use transom_client::win::input::is_disconnect_message;
use transom_client::win::messages::WM_ACTIVATE;
use transom_client::win::messages::WM_CLOSE;
use transom_client::win::messages::WM_DESTROY;
use transom_client::win::messages::WM_DPICHANGED;
use transom_client::win::messages::WM_ENTERSIZEMOVE;
use transom_client::win::messages::WM_EXITSIZEMOVE;
use transom_client::win::messages::WM_KEYDOWN;
use transom_client::win::messages::WM_LBUTTONDOWN;
use transom_client::win::messages::WM_MOUSEMOVE;
use transom_client::win::messages::WM_MOUSEWHEEL;
use transom_client::win::messages::WM_PAINT;
use transom_client::win::messages::WM_SIZE;
use transom_client::win::messages::WM_SIZING;
use transom_client::win::messages::WM_SYSKEYDOWN;
use transom_client::win::turn::SessionEvent;
use transom_client::win::turn::VideoReport;
use transom_client::win::turn::WindowFacts;
use transom_client::wire::control::has_frame;
use transom_client::wire::control::Rect;
use transom_client::wire::control::ServerMessage;
use transom_client::wire::control::Size;
use transom_client::wire::control::TileWindow;
use transom_client::wire::control::WindowKind;

const MILLISECOND: u64 = 1_000_000;

const FACTS: WindowFacts = WindowFacts {
    client: (800, 600),
    ready: true,
    inset: (16, 39),
    pointer: (11, 12),
};

fn rect(w: u32, h: u32) -> Rect {
    Rect { x: 0, y: 0, w, h }
}

fn window(id: u64, w: u32, h: u32) -> Window {
    Window {
        id,
        title: format!("w{id}"),
        kind: WindowKind::Normal,
        source: rect(w, h),
    }
}

fn work() -> Bounds {
    Bounds { left: 0, top: 0, right: 1920, bottom: 1040 }
}

fn config() -> AppConfig {
    AppConfig {
        host: "mac".into(),
        control_port: 7000,
        video_port: Some(7001),
        checkerboard: false,
    }
}

fn shown(effects: &[AppEffect]) -> Vec<String> {
    effects
        .iter()
        .map(|effect| match effect {
            AppEffect::Connect(c) => format!("connect {}", c.name),
            AppEffect::Remember(c) => format!("remember {}", c.name),
            AppEffect::Status { text, active } => format!("status {active}: {text}"),
            other => format!("{other:?}"),
        })
        .collect()
}

/// An application with a session and one open window of 800 by 600.
fn streaming() -> App {
    let mut app = App::new(Some(config()));
    app.connect();
    app.connect_finished(Ok(Connection::manual("mac", "7000", "7001").unwrap()), 0);
    app.session_event(SessionEvent::Control(ModelEvent::WindowAdded(window(1, 800, 600))), 0);
    let spawn = app.spawn_point();
    let plan = app.plan_proxy(1, spawn, work(), (16, 39)).unwrap();
    app.proxy_opened(1, &plan, FACTS, 0);
    app
}

fn event(msg: u32, wparam: usize, lparam: isize) -> NativeEvent {
    NativeEvent { window: 77, msg, wparam, lparam, rect: None }
}

fn message(app: &mut App, e: NativeEvent, now: u64) -> (Vec<String>, Option<isize>) {
    let (effects, answer) = app.handle_message(1, &e, FACTS, now);
    (shown(&effects), answer)
}

fn words(list: &[&str]) -> Vec<String> {
    list.iter().map(|w| w.to_string()).collect()
}

#[test]
fn run_options_are_parsed() {
    let c = parse(&words(&["mac", "--control-port", "9", "--video-port", "8", "--checkerboard"])).unwrap();
    assert_eq!((c.host.as_str(), c.control_port, c.video_port, c.checkerboard), ("mac", 9, Some(8), true));
    let c = parse(&words(&["mac"])).unwrap();
    assert_eq!((c.control_port, c.video_port, c.checkerboard), (7000, None, false));
    let c = parse(&words(&["192.168.1.20"])).unwrap();
    assert_eq!((c.host.as_str(), c.video_port, c.checkerboard), ("192.168.1.20", None, false));
    assert_eq!(parse(&words(&["mac", "--video"])).unwrap().video_port, Some(7001));
    assert_eq!(parse(&words(&["mac", "--video-port", "8", "--video"])).unwrap().video_port, Some(8));
    assert_eq!(parse(&words(&["mac", "--video", "--no-video"])).unwrap().video_port, None);
    assert_eq!(parse(&words(&["mac", "--no-video", "--video"])).unwrap().video_port, Some(7001));
    for (list, error) in [
        (vec!["--no-video"], "missing Mac hostname or IP address"),
        (vec!["a", "b"], "unexpected extra argument"),
        (vec!["-x"], "unknown option -x"),
        (vec!["--control-port"], "--control-port needs a value"),
        (vec!["--control-port", "x"], "invalid --control-port"),
        (vec!["--video-port"], "--video-port needs a value"),
        (vec!["--video-port", "-1"], "invalid --video-port"),
        (vec!["a", "--control-port", "0"], "Control port must be between 1 and 65535."),
        (vec!["a", "--control-port", "7001", "--video"], "Control and video ports must be different."),
    ] {
        assert_eq!(parse(&words(&list)).unwrap_err(), error);
    }
    assert!(startup(&[]).unwrap().is_none());
    assert!(startup(&words(&["--interactive"])).unwrap().is_none());
    assert!(startup(&words(&["mac"])).unwrap().is_some());
    assert_eq!(startup(&words(&["--interactive", "mac"])).unwrap_err(), "unknown option --interactive");
}

#[test]
fn an_idle_application_does_nothing() {
    let mut app = App::new(None);
    assert!(!app.active && app.selected.is_none());
    assert_eq!(app.cfg.control_port, 7000);
    let (effects, drain) = app.poll_session(0);
    assert!(effects.is_empty() && !drain);
    assert!(app.connect().is_empty());
    assert!(app.update_status().is_empty());
}

#[test]
fn connecting_is_tried_until_it_works() {
    let mut app = App::new(Some(config()));
    assert_eq!(shown(&app.poll_session(0).0), ["status true: Connecting to mac…", "connect mac"]);
    assert!(app.poll_session(0).0.is_empty());
    assert_eq!(
        shown(&app.connect_finished(Err("refused".into()), 5)),
        ["status true: Could not connect: refused Retrying…"]
    );
    assert!(app.poll_session(5 + RECONNECT_DELAY - 1).0.is_empty());
    assert_eq!(app.poll_session(5 + RECONNECT_DELAY).0.len(), 2);
    let mac = Connection::manual("10.0.0.9", "1", "").unwrap();
    assert_eq!(
        shown(&app.connect_finished(Ok(mac), 9)),
        ["SetConnected(true)", "remember 10.0.0.9", "status true: Control only · video is off"]
    );
    assert_eq!((app.cfg.host.as_str(), app.cfg.control_port), ("10.0.0.9", 1));
    assert!(app.poll_session(10).1);
}

#[test]
fn the_dashboard_chooses_the_mac() {
    let mut app = streaming();
    let mac = Connection::manual("other", "1", "2").unwrap();
    let effects = shown(&app.poll_dashboard(Action::Connect(mac)));
    assert_eq!(
        effects,
        [
            "SetConnected(false)",
            "CloseSession",
            "DestroyProxy { id: 1 }",
            "RefreshGallery",
            "status true: Connecting to other…",
            "connect other",
        ]
    );
    assert!(app.windows.is_empty() && app.proxies.is_empty() && app.connecting);
}

#[test]
fn disconnecting_forgets_the_session() {
    let mut app = streaming();
    let effects = shown(&app.poll_dashboard(Action::Disconnect));
    assert_eq!(
        effects,
        [
            "SetConnected(false)",
            "CloseSession",
            "DestroyProxy { id: 1 }",
            "RefreshGallery",
            "status false: Disconnected. Your Mac apps are still open.",
            "ShowDashboard",
        ]
    );
    assert!(!app.active && !app.session && app.windows.is_empty());
    assert!(app.poll_session(u64::MAX).0.is_empty());
}

#[test]
fn windows_open_show_and_hide() {
    let mut app = streaming();
    app.session_event(SessionEvent::Control(ModelEvent::WindowAdded(window(2, 10, 10))), 0);
    assert_eq!(shown(&app.poll_dashboard(Action::OpenWindow(2))), ["OpenProxy { id: 2 }"]);
    let status = "status true: Waiting for video…";
    assert_eq!(
        shown(&app.poll_dashboard(Action::OpenWindow(1))),
        ["ShowProxy { id: 1 }", "RefreshGallery", status]
    );
    assert_eq!(
        shown(&app.poll_dashboard(Action::HideWindow(1))),
        ["HideProxy { id: 1 }", "RefreshGallery", status]
    );
    assert_eq!(shown(&app.poll_dashboard(Action::HideWindow(9))), ["RefreshGallery", status]);
    assert_eq!(
        shown(&app.proxy_failed("no memory")),
        ["RefreshGallery", "status true: Could not open window: no memory"]
    );
}

#[test]
fn new_windows_cascade_and_fit() {
    let mut app = App::new(None);
    let mut places = Vec::new();
    for _ in 0..9 {
        places.push(app.spawn_point());
    }
    assert_eq!(places, [40, 88, 136, 184, 232, 280, 328, 376, 40]);
    let mut app = streaming();
    app.session_event(SessionEvent::Control(ModelEvent::WindowAdded(window(2, 3840, 2000))), 0);
    app.session_event(SessionEvent::ResizeBounds { id: 2, max_size: Size { w: 7, h: 8 } }, 0);
    let plan = app.plan_proxy(2, 376, work(), (16, 39)).unwrap();
    // 85% of the work area is 1632 by 884.
    assert_eq!(plan.size, Size { w: 1632, h: 850 });
    assert!(plan.clamped);
    assert_eq!((plan.x, plan.y), (288, 190));
    assert_eq!(plan.outer, (1648, 889));
    assert_eq!(plan.limit, Some(Size { w: 7, h: 8 }));
    assert_eq!(plan.title, "w2");
    assert!(plan.framed);
    let effects = shown(&app.proxy_opened(2, &plan, WindowFacts { client: (1632, 850), ready: true, ..FACTS }, 3));
    assert_eq!(
        effects[..3],
        [
            "ResizeSwapchain { id: 2, size: Size { w: 1632, h: 850 } }",
            "Reveal { id: 2 }",
            "CommitResize { id: 2, size: Size { w: 1632, h: 850 }, request: 1 }",
        ]
    );
    assert!(app.plan_proxy(3, 40, work(), (0, 0)).is_none());
    let plan = app.plan_proxy(1, 40, work(), (0, 0)).unwrap();
    assert!(!plan.clamped && plan.limit.is_none());
    let effects = shown(&app.proxy_opened(1, &plan, FACTS, 3));
    assert_eq!(effects[..2], ["ReportSize { id: 1 }", "Reveal { id: 1 }"]);
}

#[test]
fn blank_titles_get_a_name() {
    let mut app = streaming();
    let rename = |title: &str| {
        SessionEvent::Control(ModelEvent::WindowTitleChanged { id: 1, title: title.to_string() })
    };
    let effects = shown(&app.session_event(rename(" \t"), 0).0);
    assert_eq!(effects[0], "SetTitle { id: 1, text: \"Transom\" }");
    let effects = shown(&app.session_event(rename(" x"), 0).0);
    assert_eq!(effects[0], "SetTitle { id: 1, text: \" x\" }");
}

#[test]
fn the_display_texture_follows_its_size() {
    let mut app = streaming();
    let vds = Size { w: 5, h: 6 };
    let hello = || SessionEvent::Control(ModelEvent::Connected { vds });
    assert_eq!(
        shown(&app.session_event(hello(), 0).0)[0],
        "CreateTexture { size: Size { w: 5, h: 6 } }"
    );
    app.texture_created(vds);
    assert_eq!(shown(&app.session_event(hello(), 0).0)[0], "RefreshGallery");
    assert_eq!(app.vds, Some(vds));
}

#[test]
fn host_errors_are_shown() {
    let mut app = streaming();
    let error = ModelEvent::HostError { code: 9, message: "busy".into() };
    let (effects, open) = app.session_event(SessionEvent::Control(error), 0);
    assert!(open);
    assert_eq!(shown(&effects)[1], "status true: Host error 9: busy");
}

#[test]
fn lost_sessions_are_retried() {
    for (event, text) in [
        (SessionEvent::ControlClosed(Some("reset".into())), "status true: Connection lost: reset. Retrying…"),
        (SessionEvent::VideoClosed(None), "status true: Video unavailable. Retrying…"),
        (SessionEvent::Lost, "SetConnected(false)"),
    ] {
        let mut app = streaming();
        let (effects, open) = app.session_event(event, 100);
        assert!(!open);
        assert_eq!(shown(&effects)[0], text);
        assert_eq!(shown(&effects).last().unwrap(), "RefreshGallery");
        assert!(app.active && !app.session && app.proxies.is_empty());
        assert_eq!(app.reconnect_at, Some(100 + RECONNECT_DELAY));
    }
}

#[test]
fn removed_windows_lose_their_proxies() {
    let mut app = streaming();
    app.session_event(SessionEvent::Control(ModelEvent::WindowAdded(window(2, 10, 10))), 0);
    let gone = ModelEvent::Resynced { removed: vec![2, 1, 5] };
    let effects = shown(&app.session_event(SessionEvent::Control(gone), 0).0);
    assert_eq!(effects[..2], ["DestroyProxy { id: 1 }", "RefreshGallery"]);
    assert!(app.windows.is_empty());
    let mut app = streaming();
    app.session_event(SessionEvent::Control(ModelEvent::WindowRemoved { id: 1 }), 0);
    assert!(app.proxies.is_empty());
}

#[test]
fn a_moved_source_snaps_its_window() {
    let mut app = streaming();
    let moved = |w, h| {
        SessionEvent::Control(ModelEvent::WindowRectChanged { id: 1, source: rect(w, h), size_changed: true })
    };
    let effects = shown(&app.session_event(moved(800, 598), 0).0);
    assert_eq!(effects[0], "Snap { id: 1, size: Size { w: 800, h: 598 } }");
    // Not while the user drags.
    message(&mut app, event(WM_ENTERSIZEMOVE, 0, 0), 0);
    let effects = shown(&app.session_event(moved(800, 597), 0).0);
    assert_eq!(effects[0], "RefreshGallery");
    assert_eq!(app.windows[0].1.source.h, 597);
}

#[test]
fn resizing_waits_for_its_own_answer() {
    let mut app = streaming();
    let size = Size { w: 700, h: 500 };
    assert_eq!(
        shown(&app.commit_resize(1, size, 0)),
        ["CommitResize { id: 1, size: Size { w: 700, h: 500 }, request: 1 }"]
    );
    assert_eq!(shown(&app.commit_resize(1, size, 0)).len(), 1);
    let done = |request| SessionEvent::ResizeCompleted { id: 1, source: rect(699, 499), request };
    let late = shown(&app.session_event(done(1), 0).0);
    assert_eq!(late[0], "RefreshGallery");
    assert_eq!(app.windows[0].1.source, rect(800, 600));
    let effects = shown(&app.session_event(done(2), 0).0);
    assert_eq!(effects[0], "Snap { id: 1, size: Size { w: 699, h: 499 } }");
    assert_eq!(app.windows[0].1.source, rect(699, 499));
    assert!(app.commit_resize(8, size, 0).is_empty());
}

#[test]
fn overdue_answers_are_given_up() {
    let mut app = streaming();
    app.commit_resize(1, Size { w: 700, h: 500 }, 0);
    app.swapchain_resized(1, Size { w: 700, h: 500 });
    assert_eq!(shown(&app.render_all(1400 * MILLISECOND)), ["Render { id: 1 }"]);
    assert_eq!(
        shown(&app.render_all(1500 * MILLISECOND)),
        ["Snap { id: 1, size: Size { w: 800, h: 600 } }", "Render { id: 1 }"]
    );
    assert_eq!(shown(&app.render_all(3000 * MILLISECOND)), ["Render { id: 1 }"]);
}

#[test]
fn size_messages_ask_the_host() {
    let mut app = streaming();
    let resized = WindowFacts { client: (640, 480), ..FACTS };
    let (effects, answer) = app.handle_message(1, &event(WM_SIZE, 0, 0), resized, 7);
    assert_eq!(answer, Some(0));
    assert_eq!(
        shown(&effects),
        [
            "ResizeSwapchain { id: 1, size: Size { w: 640, h: 480 } }",
            "Render { id: 1 }",
            "CommitResize { id: 1, size: Size { w: 640, h: 480 }, request: 1 }",
        ]
    );
    let minimized = WindowFacts { client: (0, 0), ..FACTS };
    let (effects, _) = app.handle_message(1, &event(WM_SIZE, 0, 0), minimized, 7);
    assert_eq!(shown(&effects), ["Render { id: 1 }"]);
    let (effects, _) = message(&mut app, event(WM_SIZE, 0, 0), 7);
    assert_eq!(effects, ["ReportSize { id: 1 }", "Render { id: 1 }"]);
}

#[test]
fn drags_tell_the_host_now_and_then() {
    let mut app = streaming();
    let rect = Some(Bounds { left: 10, top: 10, right: 726, bottom: 549 });
    let sizing = NativeEvent { rect, ..event(WM_SIZING, 0, 0) };
    assert_eq!(message(&mut app, event(WM_ENTERSIZEMOVE, 0, 0), 0), (vec![], Some(0)));
    let (effects, answer) = message(&mut app, sizing, 0);
    assert_eq!(answer, Some(1));
    let request = |phase: &str| {
        format!("Send(RequestResize {{ id: 1, size: Size {{ w: 700, h: 500 }}, phase: {phase} }})")
    };
    assert_eq!(effects, [request("Begin"), request("Live")]);
    assert!(message(&mut app, sizing, 99 * MILLISECOND).0.is_empty());
    assert_eq!(message(&mut app, sizing, 100 * MILLISECOND).0, [request("Live")]);
    let (effects, _) = message(&mut app, event(WM_EXITSIZEMOVE, 0, 0), 0);
    assert_eq!(effects, ["CommitResize { id: 1, size: Size { w: 800, h: 600 }, request: 1 }"]);
    // Moving a window asks for nothing.
    message(&mut app, event(WM_ENTERSIZEMOVE, 0, 0), 0);
    assert!(message(&mut app, event(WM_EXITSIZEMOVE, 0, 0), 0).0.is_empty());
}

#[test]
fn the_pointer_stays_local_during_a_drag() {
    let mut app = streaming();
    let at = |x: isize, y: isize| x | (y << 16);
    message(&mut app, event(WM_ENTERSIZEMOVE, 0, 0), 0);
    message(&mut app, event(WM_MOUSEMOVE, 0, at(3, 4)), 0);
    assert!(app.flush_mouse_moves(0).is_empty());
    assert!(message(&mut app, event(WM_LBUTTONDOWN, 0, at(3, 4)), 0).0.is_empty());
    message(&mut app, event(WM_EXITSIZEMOVE, 0, 0), 0);
    message(&mut app, event(WM_MOUSEMOVE, 0, at(3, 4)), 0);
    message(&mut app, event(WM_MOUSEMOVE, 0, at(5, 6)), 0);
    assert_eq!(
        shown(&app.flush_mouse_moves(9 * MILLISECOND)),
        ["Send(Input { id: 1, event: MouseMove { x: 5, y: 6 }, ts: 9 })"]
    );
    assert!(app.flush_mouse_moves(9).is_empty());
    message(&mut app, event(WM_MOUSEMOVE, 0, at(5, 6)), 0);
    let (effects, answer) = message(&mut app, event(WM_LBUTTONDOWN, 0, at(7, 8)), 2 * MILLISECOND);
    assert_eq!(answer, None);
    assert_eq!(
        effects,
        ["Send(Input { id: 1, event: MouseDown { x: 7, y: 8, button: Left }, ts: 2 })"]
    );
    assert!(app.flush_mouse_moves(9).is_empty());
}

#[test]
fn keys_wheels_and_focus_are_forwarded() {
    let mut app = streaming();
    assert_eq!(
        message(&mut app, event(WM_KEYDOWN, 0x41, 0), 0),
        (vec!["Send(Input { id: 1, event: KeyDown { vk: 65 }, ts: 0 })".to_string()], None)
    );
    assert_eq!(
        message(&mut app, event(WM_MOUSEWHEEL, 240 << 16, 0), 0).0,
        ["Send(Input { id: 1, event: Scroll { x: 11, y: 12, dx: 0, dy: 2 }, ts: 0 })"]
    );
    assert!(message(&mut app, event(WM_MOUSEWHEEL, 60 << 16, 0), 0).0.is_empty());
    assert_eq!(
        message(&mut app, event(WM_ACTIVATE, 1, 0), 0),
        (vec!["Send(RequestFocus { id: 1 })".to_string()], Some(0))
    );
    assert_eq!(message(&mut app, event(WM_ACTIVATE, 0x1_0000, 0), 0), (vec![], None));
}

#[test]
fn painting_moving_and_closing() {
    let mut app = streaming();
    app.frame_presented(1, true);
    assert!(!app.proxies[0].1.dirty);
    assert_eq!(
        message(&mut app, event(WM_PAINT, 0, 0), 0).0,
        ["Render { id: 1 }", "Validate { id: 1 }"]
    );
    assert!(app.proxies[0].1.dirty);
    let bounds = Bounds { left: 1, top: 2, right: 3, bottom: 4 };
    let moved = NativeEvent { rect: Some(bounds), ..event(WM_DPICHANGED, 0, 0) };
    assert_eq!(
        message(&mut app, moved, 0).0,
        ["MoveTo { id: 1, bounds: Bounds { left: 1, top: 2, right: 3, bottom: 4 } }"]
    );
    let (effects, answer) = message(&mut app, event(WM_CLOSE, 0, 0), 0);
    assert_eq!((effects, answer), (words(&["HideProxy { id: 1 }", "RefreshGallery"]), Some(0)));
    assert_eq!(app.proxies.len(), 1);
    message(&mut app, event(WM_DESTROY, 0, 0), 0);
    assert!(app.proxies.is_empty());
    assert_eq!(message(&mut app, event(0x400, 0, 0), 0), (vec![], None));
}

#[test]
fn silent_video_is_mentioned_once() {
    let mut app = streaming();
    let report = |received, frame| VideoReport { received, request_keyframe: false, error: None, frame };
    assert!(app.poll_decoder(report(119, false)).is_empty());
    assert_eq!(
        shown(&app.poll_decoder(report(120, false))),
        ["status true: Video is arriving but no picture has decoded yet. Waiting for a complete keyframe..."]
    );
    assert!(app.poll_decoder(report(121, true)).is_empty());
    app.texture_created(Size { w: 4, h: 4 });
    assert_eq!(shown(&app.poll_decoder(report(122, true))), ["UploadFrame"]);
    assert_eq!(shown(&app.frame_uploaded(None)), ["RefreshPreviews", "status true: Streaming"]);
    assert_eq!(shown(&app.frame_uploaded(None)), ["RefreshPreviews"]);
    assert_eq!(
        shown(&app.frame_uploaded(Some("lost device"))),
        ["status true: Cannot render video: lost device"]
    );
    assert_eq!(shown(&app.frame_uploaded(None)), ["RefreshPreviews", "status true: Streaming"]);
}

#[test]
fn decoder_trouble_asks_for_a_keyframe() {
    let mut app = streaming();
    let report = VideoReport {
        received: 500,
        request_keyframe: true,
        error: Some("bad frame".into()),
        frame: false,
    };
    assert_eq!(shown(&app.poll_decoder(report)), ["RequestKeyframe", "status true: bad frame"]);
    assert!(!app.warned_no_decode);
}

#[test]
fn the_gallery_is_in_the_order_of_ids() {
    let mut app = streaming();
    for id in [9, 4] {
        app.session_event(SessionEvent::Control(ModelEvent::WindowAdded(window(id, 1, 1))), 0);
    }
    let cards = app.gallery(&[1, 9]);
    let rows: Vec<_> = cards.iter().map(|(w, opened)| (w.id, *opened)).collect();
    assert_eq!(rows, [(1, true), (4, false), (9, false)]);
    assert!(!app.gallery(&[])[0].1);
}

#[test]
fn native_events_are_coalesced() {
    let mut queue = EventQueue::new();
    let of = |window, msg, wparam| NativeEvent { window, msg, wparam, lparam: 0, rect: None };
    assert_eq!(queue.push(of(1, WM_PAINT, 1)), Answer::Painted);
    queue.push(of(1, WM_KEYDOWN, 2));
    queue.push(of(2, WM_PAINT, 3));
    queue.push(of(1, WM_KEYDOWN, 4));
    queue.push(of(1, WM_PAINT, 5));
    assert_eq!(queue.push(of(3, WM_SIZING, 6)), Answer::Done(1));
    assert_eq!(queue.push(of(3, WM_CLOSE, 7)), Answer::Done(0));
    assert_eq!(queue.push(of(3, WM_SIZE, 8)), Answer::Default);
    queue.forget(3);
    let mut seen = Vec::new();
    while let Some(e) = queue.pop() {
        seen.push(e.wparam);
    }
    assert_eq!(seen, [2, 3, 4, 5]);
}

#[test]
fn the_application_mirrors_the_model() {
    let mut app = App::new(Some(config()));
    let mut model = WindowModel::new();
    let created = |id, w| ServerMessage::WindowCreated {
        id,
        rect: rect(w, 5),
        title: "t".into(),
        kind: WindowKind::Normal,
    };
    let tile = |id, w| TileWindow { id, rect: rect(w, 5) };
    let messages = [
        created(1, 10),
        created(2, 20),
        created(1, 11),
        ServerMessage::WindowMoved { id: 2, rect: rect(21, 5) },
        ServerMessage::WindowMoved { id: 9, rect: rect(90, 5) },
        ServerMessage::TileLayout {
            windows: vec![tile(3, 30), tile(2, 22), tile(3, 31)],
            display: Size { w: 100, h: 100 },
        },
        ServerMessage::WindowDestroyed { id: 2 },
    ];
    for message in messages {
        for event in model.apply(message) {
            app.apply_model_event(&event);
        }
        let mut known: Vec<_> = app.windows.iter().map(|(id, w)| (*id, w.source)).collect();
        let mut told: Vec<_> = model.windows().iter().map(|w| (w.id, w.source)).collect();
        known.sort_by_key(|(id, _)| *id);
        told.sort_by_key(|(id, _)| *id);
        assert_eq!(known, told);
    }
    assert_eq!(app.windows.len(), 1);
}

#[test]
fn only_normal_windows_get_a_frame() {
    assert!(has_frame(WindowKind::Normal));
    let mut app = streaming();
    for (id, kind) in [(2, WindowKind::Menu), (3, WindowKind::Sheet), (4, WindowKind::Popover)] {
        assert!(!has_frame(kind));
        let menu = Window { kind, ..window(id, 300, 200) };
        app.session_event(SessionEvent::Control(ModelEvent::WindowAdded(menu)), 0);
        let plan = app.plan_proxy(id, 40, work(), (16, 39)).unwrap();
        assert!(!plan.framed);
        assert_eq!(plan.outer, (300, 200));
    }
    let plan = app.plan_proxy(1, 40, work(), (16, 39)).unwrap();
    assert!(plan.framed);
    assert_eq!(plan.outer, (816, 639));
}

#[test]
fn only_new_frames_are_drawn() {
    let mut app = streaming();
    let texture = Some(Size { w: 1000, h: 1000 });
    let plan = app.frame_plan(1, texture).unwrap();
    assert_eq!(plan.draw, Size { w: 800, h: 600 });
    app.frame_presented(1, true);
    assert!(app.frame_plan(1, texture).is_none());
    app.frame_presented(1, false);
    assert!(app.frame_plan(1, None).is_some());
    assert!(app.frame_plan(9, texture).is_none());
}

#[test]
fn a_moved_window_asks_for_no_size() {
    let mut app = streaming();
    let odd = WindowFacts { client: (640, 480), ..FACTS };
    let mut all = message(&mut app, event(WM_ENTERSIZEMOVE, 0, 0), 0).0;
    all.extend(shown(&app.handle_message(1, &event(WM_SIZE, 0, 0), odd, 1).0));
    all.extend(message(&mut app, event(WM_PAINT, 0, 0), 2).0);
    all.extend(message(&mut app, event(WM_ACTIVATE, 1, 0), 2).0);
    all.extend(shown(&app.handle_message(1, &event(WM_EXITSIZEMOVE, 0, 0), odd, 3).0));
    assert!(all.iter().all(|e| !e.contains("CommitResize") && !e.contains("RequestResize")), "{all:?}");
    assert!(all.contains(&"Send(RequestFocus { id: 1 })".to_string()));
}

#[test]
fn the_shortcut_needs_both_keys() {
    let d = usize::from(b'D');
    assert!(is_disconnect_message(WM_KEYDOWN, d, true, true));
    assert!(is_disconnect_message(WM_SYSKEYDOWN, d, true, true));
    assert!(!is_disconnect_message(WM_KEYDOWN, d, true, false));
    assert!(!is_disconnect_message(WM_KEYDOWN, d, false, true));
    assert!(!is_disconnect_message(WM_KEYDOWN, d + 1, true, true));
    assert!(!is_disconnect_message(WM_PAINT, d, true, true));
}
