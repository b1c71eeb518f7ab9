use transom_client::hevc::HevcConfig;
use transom_client::model::Window;
use transom_client::text::contains_text;
use transom_client::text::eq_ignore_ascii_case;
use transom_client::text::join_parts;
use transom_client::text::parse_i32;
use transom_client::text::parse_unsigned;
use transom_client::text::signed_to_text;
use transom_client::text::split_parts;
use transom_client::text::starts_with;
use transom_client::text::text_byte_len;
use transom_client::text::trim;
use transom_client::text::trim_end_char;
use transom_client::text::unsigned_to_text;
use transom_client::vk::vk_for_ascii;
use transom_client::win::button::button_step;
use transom_client::win::button::ButtonStep;
use transom_client::win::chrome::create_controls;
use transom_client::win::chrome::dashboard_hit;
use transom_client::win::chrome::opening_bounds;
use transom_client::win::chrome::scale;
use transom_client::win::chrome::text_limit;
use transom_client::win::chrome::track_limits;
use transom_client::win::chrome::unscale;
use transom_client::win::chrome::within_work_area;
use transom_client::win::chrome::Bounds;
use transom_client::win::controls::draw_glass;
use transom_client::win::controls::ControlLook;
use transom_client::win::cursor::CursorHints;
use transom_client::win::dashboard::Dashboard;
use transom_client::win::dashboard::CONNECT;
use transom_client::win::dashboard::HOST;
use transom_client::win::dashboard::NAV_SETTINGS;
use transom_client::win::decode::check_format;
use transom_client::win::decode::pack_size;
use transom_client::win::decode::sample_time;
use transom_client::win::decode::validate_nv12;
use transom_client::win::decode::EncodedFrame;
use transom_client::win::decode::PendingInput;
use transom_client::win::decode::WorkerState;
use transom_client::win::decode::WorkerStep;
use transom_client::win::frame::hit_test;
use transom_client::win::gallery::Card;
use transom_client::win::input::event_for_message;
use transom_client::win::messages::HTBOTTOMRIGHT;
use transom_client::win::messages::HTCAPTION;
use transom_client::win::messages::HTCLIENT;
use transom_client::win::messages::HTLEFT;
use transom_client::win::messages::HTTOPLEFT;
use transom_client::win::messages::WM_ENABLE;
use transom_client::win::messages::WM_KEYUP;
use transom_client::win::messages::WM_MBUTTONUP;
use transom_client::win::messages::WM_MOUSEHWHEEL;
use transom_client::win::messages::WM_MOUSELEAVE;
use transom_client::win::messages::WM_MOUSEMOVE;
use transom_client::win::messages::WM_PAINT;
use transom_client::win::pixels::bgra_pixel;
use transom_client::win::proxy::pixel_check_line;
use transom_client::win::proxy::Proxy;
use transom_client::win::proxy::RenderMode;
use transom_client::win::proxy::ResizeStep;
use transom_client::win::scene::Piece;
use transom_client::win::scene::Shape;
use transom_client::win::texture::accepts_buffer;
use transom_client::win::texture::accepts_texture;
use transom_client::win::texture::placeholder;
use transom_client::win::video_router::Route;
use transom_client::win::video_router::VideoRouter;
use transom_client::window_fit::initial_proxy_size;
use transom_client::wire::control::Rect;
use transom_client::wire::control::Size;
use transom_client::wire::control::WindowKind;
use transom_client::wire::input::InputEvent;
use transom_client::wire::input::MouseButton;

const MILLISECOND: u64 = 1_000_000;

fn bounds(left: i32, top: i32, right: i32, bottom: i32) -> Bounds {
    Bounds { left, top, right, bottom }
}

fn card(title: &str, opened: bool, source: Rect) -> Card {
    let window = Window { id: 1, title: title.to_string(), kind: WindowKind::Normal, source };
    Card::new(window, opened)
}

fn texts(pieces: &[Piece]) -> Vec<String> {
    pieces
        .iter()
        .filter_map(|piece| match piece {
            Piece::Text { text, .. } => Some(text.clone()),
            Piece::Shape(_) => None,
        })
        .collect()
}

#[test]
fn numbers_are_written_and_read_back() {
    for n in [0u64, 7, 10, 4_294_967_296, u64::MAX] {
        assert_eq!(unsigned_to_text(n), n.to_string());
        assert_eq!(parse_unsigned(&n.to_string(), u64::MAX), Some(n));
    }
    for n in [i64::MIN, -1, 0, 42] {
        assert_eq!(signed_to_text(n), n.to_string());
    }
    assert_eq!(parse_unsigned("256", 255), None);
    assert_eq!(parse_unsigned("+5", 255), Some(5));
    assert_eq!(parse_unsigned("+", 255), None);
    assert_eq!(parse_unsigned("٣", 255), None);
    assert_eq!(parse_i32("-0"), Some(0));
    assert_eq!(parse_i32("2147483648"), None);
}

#[test]
fn texts_are_cut_and_joined() {
    assert_eq!(trim("\u{a0}\u{3000} a b\u{85}\n"), " a b".trim_start());
    assert_eq!(trim("\u{200b}a"), "\u{200b}a");
    assert_eq!(trim_end_char("a..b...", '.'), "a..b");
    let parts = split_parts("a..b.", '.');
    assert_eq!(parts, ["a", "", "b", ""]);
    assert_eq!(join_parts(&parts, '.'), "a..b.");
    assert_eq!(split_parts("", '.'), [""]);
    assert!(contains_text("abcabd", "abd"));
    assert!(contains_text("x", ""));
    assert!(!contains_text("ab", "abc"));
    assert!(starts_with("manual:x", "manual:"));
    assert!(!starts_with("manual", "manual:"));
    assert!(eq_ignore_ascii_case("MaC", "mAc"));
    assert!(!eq_ignore_ascii_case("É", "é"));
    assert_eq!(text_byte_len("aé€😀"), 10);
}

#[test]
fn both_cases_share_a_key() {
    for c in 'a'..='z' {
        assert_eq!(vk_for_ascii(c), vk_for_ascii(c.to_ascii_uppercase()));
    }
    assert_eq!(vk_for_ascii('\t'), Some(0x09));
}

#[test]
fn coordinates_are_clamped_and_wheels_count_notches() {
    let none = (0, 0);
    assert_eq!(
        event_for_message(WM_MOUSEMOVE, 0, 0xFFFE_0005u32 as isize, none),
        Some(InputEvent::MouseMove { x: 5, y: 0 })
    );
    assert_eq!(
        event_for_message(WM_MBUTTONUP, 0, 0x0003_0004, none),
        Some(InputEvent::MouseUp { x: 4, y: 3, button: MouseButton::Middle })
    );
    let down = ((-360i16) as u16 as usize) << 16;
    assert_eq!(
        event_for_message(WM_MOUSEHWHEEL, down, 0, (-7, 9)),
        Some(InputEvent::Scroll { x: 0, y: 9, dx: -3, dy: 0 })
    );
    let little = ((-119i16) as u16 as usize) << 16;
    assert_eq!(event_for_message(WM_MOUSEHWHEEL, little, 0, none), None);
    assert_eq!(event_for_message(WM_KEYUP, 0x1241, 0, none), Some(InputEvent::KeyUp { vk: 0x41 }));
    assert_eq!(event_for_message(WM_PAINT, 0, 0, none), None);
}

#[test]
fn hints_are_short_lived_and_never_go_back() {
    let field = Rect { x: 10, y: 10, w: 5, h: 5 };
    let mut hints = CursorHints::new();
    assert!(!hints.shows_text(1, 12, 12, 0));
    hints.update(1, true, field, 50, 0);
    assert!(hints.shows_text(1, 12, 12, 599 * MILLISECOND));
    assert!(!hints.shows_text(1, 12, 12, 600 * MILLISECOND));
    assert!(!hints.shows_text(1, 15, 12, 0));
    assert!(!hints.shows_text(2, 12, 12, 0));
    hints.update(1, false, field, 49, 0);
    assert!(hints.shows_text(1, 12, 12, 0));
    hints.update(1, false, field, 50, 0);
    assert!(!hints.shows_text(1, 12, 12, 0));
    hints.update(1, true, field, 51, 0);
    hints.clear(1);
    assert!(!hints.shows_text(1, 12, 12, 0));
}

#[test]
fn buttons_follow_the_pointer() {
    assert_eq!(button_step(WM_MOUSEMOVE, false), ButtonStep::Enter);
    assert_eq!(button_step(WM_MOUSEMOVE, true), ButtonStep::Pass);
    assert_eq!(button_step(WM_MOUSELEAVE, true), ButtonStep::Leave);
    assert_eq!(button_step(WM_PAINT, true), ButtonStep::Paint);
    assert_eq!(button_step(WM_ENABLE, true), ButtonStep::Redraw);
    assert_eq!(button_step(0x14, false), ButtonStep::Keep);
    assert_eq!(button_step(0x82, false), ButtonStep::Release);
    assert_eq!(button_step(0x400, false), ButtonStep::Pass);
}

#[test]
fn lengths_are_scaled() {
    assert_eq!(scale(14, 144), 21);
    assert_eq!(scale(-14, 120), -17);
    assert_eq!(unscale(100, 144), 66);
    assert_eq!(unscale(96, 96), 96);
}

#[test]
fn the_frame_has_edges_unless_zoomed() {
    let window = bounds(100, 100, 1100, 900);
    let at = |x: isize, y: isize| x | (y << 16);
    assert_eq!(dashboard_hit(at(100, 100), window, 96, false), HTTOPLEFT);
    assert_eq!(dashboard_hit(at(105, 500), window, 96, false), HTLEFT);
    assert_eq!(dashboard_hit(at(106, 500), window, 96, false), HTCLIENT);
    assert_eq!(dashboard_hit(at(1099, 899), window, 96, false), HTBOTTOMRIGHT);
    assert_eq!(dashboard_hit(at(500, 120), window, 96, false), HTCAPTION);
    assert_eq!(dashboard_hit(at(500, 132), window, 96, false), HTCLIENT);
    assert_eq!(dashboard_hit(at(956, 120), window, 96, false), HTCLIENT);
    assert_eq!(dashboard_hit(at(100, 100), window, 96, true), HTCAPTION);
    assert_eq!(hit_test(HTCLIENT, false), HTCLIENT);
    assert_eq!(hit_test(HTCLIENT, true), HTCAPTION);
    assert_eq!(hit_test(HTLEFT, true), HTLEFT);
}

#[test]
fn windows_open_within_the_work_area() {
    assert_eq!(opening_bounds(bounds(0, 0, 1920, 1040), 96), (32, 32, 1464, 934));
    assert_eq!(opening_bounds(bounds(10, 20, 1010, 820), 96), (42, 52, 936, 736));
    assert_eq!(
        within_work_area(bounds(-8, -8, 1928, 1048), bounds(0, 0, 1920, 1040)),
        bounds(0, 0, 1920, 1040)
    );
    let limits = track_limits(bounds(1920, 0, 3840, 1080), bounds(1960, 0, 3840, 1040), 144);
    assert_eq!(limits.least, (1650, 1080));
    assert_eq!(limits.full_position, (40, 0));
    assert_eq!(limits.full_size, (1880, 1040));
}

#[test]
fn the_controls_are_made_once_each() {
    let controls = create_controls();
    assert_eq!(controls.len(), 17 + 3 * 12 + 4);
    for i in 0..controls.len() {
        for j in 0..i {
            assert_ne!(controls[i].id, controls[j].id);
        }
    }
    assert_eq!((controls[0].id, controls[0].text.as_str(), controls[0].edit), (CONNECT, "Connect", false));
    let last = controls.last().unwrap();
    assert_eq!((last.text.as_str(), last.edit), ("47101", true));
    assert_eq!(text_limit(HOST), Some(253));
    assert_eq!(text_limit(CONNECT), None);
}

#[test]
fn grey_and_colour_come_out_right() {
    assert_eq!(bgra_pixel(16, 128, 128), [0, 0, 0, 255]);
    assert_eq!(bgra_pixel(235, 128, 128), [255, 255, 255, 255]);
    // Limited-range red.
    assert_eq!(bgra_pixel(63, 102, 240), [0, 1, 255, 255]);
    assert_eq!(bgra_pixel(126, 128, 128), [128, 128, 128, 255]);
}

#[test]
fn thumbnails_sample_their_own_window() {
    let mut c = card("x", false, Rect { x: 2, y: 0, w: 2, h: 2 });
    // Two black columns, then a grey and a white one, without colour.
    let nv12 = [16, 16, 126, 235, 16, 16, 126, 235, 128, 128, 128, 128];
    c.update_preview_nv12(&nv12, 4, Size { w: 4, h: 2 }, Size { w: 2, h: 1 });
    assert_eq!(c.pixels, [128, 128, 128, 255, 255, 255, 255, 255]);
    assert_eq!(c.size, Size { w: 2, h: 1 });
    c.update_preview_nv12(&nv12[..11], 4, Size { w: 4, h: 2 }, Size { w: 2, h: 1 });
    assert!(c.pixels.is_empty());
    assert_eq!(c.size, Size { w: 0, h: 0 });
}

#[test]
fn frames_are_checked_before_use() {
    let fault = |len: usize, w, h, stride| validate_nv12(vec![0; len], w, h, stride).unwrap_err();
    assert_eq!(fault(9, 2, 2, usize::MAX), "Invalid NV12 output dimensions");
    assert_eq!(fault(9, 3, 2, 4), "Invalid NV12 output dimensions or stride");
    assert_eq!(fault(5, 2, 2, 2), "Invalid NV12 output buffer size");
    let frame = validate_nv12(vec![7; 6], 2, 2, 2).unwrap();
    assert_eq!((frame.nv12, frame.stride), (vec![7; 6], 2));
    assert_eq!(pack_size(1, 2), 0x1_0000_0002);
    assert_eq!(sample_time(3), 30);
    assert_eq!(sample_time(u64::MAX), i64::MAX);
    let config = HevcConfig { length_size: 4, profile: 4, chroma: 3, bit_depth: 10, parameter_sets: vec![] };
    assert_eq!(
        check_format(&config).unwrap_err(),
        "Host sent HEVC chroma 3 / 10-bit. Select 4:2:0 8-bit in Mac Video settings and restart sharing."
    );
}

fn encoded(len: usize, keyframe: bool) -> EncodedFrame {
    EncodedFrame { data: vec![0; len], keyframe, pts_micros: 0, reset: false }
}

#[test]
fn the_decoder_queue_is_bounded() {
    let mut queue = PendingInput::default();
    assert!(!queue.push(encoded(1, false)));
    assert!(!queue.push(encoded(2, false)));
    assert!(!queue.push(encoded(3, false)));
    assert!(queue.push(encoded(4, false)));
    assert!(queue.is_empty());
    assert!(!queue.push(encoded(5, true)));
    assert_eq!(queue.pop().unwrap().data.len(), 5);
    assert!(!queue.is_stopped());
    queue.stop();
    assert!(queue.is_stopped() && queue.is_empty());
}

#[test]
fn a_failed_decode_waits_for_a_keyframe() {
    let mut worker = WorkerState::new();
    assert_eq!(worker.next(&encoded(1, false)), WorkerStep::Decode { flush: false });
    assert!(worker.succeeded());
    assert!(!worker.succeeded());
    worker.failed();
    assert_eq!(worker.next(&encoded(1, false)), WorkerStep::Skip);
    assert_eq!(worker.next(&encoded(1, true)), WorkerStep::Decode { flush: true });
    assert_eq!(worker.next(&encoded(1, false)), WorkerStep::Decode { flush: false });
}

#[test]
fn stale_video_goes_nowhere() {
    let mut router = VideoRouter::default();
    let size = Size { w: 4, h: 4 };
    assert_eq!(router.receive(1, 5, size, false), Route::Nowhere);
    assert_eq!(router.receive(1, 5, size, true), Route::Fresh);
    assert_eq!(router.receive(1, 5, size, false), Route::Current);
    assert_eq!(router.receive(1, 4, size, true), Route::Nowhere);
    assert_eq!(router.receive(1, 5, Size { w: 5, h: 4 }, false), Route::Nowhere);
    assert_eq!(router.receive(1, 6, size, true), Route::Fresh);
    router.remove(1);
    assert_eq!(router.receive(1, 6, size, true), Route::Nowhere);
    assert_eq!(router.receive(1, 7, size, true), Route::Fresh);
    for id in 2..=16 {
        assert_eq!(router.receive(id, 0, size, true), Route::Fresh);
    }
    assert_eq!(router.receive(17, 0, size, true), Route::Nowhere);
    assert_eq!(router.receive(16, 1, size, true), Route::Fresh);
}

#[test]
fn oversized_windows_touch_a_bound() {
    let fitted = initial_proxy_size(Size { w: 1, h: 5000 }, Size { w: 1000, h: 1000 });
    assert_eq!(fitted, Size { w: 1, h: 850 });
    let fitted = initial_proxy_size(Size { w: u32::MAX, h: 1 }, Size { w: 1000, h: 1000 });
    assert_eq!(fitted, Size { w: 850, h: 1 });
}

#[test]
fn pixels_are_drawn_one_to_one() {
    let source = Rect { x: 10, y: 20, w: 300, h: 200 };
    let texture = Some(Size { w: 1000, h: 1000 });
    let mut proxy = Proxy::new(source, false);
    let plan = proxy.render(texture, false);
    assert_eq!((plan.draw, plan.clear), (Size { w: 300, h: 200 }, false));
    assert_eq!(plan.mode, RenderMode::Source { crop: source });
    assert_eq!(proxy.render(None, false).mode, RenderMode::Waiting);
    proxy.resized(400, 150);
    let plan = proxy.render(texture, false);
    assert_eq!((plan.draw, plan.clear), (Size { w: 300, h: 150 }, true));
    assert_eq!(plan.mode, RenderMode::Source { crop: Rect { x: 10, y: 20, w: 300, h: 150 } });
    // Only a drag stretches.
    proxy.begin_size_move();
    proxy.resizing = true;
    let plan = proxy.render(texture, false);
    assert_eq!((plan.draw, plan.clear), (Size { w: 400, h: 150 }, false));
    assert_eq!(plan.mode, RenderMode::Source { crop: source });
    proxy.end_size_move();
    let plan = proxy.render(Some(Size { w: 30, h: 1000 }), true);
    assert_eq!(plan.mode, RenderMode::Source { crop: Rect { x: 0, y: 0, w: 30, h: 150 } });
    assert_eq!(Proxy::new(source, true).render(texture, false).mode, RenderMode::Checkerboard);
    assert_eq!(proxy.resize_swapchain(400, 150, false), ResizeStep::Resize);
    assert!(proxy.set_source(Rect { w: 301, ..source }));
    assert!(!proxy.set_source(Rect { x: 11, w: 301, ..source }));
}

#[test]
fn the_geometry_trace_compares_sizes() {
    assert_eq!(
        pixel_check_line(144, (800, 600), (800, 600)),
        "pixel-check: DPI=144 physical=800x600 swapchain=800x600 PASS"
    );
    assert_eq!(
        pixel_check_line(96, (800, 600), (800, 599)),
        "pixel-check: DPI=96 physical=800x600 swapchain=800x599 FAIL"
    );
    assert_eq!(
        pixel_check_line(96, (-1, 0), (u32::MAX, 0)),
        "pixel-check: DPI=96 physical=-1x0 swapchain=4294967295x0 PASS"
    );
    assert_eq!(
        pixel_check_line(96, (-2, 0), (2, 0)),
        "pixel-check: DPI=96 physical=-2x0 swapchain=2x0 FAIL"
    );
}

#[test]
fn the_placeholder_is_a_coarse_checkerboard() {
    let pixels = placeholder(40, 33);
    assert_eq!(pixels.len(), 40 * 33 * 4);
    let at = |x: usize, y: usize| pixels[(y * 40 + x) * 4..][..4].to_vec();
    assert_eq!(at(0, 0), [40, 40, 40, 255]);
    assert_eq!(at(31, 31), [40, 40, 40, 255]);
    assert_eq!(at(32, 0), [24, 24, 24, 255]);
    assert_eq!(at(0, 32), [24, 24, 24, 255]);
    assert_eq!(at(39, 32), [40, 40, 40, 255]);
    assert!(placeholder(0, 7).is_empty());
}

#[test]
fn only_whole_frames_fit_the_texture() {
    assert!(accepts_buffer(4 * 3, 4, 4, 2));
    assert!(!accepts_buffer(4 * 3 - 1, 4, 4, 2));
    assert!(!accepts_buffer(100, 3, 4, 2));
    assert!(!accepts_buffer(100, 1 << 33, 4, 2));
    assert!(accepts_texture(true, (4, 4), 2, 1, 4, 4));
    assert!(!accepts_texture(true, (4, 4), 2, 2, 4, 4));
    assert!(!accepts_texture(false, (4, 4), 2, 1, 4, 4));
    assert!(!accepts_texture(true, (4, 3), 2, 1, 4, 4));
}

#[test]
fn cards_show_their_title() {
    let source = Rect { x: 0, y: 0, w: 1, h: 1 };
    let grid = draw_glass(&card(" ", false, source), false, false);
    assert_eq!(texts(&grid), ["Untitled window"]);
    let row = draw_glass(&card("Notes", true, source), true, true);
    assert_eq!(texts(&row), ["Notes", "Open on this PC"]);
    assert!(matches!(row.last(), Some(Piece::Shape(Shape::Dot { radius: 4, .. }))));
    let row = draw_glass(&card("Notes", false, source), true, true);
    assert_eq!(texts(&row), ["Notes", "Available to open"]);
}

#[test]
fn the_shell_tells_the_state() {
    let mut d = Dashboard::new(Ok(vec![]), 0);
    d.resize(1464, 934);
    let shown = texts(&d.draw_shell("keys", "1.0"));
    assert_eq!(shown[..3], ["Transom", "No Mac selected", "Select a device in Macs"]);
    assert!(!shown.contains(&"keys".to_string()));
    d.set_status("Streaming", true);
    let shown = texts(&d.draw_shell("keys", "1.0"));
    assert_eq!(shown[..4], ["Transom", "keys", "No Mac selected", "Connecting…"]);
    d.view = NAV_SETTINGS;
    let shown = texts(&d.draw_shell("keys", "1.0"));
    assert!(shown.iter().any(|text| text.contains("1.0")));
}

#[test]
fn focused_controls_get_a_ring() {
    let mut d = Dashboard::new(Ok(vec![]), 0);
    d.resize(1464, 934);
    let look = ControlLook { focused: false, pressed: false, disabled: false, hovered: false };
    let plain = d.draw_control(CONNECT, look, "Connect");
    let ringed = d.draw_control(CONNECT, ControlLook { focused: true, ..look }, "Connect");
    assert_eq!(ringed.len(), plain.len() + 1);
    assert!(matches!(ringed.last(), Some(Piece::Shape(Shape::Stroke { color: 0x77AAFF, .. }))));
    assert_eq!(texts(&plain), ["Connect"]);
}
