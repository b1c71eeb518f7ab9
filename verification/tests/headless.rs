use transom_client::cli::argument_value;
use transom_client::cli::command_of;
use transom_client::cli::Command;
use transom_client::model::ModelEvent;
use transom_client::model::Window;
use transom_client::options::parse;
use transom_client::options::parse_triple;
use transom_client::options::Options;
use transom_client::runner::send_click;
use transom_client::runner::send_text;
use transom_client::runner::Action;
use transom_client::runner::Mirror;
use transom_client::trace::action_line;
use transom_client::trace::banner;
use transom_client::trace::event_line;
use transom_client::trace::stamped;
use transom_client::trace::time_over;
use transom_client::trace::Runner;
use transom_client::trace::RunnerEvent;
use transom_client::trace::RunnerOutput;
use transom_client::vk::VK_SHIFT;
use transom_client::wire::control::ClientMessage;
use transom_client::wire::control::Rect;
use transom_client::wire::control::ResizePhase;
use transom_client::wire::control::Size;
use transom_client::wire::control::WindowKind;
use transom_client::wire::input::InputEvent;
use transom_client::wire::input::MouseButton;

const MILLISECOND: u64 = 1_000_000;

fn words(list: &[&str]) -> Vec<String> {
    list.iter().map(|w| w.to_string()).collect()
}

fn options(list: &[&str]) -> Result<Options, String> {
    let args = words(list);
    let fractions: Vec<bool> = args.iter().map(|a| a.parse::<f64>().is_ok()).collect();
    parse(&args, &fractions)
}

fn refusal(list: &[&str]) -> String {
    match options(list) {
        Ok(_) => panic!("accepted"),
        Err(e) => e,
    }
}

fn window(id: u64, title: &str) -> Window {
    Window {
        id,
        title: title.to_string(),
        kind: WindowKind::Sheet,
        source: Rect { x: 1, y: 2, w: 30, h: 40 },
    }
}

#[test]
fn commands_are_known_by_their_first_word() {
    assert!(matches!(command_of(&[]), Command::Run));
    for (word, wanted) in [
        ("doctor", "Doctor"),
        ("connect", "Connect"),
        ("run", "Run"),
        ("-h", "Help"),
        ("--help", "Help"),
        ("help", "Help"),
        ("--version", "Version"),
        ("-V", "Version"),
        ("Run", "Unknown(\"Run\")"),
    ] {
        assert_eq!(format!("{:?}", command_of(&words(&[word, "run"]))), wanted);
    }
}

#[test]
fn named_arguments_have_values() {
    let args = words(&["--check", "--current-version", "1.2", "--current-version", "3"]);
    assert_eq!(argument_value(&args, "--current-version").as_deref(), Some("1.2"));
    assert_eq!(argument_value(&args[3..4], "--current-version"), None);
    assert_eq!(argument_value(&args, "--other"), None);
}

#[test]
fn options_are_parsed() {
    let o = options(&[
        "--type", "hi", "mac", "--control-port", "7010", "--video", "--seconds", "2.5",
        "--click", "1:20:30", "--resize", "2:300:400",
    ])
    .unwrap();
    assert_eq!(o.host, "mac");
    assert_eq!((o.control_port, o.video_port), (7010, Some(7001)));
    assert_eq!(o.seconds.as_deref(), Some("2.5"));
    assert_eq!(o.type_text.as_deref(), Some("hi"));
    assert_eq!(o.click, Some((1, 20, 30)));
    assert_eq!(o.resize, Some((2, 300, 400)));
    let o = options(&["mac", "--video-port", "9", "--video"]).unwrap();
    assert_eq!((o.control_port, o.video_port), (7000, Some(9)));
    assert!(o.seconds.is_none() && o.type_text.is_none());
}

#[test]
fn bad_options_are_named() {
    assert_eq!(refusal(&[]), "missing host (an IP like 192.168.1.20 or 127.0.0.1)");
    assert_eq!(refusal(&["a", "b"]), "unexpected extra argument");
    assert_eq!(refusal(&["--what"]), "unknown option --what");
    assert_eq!(refusal(&["-"]), "unknown option -");
    assert_eq!(refusal(&["a", "--seconds"]), "--seconds needs a value");
    assert_eq!(refusal(&["a", "--seconds", "x"]), "invalid --seconds");
    assert_eq!(refusal(&["a", "--control-port", "70000"]), "invalid --control-port");
    assert_eq!(refusal(&["a", "--video-port", ""]), "invalid --video-port");
    assert_eq!(refusal(&["a", "--click", "1:2"]), "--click expects id:a:b");
    assert_eq!(parse_triple("x:1:1", "--resize").unwrap_err(), "--resize: bad id");
    assert_eq!(parse_triple("1:x:1", "n").unwrap_err(), "n: bad second field");
    assert_eq!(parse_triple("1:1:4294967296", "n").unwrap_err(), "n: bad third field");
    assert_eq!(parse_triple("1:2:3", "n"), Ok((1, 2, 3)));
}

#[test]
fn the_banner_names_both_channels() {
    let o = options(&["mac"]).unwrap();
    assert_eq!(banner(&o), "connecting to mac:7000 (control)");
    let o = options(&["mac", "--video"]).unwrap();
    assert_eq!(banner(&o), "connecting to mac:7000 (control), mac:7001 (video)");
}

#[test]
fn events_are_printed() {
    let source = Rect { x: 5, y: 6, w: 7, h: 8 };
    let lines = [
        (ModelEvent::Connected { vds: Size { w: 3, h: 4 } }, "connected — VDS 3x4"),
        (
            ModelEvent::WindowAdded(window(9, "T")),
            "+ window 9 \"T\" Sheet source (1,2) 30x40",
        ),
        (
            ModelEvent::WindowRectChanged { id: 9, source, size_changed: true },
            "~ window 9 -> (5,6) 7x8 [resized]",
        ),
        (
            ModelEvent::WindowRectChanged { id: 9, source, size_changed: false },
            "~ window 9 -> (5,6) 7x8",
        ),
        (
            ModelEvent::WindowTitleChanged { id: 9, title: "U".into() },
            "~ window 9 title \"U\"",
        ),
        (ModelEvent::WindowFocused { id: 9 }, "* window 9 focused"),
        (ModelEvent::WindowRemoved { id: 9 }, "- window 9 destroyed"),
        (ModelEvent::Resynced { removed: vec![1, 22] }, "resync pruned [1, 22]"),
        (ModelEvent::Resynced { removed: vec![] }, "resync pruned []"),
        (
            ModelEvent::HostError { code: 4, message: "m".into() },
            "! host error 4: m",
        ),
    ];
    for (event, line) in lines {
        assert_eq!(event_line(&event), line);
    }
    assert_eq!(stamped(1_999_999, "x"), "[     1ms] x");
    assert_eq!(stamped(12_345_678 * MILLISECOND, "x"), "[12345678ms] x");
}

#[test]
fn the_mirror_follows_the_windows() {
    let mut m = Mirror::new();
    assert_eq!(m.first(), None);
    m.apply_for_display(&ModelEvent::WindowAdded(window(2, "two")));
    m.apply_for_display(&ModelEvent::WindowAdded(window(1, "one")));
    m.apply_for_display(&ModelEvent::WindowAdded(window(2, "zwei")));
    assert_eq!(m.first(), Some(2));
    assert_eq!(m.title(2), Some("zwei"));
    m.apply_for_display(&ModelEvent::WindowTitleChanged { id: 1, title: "eins".into() });
    m.apply_for_display(&ModelEvent::WindowTitleChanged { id: 7, title: "x".into() });
    m.apply_for_display(&ModelEvent::WindowRemoved { id: 2 });
    assert_eq!((m.first(), m.title(1), m.title(2), m.title(7)), (Some(1), Some("eins"), None, None));
    m.apply_for_display(&ModelEvent::Resynced { removed: vec![1] });
    assert_eq!(m.first(), None);
}

fn key(id: u64, vk: u32, down: bool, ts: u64) -> ClientMessage {
    let event = if down { InputEvent::KeyDown { vk } } else { InputEvent::KeyUp { vk } };
    ClientMessage::Input { id, event, ts }
}

#[test]
fn text_is_typed_key_by_key() {
    let (messages, skipped) = send_text(3, "a€B", 8);
    assert_eq!(skipped, ['€']);
    assert_eq!(
        messages,
        [
            key(3, 0x41, true, 8),
            key(3, 0x41, false, 8),
            key(3, VK_SHIFT, true, 8),
            key(3, 0x42, true, 8),
            key(3, 0x42, false, 8),
            key(3, VK_SHIFT, false, 8),
        ]
    );
}

#[test]
fn clicks_press_and_release() {
    let button = MouseButton::Left;
    let down = InputEvent::MouseDown { x: 5, y: 6, button };
    let up = InputEvent::MouseUp { x: 5, y: 6, button };
    assert_eq!(
        send_click(3, 5, 6, 8),
        [
            ClientMessage::Input { id: 3, event: down, ts: 8 },
            ClientMessage::Input { id: 3, event: up, ts: 8 },
        ]
    );
}

#[test]
fn resizes_go_through_every_phase() {
    let action = Action::Resize { id: 3, w: 10, h: 20 };
    let size = Size { w: 10, h: 20 };
    assert_eq!(
        action.messages(0),
        [
            ClientMessage::RequestResize { id: 3, size, phase: ResizePhase::Begin },
            ClientMessage::RequestResize { id: 3, size, phase: ResizePhase::Live },
            ClientMessage::RequestResize { id: 3, size, phase: ResizePhase::End },
        ]
    );
    assert_eq!(
        action_line(&action, "", "T"),
        "-> requestResize 3 \"T\" to 10x20 (begin/live/end)"
    );
    assert_eq!(action_line(&Action::Focus { id: 3 }, "", ""), "-> requestFocus 3");
    assert_eq!(
        action_line(&Action::Click { id: 3, x: 1, y: 2 }, "", ""),
        "-> click window 3 at (1,2)"
    );
    assert_eq!(
        action_line(&Action::Type { id: 3, text: "a\"".into() }, &format!("{:?}", "a\""), ""),
        "-> typed \"a\\\"\" into window 3"
    );
}

fn outputs(runner: &mut Runner, event: RunnerEvent, now: u64) -> Vec<String> {
    runner
        .step(&event, now)
        .iter()
        .map(|output| match output {
            RunnerOutput::Line(line) => line.clone(),
            other => format!("{other:?}"),
        })
        .collect()
}

#[test]
fn test_actions_come_once_when_a_window_is_known() {
    let mut runner =
        Runner::new(options(&["mac", "--type", "x", "--click", "4:1:2"]).unwrap());
    assert!(outputs(&mut runner, RunnerEvent::Quiet, 0).is_empty());
    let lines = outputs(&mut runner, RunnerEvent::Control(ModelEvent::WindowAdded(window(9, "T"))), 0);
    assert_eq!(
        lines,
        [
            "[     0ms] + window 9 \"T\" Sheet source (1,2) 30x40",
            "Act(Focus { id: 9 })",
            "Act(Click { id: 4, x: 1, y: 2 })",
            "Act(Type { id: 9, text: \"x\" })",
        ]
    );
    assert_eq!(runner.title(9), Some("T"));
    assert!(outputs(&mut runner, RunnerEvent::Quiet, 1).is_empty());
}

#[test]
fn video_is_reported_once_a_second() {
    let mut runner = Runner::new(options(&["mac"]).unwrap());
    assert_eq!(
        outputs(&mut runner, RunnerEvent::VideoConfig { len: 50 }, 0),
        ["[     0ms] video: hvcC config, 50 bytes (decoder can now start)"]
    );
    let frame = |seq, len| RunnerEvent::VideoFrame { seq, keyframe: seq == 1, len };
    assert!(outputs(&mut runner, frame(1, 100), 999 * MILLISECOND).is_empty());
    assert_eq!(
        outputs(&mut runner, frame(2, 11), 1000 * MILLISECOND),
        ["VideoRate { frames: 2, bytes: 111, nanos: 1000000000, seq: 2, keyframe: false }"]
    );
    assert!(outputs(&mut runner, frame(3, 5), 1999 * MILLISECOND).is_empty());
    assert_eq!(
        outputs(&mut runner, frame(4, 5), 2000 * MILLISECOND),
        ["VideoRate { frames: 4, bytes: 10, nanos: 1000000000, seq: 4, keyframe: false }"]
    );
}

#[test]
fn a_closed_control_channel_ends_the_run() {
    let mut runner = Runner::new(options(&["mac"]).unwrap());
    assert_eq!(
        outputs(&mut runner, RunnerEvent::VideoClosed(None), 0),
        ["[     0ms] video channel closed"]
    );
    assert_eq!(
        outputs(&mut runner, RunnerEvent::ControlClosed(Some("gone".into())), 0),
        ["[     0ms] control channel closed: gone", "Stop"]
    );
    assert_eq!(
        outputs(&mut runner, RunnerEvent::Ended, 0),
        ["[     0ms] session ended", "Stop"]
    );
}

#[test]
fn a_run_ends_when_its_time_is_over() {
    assert!(!time_over(None, u64::MAX));
    assert!(!time_over(Some(5), 4));
    assert!(time_over(Some(5), 5));
    let mut runner = Runner::new(options(&["mac"]).unwrap());
    assert_eq!(
        outputs(&mut runner, RunnerEvent::TimeOver, 7 * MILLISECOND),
        ["[     7ms] duration elapsed, closing", "Stop"]
    );
}
