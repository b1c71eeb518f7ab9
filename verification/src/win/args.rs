//! The options of the window manager.

use vstd::prelude::*;

use crate::connections::manual_note;
use crate::connections::Connection;
use crate::options::is_dashed;
use crate::options::optional_text;
use crate::text::decimal;
use crate::text::owned;
use crate::text::parse_unsigned;
use crate::text::parts_notes;
use crate::text::same_text;
use crate::text::unsigned_text;
use crate::text::unsigned_to_text;
use crate::win::app::port_words;
use crate::win::app::AppConfig;
use crate::win::app::ConfigNote;
use crate::wire::DEFAULT_CONTROL_PORT;
use crate::wire::DEFAULT_VIDEO_PORT;

verus! {

/// What the arguments read so far say.
pub struct ArgsNote {
    pub host: Option<Seq<char>>,
    pub control_port: u16,
    pub video_port: Option<u16>,
    pub checkerboard: bool,
}

/// Nothing given: video is off until an option asks for it, and every window shows the
/// placeholder.
pub open spec fn no_args() -> ArgsNote {
    ArgsNote {
        host: None,
        control_port: DEFAULT_CONTROL_PORT,
        video_port: None,
        checkerboard: false,
    }
}

/// What the arguments from `i` on add to `a`, or what is wrong with the first bad one.
pub open spec fn args_from(args: Seq<Seq<char>>, i: int, a: ArgsNote) -> Result<
    ArgsNote,
    Seq<char>,
>
    decreases args.len() - i,
{
    if i < 0 || i >= args.len() {
        Ok(a)
    } else {
        let arg = args[i];
        if arg == "--control-port"@ {
            if i + 1 >= args.len() {
                Err("--control-port needs a value"@)
            } else {
                match unsigned_text(args[i + 1], 65535) {
                    None => Err("invalid --control-port"@),
                    Some(n) => args_from(
                        args,
                        i + 2,
                        ArgsNote { control_port: n as u16, ..a },
                    ),
                }
            }
        } else if arg == "--video"@ {
            args_from(
                args,
                i + 1,
                ArgsNote {
                    video_port: if a.video_port is Some {
                        a.video_port
                    } else {
                        Some(DEFAULT_VIDEO_PORT)
                    },
                    ..a
                },
            )
        } else if arg == "--no-video"@ {
            args_from(args, i + 1, ArgsNote { video_port: None, ..a })
        } else if arg == "--video-port"@ {
            if i + 1 >= args.len() {
                Err("--video-port needs a value"@)
            } else {
                match unsigned_text(args[i + 1], 65535) {
                    None => Err("invalid --video-port"@),
                    Some(n) => args_from(
                        args,
                        i + 2,
                        ArgsNote { video_port: Some(n as u16), ..a },
                    ),
                }
            }
        } else if arg == "--checkerboard"@ {
            args_from(args, i + 1, ArgsNote { checkerboard: true, ..a })
        } else if arg.len() > 0 && arg[0] == '-' {
            Err("unknown option "@ + arg)
        } else if a.host is Some {
            Err("unexpected extra argument"@)
        } else {
            args_from(args, i + 1, ArgsNote { host: Some(arg), ..a })
        }
    }
}

/// The text of a video port, empty where video is off.
pub open spec fn port_text(port: Option<u16>) -> Seq<char> {
    match port {
        Some(port) => decimal(port as nat),
        None => Seq::empty(),
    }
}

/// The configuration that an argument list gives, or what is wrong with it. The
/// endpoint has to be one that can be connected to.
pub open spec fn config_in(args: Seq<Seq<char>>) -> Result<ConfigNote, Seq<char>> {
    match args_from(args, 0, no_args()) {
        Err(e) => Err(e),
        Ok(a) => match a.host {
            None => Err("missing Mac hostname or IP address"@),
            Some(host) => match manual_note(
                host,
                decimal(a.control_port as nat),
                port_text(a.video_port),
            ) {
                Err(e) => Err(e),
                Ok(c) => Ok(
                    ConfigNote {
                        host,
                        control_port: a.control_port,
                        video_port: a.video_port,
                        checkerboard: a.checkerboard,
                    },
                ),
            },
        },
    }
}

/// Whether the dashboard opens without an endpoint.
pub open spec fn is_interactive(args: Seq<Seq<char>>) -> bool {
    args.len() == 0 || (args.len() == 1 && args[0] == "--interactive"@)
}

fn port_value(args: &[String], i: usize, missing: &str, invalid: &str) -> (port: Result<
    u16,
    String,
>)
    requires
        i < args@.len(),
    ensures
        match port {
            Ok(port) => i + 1 < args@.len() && unsigned_text(args@[i + 1]@, 65535) == Some(
                port as nat,
            ),
            Err(e) => if i + 1 >= args@.len() {
                e@ == missing@
            } else {
                e@ == invalid@ && unsigned_text(args@[i + 1]@, 65535) is None
            },
        },
{
    if args.len() - i <= 1 {
        return Err(owned(missing));
    }
    match parse_unsigned(args[i + 1].as_str(), 65535) {
        Some(n) => Ok(n as u16),
        None => Err(owned(invalid)),
    }
}

/// Parse the arguments behind `run`.
pub fn parse(args: &[String]) -> (result: Result<AppConfig, String>)
    ensures
        match result {
            Ok(config) => config_in(parts_notes(args@)) == Ok::<ConfigNote, Seq<char>>(config@),
            Err(e) => config_in(parts_notes(args@)) == Err::<ConfigNote, Seq<char>>(e@),
        },
{
    let ghost all = parts_notes(args@);
    let mut host: Option<String> = None;
    let mut control_port: u16 = DEFAULT_CONTROL_PORT;
    let mut video_port: Option<u16> = None;
    let mut checkerboard = false;
    let mut i: usize = 0;
    while i < args.len()
        invariant
            i <= args@.len(),
            all == parts_notes(args@),
            args_from(all, 0, no_args()) == args_from(
                all,
                i as int,
                (ArgsNote {
                    host: optional_text(host),
                    control_port,
                    video_port,
                    checkerboard,
                }),
            ),
        decreases args@.len() - i,
    {
        let arg = args[i].as_str();
        proof {
            assert(all[i as int] == arg@);
            if i + 1 < args@.len() {
                assert(all[i + 1] == args@[i + 1]@);
            }
        }
        if same_text(arg, "--control-port") {
            control_port =
            port_value(args, i, "--control-port needs a value", "invalid --control-port")?;
            i += 1;
        } else if same_text(arg, "--video") {
            if video_port.is_none() {
                video_port = Some(DEFAULT_VIDEO_PORT);
            }
        } else if same_text(arg, "--no-video") {
            video_port = None;
        } else if same_text(arg, "--video-port") {
            let port: u16 = port_value(
                args,
                i,
                "--video-port needs a value",
                "invalid --video-port",
            )?;
            video_port = Some(port);
            i += 1;
        } else if same_text(arg, "--checkerboard") {
            checkerboard = true;
        } else if is_dashed(arg) {
            return Err(String::from_str("unknown option ").concat(arg));
        } else {
            if host.is_some() {
                return Err(owned("unexpected extra argument"));
            }
            host = Some(owned(arg));
        }
        i += 1;
    }
    match host {
        None => Err(owned("missing Mac hostname or IP address")),
        Some(host) => match Connection::manual(
            host.as_str(),
            unsigned_to_text(control_port as u64).as_str(),
            port_words(video_port).as_str(),
        ) {
            Ok(connection) => Ok(AppConfig { host, control_port, video_port, checkerboard }),
            Err(e) => Err(e),
        },
    }
}

/// The configuration to start with: none if the dashboard opens without an endpoint.
pub fn startup(args: &[String]) -> (result: Result<Option<AppConfig>, String>)
    ensures
        match result {
            Ok(None) => is_interactive(parts_notes(args@)),
            Ok(Some(config)) => {
                &&& !is_interactive(parts_notes(args@))
                &&& config_in(parts_notes(args@)) == Ok::<ConfigNote, Seq<char>>(config@)
            },
            Err(e) => {
                &&& !is_interactive(parts_notes(args@))
                &&& config_in(parts_notes(args@)) == Err::<ConfigNote, Seq<char>>(e@)
            },
        },
{
    proof {
        if args@.len() == 1 {
            assert(parts_notes(args@)[0] == args@[0]@);
        }
    }
    if args.len() == 0 || (args.len() == 1 && same_text(args[0].as_str(), "--interactive")) {
        return Ok(None);
    }
    match parse(args) {
        Ok(config) => Ok(Some(config)),
        Err(e) => Err(e),
    }
}

} // verus!
