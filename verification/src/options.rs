//! The options of the headless runner.

use vstd::prelude::*;

use crate::text::owned;
use crate::text::parse_unsigned;
use crate::text::parts_notes;
use crate::text::same_text;
use crate::text::split_parts;
use crate::text::split_text;
use crate::text::unsigned_text;
use crate::wire::DEFAULT_CONTROL_PORT;
use crate::wire::DEFAULT_VIDEO_PORT;

verus! {

/// Parsed `connect` options.
pub struct Options {
    pub host: String,
    pub control_port: u16,
    pub video_port: Option<u16>,
    /// How long to run, as it was given: the text of a decimal fraction.
    pub seconds: Option<String>,
    pub type_text: Option<String>,
    pub click: Option<(u64, u32, u32)>,
    pub resize: Option<(u64, u32, u32)>,
}

/// What the options given so far say.
pub struct OptionsNote {
    pub host: Option<Seq<char>>,
    pub control_port: u16,
    pub video_port: Option<u16>,
    pub seconds: Option<Seq<char>>,
    pub type_text: Option<Seq<char>>,
    pub click: Option<(u64, u32, u32)>,
    pub resize: Option<(u64, u32, u32)>,
}

pub open spec fn optional_text(text: Option<String>) -> Option<Seq<char>> {
    match text {
        Some(text) => Some(text@),
        None => None,
    }
}

impl Options {
    pub open spec fn view(&self) -> OptionsNote {
        OptionsNote {
            host: Some(self.host@),
            control_port: self.control_port,
            video_port: self.video_port,
            seconds: optional_text(self.seconds),
            type_text: optional_text(self.type_text),
            click: self.click,
            resize: self.resize,
        }
    }
}

/// The three numbers of an `id:a:b` text, or what is wrong with it.
pub open spec fn triple_in(text: Seq<char>, name: Seq<char>) -> Result<(u64, u32, u32), Seq<char>> {
    let parts = split_text(text, ':');
    if parts.len() != 3 {
        Err(name + " expects id:a:b"@)
    } else {
        match unsigned_text(parts[0], u64::MAX as nat) {
            None => Err(name + ": bad id"@),
            Some(id) => match unsigned_text(parts[1], u32::MAX as nat) {
                None => Err(name + ": bad second field"@),
                Some(a) => match unsigned_text(parts[2], u32::MAX as nat) {
                    None => Err(name + ": bad third field"@),
                    Some(b) => Ok((id as u64, a as u32, b as u32)),
                },
            },
        }
    }
}

/// No options yet.
pub open spec fn no_options() -> OptionsNote {
    OptionsNote {
        host: None,
        control_port: DEFAULT_CONTROL_PORT,
        video_port: None,
        seconds: None,
        type_text: None,
        click: None,
        resize: None,
    }
}

/// What one option changes, given its argument, which is missing at the end of the
/// line. `fraction` says whether the argument reads as a decimal fraction.
pub open spec fn with_option(
    o: OptionsNote,
    name: Seq<char>,
    value: Option<Seq<char>>,
    fraction: bool,
) -> Result<OptionsNote, Seq<char>> {
    match value {
        None => Err(name + " needs a value"@),
        Some(value) => if name == "--control-port"@ {
            match unsigned_text(value, 65535) {
                Some(n) => Ok(OptionsNote { control_port: n as u16, ..o }),
                None => Err("invalid --control-port"@),
            }
        } else if name == "--video-port"@ {
            match unsigned_text(value, 65535) {
                Some(n) => Ok(OptionsNote { video_port: Some(n as u16), ..o }),
                None => Err("invalid --video-port"@),
            }
        } else if name == "--seconds"@ {
            if fraction {
                Ok(OptionsNote { seconds: Some(value), ..o })
            } else {
                Err("invalid --seconds"@)
            }
        } else if name == "--type"@ {
            Ok(OptionsNote { type_text: Some(value), ..o })
        } else if name == "--click"@ {
            match triple_in(value, name) {
                Ok(triple) => Ok(OptionsNote { click: Some(triple), ..o }),
                Err(e) => Err(e),
            }
        } else {
            match triple_in(value, name) {
                Ok(triple) => Ok(OptionsNote { resize: Some(triple), ..o }),
                Err(e) => Err(e),
            }
        },
    }
}

/// Whether an option takes an argument.
pub open spec fn takes_value(name: Seq<char>) -> bool {
    ||| name == "--control-port"@
    ||| name == "--video-port"@
    ||| name == "--seconds"@
    ||| name == "--type"@
    ||| name == "--click"@
    ||| name == "--resize"@
}

/// What the arguments from `i` on add to the options `o`, or what is wrong with the
/// first bad one.
pub open spec fn options_from(
    args: Seq<Seq<char>>,
    fractions: Seq<bool>,
    i: int,
    o: OptionsNote,
) -> Result<OptionsNote, Seq<char>>
    decreases args.len() - i,
{
    if i < 0 || i >= args.len() {
        Ok(o)
    } else {
        let arg = args[i];
        if takes_value(arg) {
            let value = if i + 1 < args.len() {
                Some(args[i + 1])
            } else {
                None
            };
            match with_option(o, arg, value, i + 1 < args.len() && fractions[i + 1]) {
                Ok(next) => options_from(args, fractions, i + 2, next),
                Err(e) => Err(e),
            }
        } else if arg == "--video"@ {
            options_from(
                args,
                fractions,
                i + 1,
                OptionsNote {
                    video_port: match o.video_port {
                        Some(port) => Some(port),
                        None => Some(DEFAULT_VIDEO_PORT),
                    },
                    ..o
                },
            )
        } else if arg.len() > 0 && arg[0] == '-' {
            Err("unknown option "@ + arg)
        } else if o.host is Some {
            Err("unexpected extra argument"@)
        } else {
            options_from(args, fractions, i + 1, OptionsNote { host: Some(arg), ..o })
        }
    }
}

/// The options that an argument list gives, or what is wrong with it.
pub open spec fn options_in(args: Seq<Seq<char>>, fractions: Seq<bool>) -> Result<
    OptionsNote,
    Seq<char>,
> {
    match options_from(args, fractions, 0, no_options()) {
        Err(e) => Err(e),
        Ok(o) => if o.host is None {
            Err("missing host (an IP like 192.168.1.20 or 127.0.0.1)"@)
        } else {
            Ok(o)
        },
    }
}

/// Parse an `id:a:b` triple used by --click (id:x:y) and --resize (id:w:h).
pub fn parse_triple(s: &str, name: &str) -> (result: Result<(u64, u32, u32), String>)
    ensures
        match result {
            Ok(triple) => triple_in(s@, name@) == Ok::<(u64, u32, u32), Seq<char>>(triple),
            Err(e) => triple_in(s@, name@) == Err::<(u64, u32, u32), Seq<char>>(e@),
        },
{
    let parts = split_parts(s, ':');
    let ghost notes = parts_notes(parts@);
    if parts.len() != 3 {
        return Err(owned(name).concat(" expects id:a:b"));
    }
    proof {
        assert(notes[0] == parts@[0]@ && notes[1] == parts@[1]@ && notes[2] == parts@[2]@);
    }
    let id: u64 = match parse_unsigned(parts[0].as_str(), u64::MAX) {
        Some(id) => id,
        None => {
            return Err(owned(name).concat(": bad id"));
        },
    };
    let a: u32 = match parse_unsigned(parts[1].as_str(), u32::MAX as u64) {
        Some(a) => a as u32,
        None => {
            return Err(owned(name).concat(": bad second field"));
        },
    };
    let b: u32 = match parse_unsigned(parts[2].as_str(), u32::MAX as u64) {
        Some(b) => b as u32,
        None => {
            return Err(owned(name).concat(": bad third field"));
        },
    };
    Ok((id, a, b))
}

/// The options given so far.
struct Draft {
    host: Option<String>,
    control_port: u16,
    video_port: Option<u16>,
    seconds: Option<String>,
    type_text: Option<String>,
    click: Option<(u64, u32, u32)>,
    resize: Option<(u64, u32, u32)>,
}

/// The argument behind the option `name`, which stands at `i`.
fn take(args: &[String], i: usize, name: &str) -> (result: Result<String, String>)
    requires
        i < args@.len(),
    ensures
        match result {
            Ok(value) => i + 1 < args@.len() && value@ == args@[i + 1]@,
            Err(e) => i + 1 == args@.len() && e@ == name@ + " needs a value"@,
        },
{
    if args.len() - i > 1 {
        Ok(args[i + 1].clone())
    } else {
        Err(owned(name).concat(" needs a value"))
    }
}

impl Draft {
    spec fn view(&self) -> OptionsNote {
        OptionsNote {
            host: optional_text(self.host),
            control_port: self.control_port,
            video_port: self.video_port,
            seconds: optional_text(self.seconds),
            type_text: optional_text(self.type_text),
            click: self.click,
            resize: self.resize,
        }
    }

    fn set(&mut self, name: &str, value: String, fraction: bool) -> (result: Result<(), String>)
        requires
            takes_value(name@),
        ensures
            match result {
                Ok(()) => with_option(old(self)@, name@, Some(value@), fraction) == Ok::<
                    OptionsNote,
                    Seq<char>,
                >(final(self)@),
                Err(e) => with_option(old(self)@, name@, Some(value@), fraction) == Err::<
                    OptionsNote,
                    Seq<char>,
                >(e@),
            },
    {
        if same_text(name, "--control-port") {
            match parse_unsigned(value.as_str(), 65535) {
                Some(n) => {
                    self.control_port = n as u16;
                },
                None => {
                    return Err(owned("invalid --control-port"));
                },
            }
        } else if same_text(name, "--video-port") {
            match parse_unsigned(value.as_str(), 65535) {
                Some(n) => {
                    self.video_port = Some(n as u16);
                },
                None => {
                    return Err(owned("invalid --video-port"));
                },
            }
        } else if same_text(name, "--seconds") {
            if !fraction {
                return Err(owned("invalid --seconds"));
            }
            self.seconds = Some(value);
        } else if same_text(name, "--type") {
            self.type_text = Some(value);
        } else if same_text(name, "--click") {
            self.click = Some(parse_triple(value.as_str(), name)?);
        } else {
            self.resize = Some(parse_triple(value.as_str(), name)?);
        }
        Ok(())
    }
}

fn is_valued(name: &str) -> (valued: bool)
    ensures
        valued == takes_value(name@),
{
    same_text(name, "--control-port") || same_text(name, "--video-port") || same_text(
        name,
        "--seconds",
    ) || same_text(name, "--type") || same_text(name, "--click") || same_text(name, "--resize")
}

pub(crate) fn is_dashed(arg: &str) -> (dashed: bool)
    ensures
        dashed == (arg@.len() > 0 && arg@[0] == '-'),
{
    !arg.is_empty() && arg.get_char(0) == '-'
}

/// Parse the arguments behind `connect`. `fractions` tells of each argument whether
/// it reads as a decimal fraction.
pub fn parse(args: &[String], fractions: &[bool]) -> (result: Result<Options, String>)
    requires
        fractions@.len() == args@.len(),
    ensures
        match result {
            Ok(options) => options_in(parts_notes(args@), fractions@) == Ok::<
                OptionsNote,
                Seq<char>,
            >(options@),
            Err(e) => options_in(parts_notes(args@), fractions@) == Err::<OptionsNote, Seq<char>>(
                e@,
            ),
        },
{
    let ghost all = parts_notes(args@);
    let mut draft = Draft {
        host: None,
        control_port: DEFAULT_CONTROL_PORT,
        video_port: None,
        seconds: None,
        type_text: None,
        click: None,
        resize: None,
    };
    let mut i: usize = 0;
    while i < args.len()
        invariant
            i <= args@.len(),
            all == parts_notes(args@),
            fractions@.len() == args@.len(),
            options_from(all, fractions@, 0, no_options()) == options_from(
                all,
                fractions@,
                i as int,
                draft@,
            ),
        decreases args@.len() - i,
    {
        let arg = args[i].as_str();
        proof {
            assert(all[i as int] == arg@);
            if i + 1 < args@.len() {
                assert(all[i + 1] == args@[i + 1]@);
            }
        }
        if is_valued(arg) {
            let value = take(args, i, arg)?;
            draft.set(arg, value, fractions[i + 1])?;
            i += 2;
        } else if same_text(arg, "--video") {
            if draft.video_port.is_none() {
                draft.video_port = Some(DEFAULT_VIDEO_PORT);
            }
            i += 1;
        } else if is_dashed(arg) {
            return Err(String::from_str("unknown option ").concat(arg));
        } else {
            if draft.host.is_some() {
                return Err(owned("unexpected extra argument"));
            }
            draft.host = Some(owned(arg));
            i += 1;
        }
    }
    match draft.host {
        Some(host) => Ok(
            Options {
                host,
                control_port: draft.control_port,
                video_port: draft.video_port,
                seconds: draft.seconds,
                type_text: draft.type_text,
                click: draft.click,
                resize: draft.resize,
            },
        ),
        None => Err(owned("missing host (an IP like 192.168.1.20 or 127.0.0.1)")),
    }
}

} // verus!
