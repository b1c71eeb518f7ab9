//! What the command line promises, said of lines that are put together option by option.

use vstd::prelude::*;

use crate::cli::command_in;
use crate::cli::value_after;
use crate::cli::CommandNote;
use crate::connections::manual_note;
use crate::options::options_from;
use crate::options::options_in;
use crate::options::triple_in;
use crate::options::OptionsNote;
use crate::text::decimal;
use crate::text::is_digit;
use crate::text::law_decimal_reads_back;
use crate::text::lemma_decimal_is_digits;
use crate::text::split_text;
use crate::win::app::ConfigNote;
use crate::win::args::args_from;
use crate::win::args::config_in;
use crate::win::args::ArgsNote;

verus! {

// --- cutting at a separator ------------------------------------------------

/// A text without the separator is one part, and each separator starts another part.
pub proof fn law_texts_are_cut_at_separators(text: Seq<char>, part: Seq<char>, c: char)
    requires
        !part.contains(c),
    ensures
        split_text(part, c) == seq![part],
        split_text(text + seq![c] + part, c) == split_text(text, c).push(part),
    decreases part.len(),
{
    let all = text + seq![c] + part;
    if part.len() == 0 {
        assert(part =~= Seq::<char>::empty());
        assert(all.drop_last() =~= text);
        assert(all.last() == c);
    } else {
        let front = part.drop_last();
        assert(!front.contains(c)) by {
            if front.contains(c) {
                let i = choose|i: int| 0 <= i < front.len() && front[i] == c;
                assert(part[i] == c);
            }
        }
        assert(part.contains(part.last()));
        law_texts_are_cut_at_separators(text, front, c);
        assert(all.drop_last() =~= text + seq![c] + front);
        assert(front.push(part.last()) =~= part);
        assert(seq![front].drop_last().push(part) =~= seq![part]);
        let parts = split_text(text, c);
        assert(parts.push(front).drop_last().push(part) =~= parts.push(part));
    }
}

/// Three numbers with colons between them, as an option takes them.
pub open spec fn triple_text(triple: (u64, u32, u32)) -> Seq<char> {
    decimal(triple.0 as nat) + seq![':'] + decimal(triple.1 as nat) + seq![':'] + decimal(
        triple.2 as nat,
    )
}

proof fn lemma_no_colon(n: nat)
    ensures
        !decimal(n).contains(':'),
{
    lemma_decimal_is_digits(n);
    if decimal(n).contains(':') {
        let i = choose|i: int| 0 <= i < decimal(n).len() && decimal(n)[i] == ':';
        assert(is_digit(decimal(n)[i]));
    }
}

/// Three numbers with colons between them read as those numbers, in that order.
pub proof fn law_triples_read_back(triple: (u64, u32, u32), name: Seq<char>)
    ensures
        triple_in(triple_text(triple), name) == Ok::<(u64, u32, u32), Seq<char>>(triple),
{
    let id = decimal(triple.0 as nat);
    let a = decimal(triple.1 as nat);
    let b = decimal(triple.2 as nat);
    lemma_no_colon(triple.0 as nat);
    lemma_no_colon(triple.1 as nat);
    lemma_no_colon(triple.2 as nat);
    law_texts_are_cut_at_separators(id, id, ':');
    law_texts_are_cut_at_separators(id, a, ':');
    law_texts_are_cut_at_separators(id + seq![':'] + a, b, ':');
    assert(split_text(triple_text(triple), ':') =~= seq![id, a, b]);
    law_decimal_reads_back(triple.0 as nat, u64::MAX as nat);
    law_decimal_reads_back(triple.1 as nat, u32::MAX as nat);
    law_decimal_reads_back(triple.2 as nat, u32::MAX as nat);
}

// --- the headless runner ---------------------------------------------------

/// Something given on the line of the headless runner.
pub enum Given {
    Host { text: Seq<char> },
    ControlPort { port: u16 },
    VideoPort { port: u16 },
    Video,
    Seconds { text: Seq<char> },
    Typed { text: Seq<char> },
    Click { triple: (u64, u32, u32) },
    Resize { triple: (u64, u32, u32) },
}

impl Given {
    /// The words on the line.
    pub open spec fn words(self) -> Seq<Seq<char>> {
        match self {
            Given::Host { text } => seq![text],
            Given::ControlPort { port } => seq!["--control-port"@, decimal(port as nat)],
            Given::VideoPort { port } => seq!["--video-port"@, decimal(port as nat)],
            Given::Video => seq!["--video"@],
            Given::Seconds { text } => seq!["--seconds"@, text],
            Given::Typed { text } => seq!["--type"@, text],
            Given::Click { triple } => seq!["--click"@, triple_text(triple)],
            Given::Resize { triple } => seq!["--resize"@, triple_text(triple)],
        }
    }
}

/// All words on the line, in order.
pub open spec fn line(given: Seq<Given>) -> Seq<Seq<char>>
    decreases given.len(),
{
    if given.len() == 0 {
        Seq::empty()
    } else {
        given[0].words() + line(given.skip(1))
    }
}

/// Whether hosts do not look like options, and every time that is given reads as a
/// decimal fraction.
pub open spec fn are_readable(given: Seq<Given>, fractions: Seq<bool>) -> bool
    decreases given.len(),
{
    given.len() > 0 ==> {
        &&& match given[0] {
            Given::Host { text } => text.len() > 0 ==> text[0] != '-',
            Given::Seconds { text } => fractions[1],
            _ => true,
        }
        &&& are_readable(given.skip(1), fractions.skip(given[0].words().len() as int))
    }
}

/// The hosts on the line.
pub open spec fn hosts(given: Seq<Given>) -> Seq<Seq<char>>
    decreases given.len(),
{
    if given.len() == 0 {
        Seq::empty()
    } else {
        match given[0] {
            Given::Host { text } => seq![text] + hosts(given.skip(1)),
            _ => hosts(given.skip(1)),
        }
    }
}

/// The last control port on the line, or else `port`.
pub open spec fn last_control_port(given: Seq<Given>, port: u16) -> u16
    decreases given.len(),
{
    if given.len() == 0 {
        port
    } else {
        match given[0] {
            Given::ControlPort { port: named } => last_control_port(given.skip(1), named),
            _ => last_control_port(given.skip(1), port),
        }
    }
}

/// The last video port on the line, or else `port`; asking for video without a port
/// gives 7001 where there is none yet.
pub open spec fn last_video_port(given: Seq<Given>, port: Option<u16>) -> Option<u16>
    decreases given.len(),
{
    if given.len() == 0 {
        port
    } else {
        match given[0] {
            Given::VideoPort { port: named } => last_video_port(given.skip(1), Some(named)),
            Given::Video if port is None => last_video_port(given.skip(1), Some(7001)),
            _ => last_video_port(given.skip(1), port),
        }
    }
}

/// The last time on the line.
pub open spec fn last_seconds(given: Seq<Given>, text: Option<Seq<char>>) -> Option<Seq<char>>
    decreases given.len(),
{
    if given.len() == 0 {
        text
    } else {
        match given[0] {
            Given::Seconds { text: named } => last_seconds(given.skip(1), Some(named)),
            _ => last_seconds(given.skip(1), text),
        }
    }
}

/// The last text to type on the line.
pub open spec fn last_typed(given: Seq<Given>, text: Option<Seq<char>>) -> Option<Seq<char>>
    decreases given.len(),
{
    if given.len() == 0 {
        text
    } else {
        match given[0] {
            Given::Typed { text: named } => last_typed(given.skip(1), Some(named)),
            _ => last_typed(given.skip(1), text),
        }
    }
}

/// The last click on the line.
pub open spec fn last_click(given: Seq<Given>, triple: Option<(u64, u32, u32)>) -> Option<
    (u64, u32, u32),
>
    decreases given.len(),
{
    if given.len() == 0 {
        triple
    } else {
        match given[0] {
            Given::Click { triple: named } => last_click(given.skip(1), Some(named)),
            _ => last_click(given.skip(1), triple),
        }
    }
}

/// The last resize on the line.
pub open spec fn last_resize(given: Seq<Given>, triple: Option<(u64, u32, u32)>) -> Option<
    (u64, u32, u32),
>
    decreases given.len(),
{
    if given.len() == 0 {
        triple
    } else {
        match given[0] {
            Given::Resize { triple: named } => last_resize(given.skip(1), Some(named)),
            _ => last_resize(given.skip(1), triple),
        }
    }
}

proof fn lemma_names()
    ensures
        "--control-port"@.len() == 14 && "--control-port"@[0] == '-' && "--control-port"@[3] == 'o',
        "--checkerboard"@.len() == 14 && "--checkerboard"@[0] == '-' && "--checkerboard"@[3] == 'h',
        "--video-port"@.len() == 12 && "--video-port"@[0] == '-',
        "--no-video"@.len() == 10 && "--no-video"@[0] == '-',
        "--seconds"@.len() == 9 && "--seconds"@[0] == '-',
        "--resize"@.len() == 8 && "--resize"@[0] == '-',
        "--video"@.len() == 7 && "--video"@[0] == '-' && "--video"@[2] == 'v',
        "--click"@.len() == 7 && "--click"@[0] == '-' && "--click"@[2] == 'c',
        "--type"@.len() == 6 && "--type"@[0] == '-',
{
    reveal_strlit("--control-port");
    reveal_strlit("--checkerboard");
    reveal_strlit("--video-port");
    reveal_strlit("--no-video");
    reveal_strlit("--seconds");
    reveal_strlit("--resize");
    reveal_strlit("--video");
    reveal_strlit("--click");
    reveal_strlit("--type");
}

proof fn lemma_line(
    args: Seq<Seq<char>>,
    fractions: Seq<bool>,
    pos: int,
    given: Seq<Given>,
    o: OptionsNote,
)
    requires
        0 <= pos <= args.len(),
        args.len() == fractions.len(),
        args.skip(pos) == line(given),
        are_readable(given, fractions.skip(pos)),
    ensures
        ({
            let n = hosts(given).len() + if o.host is Some {
                1int
            } else {
                0
            };
            if n > 1 {
                options_from(args, fractions, pos, o) == Err::<OptionsNote, Seq<char>>(
                    "unexpected extra argument"@,
                )
            } else {
                options_from(args, fractions, pos, o) == Ok::<OptionsNote, Seq<char>>(
                    OptionsNote {
                        host: if hosts(given).len() > 0 {
                            Some(hosts(given)[0])
                        } else {
                            o.host
                        },
                        control_port: last_control_port(given, o.control_port),
                        video_port: last_video_port(given, o.video_port),
                        seconds: last_seconds(given, o.seconds),
                        type_text: last_typed(given, o.type_text),
                        click: last_click(given, o.click),
                        resize: last_resize(given, o.resize),
                    },
                )
            }
        }),
    decreases given.len(),
{
    if given.len() > 0 {
        let first = given[0];
        let rest = given.skip(1);
        let n = first.words().len() as int;
        lemma_names();
        assert(n >= 1);
        assert(args.skip(pos).len() == args.len() - pos);
        assert(args.skip(pos).len() >= n);
        assert(args.skip(pos)[0] == args[pos]);
        assert(args[pos] == first.words()[0]);
        assert(args.skip(pos + n) =~= line(rest)) by {
            assert(args.skip(pos + n) =~= args.skip(pos).skip(n));
            assert(line(given).skip(n) =~= line(rest));
        }
        assert(fractions.skip(pos).skip(n) =~= fractions.skip(pos + n));
        if n == 2 {
            assert(args.skip(pos)[1] == args[pos + 1]);
            assert(args[pos + 1] == first.words()[1]);
            assert(fractions.skip(pos)[1] == fractions[pos + 1]);
        }
        match first {
            Given::Host { text } => {
                if o.host is None {
                    lemma_line(
                        args,
                        fractions,
                        pos + 1,
                        rest,
                        OptionsNote { host: Some(text), ..o },
                    );
                }
            },
            Given::ControlPort { port } => {
                law_decimal_reads_back(port as nat, 65535);
                lemma_line(args, fractions, pos + 2, rest, OptionsNote { control_port: port, ..o });
            },
            Given::VideoPort { port } => {
                law_decimal_reads_back(port as nat, 65535);
                lemma_line(
                    args,
                    fractions,
                    pos + 2,
                    rest,
                    OptionsNote { video_port: Some(port), ..o },
                );
            },
            Given::Video => {
                let port = match o.video_port {
                    Some(port) => Some(port),
                    None => Some(7001u16),
                };
                lemma_line(args, fractions, pos + 1, rest, OptionsNote { video_port: port, ..o });
            },
            Given::Seconds { text } => {
                lemma_line(args, fractions, pos + 2, rest, OptionsNote { seconds: Some(text), ..o });
            },
            Given::Typed { text } => {
                lemma_line(
                    args,
                    fractions,
                    pos + 2,
                    rest,
                    OptionsNote { type_text: Some(text), ..o },
                );
            },
            Given::Click { triple } => {
                law_triples_read_back(triple, "--click"@);
                lemma_line(args, fractions, pos + 2, rest, OptionsNote { click: Some(triple), ..o });
            },
            Given::Resize { triple } => {
                law_triples_read_back(triple, "--resize"@);
                lemma_line(
                    args,
                    fractions,
                    pos + 2,
                    rest,
                    OptionsNote { resize: Some(triple), ..o },
                );
            },
        }
    }
}

/// A line of options and one host gives that host and of every option what was given
/// last, each option by itself: the control port is 7000 where none is given, and video is
/// off until it is asked for.
pub proof fn law_options_are_what_was_given(given: Seq<Given>, fractions: Seq<bool>)
    requires
        fractions.len() == line(given).len(),
        are_readable(given, fractions),
    ensures
        hosts(given).len() == 1 ==> (options_in(line(given), fractions) matches Ok(o) && {
            &&& o.host == Some(hosts(given)[0])
            &&& o.control_port == last_control_port(given, 7000)
            &&& o.video_port == last_video_port(given, None)
            &&& o.seconds == last_seconds(given, None)
            &&& o.type_text == last_typed(given, None)
            &&& o.click == last_click(given, None)
            &&& o.resize == last_resize(given, None)
        }),
        hosts(given).len() != 1 ==> options_in(line(given), fractions) is Err,
{
    assert(line(given).skip(0) =~= line(given));
    assert(fractions.skip(0) =~= fractions);
    lemma_line(line(given), fractions, 0, given, crate::options::no_options());
}

// --- the window manager ----------------------------------------------------

/// Something given on the line of the window manager.
pub enum Asked {
    Host { text: Seq<char> },
    ControlPort { port: u16 },
    VideoPort { port: u16 },
    Video,
    NoVideo,
    Checkerboard,
}

impl Asked {
    pub open spec fn words(self) -> Seq<Seq<char>> {
        match self {
            Asked::Host { text } => seq![text],
            Asked::ControlPort { port } => seq!["--control-port"@, decimal(port as nat)],
            Asked::VideoPort { port } => seq!["--video-port"@, decimal(port as nat)],
            Asked::Video => seq!["--video"@],
            Asked::NoVideo => seq!["--no-video"@],
            Asked::Checkerboard => seq!["--checkerboard"@],
        }
    }

    pub open spec fn is_readable(self) -> bool {
        match self {
            Asked::Host { text } => text.len() > 0 ==> text[0] != '-',
            _ => true,
        }
    }
}

pub open spec fn asked_line(asked: Seq<Asked>) -> Seq<Seq<char>>
    decreases asked.len(),
{
    if asked.len() == 0 {
        Seq::empty()
    } else {
        asked[0].words() + asked_line(asked.skip(1))
    }
}

pub open spec fn asked_hosts(asked: Seq<Asked>) -> Seq<Seq<char>>
    decreases asked.len(),
{
    if asked.len() == 0 {
        Seq::empty()
    } else {
        match asked[0] {
            Asked::Host { text } => seq![text] + asked_hosts(asked.skip(1)),
            _ => asked_hosts(asked.skip(1)),
        }
    }
}

pub open spec fn asked_control_port(asked: Seq<Asked>, port: u16) -> u16
    decreases asked.len(),
{
    if asked.len() == 0 {
        port
    } else {
        match asked[0] {
            Asked::ControlPort { port: named } => asked_control_port(asked.skip(1), named),
            _ => asked_control_port(asked.skip(1), port),
        }
    }
}

/// The video port after all that was asked: a port that is named, 7001 for video
/// without one, and none once video is refused.
pub open spec fn asked_video_port(asked: Seq<Asked>, port: Option<u16>) -> Option<u16>
    decreases asked.len(),
{
    if asked.len() == 0 {
        port
    } else {
        match asked[0] {
            Asked::VideoPort { port: named } => asked_video_port(asked.skip(1), Some(named)),
            Asked::Video if port is None => asked_video_port(asked.skip(1), Some(7001)),
            Asked::NoVideo => asked_video_port(asked.skip(1), None),
            _ => asked_video_port(asked.skip(1), port),
        }
    }
}

proof fn lemma_asked_line(args: Seq<Seq<char>>, pos: int, asked: Seq<Asked>, a: ArgsNote)
    requires
        0 <= pos <= args.len(),
        args.skip(pos) == asked_line(asked),
        forall|i: int| 0 <= i < asked.len() ==> (#[trigger] asked[i]).is_readable(),
    ensures
        ({
            let n = asked_hosts(asked).len() + if a.host is Some {
                1int
            } else {
                0
            };
            if n > 1 {
                args_from(args, pos, a) is Err
            } else {
                args_from(args, pos, a) == Ok::<ArgsNote, Seq<char>>(
                    ArgsNote {
                        host: if asked_hosts(asked).len() > 0 {
                            Some(asked_hosts(asked)[0])
                        } else {
                            a.host
                        },
                        control_port: asked_control_port(asked, a.control_port),
                        video_port: asked_video_port(asked, a.video_port),
                        checkerboard: a.checkerboard || asked.contains(Asked::Checkerboard),
                    },
                )
            }
        }),
    decreases asked.len(),
{
    if asked.len() > 0 {
        let first = asked[0];
        let rest = asked.skip(1);
        let n = first.words().len() as int;
        lemma_names();
        assert(first.is_readable());
        assert forall|i: int| 0 <= i < rest.len() implies (#[trigger] rest[i]).is_readable() by {
            assert(rest[i] == asked[i + 1]);
        }
        assert(asked.contains(Asked::Checkerboard) <==> (first == Asked::Checkerboard
            || rest.contains(Asked::Checkerboard))) by {
            if asked.contains(Asked::Checkerboard) {
                let i = choose|i: int| 0 <= i < asked.len() && asked[i] == Asked::Checkerboard;
                if i > 0 {
                    assert(rest[i - 1] == asked[i]);
                }
            }
            if rest.contains(Asked::Checkerboard) {
                let i = choose|i: int| 0 <= i < rest.len() && rest[i] == Asked::Checkerboard;
                assert(asked[i + 1] == rest[i]);
            }
        }
        assert(n >= 1);
        assert(args.skip(pos).len() == args.len() - pos);
        assert(args.skip(pos).len() >= n);
        assert(args.skip(pos)[0] == args[pos]);
        assert(args[pos] == first.words()[0]);
        assert(args.skip(pos + n) =~= asked_line(rest)) by {
            assert(args.skip(pos + n) =~= args.skip(pos).skip(n));
            assert(asked_line(asked).skip(n) =~= asked_line(rest));
        }
        if n == 2 {
            assert(args.skip(pos)[1] == args[pos + 1]);
            assert(args[pos + 1] == first.words()[1]);
        }
        match first {
            Asked::Host { text } => {
                if a.host is None {
                    lemma_asked_line(args, pos + 1, rest, ArgsNote { host: Some(text), ..a });
                }
            },
            Asked::ControlPort { port } => {
                law_decimal_reads_back(port as nat, 65535);
                lemma_asked_line(args, pos + 2, rest, ArgsNote { control_port: port, ..a });
            },
            Asked::VideoPort { port } => {
                law_decimal_reads_back(port as nat, 65535);
                lemma_asked_line(args, pos + 2, rest, ArgsNote { video_port: Some(port), ..a });
            },
            Asked::Video => {
                let port = if a.video_port is Some {
                    a.video_port
                } else {
                    Some(7001u16)
                };
                lemma_asked_line(args, pos + 1, rest, ArgsNote { video_port: port, ..a });
            },
            Asked::NoVideo => {
                lemma_asked_line(args, pos + 1, rest, ArgsNote { video_port: None, ..a });
            },
            Asked::Checkerboard => {
                lemma_asked_line(args, pos + 1, rest, ArgsNote { checkerboard: true, ..a });
            },
        }
    }
}

/// A line with one host that can be connected to gives that host, the last control port
/// or 7000, video as it was asked for last, and the checkerboard where it was asked for.
/// A line with no host or several is refused, and so is a host that cannot be connected
/// to by hand.
pub proof fn law_settings_are_what_was_asked(asked: Seq<Asked>)
    requires
        forall|i: int| 0 <= i < asked.len() ==> (#[trigger] asked[i]).is_readable(),
    ensures
        asked_hosts(asked).len() != 1 ==> config_in(asked_line(asked)) is Err,
        asked_hosts(asked).len() == 1 ==> {
            let port = asked_control_port(asked, 7000);
            let video = asked_video_port(asked, None);
            let video_text = if video is Some {
                decimal(video->0 as nat)
            } else {
                Seq::empty()
            };
            let host = asked_hosts(asked)[0];
            if manual_note(host, decimal(port as nat), video_text) is Ok {
                config_in(asked_line(asked)) == Ok::<ConfigNote, Seq<char>>(
                    ConfigNote {
                        host,
                        control_port: port,
                        video_port: video,
                        checkerboard: asked.contains(Asked::Checkerboard),
                    },
                )
            } else {
                config_in(asked_line(asked)) is Err
            }
        },
{
    assert(asked_line(asked).skip(0) =~= asked_line(asked));
    lemma_asked_line(asked_line(asked), 0, asked, crate::win::args::no_args());
}

// --- commands --------------------------------------------------------------

/// The first word names the command, and a line without one opens the window manager. A
/// word that names none is told back.
pub proof fn law_commands_have_names(args: Seq<Seq<char>>)
    ensures
        args.len() == 0 ==> command_in(args) == CommandNote::Run,
        args.len() > 0 ==> {
            let word = args[0];
            &&& command_in(args) == CommandNote::Run <==> word == "run"@
            &&& command_in(args) == CommandNote::Connect <==> word == "connect"@
            &&& command_in(args) == CommandNote::Doctor <==> word == "doctor"@
            &&& command_in(args) == CommandNote::Help <==> word == "help"@ || word == "--help"@
                || word == "-h"@
            &&& command_in(args) == CommandNote::Version <==> word == "--version"@ || word == "-V"@
            &&& command_in(args) matches CommandNote::Unknown(told) ==> told == word
        },
{
    reveal_strlit("run");
    reveal_strlit("connect");
    reveal_strlit("doctor");
    reveal_strlit("help");
    reveal_strlit("--help");
    reveal_strlit("-h");
    reveal_strlit("--version");
    reveal_strlit("-V");
    assert("run"@.len() == 3 && "connect"@.len() == 7 && "doctor"@.len() == 6 && "help"@.len() == 4
        && "--help"@.len() == 6 && "-h"@.len() == 2 && "--version"@.len() == 9 && "-V"@.len() == 2);
    assert("doctor"@[0] == 'd' && "--help"@[0] == '-' && "-h"@[1] == 'h' && "-V"@[1] == 'V');
    if args.len() > 0 {
        let word = args[0];
        if word =~= "run"@ {
            assert(word == "run"@);
        }
        if word =~= "connect"@ {
            assert(word == "connect"@);
        }
        if word =~= "help"@ {
            assert(word == "help"@);
        }
        if word =~= "--help"@ {
            assert(word == "--help"@);
        }
        if word =~= "-h"@ {
            assert(word == "-h"@);
        }
        if word =~= "--version"@ {
            assert(word == "--version"@);
        }
        if word =~= "-V"@ {
            assert(word == "-V"@);
        }
    }
}

/// The value of an argument is the word behind its name, where the name stands first.
pub proof fn law_values_stand_behind_their_names(
    front: Seq<Seq<char>>,
    name: Seq<char>,
    value: Seq<char>,
    rest: Seq<Seq<char>>,
    i: int,
)
    requires
        !front.contains(name),
        0 <= i <= front.len(),
    ensures
        value_after(front + seq![name, value] + rest, name, i) == Some(value),
        value_after(front + seq![name], name, i) is None,
        value_after(front, name, i) is None,
    decreases front.len() - i,
{
    let all = front + seq![name, value] + rest;
    let short = front + seq![name];
    if i < front.len() {
        assert(front.contains(front[i]));
        assert(all[i] == front[i]);
        assert(short[i] == front[i]);
        law_values_stand_behind_their_names(front, name, value, rest, i + 1);
    } else {
        assert(all[i] == name);
        assert(all[i + 1] == value);
        assert(short[i] == name);
    }
}

} // verus!
