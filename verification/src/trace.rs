//! What the headless runner prints and does as the session goes on.
//!
//! Times are nanoseconds since the session was opened.

use vstd::prelude::*;

use crate::model::EventNote;
use crate::model::ModelEvent;
use crate::options::optional_text;
use crate::options::Options;
use crate::options::OptionsNote;
use crate::runner::action_notes;
use crate::runner::plan_actions;
use crate::runner::planned;
use crate::runner::Action;
use crate::runner::ActionNote;
use crate::runner::Mirror;
use crate::runner::MirrorNote;
use crate::text::decimal;
use crate::text::owned;
use crate::text::unsigned_to_text;
use crate::wire::control::Rect;
use crate::wire::control::WindowKind;

verus! {

pub const NANOS_PER_MILLI: u64 = 1_000_000;

/// Video rates are reported no more often than this.
pub const VIDEO_REPORT_NANOS: u64 = 1_000_000_000;

/// `n` spaces.
pub open spec fn spaces(n: int) -> Seq<char>
    decreases n,
{
    if n <= 0 {
        Seq::empty()
    } else {
        spaces(n - 1).push(' ')
    }
}

/// The time at the front of a line: milliseconds, six wide.
pub open spec fn stamp(ms: nat) -> Seq<char> {
    "["@ + spaces(6 - decimal(ms).len()) + decimal(ms) + "ms] "@
}

pub open spec fn size_text(w: nat, h: nat) -> Seq<char> {
    decimal(w) + "x"@ + decimal(h)
}

pub open spec fn rect_text(r: Rect) -> Seq<char> {
    "("@ + decimal(r.x as nat) + ","@ + decimal(r.y as nat) + ") "@ + size_text(
        r.w as nat,
        r.h as nat,
    )
}

pub open spec fn kind_text(kind: WindowKind) -> Seq<char> {
    match kind {
        WindowKind::Normal => "Normal"@,
        WindowKind::Menu => "Menu"@,
        WindowKind::Sheet => "Sheet"@,
        WindowKind::Popover => "Popover"@,
    }
}

/// Ids with commas between them.
pub open spec fn ids_text(ids: Seq<u64>) -> Seq<char>
    decreases ids.len(),
{
    if ids.len() == 0 {
        Seq::empty()
    } else if ids.len() == 1 {
        decimal(ids[0] as nat)
    } else {
        ids_text(ids.drop_last()) + ", "@ + decimal(ids.last() as nat)
    }
}

/// What is printed of a model event, behind the time.
pub open spec fn event_text(ev: EventNote) -> Seq<char> {
    match ev {
        EventNote::Connected { vds } => "connected — VDS "@ + size_text(vds.w as nat, vds.h as nat),
        EventNote::WindowAdded(w) => "+ window "@ + decimal(w.id as nat) + " \""@ + w.title
            + "\" "@ + kind_text(w.kind) + " source "@ + rect_text(w.source),
        EventNote::WindowRectChanged { id, source, size_changed } => "~ window "@ + decimal(
            id as nat,
        ) + " -> "@ + rect_text(source) + (if size_changed {
            " [resized]"@
        } else {
            ""@
        }),
        EventNote::WindowTitleChanged { id, title } => "~ window "@ + decimal(id as nat)
            + " title \""@ + title + "\""@,
        EventNote::WindowFocused { id } => "* window "@ + decimal(id as nat) + " focused"@,
        EventNote::WindowRemoved { id } => "- window "@ + decimal(id as nat) + " destroyed"@,
        EventNote::Resynced { removed } => "resync pruned ["@ + ids_text(removed) + "]"@,
        EventNote::HostError { code, message } => "! host error "@ + decimal(code as nat) + ": "@
            + message,
    }
}

/// The reason that a channel closed, if there is one.
pub open spec fn reason_text(reason: Option<Seq<char>>) -> Seq<char> {
    match reason {
        Some(reason) => ": "@ + reason,
        None => ""@,
    }
}

fn number(n: u64) -> (text: String)
    ensures
        text@ == decimal(n as nat),
{
    unsigned_to_text(n)
}

/// `message` behind the time.
pub fn stamped(now: u64, message: &str) -> (line: String)
    ensures
        line@ == stamp((now / NANOS_PER_MILLI) as nat) + message@,
{
    let digits = number(now / NANOS_PER_MILLI);
    let ghost len = digits@.len();
    let mut line = String::from_str("[");
    let mut i: usize = digits.as_str().unicode_len();
    let ghost mut n: int = 0;
    proof {
        assert(line@ =~= "["@ + spaces(n));
    }
    while i < 6
        invariant
            n == if len < 6 {
                i - len
            } else {
                0
            },
            i >= len,
            len >= 6 ==> i == len,
            len < 6 ==> i <= 6,
            line@ == "["@ + spaces(n),
        decreases 6 - i,
    {
        line.push(' ');
        proof {
            assert(line@ =~= "["@ + spaces(n + 1));
            n = n + 1;
        }
        i += 1;
    }
    proof {
        assert(spaces(n) == spaces(6 - len));
    }
    line.concat(digits.as_str()).concat("ms] ").concat(message)
}

fn size_words(w: u32, h: u32) -> (text: String)
    ensures
        text@ == size_text(w as nat, h as nat),
{
    number(w as u64).concat("x").concat(number(h as u64).as_str())
}

fn rect_words(r: Rect) -> (text: String)
    ensures
        text@ == rect_text(r),
{
    String::from_str("(").concat(number(r.x as u64).as_str()).concat(",").concat(
        number(r.y as u64).as_str(),
    ).concat(") ").concat(size_words(r.w, r.h).as_str())
}

fn kind_words(kind: WindowKind) -> (text: &'static str)
    ensures
        text@ == kind_text(kind),
{
    match kind {
        WindowKind::Normal => "Normal",
        WindowKind::Menu => "Menu",
        WindowKind::Sheet => "Sheet",
        WindowKind::Popover => "Popover",
    }
}

fn ids_words(ids: &Vec<u64>) -> (text: String)
    ensures
        text@ == ids_text(ids@),
{
    let mut text = String::new();
    let mut i: usize = 0;
    proof {
        assert(text@ =~= ids_text(ids@.take(0)));
    }
    while i < ids.len()
        invariant
            i <= ids@.len(),
            text@ == ids_text(ids@.take(i as int)),
        decreases ids@.len() - i,
    {
        let ghost before = text@;
        if i > 0 {
            text.append(", ");
        }
        text.append(number(ids[i]).as_str());
        proof {
            assert(ids@.take(i + 1).drop_last() =~= ids@.take(i as int));
            if i == 0 {
                assert(before =~= Seq::<char>::empty());
                assert(text@ =~= decimal(ids@[0] as nat));
            } else {
                assert(text@ =~= before + ", "@ + decimal(ids@[i as int] as nat));
            }
        }
        i += 1;
    }
    proof {
        assert(ids@.take(i as int) =~= ids@);
    }
    text
}

/// What is printed of a model event, behind the time.
pub fn event_line(ev: &ModelEvent) -> (text: String)
    ensures
        text@ == event_text(ev@),
{
    match ev {
        ModelEvent::Connected { vds } => String::from_str("connected — VDS ").concat(
            size_words(vds.w, vds.h).as_str(),
        ),
        ModelEvent::WindowAdded(w) => String::from_str("+ window ").concat(
            number(w.id).as_str(),
        ).concat(" \"").concat(w.title.as_str()).concat("\" ").concat(kind_words(w.kind)).concat(
            " source ",
        ).concat(rect_words(w.source).as_str()),
        ModelEvent::WindowRectChanged { id, source, size_changed } => String::from_str(
            "~ window ",
        ).concat(number(*id).as_str()).concat(" -> ").concat(
            rect_words(*source).as_str(),
        ).concat(
            if *size_changed {
                " [resized]"
            } else {
                ""
            },
        ),
        ModelEvent::WindowTitleChanged { id, title } => String::from_str("~ window ").concat(
            number(*id).as_str(),
        ).concat(" title \"").concat(title.as_str()).concat("\""),
        ModelEvent::WindowFocused { id } => String::from_str("* window ").concat(
            number(*id).as_str(),
        ).concat(" focused"),
        ModelEvent::WindowRemoved { id } => String::from_str("- window ").concat(
            number(*id).as_str(),
        ).concat(" destroyed"),
        ModelEvent::Resynced { removed } => String::from_str("resync pruned [").concat(
            ids_words(removed).as_str(),
        ).concat("]"),
        ModelEvent::HostError { code, message } => String::from_str("! host error ").concat(
            number(*code as u64).as_str(),
        ).concat(": ").concat(message.as_str()),
    }
}

fn reason_words(reason: &Option<String>) -> (text: String)
    ensures
        text@ == reason_text(optional_text(*reason)),
{
    match reason {
        Some(reason) => String::from_str(": ").concat(reason.as_str()),
        None => owned(""),
    }
}

/// The line that announces where the runner connects to.
pub open spec fn banner_text(o: OptionsNote, host: Seq<char>) -> Seq<char> {
    "connecting to "@ + host + ":"@ + decimal(o.control_port as nat) + " (control)"@ + (
    match o.video_port {
        Some(port) => ", "@ + host + ":"@ + decimal(port as nat) + " (video)"@,
        None => ""@,
    })
}

/// The line that announces where the runner connects to.
pub fn banner(opts: &Options) -> (line: String)
    ensures
        line@ == banner_text(opts@, opts.host@),
{
    let line = String::from_str("connecting to ").concat(opts.host.as_str()).concat(":").concat(
        number(opts.control_port as u64).as_str(),
    ).concat(" (control)");
    match opts.video_port {
        Some(port) => {
            let video = String::from_str(", ").concat(opts.host.as_str()).concat(":").concat(
                number(port as u64).as_str(),
            ).concat(" (video)");
            line.concat(video.as_str())
        },
        None => line.concat(""),
    }
}

/// What is printed of a test action. `quoted` is the typed text as it is shown, and
/// `title` that of the resized window.
pub open spec fn action_text(action: ActionNote, quoted: Seq<char>, title: Seq<char>) -> Seq<char> {
    match action {
        ActionNote::Focus { id } => "-> requestFocus "@ + decimal(id as nat),
        ActionNote::Click { id, x, y } => "-> click window "@ + decimal(id as nat) + " at ("@
            + decimal(x as nat) + ","@ + decimal(y as nat) + ")"@,
        ActionNote::Type { id, text } => "-> typed "@ + quoted + " into window "@ + decimal(
            id as nat,
        ),
        ActionNote::Resize { id, w, h } => "-> requestResize "@ + decimal(id as nat) + " \""@
            + title + "\" to "@ + decimal(w as nat) + "x"@ + decimal(h as nat)
            + " (begin/live/end)"@,
    }
}

/// What is printed of a test action.
pub fn action_line(action: &Action, quoted: &str, title: &str) -> (line: String)
    ensures
        line@ == action_text(action@, quoted@, title@),
{
    match action {
        Action::Focus { id } => String::from_str("-> requestFocus ").concat(
            number(*id).as_str(),
        ),
        Action::Click { id, x, y } => String::from_str("-> click window ").concat(
            number(*id).as_str(),
        ).concat(" at (").concat(number(*x as u64).as_str()).concat(",").concat(
            number(*y as u64).as_str(),
        ).concat(")"),
        Action::Type { id, text } => String::from_str("-> typed ").concat(quoted).concat(
            " into window ",
        ).concat(number(*id).as_str()),
        Action::Resize { id, w, h } => String::from_str("-> requestResize ").concat(
            number(*id).as_str(),
        ).concat(" \"").concat(title).concat("\" to ").concat(number(*w as u64).as_str()).concat(
            "x",
        ).concat(number(*h as u64).as_str()).concat(" (begin/live/end)"),
    }
}

// ---------------------------------------------------------------------------
// The runner's steps
// ---------------------------------------------------------------------------

/// What the session brought, or the time passing without anything.
#[derive(Debug)]
pub enum RunnerEvent {
    Quiet,
    Ended,
    /// The run has lasted as long as it was to.
    TimeOver,
    Control(ModelEvent),
    VideoConfig { len: usize },
    VideoFrame { seq: u64, keyframe: bool, len: usize },
    ControlClosed(Option<String>),
    VideoClosed(Option<String>),
}

/// What the caller has to do, in order.
#[derive(Debug)]
pub enum RunnerOutput {
    /// Print a line.
    Line(String),
    /// Send the messages of an action, and say so.
    Act(Action),
    /// Print how much video came: frames in all, and bytes in the time since the
    /// last report.
    VideoRate { frames: u64, bytes: u64, nanos: u64, seq: u64, keyframe: bool },
    /// Close the session.
    Stop,
}

/// What a [`RunnerEvent`] says.
pub enum RunnerEventNote {
    Quiet,
    Ended,
    TimeOver,
    Control(EventNote),
    VideoConfig { len: nat },
    VideoFrame { seq: u64, keyframe: bool, len: nat },
    ControlClosed(Option<Seq<char>>),
    VideoClosed(Option<Seq<char>>),
}

/// What a [`RunnerOutput`] says.
pub enum RunnerOutputNote {
    Line(Seq<char>),
    Act(ActionNote),
    VideoRate { frames: u64, bytes: u64, nanos: u64, seq: u64, keyframe: bool },
    Stop,
}

/// The state of a run.
pub struct Runner {
    opts: Options,
    mirror: Mirror,
    pending: bool,
    frames: u64,
    video_bytes: u64,
    reported_at: u64,
}

/// What a [`Runner`] holds.
pub struct RunnerNote {
    pub opts: OptionsNote,
    pub mirror: MirrorNote,
    /// Whether the test actions are still to come.
    pub pending: bool,
    pub frames: u64,
    pub video_bytes: u64,
    pub reported_at: u64,
}

impl RunnerEvent {
    pub open spec fn view(&self) -> RunnerEventNote {
        match self {
            RunnerEvent::Quiet => RunnerEventNote::Quiet,
            RunnerEvent::Ended => RunnerEventNote::Ended,
            RunnerEvent::TimeOver => RunnerEventNote::TimeOver,
            RunnerEvent::Control(ev) => RunnerEventNote::Control(ev@),
            RunnerEvent::VideoConfig { len } => RunnerEventNote::VideoConfig { len: *len as nat },
            RunnerEvent::VideoFrame { seq, keyframe, len } => RunnerEventNote::VideoFrame {
                seq: *seq,
                keyframe: *keyframe,
                len: *len as nat,
            },
            RunnerEvent::ControlClosed(reason) => RunnerEventNote::ControlClosed(
                optional_text(*reason),
            ),
            RunnerEvent::VideoClosed(reason) => RunnerEventNote::VideoClosed(
                optional_text(*reason),
            ),
        }
    }
}

impl RunnerOutput {
    pub open spec fn view(&self) -> RunnerOutputNote {
        match self {
            RunnerOutput::Line(line) => RunnerOutputNote::Line(line@),
            RunnerOutput::Act(action) => RunnerOutputNote::Act(action@),
            RunnerOutput::VideoRate { frames, bytes, nanos, seq, keyframe } =>
                RunnerOutputNote::VideoRate {
                frames: *frames,
                bytes: *bytes,
                nanos: *nanos,
                seq: *seq,
                keyframe: *keyframe,
            },
            RunnerOutput::Stop => RunnerOutputNote::Stop,
        }
    }
}

pub open spec fn output_notes(outputs: Seq<RunnerOutput>) -> Seq<RunnerOutputNote> {
    Seq::new(outputs.len(), |i: int| outputs[i]@)
}

/// `a + b` in 64 bits.
pub open spec fn sum64(a: u64, b: nat) -> u64 {
    ((a + b) % 0x1_0000_0000_0000_0000) as u64
}

/// The time since `then`, none where the clock stands before it.
pub open spec fn since(now: u64, then: u64) -> u64 {
    if now < then {
        0
    } else {
        (now - then) as u64
    }
}

/// Whether a run that was given a time, in nanoseconds, has lasted that long.
pub fn time_over(limit: Option<u64>, now: u64) -> (over: bool)
    ensures
        over == (limit matches Some(end) && now >= end),
{
    match limit {
        Some(end) => now >= end,
        None => false,
    }
}

/// The test actions, once, as soon as a window is known.
pub open spec fn runner_actions(r: RunnerNote) -> (RunnerNote, Seq<RunnerOutputNote>) {
    if r.pending && r.mirror.order.len() > 0 {
        let actions = planned(r.opts, r.mirror.order[0]);
        (
            RunnerNote { pending: false, ..r },
            Seq::new(actions.len(), |i: int| RunnerOutputNote::Act(actions[i])),
        )
    } else {
        (r, Seq::empty())
    }
}

/// What an event brings before the test actions; `false` where the run ends.
pub open spec fn runner_event(r: RunnerNote, ev: RunnerEventNote, now: u64) -> (
    RunnerNote,
    Seq<RunnerOutputNote>,
    bool,
) {
    let time = stamp((now / NANOS_PER_MILLI) as nat);
    match ev {
        RunnerEventNote::Quiet => (r, Seq::empty(), true),
        RunnerEventNote::Ended => (
            r,
            seq![RunnerOutputNote::Line(time + "session ended"@), RunnerOutputNote::Stop],
            false,
        ),
        RunnerEventNote::TimeOver => (
            r,
            seq![
                RunnerOutputNote::Line(time + "duration elapsed, closing"@),
                RunnerOutputNote::Stop,
            ],
            false,
        ),
        RunnerEventNote::Control(ev) => (
            RunnerNote { mirror: r.mirror.after(ev), ..r },
            seq![RunnerOutputNote::Line(time + event_text(ev))],
            true,
        ),
        RunnerEventNote::VideoConfig { len } => (
            r,
            seq![
                RunnerOutputNote::Line(
                    time + ("video: hvcC config, "@ + decimal(len)
                        + " bytes (decoder can now start)"@),
                ),
            ],
            true,
        ),
        RunnerEventNote::VideoFrame { seq, keyframe, len } => {
            let frames = sum64(r.frames, 1);
            let bytes = sum64(r.video_bytes, len);
            let nanos = since(now, r.reported_at);
            if nanos >= VIDEO_REPORT_NANOS {
                (
                    RunnerNote { frames, video_bytes: 0, reported_at: now, ..r },
                    seq![RunnerOutputNote::VideoRate { frames, bytes, nanos, seq, keyframe }],
                    true,
                )
            } else {
                (RunnerNote { frames, video_bytes: bytes, ..r }, Seq::empty(), true)
            }
        },
        RunnerEventNote::ControlClosed(reason) => (
            r,
            seq![
                RunnerOutputNote::Line(time + ("control channel closed"@ + reason_text(reason))),
                RunnerOutputNote::Stop,
            ],
            false,
        ),
        RunnerEventNote::VideoClosed(reason) => (
            r,
            seq![RunnerOutputNote::Line(time + ("video channel closed"@ + reason_text(reason)))],
            true,
        ),
    }
}

/// One step of a run.
pub open spec fn runner_step(r: RunnerNote, ev: RunnerEventNote, now: u64) -> (
    RunnerNote,
    Seq<RunnerOutputNote>,
) {
    let (next, outputs, goes_on) = runner_event(r, ev, now);
    if goes_on {
        let (last, more) = runner_actions(next);
        (last, outputs + more)
    } else {
        (next, outputs)
    }
}

impl Runner {
    pub closed spec fn view(&self) -> RunnerNote {
        RunnerNote {
            opts: self.opts@,
            mirror: self.mirror@,
            pending: self.pending,
            frames: self.frames,
            video_bytes: self.video_bytes,
            reported_at: self.reported_at,
        }
    }

    /// A run that has just connected.
    pub fn new(opts: Options) -> (runner: Self)
        ensures
            runner@ == (RunnerNote {
                opts: opts@,
                mirror: MirrorNote { windows: Map::empty(), order: Seq::empty(), vds: None },
                pending: opts@.type_text is Some || opts@.click is Some || opts@.resize is Some,
                frames: 0,
                video_bytes: 0,
                reported_at: 0,
            }),
            runner@.mirror.sound(),
    {
        let pending = opts.type_text.is_some() || opts.click.is_some() || opts.resize.is_some();
        Runner { opts, mirror: Mirror::new(), pending, frames: 0, video_bytes: 0, reported_at: 0 }
    }

    /// The title of a known window, for what is printed of an action.
    pub fn title(&self, id: u64) -> (title: Option<&str>)
        ensures
            match title {
                Some(title) => self@.mirror.windows.contains_key(id) && title@
                    == self@.mirror.windows[id].0,
                None => !self@.mirror.windows.contains_key(id),
            },
    {
        self.mirror.title(id)
    }

    /// Take in what the session brought and say what to do about it.
    pub fn step(&mut self, event: &RunnerEvent, now: u64) -> (outputs: Vec<RunnerOutput>)
        ensures
            (final(self)@, output_notes(outputs@)) == runner_step(old(self)@, event@, now),
            old(self)@.mirror.sound() ==> final(self)@.mirror.sound(),
    {
        let ghost before = self@;
        let mut outputs: Vec<RunnerOutput> = Vec::new();
        let mut goes_on = true;
        match event {
            RunnerEvent::Quiet => {},
            RunnerEvent::Ended => {
                outputs.push(RunnerOutput::Line(stamped(now, "session ended")));
                outputs.push(RunnerOutput::Stop);
                goes_on = false;
            },
            RunnerEvent::TimeOver => {
                outputs.push(RunnerOutput::Line(stamped(now, "duration elapsed, closing")));
                outputs.push(RunnerOutput::Stop);
                goes_on = false;
            },
            RunnerEvent::Control(ev) => {
                self.mirror.apply_for_display(ev);
                outputs.push(RunnerOutput::Line(stamped(now, event_line(ev).as_str())));
            },
            RunnerEvent::VideoConfig { len } => {
                let text = String::from_str("video: hvcC config, ").concat(
                    number(*len as u64).as_str(),
                ).concat(" bytes (decoder can now start)");
                outputs.push(RunnerOutput::Line(stamped(now, text.as_str())));
            },
            RunnerEvent::VideoFrame { seq, keyframe, len } => {
                self.frames = self.frames.wrapping_add(1);
                self.video_bytes = self.video_bytes.wrapping_add(*len as u64);
                let nanos: u64 = if now < self.reported_at {
                    0
                } else {
                    now - self.reported_at
                };
                if nanos >= VIDEO_REPORT_NANOS {
                    outputs.push(
                        RunnerOutput::VideoRate {
                            frames: self.frames,
                            bytes: self.video_bytes,
                            nanos,
                            seq: *seq,
                            keyframe: *keyframe,
                        },
                    );
                    self.video_bytes = 0;
                    self.reported_at = now;
                }
            },
            RunnerEvent::ControlClosed(reason) => {
                let text = String::from_str("control channel closed").concat(
                    reason_words(reason).as_str(),
                );
                outputs.push(RunnerOutput::Line(stamped(now, text.as_str())));
                outputs.push(RunnerOutput::Stop);
                goes_on = false;
            },
            RunnerEvent::VideoClosed(reason) => {
                let text = String::from_str("video channel closed").concat(
                    reason_words(reason).as_str(),
                );
                outputs.push(RunnerOutput::Line(stamped(now, text.as_str())));
            },
        }
        proof {
            let (next, notes, on) = runner_event(before, event@, now);
            assert(self@ == next);
            assert(output_notes(outputs@) =~= notes);
            assert(on == goes_on);
        }
        if goes_on {
            let ghost so_far = output_notes(outputs@);
            let more = self.actions();
            let ghost actions = action_notes(more@);
            let ghost items = more@;
            proof {
                assert(so_far + Seq::new(
                    actions.take(0).len(),
                    |i: int| RunnerOutputNote::Act(actions[i]),
                ) =~= so_far);
            }
            for action in it: more.into_iter()
                invariant
                    it.seq() == items,
                    actions == action_notes(items),
                    output_notes(outputs@) == so_far + Seq::new(
                        it.index() as nat,
                        |i: int| RunnerOutputNote::Act(actions[i]),
                    ),
            {
                let ghost done = output_notes(outputs@);
                let ghost note = action@;
                outputs.push(RunnerOutput::Act(action));
                proof {
                    assert(note == actions[it.index() as int]);
                    assert(output_notes(outputs@) =~= done.push(RunnerOutputNote::Act(note)));
                    assert(output_notes(outputs@) =~= so_far + Seq::new(
                        (it.index() + 1) as nat,
                        |i: int| RunnerOutputNote::Act(actions[i]),
                    ));
                }
            }
            proof {
                let (next, notes, on) = runner_event(before, event@, now);
                assert(output_notes(outputs@) =~= notes + runner_actions(next).1);
            }
        }
        outputs
    }

    fn actions(&mut self) -> (actions: Vec<Action>)
        ensures
            final(self)@ == runner_actions(old(self)@).0,
            Seq::new(
                action_notes(actions@).len(),
                |i: int| RunnerOutputNote::Act(action_notes(actions@)[i]),
            ) == runner_actions(old(self)@).1,
    {
        if !self.pending {
            let none: Vec<Action> = Vec::new();
            proof {
                assert(Seq::new(
                    action_notes(none@).len(),
                    |i: int| RunnerOutputNote::Act(action_notes(none@)[i]),
                ) =~= Seq::<RunnerOutputNote>::empty());
            }
            return none;
        }
        match self.mirror.first() {
            Some(target) => {
                self.pending = false;
                let actions = plan_actions(&self.opts, target);
                proof {
                    assert(Seq::new(
                        action_notes(actions@).len(),
                        |i: int| RunnerOutputNote::Act(action_notes(actions@)[i]),
                    ) =~= runner_actions(old(self)@).1);
                }
                actions
            },
            None => {
                let none: Vec<Action> = Vec::new();
                proof {
                    assert(Seq::new(
                        action_notes(none@).len(),
                        |i: int| RunnerOutputNote::Act(action_notes(none@)[i]),
                    ) =~= Seq::<RunnerOutputNote>::empty());
                }
                none
            },
        }
    }
}

/// The test actions come exactly once: after they have been given out, nothing that
/// happens gives them out again.
pub proof fn law_actions_come_once(r: RunnerNote, ev: RunnerEventNote, now: u64)
    requires
        !r.pending,
    ensures
        !runner_step(r, ev, now).0.pending,
        forall|i: int|
            0 <= i < runner_step(r, ev, now).1.len() ==> !(#[trigger] runner_step(
                r,
                ev,
                now,
            ).1[i] is Act),
{
}

} // verus!
