//! What the headless runner promises: a host that follows its messages sees what was
//! asked for, and its mirror follows the events.

use vstd::prelude::*;

use crate::model::known_window;
use crate::model::EventNote;
use crate::model::WindowNote;
use crate::options::OptionsNote;
use crate::options_laws::law_texts_are_cut_at_separators;
use crate::runner::action_messages;
use crate::runner::char_messages;
use crate::runner::planned;
use crate::runner::text_messages;
use crate::runner::untypeable;
use crate::runner::without_id;
use crate::runner::ActionNote;
use crate::runner::MirrorNote;
use crate::text::decimal;
use crate::text::is_digit;
use crate::text::lemma_decimal_is_digits;
use crate::text::split_text;
use crate::trace::event_text;
use crate::trace::ids_text;
use crate::trace::rect_text;
use crate::trace::runner_event;
use crate::trace::runner_step;
use crate::trace::size_text;
use crate::trace::RunnerEventNote;
use crate::trace::RunnerNote;
use crate::trace::RunnerOutputNote;
use crate::vk::vk_of;
use crate::wire::control::ClientMessage;
use crate::wire::control::Rect;
use crate::wire::control::ResizePhase;
use crate::wire::input::InputEvent;
use crate::wire::input::MouseButton;

verus! {

// --- typing ----------------------------------------------------------------

/// A keyboard that follows key messages: whether Shift is held, which other key is, and
/// what was typed.
pub struct Keyboard {
    pub shift: bool,
    pub held: Option<u32>,
    pub text: Seq<char>,
}

/// The character that a key types.
pub open spec fn key_char(vk: u32, shift: bool) -> Option<char> {
    if 0x41 <= vk <= 0x5A {
        Some(
            if shift {
                vk as char
            } else {
                (vk + 0x20) as char
            },
        )
    } else if 0x30 <= vk <= 0x39 && !shift {
        Some(vk as char)
    } else if vk == 0x20 {
        Some(' ')
    } else if vk == 0x0D {
        Some('\n')
    } else if vk == 0x09 {
        Some('\t')
    } else {
        None
    }
}

impl Keyboard {
    /// The keyboard after a message for a window, at a time. A key that is already held, a
    /// release of another key and a message for another window are faults.
    pub open spec fn after(self, m: ClientMessage, id: u64, ts: u64) -> Option<Keyboard> {
        match m {
            ClientMessage::Input { id: at, event, ts: when } => if at != id || when != ts {
                None
            } else {
                match event {
                    InputEvent::KeyDown { vk } => if vk == 0x10 {
                        if self.shift {
                            None
                        } else {
                            Some(Keyboard { shift: true, ..self })
                        }
                    } else {
                        match (self.held, key_char(vk, self.shift)) {
                            (None, Some(c)) => Some(
                                Keyboard { held: Some(vk), text: self.text.push(c), ..self },
                            ),
                            _ => None,
                        }
                    },
                    InputEvent::KeyUp { vk } => if vk == 0x10 {
                        if self.shift {
                            Some(Keyboard { shift: false, ..self })
                        } else {
                            None
                        }
                    } else if self.held == Some(vk) {
                        Some(Keyboard { held: None, ..self })
                    } else {
                        None
                    },
                    _ => None,
                }
            },
            _ => None,
        }
    }

    pub open spec fn after_all(self, messages: Seq<ClientMessage>, id: u64, ts: u64) -> Option<
        Keyboard,
    >
        decreases messages.len(),
    {
        if messages.len() == 0 {
            Some(self)
        } else {
            match self.after_all(messages.drop_last(), id, ts) {
                Some(keyboard) => keyboard.after(messages.last(), id, ts),
                None => None,
            }
        }
    }
}

/// Whether a key of the layout types a character: letters, digits, the space, the tab and
/// the ends of a line.
pub open spec fn has_key(c: char) -> bool {
    let n = c as u32;
    ||| 0x61 <= n <= 0x7A
    ||| 0x41 <= n <= 0x5A
    ||| 0x30 <= n <= 0x39
    ||| n == 0x20
    ||| n == 0x09
    ||| n == 0x0A
    ||| n == 0x0D
}

/// What can be typed of a text, in order. Either end of a line is the return key.
pub open spec fn typeable(text: Seq<char>) -> Seq<char>
    decreases text.len(),
{
    if text.len() == 0 {
        Seq::empty()
    } else {
        let before = typeable(text.drop_last());
        let c = text.last();
        if !has_key(c) {
            before
        } else if c == '\r' {
            before.push('\n')
        } else {
            before.push(c)
        }
    }
}

proof fn lemma_after_both(
    k: Keyboard,
    front: Seq<ClientMessage>,
    back: Seq<ClientMessage>,
    id: u64,
    ts: u64,
)
    ensures
        k.after_all(front + back, id, ts) == match k.after_all(front, id, ts) {
            Some(between) => between.after_all(back, id, ts),
            None => None,
        },
    decreases back.len(),
{
    if back.len() == 0 {
        assert(front + back =~= front);
    } else {
        lemma_after_both(k, front, back.drop_last(), id, ts);
        assert((front + back).drop_last() =~= front + back.drop_last());
        assert((front + back).last() == back.last());
    }
}

proof fn lemma_char_is_typed(k: Keyboard, id: u64, c: char, ts: u64)
    requires
        !k.shift,
        k.held is None,
    ensures
        k.after_all(char_messages(id, c, ts), id, ts) == Some(
            Keyboard {
                text: if !has_key(c) {
                    k.text
                } else if c == '\r' {
                    k.text.push('\n')
                } else {
                    k.text.push(c)
                },
                ..k
            },
        ),
{
    let m = char_messages(id, c, ts);
    reveal_with_fuel(Keyboard::after_all, 5);
    if m.len() == 2 {
        assert(m.drop_last().drop_last() =~= Seq::<ClientMessage>::empty());
    } else if m.len() == 4 {
        assert(m.drop_last().drop_last().drop_last().drop_last() =~= Seq::<ClientMessage>::empty());
    }
}

/// Whoever follows the messages of a typed text with a keyboard has typed what of the text
/// has keys, in order and in the right case, into the right window, and holds no key.
pub proof fn law_typed_text_arrives(id: u64, text: Seq<char>, ts: u64)
    ensures
        ({
            let idle = Keyboard { shift: false, held: None, text: Seq::empty() };
            idle.after_all(text_messages(id, text, ts), id, ts) == Some(
                Keyboard { text: typeable(text), ..idle },
            )
        }),
    decreases text.len(),
{
    let idle = Keyboard { shift: false, held: None, text: Seq::empty() };
    if text.len() > 0 {
        law_typed_text_arrives(id, text.drop_last(), ts);
        let front = text_messages(id, text.drop_last(), ts);
        lemma_after_both(idle, front, char_messages(id, text.last(), ts), id, ts);
        lemma_char_is_typed(
            Keyboard { text: typeable(text.drop_last()), ..idle },
            id,
            text.last(),
            ts,
        );
    }
}

proof fn lemma_keys(c: char)
    ensures
        has_key(c) <==> vk_of(c) is Some,
{
}

/// What is left out of a typed text is exactly what has no key, in order.
pub proof fn law_left_out_text_has_no_keys(text: Seq<char>)
    ensures
        untypeable(text) == text.filter(|c: char| !has_key(c)),
    decreases text.len(),
{
    reveal(Seq::filter);
    if text.len() > 0 {
        law_left_out_text_has_no_keys(text.drop_last());
        lemma_keys(text.last());
    }
}

// --- clicks and resizes ----------------------------------------------------

/// A click presses and releases the left button at one place of one window; a resize
/// begins, goes live and ends with one size; a focus asks for the window.
pub proof fn law_actions_reach_their_window(id: u64, a: u32, b: u32, ts: u64)
    ensures
        ({
            let m = action_messages(ActionNote::Click { id, x: a, y: b }, ts);
            &&& m.len() == 2
            &&& m[0] matches ClientMessage::Input { id: at, event, ts: when } && at == id && when
                == ts && (event matches InputEvent::MouseDown { x, y, button } && x == a && y == b
                && button == MouseButton::Left)
            &&& m[1] matches ClientMessage::Input { id: at, event, ts: when } && at == id && when
                == ts && (event matches InputEvent::MouseUp { x, y, button } && x == a && y == b
                && button == MouseButton::Left)
        }),
        ({
            let m = action_messages(ActionNote::Resize { id, w: a, h: b }, ts);
            &&& m.len() == 3
            &&& forall|i: int|
                0 <= i < 3 ==> (#[trigger] m[i] matches ClientMessage::RequestResize {
                    id: at,
                    size,
                    phase,
                } && at == id && size.w == a && size.h == b && phase == if i == 0 {
                    ResizePhase::Begin
                } else if i == 1 {
                    ResizePhase::Live
                } else {
                    ResizePhase::End
                })
        }),
        ({
            let m = action_messages(ActionNote::Focus { id }, ts);
            &&& m.len() == 1
            &&& m[0] matches ClientMessage::RequestFocus { id: at } && at == id
        }),
{
}

/// Whether an action stands somewhere before another.
pub open spec fn comes_before(actions: Seq<ActionNote>, a: ActionNote, b: ActionNote) -> bool {
    exists|i: int, j: int|
        0 <= i < j < actions.len() && #[trigger] actions[i] == a && #[trigger] actions[j] == b
}

/// The planned actions are those that the options ask for: the click and the resize at
/// their own windows, the text at the target. The target is raised before anything is
/// clicked or typed, and a click comes before the text.
pub proof fn law_plans_are_what_was_asked(o: OptionsNote, target: u64, a: ActionNote)
    ensures
        planned(o, target).contains(a) <==> match a {
            ActionNote::Focus { id } => id == target && (o.click is Some || o.type_text is Some),
            ActionNote::Click { id, x, y } => o.click == Some((id, x, y)),
            ActionNote::Type { id, text } => id == target && o.type_text == Some(text),
            ActionNote::Resize { id, w, h } => o.resize == Some((id, w, h)),
        },
        planned(o, target).no_duplicates(),
        o.click matches Some(c) ==> comes_before(
            planned(o, target),
            ActionNote::Focus { id: target },
            ActionNote::Click { id: c.0, x: c.1, y: c.2 },
        ),
        o.type_text matches Some(text) ==> comes_before(
            planned(o, target),
            ActionNote::Focus { id: target },
            ActionNote::Type { id: target, text },
        ),
        o.type_text matches Some(text) ==> (o.click matches Some(c) ==> comes_before(
            planned(o, target),
            ActionNote::Click { id: c.0, x: c.1, y: c.2 },
            ActionNote::Type { id: target, text },
        )),
{
    let focus = ActionNote::Focus { id: target };
    let click = match o.click {
        Some((id, x, y)) => seq![ActionNote::Click { id, x, y }],
        None => Seq::empty(),
    };
    let typed = match o.type_text {
        Some(text) => seq![ActionNote::Type { id: target, text }],
        None => Seq::empty(),
    };
    let resize = match o.resize {
        Some((id, w, h)) => seq![ActionNote::Resize { id, w, h }],
        None => Seq::empty(),
    };
    let all = planned(o, target);
    let raised = if o.click is Some || o.type_text is Some {
        1int
    } else {
        0
    };
    let n = raised + click.len();
    let k = n + typed.len();
    if raised == 1 {
        assert(all[0] == focus);
    }
    if o.click is Some {
        assert(all[1] == click[0]);
    }
    if o.type_text is Some {
        assert(all[n] == typed[0]);
    }
    if o.resize is Some {
        assert(all[k] == resize[0]);
    }
}

// --- the mirror ------------------------------------------------------------

/// What a mirror knows of a window.
pub open spec fn mirrored(m: MirrorNote, id: u64) -> Option<(Seq<char>, Rect)> {
    if m.windows.contains_key(id) {
        Some(m.windows[id])
    } else {
        None
    }
}

/// The title and the rect of a window.
pub open spec fn title_and_rect(window: Option<WindowNote>) -> Option<(Seq<char>, Rect)> {
    match window {
        Some(w) => Some((w.title, w.source)),
        None => None,
    }
}

proof fn lemma_without_all(m: MirrorNote, ids: Seq<u64>, id: u64)
    ensures
        mirrored(m.without_all(ids), id) == if ids.contains(id) {
            None
        } else {
            mirrored(m, id)
        },
        m.without_all(ids).vds == m.vds,
    decreases ids.len(),
{
    if ids.len() > 0 {
        let front = ids.drop_last();
        lemma_without_all(m, front, id);
        assert(ids.contains(id) <==> front.contains(id) || ids.last() == id) by {
            if front.contains(id) {
                let i = choose|i: int| 0 <= i < front.len() && front[i] == id;
                assert(ids[i] == id);
            }
            if ids.contains(id) {
                let i = choose|i: int| 0 <= i < ids.len() && ids[i] == id;
                if i < front.len() {
                    assert(front[i] == id);
                }
            }
        }
    }
}

/// The mirror knows of every window the title and the rect that the events tell, and the
/// display size of the last connection.
pub proof fn law_mirror_follows_the_events(
    m: MirrorNote,
    ev: EventNote,
    id: u64,
    known: Option<WindowNote>,
)
    requires
        mirrored(m, id) == title_and_rect(known),
    ensures
        mirrored(m.after(ev), id) == title_and_rect(known_window(known, seq![ev], id)),
        m.after(ev).vds == match ev {
            EventNote::Connected { vds } => Some(vds),
            _ => m.vds,
        },
{
    reveal_with_fuel(known_window, 2);
    assert(seq![ev].drop_last() =~= Seq::<EventNote>::empty());
    if let EventNote::Resynced { removed } = ev {
        lemma_without_all(m, removed, id);
    }
}

/// A list without an id is the rest of the list, in order.
pub proof fn law_the_others_keep_their_order(order: Seq<u64>, id: u64)
    ensures
        without_id(order, id) == order.filter(|other: u64| other != id),
    decreases order.len(),
{
    reveal(Seq::filter);
    if order.len() > 0 {
        law_the_others_keep_their_order(order.drop_last(), id);
    }
}

/// A new window is listed last; one that is listed already stays where it is.
pub proof fn law_new_windows_come_last(m: MirrorNote, w: WindowNote)
    ensures
        m.after(EventNote::WindowAdded(w)).order == if m.order.contains(w.id) {
            m.order
        } else {
            m.order + seq![w.id]
        },
{
    assert(m.order.push(w.id) =~= m.order + seq![w.id]);
}

// --- a run -----------------------------------------------------------------

/// A run ends with its session, its time or its control channel, and with nothing else;
/// the last thing done is to stop. A video channel that closes does not end it.
pub proof fn law_runs_end(r: RunnerNote, ev: RunnerEventNote, now: u64)
    ensures
        ({
            let (after, outputs) = runner_step(r, ev, now);
            let ends = ev is Ended || ev is TimeOver || ev is ControlClosed;
            &&& ends ==> outputs.len() == 2 && outputs[0] is Line && outputs[1]
                == RunnerOutputNote::Stop && after == r
            &&& !ends ==> !outputs.contains(RunnerOutputNote::Stop)
        }),
{
}

/// The test actions are performed as soon as a window is known, at the first window of
/// the mirror, in order, and all of them in one step.
pub proof fn law_actions_start_with_the_first_window(
    r: RunnerNote,
    ev: EventNote,
    now: u64,
    i: int,
)
    requires
        r.pending,
    ensures
        ({
            let (after, outputs) = runner_step(r, RunnerEventNote::Control(ev), now);
            let known = r.mirror.after(ev).order;
            &&& after.mirror == r.mirror.after(ev)
            &&& known.len() == 0 ==> after.pending && outputs.len() == 1
            &&& known.len() > 0 ==> {
                let actions = planned(r.opts, known[0]);
                &&& !after.pending
                &&& outputs.len() == 1 + actions.len()
                &&& 0 <= i < actions.len() ==> outputs[1 + i] == RunnerOutputNote::Act(actions[i])
            }
            &&& outputs[0] is Line
        }),
{
}

/// Frames are counted one by one. Their bytes are added up until a second has passed since
/// the last report, which then tells all of them, and the next report starts from nothing.
pub proof fn law_video_is_reported_every_second(
    r: RunnerNote,
    seq: u64,
    keyframe: bool,
    len: nat,
    now: u64,
)
    requires
        !r.pending,
        r.frames < u64::MAX,
        r.video_bytes + len <= u64::MAX,
        r.reported_at <= now,
    ensures
        ({
            let (after, outputs) = runner_step(
                r,
                RunnerEventNote::VideoFrame { seq, keyframe, len },
                now,
            );
            &&& after.frames == r.frames + 1
            &&& now - r.reported_at < 1_000_000_000 ==> outputs.len() == 0 && after.video_bytes
                == r.video_bytes + len && after.reported_at == r.reported_at
            &&& now - r.reported_at >= 1_000_000_000 ==> {
                &&& outputs == seq![
                    RunnerOutputNote::VideoRate {
                        frames: (r.frames + 1) as u64,
                        bytes: (r.video_bytes + len) as u64,
                        nanos: (now - r.reported_at) as u64,
                        seq,
                        keyframe,
                    },
                ]
                &&& after.video_bytes == 0
                &&& after.reported_at == now
            }
        }),
{
    let (after, outputs) = runner_step(r, RunnerEventNote::VideoFrame { seq, keyframe, len }, now);
    assert(outputs =~= runner_event(
        r,
        RunnerEventNote::VideoFrame { seq, keyframe, len },
        now,
    ).1);
}

/// A size is printed as its width, an x and its height.
pub proof fn law_sizes_are_printed_width_first(w: nat, h: nat)
    ensures
        split_text(size_text(w, h), 'x') == seq![decimal(w), decimal(h)],
{
    reveal_strlit("x");
    lemma_no_x(w);
    lemma_no_x(h);
    assert("x"@ =~= seq!['x']);
    law_texts_are_cut_at_separators(decimal(w), decimal(w), 'x');
    law_texts_are_cut_at_separators(decimal(w), decimal(h), 'x');
    assert(seq![decimal(w)].push(decimal(h)) =~= seq![decimal(w), decimal(h)]);
}

proof fn lemma_no_x(n: nat)
    ensures
        !decimal(n).contains('x'),
{
    lemma_decimal_is_digits(n);
    if decimal(n).contains('x') {
        let i = choose|i: int| 0 <= i < decimal(n).len() && decimal(n)[i] == 'x';
        assert(is_digit(decimal(n)[i]));
    }
}

/// Whether a text has a part.
pub open spec fn tells(text: Seq<char>, part: Seq<char>) -> bool {
    exists|front: Seq<char>, back: Seq<char>| text == #[trigger] (front + part + back)
}

/// What is printed of an event tells the window and what happened to it: a new window's
/// title and place, a new place, a new title, or what the host complains of.
pub proof fn law_printed_events_tell_what_happened(ev: EventNote)
    ensures
        ({
            let text = event_text(ev);
            match ev {
                EventNote::Connected { vds } => tells(text, size_text(vds.w as nat, vds.h as nat)),
                EventNote::WindowAdded(w) => tells(text, decimal(w.id as nat)) && tells(
                    text,
                    w.title,
                ) && tells(text, rect_text(w.source)),
                EventNote::WindowRectChanged { id, source, size_changed } => tells(
                    text,
                    decimal(id as nat),
                ) && tells(text, rect_text(source)) && (size_changed ==> tells(
                    text,
                    " [resized]"@,
                )),
                EventNote::WindowTitleChanged { id, title } => tells(text, decimal(id as nat))
                    && tells(text, title),
                EventNote::WindowFocused { id } => tells(text, decimal(id as nat)),
                EventNote::WindowRemoved { id } => tells(text, decimal(id as nat)),
                EventNote::Resynced { removed } => tells(text, ids_text(removed)),
                EventNote::HostError { code, message } => tells(text, decimal(code as nat))
                    && tells(text, message),
            }
        }),
{
    let text = event_text(ev);
    let none = Seq::<char>::empty();
    match ev {
        EventNote::Connected { vds } => {
            let size = size_text(vds.w as nat, vds.h as nat);
            assert(text =~= "connected — VDS "@ + size + none);
        },
        EventNote::WindowAdded(w) => {
            let id = decimal(w.id as nat);
            let rect = rect_text(w.source);
            let kind = crate::trace::kind_text(w.kind);
            assert(text =~= "+ window "@ + id + (" \""@ + w.title + "\" "@ + kind + " source "@
                + rect));
            assert(text =~= ("+ window "@ + id + " \""@) + w.title + ("\" "@ + kind + " source "@
                + rect));
            assert(text =~= ("+ window "@ + id + " \""@ + w.title + "\" "@ + kind + " source "@)
                + rect + none);
        },
        EventNote::WindowRectChanged { id, source, size_changed } => {
            let number = decimal(id as nat);
            let rect = rect_text(source);
            let mark = if size_changed {
                " [resized]"@
            } else {
                ""@
            };
            assert(text =~= "~ window "@ + number + (" -> "@ + rect + mark));
            assert(text =~= ("~ window "@ + number + " -> "@) + rect + mark);
            assert(text =~= ("~ window "@ + number + " -> "@ + rect) + mark + none);
        },
        EventNote::WindowTitleChanged { id, title } => {
            let number = decimal(id as nat);
            assert(text =~= "~ window "@ + number + (" title \""@ + title + "\""@));
            assert(text =~= ("~ window "@ + number + " title \""@) + title + "\""@);
        },
        EventNote::WindowFocused { id } => {
            assert(text =~= "* window "@ + decimal(id as nat) + " focused"@);
        },
        EventNote::WindowRemoved { id } => {
            assert(text =~= "- window "@ + decimal(id as nat) + " destroyed"@);
        },
        EventNote::Resynced { removed } => {
            assert(text =~= "resync pruned ["@ + ids_text(removed) + "]"@);
        },
        EventNote::HostError { code, message } => {
            let number = decimal(code as nat);
            assert(text =~= "! host error "@ + number + (": "@ + message));
            assert(text =~= ("! host error "@ + number + ": "@) + message + none);
        },
    }
}

} // verus!
