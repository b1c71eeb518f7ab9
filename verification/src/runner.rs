//! The headless wire runner: it connects to a running host, prints the protocol as
//! it arrives, and can send test input and resize requests back. No window, no
//! decoder, just the wire.
//!
//! The session, the clock and the terminal belong to the caller, who performs what
//! each step asks for.

use vstd::prelude::*;
use std::collections::HashMap;

use crate::model::EventNote;
use crate::model::ModelEvent;
use crate::options::Options;
use crate::options::OptionsNote;
use crate::text::chars_of;
use crate::vk::needs_shift;
use crate::vk::vk_for_ascii;
use crate::vk::vk_of;
use crate::vk::VK_SHIFT;
use crate::wire::control::ClientMessage;
use crate::wire::control::Rect;
use crate::wire::control::ResizePhase;
use crate::wire::control::Size;
use crate::wire::input::InputEvent;
use crate::wire::input::MouseButton;

verus! {

broadcast use vstd::std_specs::hash::group_hash_axioms;

// ---------------------------------------------------------------------------
// The mirror of the window set
// ---------------------------------------------------------------------------

/// A local mirror of the window set, to pick a default target and print titles.
pub struct Mirror {
    windows: HashMap<u64, (String, Rect)>,
    order: Vec<u64>,
    vds: Option<Size>,
}

/// What a [`Mirror`] holds.
pub struct MirrorNote {
    pub windows: Map<u64, (Seq<char>, Rect)>,
    pub order: Seq<u64>,
    pub vds: Option<Size>,
}

/// The ids of a list but one.
pub open spec fn without_id(order: Seq<u64>, id: u64) -> Seq<u64>
    decreases order.len(),
{
    if order.len() == 0 {
        Seq::empty()
    } else {
        let before = without_id(order.drop_last(), id);
        if order.last() == id {
            before
        } else {
            before.push(order.last())
        }
    }
}

impl MirrorNote {
    pub open spec fn without(self, id: u64) -> MirrorNote {
        MirrorNote {
            windows: self.windows.remove(id),
            order: without_id(self.order, id),
            ..self
        }
    }

    pub open spec fn without_all(self, ids: Seq<u64>) -> MirrorNote
        decreases ids.len(),
    {
        if ids.len() == 0 {
            self
        } else {
            self.without_all(ids.drop_last()).without(ids.last())
        }
    }

    /// The mirror once a model event is known.
    pub open spec fn after(self, ev: EventNote) -> MirrorNote {
        match ev {
            EventNote::Connected { vds } => MirrorNote { vds: Some(vds), ..self },
            EventNote::WindowAdded(w) => MirrorNote {
                windows: self.windows.insert(w.id, (w.title, w.source)),
                order: if self.order.contains(w.id) {
                    self.order
                } else {
                    self.order.push(w.id)
                },
                ..self
            },
            EventNote::WindowRectChanged { id, source, size_changed } =>
                if self.windows.contains_key(id) {
                MirrorNote {
                    windows: self.windows.insert(id, (self.windows[id].0, source)),
                    ..self
                }
            } else {
                self
            },
            EventNote::WindowTitleChanged { id, title } => if self.windows.contains_key(id) {
                MirrorNote {
                    windows: self.windows.insert(id, (title, self.windows[id].1)),
                    ..self
                }
            } else {
                self
            },
            EventNote::WindowRemoved { id } => self.without(id),
            EventNote::Resynced { removed } => self.without_all(removed),
            _ => self,
        }
    }

    /// The order lists exactly the known windows, each once.
    pub open spec fn sound(self) -> bool {
        &&& self.order.no_duplicates()
        &&& forall|id: u64| self.order.contains(id) <==> #[trigger] self.windows.contains_key(id)
    }
}

proof fn lemma_without_id(order: Seq<u64>, id: u64)
    ensures
        order.no_duplicates() ==> without_id(order, id).no_duplicates(),
        forall|x: u64|
            #[trigger] without_id(order, id).contains(x) <==> order.contains(x) && x != id,
    decreases order.len(),
{
    if order.len() > 0 {
        let front = order.drop_last();
        lemma_without_id(front, id);
        let before = without_id(front, id);
        let all = without_id(order, id);
        let last = order.last();
        assert(order[order.len() - 1] == last);
        assert forall|x: u64| #[trigger] all.contains(x) <==> order.contains(x) && x != id by {
            assert(before.contains(x) <==> front.contains(x) && x != id);
            if all.contains(x) {
                let k = choose|k: int| 0 <= k < all.len() && all[k] == x;
                if k < before.len() {
                    assert(before[k] == x);
                    let m = choose|m: int| 0 <= m < front.len() && front[m] == x;
                    assert(order[m] == x);
                }
            }
            if order.contains(x) && x != id {
                let k = choose|k: int| 0 <= k < order.len() && order[k] == x;
                if k < front.len() {
                    assert(front[k] == x);
                    let m = choose|m: int| 0 <= m < before.len() && before[m] == x;
                    assert(all[m] == x);
                } else {
                    assert(all[all.len() - 1] == x);
                }
            }
        }
        if order.no_duplicates() {
            assert(front.no_duplicates());
            if last != id {
                assert(!before.contains(last)) by {
                    if before.contains(last) {
                        assert(front.contains(last));
                        let m = choose|m: int| 0 <= m < front.len() && front[m] == last;
                        assert(order[m] == last);
                    }
                }
            }
        }
    }
}

proof fn lemma_without_stays_sound(m: MirrorNote, id: u64)
    requires
        m.sound(),
    ensures
        m.without(id).sound(),
{
    lemma_without_id(m.order, id);
}

proof fn lemma_without_all_stays_sound(m: MirrorNote, ids: Seq<u64>)
    requires
        m.sound(),
    ensures
        m.without_all(ids).sound(),
    decreases ids.len(),
{
    if ids.len() > 0 {
        lemma_without_all_stays_sound(m, ids.drop_last());
        lemma_without_stays_sound(m.without_all(ids.drop_last()), ids.last());
    }
}

/// Whatever events come, the order keeps listing exactly the known windows, each
/// once.
pub proof fn law_mirror_stays_sound(m: MirrorNote, ev: EventNote)
    requires
        m.sound(),
    ensures
        m.after(ev).sound(),
{
    match ev {
        EventNote::WindowAdded(w) => {
            let order = m.order.push(w.id);
            if !m.order.contains(w.id) {
                assert forall|id: u64| order.contains(id) <==> #[trigger] m.after(
                    ev,
                ).windows.contains_key(id) by {
                    assert(m.order.contains(id) <==> m.windows.contains_key(id));
                    if m.order.contains(id) {
                        let k = choose|k: int| 0 <= k < m.order.len() && m.order[k] == id;
                        assert(order[k] == id);
                    }
                    assert(order[order.len() - 1] == w.id);
                }
            } else {
                assert(m.windows.contains_key(w.id));
            }
        },
        EventNote::WindowRemoved { id } => {
            lemma_without_stays_sound(m, id);
        },
        EventNote::Resynced { removed } => {
            lemma_without_all_stays_sound(m, removed);
        },
        _ => {},
    }
}

pub open spec fn titles_view(windows: Map<u64, (String, Rect)>) -> Map<u64, (Seq<char>, Rect)> {
    windows.map_values(|entry: (String, Rect)| (entry.0@, entry.1))
}

fn remove_id(order: &mut Vec<u64>, id: u64)
    ensures
        final(order)@ == without_id(old(order)@, id),
{
    let ghost all = order@;
    let mut i: usize = 0;
    let ghost mut seen: int = 0;
    proof {
        assert(all.take(0) =~= Seq::<u64>::empty());
        assert(Seq::<u64>::empty() + all.skip(0) =~= all);
    }
    while i < order.len()
        invariant
            0 <= seen <= all.len(),
            i == without_id(all.take(seen), id).len(),
            order@ == without_id(all.take(seen), id) + all.skip(seen),
        decreases order@.len() - i,
    {
        let ghost kept = without_id(all.take(seen), id);
        proof {
            assert(order@[i as int] == all[seen]);
            assert(all.take(seen + 1).drop_last() =~= all.take(seen));
        }
        if order[i] == id {
            order.remove(i);
            proof {
                assert(order@ =~= kept + all.skip(seen + 1));
            }
        } else {
            proof {
                assert(kept + all.skip(seen) =~= kept.push(all[seen]) + all.skip(seen + 1));
            }
            i += 1;
        }
        proof {
            seen = seen + 1;
        }
    }
    proof {
        assert(all.skip(seen).len() == 0);
        assert(all.take(seen) =~= all);
        assert(order@ =~= without_id(all, id));
    }
}

fn lists_id(order: &Vec<u64>, id: u64) -> (listed: bool)
    ensures
        listed == order@.contains(id),
{
    let mut i: usize = 0;
    while i < order.len()
        invariant
            i <= order@.len(),
            forall|k: int| 0 <= k < i ==> order@[k] != id,
        decreases order@.len() - i,
    {
        if order[i] == id {
            return true;
        }
        i += 1;
    }
    false
}

impl Mirror {
    pub closed spec fn view(&self) -> MirrorNote {
        MirrorNote {
            windows: titles_view(self.windows@),
            order: self.order@,
            vds: self.vds,
        }
    }

    /// No window is known yet.
    pub fn new() -> (mirror: Self)
        ensures
            mirror@ == (MirrorNote { windows: Map::empty(), order: Seq::empty(), vds: None }),
            mirror@.sound(),
    {
        let mirror = Mirror { windows: HashMap::new(), order: Vec::new(), vds: None };
        proof {
            assert(mirror@.windows =~= Map::<u64, (Seq<char>, Rect)>::empty());
        }
        mirror
    }

    /// The first window that is still known.
    pub fn first(&self) -> (id: Option<u64>)
        ensures
            id == if self@.order.len() > 0 {
                Some(self@.order[0])
            } else {
                None
            },
    {
        if self.order.len() > 0 {
            Some(self.order[0])
        } else {
            None
        }
    }

    /// The title of a known window.
    pub fn title(&self, id: u64) -> (title: Option<&str>)
        ensures
            match title {
                Some(title) => self@.windows.contains_key(id) && title@ == self@.windows[id].0,
                None => !self@.windows.contains_key(id),
            },
    {
        match self.windows.get(&id) {
            Some(entry) => Some(entry.0.as_str()),
            None => None,
        }
    }

    fn forget(&mut self, id: u64)
        ensures
            final(self)@ == old(self)@.without(id),
    {
        self.windows.remove(&id);
        remove_id(&mut self.order, id);
        proof {
            assert(self@.windows =~= old(self)@.windows.remove(id));
        }
    }

    /// Update the mirror from a model event.
    pub fn apply_for_display(&mut self, ev: &ModelEvent)
        ensures
            final(self)@ == old(self)@.after(ev@),
            old(self)@.sound() ==> final(self)@.sound(),
    {
        let ghost before = self@;
        proof {
            if before.sound() {
                law_mirror_stays_sound(before, ev@);
            }
        }
        match ev {
            ModelEvent::Connected { vds } => {
                self.vds = Some(*vds);
            },
            ModelEvent::WindowAdded(w) => {
                if !lists_id(&self.order, w.id) {
                    self.order.push(w.id);
                }
                self.windows.insert(w.id, (w.title.clone(), w.source));
                proof {
                    assert(self@.windows =~= before.windows.insert(w.id, (w.title@, w.source)));
                }
            },
            ModelEvent::WindowRectChanged { id, source, size_changed } => {
                match self.windows.remove(id) {
                    Some(entry) => {
                        let ghost title = entry.0@;
                        self.windows.insert(*id, (entry.0, *source));
                        proof {
                            assert(self@.windows =~= before.windows.insert(*id, (title, *source)));
                        }
                    },
                    None => {
                        proof {
                            assert(self@.windows =~= before.windows);
                        }
                    },
                }
            },
            ModelEvent::WindowTitleChanged { id, title } => {
                match self.windows.remove(id) {
                    Some(entry) => {
                        self.windows.insert(*id, (title.clone(), entry.1));
                        proof {
                            assert(self@.windows =~= before.windows.insert(*id, (title@, entry.1)));
                        }
                    },
                    None => {
                        proof {
                            assert(self@.windows =~= before.windows);
                        }
                    },
                }
            },
            ModelEvent::WindowRemoved { id } => {
                self.forget(*id);
            },
            ModelEvent::Resynced { removed } => {
                let mut i: usize = 0;
                proof {
                    assert(removed@.take(0) =~= Seq::<u64>::empty());
                }
                while i < removed.len()
                    invariant
                        i <= removed@.len(),
                        self@ == before.without_all(removed@.take(i as int)),
                    decreases removed@.len() - i,
                {
                    proof {
                        assert(removed@.take(i + 1).drop_last() =~= removed@.take(i as int));
                    }
                    self.forget(removed[i]);
                    i += 1;
                }
                proof {
                    assert(removed@.take(i as int) =~= removed@);
                }
            },
            _ => {},
        }
    }
}

// ---------------------------------------------------------------------------
// Test actions
// ---------------------------------------------------------------------------

/// Something to do to a host window, once.
#[derive(Debug)]
pub enum Action {
    /// Raise the window first so input lands in the right place.
    Focus { id: u64 },
    Click { id: u64, x: u32, y: u32 },
    Type { id: u64, text: String },
    /// A full begin/live/end cycle: the host throttles live sizes and snaps on end.
    Resize { id: u64, w: u32, h: u32 },
}

/// What an [`Action`] says.
pub enum ActionNote {
    Focus { id: u64 },
    Click { id: u64, x: u32, y: u32 },
    Type { id: u64, text: Seq<char> },
    Resize { id: u64, w: u32, h: u32 },
}

impl Action {
    pub open spec fn view(&self) -> ActionNote {
        match self {
            Action::Focus { id } => ActionNote::Focus { id: *id },
            Action::Click { id, x, y } => ActionNote::Click { id: *id, x: *x, y: *y },
            Action::Type { id, text } => ActionNote::Type { id: *id, text: text@ },
            Action::Resize { id, w, h } => ActionNote::Resize { id: *id, w: *w, h: *h },
        }
    }
}

pub open spec fn action_notes(actions: Seq<Action>) -> Seq<ActionNote> {
    Seq::new(actions.len(), |i: int| actions[i]@)
}

/// A key event for a window.
pub open spec fn key_message(id: u64, down: bool, vk: u32, ts: u64) -> ClientMessage {
    ClientMessage::Input {
        id,
        event: if down {
            InputEvent::KeyDown { vk }
        } else {
            InputEvent::KeyUp { vk }
        },
        ts,
    }
}

/// The key events that type `c`, none where no key does.
pub open spec fn char_messages(id: u64, c: char, ts: u64) -> Seq<ClientMessage> {
    match vk_of(c) {
        None => Seq::empty(),
        Some(vk) => if 'A' <= c <= 'Z' {
            seq![
                key_message(id, true, VK_SHIFT, ts),
                key_message(id, true, vk, ts),
                key_message(id, false, vk, ts),
                key_message(id, false, VK_SHIFT, ts),
            ]
        } else {
            seq![key_message(id, true, vk, ts), key_message(id, false, vk, ts)]
        },
    }
}

/// The key events that type a text.
pub open spec fn text_messages(id: u64, text: Seq<char>, ts: u64) -> Seq<ClientMessage>
    decreases text.len(),
{
    if text.len() == 0 {
        Seq::empty()
    } else {
        text_messages(id, text.drop_last(), ts) + char_messages(id, text.last(), ts)
    }
}

/// The characters of a text that no key types.
pub open spec fn untypeable(text: Seq<char>) -> Seq<char>
    decreases text.len(),
{
    if text.len() == 0 {
        Seq::empty()
    } else {
        let before = untypeable(text.drop_last());
        if vk_of(text.last()) is None {
            before.push(text.last())
        } else {
            before
        }
    }
}

/// The messages that perform an action.
pub open spec fn action_messages(action: ActionNote, ts: u64) -> Seq<ClientMessage> {
    match action {
        ActionNote::Focus { id } => seq![ClientMessage::RequestFocus { id }],
        ActionNote::Click { id, x, y } => seq![
            ClientMessage::Input {
                id,
                event: InputEvent::MouseDown { x, y, button: MouseButton::Left },
                ts,
            },
            ClientMessage::Input {
                id,
                event: InputEvent::MouseUp { x, y, button: MouseButton::Left },
                ts,
            },
        ],
        ActionNote::Type { id, text } => text_messages(id, text, ts),
        ActionNote::Resize { id, w, h } => seq![
            ClientMessage::RequestResize { id, size: Size { w, h }, phase: ResizePhase::Begin },
            ClientMessage::RequestResize { id, size: Size { w, h }, phase: ResizePhase::Live },
            ClientMessage::RequestResize { id, size: Size { w, h }, phase: ResizePhase::End },
        ],
    }
}

/// The actions that the options ask for, at the window `target`.
pub open spec fn planned(o: OptionsNote, target: u64) -> Seq<ActionNote> {
    (if o.type_text is Some || o.click is Some {
        seq![ActionNote::Focus { id: target }]
    } else {
        Seq::empty()
    }) + (match o.click {
        Some((id, x, y)) => seq![ActionNote::Click { id, x, y }],
        None => Seq::empty(),
    }) + (match o.type_text {
        Some(text) => seq![ActionNote::Type { id: target, text }],
        None => Seq::empty(),
    }) + (match o.resize {
        Some((id, w, h)) => seq![ActionNote::Resize { id, w, h }],
        None => Seq::empty(),
    })
}

fn push_key(out: &mut Vec<ClientMessage>, id: u64, down: bool, vk: u32, ts: u64)
    ensures
        final(out)@ == old(out)@.push(key_message(id, down, vk, ts)),
{
    let event = if down {
        InputEvent::KeyDown { vk }
    } else {
        InputEvent::KeyUp { vk }
    };
    out.push(ClientMessage::Input { id, event, ts });
}

/// The key events that type `text` into a window, and the characters that no key
/// types, which are left out.
pub fn send_text(id: u64, text: &str, ts: u64) -> (result: (Vec<ClientMessage>, Vec<char>))
    ensures
        result.0@ == text_messages(id, text@, ts),
        result.1@ == untypeable(text@),
{
    let chars = chars_of(text);
    let mut out: Vec<ClientMessage> = Vec::new();
    let mut skipped: Vec<char> = Vec::new();
    let mut i: usize = 0;
    proof {
        assert(text@.take(0) =~= Seq::<char>::empty());
    }
    while i < chars.len()
        invariant
            i <= chars@.len(),
            chars@ == text@,
            out@ == text_messages(id, text@.take(i as int), ts),
            skipped@ == untypeable(text@.take(i as int)),
        decreases chars@.len() - i,
    {
        let c = chars[i];
        let ghost before = out@;
        proof {
            assert(text@.take(i + 1).drop_last() =~= text@.take(i as int));
        }
        match vk_for_ascii(c) {
            None => {
                skipped.push(c);
                proof {
                    assert(before + Seq::<ClientMessage>::empty() =~= before);
                }
            },
            Some(code) => {
                let shift = needs_shift(c);
                if shift {
                    push_key(&mut out, id, true, VK_SHIFT, ts);
                }
                push_key(&mut out, id, true, code, ts);
                push_key(&mut out, id, false, code, ts);
                if shift {
                    push_key(&mut out, id, false, VK_SHIFT, ts);
                }
                proof {
                    assert(out@ =~= before + char_messages(id, c, ts));
                }
            },
        }
        i += 1;
    }
    proof {
        assert(text@.take(i as int) =~= text@);
    }
    (out, skipped)
}

/// A left click at a window-local pixel.
pub fn send_click(id: u64, x: u32, y: u32, ts: u64) -> (messages: Vec<ClientMessage>)
    ensures
        messages@ == action_messages(ActionNote::Click { id, x, y }, ts),
{
    let messages = vec![
        ClientMessage::Input {
            id,
            event: InputEvent::MouseDown { x, y, button: MouseButton::Left },
            ts,
        },
        ClientMessage::Input {
            id,
            event: InputEvent::MouseUp { x, y, button: MouseButton::Left },
            ts,
        },
    ];
    proof {
        assert(messages@ =~= action_messages(ActionNote::Click { id, x, y }, ts));
    }
    messages
}

impl Action {
    /// The messages that perform this action, at the time `ts` in milliseconds.
    pub fn messages(&self, ts: u64) -> (messages: Vec<ClientMessage>)
        ensures
            messages@ == action_messages(self@, ts),
    {
        let messages = match self {
            Action::Focus { id } => vec![ClientMessage::RequestFocus { id: *id }],
            Action::Click { id, x, y } => send_click(*id, *x, *y, ts),
            Action::Type { id, text } => send_text(*id, text.as_str(), ts).0,
            Action::Resize { id, w, h } => vec![
                ClientMessage::RequestResize {
                    id: *id,
                    size: Size { w: *w, h: *h },
                    phase: ResizePhase::Begin,
                },
                ClientMessage::RequestResize {
                    id: *id,
                    size: Size { w: *w, h: *h },
                    phase: ResizePhase::Live,
                },
                ClientMessage::RequestResize {
                    id: *id,
                    size: Size { w: *w, h: *h },
                    phase: ResizePhase::End,
                },
            ],
        };
        proof {
            assert(messages@ =~= action_messages(self@, ts));
        }
        messages
    }
}

/// The actions that the options ask for, at the window `target`.
pub fn plan_actions(opts: &Options, target: u64) -> (actions: Vec<Action>)
    ensures
        action_notes(actions@) == planned(opts@, target),
{
    let mut actions: Vec<Action> = Vec::new();
    if opts.type_text.is_some() || opts.click.is_some() {
        actions.push(Action::Focus { id: target });
    }
    match opts.click {
        Some((id, x, y)) => {
            actions.push(Action::Click { id, x, y });
        },
        None => {},
    }
    match &opts.type_text {
        Some(text) => {
            actions.push(Action::Type { id: target, text: text.clone() });
        },
        None => {},
    }
    match opts.resize {
        Some((id, w, h)) => {
            actions.push(Action::Resize { id, w, h });
        },
        None => {},
    }
    proof {
        assert(action_notes(actions@) =~= planned(opts@, target));
    }
    actions
}

} // verus!
