//! The window model: the platform-independent heart of "the client is the real
//! window manager."
//!
//! It consumes the control stream and maintains the set of live windows, each with
//! its **source rect**: the sub-rectangle of the shared texture that this window
//! occupies. The platform layer turns the emitted events into native windows,
//! swapchain resizes and crop rectangles, but owns none of this bookkeeping.
//!
//! Rects are physical pixels; no scaling lives here. The host reports actual
//! geometry; the model stores what it is told and never assumes that a requested
//! size took effect.

use vstd::prelude::*;

use crate::wire::control::Rect;
use crate::wire::control::ServerMessage;
use crate::wire::control::ServerNote;
use crate::wire::control::Size;
use crate::wire::control::TileWindow;
use crate::wire::control::WindowKind;

verus! {

/// One managed window. `source` is its crop in the shared texture; its `w` and `h`
/// are also exactly the pixel size of the native proxy window's client area.
#[derive(Debug, PartialEq, Eq)]
pub struct Window {
    pub id: u64,
    pub source: Rect,
    pub title: String,
    pub kind: WindowKind,
}

/// A high-level change the platform layer must react to.
#[derive(Debug, PartialEq, Eq)]
pub enum ModelEvent {
    /// The host sent `hello`: everything before is stale.
    Connected { vds: Size },
    /// A new window: create a proxy sized to `source.w` by `source.h`.
    WindowAdded(Window),
    /// The window's source rect changed. If `size_changed`, the proxy's swapchain
    /// must be resized to the new size, which is the actual one.
    WindowRectChanged { id: u64, source: Rect, size_changed: bool },
    WindowTitleChanged { id: u64, title: String },
    /// The Mac raised this window; reflect focus in the proxy set.
    WindowFocused { id: u64 },
    /// The window is gone: destroy its proxy.
    WindowRemoved { id: u64 },
    /// After a layout resync, these ids were not in the layout and have been dropped
    /// from the model, so that a reconnecting client can prune proxies that died
    /// while it was away.
    Resynced { removed: Vec<u64> },
    /// The host sent an error. Surfaced for logging; not fatal on its own.
    HostError { code: u32, message: String },
}

/// The live window set plus session state. Ordered by insertion so proxy stacking
/// and Alt-Tab order is stable and debuggable.
#[derive(Debug)]
pub struct WindowModel {
    vds: Option<Size>,
    windows: Vec<Window>,
    focused: Option<u64>,
}

// ---------------------------------------------------------------------------
// The mathematical model
// ---------------------------------------------------------------------------

/// What a [`Window`] holds.
pub struct WindowNote {
    pub id: u64,
    pub source: Rect,
    pub title: Seq<char>,
    pub kind: WindowKind,
}

/// What a [`ModelEvent`] says.
pub enum EventNote {
    Connected { vds: Size },
    WindowAdded(WindowNote),
    WindowRectChanged { id: u64, source: Rect, size_changed: bool },
    WindowTitleChanged { id: u64, title: Seq<char> },
    WindowFocused { id: u64 },
    WindowRemoved { id: u64 },
    Resynced { removed: Seq<u64> },
    HostError { code: u32, message: Seq<char> },
}

/// What a [`WindowModel`] holds.
pub struct ModelNote {
    pub vds: Option<Size>,
    pub windows: Seq<WindowNote>,
    pub focused: Option<u64>,
}

impl Window {
    pub open spec fn view(&self) -> WindowNote {
        WindowNote { id: self.id, source: self.source, title: self.title@, kind: self.kind }
    }
}

impl Clone for Window {
    fn clone(&self) -> (copy: Self)
        ensures
            copy@ == self@,
    {
        Window { id: self.id, source: self.source, title: self.title.clone(), kind: self.kind }
    }
}

impl ModelEvent {
    pub open spec fn view(&self) -> EventNote {
        match self {
            ModelEvent::Connected { vds } => EventNote::Connected { vds: *vds },
            ModelEvent::WindowAdded(window) => EventNote::WindowAdded(window@),
            ModelEvent::WindowRectChanged { id, source, size_changed } =>
                EventNote::WindowRectChanged {
                id: *id,
                source: *source,
                size_changed: *size_changed,
            },
            ModelEvent::WindowTitleChanged { id, title } => EventNote::WindowTitleChanged {
                id: *id,
                title: title@,
            },
            ModelEvent::WindowFocused { id } => EventNote::WindowFocused { id: *id },
            ModelEvent::WindowRemoved { id } => EventNote::WindowRemoved { id: *id },
            ModelEvent::Resynced { removed } => EventNote::Resynced { removed: removed@ },
            ModelEvent::HostError { code, message } => EventNote::HostError {
                code: *code,
                message: message@,
            },
        }
    }
}

pub open spec fn window_notes(windows: Seq<Window>) -> Seq<WindowNote> {
    Seq::new(windows.len(), |i: int| windows[i]@)
}

pub open spec fn event_notes(events: Seq<ModelEvent>) -> Seq<EventNote> {
    Seq::new(events.len(), |i: int| events[i]@)
}

/// Whether a window with this id is tracked.
pub open spec fn has_window(windows: Seq<WindowNote>, id: u64) -> bool {
    exists|i: int| 0 <= i < windows.len() && (#[trigger] windows[i]).id == id
}

/// Where the window with this id stands.
pub open spec fn place_of(windows: Seq<WindowNote>, id: u64) -> int {
    choose|i: int| 0 <= i < windows.len() && (#[trigger] windows[i]).id == id
}

/// No id occurs twice.
pub open spec fn ids_unique(windows: Seq<WindowNote>) -> bool {
    forall|i: int, j: int|
        0 <= i < j < windows.len() ==> (#[trigger] windows[i]).id != (#[trigger] windows[j]).id
}

pub open spec fn size_differs(a: Rect, b: Rect) -> bool {
    a.w != b.w || a.h != b.h
}

/// Whether a layout lists this id.
pub open spec fn in_layout(tiles: Seq<TileWindow>, id: u64) -> bool {
    exists|i: int| 0 <= i < tiles.len() && (#[trigger] tiles[i]).id == id
}

/// A tracked window takes the rect of its tile; an unseen one is added, titleless
/// and normal until a later message fills it in.
pub open spec fn place_tile(
    windows: Seq<WindowNote>,
    events: Seq<EventNote>,
    tile: TileWindow,
) -> (Seq<WindowNote>, Seq<EventNote>) {
    if has_window(windows, tile.id) {
        let i = place_of(windows, tile.id);
        let old = windows[i];
        if old.source == tile.rect {
            (windows, events)
        } else {
            (
                windows.update(i, WindowNote { source: tile.rect, ..old }),
                events.push(
                    EventNote::WindowRectChanged {
                        id: tile.id,
                        source: tile.rect,
                        size_changed: size_differs(old.source, tile.rect),
                    },
                ),
            )
        }
    } else {
        let window = WindowNote {
            id: tile.id,
            source: tile.rect,
            title: Seq::empty(),
            kind: WindowKind::Normal,
        };
        (windows.push(window), events.push(EventNote::WindowAdded(window)))
    }
}

/// All tiles of a layout, placed in order.
pub open spec fn place_tiles(windows: Seq<WindowNote>, tiles: Seq<TileWindow>) -> (
    Seq<WindowNote>,
    Seq<EventNote>,
)
    decreases tiles.len(),
{
    if tiles.len() == 0 {
        (windows, Seq::empty())
    } else {
        let (placed, events) = place_tiles(windows, tiles.drop_last());
        place_tile(placed, events, tiles.last())
    }
}

/// The windows that a layout lists, in their order.
pub open spec fn listed(windows: Seq<WindowNote>, tiles: Seq<TileWindow>) -> Seq<WindowNote>
    decreases windows.len(),
{
    if windows.len() == 0 {
        Seq::empty()
    } else {
        let before = listed(windows.drop_last(), tiles);
        if in_layout(tiles, windows.last().id) {
            before.push(windows.last())
        } else {
            before
        }
    }
}

/// The ids of the windows that a layout does not list, in their order.
pub open spec fn unlisted(windows: Seq<WindowNote>, tiles: Seq<TileWindow>) -> Seq<u64>
    decreases windows.len(),
{
    if windows.len() == 0 {
        Seq::empty()
    } else {
        let before = unlisted(windows.drop_last(), tiles);
        if in_layout(tiles, windows.last().id) {
            before
        } else {
            before.push(windows.last().id)
        }
    }
}

/// What one server message does to the model, and the events that come of it.
pub open spec fn model_step(m: ModelNote, msg: ServerNote) -> (ModelNote, Seq<EventNote>) {
    match msg {
        ServerNote::Hello { protocol, vds } => (
            ModelNote { vds: Some(vds), ..m },
            seq![EventNote::Connected { vds }],
        ),
        ServerNote::WindowCreated { id, rect, title, kind } => {
            let window = WindowNote { id, source: rect, title, kind };
            if has_window(m.windows, id) {
                // A create for a tracked id is an update, so a duplicate is idempotent
                // rather than a second proxy.
                let i = place_of(m.windows, id);
                (
                    ModelNote { windows: m.windows.update(i, window), ..m },
                    seq![
                        EventNote::WindowRectChanged {
                            id,
                            source: rect,
                            size_changed: size_differs(m.windows[i].source, rect),
                        },
                    ],
                )
            } else {
                (
                    ModelNote { windows: m.windows.push(window), ..m },
                    seq![EventNote::WindowAdded(window)],
                )
            }
        },
        ServerNote::WindowMoved { id, rect } => if has_window(m.windows, id) {
            let i = place_of(m.windows, id);
            let old = m.windows[i];
            (
                ModelNote { windows: m.windows.update(i, WindowNote { source: rect, ..old }), ..m },
                seq![
                    EventNote::WindowRectChanged {
                        id,
                        source: rect,
                        size_changed: size_differs(old.source, rect),
                    },
                ],
            )
        } else {
            // Ignored rather than inventing a window with no title or kind.
            (m, Seq::empty())
        },
        ServerNote::WindowTitle { id, title } => if has_window(m.windows, id) {
            let i = place_of(m.windows, id);
            (
                ModelNote {
                    windows: m.windows.update(i, WindowNote { title, ..m.windows[i] }),
                    ..m
                },
                seq![EventNote::WindowTitleChanged { id, title }],
            )
        } else {
            (m, Seq::empty())
        },
        ServerNote::WindowFocused { id } => (
            ModelNote { focused: Some(id), ..m },
            seq![EventNote::WindowFocused { id }],
        ),
        ServerNote::WindowDestroyed { id } => if has_window(m.windows, id) {
            (
                ModelNote {
                    windows: m.windows.remove(place_of(m.windows, id)),
                    focused: if m.focused == Some(id) {
                        None
                    } else {
                        m.focused
                    },
                    ..m
                },
                seq![EventNote::WindowRemoved { id }],
            )
        } else {
            (m, Seq::empty())
        },
        ServerNote::TileLayout { windows, display } => {
            let (placed, events) = place_tiles(m.windows, windows);
            let removed = unlisted(placed, windows);
            (
                ModelNote {
                    vds: Some(display),
                    windows: listed(placed, windows),
                    focused: match m.focused {
                        Some(id) => if in_layout(windows, id) {
                            Some(id)
                        } else {
                            None
                        },
                        None => None,
                    },
                },
                if removed.len() == 0 {
                    events
                } else {
                    events.push(EventNote::Resynced { removed })
                },
            )
        },
        ServerNote::Error { code, message } => (m, seq![EventNote::HostError { code, message }]),
    }
}

// ---------------------------------------------------------------------------
// The model itself
// ---------------------------------------------------------------------------

proof fn lemma_place(windows: Seq<WindowNote>, i: int)
    requires
        ids_unique(windows),
        0 <= i < windows.len(),
    ensures
        has_window(windows, windows[i].id),
        place_of(windows, windows[i].id) == i,
{
    let p = place_of(windows, windows[i].id);
    assert(0 <= p < windows.len() && windows[p].id == windows[i].id);
    if p < i {
        assert(windows[p].id != windows[i].id);
    } else if i < p {
        assert(windows[i].id != windows[p].id);
    }
}

impl Default for WindowModel {
    fn default() -> (model: Self)
        ensures
            model.wf(),
            model@ == (ModelNote { vds: None, windows: Seq::empty(), focused: None }),
    {
        WindowModel::new()
    }
}

impl WindowModel {
    pub closed spec fn view(&self) -> ModelNote {
        ModelNote { vds: self.vds, windows: window_notes(self.windows@), focused: self.focused }
    }

    /// No window id is tracked twice.
    pub open spec fn wf(&self) -> bool {
        ids_unique(self@.windows)
    }

    pub fn new() -> (model: Self)
        ensures
            model.wf(),
            model@ == (ModelNote { vds: None, windows: Seq::empty(), focused: None }),
    {
        let model = WindowModel { vds: None, windows: Vec::new(), focused: None };
        proof {
            assert(model@.windows =~= Seq::<WindowNote>::empty());
        }
        model
    }

    pub fn vds(&self) -> (vds: Option<Size>)
        ensures
            vds == self@.vds,
    {
        self.vds
    }

    pub fn focused(&self) -> (focused: Option<u64>)
        ensures
            focused == self@.focused,
    {
        self.focused
    }

    pub fn windows(&self) -> (windows: &[Window])
        ensures
            window_notes(windows@) == self@.windows,
    {
        self.windows.as_slice()
    }

    pub fn get(&self, id: u64) -> (window: Option<&Window>)
        requires
            self.wf(),
        ensures
            match window {
                Some(window) => has_window(self@.windows, id) && window@ == self@.windows[place_of(
                    self@.windows,
                    id,
                )],
                None => !has_window(self@.windows, id),
            },
    {
        match self.index_of(id) {
            Some(i) => Some(&self.windows[i]),
            None => None,
        }
    }

    fn index_of(&self, id: u64) -> (index: Option<usize>)
        requires
            self.wf(),
        ensures
            match index {
                Some(i) => {
                    &&& has_window(self@.windows, id)
                    &&& i == place_of(self@.windows, id)
                    &&& i < self.windows@.len()
                    &&& self.windows@[i as int].id == id
                },
                None => !has_window(self@.windows, id),
            },
    {
        let mut i: usize = 0;
        while i < self.windows.len()
            invariant
                i <= self.windows@.len(),
                self.wf(),
                forall|k: int| 0 <= k < i ==> (#[trigger] self.windows@[k]).id != id,
            decreases self.windows@.len() - i,
        {
            if self.windows[i].id == id {
                proof {
                    assert(self@.windows[i as int].id == id);
                    lemma_place(self@.windows, i as int);
                }
                return Some(i);
            }
            i += 1;
        }
        proof {
            assert forall|k: int| 0 <= k < self@.windows.len() implies (
            #[trigger] self@.windows[k]).id != id by {
                assert(self.windows@[k].id != id);
            }
        }
        None
    }

    /// Give the window at `i` a new source rect; whether its size changes.
    fn move_window(&mut self, i: usize, rect: Rect) -> (size_changed: bool)
        requires
            i < old(self)@.windows.len(),
        ensures
            final(self)@ == (ModelNote {
                windows: old(self)@.windows.update(
                    i as int,
                    WindowNote { source: rect, ..old(self)@.windows[i as int] },
                ),
                ..old(self)@
            }),
            size_changed == size_differs(old(self)@.windows[i as int].source, rect),
    {
        let source = self.windows[i].source;
        let size_changed = source.w != rect.w || source.h != rect.h;
        self.windows[i].source = rect;
        proof {
            assert(self@.windows =~= old(self)@.windows.update(
                i as int,
                WindowNote { source: rect, ..old(self)@.windows[i as int] },
            ));
        }
        size_changed
    }

    /// Fold one server message into the model, returning the events the platform
    /// layer must act on. A single message can yield several events.
    pub fn apply(&mut self, msg: ServerMessage) -> (events: Vec<ModelEvent>)
        requires
            old(self).wf(),
        ensures
            final(self).wf(),
            (final(self)@, event_notes(events@)) == model_step(old(self)@, msg@),
    {
        let ghost before = self@;
        let ghost note = msg@;
        proof {
            law_ids_stay_unique(before, note);
        }
        let events: Vec<ModelEvent> = match msg {
            ServerMessage::Hello { protocol, vds } => {
                self.vds = Some(vds);
                vec![ModelEvent::Connected { vds }]
            },
            ServerMessage::WindowCreated { id, rect, title, kind } => {
                let window = Window { id, source: rect, title, kind };
                match self.index_of(id) {
                    Some(i) => {
                        let source = self.windows[i].source;
                        let size_changed = source.w != rect.w || source.h != rect.h;
                        self.windows[i] = window;
                        proof {
                            assert(self@.windows =~= before.windows.update(i as int, window@));
                        }
                        vec![ModelEvent::WindowRectChanged { id, source: rect, size_changed }]
                    },
                    None => {
                        self.windows.push(window.clone());
                        proof {
                            assert(self@.windows =~= before.windows.push(window@));
                        }
                        vec![ModelEvent::WindowAdded(window)]
                    },
                }
            },
            ServerMessage::WindowMoved { id, rect } => {
                match self.index_of(id) {
                    Some(i) => {
                        let size_changed = self.move_window(i, rect);
                        vec![ModelEvent::WindowRectChanged { id, source: rect, size_changed }]
                    },
                    None => Vec::new(),
                }
            },
            ServerMessage::WindowTitle { id, title } => {
                match self.index_of(id) {
                    Some(i) => {
                        self.windows[i].title = title.clone();
                        proof {
                            assert(self@.windows =~= before.windows.update(
                                i as int,
                                WindowNote { title: title@, ..before.windows[i as int] },
                            ));
                        }
                        vec![ModelEvent::WindowTitleChanged { id, title }]
                    },
                    None => Vec::new(),
                }
            },
            ServerMessage::WindowFocused { id } => {
                self.focused = Some(id);
                vec![ModelEvent::WindowFocused { id }]
            },
            ServerMessage::WindowDestroyed { id } => {
                match self.index_of(id) {
                    Some(i) => {
                        self.windows.remove(i);
                        if self.focused == Some(id) {
                            self.focused = None;
                        }
                        proof {
                            assert(self@.windows =~= before.windows.remove(i as int));
                        }
                        vec![ModelEvent::WindowRemoved { id }]
                    },
                    None => Vec::new(),
                }
            },
            ServerMessage::TileLayout { windows, display } => {
                self.vds = Some(display);
                let mut events = self.place_all(&windows);
                let removed = self.prune(&windows);
                match self.focused {
                    Some(id) => {
                        if !layout_lists(&windows, id) {
                            self.focused = None;
                        }
                    },
                    None => {},
                }
                if removed.len() > 0 {
                    let ghost so_far = event_notes(events@);
                    let ghost gone = removed@;
                    events.push(ModelEvent::Resynced { removed });
                    proof {
                        assert(event_notes(events@) =~= so_far.push(
                            EventNote::Resynced { removed: gone },
                        ));
                    }
                }
                events
            },
            ServerMessage::Error { code, message } => {
                vec![ModelEvent::HostError { code, message }]
            },
        };
        proof {
            assert(event_notes(events@) =~= model_step(before, note).1);
        }
        events
    }

    /// Update or add each window of a layout.
    fn place_all(&mut self, tiles: &Vec<TileWindow>) -> (events: Vec<ModelEvent>)
        requires
            old(self).wf(),
        ensures
            final(self).wf(),
            (final(self)@.windows, event_notes(events@)) == place_tiles(
                old(self)@.windows,
                tiles@,
            ),
            final(self)@.vds == old(self)@.vds,
            final(self)@.focused == old(self)@.focused,
    {
        let mut events: Vec<ModelEvent> = Vec::new();
        let mut k: usize = 0;
        proof {
            assert(tiles@.take(0) =~= Seq::<TileWindow>::empty());
            assert(event_notes(events@) =~= Seq::<EventNote>::empty());
        }
        while k < tiles.len()
            invariant
                k <= tiles@.len(),
                self.wf(),
                (self@.windows, event_notes(events@)) == place_tiles(
                    old(self)@.windows,
                    tiles@.take(k as int),
                ),
                self@.vds == old(self)@.vds,
                self@.focused == old(self)@.focused,
            decreases tiles@.len() - k,
        {
            let tile = tiles[k];
            let ghost before = self@;
            let ghost so_far = event_notes(events@);
            proof {
                assert(tiles@.take(k + 1).drop_last() =~= tiles@.take(k as int));
                lemma_place_tile_keeps_ids_unique(before.windows, so_far, tile);
            }
            match self.index_of(tile.id) {
                Some(i) => {
                    if self.windows[i].source != tile.rect {
                        let size_changed = self.move_window(i, tile.rect);
                        events.push(
                            ModelEvent::WindowRectChanged {
                                id: tile.id,
                                source: tile.rect,
                                size_changed,
                            },
                        );
                        proof {
                            assert(event_notes(events@) =~= so_far.push(
                                EventNote::WindowRectChanged {
                                    id: tile.id,
                                    source: tile.rect,
                                    size_changed,
                                },
                            ));
                        }
                    }
                },
                None => {
                    let window = Window {
                        id: tile.id,
                        source: tile.rect,
                        title: String::new(),
                        kind: WindowKind::Normal,
                    };
                    let ghost note = window@;
                    self.windows.push(window.clone());
                    events.push(ModelEvent::WindowAdded(window));
                    proof {
                        assert(self@.windows =~= before.windows.push(note));
                        assert(event_notes(events@) =~= so_far.push(EventNote::WindowAdded(note)));
                    }
                },
            }
            k += 1;
        }
        proof {
            assert(tiles@.take(k as int) =~= tiles@);
        }
        events
    }

    /// Drop every window that a layout does not list; the ids of those dropped.
    fn prune(&mut self, tiles: &Vec<TileWindow>) -> (removed: Vec<u64>)
        ensures
            final(self)@.windows == listed(old(self)@.windows, tiles@),
            removed@ == unlisted(old(self)@.windows, tiles@),
            final(self)@.vds == old(self)@.vds,
            final(self)@.focused == old(self)@.focused,
    {
        let ghost all = self@.windows;
        let mut removed: Vec<u64> = Vec::new();
        let mut i: usize = 0;
        let ghost mut seen: int = 0;
        proof {
            assert(all.take(0) =~= Seq::<WindowNote>::empty());
            assert(Seq::<WindowNote>::empty() + all.skip(0) =~= all);
        }
        while i < self.windows.len()
            invariant
                0 <= seen <= all.len(),
                i == listed(all.take(seen), tiles@).len(),
                self@.windows == listed(all.take(seen), tiles@) + all.skip(seen),
                removed@ == unlisted(all.take(seen), tiles@),
                self@.vds == old(self)@.vds,
                self@.focused == old(self)@.focused,
            decreases self.windows@.len() - i,
        {
            let ghost kept = listed(all.take(seen), tiles@);
            let id: u64 = self.windows[i].id;
            proof {
                assert(self@.windows[i as int] == all[seen]);
                assert(all.take(seen + 1).drop_last() =~= all.take(seen));
            }
            if layout_lists(tiles, id) {
                proof {
                    assert(kept + all.skip(seen) =~= kept.push(all[seen]) + all.skip(seen + 1));
                }
                i += 1;
            } else {
                let ghost notes = self@.windows;
                self.windows.remove(i);
                removed.push(id);
                proof {
                    assert(self@.windows =~= notes.remove(i as int));
                    assert(self@.windows =~= kept + all.skip(seen + 1));
                }
            }
            proof {
                seen = seen + 1;
            }
        }
        proof {
            assert(all.skip(seen).len() == 0);
            assert(seen == all.len());
            assert(all.take(seen) =~= all);
            assert(self@.windows =~= listed(all, tiles@));
        }
        removed
    }
}

fn layout_lists(tiles: &Vec<TileWindow>, id: u64) -> (listed: bool)
    ensures
        listed == in_layout(tiles@, id),
{
    let mut i: usize = 0;
    while i < tiles.len()
        invariant
            i <= tiles@.len(),
            forall|k: int| 0 <= k < i ==> (#[trigger] tiles@[k]).id != id,
        decreases tiles@.len() - i,
    {
        if tiles[i].id == id {
            return true;
        }
        i += 1;
    }
    false
}

// ---------------------------------------------------------------------------
// Laws
// ---------------------------------------------------------------------------

proof fn lemma_place_tile_keeps_ids_unique(
    windows: Seq<WindowNote>,
    events: Seq<EventNote>,
    tile: TileWindow,
)
    requires
        ids_unique(windows),
    ensures
        ids_unique(place_tile(windows, events, tile).0),
{
}

proof fn lemma_place_tiles_keeps_ids_unique(windows: Seq<WindowNote>, tiles: Seq<TileWindow>)
    requires
        ids_unique(windows),
    ensures
        ids_unique(place_tiles(windows, tiles).0),
    decreases tiles.len(),
{
    if tiles.len() > 0 {
        lemma_place_tiles_keeps_ids_unique(windows, tiles.drop_last());
        let (placed, events) = place_tiles(windows, tiles.drop_last());
        lemma_place_tile_keeps_ids_unique(placed, events, tiles.last());
    }
}

/// The listed windows are windows of the model, in the layout, once each.
proof fn lemma_listed(windows: Seq<WindowNote>, tiles: Seq<TileWindow>)
    requires
        ids_unique(windows),
    ensures
        ids_unique(listed(windows, tiles)),
        forall|i: int|
            0 <= i < listed(windows, tiles).len() ==> in_layout(
                tiles,
                (#[trigger] listed(windows, tiles)[i]).id,
            ),
        forall|i: int|
            0 <= i < listed(windows, tiles).len() ==> windows.contains(
                #[trigger] listed(windows, tiles)[i],
            ),
        forall|i: int|
            0 <= i < windows.len() && in_layout(tiles, (#[trigger] windows[i]).id) ==> listed(
                windows,
                tiles,
            ).contains(windows[i]),
    decreases windows.len(),
{
    if windows.len() > 0 {
        let front = windows.drop_last();
        lemma_listed(front, tiles);
        let before = listed(front, tiles);
        let all = listed(windows, tiles);
        assert forall|i: int| 0 <= i < all.len() implies windows.contains(#[trigger] all[i]) by {
            if i < before.len() {
                assert(all[i] == before[i]);
                assert(front.contains(before[i]));
                let k = choose|k: int| 0 <= k < front.len() && front[k] == before[i];
                assert(windows[k] == all[i]);
            } else {
                assert(windows[windows.len() - 1] == all[i]);
            }
        }
        assert forall|i: int, j: int| 0 <= i < j < all.len() implies (#[trigger] all[i]).id != (
        #[trigger] all[j]).id by {
            if j < before.len() {
                assert(before[i].id != before[j].id);
            } else {
                assert(all[i] == before[i]);
                assert(front.contains(before[i]));
                let k = choose|k: int| 0 <= k < front.len() && front[k] == before[i];
                assert(windows[k].id != windows[windows.len() - 1].id);
            }
        }
        assert forall|i: int|
            0 <= i < windows.len() && in_layout(
                tiles,
                (#[trigger] windows[i]).id,
            ) implies all.contains(windows[i]) by {
            if i < front.len() {
                assert(front[i] == windows[i]);
                assert(before.contains(front[i]));
                let k = choose|k: int| 0 <= k < before.len() && before[k] == front[i];
                assert(all[k] == windows[i]);
            } else {
                assert(all[all.len() - 1] == windows[i]);
            }
        }
    }
}

/// No message ever makes the model track an id twice.
pub proof fn law_ids_stay_unique(m: ModelNote, msg: ServerNote)
    requires
        ids_unique(m.windows),
    ensures
        ids_unique(model_step(m, msg).0.windows),
{
    match msg {
        ServerNote::TileLayout { windows, display } => {
            lemma_place_tiles_keeps_ids_unique(m.windows, windows);
            lemma_listed(place_tiles(m.windows, windows).0, windows);
        },
        _ => {},
    }
}

/// The source rect of a tracked window.
pub open spec fn source_of(windows: Seq<WindowNote>, id: u64) -> Option<Rect> {
    if has_window(windows, id) {
        Some(windows[place_of(windows, id)].source)
    } else {
        None
    }
}

/// The rect that a platform layer gives a window when it starts from `start` and
/// does nothing but follow the events.
pub open spec fn followed(start: Option<Rect>, events: Seq<EventNote>, id: u64) -> Option<Rect>
    decreases events.len(),
{
    if events.len() == 0 {
        start
    } else {
        let before = followed(start, events.drop_last(), id);
        match events.last() {
            EventNote::WindowAdded(window) => if window.id == id {
                Some(window.source)
            } else {
                before
            },
            EventNote::WindowRectChanged { id: changed, source, size_changed } => if changed == id {
                Some(source)
            } else {
                before
            },
            EventNote::WindowRemoved { id: gone } => if gone == id {
                None
            } else {
                before
            },
            EventNote::Resynced { removed } => if removed.contains(id) {
                None
            } else {
                before
            },
            _ => before,
        }
    }
}

proof fn lemma_source_at(windows: Seq<WindowNote>, i: int)
    requires
        ids_unique(windows),
        0 <= i < windows.len(),
    ensures
        source_of(windows, windows[i].id) == Some(windows[i].source),
{
    lemma_place(windows, i);
}

proof fn lemma_source_after_update(windows: Seq<WindowNote>, i: int, note: WindowNote, id: u64)
    requires
        ids_unique(windows),
        0 <= i < windows.len(),
        note.id == windows[i].id,
    ensures
        ids_unique(windows.update(i, note)),
        source_of(windows.update(i, note), id) == if id == note.id {
            Some(note.source)
        } else {
            source_of(windows, id)
        },
{
    let after = windows.update(i, note);
    if has_window(windows, id) {
        let p = place_of(windows, id);
        lemma_place(windows, p);
        lemma_source_at(after, p);
    } else if has_window(after, id) {
        let p = place_of(after, id);
        assert(windows[p].id == id);
    }
    lemma_source_at(after, i);
}

proof fn lemma_source_after_push(windows: Seq<WindowNote>, note: WindowNote, id: u64)
    requires
        ids_unique(windows),
        !has_window(windows, note.id),
    ensures
        ids_unique(windows.push(note)),
        source_of(windows.push(note), id) == if id == note.id {
            Some(note.source)
        } else {
            source_of(windows, id)
        },
{
    let after = windows.push(note);
    lemma_source_at(after, windows.len() as int);
    if has_window(windows, id) {
        let p = place_of(windows, id);
        assert(after[p] == windows[p]);
        lemma_source_at(after, p);
    } else if has_window(after, id) {
        let p = place_of(after, id);
        if p < windows.len() {
            assert(windows[p].id == id);
        }
    }
}

proof fn lemma_source_after_remove(windows: Seq<WindowNote>, i: int, id: u64)
    requires
        ids_unique(windows),
        0 <= i < windows.len(),
    ensures
        source_of(windows.remove(i), id) == if id == windows[i].id {
            None
        } else {
            source_of(windows, id)
        },
{
    let after = windows.remove(i);
    assert(ids_unique(after));
    if has_window(after, id) {
        let p = place_of(after, id);
        let q = if p < i {
            p
        } else {
            p + 1
        };
        assert(windows[q] == after[p]);
        lemma_source_at(windows, q);
        lemma_source_at(after, p);
    } else if has_window(windows, id) {
        let q = place_of(windows, id);
        if q != i {
            let p = if q < i {
                q
            } else {
                q - 1
            };
            assert(after[p] == windows[q]);
        }
    }
}

proof fn lemma_place_tile_source(
    windows: Seq<WindowNote>,
    events: Seq<EventNote>,
    tile: TileWindow,
    start: Option<Rect>,
    id: u64,
)
    requires
        ids_unique(windows),
        followed(start, events, id) == source_of(windows, id),
    ensures
        ({
            let (placed, more) = place_tile(windows, events, tile);
            &&& ids_unique(placed)
            &&& followed(start, more, id) == source_of(placed, id)
            &&& source_of(placed, id) == if id == tile.id {
                Some(tile.rect)
            } else {
                source_of(windows, id)
            }
        }),
{
    let (placed, more) = place_tile(windows, events, tile);
    if has_window(windows, tile.id) {
        let i = place_of(windows, tile.id);
        lemma_source_at(windows, i);
        if windows[i].source != tile.rect {
            lemma_source_after_update(
                windows,
                i,
                WindowNote { source: tile.rect, ..windows[i] },
                id,
            );
            assert(more.drop_last() =~= events);
        }
    } else {
        let note = WindowNote {
            id: tile.id,
            source: tile.rect,
            title: Seq::empty(),
            kind: WindowKind::Normal,
        };
        lemma_source_after_push(windows, note, id);
        assert(more.drop_last() =~= events);
    }
}

proof fn lemma_place_tiles_source(windows: Seq<WindowNote>, tiles: Seq<TileWindow>, id: u64)
    requires
        ids_unique(windows),
    ensures
        ({
            let (placed, events) = place_tiles(windows, tiles);
            &&& ids_unique(placed)
            &&& followed(source_of(windows, id), events, id) == source_of(placed, id)
            &&& in_layout(tiles, id) ==> source_of(placed, id) is Some
            &&& !in_layout(tiles, id) ==> source_of(placed, id) == source_of(windows, id)
        }),
    decreases tiles.len(),
{
    if tiles.len() > 0 {
        let front = tiles.drop_last();
        lemma_place_tiles_source(windows, front, id);
        let (placed, events) = place_tiles(windows, front);
        lemma_place_tile_source(placed, events, tiles.last(), source_of(windows, id), id);
        if in_layout(tiles, id) {
            let k = choose|k: int| 0 <= k < tiles.len() && (#[trigger] tiles[k]).id == id;
            if k < front.len() {
                assert(front[k].id == id);
            }
        } else {
            assert(tiles[tiles.len() - 1].id != id);
            if in_layout(front, id) {
                let k = choose|k: int| 0 <= k < front.len() && (#[trigger] front[k]).id == id;
                assert(tiles[k].id == id);
            }
        }
    }
}

proof fn lemma_listed_source(windows: Seq<WindowNote>, tiles: Seq<TileWindow>, id: u64)
    requires
        ids_unique(windows),
    ensures
        source_of(listed(windows, tiles), id) == if in_layout(tiles, id) {
            source_of(windows, id)
        } else {
            None
        },
{
    lemma_listed(windows, tiles);
    let all = listed(windows, tiles);
    if has_window(all, id) {
        let p = place_of(all, id);
        assert(windows.contains(all[p]));
        let q = choose|q: int| 0 <= q < windows.len() && windows[q] == all[p];
        lemma_source_at(windows, q);
        lemma_source_at(all, p);
    } else if has_window(windows, id) && in_layout(tiles, id) {
        let q = place_of(windows, id);
        assert(all.contains(windows[q]));
        let p = choose|p: int| 0 <= p < all.len() && all[p] == windows[q];
        assert(all[p].id == id);
    }
}

proof fn lemma_unlisted(windows: Seq<WindowNote>, tiles: Seq<TileWindow>, id: u64)
    ensures
        unlisted(windows, tiles).contains(id) <==> has_window(windows, id) && !in_layout(tiles, id),
    decreases windows.len(),
{
    if windows.len() > 0 {
        let front = windows.drop_last();
        lemma_unlisted(front, tiles, id);
        let before = unlisted(front, tiles);
        let all = unlisted(windows, tiles);
        assert(has_window(windows, id) == (has_window(front, id) || windows.last().id == id)) by {
            if has_window(windows, id) {
                let p = place_of(windows, id);
                if p < front.len() {
                    assert(front[p].id == id);
                }
            }
            if has_window(front, id) {
                let p = place_of(front, id);
                assert(windows[p].id == id);
            }
            assert(windows[windows.len() - 1] == windows.last());
        }
        if before.contains(id) {
            let k = choose|k: int| 0 <= k < before.len() && before[k] == id;
            assert(all[k] == id);
        }
        if all.contains(id) {
            let k = choose|k: int| 0 <= k < all.len() && all[k] == id;
            if k < before.len() {
                assert(before[k] == id);
            }
        }
        if windows.last().id == id && !in_layout(tiles, id) {
            assert(all[all.len() - 1] == id);
        }
    }
}

/// A platform layer that does nothing but follow the events knows exactly the
/// windows of the model, each at its source rect.
pub proof fn law_events_tell_every_window(m: ModelNote, msg: ServerNote, id: u64)
    requires
        ids_unique(m.windows),
    ensures
        followed(source_of(m.windows, id), model_step(m, msg).1, id) == source_of(
            model_step(m, msg).0.windows,
            id,
        ),
{
    let (after, events) = model_step(m, msg);
    let start = source_of(m.windows, id);
    assert(followed(start, Seq::empty(), id) == start);
    if events.len() == 1 {
        assert(events.drop_last() =~= Seq::<EventNote>::empty());
    }
    match msg {
        ServerNote::WindowCreated { id: made, rect, title, kind } => {
            let note = WindowNote { id: made, source: rect, title, kind };
            if has_window(m.windows, made) {
                lemma_source_after_update(m.windows, place_of(m.windows, made), note, id);
            } else {
                lemma_source_after_push(m.windows, note, id);
            }
        },
        ServerNote::WindowMoved { id: moved, rect } => {
            if has_window(m.windows, moved) {
                let i = place_of(m.windows, moved);
                lemma_source_after_update(
                    m.windows,
                    i,
                    WindowNote { source: rect, ..m.windows[i] },
                    id,
                );
            }
        },
        ServerNote::WindowTitle { id: named, title } => {
            if has_window(m.windows, named) {
                let i = place_of(m.windows, named);
                lemma_source_at(m.windows, i);
                lemma_source_after_update(m.windows, i, WindowNote { title, ..m.windows[i] }, id);
            }
        },
        ServerNote::WindowDestroyed { id: gone } => {
            if has_window(m.windows, gone) {
                lemma_source_after_remove(m.windows, place_of(m.windows, gone), id);
            }
        },
        ServerNote::TileLayout { windows, display } => {
            let (placed, placing) = place_tiles(m.windows, windows);
            lemma_place_tiles_source(m.windows, windows, id);
            lemma_listed_source(placed, windows, id);
            lemma_unlisted(placed, windows, id);
            let removed = unlisted(placed, windows);
            if removed.len() > 0 {
                assert(events.drop_last() =~= placing);
            } else {
                assert(!removed.contains(id));
            }
        },
        _ => {},
    }
}

/// Whether events only change windows that whoever follows them knows by then.
pub open spec fn changes_known(windows: Seq<WindowNote>, events: Seq<EventNote>) -> bool {
    forall|k: int|
        0 <= k < events.len() ==> (#[trigger] events[k] matches EventNote::WindowRectChanged {
            id,
            source,
            size_changed,
        } ==> followed(source_of(windows, id), events.take(k), id) is Some)
}

proof fn lemma_tiles_change_known(windows: Seq<WindowNote>, tiles: Seq<TileWindow>)
    requires
        ids_unique(windows),
    ensures
        changes_known(windows, place_tiles(windows, tiles).1),
    decreases tiles.len(),
{
    if tiles.len() > 0 {
        let front = tiles.drop_last();
        let (placed, before) = place_tiles(windows, front);
        let events = place_tiles(windows, tiles).1;
        lemma_tiles_change_known(windows, front);
        lemma_place_tiles_source(windows, front, tiles.last().id);
        assert forall|k: int| 0 <= k < events.len() implies (
        #[trigger] events[k] matches EventNote::WindowRectChanged { id, source, size_changed }
            ==> followed(source_of(windows, id), events.take(k), id) is Some) by {
            if k < before.len() {
                assert(events[k] == before[k]);
                assert(events.take(k) =~= before.take(k));
            } else {
                assert(events.take(k) =~= before);
            }
        }
    }
}

/// Events never change a window that was not told of before.
pub proof fn law_events_change_known_windows(m: ModelNote, msg: ServerNote)
    requires
        ids_unique(m.windows),
    ensures
        changes_known(m.windows, model_step(m, msg).1),
{
    let events = model_step(m, msg).1;
    assert(events.take(0) =~= Seq::<EventNote>::empty());
    if let ServerNote::TileLayout { windows, display } = msg {
        let placing = place_tiles(m.windows, windows).1;
        lemma_tiles_change_known(m.windows, windows);
        assert forall|k: int| 0 <= k < events.len() implies (
        #[trigger] events[k] matches EventNote::WindowRectChanged { id, source, size_changed }
            ==> followed(source_of(m.windows, id), events.take(k), id) is Some) by {
            if k < placing.len() {
                assert(events[k] == placing[k]);
                assert(events.take(k) =~= placing.take(k));
            }
        }
    }
}

/// The tracked window with an id.
pub open spec fn window_of(windows: Seq<WindowNote>, id: u64) -> Option<WindowNote> {
    if has_window(windows, id) {
        Some(windows[place_of(windows, id)])
    } else {
        None
    }
}

proof fn lemma_window_at(windows: Seq<WindowNote>, i: int)
    requires
        ids_unique(windows),
        0 <= i < windows.len(),
    ensures
        window_of(windows, windows[i].id) == Some(windows[i]),
{
    lemma_place(windows, i);
}

proof fn lemma_window_after_update(windows: Seq<WindowNote>, i: int, note: WindowNote, id: u64)
    requires
        ids_unique(windows),
        0 <= i < windows.len(),
        note.id == windows[i].id,
    ensures
        ids_unique(windows.update(i, note)),
        window_of(windows.update(i, note), id) == if id == note.id {
            Some(note)
        } else {
            window_of(windows, id)
        },
{
    let after = windows.update(i, note);
    if has_window(windows, id) {
        let p = place_of(windows, id);
        lemma_place(windows, p);
        lemma_window_at(after, p);
    } else if has_window(after, id) {
        let p = place_of(after, id);
        assert(windows[p].id == id);
    }
    lemma_window_at(after, i);
}

proof fn lemma_window_after_push(windows: Seq<WindowNote>, note: WindowNote, id: u64)
    requires
        ids_unique(windows),
        !has_window(windows, note.id),
    ensures
        ids_unique(windows.push(note)),
        window_of(windows.push(note), id) == if id == note.id {
            Some(note)
        } else {
            window_of(windows, id)
        },
{
    let after = windows.push(note);
    lemma_window_at(after, windows.len() as int);
    if has_window(windows, id) {
        let p = place_of(windows, id);
        assert(after[p] == windows[p]);
        lemma_window_at(after, p);
    } else if has_window(after, id) {
        let p = place_of(after, id);
        if p < windows.len() {
            assert(windows[p].id == id);
        }
    }
}

proof fn lemma_window_after_remove(windows: Seq<WindowNote>, i: int, id: u64)
    requires
        ids_unique(windows),
        0 <= i < windows.len(),
    ensures
        window_of(windows.remove(i), id) == if id == windows[i].id {
            None
        } else {
            window_of(windows, id)
        },
{
    let after = windows.remove(i);
    assert(ids_unique(after));
    if has_window(after, id) {
        let p = place_of(after, id);
        let q = if p < i {
            p
        } else {
            p + 1
        };
        assert(windows[q] == after[p]);
        lemma_window_at(windows, q);
        lemma_window_at(after, p);
    } else if has_window(windows, id) {
        let q = place_of(windows, id);
        if q != i {
            let p = if q < i {
                q
            } else {
                q - 1
            };
            assert(after[p] == windows[q]);
        }
    }
}

/// A rename gives the window the new title and nothing else, and the one event tells of
/// it. Whoever asks for the title afterwards gets the new one. A rename of an unknown
/// window is ignored.
pub proof fn law_renames_take_effect(m: ModelNote, id: u64, title: Seq<char>, other: u64)
    requires
        ids_unique(m.windows),
    ensures
        ({
            let (after, events) = model_step(m, ServerNote::WindowTitle { id, title });
            &&& match window_of(m.windows, id) {
                Some(before) => {
                    &&& window_of(after.windows, id) matches Some(now) && {
                        &&& now.title == title
                        &&& now.id == id
                        &&& now.source == before.source
                        &&& now.kind == before.kind
                    }
                    &&& events.len() == 1
                    &&& events[0] matches EventNote::WindowTitleChanged { id: told, title: said }
                        && told == id && said == title
                },
                None => window_of(after.windows, id) is None && events.len() == 0,
            }
            &&& other != id ==> window_of(after.windows, other) == window_of(m.windows, other)
            &&& after.windows.len() == m.windows.len()
            &&& after.focused == m.focused
            &&& after.vds == m.vds
        }),
{
    if has_window(m.windows, id) {
        let i = place_of(m.windows, id);
        let note = WindowNote { title, ..m.windows[i] };
        lemma_window_after_update(m.windows, i, note, id);
        lemma_window_after_update(m.windows, i, note, other);
    }
}

/// A move gives the window the new rect and nothing else, and the one event tells of the
/// rect and of whether the size is another. A move of an unknown window is ignored.
pub proof fn law_moves_take_effect(m: ModelNote, id: u64, rect: Rect, other: u64)
    requires
        ids_unique(m.windows),
    ensures
        ({
            let (after, events) = model_step(m, ServerNote::WindowMoved { id, rect });
            &&& match window_of(m.windows, id) {
                Some(before) => {
                    &&& window_of(after.windows, id) matches Some(now) && {
                        &&& now.source == rect
                        &&& now.id == id
                        &&& now.title == before.title
                        &&& now.kind == before.kind
                    }
                    &&& events.len() == 1
                    &&& events[0] matches EventNote::WindowRectChanged { id: told, source, size_changed }
                        && told == id && source == rect && (size_changed <==> !(before.source.w
                        == rect.w && before.source.h == rect.h))
                },
                None => window_of(after.windows, id) is None && events.len() == 0,
            }
            &&& other != id ==> window_of(after.windows, other) == window_of(m.windows, other)
            &&& after.windows.len() == m.windows.len()
            &&& after.focused == m.focused
            &&& after.vds == m.vds
        }),
{
    if has_window(m.windows, id) {
        let i = place_of(m.windows, id);
        let note = WindowNote { source: rect, ..m.windows[i] };
        lemma_window_after_update(m.windows, i, note, id);
        lemma_window_after_update(m.windows, i, note, other);
    }
}

/// A created window is tracked as the host describes it, and told of: as a new window, or
/// as a move of one that is tracked already. No other window changes.
pub proof fn law_creations_take_effect(
    m: ModelNote,
    id: u64,
    rect: Rect,
    title: Seq<char>,
    kind: WindowKind,
    other: u64,
)
    requires
        ids_unique(m.windows),
    ensures
        ({
            let (after, events) = model_step(
                m,
                ServerNote::WindowCreated { id, rect, title, kind },
            );
            let described = WindowNote { id, source: rect, title, kind };
            &&& window_of(after.windows, id) == Some(described)
            &&& events.len() == 1
            &&& match window_of(m.windows, id) {
                Some(before) => {
                    &&& after.windows.len() == m.windows.len()
                    &&& events[0] matches EventNote::WindowRectChanged { id: told, source, size_changed }
                        && told == id && source == rect && (size_changed <==> !(before.source.w
                        == rect.w && before.source.h == rect.h))
                },
                None => {
                    &&& after.windows.len() == m.windows.len() + 1
                    &&& after.windows.last() == described
                    &&& events[0] matches EventNote::WindowAdded(told) && told == described
                },
            }
            &&& other != id ==> window_of(after.windows, other) == window_of(m.windows, other)
            &&& after.focused == m.focused
            &&& after.vds == m.vds
        }),
{
    let note = WindowNote { id, source: rect, title, kind };
    if has_window(m.windows, id) {
        let i = place_of(m.windows, id);
        lemma_window_after_update(m.windows, i, note, id);
        lemma_window_after_update(m.windows, i, note, other);
    } else {
        lemma_window_after_push(m.windows, note, id);
        lemma_window_after_push(m.windows, note, other);
    }
}

/// A destroyed window is forgotten and told of, the focus with it, and no other window
/// changes. What was not tracked is not told of.
pub proof fn law_destructions_take_effect(m: ModelNote, id: u64, other: u64)
    requires
        ids_unique(m.windows),
    ensures
        ({
            let (after, events) = model_step(m, ServerNote::WindowDestroyed { id });
            &&& window_of(after.windows, id) is None
            &&& match window_of(m.windows, id) {
                Some(before) => {
                    &&& after.windows.len() == m.windows.len() - 1
                    &&& events.len() == 1
                    &&& events[0] matches EventNote::WindowRemoved { id: told } && told == id
                    &&& after.focused != Some(id)
                    &&& m.focused != Some(id) ==> after.focused == m.focused
                },
                None => events.len() == 0 && after == m,
            }
            &&& other != id ==> window_of(after.windows, other) == window_of(m.windows, other)
            &&& after.vds == m.vds
        }),
{
    if has_window(m.windows, id) {
        lemma_window_after_remove(m.windows, place_of(m.windows, id), id);
        lemma_window_after_remove(m.windows, place_of(m.windows, id), other);
    }
}

/// Windows keep their order: a renamed or moved one stays where it is in the list, and a
/// destroyed one leaves the others as they stand.
pub proof fn law_windows_keep_their_order(
    m: ModelNote,
    id: u64,
    title: Seq<char>,
    rect: Rect,
    k: int,
)
    requires
        ids_unique(m.windows),
        has_window(m.windows, id),
        0 <= k < m.windows.len(),
    ensures
        ({
            let renamed = model_step(m, ServerNote::WindowTitle { id, title }).0.windows;
            let moved = model_step(m, ServerNote::WindowMoved { id, rect }).0.windows;
            &&& renamed.len() == m.windows.len()
            &&& moved.len() == m.windows.len()
            &&& renamed[k].id == m.windows[k].id
            &&& moved[k].id == m.windows[k].id
        }),
        m.windows[k].id == id ==> model_step(m, ServerNote::WindowDestroyed { id }).0.windows
            == m.windows.take(k) + m.windows.skip(k + 1),
{
    let i = place_of(m.windows, id);
    assert(m.windows[i].id == id);
    if m.windows[k].id == id {
        lemma_place(m.windows, k);
        assert(m.windows.remove(k) =~= m.windows.take(k) + m.windows.skip(k + 1));
    }
}

/// The focus goes where the host says, the display has the size that the host says, and
/// a complaint of the host is passed on; each is told of by one event, and the windows
/// stay as they are.
pub proof fn law_other_messages_take_effect(
    m: ModelNote,
    id: u64,
    protocol: u32,
    vds: Size,
    code: u32,
    message: Seq<char>,
)
    ensures
        ({
            let (after, events) = model_step(m, ServerNote::WindowFocused { id });
            &&& after.focused == Some(id)
            &&& after.windows == m.windows
            &&& after.vds == m.vds
            &&& events.len() == 1
            &&& events[0] matches EventNote::WindowFocused { id: told } && told == id
        }),
        ({
            let (after, events) = model_step(m, ServerNote::Hello { protocol, vds });
            &&& after.vds == Some(vds)
            &&& after.windows == m.windows
            &&& after.focused == m.focused
            &&& events.len() == 1
            &&& events[0] matches EventNote::Connected { vds: told } && told == vds
        }),
        ({
            let (after, events) = model_step(m, ServerNote::Error { code, message });
            &&& after == m
            &&& events.len() == 1
            &&& events[0] matches EventNote::HostError { code: told, message: said } && told
                == code && said == message
        }),
{
}

/// What a platform layer knows of a window that does nothing but follow the events.
pub open spec fn known_window(
    start: Option<WindowNote>,
    events: Seq<EventNote>,
    id: u64,
) -> Option<WindowNote>
    decreases events.len(),
{
    if events.len() == 0 {
        start
    } else {
        let before = known_window(start, events.drop_last(), id);
        match events.last() {
            EventNote::WindowAdded(window) => if window.id == id {
                Some(window)
            } else {
                before
            },
            EventNote::WindowRectChanged { id: changed, source, size_changed } => match before {
                Some(window) => if changed == id {
                    Some(WindowNote { source, ..window })
                } else {
                    before
                },
                None => None,
            },
            EventNote::WindowTitleChanged { id: named, title } => match before {
                Some(window) => if named == id {
                    Some(WindowNote { title, ..window })
                } else {
                    before
                },
                None => None,
            },
            EventNote::WindowRemoved { id: gone } => if gone == id {
                None
            } else {
                before
            },
            EventNote::Resynced { removed } => if removed.contains(id) {
                None
            } else {
                before
            },
            _ => before,
        }
    }
}

proof fn lemma_place_tile_window(
    windows: Seq<WindowNote>,
    events: Seq<EventNote>,
    tile: TileWindow,
    start: Option<WindowNote>,
    id: u64,
)
    requires
        ids_unique(windows),
        known_window(start, events, id) == window_of(windows, id),
    ensures
        ({
            let (placed, more) = place_tile(windows, events, tile);
            &&& ids_unique(placed)
            &&& known_window(start, more, id) == window_of(placed, id)
            &&& window_of(placed, id) == if id != tile.id {
                window_of(windows, id)
            } else {
                match window_of(windows, id) {
                    Some(w) => Some(WindowNote { source: tile.rect, ..w }),
                    None => Some(
                        WindowNote {
                            id,
                            source: tile.rect,
                            title: Seq::empty(),
                            kind: WindowKind::Normal,
                        },
                    ),
                }
            }
        }),
{
    let (placed, more) = place_tile(windows, events, tile);
    if has_window(windows, tile.id) {
        let i = place_of(windows, tile.id);
        lemma_window_at(windows, i);
        if windows[i].source != tile.rect {
            lemma_window_after_update(
                windows,
                i,
                WindowNote { source: tile.rect, ..windows[i] },
                id,
            );
            assert(more.drop_last() =~= events);
        }
    } else {
        let note = WindowNote {
            id: tile.id,
            source: tile.rect,
            title: Seq::empty(),
            kind: WindowKind::Normal,
        };
        lemma_window_after_push(windows, note, id);
        assert(more.drop_last() =~= events);
    }
}

/// The window with an id once a layout was placed: where its last tile puts it, with the
/// title and the kind that it had.
pub open spec fn tiled_window(
    before: Option<WindowNote>,
    tiles: Seq<TileWindow>,
    id: u64,
) -> Option<WindowNote>
    decreases tiles.len(),
{
    if tiles.len() == 0 {
        before
    } else if tiles.last().id != id {
        tiled_window(before, tiles.drop_last(), id)
    } else {
        match before {
            Some(w) => Some(WindowNote { source: tiles.last().rect, ..w }),
            None => Some(
                WindowNote {
                    id,
                    source: tiles.last().rect,
                    title: Seq::empty(),
                    kind: WindowKind::Normal,
                },
            ),
        }
    }
}

proof fn lemma_tiled_keeps(before: Option<WindowNote>, tiles: Seq<TileWindow>, id: u64)
    ensures
        match before {
            Some(w) => tiled_window(before, tiles, id) matches Some(now) && now.id == w.id
                && now.title == w.title && now.kind == w.kind,
            None => tiled_window(before, tiles, id) matches Some(now) ==> now.id == id && now.title
                == Seq::<char>::empty() && now.kind == WindowKind::Normal,
        },
    decreases tiles.len(),
{
    if tiles.len() > 0 {
        lemma_tiled_keeps(before, tiles.drop_last(), id);
    }
}

proof fn lemma_place_tiles_window(windows: Seq<WindowNote>, tiles: Seq<TileWindow>, id: u64)
    requires
        ids_unique(windows),
    ensures
        ({
            let (placed, events) = place_tiles(windows, tiles);
            &&& ids_unique(placed)
            &&& known_window(window_of(windows, id), events, id) == window_of(placed, id)
            &&& window_of(placed, id) == tiled_window(window_of(windows, id), tiles, id)
        }),
    decreases tiles.len(),
{
    if tiles.len() > 0 {
        let front = tiles.drop_last();
        lemma_place_tiles_window(windows, front, id);
        let (placed, events) = place_tiles(windows, front);
        lemma_place_tile_window(placed, events, tiles.last(), window_of(windows, id), id);
        lemma_tiled_keeps(window_of(windows, id), front, id);
        if has_window(windows, id) {
            lemma_window_at(windows, place_of(windows, id));
        }
    }
}

proof fn lemma_listed_window(windows: Seq<WindowNote>, tiles: Seq<TileWindow>, id: u64)
    requires
        ids_unique(windows),
    ensures
        window_of(listed(windows, tiles), id) == if in_layout(tiles, id) {
            window_of(windows, id)
        } else {
            None
        },
{
    lemma_listed(windows, tiles);
    let all = listed(windows, tiles);
    if has_window(all, id) {
        let p = place_of(all, id);
        assert(windows.contains(all[p]));
        let q = choose|q: int| 0 <= q < windows.len() && windows[q] == all[p];
        lemma_window_at(windows, q);
        lemma_window_at(all, p);
    } else if has_window(windows, id) && in_layout(tiles, id) {
        let q = place_of(windows, id);
        assert(all.contains(windows[q]));
        let p = choose|p: int| 0 <= p < all.len() && all[p] == windows[q];
        assert(all[p].id == id);
    }
}

/// A layout keeps the titles and kinds of the windows that it lists, puts each where its
/// last tile says, takes in what is new without a title, and drops the rest.
pub proof fn law_layouts_take_effect(
    m: ModelNote,
    tiles: Seq<TileWindow>,
    display: Size,
    id: u64,
)
    requires
        ids_unique(m.windows),
    ensures
        window_of(
            model_step(m, ServerNote::TileLayout { windows: tiles, display }).0.windows,
            id,
        ) == if in_layout(tiles, id) {
            tiled_window(window_of(m.windows, id), tiles, id)
        } else {
            None
        },
{
    lemma_place_tiles_window(m.windows, tiles, id);
    lemma_listed_window(place_tiles(m.windows, tiles).0, tiles, id);
}

/// A platform layer that does nothing but follow the events knows every window as the
/// model does: its title and its kind too, and not only where it is. The one exception is
/// a window that is created a second time under another title or of another kind: its
/// event tells where it is and no more.
pub proof fn law_events_tell_every_title(m: ModelNote, msg: ServerNote, id: u64)
    requires
        ids_unique(m.windows),
        msg matches ServerNote::WindowCreated { id: made, rect, title, kind } ==> (made == id ==> (
        window_of(m.windows, id) matches Some(before) ==> before.title == title && before.kind
            == kind)),
    ensures
        known_window(window_of(m.windows, id), model_step(m, msg).1, id) == window_of(
            model_step(m, msg).0.windows,
            id,
        ),
{
    let (after, events) = model_step(m, msg);
    let start = window_of(m.windows, id);
    assert(known_window(start, Seq::empty(), id) == start);
    if events.len() == 1 {
        assert(events.drop_last() =~= Seq::<EventNote>::empty());
    }
    if has_window(m.windows, id) {
        lemma_window_at(m.windows, place_of(m.windows, id));
    }
    match msg {
        ServerNote::WindowCreated { id: made, rect, title, kind } => {
            let note = WindowNote { id: made, source: rect, title, kind };
            if has_window(m.windows, made) {
                lemma_window_after_update(m.windows, place_of(m.windows, made), note, id);
            } else {
                lemma_window_after_push(m.windows, note, id);
            }
        },
        ServerNote::WindowMoved { id: moved, rect } => {
            if has_window(m.windows, moved) {
                let i = place_of(m.windows, moved);
                lemma_window_after_update(
                    m.windows,
                    i,
                    WindowNote { source: rect, ..m.windows[i] },
                    id,
                );
            }
        },
        ServerNote::WindowTitle { id: named, title } => {
            if has_window(m.windows, named) {
                let i = place_of(m.windows, named);
                lemma_window_after_update(m.windows, i, WindowNote { title, ..m.windows[i] }, id);
            }
        },
        ServerNote::WindowDestroyed { id: gone } => {
            if has_window(m.windows, gone) {
                lemma_window_after_remove(m.windows, place_of(m.windows, gone), id);
            }
        },
        ServerNote::TileLayout { windows, display } => {
            let (placed, placing) = place_tiles(m.windows, windows);
            lemma_place_tiles_window(m.windows, windows, id);
            lemma_listed_window(placed, windows, id);
            lemma_unlisted(placed, windows, id);
            let removed = unlisted(placed, windows);
            if removed.len() > 0 {
                assert(events.drop_last() =~= placing);
            } else {
                assert(!removed.contains(id));
            }
        },
        _ => {},
    }
}

/// After a layout the model tracks exactly the windows that it lists, and the focus
/// is on one of them or nowhere.
pub proof fn law_layout_is_authoritative(
    m: ModelNote,
    tiles: Seq<TileWindow>,
    display: Size,
    id: u64,
)
    requires
        ids_unique(m.windows),
    ensures
        ({
            let after = model_step(m, ServerNote::TileLayout { windows: tiles, display }).0;
            &&& has_window(after.windows, id) <==> in_layout(tiles, id)
            &&& after.focused matches Some(focused) ==> in_layout(tiles, focused)
            &&& after.vds == Some(display)
        }),
{
    let (placed, events) = place_tiles(m.windows, tiles);
    lemma_place_tiles_source(m.windows, tiles, id);
    lemma_listed_source(placed, tiles, id);
}

/// After a layout each window stands where its last tile puts it.
pub proof fn law_layout_places_windows(
    m: ModelNote,
    tiles: Seq<TileWindow>,
    display: Size,
    k: int,
)
    requires
        ids_unique(m.windows),
        0 <= k < tiles.len(),
        forall|j: int| k < j < tiles.len() ==> (#[trigger] tiles[j]).id != tiles[k].id,
    ensures
        source_of(
            model_step(m, ServerNote::TileLayout { windows: tiles, display }).0.windows,
            tiles[k].id,
        ) == Some(tiles[k].rect),
{
    lemma_last_tile_wins(m.windows, tiles, k);
    lemma_place_tiles_source(m.windows, tiles, tiles[k].id);
    lemma_listed_source(place_tiles(m.windows, tiles).0, tiles, tiles[k].id);
    assert(in_layout(tiles, tiles[k].id));
}

proof fn lemma_last_tile_wins(windows: Seq<WindowNote>, tiles: Seq<TileWindow>, k: int)
    requires
        ids_unique(windows),
        0 <= k < tiles.len(),
        forall|j: int| k < j < tiles.len() ==> (#[trigger] tiles[j]).id != tiles[k].id,
    ensures
        source_of(place_tiles(windows, tiles).0, tiles[k].id) == Some(tiles[k].rect),
    decreases tiles.len(),
{
    let front = tiles.drop_last();
    let id = tiles[k].id;
    lemma_place_tiles_source(windows, front, id);
    let (placed, events) = place_tiles(windows, front);
    lemma_place_tile_source(placed, events, tiles.last(), source_of(windows, id), id);
    if k < front.len() {
        assert(tiles[tiles.len() - 1].id != id);
        assert forall|j: int| k < j < front.len() implies (#[trigger] front[j]).id
            != front[k].id by {
            assert(front[j] == tiles[j]);
        }
        lemma_last_tile_wins(windows, front, k);
    }
}

/// Whether no id is listed at two different places.
pub open spec fn tiles_agree(tiles: Seq<TileWindow>) -> bool {
    forall|i: int, j: int|
        0 <= i < tiles.len() && 0 <= j < tiles.len() && (#[trigger] tiles[i]).id == (
        #[trigger] tiles[j]).id ==> tiles[i].rect == tiles[j].rect
}

proof fn lemma_agreed_tile_wins(windows: Seq<WindowNote>, tiles: Seq<TileWindow>, k: int)
    requires
        ids_unique(windows),
        tiles_agree(tiles),
        0 <= k < tiles.len(),
    ensures
        source_of(place_tiles(windows, tiles).0, tiles[k].id) == Some(tiles[k].rect),
    decreases tiles.len(),
{
    let front = tiles.drop_last();
    let id = tiles[k].id;
    lemma_place_tiles_source(windows, front, id);
    let (placed, events) = place_tiles(windows, front);
    lemma_place_tile_source(placed, events, tiles.last(), source_of(windows, id), id);
    assert(tiles[tiles.len() - 1] == tiles.last());
    if k < front.len() && tiles.last().id != id {
        assert(tiles_agree(front)) by {
            assert forall|i: int, j: int|
                0 <= i < front.len() && 0 <= j < front.len() && (#[trigger] front[i]).id == (
                #[trigger] front[j]).id implies front[i].rect == front[j].rect by {
                assert(front[i] == tiles[i] && front[j] == tiles[j]);
            }
        }
        assert(front[k] == tiles[k]);
        lemma_agreed_tile_wins(windows, front, k);
    }
}

/// Tiles of windows that already stand there change nothing.
proof fn lemma_placed_tiles_stay(windows: Seq<WindowNote>, tiles: Seq<TileWindow>)
    requires
        ids_unique(windows),
        forall|k: int|
            0 <= k < tiles.len() ==> source_of(windows, (#[trigger] tiles[k]).id) == Some(
                tiles[k].rect,
            ),
    ensures
        place_tiles(windows, tiles) == (windows, Seq::<EventNote>::empty()),
    decreases tiles.len(),
{
    if tiles.len() > 0 {
        let front = tiles.drop_last();
        assert forall|k: int| 0 <= k < front.len() implies source_of(
            windows,
            (#[trigger] front[k]).id,
        ) == Some(front[k].rect) by {
            assert(front[k] == tiles[k]);
        }
        lemma_placed_tiles_stay(windows, front);
        assert(tiles[tiles.len() - 1] == tiles.last());
    }
}

/// Where every window is listed, all are kept and none is left out.
proof fn lemma_all_listed(windows: Seq<WindowNote>, tiles: Seq<TileWindow>)
    requires
        forall|i: int| 0 <= i < windows.len() ==> in_layout(tiles, (#[trigger] windows[i]).id),
    ensures
        listed(windows, tiles) == windows,
        unlisted(windows, tiles).len() == 0,
    decreases windows.len(),
{
    if windows.len() > 0 {
        let front = windows.drop_last();
        assert forall|i: int| 0 <= i < front.len() implies in_layout(
            tiles,
            (#[trigger] front[i]).id,
        ) by {
            assert(front[i] == windows[i]);
        }
        lemma_all_listed(front, tiles);
        assert(windows[windows.len() - 1] == windows.last());
        assert(front.push(windows.last()) =~= windows);
    } else {
        assert(listed(windows, tiles) =~= windows);
    }
}

/// A repeated layout gives no event and changes nothing, unless it lists an id at two
/// different places.
pub proof fn law_repeated_layout_is_idempotent(
    m: ModelNote,
    tiles: Seq<TileWindow>,
    display: Size,
)
    requires
        ids_unique(m.windows),
        tiles_agree(tiles),
    ensures
        ({
            let layout = ServerNote::TileLayout { windows: tiles, display };
            let once = model_step(m, layout).0;
            model_step(once, layout) == (once, Seq::<EventNote>::empty())
        }),
{
    let layout = ServerNote::TileLayout { windows: tiles, display };
    let once = model_step(m, layout).0;
    let placed = place_tiles(m.windows, tiles).0;
    law_ids_stay_unique(m, layout);
    lemma_place_tiles_source(m.windows, tiles, 0);
    lemma_listed(placed, tiles);
    assert forall|k: int| 0 <= k < tiles.len() implies source_of(
        once.windows,
        (#[trigger] tiles[k]).id,
    ) == Some(tiles[k].rect) by {
        lemma_agreed_tile_wins(m.windows, tiles, k);
        lemma_listed_source(placed, tiles, tiles[k].id);
        assert(in_layout(tiles, tiles[k].id));
    }
    lemma_placed_tiles_stay(once.windows, tiles);
    lemma_all_listed(once.windows, tiles);
    assert(model_step(once, layout).1 =~= Seq::<EventNote>::empty());
}

/// A repeated create changes nothing more and announces no second window.
pub proof fn law_duplicate_create_is_idempotent(
    m: ModelNote,
    id: u64,
    rect: Rect,
    title: Seq<char>,
    kind: WindowKind,
)
    requires
        ids_unique(m.windows),
    ensures
        ({
            let create = ServerNote::WindowCreated { id, rect, title, kind };
            let once = model_step(m, create).0;
            &&& has_window(once.windows, id)
            &&& model_step(once, create).0 == once
            &&& model_step(once, create).1 == seq![
                EventNote::WindowRectChanged { id, source: rect, size_changed: false },
            ]
        }),
{
    let create = ServerNote::WindowCreated { id, rect, title, kind };
    let note = WindowNote { id, source: rect, title, kind };
    let once = model_step(m, create).0;
    law_ids_stay_unique(m, create);
    let i = if has_window(m.windows, id) {
        place_of(m.windows, id)
    } else {
        m.windows.len() as int
    };
    assert(once.windows[i] == note);
    lemma_place(once.windows, i);
    assert(once.windows.update(i, note) =~= once.windows);
}

/// A destroyed window is neither tracked nor focused any more, and every other
/// window stays.
pub proof fn law_destroyed_windows_are_forgotten(m: ModelNote, id: u64, other: u64)
    requires
        ids_unique(m.windows),
        has_window(m.windows, id),
    ensures
        ({
            let after = model_step(m, ServerNote::WindowDestroyed { id }).0;
            &&& !has_window(after.windows, id)
            &&& after.focused != Some(id)
            &&& other != id ==> source_of(after.windows, other) == source_of(m.windows, other)
        }),
{
    let i = place_of(m.windows, id);
    lemma_source_after_remove(m.windows, i, id);
    lemma_source_after_remove(m.windows, i, other);
}

} // verus!
