//! What holds of the application as a whole.

use vstd::prelude::*;

use crate::connections::ConnectionNote;
use crate::keyed::has_key;
use crate::keyed::keys_unique;
use crate::keyed::law_dropped_keys_are_gone;
use crate::keyed::law_keys_stay_unique;
use crate::keyed::law_set_values_are_found;
use crate::keyed::lemma_has_key;
use crate::keyed::slot;
use crate::keyed::value_of;
use crate::keyed::with_value;
use crate::keyed::without_key;
use crate::model::EventNote;
use crate::model::WindowNote;
use crate::win::app::with_source;
use crate::win::app::AppEffectNote;
use crate::win::app::AppNote;
use crate::win::app::AppStep;
use crate::win::app::RECONNECT_DELAY;
use crate::win::dashboard::ActionNote;
use crate::win::event_queue::NativeEvent;
use crate::win::messages::WM_CLOSE;
use crate::win::messages::WM_EXITSIZEMOVE;
use crate::win::messages::WM_MOUSEMOVE;
use crate::win::messages::WM_SIZING;
use crate::win::proxy::ProxyNote;
use crate::win::proxy::LIVE_RESIZE_INTERVAL;
use crate::win::turn::all_dirty;
use crate::win::turn::all_settled;
use crate::win::turn::is_button;
use crate::win::turn::SessionNote;
use crate::win::turn::WindowFacts;
use crate::wire::control::ClientMessage;
use crate::wire::control::Rect;
use crate::wire::control::Size;
use crate::wire::input::InputEvent;

verus! {

/// Each window stands under its own number.
pub open spec fn windows_numbered(windows: Seq<(u64, WindowNote)>) -> bool {
    forall|i: int| 0 <= i < windows.len() ==> (#[trigger] windows[i]).0 == windows[i].1.id
}

/// Each proxy stands for a shared window.
pub open spec fn proxies_stand_for_windows(
    proxies: Seq<(u64, ProxyNote)>,
    windows: Seq<(u64, WindowNote)>,
) -> bool {
    forall|id: u64| #[trigger] has_key(proxies, id) ==> has_key(windows, id)
}

impl AppNote {
    /// Nothing is kept twice, and there is no proxy without its window.
    pub open spec fn sound(self) -> bool {
        &&& keys_unique(self.proxies)
        &&& keys_unique(self.windows)
        &&& keys_unique(self.resize_limits)
        &&& keys_unique(self.pending_mouse_moves)
        &&& windows_numbered(self.windows)
        &&& proxies_stand_for_windows(self.proxies, self.windows)
    }
}

proof fn lemma_keys_set<T>(items: Seq<(u64, T)>, key: u64, value: T, other: u64)
    ensures
        has_key(with_value(items, key, value), other) <==> (other == key || has_key(items, other)),
{
    law_set_values_are_found(items, key, value, other);
}

/// A proxy that is there may change.
proof fn lemma_proxy_may_change(a: AppNote, id: u64, p: ProxyNote)
    requires
        a.sound(),
        has_key(a.proxies, id),
    ensures
        a.changed(id, p).sound(),
{
    law_keys_stay_unique(a.proxies, id, p);
    assert forall|other: u64| #[trigger] has_key(a.changed(id, p).proxies, other) implies has_key(
        a.windows,
        other,
    ) by {
        lemma_keys_set(a.proxies, id, p, other);
    }
}

/// A window that is there may change, but for its number.
proof fn lemma_window_may_change(a: AppNote, id: u64, w: WindowNote)
    requires
        a.sound(),
        w.id == id,
    ensures
        (AppNote { windows: with_value(a.windows, id, w), ..a }).sound(),
{
    let after = AppNote { windows: with_value(a.windows, id, w), ..a };
    law_keys_stay_unique(a.windows, id, w);
    lemma_has_key(a.windows, id);
    assert forall|other: u64| #[trigger] has_key(after.proxies, other) implies has_key(
        after.windows,
        other,
    ) by {
        lemma_keys_set(a.windows, id, w, other);
    }
    crate::keyed::lemma_slot_from(a.windows, id, 0);
    assert(windows_numbered(after.windows));
}

proof fn lemma_source_may_change(a: AppNote, id: u64, source: Rect)
    requires
        a.sound(),
    ensures
        (AppNote { windows: with_source(a.windows, id, source), ..a }).sound(),
        a.source_moved(id, source).0.sound(),
{
    crate::keyed::lemma_slot_from(a.windows, id, 0);
    if let Some(w) = value_of(a.windows, id) {
        assert(a.windows[slot(a.windows, id)].0 == w.id);
        lemma_window_may_change(a, id, WindowNote { source, ..w });
    }
    if let Some(p) = value_of(a.proxies, id) {
        let moved = ProxyNote { source, dirty: p.dirty || p.source != source, ..p };
        lemma_proxy_may_change(a, id, moved);
    }
}

proof fn lemma_window_may_go(a: AppNote, id: u64)
    requires
        a.sound(),
    ensures
        a.window_gone(id).0.sound(),
{
    let after = a.window_gone(id).0;
    let any_window = a.windows[0].1;
    let any_proxy = a.proxies[0].1;
    let any_move = a.pending_mouse_moves[0].1;
    law_keys_stay_unique(a.windows, id, any_window);
    law_keys_stay_unique(a.proxies, id, any_proxy);
    law_keys_stay_unique(a.pending_mouse_moves, id, any_move);
    crate::keyed::lemma_slot_from(a.windows, id, 0);
    assert forall|other: u64| #[trigger] has_key(after.proxies, other) implies has_key(
        after.windows,
        other,
    ) by {
        law_dropped_keys_are_gone(a.windows, id, other);
        law_dropped_keys_are_gone(a.proxies, id, other);
        assert(has_key(a.proxies, other));
    }
}

/// Windows that are gone leave no proxy behind.
pub proof fn law_gone_windows_keep_the_app_sound(a: AppNote, ids: Seq<u64>)
    requires
        a.sound(),
    ensures
        a.windows_gone(ids).0.sound(),
    decreases ids.len(),
{
    if ids.len() > 0 {
        law_gone_windows_keep_the_app_sound(a, ids.drop_last());
        lemma_window_may_go(a.windows_gone(ids.drop_last()).0, ids.last());
    }
}

proof fn lemma_commit_keeps_sound(a: AppNote, id: u64, size: Size, now: u64)
    requires
        a.sound(),
    ensures
        a.committed(id, size, now).0.sound(),
{
    if let Some(p) = value_of(a.proxies, id) {
        lemma_proxy_may_change(a, id, ProxyNote { resize_sync: p.resize_sync.committed(now), ..p });
    }
}

proof fn lemma_hover_keeps_sound(a: AppNote, id: u64, event: InputEvent)
    requires
        a.sound(),
    ensures
        a.unhovered(id).sound(),
        (AppNote {
            pending_mouse_moves: with_value(a.pending_mouse_moves, id, event),
            ..a
        }).sound(),
{
    law_keys_stay_unique(a.pending_mouse_moves, id, event);
}

/// The same keys in the same places.
proof fn lemma_same_keys<T>(before: Seq<(u64, T)>, after: Seq<(u64, T)>, key: u64)
    requires
        before.len() == after.len(),
        forall|i: int| 0 <= i < before.len() ==> (#[trigger] after[i]).0 == before[i].0,
    ensures
        keys_unique(before) ==> keys_unique(after),
        has_key(after, key) <==> has_key(before, key),
{
    lemma_has_key(before, key);
    lemma_has_key(after, key);
    if has_key(before, key) {
        let i = choose|i: int| 0 <= i < before.len() && before[i].0 == key;
        assert(after[i].0 == key);
    }
}

/// Whatever the user asks for, and however an attempt to connect ends, the
/// application stays sound.
pub proof fn law_commands_keep_the_app_sound(
    a: AppNote,
    action: ActionNote,
    result: Result<ConnectionNote, Seq<char>>,
    error: Seq<char>,
    now: u64,
)
    requires
        a.sound(),
    ensures
        a.acted(action).0.sound(),
        a.connect_ended(result, now).0.sound(),
        a.open_failed(error).0.sound(),
        a.session_polled(now).0.sound(),
        a.disconnected().0.sound(),
{
    assert forall|id: u64| has_key(Seq::<(u64, ProxyNote)>::empty(), id) implies has_key(
        Seq::<(u64, WindowNote)>::empty(),
        id,
    ) by {
        lemma_has_key(Seq::<(u64, ProxyNote)>::empty(), id);
    }
}

/// Whatever the session tells, the application stays sound.
pub proof fn law_events_keep_the_app_sound(a: AppNote, ev: SessionNote, now: u64)
    requires
        a.sound(),
    ensures
        a.told(ev, now).0.sound(),
{
    assert forall|id: u64| has_key(Seq::<(u64, ProxyNote)>::empty(), id) implies has_key(
        Seq::<(u64, WindowNote)>::empty(),
        id,
    ) by {
        lemma_has_key(Seq::<(u64, ProxyNote)>::empty(), id);
    }
    match ev {
        SessionNote::Control(ev) => {
            match ev {
                EventNote::WindowAdded(w) => {
                    lemma_window_may_change(a, w.id, w);
                },
                EventNote::WindowRectChanged { id, source, size_changed } => {
                    lemma_source_may_change(a, id, source);
                    lemma_source_may_change(
                        AppNote { windows: with_source(a.windows, id, source), ..a },
                        id,
                        source,
                    );
                },
                EventNote::WindowTitleChanged { id, title } => {
                    crate::keyed::lemma_slot_from(a.windows, id, 0);
                    if let Some(w) = value_of(a.windows, id) {
                        assert(a.windows[slot(a.windows, id)].0 == w.id);
                        lemma_window_may_change(a, id, WindowNote { title, ..w });
                    }
                },
                EventNote::WindowRemoved { id } => {
                    lemma_window_may_go(a, id);
                },
                EventNote::Resynced { removed } => {
                    law_gone_windows_keep_the_app_sound(a, removed);
                },
                _ => {},
            }
        },
        SessionNote::ResizeBounds { id, max_size } => {
            law_keys_stay_unique(a.resize_limits, id, max_size);
        },
        SessionNote::ResizeCompleted { id, source, request } => {
            if let Some(p) = value_of(a.proxies, id) {
                let done = ProxyNote { resize_sync: p.resize_sync.begun(), ..p };
                lemma_proxy_may_change(a, id, done);
                let b = a.changed(id, done);
                lemma_source_may_change(b, id, source);
                lemma_source_may_change(
                    AppNote { windows: with_source(b.windows, id, source), ..b },
                    id,
                    source,
                );
            }
        },
        _ => {},
    }
}

/// Whatever a native window reports, the application stays sound.
pub proof fn law_messages_keep_the_app_sound(
    a: AppNote,
    id: u64,
    event: NativeEvent,
    facts: WindowFacts,
    now: u64,
)
    requires
        a.sound(),
    ensures
        a.message_done(id, event, facts, now).0.sound(),
{
    let input = crate::win::input::message_event(
        event.msg,
        event.wparam,
        event.lparam,
        facts.pointer,
    );
    let any = a.proxies[0].1;
    law_keys_stay_unique(a.proxies, id, any);
    assert forall|other: u64| #[trigger]
        has_key(without_key(a.proxies, id), other) implies has_key(a.windows, other) by {
        law_dropped_keys_are_gone(a.proxies, id, other);
        assert(has_key(a.proxies, other));
    }
    lemma_hover_keeps_sound(a, id, input->0);
    if let Some(p) = value_of(a.proxies, id) {
        let full = crate::win::turn::client_area(facts.client, 0);
        let told = crate::win::turn::told_size(p, full, facts.ready);
        lemma_proxy_may_change(a, id, told);
        lemma_commit_keeps_sound(a.changed(id, told), id, full, now);
        let begun = ProxyNote {
            resize_sync: p.resize_sync.begun(),
            in_size_move: true,
            resizing: false,
            last_live_send: None,
            ..p
        };
        lemma_proxy_may_change(a.unhovered(id), id, begun);
        let dragged = ProxyNote {
            resizing: true,
            last_live_send: if p.live_due(now) {
                Some(now)
            } else {
                p.last_live_send
            },
            ..p
        };
        lemma_proxy_may_change(a, id, dragged);
        let ended = ProxyNote {
            dirty: true,
            in_size_move: false,
            resizing: false,
            last_live_send: None,
            ..p
        };
        lemma_proxy_may_change(a, id, ended);
        let actual = crate::win::turn::client_area(facts.client, 1);
        lemma_commit_keeps_sound(a.changed(id, ended), id, actual, now);
        lemma_proxy_may_change(a, id, ProxyNote { dirty: true, ..p });
    }
}

/// Whatever the decoder tells, and whenever the windows are drawn, the application
/// stays sound.
pub proof fn law_video_keeps_the_app_sound(
    a: AppNote,
    received: u64,
    request_keyframe: bool,
    error: Option<Seq<char>>,
    frame: bool,
    now: u64,
)
    requires
        a.sound(),
    ensures
        a.decoder_polled(received, request_keyframe, error, frame).0.sound(),
        a.uploaded(error).0.sound(),
        a.rendered(now).0.sound(),
{
    assert forall|id: u64| #[trigger] has_key(all_dirty(a.proxies), id) implies has_key(
        a.windows,
        id,
    ) by {
        lemma_same_keys(a.proxies, all_dirty(a.proxies), id);
        assert(has_key(a.proxies, id));
    }
    assert forall|id: u64| #[trigger] has_key(all_settled(a.proxies, now), id) implies has_key(
        a.windows,
        id,
    ) by {
        lemma_same_keys(a.proxies, all_settled(a.proxies, now), id);
        assert(has_key(a.proxies, id));
    }
    lemma_same_keys(a.proxies, all_dirty(a.proxies), 0);
    lemma_same_keys(a.proxies, all_settled(a.proxies, now), 0);
}

/// A native window that was made for a shared window keeps the application sound.
pub proof fn law_opened_windows_keep_the_app_sound(
    a: AppNote,
    id: u64,
    source: Rect,
    size: Size,
    clamped: bool,
    facts: WindowFacts,
    now: u64,
)
    requires
        a.sound(),
        has_key(a.windows, id),
    ensures
        a.proxy_made(id, source, size, clamped, facts, now).0.sound(),
{
    let actual = crate::win::turn::client_area(facts.client, 1);
    let p = crate::win::turn::told_size(
        ProxyNote::created(source, a.cfg.checkerboard),
        actual,
        facts.ready,
    );
    let b = a.changed(id, p);
    law_keys_stay_unique(a.proxies, id, p);
    assert forall|other: u64| #[trigger] has_key(b.proxies, other) implies has_key(
        b.windows,
        other,
    ) by {
        lemma_keys_set(a.proxies, id, p, other);
    }
    lemma_commit_keeps_sound(b, id, size, now);
}

/// Disconnecting forgets everything that came of the session, sends nothing that would
/// close a Mac window, and nothing is tried again until the user asks.
pub proof fn law_disconnecting_forgets_the_session(a: AppNote, now: u64)
    ensures
        ({
            let (b, effects) = a.back_to_dashboard();
            &&& !b.active && !b.session && !b.connecting
            &&& b.proxies.len() == 0 && b.windows.len() == 0
            &&& b.pending_mouse_moves.len() == 0 && b.resize_limits.len() == 0
            &&& b.source is None && b.vds is None && b.reconnect_at is None
            &&& effects.contains(AppEffectNote::CloseSession)
            &&& forall|i: int|
                0 <= i < a.proxies.len() ==> effects.contains(
                    AppEffectNote::DestroyProxy { id: (#[trigger] a.proxies[i]).0 },
                )
            &&& forall|i: int| 0 <= i < effects.len() ==> !(#[trigger] effects[i] is Send)
            &&& b.session_polled(now) == (b, Seq::<AppEffectNote>::empty())
        }),
{
    let (b, effects) = a.back_to_dashboard();
    assert(effects[1] == AppEffectNote::CloseSession);
    assert forall|i: int| 0 <= i < a.proxies.len() implies effects.contains(
        AppEffectNote::DestroyProxy { id: (#[trigger] a.proxies[i]).0 },
    ) by {
        assert(effects[2 + i] == AppEffectNote::DestroyProxy { id: a.proxies[i].0 });
    }
}

/// A session that broke is tried again, but not before the pause is over.
pub proof fn law_broken_sessions_are_retried_later(a: AppNote, now: u64, later: u64)
    requires
        now + RECONNECT_DELAY <= u64::MAX,
        a.active,
        !a.connecting,
        a.selected is Some,
    ensures
        ({
            let b = a.dropped(now).0;
            &&& later < now + RECONNECT_DELAY ==> b.session_polled(later) == (
                b,
                Seq::<AppEffectNote>::empty(),
            )
            &&& later >= now + RECONNECT_DELAY ==> b.session_polled(later).0.connecting
        }),
{
}

/// The acknowledgement of anything but the request that is waited for changes
/// nothing.
pub proof fn law_late_acknowledgements_change_nothing(
    a: AppNote,
    id: u64,
    source: Rect,
    request: u64,
)
    requires
        value_of(a.proxies, id) matches Some(p) ==> !p.resize_sync.completes(request),
    ensures
        a.resize_acknowledged(id, source, request) == (a, a.shown()),
{
}

/// A native window never changes its size on its own while the user drags it or the
/// host has not answered yet.
pub proof fn law_windows_never_fight_the_user(a: AppNote, id: u64, source: Rect)
    requires
        value_of(a.proxies, id) matches Some(p) ==> p.in_size_move || p.resize_sync.pending is Some,
    ensures
        a.source_moved(id, source).1.len() == 0,
{
}

/// While a window is dragged, the pointer stays off the wire.
pub proof fn law_drags_stay_local(
    a: AppNote,
    id: u64,
    event: NativeEvent,
    facts: WindowFacts,
    now: u64,
)
    requires
        a.dragging(id),
        event.msg == WM_MOUSEMOVE || is_button(event.msg),
    ensures
        a.message_done(id, event, facts, now) == (a, Seq::<AppEffectNote>::empty()),
{
}

/// Of several hover moves of a window only the last is kept, and beginning a drag
/// forgets it.
pub proof fn law_hover_moves_are_coalesced(
    a: AppNote,
    id: u64,
    event: NativeEvent,
    facts: WindowFacts,
    now: u64,
)
    requires
        a.sound(),
        event.msg == WM_MOUSEMOVE,
        !a.dragging(id),
    ensures
        ({
            let (b, effects) = a.message_done(id, event, facts, now);
            &&& effects.len() == 0
            &&& keys_unique(b.pending_mouse_moves)
            &&& value_of(b.pending_mouse_moves, id) == crate::win::input::message_event(
                event.msg,
                event.wparam,
                event.lparam,
                facts.pointer,
            )
            &&& !has_key(b.drag_begun(id).pending_mouse_moves, id)
        }),
{
    let input = crate::win::input::message_event(
        event.msg,
        event.wparam,
        event.lparam,
        facts.pointer,
    )->0;
    law_keys_stay_unique(a.pending_mouse_moves, id, input);
    law_set_values_are_found(a.pending_mouse_moves, id, input, id);
    law_dropped_keys_are_gone(with_value(a.pending_mouse_moves, id, input), id, id);
}

/// Closing a native window closes the view, never the document: nothing is sent, and
/// the shared window and its proxy stay.
pub proof fn law_closing_a_view_keeps_the_window(
    a: AppNote,
    id: u64,
    event: NativeEvent,
    facts: WindowFacts,
    now: u64,
)
    requires
        event.msg == WM_CLOSE,
    ensures
        ({
            let (b, effects) = a.message_done(id, event, facts, now);
            &&& b.windows == a.windows
            &&& b.proxies == a.proxies
            &&& b.session == a.session
            &&& forall|i: int| 0 <= i < effects.len() ==> !(#[trigger] effects[i] is Send)
        }),
{
}

/// A message of a native window: the number of the window, the message, what the system
/// says of the window, and the time.
pub type Told = (u64, NativeEvent, WindowFacts, u64);

/// What several messages do, one after the other.
pub open spec fn all_messages(a: AppNote, messages: Seq<Told>) -> AppStep
    decreases messages.len(),
{
    if messages.len() == 0 {
        (a, Seq::empty())
    } else {
        let (b, effects) = all_messages(a, messages.drop_last());
        let (id, event, facts, now) = messages.last();
        let (c, more) = b.message_done(id, event, facts, now);
        (c, effects + more)
    }
}

/// Whether an effect asks the host for another size of a window.
pub open spec fn asks_to_resize(effect: AppEffectNote, id: u64) -> bool {
    match effect {
        AppEffectNote::CommitResize { id: of, size, request } => of == id,
        AppEffectNote::Send(ClientMessage::RequestResize { id: of, size, phase }) => of == id,
        _ => false,
    }
}

pub open spec fn none_asks_to_resize(effects: Seq<AppEffectNote>, id: u64) -> bool {
    forall|i: int| 0 <= i < effects.len() ==> !asks_to_resize(#[trigger] effects[i], id)
}

/// A proxy that is moved, if it is still there, with the sizes that it had.
pub open spec fn only_moved(before: Option<ProxyNote>, now: Option<ProxyNote>) -> bool {
    now matches Some(q) ==> {
        &&& q.in_size_move
        &&& !q.resizing
        &&& before matches Some(p) && q.width == p.width && q.height == p.height && q.source
            == p.source
    }
}

/// The message of one window leaves the other proxies alone, and asks for no other
/// window's size.
proof fn lemma_others_are_left_alone(
    a: AppNote,
    of: u64,
    event: NativeEvent,
    facts: WindowFacts,
    now: u64,
    id: u64,
)
    requires
        a.sound(),
        of != id,
    ensures
        ({
            let (b, effects) = a.message_done(of, event, facts, now);
            &&& value_of(b.proxies, id) == value_of(a.proxies, id)
            &&& none_asks_to_resize(effects, id)
        }),
{
    law_dropped_keys_are_gone(a.proxies, of, id);
    if let Some(p) = value_of(a.proxies, of) {
        let full = crate::win::turn::client_area(facts.client, 0);
        let told = crate::win::turn::told_size(p, full, facts.ready);
        lemma_change_and_commit(a, of, told, full, now, id);
        let begun = ProxyNote {
            resize_sync: p.resize_sync.begun(),
            in_size_move: true,
            resizing: false,
            last_live_send: None,
            ..p
        };
        law_set_values_are_found(a.proxies, of, begun, id);
        let dragged = ProxyNote {
            resizing: true,
            last_live_send: if p.live_due(now) {
                Some(now)
            } else {
                p.last_live_send
            },
            ..p
        };
        law_set_values_are_found(a.proxies, of, dragged, id);
        let ended = ProxyNote {
            dirty: true,
            in_size_move: false,
            resizing: false,
            last_live_send: None,
            ..p
        };
        let actual = crate::win::turn::client_area(facts.client, 1);
        lemma_change_and_commit(a, of, ended, actual, now, id);
        law_set_values_are_found(a.proxies, of, ProxyNote { dirty: true, ..p }, id);
    }
}

proof fn lemma_change_and_commit(
    a: AppNote,
    of: u64,
    p: ProxyNote,
    size: Size,
    now: u64,
    id: u64,
)
    requires
        of != id,
    ensures
        value_of(a.changed(of, p).proxies, id) == value_of(a.proxies, id),
        value_of(a.changed(of, p).committed(of, size, now).0.proxies, id) == value_of(
            a.proxies,
            id,
        ),
{
    let b = a.changed(of, p);
    law_set_values_are_found(a.proxies, of, p, id);
    law_set_values_are_found(a.proxies, of, p, of);
    let waiting = ProxyNote { resize_sync: p.resize_sync.committed(now), ..p };
    law_set_values_are_found(b.proxies, of, waiting, id);
}

/// While a window is moved, its own messages but those of sizing keep it so.
proof fn lemma_still_moved(
    a: AppNote,
    event: NativeEvent,
    facts: WindowFacts,
    now: u64,
    id: u64,
    before: Option<ProxyNote>,
)
    requires
        a.sound(),
        only_moved(before, value_of(a.proxies, id)),
        event.msg != WM_SIZING,
        event.msg != WM_EXITSIZEMOVE,
    ensures
        ({
            let (b, effects) = a.message_done(id, event, facts, now);
            &&& only_moved(before, value_of(b.proxies, id))
            &&& none_asks_to_resize(effects, id)
        }),
{
    law_dropped_keys_are_gone(a.proxies, id, id);
    if let Some(p) = value_of(a.proxies, id) {
        let full = crate::win::turn::client_area(facts.client, 0);
        law_set_values_are_found(
            a.proxies,
            id,
            crate::win::turn::told_size(p, full, facts.ready),
            id,
        );
        let begun = ProxyNote {
            resize_sync: p.resize_sync.begun(),
            in_size_move: true,
            resizing: false,
            last_live_send: None,
            ..p
        };
        law_set_values_are_found(a.proxies, id, begun, id);
        law_set_values_are_found(a.proxies, id, ProxyNote { dirty: true, ..p }, id);
    }
}

proof fn lemma_stays_moved(a: AppNote, messages: Seq<Told>, id: u64, before: Option<ProxyNote>)
    requires
        a.sound(),
        only_moved(before, value_of(a.proxies, id)),
        forall|i: int|
            0 <= i < messages.len() && (#[trigger] messages[i]).0 == id ==> messages[i].1.msg
                != WM_SIZING && messages[i].1.msg != WM_EXITSIZEMOVE,
    ensures
        ({
            let (b, effects) = all_messages(a, messages);
            &&& b.sound()
            &&& b.windows == a.windows
            &&& only_moved(before, value_of(b.proxies, id))
            &&& none_asks_to_resize(effects, id)
        }),
    decreases messages.len(),
{
    if messages.len() > 0 {
        let front = messages.drop_last();
        assert forall|i: int|
            0 <= i < front.len() && (#[trigger] front[i]).0 == id implies front[i].1.msg
            != WM_SIZING && front[i].1.msg != WM_EXITSIZEMOVE by {
            assert(front[i] == messages[i]);
        }
        lemma_stays_moved(a, front, id, before);
        let (b, effects) = all_messages(a, front);
        let (of, event, facts, now) = messages.last();
        assert(messages[messages.len() - 1] == messages.last());
        law_messages_keep_the_app_sound(b, of, event, facts, now);
        if of == id {
            lemma_still_moved(b, event, facts, now, id, before);
        } else {
            lemma_others_are_left_alone(b, of, event, facts, now, id);
        }
        let more = b.message_done(of, event, facts, now).1;
        let all = effects + more;
        assert forall|i: int| 0 <= i < all.len() implies !asks_to_resize(#[trigger] all[i], id) by {
            if i < effects.len() {
                assert(all[i] == effects[i]);
            } else {
                assert(all[i] == more[i - effects.len()]);
            }
        }
    }
}

/// Moving a window without resizing it never asks the host for another size of it, and
/// leaves the size of both windows alone: from the beginning of the drag to its end,
/// whatever messages come in between, of this window any but those that size it, of the
/// others any at all.
pub proof fn law_moves_never_resize(
    a: AppNote,
    id: u64,
    messages: Seq<Told>,
    size: Size,
    now: u64,
)
    requires
        a.sound(),
        forall|i: int|
            0 <= i < messages.len() && (#[trigger] messages[i]).0 == id ==> messages[i].1.msg
                != WM_SIZING && messages[i].1.msg != WM_EXITSIZEMOVE,
    ensures
        ({
            let (b, during) = all_messages(a.drag_begun(id), messages);
            let (c, at_end) = b.drag_ended(id, size, now);
            &&& none_asks_to_resize(during, id)
            &&& at_end.len() == 0
            &&& c.windows == a.windows
            &&& value_of(c.proxies, id) matches Some(q) ==> (value_of(a.proxies, id) matches Some(p)
                && q.width == p.width && q.height == p.height && q.source == p.source)
        }),
{
    let begun_app = a.drag_begun(id);
    let any = a.pending_mouse_moves[0].1;
    lemma_hover_keeps_sound(a, id, any);
    if let Some(p) = value_of(a.proxies, id) {
        let begun = ProxyNote {
            resize_sync: p.resize_sync.begun(),
            in_size_move: true,
            resizing: false,
            last_live_send: None,
            ..p
        };
        law_set_values_are_found(a.proxies, id, begun, id);
        lemma_proxy_may_change(a.unhovered(id), id, begun);
    }
    lemma_stays_moved(begun_app, messages, id, value_of(a.proxies, id));
    let b = all_messages(begun_app, messages).0;
    if let Some(q) = value_of(b.proxies, id) {
        let ended = ProxyNote {
            dirty: true,
            in_size_move: false,
            resizing: false,
            last_live_send: None,
            ..q
        };
        law_set_values_are_found(b.proxies, id, ended, id);
    }
}

/// While an edge is dragged, the host hears of the first step, and then no more often
/// than the interval allows.
pub proof fn law_live_requests_are_throttled(
    a: AppNote,
    id: u64,
    first: Size,
    second: Size,
    now: u64,
    later: u64,
)
    requires
        value_of(a.proxies, id) matches Some(p) && p.live_due(now),
        now <= later < now + LIVE_RESIZE_INTERVAL,
    ensures
        a.dragged(id, first, now).0.dragged(id, second, later).1.len() == 0,
{
    let p = value_of(a.proxies, id)->0;
    let dragged = ProxyNote { resizing: true, last_live_send: Some(now), ..p };
    law_set_values_are_found(a.proxies, id, dragged, id);
}

/// When a drag that resized a window ends, the host is asked for the final size exactly
/// once, and its answer is waited for.
pub proof fn law_resize_drags_end_with_one_request(
    a: AppNote,
    id: u64,
    dragged: Size,
    last: Size,
    now: u64,
    later: u64,
)
    requires
        a.session,
        has_key(a.proxies, id),
    ensures
        ({
            let before = a.drag_begun(id).dragged(id, dragged, now).0;
            let (b, effects) = before.drag_ended(id, last, later);
            &&& effects.len() == 1
            &&& effects[0] matches AppEffectNote::CommitResize { id: of, size, request }
                && of == id && size == last && (value_of(b.proxies, id) matches Some(p)
                && p.resize_sync.pending == Some((request, later)) && !p.in_size_move)
        }),
{
    let p = value_of(a.proxies, id)->0;
    let begun = ProxyNote {
        resize_sync: p.resize_sync.begun(),
        in_size_move: true,
        resizing: false,
        last_live_send: None,
        ..p
    };
    law_set_values_are_found(a.proxies, id, begun, id);
    let one = a.drag_begun(id);
    let moved = ProxyNote { resizing: true, last_live_send: Some(now), ..begun };
    law_set_values_are_found(one.proxies, id, moved, id);
    let two = one.dragged(id, dragged, now).0;
    let ended = ProxyNote {
        dirty: true,
        in_size_move: false,
        resizing: false,
        last_live_send: None,
        ..moved
    };
    law_set_values_are_found(two.proxies, id, ended, id);
    let three = two.changed(id, ended);
    let waiting = ProxyNote { resize_sync: ended.resize_sync.committed(later), ..ended };
    law_set_values_are_found(three.proxies, id, waiting, id);
}

/// A native window whose client area got another size than its source, other than in a
/// drag, asks the host for exactly that size.
pub proof fn law_client_sizes_are_requested_exactly(
    a: AppNote,
    id: u64,
    size: Size,
    ready: bool,
    now: u64,
)
    requires
        a.session,
        value_of(a.proxies, id) matches Some(p) && !p.in_size_move && (size.w != p.source.w
            || size.h != p.source.h),
        size.w > 0,
        size.h > 0,
    ensures
        ({
            let effects = a.sized(id, size, ready, now).1;
            effects.last() matches AppEffectNote::CommitResize { id: of, size: asked, request }
                && of == id && asked == size
        }),
{
    let p = value_of(a.proxies, id)->0;
    law_set_values_are_found(a.proxies, id, crate::win::turn::told_size(p, size, ready), id);
}

} // verus!
