//! What a session promises from end to end: what reaches the host, what reaches the
//! screen, and what the dashboard is told. The messages of the system are named here by
//! their numbers.

use vstd::prelude::*;

use crate::connections::ConnectionNote;
use crate::keyed::has_key;
use crate::keyed::law_dropped_keys_are_gone;
use crate::keyed::law_set_values_are_found;
use crate::keyed::value_of;
use crate::model::ids_unique;
use crate::model::known_window;
use crate::model::law_events_tell_every_title;
use crate::model::model_step;
use crate::model::window_of;
use crate::model::EventNote;
use crate::model::ModelNote;
use crate::model::WindowNote;
use crate::text::decimal;
use crate::text::trimmed;
use crate::window_fit::law_initial_size_stays_within_work_area;
use crate::wire::control::ClientMessage;
use crate::wire::control::Rect;
use crate::wire::control::ResizePhase;
use crate::wire::control::ServerNote;
use crate::wire::control::Size;
use crate::wire::control::WindowKind;
use crate::win::app::AppEffectNote;
use crate::win::app::AppNote;
use crate::win::app_laws::law_events_keep_the_app_sound;
use crate::win::app_laws::law_gone_windows_keep_the_app_sound;
use crate::win::chrome::Bounds;
use crate::win::dashboard::ActionNote;
use crate::win::event_queue::NativeEvent;
use crate::win::input::message_event;
use crate::win::mirror_laws::all_modelled;
use crate::win::proxy::ProxyNote;
use crate::win::turn::area_size;
use crate::win::turn::move_messages;
use crate::win::turn::placed;
use crate::win::turn::SessionNote;
use crate::win::turn::WindowFacts;

verus! {

// --- what the application knows --------------------------------------------

proof fn lemma_gone_windows(a: AppNote, ids: Seq<u64>, id: u64)
    requires
        a.sound(),
    ensures
        value_of(a.windows_gone(ids).0.windows, id) == if ids.contains(id) {
            None
        } else {
            value_of(a.windows, id)
        },
    decreases ids.len(),
{
    if ids.len() > 0 {
        let front = ids.drop_last();
        lemma_gone_windows(a, front, id);
        law_gone_windows_keep_the_app_sound(a, front);
        let b = a.windows_gone(front).0;
        law_dropped_keys_are_gone(b.windows, ids.last(), id);
        if ids.contains(id) && id != ids.last() {
            let k = choose|k: int| 0 <= k < ids.len() && ids[k] == id;
            assert(front[k] == id);
        }
        if front.contains(id) {
            let k = choose|k: int| 0 <= k < front.len() && front[k] == id;
            assert(ids[k] == id);
        }
        assert(ids[ids.len() - 1] == ids.last());
    }
}

/// The application knows every window as the events tell: its title and its kind too, and
/// not only where it is.
pub proof fn law_app_knows_what_events_tell(a: AppNote, ev: EventNote, id: u64)
    requires
        a.sound(),
    ensures
        value_of(a.modelled(ev).0.windows, id) == known_window(
            value_of(a.windows, id),
            seq![ev],
            id,
        ),
{
    reveal_with_fuel(known_window, 2);
    assert(seq![ev].drop_last() =~= Seq::<EventNote>::empty());
    match ev {
        EventNote::WindowAdded(w) => {
            law_set_values_are_found(a.windows, w.id, w, id);
        },
        EventNote::WindowRectChanged { id: changed, source, size_changed } => {
            if let Some(w) = value_of(a.windows, changed) {
                law_set_values_are_found(a.windows, changed, WindowNote { source, ..w }, id);
            }
        },
        EventNote::WindowTitleChanged { id: named, title } => {
            if let Some(w) = value_of(a.windows, named) {
                law_set_values_are_found(a.windows, named, WindowNote { title, ..w }, id);
            }
        },
        EventNote::WindowRemoved { id: gone } => {
            law_dropped_keys_are_gone(a.windows, gone, id);
        },
        EventNote::Resynced { removed } => {
            lemma_gone_windows(a, removed, id);
        },
        _ => {},
    }
}

proof fn lemma_app_knows_all(a: AppNote, events: Seq<EventNote>, id: u64)
    requires
        a.sound(),
    ensures
        all_modelled(a, events).sound(),
        value_of(all_modelled(a, events).windows, id) == known_window(
            value_of(a.windows, id),
            events,
            id,
        ),
    decreases events.len(),
{
    if events.len() > 0 {
        let front = events.drop_last();
        let ev = events.last();
        lemma_app_knows_all(a, front, id);
        let b = all_modelled(a, front);
        law_events_keep_the_app_sound(b, SessionNote::Control(ev), 0);
        law_app_knows_what_events_tell(b, ev, id);
        reveal_with_fuel(known_window, 2);
        assert(seq![ev].drop_last() =~= Seq::<EventNote>::empty());
    }
}

/// An application that takes in the events of every host message always knows each window
/// as the model does: its title and its kind too, and not only where it is. The one
/// exception is a window that is created a second time under another title or of another
/// kind.
pub proof fn law_app_mirrors_every_title(a: AppNote, m: ModelNote, msg: ServerNote, id: u64)
    requires
        a.sound(),
        ids_unique(m.windows),
        value_of(a.windows, id) == window_of(m.windows, id),
        msg matches ServerNote::WindowCreated { id: made, rect, title, kind } ==> (made == id ==> (
        window_of(m.windows, id) matches Some(before) ==> before.title == title && before.kind
            == kind)),
    ensures
        ({
            let (after, events) = model_step(m, msg);
            &&& all_modelled(a, events).sound()
            &&& value_of(all_modelled(a, events).windows, id) == window_of(after.windows, id)
        }),
{
    let (after, events) = model_step(m, msg);
    lemma_app_knows_all(a, events, id);
    law_events_tell_every_title(m, msg, id);
}

/// A renamed window's native window is given the new title, or the name of the program
/// where the title is blank, and nothing else happens but that the dashboard is told.
pub proof fn law_native_windows_are_renamed(a: AppNote, id: u64, title: Seq<char>)
    ensures
        ({
            let (after, effects) = a.modelled(EventNote::WindowTitleChanged { id, title });
            let shown = if trimmed(title).len() > 0 {
                title
            } else {
                "Transom"@
            };
            &&& has_key(a.proxies, id) ==> effects.len() > 0 && effects[0] == (
            AppEffectNote::SetTitle { id, text: shown })
            &&& effects.contains(AppEffectNote::RefreshGallery)
            &&& after.proxies == a.proxies
            &&& after.session == a.session
        }),
{
    let (after, effects) = a.modelled(EventNote::WindowTitleChanged { id, title });
    let n = if has_key(a.proxies, id) {
        1int
    } else {
        0
    };
    assert(effects[n] == AppEffectNote::RefreshGallery);
}

/// A moved window's native window shows the new place. It takes the new size at once,
/// unless the user is dragging it or a size was asked for.
pub proof fn law_native_windows_follow(a: AppNote, id: u64, source: Rect, size_changed: bool)
    requires
        has_key(a.proxies, id),
    ensures
        ({
            let (after, effects) = a.modelled(
                EventNote::WindowRectChanged { id, source, size_changed },
            );
            let before = value_of(a.proxies, id)->0;
            let snap = AppEffectNote::Snap { id, size: Size { w: source.w, h: source.h } };
            &&& value_of(after.proxies, id) matches Some(p) && {
                &&& p.source == source
                &&& p.width == before.width
                &&& p.height == before.height
                &&& p.dirty || (p.source == before.source && !before.dirty)
            }
            &&& before.in_size_move || before.resize_sync.pending is Some || (before.width
                == source.w && before.height == source.h) ==> effects == after.shown()
            &&& !before.in_size_move && before.resize_sync.pending is None && !(before.width
                == source.w && before.height == source.h) ==> effects == seq![snap] + after.shown()
        }),
{
    let before = value_of(a.proxies, id)->0;
    let moved = ProxyNote { source, dirty: before.dirty || before.source != source, ..before };
    law_set_values_are_found(a.proxies, id, moved, id);
    let (after, effects) = a.modelled(EventNote::WindowRectChanged { id, source, size_changed });
    assert(Seq::<AppEffectNote>::empty() + after.shown() =~= after.shown());
}

/// A window that goes takes its native window with it, and no other.
pub proof fn law_native_windows_go(a: AppNote, id: u64, other: u64)
    requires
        a.sound(),
    ensures
        ({
            let (after, effects) = a.modelled(EventNote::WindowRemoved { id });
            &&& value_of(after.proxies, id) is None
            &&& value_of(after.windows, id) is None
            &&& value_of(after.pending_mouse_moves, id) is None
            &&& other != id ==> value_of(after.proxies, other) == value_of(a.proxies, other)
            &&& effects == if has_key(a.proxies, id) {
                seq![AppEffectNote::DestroyProxy { id }] + after.shown()
            } else {
                after.shown()
            }
        }),
{
    let (after, effects) = a.modelled(EventNote::WindowRemoved { id });
    law_dropped_keys_are_gone(a.proxies, id, id);
    law_dropped_keys_are_gone(a.proxies, id, other);
    law_dropped_keys_are_gone(a.windows, id, id);
    law_dropped_keys_are_gone(a.pending_mouse_moves, id, id);
    assert(Seq::<AppEffectNote>::empty() + after.shown() =~= after.shown());
}

// --- what reaches the host -------------------------------------------------

/// Whether a message tells of a mouse button, a wheel or a key.
pub open spec fn is_press(msg: u32) -> bool {
    ||| 0x0201 <= msg <= 0x0202
    ||| 0x0204 <= msg <= 0x0205
    ||| 0x0207 <= msg <= 0x0208
    ||| msg == 0x020A
    ||| msg == 0x020E
    ||| 0x0100 <= msg <= 0x0101
    ||| 0x0104 <= msg <= 0x0105
}

/// A button, a wheel or a key reaches the host at once, as one message for its window,
/// with the time in milliseconds, if there is a session. While the window is dragged
/// buttons and wheels do not.
pub proof fn law_presses_reach_the_host(
    a: AppNote,
    id: u64,
    event: NativeEvent,
    facts: WindowFacts,
    now: u64,
)
    requires
        is_press(event.msg),
        !(value_of(a.proxies, id) matches Some(p) && p.in_size_move),
    ensures
        ({
            let (after, effects) = a.message_done(id, event, facts, now);
            let input = message_event(event.msg, event.wparam, event.lparam, facts.pointer);
            &&& a.session && input is Some ==> effects.len() == 1 && effects[0]
                == AppEffectNote::Send(
                ClientMessage::Input { id, event: input->0, ts: now / 1_000_000 },
            )
            &&& !a.session || input is None ==> effects.len() == 0
            &&& after.proxies == a.proxies
            &&& after.windows == a.windows
        }),
{
}

/// A move of the pointer (0x200) waits, in place of the last one of its window. All that
/// wait are sent together, each for its own window.
pub proof fn law_moves_reach_the_host_in_the_end(
    a: AppNote,
    id: u64,
    event: NativeEvent,
    facts: WindowFacts,
    now: u64,
    other: u64,
    i: int,
)
    requires
        event.msg == 0x0200,
        !(value_of(a.proxies, id) matches Some(p) && p.in_size_move),
    ensures
        ({
            let (after, effects) = a.message_done(id, event, facts, now);
            let sent = move_messages(after.pending_mouse_moves, now);
            &&& effects.len() == 0
            &&& value_of(after.pending_mouse_moves, id) == message_event(
                0x0200,
                event.wparam,
                event.lparam,
                facts.pointer,
            )
            &&& other != id ==> value_of(after.pending_mouse_moves, other) == value_of(
                a.pending_mouse_moves,
                other,
            )
            &&& sent.len() == after.pending_mouse_moves.len()
            &&& 0 <= i < sent.len() ==> sent[i] == AppEffectNote::Send(
                ClientMessage::Input {
                    id: after.pending_mouse_moves[i].0,
                    event: after.pending_mouse_moves[i].1,
                    ts: now / 1_000_000,
                },
            )
        }),
{
    let input = message_event(event.msg, event.wparam, event.lparam, facts.pointer);
    law_set_values_are_found(a.pending_mouse_moves, id, input->0, id);
    law_set_values_are_found(a.pending_mouse_moves, id, input->0, other);
}

/// A native window that is activated (message 6 with a low word) asks for the focus of
/// its window.
pub proof fn law_activation_asks_for_the_focus(
    a: AppNote,
    id: u64,
    event: NativeEvent,
    facts: WindowFacts,
    now: u64,
)
    requires
        event.msg == 0x0006,
        a.session,
    ensures
        ({
            let (after, effects) = a.message_done(id, event, facts, now);
            &&& after == a
            &&& event.wparam as int % 0x1_0000 != 0 ==> effects == seq![
                AppEffectNote::Send(ClientMessage::RequestFocus { id }),
            ]
            &&& event.wparam as int % 0x1_0000 == 0 ==> effects.len() == 0
        }),
{
}

/// A drag tells the host of its beginning once, and of its sizes no more than every
/// tenth of a second; each size is that of the client area at the time.
pub proof fn law_drags_tell_their_sizes(a: AppNote, id: u64, size: Size, now: u64)
    requires
        a.session,
        has_key(a.proxies, id),
    ensures
        ({
            let p = value_of(a.proxies, id)->0;
            let (after, effects) = a.dragged(id, size, now);
            let begin = AppEffectNote::Send(
                ClientMessage::RequestResize { id, size, phase: ResizePhase::Begin },
            );
            let live = AppEffectNote::Send(
                ClientMessage::RequestResize { id, size, phase: ResizePhase::Live },
            );
            let due = p.last_live_send is None || now - p.last_live_send->0 >= 100_000_000;
            &&& !p.resizing && due ==> effects == seq![begin, live]
            &&& !p.resizing && !due ==> effects == seq![begin]
            &&& p.resizing && due ==> effects == seq![live]
            &&& p.resizing && !due ==> effects.len() == 0
            &&& value_of(after.proxies, id) matches Some(q) && q.resizing && q.in_size_move
                == p.in_size_move && q.source == p.source
        }),
{
    let p = value_of(a.proxies, id)->0;
    let (after, effects) = a.dragged(id, size, now);
    let q = ProxyNote {
        resizing: true,
        last_live_send: if p.live_due(now) {
            Some(now)
        } else {
            p.last_live_send
        },
        ..p
    };
    law_set_values_are_found(a.proxies, id, q, id);
    let begin = AppEffectNote::Send(
        ClientMessage::RequestResize { id, size, phase: ResizePhase::Begin },
    );
    let live = AppEffectNote::Send(
        ClientMessage::RequestResize { id, size, phase: ResizePhase::Live },
    );
    assert(seq![begin] + seq![live] =~= seq![begin, live]);
    assert(seq![begin] + Seq::<AppEffectNote>::empty() =~= seq![begin]);
    assert(Seq::<AppEffectNote>::empty() + seq![live] =~= seq![live]);
}

/// A native window that gets another size than its source, other than in a drag, asks the
/// host for that size, once, under the next number.
pub proof fn law_new_sizes_are_asked_for(
    a: AppNote,
    id: u64,
    size: Size,
    ready: bool,
    now: u64,
    other: AppEffectNote,
)
    requires
        a.session,
        has_key(a.proxies, id),
        size.w > 0,
        size.h > 0,
    ensures
        ({
            let p = value_of(a.proxies, id)->0;
            let (after, effects) = a.sized(id, size, ready, now);
            let asks = !p.in_size_move && !(size.w == p.source.w && size.h == p.source.h);
            let ask = AppEffectNote::CommitResize {
                id,
                size,
                request: p.resize_sync.next_serial(),
            };
            &&& asks ==> effects.last() == ask && value_of(
                after.proxies,
                id,
            )->0.resize_sync.pending == Some((p.resize_sync.next_serial(), now))
            &&& !asks ==> effects.last() == (AppEffectNote::Render { id }) && value_of(
                after.proxies,
                id,
            )->0.resize_sync == p.resize_sync
            &&& effects.len() == if asks {
                3int
            } else {
                2
            }
            &&& effects[1] == (AppEffectNote::Render { id })
            &&& effects[0] == if size.w == p.width && size.h == p.height && ready {
                AppEffectNote::ReportSize { id }
            } else {
                AppEffectNote::ResizeSwapchain { id, size }
            }
        }),
{
    let p = value_of(a.proxies, id)->0;
    let told = crate::win::turn::told_size(p, size, ready);
    law_set_values_are_found(a.proxies, id, told, id);
    let b = a.changed(id, told);
    law_set_values_are_found(
        b.proxies,
        id,
        ProxyNote { resize_sync: told.resize_sync.committed(now), ..told },
        id,
    );
}

// --- opening and closing sessions ------------------------------------------

/// Connecting closes what was open and tries the chosen Mac: the last thing done is to
/// connect to it, at its own host and ports, and the dashboard is told its name.
pub proof fn law_connecting_tries_the_chosen_mac(a: AppNote, c: ConnectionNote, i: int)
    ensures
        ({
            let (after, effects) = a.acted(ActionNote::Connect(c));
            let n = effects.len();
            &&& after.selected == Some(c)
            &&& after.cfg.host == c.host
            &&& after.cfg.control_port == c.control_port
            &&& after.cfg.video_port == c.video_port
            &&& after.cfg.checkerboard == a.cfg.checkerboard
            &&& after.active
            &&& after.connecting
            &&& !after.session
            &&& after.windows.len() == 0
            &&& after.proxies.len() == 0
            &&& n >= 3
            &&& effects[0] == AppEffectNote::SetConnected(false)
            &&& effects[1] == AppEffectNote::CloseSession
            &&& 0 <= i < a.proxies.len() ==> effects[2 + i] == (AppEffectNote::DestroyProxy {
                id: a.proxies[i].0,
            })
            &&& effects[n - 2] == (AppEffectNote::Status {
                text: "Connecting to "@ + c.name + "…"@,
                active: true,
            })
            &&& effects[n - 1] == AppEffectNote::Connect(c)
        }),
{
}

/// Disconnecting closes the session and everything that came of it, tells the dashboard
/// so, and tries nothing again.
pub proof fn law_disconnecting_ends_the_session(a: AppNote, i: int)
    ensures
        ({
            let (after, effects) = a.acted(ActionNote::Disconnect);
            let n = effects.len();
            &&& !after.active
            &&& !after.session
            &&& !after.connecting
            &&& after.reconnect_at is None
            &&& after.windows.len() == 0
            &&& after.proxies.len() == 0
            &&& after.selected == a.selected
            &&& n == a.proxies.len() + 5
            &&& effects[0] == AppEffectNote::SetConnected(false)
            &&& effects[1] == AppEffectNote::CloseSession
            &&& 0 <= i < a.proxies.len() ==> effects[2 + i] == (AppEffectNote::DestroyProxy {
                id: a.proxies[i].0,
            })
            &&& effects[n - 3] == AppEffectNote::RefreshGallery
            &&& effects[n - 2] matches AppEffectNote::Status { text, active } && !active
            &&& effects[n - 1] == AppEffectNote::ShowDashboard
        }),
{
}

/// A session that was opened is used and remembered; one that could not be is tried again
/// after two seconds.
pub proof fn law_attempts_to_connect_end(a: AppNote, c: ConnectionNote, e: Seq<char>, now: u64)
    requires
        now + 2_000_000_000 <= u64::MAX,
    ensures
        ({
            let (after, effects) = a.connect_ended(Ok(c), now);
            &&& after.session
            &&& !after.connecting
            &&& after.reconnect_at is None
            &&& after.selected == Some(c)
            &&& after.cfg.host == c.host
            &&& after.cfg.control_port == c.control_port
            &&& after.cfg.video_port == c.video_port
            &&& after.notice is None
            &&& effects.len() == 3
            &&& effects[0] == AppEffectNote::SetConnected(true)
            &&& effects[1] == AppEffectNote::Remember(c)
            &&& effects[2] matches AppEffectNote::Status { text, active } && active
        }),
        ({
            let (after, effects) = a.connect_ended(Err(e), now);
            &&& !after.connecting
            &&& after.session == a.session
            &&& after.reconnect_at == Some((now + 2_000_000_000) as u64)
            &&& after.selected == a.selected
            &&& effects.len() == 1
            &&& effects[0] == (AppEffectNote::Status {
                text: "Could not connect: "@ + e + " Retrying…"@,
                active: true,
            })
        }),
{
}

/// A broken session is closed, its native windows go, and it is tried again two seconds
/// later, and not before. Which channel broke is told.
pub proof fn law_broken_sessions_come_back(a: AppNote, reason: Seq<char>, now: u64, later: u64)
    requires
        now + 2_000_000_000 <= u64::MAX,
        a.active,
        !a.connecting,
        a.selected is Some,
    ensures
        ({
            let (after, effects) = a.told(SessionNote::ControlClosed(Some(reason)), now);
            let (tried, more) = after.session_polled(later);
            &&& !after.session
            &&& after.proxies.len() == 0
            &&& effects[0] == (AppEffectNote::Status {
                text: "Connection lost"@ + (": "@ + reason) + ". Retrying…"@,
                active: true,
            })
            &&& effects[1] == AppEffectNote::SetConnected(false)
            &&& effects[2] == AppEffectNote::CloseSession
            &&& later - now < 2_000_000_000 ==> more.len() == 0 && tried == after
            &&& later - now >= 2_000_000_000 ==> tried.connecting && more.last()
                == AppEffectNote::Connect(a.selected->0)
        }),
        ({
            let (after, effects) = a.told(SessionNote::VideoClosed(Some(reason)), now);
            &&& !after.session
            &&& effects[0] == (AppEffectNote::Status {
                text: "Video unavailable"@ + (": "@ + reason) + ". Retrying…"@,
                active: true,
            })
            &&& effects[1] == AppEffectNote::SetConnected(false)
            &&& effects[2] == AppEffectNote::CloseSession
        }),
{
}

/// While there is a session, or one is being opened, or none is wanted, none is opened.
pub proof fn law_one_session_at_a_time(a: AppNote, now: u64)
    requires
        a.session || a.connecting || !a.active || a.selected is None,
    ensures
        a.session_polled(now) == (a, Seq::<AppEffectNote>::empty()),
{
}

// --- what the dashboard is told --------------------------------------------

/// What the dashboard is told of a session: what went wrong last, else what is wrong with
/// the video, else whether there is any.
pub proof fn law_states_are_told(a: AppNote)
    ensures
        a.notice matches Some(notice) ==> a.state_text() == notice,
        a.notice is None ==> (a.video_notice matches Some(notice) ==> a.state_text() == notice),
        a.notice is None && a.video_notice is None ==> a.state_text() == if a.cfg.video_port is None {
            "Control only · video is off"@
        } else if a.video_decoded == 0 {
            "Waiting for video…"@
        } else {
            "Streaming"@
        },
{
}

/// A host's complaint is shown, with its number.
pub proof fn law_complaints_are_shown(a: AppNote, code: u32, message: Seq<char>)
    requires
        a.selected is Some,
    ensures
        ({
            let (after, effects) = a.modelled(EventNote::HostError { code, message });
            let text = "Host error "@ + decimal(code as nat) + ": "@ + message;
            &&& effects.last() == (AppEffectNote::Status { text, active: true })
            &&& after.notice == Some(text)
            &&& after.windows == a.windows
            &&& after.proxies == a.proxies
        }),
{
}

/// A picture that arrives makes every native window due to be drawn and clears what was
/// wrong with the video; one that cannot be shown says so.
pub proof fn law_pictures_make_windows_due(a: AppNote, error: Seq<char>, i: int)
    requires
        a.video_decoded < u64::MAX,
    ensures
        ({
            let (after, effects) = a.uploaded(None);
            &&& after.proxies.len() == a.proxies.len()
            &&& 0 <= i < a.proxies.len() ==> after.proxies[i].0 == a.proxies[i].0
                && after.proxies[i].1 == (ProxyNote { dirty: true, ..a.proxies[i].1 })
            &&& after.video_decoded == a.video_decoded + 1
            &&& after.video_notice is None
            &&& effects[0] == AppEffectNote::RefreshPreviews
            &&& (effects.len() > 1 <==> a.selected is Some && (a.video_decoded == 0
                || a.video_notice is Some))
        }),
        ({
            let (after, effects) = a.uploaded(Some(error));
            &&& after.video_notice == Some("Cannot render video: "@ + error)
            &&& after.proxies == a.proxies
            &&& after.video_decoded == a.video_decoded
            &&& !effects.contains(AppEffectNote::RefreshPreviews)
        }),
{
}

/// The decoder's wish for a keyframe goes to the host, its fault to the dashboard, and
/// its frame to the texture, if there is one.
pub proof fn law_decoders_are_heard(
    a: AppNote,
    received: u64,
    keyframe: bool,
    error: Option<Seq<char>>,
    frame: bool,
)
    ensures
        ({
            let (after, effects) = a.decoder_polled(received, keyframe, error, frame);
            &&& effects.contains(AppEffectNote::RequestKeyframe) <==> keyframe && a.session
            &&& effects.contains(AppEffectNote::UploadFrame) <==> frame && a.source is Some
            &&& after.video_in == received
            &&& error is Some ==> after.video_notice == error
            &&& error is None && a.video_notice is Some ==> after.video_notice == a.video_notice
            &&& error is None && a.video_notice is None ==> (after.video_notice is Some <==> (
            !a.warned_no_decode && a.video_decoded == 0 && received >= 120))
            &&& after.video_decoded == a.video_decoded
        }),
{
    let (after, effects) = a.decoder_polled(received, keyframe, error, frame);
    if keyframe && a.session {
        assert(effects[0] == AppEffectNote::RequestKeyframe);
    }
    if frame && a.source is Some {
        assert(effects[effects.len() - 1] == AppEffectNote::UploadFrame);
    }
}

/// A window on the dashboard is shown if it has a native window, and else opened; hiding
/// it keeps it.
pub proof fn law_windows_are_opened_and_hidden(a: AppNote, id: u64)
    ensures
        ({
            let (after, effects) = a.acted(ActionNote::OpenWindow(id));
            &&& after == a
            &&& has_key(a.proxies, id) ==> effects[0] == (AppEffectNote::ShowProxy { id })
            &&& !has_key(a.proxies, id) && has_key(a.windows, id) ==> effects == seq![
                AppEffectNote::OpenProxy { id },
            ]
        }),
        ({
            let (after, effects) = a.acted(ActionNote::HideWindow(id));
            &&& after == a
            &&& has_key(a.proxies, id) ==> effects[0] == (AppEffectNote::HideProxy { id })
        }),
{
}

// --- where native windows appear -------------------------------------------

/// A length is put where it was wished if it fits there, and else as near as it fits. One
/// that fits nowhere begins where the room begins.
pub proof fn law_windows_are_put_where_they_fit(wished: int, start: int, end: int, length: int)
    ensures
        ({
            let at = placed(wished, start, end, length);
            &&& start <= wished && wished + length <= end ==> at == wished
            &&& length <= end - start ==> start <= at && at + length <= end
            &&& length <= end - start && wished < start ==> at == start
            &&& length <= end - start && wished + length > end ==> at + length == end
            &&& length > end - start ==> at == start
        }),
{
}

/// A native window is made for its window: with its title and its source, framed if it is
/// a normal one, and as large around its client area as its frame is.
pub proof fn law_native_windows_are_made_for_their_window(
    a: AppNote,
    id: u64,
    spawn: i32,
    work: Bounds,
    inset: (i32, i32),
)
    requires
        -0x1_0000 <= inset.0 <= 0x1_0000,
        -0x1_0000 <= inset.1 <= 0x1_0000,
        -0x1000_0000 <= work.left <= work.right <= 0x1000_0000,
        -0x1000_0000 <= work.top <= work.bottom <= 0x1000_0000,
    ensures
        ({
            let plan = a.proxy_plan(id, spawn, work, inset);
            match value_of(a.windows, id) {
                None => plan is None,
                Some(w) => plan matches Some(p) && {
                    &&& p.source == w.source
                    &&& p.title == if trimmed(w.title).len() > 0 {
                        w.title
                    } else {
                        "Transom"@
                    }
                    &&& p.framed <==> w.kind == WindowKind::Normal
                    &&& p.limit == value_of(a.resize_limits, id)
                    &&& p.outer.0 - p.size.w == if p.framed {
                        inset.0 as int
                    } else {
                        0
                    }
                    &&& p.outer.1 - p.size.h == if p.framed {
                        inset.1 as int
                    } else {
                        0
                    }
                    &&& p.clamped <==> !(p.size.w == w.source.w && p.size.h == w.source.h)
                },
            }
        }),
{
    if let Some(w) = value_of(a.windows, id) {
        law_initial_size_stays_within_work_area(
            Size { w: w.source.w, h: w.source.h },
            area_size(work),
        );
    }
}

/// Windows of a session appear one after another 48 pixels further, eight times, and then
/// at the first place again, which is 40 pixels from the corner.
pub proof fn law_windows_cascade(a: AppNote)
    ensures
        a.cascade % 8 == 0 ==> a.next_spawn() == 40,
        a.cascade < u32::MAX && a.cascade % 8 != 7 ==> (AppNote {
            cascade: (a.cascade + 1) as u32,
            ..a
        }).next_spawn() == a.next_spawn() + 48,
{
}

} // verus!
