//! What a turn promises, message by message. The messages of the system are named here by
//! their numbers.

use vstd::prelude::*;

use crate::keyed::has_key;
use crate::keyed::law_dropped_keys_are_gone;
use crate::keyed::law_set_values_are_found;
use crate::keyed::value_of;
use crate::wire::control::Rect;
use crate::wire::control::Size;
use crate::win::app::AppEffectNote;
use crate::win::app::AppNote;
use crate::win::chrome::Bounds;
use crate::win::event_queue::NativeEvent;
use crate::win::proxy::ProxyNote;
use crate::win::turn::area_size;
use crate::win::turn::client_area;
use crate::win::turn::dragged_size;
use crate::win::turn::late_snaps;
use crate::win::turn::message_answer;
use crate::win::turn::settled;
use crate::win::turn::told_size;
use crate::win::turn::WindowFacts;

verus! {

// --- sizes -----------------------------------------------------------------

/// The size of a work area is that of the rectangle, at least one pixel each way; a client
/// area is as large as the system says, but for what is less than the least; a window that
/// is dragged to a rectangle has the rectangle but for its frame as its client area.
pub proof fn law_sizes_are_those_of_their_rectangles(
    r: Bounds,
    corner: (i32, i32),
    least: u32,
    inset: (i32, i32),
)
    requires
        0 <= r.left < r.right,
        0 <= r.top < r.bottom,
        0 <= inset.0 < 1000,
        0 <= inset.1 < 1000,
    ensures
        area_size(r).w == r.right - r.left,
        area_size(r).h == r.bottom - r.top,
        corner.0 >= least ==> client_area(corner, least).w == corner.0,
        corner.0 < least ==> client_area(corner, least).w == least,
        corner.1 >= least ==> client_area(corner, least).h == corner.1,
        corner.1 < least ==> client_area(corner, least).h == least,
        r.right - r.left > inset.0 ==> dragged_size(r, inset).w + inset.0 == r.right - r.left,
        r.bottom - r.top > inset.1 ==> dragged_size(r, inset).h + inset.1 == r.bottom - r.top,
        r.right - r.left <= inset.0 ==> dragged_size(r, inset).w == 1,
        r.bottom - r.top <= inset.1 ==> dragged_size(r, inset).h == 1,
{
}

// --- messages --------------------------------------------------------------

/// A window that the user begins to move (0x231) is dragged, with no size waited for and
/// no hover move left; one that the user lets go of (0x232) is not. Only a window whose
/// edge was dragged then asks for its size.
pub proof fn law_drags_begin_and_end(
    a: AppNote,
    id: u64,
    event: NativeEvent,
    facts: WindowFacts,
    now: u64,
)
    requires
        has_key(a.proxies, id),
        a.session,
        a.sound(),
    ensures
        event.msg == 0x0231 ==> ({
            let (after, effects) = a.message_done(id, event, facts, now);
            let p = value_of(after.proxies, id);
            &&& effects.len() == 0
            &&& p is Some
            &&& p->0.in_size_move
            &&& !p->0.resizing
            &&& p->0.resize_sync.pending is None
            &&& value_of(after.pending_mouse_moves, id) is None
        }),
        event.msg == 0x0232 ==> ({
            let before = value_of(a.proxies, id)->0;
            let (after, effects) = a.message_done(id, event, facts, now);
            let p = value_of(after.proxies, id);
            &&& p is Some
            &&& !p->0.in_size_move
            &&& !p->0.resizing
            &&& p->0.dirty
            &&& !before.resizing ==> effects.len() == 0
            &&& before.resizing ==> effects == seq![
                AppEffectNote::CommitResize {
                    id,
                    size: client_area(facts.client, 1),
                    request: before.resize_sync.next_serial(),
                },
            ]
        }),
{
    let p = value_of(a.proxies, id)->0;
    if event.msg == 0x0231 {
        let q = ProxyNote {
            resize_sync: p.resize_sync.begun(),
            in_size_move: true,
            resizing: false,
            last_live_send: None,
            ..p
        };
        law_set_values_are_found(a.proxies, id, q, id);
        law_dropped_keys_are_gone(a.pending_mouse_moves, id, id);
    }
    if event.msg == 0x0232 {
        let q = ProxyNote {
            dirty: true,
            in_size_move: false,
            resizing: false,
            last_live_send: None,
            ..p
        };
        law_set_values_are_found(a.proxies, id, q, id);
        let b = a.changed(id, q);
        law_set_values_are_found(
            b.proxies,
            id,
            ProxyNote { resize_sync: q.resize_sync.committed(now), ..q },
            id,
        );
    }
}

/// A window that has to be painted (0xF) is drawn and counts as painted; one that comes to
/// another density (0x2E0) goes where the system suggests; one that is closed (0x10) is
/// hidden and kept; one that was destroyed (2) is forgotten, with its shared window kept.
pub proof fn law_messages_do_their_part(
    a: AppNote,
    id: u64,
    event: NativeEvent,
    facts: WindowFacts,
    now: u64,
    other: u64,
)
    requires
        has_key(a.proxies, id),
        a.sound(),
        event.msg == 0x02E0 ==> event.rect is Some,
    ensures
        ({
            let (after, effects) = a.message_done(id, event, facts, now);
            &&& event.msg == 0x000F ==> effects == seq![
                AppEffectNote::Render { id },
                AppEffectNote::Validate { id },
            ] && value_of(after.proxies, id) == Some(
                ProxyNote { dirty: true, ..value_of(a.proxies, id)->0 },
            )
            &&& event.msg == 0x02E0 ==> after == a && effects == seq![
                AppEffectNote::MoveTo { id, bounds: event.rect->0 },
            ]
            &&& event.msg == 0x0010 ==> after.proxies == a.proxies && after.windows == a.windows
                && effects[0] == (AppEffectNote::HideProxy { id })
            &&& event.msg == 0x0002 ==> value_of(after.proxies, id) is None && after.windows
                == a.windows && effects.len() == 0
            &&& event.msg == 0x0002 && other != id ==> value_of(after.proxies, other) == value_of(
                a.proxies,
                other,
            )
        }),
{
    if event.msg == 0x000F {
        law_set_values_are_found(
            a.proxies,
            id,
            ProxyNote { dirty: true, ..value_of(a.proxies, id)->0 },
            id,
        );
    }
    if event.msg == 0x0002 {
        law_dropped_keys_are_gone(a.proxies, id, id);
        law_dropped_keys_are_gone(a.proxies, id, other);
    }
}

/// The messages that are dealt with are told so: sizing (0x214) with 1, and those of size
/// and movement, density, painting, closing, destruction and activation with 0.
pub proof fn law_answers_of_a_turn(event: NativeEvent)
    ensures
        message_answer(event) == Some(1isize) <==> event.msg == 0x0214,
        message_answer(event) == Some(0isize) <==> event.msg == 0x0005 || event.msg == 0x0231
            || event.msg == 0x0232 || event.msg == 0x02E0 || event.msg == 0x000F || event.msg
            == 0x0010 || event.msg == 0x0002 || (event.msg == 0x0006 && event.wparam as int
            % 0x1_0000 != 0),
{
}

// --- drawing ---------------------------------------------------------------

proof fn lemma_late_snaps(proxies: Seq<(u64, ProxyNote)>, now: u64, e: AppEffectNote)
    ensures
        late_snaps(proxies, now).contains(e) <==> exists|i: int|
            0 <= i < proxies.len() && snaps_late(#[trigger] proxies[i], now) && e
                == snap_of(proxies[i]),
    decreases proxies.len(),
{
    if proxies.len() > 0 {
        let front = proxies.drop_last();
        let before = late_snaps(front, now);
        let all = late_snaps(proxies, now);
        let n = proxies.len() - 1;
        lemma_late_snaps(front, now, e);
        if all.contains(e) {
            let k = choose|k: int| 0 <= k < all.len() && all[k] == e;
            if k < before.len() {
                assert(before[k] == e);
                let i = choose|i: int|
                    0 <= i < front.len() && snaps_late(#[trigger] front[i], now) && e
                        == snap_of(front[i]);
                assert(proxies[i] == front[i]);
            } else {
                assert(snaps_late(proxies[n], now));
            }
        }
        if exists|i: int|
            0 <= i < proxies.len() && snaps_late(#[trigger] proxies[i], now) && e
                == snap_of(proxies[i]) {
            let i = choose|i: int|
                0 <= i < proxies.len() && snaps_late(#[trigger] proxies[i], now) && e
                    == snap_of(proxies[i]);
            if i < n {
                assert(front[i] == proxies[i]);
                assert(before.contains(e));
                let k = choose|k: int| 0 <= k < before.len() && before[k] == e;
                assert(all[k] == e);
            } else {
                assert(all[all.len() - 1] == e);
            }
        }
    }
}

/// Whether a window has waited 1500 milliseconds for an answer, is not being dragged, and
/// has another size than its source.
pub open spec fn snaps_late(proxy: (u64, ProxyNote), now: u64) -> bool {
    &&& proxy.1.resize_sync.pending matches Some(p) && now - p.1 >= 1_500_000_000
    &&& !proxy.1.in_size_move
    &&& !(proxy.1.width == proxy.1.source.w && proxy.1.height == proxy.1.source.h)
}

pub open spec fn snap_of(proxy: (u64, ProxyNote)) -> AppEffectNote {
    AppEffectNote::Snap {
        id: proxy.0,
        size: Size { w: proxy.1.source.w, h: proxy.1.source.h },
    }
}

/// Every turn draws every native window, in order. A window whose answer is overdue waits
/// no longer, and takes the size of its source if it may; no other window is touched.
pub proof fn law_every_window_is_drawn(a: AppNote, now: u64, i: int)
    requires
        0 <= i < a.proxies.len(),
    ensures
        ({
            let (after, effects) = a.rendered(now);
            let n = effects.len() - a.proxies.len();
            let p = a.proxies[i].1;
            let overdue = p.resize_sync.pending matches Some(sent) && now - sent.1
                >= 1_500_000_000;
            &&& n >= 0
            &&& effects[n + i] == (AppEffectNote::Render { id: a.proxies[i].0 })
            &&& after.proxies.len() == a.proxies.len()
            &&& after.proxies[i].0 == a.proxies[i].0
            &&& overdue ==> after.proxies[i].1.resize_sync.pending is None
            &&& !overdue ==> after.proxies[i].1 == p
            &&& after.proxies[i].1.source == p.source
            &&& snaps_late(a.proxies[i], now) ==> effects.contains(snap_of(a.proxies[i]))
        }),
{
    let (after, effects) = a.rendered(now);
    let early = late_snaps(a.proxies, now);
    if snaps_late(a.proxies[i], now) {
        lemma_late_snaps(a.proxies, now, snap_of(a.proxies[i]));
        assert(early.contains(snap_of(a.proxies[i])));
        let k = choose|k: int| 0 <= k < early.len() && early[k] == snap_of(a.proxies[i]);
        assert(effects[k] == early[k]);
    }
    assert(settled(a.proxies[i].1, now) == after.proxies[i].1);
}

// --- new windows -----------------------------------------------------------

/// A native window that was made shows the source of its window, is revealed, and asks the
/// host for its size only if it had to be made smaller.
pub proof fn law_made_windows_are_shown(
    a: AppNote,
    id: u64,
    source: Rect,
    size: Size,
    clamped: bool,
    facts: WindowFacts,
    now: u64,
)
    requires
        a.session,
    ensures
        ({
            let (after, effects) = a.proxy_made(id, source, size, clamped, facts, now);
            let p = value_of(after.proxies, id);
            &&& p is Some
            &&& p->0.source == source
            &&& p->0.dirty
            &&& !p->0.in_size_move
            &&& p->0.checkerboard == a.cfg.checkerboard
            &&& p->0.resize_sync.pending is Some <==> clamped
            &&& effects.contains(AppEffectNote::Reveal { id })
            &&& effects.contains(AppEffectNote::RefreshGallery)
            &&& clamped ==> effects.contains(AppEffectNote::CommitResize { id, size, request: 1 })
            &&& after.windows == a.windows
        }),
{
    let (after, effects) = a.proxy_made(id, source, size, clamped, facts, now);
    let p = ProxyNote::created(source, a.cfg.checkerboard);
    let actual = client_area(facts.client, 1);
    let told = told_size(p, actual, facts.ready);
    law_set_values_are_found(a.proxies, id, told, id);
    let b = AppNote { proxies: crate::keyed::with_value(a.proxies, id, told), ..a };
    law_set_values_are_found(
        b.proxies,
        id,
        ProxyNote { resize_sync: told.resize_sync.committed(now), ..told },
        id,
    );
    assert(effects[1] == (AppEffectNote::Reveal { id }));
    let k = if clamped {
        3int
    } else {
        2
    };
    assert(effects[k] == AppEffectNote::RefreshGallery);
    if clamped {
        assert(effects[2] == (AppEffectNote::CommitResize { id, size, request: 1 }));
    }
}

} // verus!
