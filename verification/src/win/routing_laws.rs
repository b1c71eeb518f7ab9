//! What becomes of the messages of windows and of video streams, and of the pixels that
//! arrive. The messages of the system are named here by their numbers.

use vstd::prelude::*;

use crate::connections::ConnectionNote;
use crate::resize_sync::SyncNote;
use crate::wire::control::Size;
use crate::win::event_queue::answer_to;
use crate::win::event_queue::is_coalesced;
use crate::win::event_queue::is_queued;
use crate::win::event_queue::queued;
use crate::win::event_queue::without;
use crate::win::event_queue::Answer;
use crate::win::event_queue::NativeEvent;
use crate::win::overview::first_with_id;
use crate::win::proxy::ProxyNote;
use crate::win::proxy::RenderMode;
use crate::win::video_router::Route;
use crate::win::video_router::RouterNote;

verus! {

// --- the queue of native events --------------------------------------------

/// The messages that wait for their turn: those of size and movement, of painting and
/// activation, of the pointer, its buttons and its wheels, of the keys, and of closing.
pub proof fn law_messages_that_wait(msg: u32)
    ensures
        is_queued(msg) <==> seq![
            0x0002u32, 0x0005u32, 0x0006u32, 0x000Fu32, 0x0010u32, 0x0100u32, 0x0101u32, 0x0104u32,
            0x0105u32, 0x0200u32, 0x0201u32, 0x0202u32, 0x0204u32, 0x0205u32, 0x0207u32, 0x0208u32,
            0x020Au32, 0x020Eu32, 0x0214u32, 0x0231u32, 0x0232u32, 0x02E0u32,
        ].contains(msg),
{
    let all = seq![
        0x0002u32, 0x0005u32, 0x0006u32, 0x000Fu32, 0x0010u32, 0x0100u32, 0x0101u32, 0x0104u32,
        0x0105u32, 0x0200u32, 0x0201u32, 0x0202u32, 0x0204u32, 0x0205u32, 0x0207u32, 0x0208u32,
        0x020Au32, 0x020Eu32, 0x0214u32, 0x0231u32, 0x0232u32, 0x02E0u32,
    ];
    assert(all[0] == 0x0002 && all[1] == 0x0005 && all[2] == 0x0006 && all[3] == 0x000F && all[4]
        == 0x0010 && all[5] == 0x0100 && all[6] == 0x0101 && all[7] == 0x0104);
    assert(all[8] == 0x0105 && all[9] == 0x0200 && all[10] == 0x0201 && all[11] == 0x0202 && all[12]
        == 0x0204 && all[13] == 0x0205 && all[14] == 0x0207 && all[15] == 0x0208);
    assert(all[16] == 0x020A && all[17] == 0x020E && all[18] == 0x0214 && all[19] == 0x0231
        && all[20] == 0x0232 && all[21] == 0x02E0);
}

/// The window procedure counts a window as painted (0xF), keeps it from being closed
/// (0x10) or rescaled (0x2E0) by the system, takes over its sizing (0x214), and leaves
/// the rest to the system.
pub proof fn law_answers_to_messages(msg: u32)
    ensures
        answer_to(msg) == Answer::Painted <==> msg == 0x000F,
        answer_to(msg) == Answer::Done(0) <==> msg == 0x0010 || msg == 0x02E0,
        answer_to(msg) == Answer::Done(1) <==> msg == 0x0214,
        answer_to(msg) == Answer::Default <==> msg != 0x000F && msg != 0x0010 && msg != 0x02E0
            && msg != 0x0214,
{
}

proof fn lemma_without_is_filter(events: Seq<NativeEvent>, window: u64, msg: Option<u32>)
    ensures
        without(events, window, msg) == events.filter(
            |e: NativeEvent| !(e.window == window && (msg is None || msg == Some(e.msg))),
        ),
    decreases events.len(),
{
    reveal(Seq::filter);
    if events.len() > 0 {
        lemma_without_is_filter(events.drop_last(), window, msg);
    }
}

/// A new event goes to the end of the queue. A paint (0xF), a size (5) or a move of the
/// pointer (0x200) takes the place of the one that its window had waiting; every other
/// event stays, in order.
pub proof fn law_new_events_come_last(events: Seq<NativeEvent>, e: NativeEvent)
    ensures
        queued(events, e) == (if e.msg == 0x000F || e.msg == 0x0005 || e.msg == 0x0200 {
            events.filter(
                |other: NativeEvent| !(other.window == e.window && other.msg == e.msg),
            )
        } else {
            events
        }).push(e),
{
    let kept = events.filter(
        |other: NativeEvent| !(other.window == e.window && other.msg == e.msg),
    );
    if is_coalesced(e.msg) {
        lemma_without_is_filter(events, e.window, Some(e.msg));
        let f = |other: NativeEvent|
            !(other.window == e.window && (Some(e.msg) is None || Some(e.msg) == Some(other.msg)));
        let g = |other: NativeEvent| !(other.window == e.window && other.msg == e.msg);
        assert(f =~= g);
    }
}

/// A window that goes takes exactly its own events out of the queue.
pub proof fn law_gone_windows_leave_the_queue(events: Seq<NativeEvent>, window: u64)
    ensures
        without(events, window, None) == events.filter(|e: NativeEvent| e.window != window),
{
    lemma_without_is_filter(events, window, None);
    let none: Option<u32> = None;
    let f = |e: NativeEvent| !(e.window == window && (none is None || none == Some(e.msg)));
    let g = |e: NativeEvent| e.window != window;
    assert(f =~= g);
}

// --- video streams ---------------------------------------------------------

/// A stream opens with its configuration, and not before: its frames go to a decoder only
/// once it came, and only those of its generation and its size.
pub proof fn law_streams_open_with_their_configuration(
    r: RouterNote,
    id: u64,
    generation: u64,
    size: Size,
    frame: (u64, Size),
)
    requires
        r.streams.dom().finite(),
        !r.streams.contains_key(id),
        r.retired.contains_key(id) ==> generation > r.retired[id],
        r.streams.len() < 16,
    ensures
        r.route(id, generation, size, false) == Route::Nowhere,
        r.received(id, generation, size, false) == r,
        r.route(id, generation, size, true) == Route::Fresh,
        ({
            let open = r.received(id, generation, size, true);
            let goes = open.route(id, frame.0, frame.1, false);
            &&& goes == if frame.0 == generation && frame.1 == size {
                Route::Current
            } else {
                Route::Nowhere
            }
            &&& open.received(id, frame.0, frame.1, false) == open
            &&& open.retired == r.retired
        }),
{
}

/// A later generation takes the place of a stream, again with its configuration only;
/// from then on the earlier one goes nowhere.
pub proof fn law_later_generations_take_over(
    r: RouterNote,
    id: u64,
    later: u64,
    size: Size,
    any: Size,
    config: bool,
)
    requires
        r.streams.contains_key(id),
        r.streams[id].generation < later,
        r.retired.contains_key(id) ==> r.retired[id] < later,
    ensures
        r.route(id, later, size, false) == Route::Nowhere,
        r.route(id, later, size, true) == Route::Fresh,
        ({
            let next = r.received(id, later, size, true);
            &&& next.route(id, later, size, config) == Route::Current
            &&& next.route(id, r.streams[id].generation, any, config) == Route::Nowhere
        }),
{
}

/// With 16 streams open no other window gets one.
pub proof fn law_full_routers_open_nothing(
    r: RouterNote,
    id: u64,
    generation: u64,
    size: Size,
    config: bool,
)
    requires
        !r.streams.contains_key(id),
        r.streams.len() >= 16,
    ensures
        r.route(id, generation, size, config) == Route::Nowhere,
        r.received(id, generation, size, config) == r,
{
}

// --- pixels ----------------------------------------------------------------

/// A window shows its own pixels: those of its own texture from the corner on, those of a
/// shared texture from where the window lies on it, one for one and no more than there
/// are, but while it is dragged to a size. What they do not cover is cleared.
pub proof fn law_windows_show_their_own_pixels(p: ProxyNote, t: Size, independent: bool)
    requires
        !p.checkerboard,
    ensures
        p.plan(Some(t), independent).mode matches RenderMode::Source { crop } && {
            let plan = p.plan(Some(t), independent);
            let dragged = p.in_size_move && p.resizing;
            &&& crop.x == if independent {
                0
            } else {
                p.source.x
            }
            &&& crop.y == if independent {
                0
            } else {
                p.source.y
            }
            &&& dragged ==> plan.draw == (Size { w: p.width, h: p.height })
            &&& dragged ==> crop.w <= p.source.w && crop.h <= p.source.h
            &&& dragged && !independent ==> crop == p.source
            &&& !dragged ==> crop.w == plan.draw.w && crop.h == plan.draw.h
            &&& !dragged && p.width >= 1 ==> 1 <= plan.draw.w <= p.width
            &&& !dragged && p.height >= 1 ==> 1 <= plan.draw.h <= p.height
            &&& !dragged && p.source.w >= 1 ==> plan.draw.w <= p.source.w
            &&& !dragged && p.source.h >= 1 ==> plan.draw.h <= p.source.h
            &&& !dragged && independent && t.w >= 1 ==> plan.draw.w <= t.w
            &&& !dragged && independent && t.h >= 1 ==> plan.draw.h <= t.h
            &&& !dragged && !independent && p.width >= 1 && p.source.w >= 1 ==> (plan.draw.w
                == p.width || plan.draw.w == p.source.w)
            &&& !dragged && !independent && p.height >= 1 && p.source.h >= 1 ==> (plan.draw.h
                == p.height || plan.draw.h == p.source.h)
            &&& plan.clear <==> !(plan.draw.w == p.width && plan.draw.h == p.height)
        },
        p.plan(None, independent).mode == RenderMode::Waiting,
{
}

/// The checkerboard covers the whole window, whatever has arrived.
pub proof fn law_checkerboards_cover_the_window(
    p: ProxyNote,
    texture: Option<Size>,
    independent: bool,
)
    requires
        p.checkerboard,
    ensures
        p.plan(texture, independent).mode == RenderMode::Checkerboard,
        p.plan(texture, independent).draw == (Size { w: p.width, h: p.height }),
        !p.plan(texture, independent).clear,
{
}

/// Requests are numbered one after another, and each waits 1500 milliseconds for its own
/// acknowledgement and for no other.
pub proof fn law_requests_wait_for_their_own_answer(s: SyncNote, sent: u64, now: u64, answer: u64)
    requires
        s.serial < u64::MAX,
    ensures
        s.next_serial() == s.serial + 1,
        s.committed(sent).next_serial() != s.next_serial(),
        s.committed(sent).completes(answer) <==> answer == s.serial + 1,
        s.committed(sent).is_expired(now) <==> now - sent >= 1_500_000_000,
        !s.begun().completes(answer),
        !s.begun().is_expired(now),
        s.begun().next_serial() == s.next_serial(),
{
}

/// The Mac of a saved connection is the first that was found under its id.
pub proof fn law_saved_macs_are_found_by_id(found: Seq<ConnectionNote>, id: Seq<char>, i: int)
    requires
        0 <= i <= found.len(),
    ensures
        ({
            let at = first_with_id(found, id, i);
            &&& i <= at <= found.len()
            &&& at < found.len() ==> found[at].id == id
            &&& forall|k: int| i <= k < at ==> (#[trigger] found[k]).id != id
        }),
    decreases found.len() - i,
{
    if i < found.len() && found[i].id != id {
        law_saved_macs_are_found_by_id(found, id, i + 1);
    }
}

} // verus!
