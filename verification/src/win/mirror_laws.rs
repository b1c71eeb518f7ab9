//! The application knows what the model knows.

use vstd::prelude::*;

use crate::keyed::law_dropped_keys_are_gone;
use crate::keyed::law_set_values_are_found;
use crate::keyed::value_of;
use crate::model::changes_known;
use crate::model::followed;
use crate::model::ids_unique;
use crate::model::law_events_change_known_windows;
use crate::model::law_events_tell_every_window;
use crate::model::model_step;
use crate::model::source_of;
use crate::model::EventNote;
use crate::model::ModelNote;
use crate::model::WindowNote;
use crate::win::app::AppNote;
use crate::win::app_laws::law_events_keep_the_app_sound;
use crate::win::app_laws::law_gone_windows_keep_the_app_sound;
use crate::win::turn::SessionNote;
use crate::wire::control::Rect;
use crate::wire::control::ServerNote;

verus! {

/// Where the application believes a shared window to be.
pub open spec fn known_source(a: AppNote, id: u64) -> Option<Rect> {
    match value_of(a.windows, id) {
        Some(w) => Some(w.source),
        None => None,
    }
}

/// Several model events came in.
pub open spec fn all_modelled(a: AppNote, events: Seq<EventNote>) -> AppNote
    decreases events.len(),
{
    if events.len() == 0 {
        a
    } else {
        all_modelled(a, events.drop_last()).modelled(events.last()).0
    }
}

proof fn lemma_gone(a: AppNote, ids: Seq<u64>, id: u64)
    requires
        a.sound(),
    ensures
        known_source(a.windows_gone(ids).0, id) == if ids.contains(id) {
            None
        } else {
            known_source(a, id)
        },
    decreases ids.len(),
{
    if ids.len() > 0 {
        let front = ids.drop_last();
        lemma_gone(a, front, id);
        law_gone_windows_keep_the_app_sound(a, front);
        let b = a.windows_gone(front).0;
        law_dropped_keys_are_gone(b.windows, ids.last(), id);
        if ids.contains(id) && id != ids.last() {
            let k = choose|k: int| 0 <= k < ids.len() && ids[k] == id;
            assert(front[k] == id);
        }
        if front.contains(id) {
            let k = choose|k: int| 0 <= k < front.len() && front[k] == id;
            assert(ids[k] == id);
        }
        assert(ids[ids.len() - 1] == ids.last());
    }
}

/// One event changes what the application knows as it tells.
proof fn lemma_follows_one(a: AppNote, ev: EventNote, id: u64)
    requires
        a.sound(),
        ev matches EventNote::WindowRectChanged { id: changed, source, size_changed }
            ==> known_source(a, changed) is Some,
    ensures
        known_source(a.modelled(ev).0, id) == followed(known_source(a, id), seq![ev], id),
{
    assert(seq![ev].drop_last() =~= Seq::<EventNote>::empty());
    assert(followed(known_source(a, id), Seq::empty(), id) == known_source(a, id));
    match ev {
        EventNote::WindowAdded(w) => {
            law_set_values_are_found(a.windows, w.id, w, id);
        },
        EventNote::WindowRectChanged { id: changed, source, size_changed } => {
            let w = value_of(a.windows, changed)->0;
            law_set_values_are_found(a.windows, changed, WindowNote { source, ..w }, id);
        },
        EventNote::WindowTitleChanged { id: named, title } => {
            if let Some(w) = value_of(a.windows, named) {
                law_set_values_are_found(a.windows, named, WindowNote { title, ..w }, id);
            }
        },
        EventNote::WindowRemoved { id: gone } => {
            law_dropped_keys_are_gone(a.windows, gone, id);
        },
        EventNote::Resynced { removed } => {
            lemma_gone(a, removed, id);
        },
        _ => {},
    }
}

proof fn lemma_follows(a: AppNote, windows: Seq<WindowNote>, events: Seq<EventNote>)
    requires
        a.sound(),
        forall|id: u64| known_source(a, id) == source_of(windows, id),
        changes_known(windows, events),
    ensures
        all_modelled(a, events).sound(),
        forall|id: u64|
            #[trigger] known_source(all_modelled(a, events), id) == followed(
                source_of(windows, id),
                events,
                id,
            ),
    decreases events.len(),
{
    if events.len() > 0 {
        let front = events.drop_last();
        let ev = events.last();
        assert forall|k: int| 0 <= k < front.len() implies (
        #[trigger] front[k] matches EventNote::WindowRectChanged { id, source, size_changed }
            ==> followed(source_of(windows, id), front.take(k), id) is Some) by {
            assert(front[k] == events[k]);
            assert(front.take(k) =~= events.take(k));
        }
        lemma_follows(a, windows, front);
        let b = all_modelled(a, front);
        law_events_keep_the_app_sound(b, SessionNote::Control(ev), 0);
        assert(events[events.len() - 1] == ev);
        assert(events.take(events.len() - 1) =~= front);
        assert forall|id: u64| #[trigger]
            known_source(all_modelled(a, events), id) == followed(
                source_of(windows, id),
                events,
                id,
            ) by {
            if let EventNote::WindowRectChanged { id: changed, source, size_changed } = ev {
                assert(known_source(b, changed) == followed(
                    source_of(windows, changed),
                    front,
                    changed,
                ));
            }
            lemma_follows_one(b, ev, id);
            assert(seq![ev].drop_last() =~= Seq::<EventNote>::empty());
            assert(followed(known_source(b, id), Seq::empty(), id) == known_source(b, id));
        }
    } else {
        assert forall|id: u64| #[trigger]
            known_source(all_modelled(a, events), id) == followed(
                source_of(windows, id),
                events,
                id,
            ) by {
            assert(known_source(a, id) == source_of(windows, id));
        }
    }
}

/// An application that takes in the events of every host message always knows the same
/// windows at the same places as the model, and stays sound.
pub proof fn law_app_mirrors_the_model(a: AppNote, m: ModelNote, msg: ServerNote, id: u64)
    requires
        a.sound(),
        ids_unique(m.windows),
        forall|k: u64| known_source(a, k) == source_of(m.windows, k),
    ensures
        ({
            let (after, events) = model_step(m, msg);
            &&& all_modelled(a, events).sound()
            &&& known_source(all_modelled(a, events), id) == source_of(after.windows, id)
        }),
{
    let (after, events) = model_step(m, msg);
    law_events_change_known_windows(m, msg);
    lemma_follows(a, m.windows, events);
    law_events_tell_every_window(m, msg, id);
}

} // verus!
