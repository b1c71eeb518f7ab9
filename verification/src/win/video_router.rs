//! Each window owns a decoder and reference chain; a resize replaces only that
//! generation. Which decoder a message goes to is decided here; the decoders belong
//! to the caller, who keeps one for each stream.

use vstd::prelude::*;
use vstd::std_specs::iter::IteratorSpec;
use std::collections::HashMap;

use crate::wire::control::Size;

verus! {

broadcast use vstd::std_specs::hash::group_hash_axioms;

/// How many streams there are at most.
pub const MAX_STREAMS: usize = 16;

/// One window's stream.
#[derive(Debug, Clone, Copy, PartialEq, Eq, Structural)]
pub struct Stream {
    pub generation: u64,
    pub size: Size,
}

/// Where a message goes.
#[derive(Debug, Clone, Copy, PartialEq, Eq, Structural)]
pub enum Route {
    /// To no decoder.
    Nowhere,
    /// To the decoder of the window's stream.
    Current,
    /// To a new decoder, which takes the place of the window's last one.
    Fresh,
}

pub struct VideoRouter {
    streams: HashMap<u64, Stream>,
    retired: HashMap<u64, u64>,
}

/// What a [`VideoRouter`] holds: the streams by window, and the last generation of
/// each window that was closed.
pub struct RouterNote {
    pub streams: Map<u64, Stream>,
    pub retired: Map<u64, u64>,
}

impl RouterNote {
    /// Where a message of a window's generation goes.
    pub open spec fn route(self, id: u64, generation: u64, size: Size, config: bool) -> Route {
        if self.retired.contains_key(id) && generation <= self.retired[id] {
            Route::Nowhere
        } else if self.streams.contains_key(id) {
            let current = self.streams[id];
            if generation < current.generation {
                Route::Nowhere
            } else if generation == current.generation {
                if size == current.size {
                    Route::Current
                } else {
                    Route::Nowhere
                }
            } else if config {
                Route::Fresh
            } else {
                Route::Nowhere
            }
        } else if config && self.streams.len() < MAX_STREAMS {
            Route::Fresh
        } else {
            Route::Nowhere
        }
    }

    /// The router once a message was routed.
    pub open spec fn received(
        self,
        id: u64,
        generation: u64,
        size: Size,
        config: bool,
    ) -> RouterNote {
        if self.route(id, generation, size, config) == Route::Fresh {
            RouterNote { streams: self.streams.insert(id, Stream { generation, size }), ..self }
        } else {
            self
        }
    }

    /// The router once a window was closed.
    pub open spec fn removed(self, id: u64) -> RouterNote {
        if self.streams.contains_key(id) {
            RouterNote {
                streams: self.streams.remove(id),
                retired: self.retired.insert(id, self.streams[id].generation),
            }
        } else {
            self
        }
    }
}

impl Default for VideoRouter {
    fn default() -> (router: Self)
        ensures
            router@ == (RouterNote { streams: Map::empty(), retired: Map::empty() }),
    {
        VideoRouter { streams: HashMap::new(), retired: HashMap::new() }
    }
}

impl VideoRouter {
    pub closed spec fn view(&self) -> RouterNote {
        RouterNote { streams: self.streams@, retired: self.retired@ }
    }

    /// Route one message. Only a configuration opens a stream or starts a new
    /// generation of one.
    pub fn receive(&mut self, id: u64, generation: u64, size: Size, config: bool) -> (route: Route)
        ensures
            route == old(self)@.route(id, generation, size, config),
            final(self)@ == old(self)@.received(id, generation, size, config),
    {
        match self.retired.get(&id) {
            Some(last) => {
                if generation <= *last {
                    return Route::Nowhere;
                }
            },
            None => {},
        }
        match self.streams.get(&id) {
            Some(current) => {
                if generation < current.generation {
                    return Route::Nowhere;
                }
                if generation == current.generation {
                    if size == current.size {
                        return Route::Current;
                    }
                    return Route::Nowhere;
                }
                if !config {
                    return Route::Nowhere;
                }
            },
            None => {
                if !config || self.streams.len() >= MAX_STREAMS {
                    return Route::Nowhere;
                }
            },
        }
        self.streams.insert(id, Stream { generation, size });
        Route::Fresh
    }

    /// Close a window's stream. Whatever still arrives for that generation goes
    /// nowhere.
    pub fn remove(&mut self, id: u64)
        ensures
            final(self)@ == old(self)@.removed(id),
    {
        match self.streams.remove(&id) {
            Some(stream) => {
                self.retired.insert(id, stream.generation);
            },
            None => {
                proof {
                    assert(self@.streams =~= old(self)@.streams);
                }
            },
        }
    }

    /// The stream of a window.
    pub fn stream(&self, id: u64) -> (stream: Option<Stream>)
        ensures
            stream == if self@.streams.contains_key(id) {
                Some(self@.streams[id])
            } else {
                None
            },
    {
        match self.streams.get(&id) {
            Some(stream) => Some(*stream),
            None => None,
        }
    }

    /// The windows whose decoders are to be asked for pictures, each once, with the
    /// size of its pictures. They come in no particular order.
    pub fn poll(&self) -> (list: Vec<(u64, Size)>)
        ensures
            forall|i: int, j: int| 0 <= i < j < list@.len() ==> list@[i].0 != list@[j].0,
            forall|i: int|
                0 <= i < list@.len() ==> {
                    &&& self@.streams.contains_key((#[trigger] list@[i]).0)
                    &&& self@.streams[list@[i].0].size == list@[i].1
                },
            forall|id: u64| #[trigger]
                self@.streams.contains_key(id) ==> exists|i: int|
                    0 <= i < list@.len() && (#[trigger] list@[i]).0 == id,
    {
        let mut list: Vec<(u64, Size)> = Vec::new();
        let ghost all = self.streams.keys().remaining();
        for id in it: self.streams.keys()
            invariant
                it.seq() == all,
                list@.len() == it.index(),
                it.seq().no_duplicates(),
                it.seq().unref().to_set() == self.streams@.dom(),
                forall|i: int|
                    0 <= i < list@.len() ==> {
                        &&& self@.streams.contains_key((#[trigger] list@[i]).0)
                        &&& self@.streams[list@[i].0].size == list@[i].1
                        &&& list@[i].0 == *it.seq()[i]
                    },
        {
            proof {
                assert(it.seq().unref()[it.index() as int] == *id);
                assert(it.seq().unref().to_set().contains(*id));
            }
            match self.streams.get(id) {
                Some(stream) => {
                    list.push((*id, stream.size));
                },
                None => {},
            }
        }
        proof {
            assert forall|id: u64| #[trigger] self@.streams.contains_key(id) implies exists|i: int|
                0 <= i < list@.len() && (#[trigger] list@[i]).0 == id by {
                assert(all.unref().to_set().contains(id));
                let i = choose|i: int| 0 <= i < all.len() && all.unref()[i] == id;
                assert(list@[i].0 == id);
            }
        }
        list
    }

    /// The last generation of a window that was closed.
    pub fn retired(&self, id: u64) -> (generation: Option<u64>)
        ensures
            generation == if self@.retired.contains_key(id) {
                Some(self@.retired[id])
            } else {
                None
            },
    {
        match self.retired.get(&id) {
            Some(generation) => Some(*generation),
            None => None,
        }
    }
}

/// A window's stream never goes back to an earlier generation, and other windows'
/// streams are not touched.
pub proof fn law_generations_only_advance(
    r: RouterNote,
    id: u64,
    generation: u64,
    size: Size,
    config: bool,
    other: u64,
)
    ensures
        ({
            let after = r.received(id, generation, size, config);
            &&& r.streams.contains_key(id) ==> after.streams.contains_key(id)
                && after.streams[id].generation >= r.streams[id].generation
            &&& other != id ==> (after.streams.contains_key(other) == r.streams.contains_key(other)
                && after.streams[other] == r.streams[other])
            &&& after.retired == r.retired
        }),
{
}

/// Closing one window retires its generation for good and leaves the others alone.
pub proof fn law_closed_generations_stay_retired(
    r: RouterNote,
    id: u64,
    late: u64,
    size: Size,
    config: bool,
    other: u64,
)
    requires
        r.streams.contains_key(id),
        late <= r.streams[id].generation,
    ensures
        ({
            let after = r.removed(id);
            &&& !after.streams.contains_key(id)
            &&& after.route(id, late, size, config) == Route::Nowhere
            &&& other != id && r.streams.contains_key(other) ==> after.streams.contains_key(other)
                && after.streams[other] == r.streams[other]
        }),
{
}

/// There are never more streams than the limit.
pub proof fn law_streams_stay_bounded(
    r: RouterNote,
    id: u64,
    generation: u64,
    size: Size,
    config: bool,
)
    requires
        r.streams.dom().finite(),
        r.streams.len() <= MAX_STREAMS,
    ensures
        r.received(id, generation, size, config).streams.len() <= MAX_STREAMS,
{
    let after = r.received(id, generation, size, config).streams;
    if r.streams.contains_key(id) {
        assert(after.dom() =~= r.streams.dom() || after.dom() =~= r.streams.dom().insert(id));
        assert(r.streams.dom().insert(id) =~= r.streams.dom());
    }
}

} // verus!
