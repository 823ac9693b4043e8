//! System-wide event bus: handlers subscribe to a kind of event, and
//! publishing an event reaches every handler of its kind, in the order they
//! subscribed.
//!
//! The bus keeps the handlers and decides which of them an event reaches;
//! calling them is the caller's.
use vstd::prelude::*;

verus! {

/// The handlers of `kind`, as positions into the subscriptions, in order.
pub open spec fn targets_of(kinds: Seq<u64>, kind: u64) -> Seq<usize>
    decreases kinds.len(),
{
    if kinds.len() == 0 {
        Seq::empty()
    } else {
        let prev = targets_of(kinds.drop_last(), kind);
        if kinds.last() == kind {
            prev.push((kinds.len() - 1) as usize)
        } else {
            prev
        }
    }
}

/// An event of `kind` reaches exactly the handlers subscribed to `kind`:
/// each once, in the order they subscribed, and no other.
pub proof fn lemma_targets_of(kinds: Seq<u64>, kind: u64)
    requires
        kinds.len() <= usize::MAX,
    ensures
        forall|i: int| 0 <= i < targets_of(kinds, kind).len() ==>
            #[trigger] targets_of(kinds, kind)[i] < kinds.len() && kinds[targets_of(kinds, kind)[i] as int] == kind,
        forall|i: int, j: int| 0 <= i < j < targets_of(kinds, kind).len() ==>
            targets_of(kinds, kind)[i] < targets_of(kinds, kind)[j],
        forall|h: int| 0 <= h < kinds.len() && kinds[h] == kind ==> targets_of(kinds, kind).contains(h as usize),
    decreases kinds.len(),
{
    if kinds.len() > 0 {
        let prev = kinds.drop_last();
        lemma_targets_of(prev, kind);
        let t = targets_of(kinds, kind);
        let tp = targets_of(prev, kind);
        let last = (kinds.len() - 1) as usize;
        assert(last as int == kinds.len() - 1);
        assert forall|i: int| 0 <= i < t.len() implies #[trigger] t[i] < kinds.len() && kinds[t[i] as int] == kind by {
            if i < tp.len() {
                assert(t[i] == tp[i]);
                assert(prev[tp[i] as int] == kind);
            }
        }
        assert forall|i: int, j: int| 0 <= i < j < t.len() implies t[i] < t[j] by {
            if j < tp.len() {
                assert(t[i] == tp[i] && t[j] == tp[j]);
            } else {
                assert(t[i] == tp[i]);
                assert(tp[i] < prev.len());
            }
        }
        assert forall|h: int| 0 <= h < kinds.len() && kinds[h] == kind implies t.contains(h as usize) by {
            if h < kinds.len() - 1 {
                assert(prev[h] == kind);
                let i = choose|i: int| 0 <= i < tp.len() && tp[i] == h as usize;
                assert(t[i] == tp[i]);
            } else {
                assert(t[t.len() - 1] == h as usize);
            }
        }
    }
}

/// Subscribing `kind` adds one target, the new handler's position, at the
/// end of what an event of `kind` reaches, and changes nothing for any
/// other kind.
pub proof fn lemma_subscribe_targets(kinds: Seq<u64>, kind: u64, other: u64)
    ensures
        targets_of(kinds.push(kind), kind) == targets_of(kinds, kind).push(kinds.len() as usize),
        other != kind ==> targets_of(kinds.push(other), kind) == targets_of(kinds, kind),
{
    assert(kinds.push(kind).drop_last() =~= kinds);
    assert(kinds.push(other).drop_last() =~= kinds);
}

/// Handlers of type `H`, each subscribed to one kind of event.
pub struct EventBus<H> {
    handlers: Vec<(u64, H)>,
    initialized: bool,
}

impl<H> EventBus<H> {
    /// The kind each handler subscribed to, in subscription order.
    pub closed spec fn kinds(&self) -> Seq<u64> {
        self.handlers@.map_values(|e: (u64, H)| e.0)
    }

    /// The handlers, in subscription order.
    pub closed spec fn handlers(&self) -> Seq<H> {
        self.handlers@.map_values(|e: (u64, H)| e.1)
    }

    pub closed spec fn initialized_spec(&self) -> bool {
        self.initialized
    }

    /// A bus as `new` and `subscribe` leave it: initialized, with no more
    /// handlers than positions can name.
    pub closed spec fn wf(&self) -> bool {
        &&& self.initialized
        &&& self.handlers@.len() <= usize::MAX
    }

    /// Every handler has its kind; a well-formed bus is initialized and
    /// names each handler by a position.
    pub proof fn lemma_shape(&self)
        ensures
            self.kinds().len() == self.handlers().len(),
            self.wf() ==> self.initialized_spec() && self.kinds().len() <= usize::MAX,
    {
    }

    /// An initialized bus without handlers.
    pub fn new() -> (b: Self)
        ensures
            b.wf(),
            b.kinds().len() == 0,
            b.handlers().len() == 0,
            b.initialized_spec(),
    {
        EventBus { handlers: Vec::new(), initialized: true }
    }

    /// Subscribes `handler` to events of `kind`; the handler is not called.
    pub fn subscribe(&mut self, kind: u64, handler: H)
        ensures
            old(self).wf() ==> final(self).wf(),
            final(self).kinds() == old(self).kinds().push(kind),
            final(self).handlers() == old(self).handlers().push(handler),
            final(self).initialized_spec() == old(self).initialized_spec(),
    {
        self.handlers.push((kind, handler));
        // The vector's length is a `usize`, so positions still name every
        // handler.
        let _count = self.handlers.len();
        proof {
            assert(self.kinds() =~= old(self).kinds().push(kind));
            assert(self.handlers() =~= old(self).handlers().push(handler));
        }
    }

    /// The handlers an event of `kind` reaches, as positions in
    /// subscription order: on a well-formed bus, each handler of that kind
    /// once, in the order they subscribed, and no other.
    pub fn publish(&self, kind: u64) -> (targets: Vec<usize>)
        ensures
            targets@ == targets_of(self.kinds(), kind),
            self.wf() ==> forall|i: int| 0 <= i < targets@.len() ==>
                #[trigger] targets@[i] < self.handlers().len() && self.kinds()[targets@[i] as int] == kind,
            self.wf() ==> forall|i: int, j: int| 0 <= i < j < targets@.len() ==> targets@[i] < targets@[j],
            self.wf() ==> forall|h: int| 0 <= h < self.kinds().len() && self.kinds()[h] == kind ==> targets@.contains(h as usize),
    {
        proof {
            if self.wf() {
                lemma_targets_of(self.kinds(), kind);
            }
        }
        let mut targets: Vec<usize> = Vec::new();
        let mut i: usize = 0;
        while i < self.handlers.len()
            invariant
                i <= self.handlers@.len(),
                targets@ == targets_of(self.kinds().take(i as int), kind),
            decreases self.handlers@.len() - i,
        {
            proof {
                assert(self.kinds().take(i + 1).drop_last() == self.kinds().take(i as int));
            }
            if self.handlers[i].0 == kind {
                targets.push(i);
            }
            i = i + 1;
        }
        proof {
            assert(self.kinds().take(self.handlers@.len() as int) == self.kinds());
        }
        targets
    }

    /// The handler at position `i`.
    pub fn handler(&self, i: usize) -> (h: &H)
        requires
            i < self.handlers().len(),
        ensures
            *h == self.handlers()[i as int],
    {
        &self.handlers[i].1
    }

    /// The number of handlers.
    pub fn len(&self) -> (n: usize)
        ensures
            n == self.handlers().len(),
    {
        self.handlers.len()
    }

    /// Whether the bus is initialized; a well-formed bus always is.
    pub fn is_initialized(&self) -> (b: bool)
        ensures
            b == self.initialized_spec(),
            self.wf() ==> b,
    {
        self.initialized
    }
}

/// A player joined the game.
pub struct PlayerConnectedEvent {
    pub player_id: String,
}

/// The world was generated.
#[derive(Clone, Copy, Debug)]
pub struct WorldGeneratedEvent {
    pub seed: u64,
    pub world_size: (u32, u32),
}

} // verus!
