//! Fan-out of pedal states to every connection. Each connection owns a
//! bounded mailbox; publishing never waits: a closed or full mailbox is
//! passed over.
use crate::pedal::PedalState;
use vstd::prelude::*;

verus! {

/// Mailboxes of the registered connections, indexed by connection.
pub struct Broadcaster {
    capacity: usize,
    open: Vec<bool>,
    pending: Vec<Vec<PedalState>>,
}

/// Whether a mailbox takes one more state.
pub open spec fn accepts(open: bool, pending: Seq<PedalState>, capacity: nat) -> bool {
    open && pending.len() < capacity
}

impl Broadcaster {
    /// How many states a mailbox holds at most.
    pub closed spec fn capacity(&self) -> nat {
        self.capacity as nat
    }

    /// Whether each connection is still open.
    pub closed spec fn opens(&self) -> Seq<bool> {
        self.open@
    }

    /// The states waiting in each mailbox, oldest first.
    pub closed spec fn queues(&self) -> Seq<Seq<PedalState>> {
        self.pending@.map_values(|v: Vec<PedalState>| v@)
    }

    pub closed spec fn wf(&self) -> bool {
        self.open.len() == self.pending.len()
    }

    /// Whether connection `i` would take a state now.
    pub open spec fn accepting(&self, i: int) -> bool {
        accepts(self.opens()[i], self.queues()[i], self.capacity())
    }

    /// A broadcaster with no connection, whose mailboxes hold up to
    /// `capacity` states.
    pub fn new(capacity: usize) -> (r: Broadcaster)
        ensures
            r.wf(),
            r.capacity() == capacity,
            r.opens().len() == 0,
            r.queues().len() == 0,
    {
        let r = Broadcaster { capacity, open: Vec::new(), pending: Vec::new() };
        assert(r.queues() =~= Seq::<Seq<PedalState>>::empty());
        r
    }

    /// Number of connections ever registered.
    pub fn connection_count(&self) -> (r: usize)
        requires
            self.wf(),
        ensures
            r == self.opens().len(),
    {
        self.open.len()
    }

    /// Whether connection `id` is registered and open.
    pub fn is_open(&self, id: usize) -> (r: bool)
        requires
            self.wf(),
        ensures
            r == (id < self.opens().len() && self.opens()[id as int]),
    {
        id < self.open.len() && self.open[id]
    }

    /// Adds a mailbox for a new connection, open and empty, and gives its
    /// index.
    pub fn register(&mut self) -> (id: usize)
        requires
            old(self).wf(),
        ensures
            final(self).wf(),
            id == old(self).opens().len(),
            final(self).capacity() == old(self).capacity(),
            final(self).opens() == old(self).opens().push(true),
            final(self).queues() == old(self).queues().push(Seq::empty()),
    {
        let id = self.open.len();
        let ghost q = self.queues();
        self.open.push(true);
        self.pending.push(Vec::new());
        assert(self.queues() =~= q.push(Seq::empty()));
        id
    }

    /// Appends `state` once to every mailbox that is open and not full;
    /// the others stay as they are.
    pub fn publish(&mut self, state: PedalState)
        requires
            old(self).wf(),
        ensures
            final(self).wf(),
            final(self).capacity() == old(self).capacity(),
            final(self).opens() == old(self).opens(),
            final(self).queues().len() == old(self).queues().len(),
            forall|i: int|
                0 <= i < old(self).queues().len() ==> #[trigger] final(self).queues()[i] == if old(
                    self,
                ).accepting(i) {
                    old(self).queues()[i].push(state)
                } else {
                    old(self).queues()[i]
                },
    {
        let ghost start = *self;
        let n = self.pending.len();
        let mut i: usize = 0;
        while i < n
            invariant
                self.wf(),
                n == self.pending.len(),
                i <= n,
                self.capacity == start.capacity,
                self.open@ == start.open@,
                self.queues().len() == start.queues().len(),
                forall|j: int|
                    0 <= j < i ==> #[trigger] self.queues()[j] == if start.accepting(j) {
                        start.queues()[j].push(state)
                    } else {
                        start.queues()[j]
                    },
                forall|j: int| i <= j < n ==> #[trigger] self.queues()[j] == start.queues()[j],
            decreases n - i,
        {
            if self.open[i] && self.pending[i].len() < self.capacity {
                let ghost before = self.queues();
                self.pending[i].push(state);
                assert(self.queues() =~= before.update(i as int, before[i as int].push(state)));
            }
            i = i + 1;
        }
    }

    /// Hands out and empties the mailbox of connection `id`; an unknown
    /// `id` gives nothing.
    pub fn take(&mut self, id: usize) -> (r: Vec<PedalState>)
        requires
            old(self).wf(),
        ensures
            final(self).wf(),
            final(self).capacity() == old(self).capacity(),
            final(self).opens() == old(self).opens(),
            id < old(self).queues().len() ==> r@ == old(self).queues()[id as int]
                && final(self).queues() == old(self).queues().update(id as int, Seq::empty()),
            id >= old(self).queues().len() ==> r@.len() == 0 && final(self).queues() == old(
                self,
            ).queues(),
    {
        if id < self.pending.len() {
            let ghost before = self.queues();
            let mut out: Vec<PedalState> = Vec::new();
            std::mem::swap(&mut out, &mut self.pending[id]);
            assert(self.queues() =~= before.update(id as int, Seq::empty()));
            out
        } else {
            Vec::new()
        }
    }

    /// Closes connection `id`: its mailbox is emptied and takes nothing
    /// more. An unknown `id` changes nothing.
    pub fn close(&mut self, id: usize)
        requires
            old(self).wf(),
        ensures
            final(self).wf(),
            final(self).capacity() == old(self).capacity(),
            id < old(self).opens().len() ==> final(self).opens() == old(self).opens().update(
                id as int,
                false,
            ) && final(self).queues() == old(self).queues().update(id as int, Seq::empty()),
            id >= old(self).opens().len() ==> final(self).opens() == old(self).opens()
                && final(self).queues() == old(self).queues(),
    {
        if id < self.open.len() {
            let ghost before = self.queues();
            self.open.set(id, false);
            self.pending.set(id, Vec::new());
            assert(self.queues() =~= before.update(id as int, Seq::empty()));
        }
    }
}

/// Relays a pedal state once the control program has applied it: only an
/// applied state is published, so no client sees a state that the device
/// does not hold.
pub fn relay_pedal(hub: &mut Broadcaster, state: PedalState, applied: bool)
    requires
        old(hub).wf(),
    ensures
        final(hub).wf(),
        final(hub).capacity() == old(hub).capacity(),
        final(hub).opens() == old(hub).opens(),
        final(hub).queues().len() == old(hub).queues().len(),
        forall|i: int|
            0 <= i < old(hub).queues().len() ==> #[trigger] final(hub).queues()[i] == if applied
                && old(hub).accepting(i) {
                old(hub).queues()[i].push(state)
            } else {
                old(hub).queues()[i]
            },
{
    if applied {
        hub.publish(state);
    }
}

} // verus!
