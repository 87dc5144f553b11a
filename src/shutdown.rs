use vstd::prelude::*;

verus! {

/// Marks a shutdown flag as fired. The flag never goes back; the result tells
/// whether this call was the one that fired it, so that waiters are woken once.
pub fn fire(fired: &mut bool) -> (first: bool)
    ensures
        *final(fired),
        first == !*old(fired),
{
    let first = !*fired;
    *fired = true;
    first
}

/// One subscriber's record of the shutdown event: whether it has been handed
/// over yet.
pub struct Subscription {
    pub delivered: bool,
}

impl Subscription {
    /// A subscription that has observed nothing.
    pub fn new() -> (r: Subscription)
        ensures
            !r.delivered,
    {
        Subscription { delivered: false }
    }

    /// Looks at the shared flag; true exactly when the flag is fired and this
    /// subscriber has not been handed the event before.
    pub fn observe(&mut self, fired: bool) -> (r: bool)
        ensures
            r == (fired && !old(self).delivered),
            final(self).delivered == (old(self).delivered || fired),
    {
        let r = fired && !self.delivered;
        if fired {
            self.delivered = true;
        }
        r
    }
}

/// A one-shot broadcast of the shutdown event to a growing set of subscribers,
/// kept in one place: the model against which delivery is stated and proved.
/// A program whose subscribers run as separate tasks shares only the fired
/// flag (set through [`fire`]) and gives each task its own [`Subscription`],
/// whose `observe` is the per-subscriber half of `poll`.
pub struct Broadcast {
    fired: bool,
    delivered: Vec<bool>,
}

/// The mathematical value of a [`Broadcast`]: the flag, and for each
/// subscriber in order of subscription whether it has observed the event.
pub struct BroadcastView {
    pub fired: bool,
    pub delivered: Seq<bool>,
}

/// One operation on a broadcast, for reasoning about interleavings.
pub enum BroadcastOp {
    Subscribe,
    Fire,
    Poll(nat),
}

impl View for Broadcast {
    type V = BroadcastView;

    closed spec fn view(&self) -> BroadcastView {
        BroadcastView { fired: self.fired, delivered: self.delivered@ }
    }
}

pub open spec fn empty_broadcast() -> BroadcastView {
    BroadcastView { fired: false, delivered: Seq::empty() }
}

pub open spec fn subscribe_spec(s: BroadcastView) -> BroadcastView {
    BroadcastView { fired: s.fired, delivered: s.delivered.push(false) }
}

pub open spec fn fire_spec(s: BroadcastView) -> BroadcastView {
    BroadcastView { fired: true, delivered: s.delivered }
}

/// A poll of subscriber `id` hands the event over.
pub open spec fn poll_hits(s: BroadcastView, id: nat) -> bool {
    id < s.delivered.len() && s.fired && !s.delivered[id as int]
}

pub open spec fn poll_spec(s: BroadcastView, id: nat) -> BroadcastView {
    if poll_hits(s, id) {
        BroadcastView { fired: s.fired, delivered: s.delivered.update(id as int, true) }
    } else {
        s
    }
}

pub open spec fn apply(s: BroadcastView, op: BroadcastOp) -> BroadcastView {
    match op {
        BroadcastOp::Subscribe => subscribe_spec(s),
        BroadcastOp::Fire => fire_spec(s),
        BroadcastOp::Poll(id) => poll_spec(s, id),
    }
}

/// The broadcast after the operations `ops`, in order.
pub open spec fn run(s: BroadcastView, ops: Seq<BroadcastOp>) -> BroadcastView
    decreases ops.len(),
{
    if ops.len() == 0 {
        s
    } else {
        apply(run(s, ops.drop_last()), ops.last())
    }
}

/// How many polls in `ops` handed the event to subscriber `id`.
pub open spec fn observations(s: BroadcastView, ops: Seq<BroadcastOp>, id: nat) -> nat
    decreases ops.len(),
{
    if ops.len() == 0 {
        0
    } else {
        observations(s, ops.drop_last(), id) + if ops.last() == BroadcastOp::Poll(id) && poll_hits(
            run(s, ops.drop_last()),
            id,
        ) {
            1nat
        } else {
            0nat
        }
    }
}

/// A poll of each of the first `n` subscribers, in order.
pub open spec fn poll_every(n: nat) -> Seq<BroadcastOp>
    decreases n,
{
    if n == 0 {
        Seq::empty()
    } else {
        poll_every((n - 1) as nat).push(BroadcastOp::Poll((n - 1) as nat))
    }
}

impl Broadcast {
    /// Not fired, no subscribers.
    pub fn new() -> (r: Broadcast)
        ensures
            r@ == empty_broadcast(),
    {
        Broadcast { fired: false, delivered: Vec::new() }
    }

    pub fn is_fired(&self) -> (r: bool)
        ensures
            r == self@.fired,
    {
        self.fired
    }

    /// Adds a subscriber; its handle is its position.
    pub fn subscribe(&mut self) -> (id: usize)
        requires
            old(self)@.delivered.len() < usize::MAX,
        ensures
            id == old(self)@.delivered.len(),
            final(self)@ == subscribe_spec(old(self)@),
    {
        let id = self.delivered.len();
        self.delivered.push(false);
        id
    }

    /// Fires the event; a second call changes nothing.
    pub fn fire(&mut self) -> (first: bool)
        ensures
            final(self)@ == fire_spec(old(self)@),
            first == !old(self)@.fired,
    {
        fire(&mut self.fired)
    }

    /// Subscriber `id` looks for the event; true when it is handed over now.
    pub fn poll(&mut self, id: usize) -> (r: bool)
        ensures
            r == poll_hits(old(self)@, id as nat),
            final(self)@ == poll_spec(old(self)@, id as nat),
    {
        if id < self.delivered.len() && self.fired && !self.delivered[id] {
            self.delivered.set(id, true);
            true
        } else {
            false
        }
    }
}

/// Firing twice leaves the broadcast as firing once does.
pub proof fn lemma_fire_idempotent(s: BroadcastView)
    ensures
        fire_spec(fire_spec(s)) == fire_spec(s),
{
}

/// Once fired, a broadcast stays fired whatever follows.
pub proof fn lemma_fired_stays(s: BroadcastView, ops: Seq<BroadcastOp>)
    requires
        s.fired,
    ensures
        run(s, ops).fired,
    decreases ops.len(),
{
    if ops.len() > 0 {
        lemma_fired_stays(s, ops.drop_last());
    }
}

/// From a fresh broadcast, under any interleaving of subscriptions, firings
/// and polls, each subscriber has been handed the event exactly as many times
/// as its record says: once if delivered, else never. In particular never twice.
pub proof fn lemma_observed_at_most_once(ops: Seq<BroadcastOp>, id: nat)
    ensures
        observations(empty_broadcast(), ops, id) == if id < run(
            empty_broadcast(),
            ops,
        ).delivered.len() && run(empty_broadcast(), ops).delivered[id as int] {
            1nat
        } else {
            0nat
        },
        observations(empty_broadcast(), ops, id) <= 1,
    decreases ops.len(),
{
    if ops.len() > 0 {
        lemma_observed_at_most_once(ops.drop_last(), id);
        let t = run(empty_broadcast(), ops.drop_last());
        match ops.last() {
            BroadcastOp::Subscribe => {
                assert(subscribe_spec(t).delivered[t.delivered.len() as int] == false);
                if id < t.delivered.len() {
                    assert(subscribe_spec(t).delivered[id as int] == t.delivered[id as int]);
                }
            },
            BroadcastOp::Fire => {},
            BroadcastOp::Poll(p) => {
                if poll_hits(t, p) && p != id && id < t.delivered.len() {
                    assert(poll_spec(t, p).delivered[id as int] == t.delivered[id as int]);
                }
            },
        }
    }
}

proof fn lemma_poll_every(s: BroadcastView, k: nat)
    requires
        s.fired,
        k <= s.delivered.len(),
    ensures
        run(s, poll_every(k)).fired,
        run(s, poll_every(k)).delivered.len() == s.delivered.len(),
        forall|id: int| 0 <= id < k ==> #[trigger] run(s, poll_every(k)).delivered[id],
        forall|id: int|
            k <= id < s.delivered.len() ==> #[trigger] run(s, poll_every(k)).delivered[id]
                == s.delivered[id],
    decreases k,
{
    if k > 0 {
        lemma_poll_every(s, (k - 1) as nat);
        assert(poll_every(k).drop_last() =~= poll_every((k - 1) as nat));
    }
}

proof fn lemma_run_concat(s: BroadcastView, a: Seq<BroadcastOp>, b: Seq<BroadcastOp>)
    ensures
        run(s, a + b) == run(run(s, a), b),
    decreases b.len(),
{
    if b.len() == 0 {
        assert(a + b =~= a);
    } else {
        assert((a + b).drop_last() =~= a + b.drop_last());
        lemma_run_concat(s, a, b.drop_last());
    }
}

/// Whatever subscriptions, polls and firings came first, once the event has
/// been fired, one more poll of each subscriber leaves every one of them, those
/// that subscribed before the firing and those after, handed the event exactly
/// once.
pub proof fn lemma_broadcast_complete(ops: Seq<BroadcastOp>)
    requires
        run(empty_broadcast(), ops).fired,
    ensures
        forall|id: nat|
            id < run(empty_broadcast(), ops).delivered.len() ==> #[trigger] observations(
                empty_broadcast(),
                ops + poll_every(run(empty_broadcast(), ops).delivered.len()),
                id,
            ) == 1,
{
    let t = run(empty_broadcast(), ops);
    let n = t.delivered.len();
    lemma_poll_every(t, n);
    lemma_run_concat(empty_broadcast(), ops, poll_every(n));
    assert forall|id: nat| id < n implies #[trigger] observations(
        empty_broadcast(),
        ops + poll_every(n),
        id,
    ) == 1 by {
        lemma_observed_at_most_once(ops + poll_every(n), id);
        assert(run(t, poll_every(n)).delivered[id as int]);
    }
}

} // verus!
