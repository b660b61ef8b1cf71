//! Engine hot-swap routing.
//!
//! Each engine instance is a generation with its own bounded queue. The
//! producer always sends to the newest generation; a swap opens a new
//! generation, after which the old one only drains what it already had.

use vstd::prelude::*;
use crate::rechunk::concat_all;

verus! {

/// The router as the contracts see it.
pub struct RouterView<T> {
    /// The items waiting in each generation's queue.
    pub queues: Seq<Seq<T>>,
    /// The items each generation has taken so far.
    pub taken: Seq<Seq<T>>,
    /// Every item accepted from the producer, in order.
    pub sent: Seq<T>,
    /// How many items a queue holds at most.
    pub capacity: nat,
}

/// The generation that receives new items: the newest.
pub open spec fn active_of<T>(v: RouterView<T>) -> int {
    v.queues.len() - 1
}

/// Everything generation `g` was ever given: what it took, then what waits.
pub open spec fn received<T>(v: RouterView<T>, g: int) -> Seq<T> {
    v.taken[g] + v.queues[g]
}

/// What each generation was given, by generation.
pub open spec fn all_received<T>(v: RouterView<T>) -> Seq<Seq<T>> {
    Seq::new(v.queues.len(), |g: int| received(v, g))
}

/// The routing invariant: there is a generation, and the items given to the
/// generations, taken in generation order, are exactly the items sent.
pub open spec fn router_ok<T>(v: RouterView<T>) -> bool {
    &&& v.queues.len() >= 1
    &&& v.taken.len() == v.queues.len()
    &&& concat_all(all_received(v)) == v.sent
}

/// The router after the active generation accepts `x`.
pub open spec fn after_send<T>(v: RouterView<T>, x: T) -> RouterView<T> {
    RouterView {
        queues: v.queues.update(active_of(v), v.queues[active_of(v)].push(x)),
        sent: v.sent.push(x),
        ..v
    }
}

/// The router after a swap opens a new generation.
pub open spec fn after_swap<T>(v: RouterView<T>) -> RouterView<T> {
    RouterView { queues: v.queues.push(Seq::empty()), taken: v.taken.push(Seq::empty()), ..v }
}

/// The router after generation `g` takes its oldest waiting item.
pub open spec fn after_take<T>(v: RouterView<T>, g: int) -> RouterView<T> {
    RouterView {
        queues: v.queues.update(g, v.queues[g].drop_first()),
        taken: v.taken.update(g, v.taken[g].push(v.queues[g][0])),
        ..v
    }
}

proof fn lemma_concat_all_update_last<T>(s: Seq<Seq<T>>, y: Seq<T>)
    requires
        s.len() > 0,
    ensures
        concat_all(s.update(s.len() - 1, y)) == concat_all(s.drop_last()) + y,
{
    assert(s.update(s.len() - 1, y).drop_last() =~= s.drop_last());
}

/// Sending keeps the routing invariant and gives the item to the active
/// generation alone.
pub proof fn lemma_send_routes_to_active<T>(v: RouterView<T>, x: T)
    requires
        router_ok(v),
    ensures
        router_ok(after_send(v, x)),
        received(after_send(v, x), active_of(v)) == received(v, active_of(v)).push(x),
        forall|g: int|
            0 <= g < active_of(v) ==> #[trigger] received(after_send(v, x), g) == received(v, g),
{
    let w = after_send(v, x);
    let a = active_of(v);
    let rv = all_received(v);
    let rw = all_received(w);
    assert(rw =~= rv.update(a, received(v, a).push(x)));
    lemma_concat_all_update_last(rv, received(v, a).push(x));
    assert(concat_all(rv) == concat_all(rv.drop_last()) + rv.last());
    assert(concat_all(rv.drop_last()) + received(v, a).push(x) =~= (concat_all(rv.drop_last())
        + received(v, a)).push(x));
}

/// A swap keeps the routing invariant, leaves every existing generation as
/// it was and opens an empty one.
pub proof fn lemma_swap_keeps_routing<T>(v: RouterView<T>)
    requires
        router_ok(v),
    ensures
        router_ok(after_swap(v)),
        active_of(after_swap(v)) == v.queues.len(),
        received(after_swap(v), active_of(after_swap(v))) == Seq::<T>::empty(),
        forall|g: int|
            0 <= g < v.queues.len() ==> #[trigger] received(after_swap(v), g) == received(v, g),
{
    let w = after_swap(v);
    assert(all_received(w) =~= all_received(v).push(Seq::empty()));
    assert(all_received(w).drop_last() =~= all_received(v));
    assert(concat_all(all_received(v)) + Seq::<T>::empty() =~= concat_all(all_received(v)));
    assert(received(w, v.queues.len() as int) =~= Seq::<T>::empty());
}

/// Taking an item moves it from a generation's queue to what it has taken:
/// nothing is given to any generation, and nothing is lost.
pub proof fn lemma_take_keeps_routing<T>(v: RouterView<T>, g: int)
    requires
        router_ok(v),
        0 <= g < v.queues.len(),
        v.queues[g].len() > 0,
    ensures
        router_ok(after_take(v, g)),
        forall|h: int| 0 <= h < v.queues.len() ==> #[trigger] received(after_take(v, g), h) == received(v, h),
{
    let w = after_take(v, g);
    assert(received(w, g) =~= received(v, g));
    assert forall|h: int| 0 <= h < v.queues.len() implies #[trigger] received(w, h) == received(v, h) by {
        if h == g {
            assert(received(w, g) =~= received(v, g));
        }
    }
    assert(all_received(w) =~= all_received(v));
}

/// Hot-swap: once a swap has happened, an item sent reaches the new
/// generation only; every older generation keeps exactly what it was given
/// before, and all items stay accounted for, in order, none lost and none
/// given twice.
pub proof fn lemma_swap_then_send<T>(v: RouterView<T>, x: T)
    requires
        router_ok(v),
    ensures
        router_ok(after_send(after_swap(v), x)),
        forall|g: int|
            0 <= g < v.queues.len() ==> #[trigger] received(after_send(after_swap(v), x), g)
                == received(v, g),
        received(after_send(after_swap(v), x), v.queues.len() as int) == seq![x],
        after_send(after_swap(v), x).sent == v.sent.push(x),
        concat_all(all_received(after_send(after_swap(v), x))) == concat_all(all_received(v)).push(
            x,
        ),
{
    lemma_swap_keeps_routing(v);
    let w = after_swap(v);
    lemma_send_routes_to_active(w, x);
    assert(Seq::<T>::empty().push(x) =~= seq![x]);
    assert forall|g: int| 0 <= g < v.queues.len() implies #[trigger] received(after_send(w, x), g)
        == received(v, g) by {
        assert(received(w, g) == received(v, g));
    }
}

/// Routes items from one producer to the newest of a table of engine
/// generations, each with its own bounded queue.
pub struct SwapRouter<T> {
    queues: Vec<Vec<T>>,
    capacity: usize,
    taken: Ghost<Seq<Seq<T>>>,
    sent: Ghost<Seq<T>>,
}

impl<T> View for SwapRouter<T> {
    type V = RouterView<T>;

    closed spec fn view(&self) -> RouterView<T> {
        RouterView {
            queues: self.queues@.map_values(|q: Vec<T>| q@),
            taken: self.taken@,
            sent: self.sent@,
            capacity: self.capacity as nat,
        }
    }
}

impl<T> SwapRouter<T> {
    /// Well-formed: the routing invariant holds.
    pub open spec fn wf(&self) -> bool {
        router_ok(self@)
    }

    /// A router with one generation, whose queues hold at most `capacity` items.
    pub fn new(capacity: usize) -> (r: Self)
        ensures
            r.wf(),
            r@.queues == seq![Seq::<T>::empty()],
            r@.taken == seq![Seq::<T>::empty()],
            r@.sent == Seq::<T>::empty(),
            r@.capacity == capacity,
    {
        let mut queues: Vec<Vec<T>> = Vec::new();
        queues.push(Vec::new());
        let ghost first: Seq<Seq<T>> = seq![Seq::<T>::empty()];
        let r = SwapRouter { queues, capacity, taken: Ghost(first), sent: Ghost(Seq::<T>::empty()) };
        proof {
            assert(r@.queues =~= seq![Seq::<T>::empty()]);
            assert(received(r@, 0) =~= Seq::<T>::empty());
            assert(all_received(r@) =~= seq![Seq::<T>::empty()]);
            assert(concat_all(all_received(r@)) == concat_all(all_received(r@).drop_last())
                + all_received(r@).last());
            assert(all_received(r@).drop_last() =~= Seq::<Seq<T>>::empty());
            assert(Seq::<T>::empty() + Seq::<T>::empty() =~= Seq::<T>::empty());
        }
        r
    }

    /// The generation that receives new items.
    pub fn active_generation(&self) -> (r: usize)
        requires
            self.wf(),
        ensures
            r == active_of(self@),
    {
        self.queues.len() - 1
    }

    /// How many items wait in generation `g`'s queue.
    pub fn waiting(&self, g: usize) -> (r: usize)
        requires
            g < self@.queues.len(),
        ensures
            r == self@.queues[g as int].len(),
    {
        self.queues[g].len()
    }

    /// Offers `item` to the active generation. A full queue hands the item
    /// back, so that the producer can retry it later.
    pub fn send(&mut self, item: T) -> (r: Result<(), T>)
        requires
            old(self).wf(),
        ensures
            final(self).wf(),
            old(self)@.queues[active_of(old(self)@)].len() >= old(self)@.capacity ==> r == Err::<(), T>(item)
                && final(self)@ == old(self)@,
            old(self)@.queues[active_of(old(self)@)].len() < old(self)@.capacity ==> r == Ok::<(), T>(())
                && final(self)@ == after_send(old(self)@, item),
    {
        let ghost v = self@;
        let mut q = self.queues.pop().unwrap();
        assert(q@ == v.queues[active_of(v)]);
        if q.len() >= self.capacity {
            self.queues.push(q);
            assert(self@.queues =~= v.queues);
            return Err(item);
        }
        q.push(item);
        self.queues.push(q);
        self.sent = Ghost(self.sent@.push(item));
        proof {
            assert(self@.queues =~= v.queues.update(active_of(v), v.queues[active_of(v)].push(item)));
            lemma_send_routes_to_active(v, item);
        }
        Ok(())
    }

    /// Opens a new generation, which receives every item sent from now on.
    /// Returns its index.
    pub fn swap(&mut self) -> (g: usize)
        requires
            old(self).wf(),
        ensures
            final(self).wf(),
            final(self)@ == after_swap(old(self)@),
            g == active_of(final(self)@),
            g == old(self)@.queues.len(),
    {
        let ghost v = self@;
        self.queues.push(Vec::new());
        self.taken = Ghost(self.taken@.push(Seq::empty()));
        proof {
            assert(self@.queues =~= v.queues.push(Seq::empty()));
            lemma_swap_keeps_routing(v);
        }
        self.queues.len() - 1
    }

    /// Takes the oldest item waiting for generation `g`, if any.
    pub fn take(&mut self, g: usize) -> (r: Option<T>)
        requires
            old(self).wf(),
            g < old(self)@.queues.len(),
        ensures
            final(self).wf(),
            old(self)@.queues[g as int].len() > 0 ==> r == Some(old(self)@.queues[g as int][0])
                && final(self)@ == after_take(old(self)@, g as int),
            old(self)@.queues[g as int].len() == 0 ==> r is None && final(self)@ == old(self)@,
    {
        let ghost v = self@;
        if self.queues[g].len() == 0 {
            return None;
        }
        let mut q = self.queues.remove(g);
        assert(q@ == v.queues[g as int]);
        let item = q.remove(0);
        self.queues.insert(g, q);
        self.taken = Ghost(self.taken@.update(g as int, self.taken@[g as int].push(item)));
        proof {
            assert(self@.queues =~= v.queues.update(g as int, v.queues[g as int].drop_first()));
            lemma_take_keeps_routing(v, g as int);
        }
        Some(item)
    }

    /// Whether generation `g` is done: it is no longer active and its queue
    /// is empty, so its engine can stop.
    pub fn is_retired(&self, g: usize) -> (r: bool)
        requires
            self.wf(),
            g < self@.queues.len(),
        ensures
            r == (g != active_of(self@) && self@.queues[g as int].len() == 0),
    {
        g != self.queues.len() - 1 && self.queues[g].len() == 0
    }
}

} // verus!
