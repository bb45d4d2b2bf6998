//! A queue of observations that holds no more than its capacity.
use crate::observation;
use crate::observation::Observation;
use std::collections::VecDeque;
use vstd::prelude::*;

verus! {

/// A first-in, first-out queue that refuses what does not fit.
#[derive(Debug)]
pub struct BoundedObservationQueue {
    capacity: usize,
    items: VecDeque<Observation>,
}

/// The value of a bounded queue: the observations in it, the oldest first, and how many fit.
#[verifier::ext_equal]
pub struct BoundedView {
    pub items: Seq<Observation>,
    pub limit: usize,
}

impl View for BoundedObservationQueue {
    type V = BoundedView;

    closed spec fn view(&self) -> BoundedView {
        BoundedView { items: self.items@, limit: self.capacity }
    }
}

impl Clone for BoundedObservationQueue {
    /// A queue of the same capacity with copies of the observations.
    fn clone(&self) -> (r: Self)
        ensures
            r@.limit == self@.limit,
            observation::observation_views(r@.items) == observation::observation_views(self@.items),
    {
        proof {
            use_type_invariant(self);
        }
        let items: VecDeque<Observation> = self.items.clone();
        assert forall|i: int| 0 <= i < items@.len() implies (#[trigger] items@[i])@
            == self.items@[i]@ by {
            assert(cloned::<Observation>(self.items@[i], items@[i]));
        }
        assert(observation::observation_views(items@) =~= observation::observation_views(
            self.items@,
        ));
        BoundedObservationQueue { capacity: self.capacity, items }
    }
}

impl BoundedObservationQueue {
    #[verifier::type_invariant]
    spec fn well_formed(&self) -> bool {
        0 < self.capacity && self.items@.len() <= self.capacity
    }

    /// An empty queue for `capacity` observations.
    pub fn new(capacity: usize) -> (r: Self)
        requires
            capacity > 0,
        ensures
            r@ == (BoundedView { items: Seq::empty(), limit: capacity }),
    {
        BoundedObservationQueue { capacity, items: VecDeque::new() }
    }

    /// Puts an observation at the end, or gives it back where the queue is full.
    pub fn try_push(&mut self, observation: Observation) -> (r: Result<(), Observation>)
        ensures
            match r {
                Ok(_) => old(self)@.items.len() < old(self)@.limit,
                Err(refused) => old(self)@.items.len() == old(self)@.limit && refused
                    == observation,
            },
            final(self)@ == (BoundedView {
                items: offered(old(self)@.items, old(self)@.limit, observation),
                limit: old(self)@.limit,
            }),
    {
        proof {
            use_type_invariant(&*self);
        }
        if self.items.len() >= self.capacity {
            return Err(observation);
        }
        let mut items: VecDeque<Observation> = VecDeque::new();
        std::mem::swap(&mut self.items, &mut items);
        items.push_back(observation);
        self.items = items;
        Ok(())
    }

    /// Takes the oldest observation, where there is one.
    pub fn pop(&mut self) -> (r: Option<Observation>)
        ensures
            match r {
                Some(observation) => old(self)@.items.len() > 0 && observation
                    == old(self)@.items.first(),
                None => old(self)@.items.len() == 0,
            },
            final(self)@ == (BoundedView {
                items: left(old(self)@.items),
                limit: old(self)@.limit,
            }),
    {
        proof {
            use_type_invariant(&*self);
        }
        let mut items: VecDeque<Observation> = VecDeque::new();
        std::mem::swap(&mut self.items, &mut items);
        let r: Option<Observation> = items.pop_front();
        assert(r is Some ==> items@ =~= old(self)@.items.drop_first());
        self.items = items;
        r
    }

    /// The number of observations in the queue.
    pub fn len(&self) -> (r: usize)
        ensures
            r == self@.items.len(),
            r <= self@.limit,
    {
        proof {
            use_type_invariant(self);
        }
        self.items.len()
    }

    /// Whether the queue holds nothing.
    pub fn is_empty(&self) -> (r: bool)
        ensures
            r == (self@.items.len() == 0),
    {
        self.items.len() == 0
    }

    /// The number of observations that fit.
    pub fn capacity(&self) -> (r: usize)
        ensures
            r == self@.limit,
            r > 0,
    {
        proof {
            use_type_invariant(self);
        }
        self.capacity
    }
}

/// What is done to a queue: an observation is offered, or one is taken.
pub enum QueueStep {
    Offer(Observation),
    Take,
}

/// The queue after an observation was offered.
pub open spec fn offered(queue: Seq<Observation>, limit: usize, observation: Observation) -> Seq<
    Observation,
> {
    if queue.len() < limit {
        queue.push(observation)
    } else {
        queue
    }
}

/// The queue after one observation was taken, where there was one.
pub open spec fn left(queue: Seq<Observation>) -> Seq<Observation> {
    if queue.len() > 0 {
        queue.drop_first()
    } else {
        queue
    }
}

/// The queue after some steps.
pub open spec fn after(queue: Seq<Observation>, limit: usize, steps: Seq<QueueStep>) -> Seq<
    Observation,
>
    decreases steps.len(),
{
    if steps.len() == 0 {
        queue
    } else {
        let before = after(queue, limit, steps.drop_last());
        match steps.last() {
            QueueStep::Offer(observation) => offered(before, limit, observation),
            QueueStep::Take => left(before),
        }
    }
}

/// The observations that some steps put in, in order.
pub open spec fn put_in(queue: Seq<Observation>, limit: usize, steps: Seq<QueueStep>) -> Seq<
    Observation,
>
    decreases steps.len(),
{
    if steps.len() == 0 {
        Seq::empty()
    } else {
        let earlier = put_in(queue, limit, steps.drop_last());
        match steps.last() {
            QueueStep::Offer(observation) if after(queue, limit, steps.drop_last()).len()
                < limit => earlier.push(observation),
            _ => earlier,
        }
    }
}

/// The observations that some steps took out, in order.
pub open spec fn taken_out(queue: Seq<Observation>, limit: usize, steps: Seq<QueueStep>) -> Seq<
    Observation,
>
    decreases steps.len(),
{
    if steps.len() == 0 {
        Seq::empty()
    } else {
        let earlier = taken_out(queue, limit, steps.drop_last());
        let before = after(queue, limit, steps.drop_last());
        match steps.last() {
            QueueStep::Take if before.len() > 0 => earlier.push(before.first()),
            _ => earlier,
        }
    }
}

/// Whatever is done to a queue, what was taken out followed by what is left is what was there
/// followed by what was put in: nothing is lost, and the order is kept. The queue never holds more
/// than its limit.
pub proof fn order_is_kept(queue: Seq<Observation>, limit: usize, steps: Seq<QueueStep>)
    requires
        queue.len() <= limit,
    ensures
        taken_out(queue, limit, steps) + after(queue, limit, steps) == queue + put_in(
            queue,
            limit,
            steps,
        ),
        after(queue, limit, steps).len() <= limit,
    decreases steps.len(),
{
    if steps.len() == 0 {
        assert(taken_out(queue, limit, steps) + after(queue, limit, steps) =~= queue);
        assert(queue + put_in(queue, limit, steps) =~= queue);
    } else {
        let front = steps.drop_last();
        order_is_kept(queue, limit, front);
        let before = after(queue, limit, front);
        let now = after(queue, limit, steps);
        match steps.last() {
            QueueStep::Offer(observation) => {
                if before.len() < limit {
                    assert(taken_out(queue, limit, front) + now =~= (taken_out(queue, limit, front)
                        + before).push(observation));
                    assert(queue + put_in(queue, limit, steps) =~= (queue + put_in(
                        queue,
                        limit,
                        front,
                    )).push(observation));
                }
            },
            QueueStep::Take => {
                if before.len() > 0 {
                    assert(taken_out(queue, limit, steps) + now =~= taken_out(queue, limit, front)
                        + before);
                }
            },
        }
    }
}

/// A queue that is not full takes an observation in behind the others; a full one gives it back and
/// stays as it is. The capacity never changes.
pub proof fn a_full_queue_gives_back(
    queue: &mut BoundedObservationQueue,
    observation: Observation,
    r: Result<(), Observation>,
)
    requires
        call_ensures(BoundedObservationQueue::try_push, (queue, observation), r),
        old(queue)@.items.len() <= old(queue)@.limit,
    ensures
        final(queue)@.limit == old(queue)@.limit,
        old(queue)@.items.len() < old(queue)@.limit ==> r is Ok && final(queue)@.items
            == old(queue)@.items + seq![observation],
        old(queue)@.items.len() == old(queue)@.limit ==> r == Err::<(), Observation>(observation)
            && final(queue)@.items == old(queue)@.items,
{
    assert(old(queue)@.items.push(observation) =~= old(queue)@.items + seq![observation]);
}

/// The oldest observation leaves first; an empty queue has none, and the others stay in order.
pub proof fn the_oldest_leaves_first(
    queue: &mut BoundedObservationQueue,
    r: Option<Observation>,
)
    requires
        call_ensures(BoundedObservationQueue::pop, (queue,), r),
    ensures
        final(queue)@.limit == old(queue)@.limit,
        old(queue)@.items.len() == 0 ==> r is None && final(queue)@.items.len() == 0,
        old(queue)@.items.len() > 0 ==> r is Some && seq![r->0] + final(queue)@.items
            == old(queue)@.items,
{
    if old(queue)@.items.len() > 0 {
        assert(seq![r->0] + final(queue)@.items =~= old(queue)@.items);
    }
}

/// A new queue is empty and has the capacity that it is made with; its length is the number of its
/// observations.
pub proof fn a_new_queue_is_empty(
    capacity: usize,
    fresh: BoundedObservationQueue,
    queue: &BoundedObservationQueue,
    length: usize,
    is_empty: bool,
    limit: usize,
    copy: BoundedObservationQueue,
)
    requires
        call_ensures(BoundedObservationQueue::new, (capacity,), fresh),
        capacity > 0,
        call_ensures(BoundedObservationQueue::len, (queue,), length),
        call_ensures(BoundedObservationQueue::is_empty, (queue,), is_empty),
        call_ensures(BoundedObservationQueue::capacity, (queue,), limit),
        call_ensures(BoundedObservationQueue::clone, (queue,), copy),
    ensures
        fresh@.items.len() == 0,
        fresh@.limit == capacity,
        length == queue@.items.len(),
        is_empty <==> queue@.items.len() == 0,
        limit == queue@.limit,
        copy@.limit == queue@.limit,
        copy@.items.len() == queue@.items.len(),
        forall|i: int| 0 <= i < queue@.items.len() ==> (#[trigger] copy@.items[i])@
            == queue@.items[i]@,
{
    let a = observation::observation_views(copy@.items);
    let b = observation::observation_views(queue@.items);
    assert(a == b);
    assert(a.len() == copy@.items.len() && b.len() == queue@.items.len());
    assert forall|i: int| 0 <= i < queue@.items.len() implies (#[trigger] copy@.items[i])@
        == queue@.items[i]@ by {
        assert(a[i] == b[i]);
    }
}

} // verus!
