//! A bounded queue that hands values from one producer to one consumer, in
//! the order in which they were pushed.
//!
//! The queue is owned by one side at a time: a value is the producer's
//! until its push returns, and the consumer's from the pop that hands it
//! out. A full queue refuses a push and hands the value back; it never
//! drops or overwrites one that is waiting.

use std::collections::VecDeque;
use vstd::prelude::*;

verus! {

/// Why a push was refused. The value comes back with the refusal.
#[derive(Debug)]
pub enum PushError<T> {
    /// As many values are waiting as the channel has room for.
    Full(T),
    /// The channel was closed.
    Closed(T),
}

/// What a pop found.
#[derive(Debug)]
pub enum Pop<T> {
    /// The value that waited longest.
    Item(T),
    /// Nothing is waiting; something may come.
    Empty,
    /// Nothing is waiting, and the channel was closed: nothing will come.
    Closed,
}

/// The mathematical state of a channel.
pub struct ChannelModel<T> {
    /// The values that wait, the one pushed first first.
    pub queue: Seq<T>,
    /// The number of values that may wait at a time.
    pub capacity: nat,
    pub closed: bool,
}

/// One use of a channel.
pub enum ChannelOp<T> {
    Push { value: T },
    TryPop,
    Close,
}

impl<T> ChannelModel<T> {
    /// The invariant: no more values wait than the channel has room for.
    pub open spec fn wf(self) -> bool {
        self.queue.len() <= self.capacity
    }

    /// An open channel in which nothing waits.
    pub open spec fn fresh(capacity: nat) -> Self {
        ChannelModel { queue: Seq::empty(), capacity, closed: false }
    }

    /// Whether a push is accepted.
    pub open spec fn accepts(self) -> bool {
        !self.closed && self.queue.len() < self.capacity
    }

    /// The channel after a push of `value`, and what the push returns.
    pub open spec fn push(self, value: T) -> (Self, Result<(), PushError<T>>) {
        if self.closed {
            (self, Err(PushError::Closed(value)))
        } else if self.queue.len() >= self.capacity {
            (self, Err(PushError::Full(value)))
        } else {
            (ChannelModel { queue: self.queue.push(value), ..self }, Ok(()))
        }
    }

    /// The channel after a pop, and what the pop returns.
    pub open spec fn try_pop(self) -> (Self, Pop<T>) {
        if self.queue.len() > 0 {
            (ChannelModel { queue: self.queue.drop_first(), ..self }, Pop::Item(self.queue.first()))
        } else if self.closed {
            (self, Pop::Closed)
        } else {
            (self, Pop::Empty)
        }
    }

    /// The channel after it was closed. What waits stays.
    pub open spec fn close(self) -> Self {
        ChannelModel { closed: true, ..self }
    }

    /// The channel after `op`.
    pub open spec fn step(self, op: ChannelOp<T>) -> Self {
        match op {
            ChannelOp::Push { value } => self.push(value).0,
            ChannelOp::TryPop => self.try_pop().0,
            ChannelOp::Close => self.close(),
        }
    }

    /// The channel after the uses in `ops`, first to last.
    pub open spec fn run(self, ops: Seq<ChannelOp<T>>) -> Self
        decreases ops.len(),
    {
        if ops.len() == 0 {
            self
        } else {
            self.run(ops.drop_last()).step(ops.last())
        }
    }

    /// The values that the pushes among `ops` had accepted, in the order of
    /// the pushes.
    pub open spec fn accepted(self, ops: Seq<ChannelOp<T>>) -> Seq<T>
        decreases ops.len(),
    {
        if ops.len() == 0 {
            Seq::empty()
        } else {
            let before = self.run(ops.drop_last());
            let sofar = self.accepted(ops.drop_last());
            match ops.last() {
                ChannelOp::Push { value } => if before.accepts() {
                    sofar.push(value)
                } else {
                    sofar
                },
                _ => sofar,
            }
        }
    }

    /// The values that the pops among `ops` handed out, in the order of the
    /// pops.
    pub open spec fn popped(self, ops: Seq<ChannelOp<T>>) -> Seq<T>
        decreases ops.len(),
    {
        if ops.len() == 0 {
            Seq::empty()
        } else {
            let before = self.run(ops.drop_last());
            let sofar = self.popped(ops.drop_last());
            match ops.last() {
                ChannelOp::TryPop => if before.queue.len() > 0 {
                    sofar.push(before.queue.first())
                } else {
                    sofar
                },
                _ => sofar,
            }
        }
    }

    /// Whatever is done with a channel, it keeps its invariant and its
    /// capacity, and the values handed out so far, followed by those that
    /// wait, are the values that waited at the start followed by those
    /// accepted since, in the order of their pushes. So values come out in
    /// the order in which they went in, none is lost, none comes twice, and
    /// none is overwritten while it waits.
    pub proof fn law_first_in_first_out(self, ops: Seq<ChannelOp<T>>)
        requires
            self.wf(),
        ensures
            self.run(ops).wf(),
            self.run(ops).capacity == self.capacity,
            self.popped(ops) + self.run(ops).queue == self.queue + self.accepted(ops),
        decreases ops.len(),
    {
        if ops.len() == 0 {
            assert(self.popped(ops) + self.run(ops).queue =~= self.queue + self.accepted(ops));
        } else {
            self.law_first_in_first_out(ops.drop_last());
            let before = self.run(ops.drop_last());
            let popped = self.popped(ops.drop_last());
            let accepted = self.accepted(ops.drop_last());
            assert(popped + before.queue == self.queue + accepted);
            match ops.last() {
                ChannelOp::Push { value } => {
                    if before.accepts() {
                        assert(popped + before.queue.push(value) =~= (popped + before.queue).push(
                            value,
                        ));
                        assert(self.queue + accepted.push(value) =~= (self.queue + accepted).push(
                            value,
                        ));
                    }
                },
                ChannelOp::TryPop => {
                    if before.queue.len() > 0 {
                        assert(popped.push(before.queue.first()) + before.queue.drop_first() =~= popped
                            + before.queue);
                    }
                },
                ChannelOp::Close => {},
            }
        }
    }

    /// A channel that starts empty, takes pushes that it has room for, and
    /// is then popped as often, hands out the values of the pushes in their
    /// order and ends empty.
    pub proof fn law_pushes_then_pops(self, values: Seq<T>)
        requires
            self.wf(),
            !self.closed,
            self.queue.len() == 0,
            values.len() <= self.capacity,
        ensures
            ({
                let ops = Seq::new(values.len(), |i: int| ChannelOp::Push { value: values[i] })
                    + Seq::new(values.len(), |i: int| ChannelOp::<T>::TryPop);
                self.popped(ops) == values && self.run(ops).queue.len() == 0
            }),
    {
        let pushes = Seq::new(values.len(), |i: int| ChannelOp::Push { value: values[i] });
        let pops = Seq::new(values.len(), |i: int| ChannelOp::<T>::TryPop);
        self.lemma_pushes(values, values.len());
        assert(values.take(values.len() as int) == values);
        assert(pushes.take(values.len() as int) == pushes);
        self.lemma_pops(pushes, values.len());
        assert(pops.take(values.len() as int) == pops);
        assert(values.skip(values.len() as int) =~= Seq::empty());
    }

    /// After the first `n` of the pushes, their values wait in order and
    /// nothing was handed out.
    proof fn lemma_pushes(self, values: Seq<T>, n: nat)
        requires
            self.wf(),
            !self.closed,
            self.queue.len() == 0,
            values.len() <= self.capacity,
            n <= values.len(),
        ensures
            ({
                let ops = Seq::new(values.len(), |i: int| ChannelOp::Push { value: values[i] }).take(
                    n as int,
                );
                &&& self.run(ops).queue == values.take(n as int)
                &&& self.run(ops).capacity == self.capacity
                &&& !self.run(ops).closed
                &&& self.popped(ops) == Seq::<T>::empty()
            }),
        decreases n,
    {
        let all = Seq::new(values.len(), |i: int| ChannelOp::Push { value: values[i] });
        let ops = all.take(n as int);
        if n == 0 {
            assert(self.run(ops).queue =~= values.take(0));
        } else {
            self.lemma_pushes(values, (n - 1) as nat);
            assert(ops.drop_last() == all.take(n - 1));
            assert(ops.last() == ChannelOp::Push { value: values[n - 1] });
            assert(values.take(n - 1).push(values[n - 1]) =~= values.take(n as int));
        }
    }

    /// After `prefix` and `n` pops, as far as values waited, the first `n`
    /// of those that waited were handed out in order.
    proof fn lemma_pops(self, prefix: Seq<ChannelOp<T>>, n: nat)
        requires
            n <= self.run(prefix).queue.len(),
        ensures
            ({
                let waiting = self.run(prefix).queue;
                let ops = prefix + Seq::new(waiting.len(), |i: int| ChannelOp::<T>::TryPop).take(
                    n as int,
                );
                &&& self.run(ops).queue == waiting.skip(n as int)
                &&& self.popped(ops) == self.popped(prefix) + waiting.take(n as int)
            }),
        decreases n,
    {
        let waiting = self.run(prefix).queue;
        let pops = Seq::new(waiting.len(), |i: int| ChannelOp::<T>::TryPop);
        let ops = prefix + pops.take(n as int);
        if n == 0 {
            assert(ops =~= prefix);
            assert(waiting.skip(0) =~= waiting);
            assert(self.popped(prefix) + waiting.take(0) =~= self.popped(prefix));
        } else {
            self.lemma_pops(prefix, (n - 1) as nat);
            assert(ops.drop_last() =~= prefix + pops.take(n - 1));
            assert(ops.last() == ChannelOp::<T>::TryPop);
            assert(waiting.skip(n - 1).drop_first() =~= waiting.skip(n as int));
            assert(waiting.skip(n - 1).first() == waiting[n - 1]);
            assert((self.popped(prefix) + waiting.take(n - 1)).push(waiting[n - 1]) =~= self.popped(
                prefix,
            ) + waiting.take(n as int));
        }
    }
}

/// A bounded queue from one producer to one consumer.
pub struct Channel<T> {
    queue: VecDeque<T>,
    capacity: usize,
    closed: bool,
}

impl<T> Channel<T> {
    /// The mathematical state of the channel.
    pub closed spec fn view(&self) -> ChannelModel<T> {
        ChannelModel { queue: self.queue@, capacity: self.capacity as nat, closed: self.closed }
    }

    /// The invariant of the channel, which every function keeps.
    pub open spec fn wf(&self) -> bool {
        self@.wf()
    }

    /// An open channel with room for `capacity` values.
    pub fn new(capacity: usize) -> (r: Channel<T>)
        ensures
            r.wf(),
            r@ == ChannelModel::<T>::fresh(capacity as nat),
    {
        Channel { queue: VecDeque::new(), capacity, closed: false }
    }

    /// Hands `value` to the channel, unless it is full or closed: then the
    /// value comes back and the channel stays as it is.
    pub fn push(&mut self, value: T) -> (r: Result<(), PushError<T>>)
        requires
            old(self).wf(),
        ensures
            final(self).wf(),
            (final(self)@, r) == old(self)@.push(value),
    {
        if self.closed {
            Err(PushError::Closed(value))
        } else if self.queue.len() >= self.capacity {
            Err(PushError::Full(value))
        } else {
            self.queue.push_back(value);
            Ok(())
        }
    }

    /// Takes the value that waited longest, if any. Never waits itself.
    pub fn try_pop(&mut self) -> (r: Pop<T>)
        requires
            old(self).wf(),
        ensures
            final(self).wf(),
            (final(self)@, r) == old(self)@.try_pop(),
    {
        match self.queue.pop_front() {
            Some(value) => {
                assert(final(self)@.queue =~= old(self)@.queue.drop_first());
                Pop::Item(value)
            },
            None => if self.closed {
                Pop::Closed
            } else {
                Pop::Empty
            },
        }
    }

    /// Closes the channel: from now on every push is refused, and a pop
    /// that finds nothing says so for good.
    pub fn close(&mut self)
        requires
            old(self).wf(),
        ensures
            final(self).wf(),
            final(self)@ == old(self)@.close(),
    {
        self.closed = true;
    }

    /// The number of values that wait.
    pub fn len(&self) -> (r: usize)
        ensures
            r == self@.queue.len(),
    {
        self.queue.len()
    }

    /// The number of values that may wait at a time.
    pub fn capacity(&self) -> (r: usize)
        ensures
            r == self@.capacity,
    {
        self.capacity
    }

    /// Whether the channel was closed.
    pub fn is_closed(&self) -> (r: bool)
        ensures
            r == self@.closed,
    {
        self.closed
    }
}

} // verus!
