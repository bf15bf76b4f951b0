//! Multiple-producer single-consumer queue.
use crate::error::QueueError;
use std::collections::VecDeque;
use vstd::prelude::*;

verus! {

/// The contents of a queue with capacity limit `cap` (zero: none) holding
/// `v` after `x` is pushed, and the result: a full bounded queue refuses.
pub open spec fn mpsc_push<T>(v: Seq<T>, cap: nat, x: T) -> (Seq<T>, Result<(), QueueError>) {
    if cap > 0 && v.len() >= cap {
        (v, Err(QueueError::QueueFull))
    } else {
        (v.push(x), Ok(()))
    }
}

/// The contents of a queue holding `v` after a pop, and the value taken.
pub open spec fn mpsc_pop<T>(v: Seq<T>) -> (Seq<T>, Option<T>) {
    if v.len() > 0 {
        (v.drop_first(), Some(v[0]))
    } else {
        (v, None)
    }
}

/// The contents after each of `xs` is pushed in turn.
pub open spec fn mpsc_push_all<T>(v: Seq<T>, cap: nat, xs: Seq<T>) -> Seq<T>
    decreases xs.len(),
{
    if xs.len() == 0 {
        v
    } else {
        mpsc_push_all(mpsc_push(v, cap, xs[0]).0, cap, xs.drop_first())
    }
}

/// The values taken by `n` pops in turn from a queue holding `v`.
pub open spec fn mpsc_pop_n<T>(v: Seq<T>, n: nat) -> Seq<Option<T>>
    decreases n,
{
    if n == 0 {
        Seq::empty()
    } else {
        seq![mpsc_pop(v).1] + mpsc_pop_n(mpsc_pop(v).0, (n - 1) as nat)
    }
}

proof fn lemma_mpsc_push_all_appends<T>(v: Seq<T>, cap: nat, xs: Seq<T>)
    requires
        cap == 0 || v.len() + xs.len() <= cap,
    ensures
        mpsc_push_all(v, cap, xs) == v + xs,
    decreases xs.len(),
{
    if xs.len() > 0 {
        lemma_mpsc_push_all_appends(v.push(xs[0]), cap, xs.drop_first());
        assert(v.push(xs[0]) + xs.drop_first() =~= v + xs);
    } else {
        assert(v + xs =~= v);
    }
}

proof fn lemma_mpsc_pop_n_drains<T>(v: Seq<T>)
    ensures
        mpsc_pop_n(v, v.len()) == v.map_values(|x: T| Some(x)),
        mpsc_pop_n(v, v.len() + 1).last() == None::<T>,
    decreases v.len(),
{
    if v.len() > 0 {
        lemma_mpsc_pop_n_drains(v.drop_first());
        assert(seq![Some(v[0])] + v.drop_first().map_values(|x: T| Some(x)) =~= v.map_values(
            |x: T| Some(x),
        ));
        let rest = mpsc_pop_n(v.drop_first(), v.len() as nat);
        assert((seq![mpsc_pop(v).1] + rest).last() == rest.last());
    } else {
        assert(v.map_values(|x: T| Some(x)) =~= Seq::<Option<T>>::empty());
        assert(mpsc_pop_n(v, 1) == seq![mpsc_pop(v).1] + mpsc_pop_n(v, 0));
    }
}

/// First in, first out: when the values `xs` fit in a queue holding `v`
/// (or the queue is unbounded), pushing them one by one and then popping as
/// many values as the queue holds returns `v` followed by `xs`, in order,
/// after which a pop returns nothing.
pub proof fn law_mpsc_fifo<T>(v: Seq<T>, cap: nat, xs: Seq<T>)
    requires
        cap == 0 || v.len() + xs.len() <= cap,
    ensures
        mpsc_pop_n(mpsc_push_all(v, cap, xs), v.len() + xs.len()) == (v + xs).map_values(
            |x: T| Some(x),
        ),
        mpsc_pop_n(mpsc_push_all(v, cap, xs), v.len() + xs.len() + 1).last() == None::<T>,
{
    lemma_mpsc_push_all_appends(v, cap, xs);
    lemma_mpsc_pop_n_drains(v + xs);
}

/// Queue of values in first-in first-out order, optionally bounded.
///
/// A capacity of zero means the queue is unbounded.
pub struct MpscQueue<T> {
    items: VecDeque<T>,
    max_capacity: usize,
}

impl<T> MpscQueue<T> {
    /// The values held, oldest first.
    pub closed spec fn view(&self) -> Seq<T> {
        self.items@
    }

    /// The capacity (zero for unbounded).
    pub closed spec fn capacity_limit(&self) -> nat {
        self.max_capacity as nat
    }

    /// Create a new unbounded queue.
    pub fn new() -> (q: Self)
        ensures
            q.view() == Seq::<T>::empty(),
            q.capacity_limit() == 0,
    {
        MpscQueue { items: VecDeque::new(), max_capacity: 0 }
    }

    /// Create a queue holding at most `capacity` values (unbounded if zero).
    pub fn with_capacity(capacity: usize) -> (q: Self)
        ensures
            q.view() == Seq::<T>::empty(),
            q.capacity_limit() == capacity,
    {
        let mut queue = Self::new();
        queue.max_capacity = capacity;
        queue
    }

    /// Append a value at the back.
    ///
    /// Fails with `QueueFull`, leaving the queue unchanged, when the queue is
    /// bounded and holds `capacity` values.
    pub fn push(&mut self, value: T) -> (r: Result<(), QueueError>)
        ensures
            final(self).capacity_limit() == old(self).capacity_limit(),
            (final(self).view(), r) == mpsc_push(old(self).view(), old(self).capacity_limit(), value),
    {
        if self.max_capacity > 0 && self.items.len() >= self.max_capacity {
            return Err(QueueError::QueueFull);
        }
        self.items.push_back(value);
        Ok(())
    }

    /// Take the value at the front, if any.
    pub fn pop(&mut self) -> (r: Option<T>)
        ensures
            final(self).capacity_limit() == old(self).capacity_limit(),
            (final(self).view(), r) == mpsc_pop(old(self).view()),
    {
        self.items.pop_front()
    }

    /// Number of values held.
    pub fn size(&self) -> (r: usize)
        ensures
            r == self.view().len(),
    {
        self.items.len()
    }

    /// Capacity (zero for unbounded).
    pub fn capacity(&self) -> (r: usize)
        ensures
            r == self.capacity_limit(),
    {
        self.max_capacity
    }

    /// Whether the queue holds no value.
    pub fn is_empty(&self) -> (r: bool)
        ensures
            r == (self.view().len() == 0),
    {
        self.items.len() == 0
    }
}

} // verus!
