//! The bounded FIFO handoff between the fetch stage and the consume stage.
//! Pushing never blocks: an item that finds the queue full is handed back
//! and dropped by the caller, so memory stays bounded under load.
use vstd::prelude::*;
use std::collections::VecDeque;

verus! {

/// Why a non-blocking push handed its item back.
pub enum PushError<T> {
    /// The queue holds `capacity` items.
    Full(T),
    /// The receiving side has shut down.
    Closed(T),
}

pub struct BoundedQueue<T> {
    items: VecDeque<T>,
    capacity: usize,
    closed: bool,
}

/// How many of `n` pushes a queue holding `len` of `cap` items accepts.
pub open spec fn accepted_count(len: nat, cap: nat, n: nat) -> nat {
    if cap - len < n {
        (cap - len) as nat
    } else {
        n
    }
}

/// The queue after pushing each of `xs` in turn onto `q`, dropping what finds
/// it full.
pub open spec fn fill<T>(q: Seq<T>, cap: nat, xs: Seq<T>) -> Seq<T> {
    q + xs.take(accepted_count(q.len(), cap, xs.len()) as int)
}

impl<T> BoundedQueue<T> {
    pub closed spec fn view(&self) -> Seq<T> {
        self.items@
    }

    pub closed spec fn spec_capacity(&self) -> nat {
        self.capacity as nat
    }

    pub closed spec fn spec_closed(&self) -> bool {
        self.closed
    }

    pub closed spec fn wf(&self) -> bool {
        self.items@.len() <= self.capacity && self.capacity > 0
    }

    /// An empty, open queue of the given capacity.
    pub fn new(capacity: usize) -> (r: Self)
        requires
            capacity > 0,
        ensures
            r.wf(),
            r@ == Seq::<T>::empty(),
            r.spec_capacity() == capacity,
            !r.spec_closed(),
    {
        BoundedQueue { items: VecDeque::new(), capacity, closed: false }
    }

    pub fn len(&self) -> (r: usize)
        ensures
            r == self@.len(),
    {
        self.items.len()
    }

    pub fn capacity(&self) -> (r: usize)
        ensures
            r == self.spec_capacity(),
    {
        self.capacity
    }

    pub fn is_closed(&self) -> (r: bool)
        ensures
            r == self.spec_closed(),
    {
        self.closed
    }

    /// Shuts the receiving side: later pushes fail with `Closed`; items
    /// already queued can still be popped.
    pub fn close(&mut self)
        requires
            old(self).wf(),
        ensures
            final(self).wf(),
            final(self)@ == old(self)@,
            final(self).spec_capacity() == old(self).spec_capacity(),
            final(self).spec_closed(),
    {
        self.closed = true;
    }

    /// Appends `item` unless the queue is closed or full; never waits.
    pub fn try_push(&mut self, item: T) -> (r: Result<(), PushError<T>>)
        requires
            old(self).wf(),
        ensures
            final(self).wf(),
            final(self).spec_capacity() == old(self).spec_capacity(),
            final(self).spec_closed() == old(self).spec_closed(),
            old(self).spec_closed() ==> r == Err::<(), PushError<T>>(PushError::Closed(item))
                && final(self)@ == old(self)@,
            !old(self).spec_closed() && old(self)@.len() == old(self).spec_capacity() ==> r
                == Err::<(), PushError<T>>(PushError::Full(item)) && final(self)@ == old(self)@,
            !old(self).spec_closed() && old(self)@.len() < old(self).spec_capacity() ==> r is Ok
                && final(self)@ == old(self)@.push(item),
    {
        if self.closed {
            Err(PushError::Closed(item))
        } else if self.items.len() >= self.capacity {
            Err(PushError::Full(item))
        } else {
            self.items.push_back(item);
            Ok(())
        }
    }

    /// Removes the oldest item, if any.
    pub fn try_pop(&mut self) -> (r: Option<T>)
        requires
            old(self).wf(),
        ensures
            final(self).wf(),
            final(self).spec_capacity() == old(self).spec_capacity(),
            final(self).spec_closed() == old(self).spec_closed(),
            old(self)@.len() == 0 ==> r is None && final(self)@ == old(self)@,
            old(self)@.len() > 0 ==> r == Some(old(self)@[0]) && final(self)@ == old(self)@.drop_first(),
    {
        let r = self.items.pop_front();
        proof {
            if old(self)@.len() > 0 {
                assert(self.items@ =~= old(self)@.drop_first());
            }
        }
        r
    }

    /// Pushes each item in turn without waiting, and counts the accepted and
    /// the dropped ones. On a closed queue nothing is pushed.
    pub fn push_all(&mut self, items: Vec<T>) -> (r: (usize, usize))
        requires
            old(self).wf(),
        ensures
            final(self).wf(),
            final(self).spec_capacity() == old(self).spec_capacity(),
            final(self).spec_closed() == old(self).spec_closed(),
            old(self).spec_closed() ==> r == (0usize, 0usize) && final(self)@ == old(self)@,
            !old(self).spec_closed() ==> {
                &&& final(self)@ == fill(old(self)@, old(self).spec_capacity(), items@)
                &&& r.0 == accepted_count(
                    old(self)@.len(),
                    old(self).spec_capacity(),
                    items@.len(),
                )
                &&& r.0 + r.1 == items@.len()
            },
    {
        if self.closed {
            return (0, 0);
        }
        let ghost xs = items@;
        let ghost q0 = self@;
        let mut rest = items;
        let n = rest.len();
        let mut accepted: usize = 0;
        let mut dropped: usize = 0;
        let mut j: usize = 0;
        while j < n
            invariant
                self.wf(),
                !self.spec_closed(),
                self.spec_capacity() == old(self).spec_capacity(),
                q0 == old(self)@,
                j <= n == xs.len(),
                rest@ == xs.skip(j as int),
                accepted == accepted_count(q0.len(), self.spec_capacity(), j as nat),
                accepted + dropped == j,
                self@ == q0 + xs.take(accepted as int),
            decreases n - j,
        {
            let x = rest.remove(0);
            proof {
                assert(x == xs[j as int]);
            }
            match self.try_push(x) {
                Ok(()) => {
                    accepted = accepted + 1;
                    proof {
                        assert(xs.take(accepted as int) =~= xs.take(accepted - 1).push(xs[j as int]));
                    }
                },
                Err(_) => {
                    dropped = dropped + 1;
                },
            }
            j = j + 1;
            proof {
                assert(rest@ =~= xs.skip(j as int));
            }
        }
        (accepted, dropped)
    }

    /// Pops every queued item, oldest first.
    pub fn drain(&mut self) -> (r: Vec<T>)
        requires
            old(self).wf(),
        ensures
            final(self).wf(),
            final(self)@ == Seq::<T>::empty(),
            final(self).spec_capacity() == old(self).spec_capacity(),
            final(self).spec_closed() == old(self).spec_closed(),
            r@ == old(self)@,
    {
        let mut out: Vec<T> = Vec::new();
        while self.items.len() > 0
            invariant
                self.wf(),
                self.spec_capacity() == old(self).spec_capacity(),
                self.spec_closed() == old(self).spec_closed(),
                out@ + self@ == old(self)@,
            decreases self@.len(),
        {
            let ghost before = self@;
            match self.try_pop() {
                Some(x) => {
                    out.push(x);
                    proof {
                        assert(out@ + self@ =~= old(self)@);
                    }
                },
                None => {},
            }
        }
        proof {
            assert(out@ =~= old(self)@);
        }
        out
    }
}

/// Pushing `n > c` items without waiting onto an empty queue of capacity `c`
/// keeps exactly the first `c`, in order, and drops the other `n - c`; the
/// kept items then come out in that order, each once.
pub proof fn lemma_backpressure_bound<T>(cap: nat, xs: Seq<T>)
    requires
        cap > 0,
        xs.len() > cap,
    ensures
        accepted_count(0, cap, xs.len()) == cap,
        xs.len() - accepted_count(0, cap, xs.len()) == xs.len() - cap,
        fill(Seq::<T>::empty(), cap, xs) == xs.take(cap as int),
        fill(Seq::<T>::empty(), cap, xs).len() == cap,
{
    assert(Seq::<T>::empty() + xs.take(cap as int) =~= xs.take(cap as int));
}

} // verus!
