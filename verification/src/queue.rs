//! A FIFO queue with a fixed capacity limit.
//!
//! `LimVecDeque` wraps a `VecDeque` together with the capacity chosen at
//! construction. The capacity bound `len() <= capacity()` is a type
//! invariant: it holds of every value of the type at all times. Insertion
//! order is preserved; elements leave from the front in the order they
//! were pushed at the back.

use std::collections::VecDeque;
use vstd::prelude::*;

verus! {

/// Relies on `VecDeque::as_slices`: the two returned slices hold the
/// queue's contents, front half then back half, in queue order.
#[verifier::external_body]
fn vd_as_slices<T>(q: &VecDeque<T>) -> (r: (&[T], &[T]))
    ensures
        r.0@ + r.1@ == q@,
{
    q.as_slices()
}

/// Relies on `VecDeque::make_contiguous`: it only rearranges the internal
/// storage into one contiguous run, keeping the contents and their order,
/// and returns a slice over exactly those contents. It neither allocates
/// nor panics.
#[verifier::external_body]
fn vd_make_contiguous<T>(q: &mut VecDeque<T>) -> (r: &[T])
    ensures
        final(q)@ == old(q)@,
        r@ == old(q)@,
    no_unwind
{
    q.make_contiguous()
}

/// A `VecDeque` wrapper that enforces a limited capacity.
#[derive(Debug)]
pub struct LimVecDeque<T> {
    queue: VecDeque<T>,
    capacity: usize,
}

impl<T> View for LimVecDeque<T> {
    type V = Seq<T>;

    closed spec fn view(&self) -> Seq<T> {
        self.queue@
    }
}

impl<T> LimVecDeque<T> {
    /// The maximum number of elements the queue may ever hold.
    pub closed spec fn spec_capacity(&self) -> nat {
        self.capacity as nat
    }

    #[verifier::type_invariant]
    spec fn capacity_bound(&self) -> bool {
        self.queue@.len() <= self.capacity
    }

    /// Creates an empty queue with room for up to `capacity` elements.
    pub fn with_capacity(capacity: usize) -> (r: Self)
        ensures
            r@ == Seq::<T>::empty(),
            r.spec_capacity() == capacity,
    {
        Self { queue: VecDeque::with_capacity(capacity), capacity }
    }

    /// Builds a queue holding exactly the elements of `v`, in order,
    /// with capacity equal to the number of elements.
    pub fn from_vec(v: Vec<T>) -> (r: Self)
        ensures
            r@ == v@,
            r.spec_capacity() == v@.len(),
    {
        let ghost orig = v@;
        let mut v = v;
        let capacity = v.len();
        let mut queue: VecDeque<T> = VecDeque::with_capacity(capacity);
        while v.len() != 0
            invariant
                v@ == orig.subrange(0, v@.len() as int),
                queue@ == orig.subrange(v@.len() as int, orig.len() as int),
                v@.len() <= orig.len(),
            decreases v@.len(),
        {
            let ghost n = v@.len() as int;
            let x = v.pop().unwrap();
            queue.push_front(x);
            proof {
                assert(seq![x] + orig.subrange(n, orig.len() as int) =~= orig.subrange(
                    n - 1,
                    orig.len() as int,
                ));
                assert(v@ =~= orig.subrange(0, v@.len() as int));
            }
        }
        Self { queue, capacity }
    }

    /// The number of elements currently in the queue; never above the capacity.
    pub fn len(&self) -> (r: usize)
        ensures
            r == self@.len(),
            r <= self.spec_capacity(),
    {
        proof {
            use_type_invariant(&*self);
        }
        self.queue.len()
    }

    /// True exactly when the queue holds no elements.
    pub fn is_empty(&self) -> (r: bool)
        ensures
            r == (self@.len() == 0),
    {
        self.queue.len() == 0
    }

    /// The capacity chosen at construction; never below the current length.
    pub fn capacity(&self) -> (r: usize)
        ensures
            r == self.spec_capacity(),
            self@.len() <= r,
    {
        proof {
            use_type_invariant(&*self);
        }
        self.capacity
    }

    /// Appends an element at the back. The queue must have room.
    pub fn push_back(&mut self, val: T)
        requires
            old(self)@.len() < old(self).spec_capacity(),
        ensures
            final(self)@ == old(self)@.push(val),
            final(self).spec_capacity() == old(self).spec_capacity(),
    {
        let mut q: VecDeque<T> = VecDeque::new();
        std::mem::swap(&mut q, &mut self.queue);
        q.push_back(val);
        std::mem::swap(&mut q, &mut self.queue);
    }

    /// Removes the front element and returns it, or `None` if empty.
    pub fn pop_front(&mut self) -> (r: Option<T>)
        ensures
            final(self).spec_capacity() == old(self).spec_capacity(),
            match r {
                Some(x) => {
                    &&& old(self)@.len() > 0
                    &&& x == old(self)@[0]
                    &&& final(self)@ == old(self)@.subrange(1, old(self)@.len() as int)
                },
                None => {
                    &&& old(self)@.len() == 0
                    &&& final(self)@ == old(self)@
                },
            },
    {
        proof {
            use_type_invariant(&*self);
        }
        let mut q: VecDeque<T> = VecDeque::new();
        std::mem::swap(&mut q, &mut self.queue);
        let r = q.pop_front();
        std::mem::swap(&mut q, &mut self.queue);
        r
    }

    /// Moves all elements of `other` onto the back of `self`, leaving
    /// `other` empty. The combined length must fit in `self`'s capacity.
    pub fn append(&mut self, other: &mut LimVecDeque<T>)
        requires
            old(self)@.len() + old(other)@.len() <= old(self).spec_capacity(),
        ensures
            final(self)@ == old(self)@ + old(other)@,
            final(self).spec_capacity() == old(self).spec_capacity(),
            final(other)@ == Seq::<T>::empty(),
            final(other).spec_capacity() == old(other).spec_capacity(),
    {
        proof {
            use_type_invariant(&*other);
        }
        let mut q: VecDeque<T> = VecDeque::new();
        let mut o: VecDeque<T> = VecDeque::new();
        std::mem::swap(&mut q, &mut self.queue);
        std::mem::swap(&mut o, &mut other.queue);
        q.append(&mut o);
        std::mem::swap(&mut q, &mut self.queue);
        std::mem::swap(&mut o, &mut other.queue);
    }

    /// Removes the first `count` elements in bulk and returns them as a
    /// queue of capacity `count`, preserving their order.
    pub fn drain(&mut self, count: usize) -> (r: LimVecDeque<T>)
        requires
            count <= old(self)@.len(),
        ensures
            r@ == old(self)@.subrange(0, count as int),
            r.spec_capacity() == count,
            final(self)@ == old(self)@.subrange(count as int, old(self)@.len() as int),
            final(self).spec_capacity() == old(self).spec_capacity(),
    {
        proof {
            use_type_invariant(&*self);
        }
        let mut q: VecDeque<T> = VecDeque::new();
        std::mem::swap(&mut q, &mut self.queue);
        let mut out: VecDeque<T> = VecDeque::with_capacity(count);
        let mut i: usize = 0;
        while i < count
            invariant
                i <= count <= old(self)@.len(),
                q@ == old(self)@.subrange(i as int, old(self)@.len() as int),
                out@ == old(self)@.subrange(0, i as int),
            decreases count - i,
        {
            let x = q.pop_front().unwrap();
            out.push_back(x);
            i = i + 1;
            proof {
                assert(q@ =~= old(self)@.subrange(i as int, old(self)@.len() as int));
                assert(out@ =~= old(self)@.subrange(0, i as int));
            }
        }
        std::mem::swap(&mut q, &mut self.queue);
        LimVecDeque { queue: out, capacity: count }
    }

    /// A borrow of the element at position `i`, counted from the front.
    pub fn get(&self, i: usize) -> (r: &T)
        requires
            i < self@.len(),
        ensures
            *r == self@[i as int],
    {
        &self.queue[i]
    }

    /// Borrows of all elements, front to back.
    pub fn iter(&self) -> (r: Vec<&T>)
        ensures
            r@.len() == self@.len(),
            forall|i: int| 0 <= i < self@.len() ==> *r@[i] == self@[i],
    {
        let mut out: Vec<&T> = Vec::new();
        let n = self.queue.len();
        let mut i: usize = 0;
        while i < n
            invariant
                i <= n == self@.len(),
                out@.len() == i,
                forall|j: int| 0 <= j < i ==> *out@[j] == self@[j],
            decreases n - i,
        {
            out.push(&self.queue[i]);
            i = i + 1;
        }
        out
    }

    /// A pair of slices which contain, in order, the contents of the queue.
    pub fn as_slices(&self) -> (r: (&[T], &[T]))
        ensures
            r.0@ + r.1@ == self@,
    {
        vd_as_slices(&self.queue)
    }

    /// Rearranges the internal storage into one contiguous run and
    /// returns it. The contents and their order are unchanged.
    pub fn make_contiguous(&mut self) -> (r: &[T])
        ensures
            final(self)@ == old(self)@,
            final(self).spec_capacity() == old(self).spec_capacity(),
            r@ == old(self)@,
    {
        proof {
            use_type_invariant(&*self);
        }
        vd_make_contiguous(&mut self.queue)
    }
}

} // verus!
