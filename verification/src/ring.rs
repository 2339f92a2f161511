//! A bounded first-in first-out queue of samples over a fixed allocation.
//!
//! The realtime callback receives and hands out audio in blocks of one size,
//! while the spectral engine consumes and produces it in steps of another.
//! Queues of this kind sit between the two. Nothing here allocates once the
//! queue exists.
use crate::effects::zeros;
use crate::sample::Sample;
use vstd::prelude::*;

verus! {

/// A queue of at most `max_len` samples.
#[derive(Debug)]
pub struct RingBuffer<S> {
    data: Vec<S>,
    start: usize,
    len: usize,
}

/// The storage slot of the `i`-th queued sample.
pub open spec fn slot(start: int, i: int, capacity: int) -> int {
    if start + i < capacity {
        start + i
    } else {
        start + i - capacity
    }
}

/// The queue after `elem` has been pushed: `elem` is the newest sample, and
/// where the queue was full its oldest sample has made way.
pub open spec fn pushed<S>(queue: Seq<S>, max_len: nat, elem: S) -> Seq<S> {
    if queue.len() >= max_len {
        queue.drop_first().push(elem)
    } else {
        queue.push(elem)
    }
}

/// The queue after each sample of `block` has been pushed in turn.
pub open spec fn extended<S>(queue: Seq<S>, max_len: nat, block: Seq<S>) -> Seq<S>
    decreases block.len(),
{
    if block.len() == 0 {
        queue
    } else {
        pushed(extended(queue, max_len, block.drop_last()), max_len, block.last())
    }
}

impl<S: Sample> View for RingBuffer<S> {
    type V = Seq<S>;

    /// The queued samples, oldest first.
    closed spec fn view(&self) -> Seq<S> {
        Seq::new(
            self.len as nat,
            |i: int| self.data@[slot(self.start as int, i, self.data@.len() as int)],
        )
    }
}

impl<S: Sample> RingBuffer<S> {
    /// The storage is not empty, and start and length lie within it.
    pub closed spec fn wf(&self) -> bool {
        &&& self.data@.len() >= 1
        &&& self.start < self.data@.len()
        &&& self.len <= self.data@.len()
    }

    /// The most samples the queue holds.
    pub closed spec fn capacity(&self) -> nat {
        self.data@.len()
    }

    /// A queue holds no more than its capacity, which is at least one.
    pub proof fn bounded(&self)
        requires
            self.wf(),
        ensures
            self@.len() <= self.capacity(),
            1 <= self.capacity() <= usize::MAX,
    {
        assert(self.data@.len() == self.data.len());
    }

    /// An empty queue with room for `max_len` samples.
    pub fn new(max_len: usize) -> (r: Self)
        requires
            max_len >= 1,
        ensures
            r.wf(),
            r@ == Seq::<S>::empty(),
            r.capacity() == max_len,
    {
        let r = RingBuffer { data: zeros(max_len), start: 0, len: 0 };
        assert(r@ =~= Seq::<S>::empty());
        r
    }

    pub fn max_len(&self) -> (r: usize)
        requires
            self.wf(),
        ensures
            r == self.capacity(),
    {
        self.data.len()
    }

    pub fn len(&self) -> (r: usize)
        requires
            self.wf(),
        ensures
            r == self@.len(),
    {
        self.len
    }

    pub fn is_empty(&self) -> (r: bool)
        requires
            self.wf(),
        ensures
            r == (self@.len() == 0),
    {
        self.len == 0
    }

    pub fn is_full(&self) -> (r: bool)
        requires
            self.wf(),
        ensures
            r == (self@.len() == self.capacity()),
    {
        self.len == self.data.len()
    }

    /// The `index`-th queued sample, oldest first.
    pub fn get(&self, index: usize) -> (r: Option<S>)
        requires
            self.wf(),
        ensures
            r == if index < self@.len() {
                Some(self@[index as int])
            } else {
                None
            },
    {
        if index >= self.len {
            return None;
        }
        let cap = self.data.len();
        let at = if index < cap - self.start {
            self.start + index
        } else {
            index - (cap - self.start)
        };
        Some(self.data[at])
    }

    /// Pushes `elem` to the back. Where the queue is full, the sample at the
    /// front makes way and is returned.
    pub fn push(&mut self, elem: S) -> (r: Option<S>)
        requires
            old(self).wf(),
        ensures
            final(self).wf(),
            final(self).capacity() == old(self).capacity(),
            final(self)@ == pushed(old(self)@, old(self).capacity(), elem),
            r == if old(self)@.len() == old(self).capacity() {
                Some(old(self)@[0])
            } else {
                None
            },
    {
        let cap = self.data.len();
        if self.len == cap {
            let old_elem = self.data[self.start];
            self.data[self.start] = elem;
            let mut next_start = self.start + 1;
            if next_start >= cap {
                next_start = 0;
            }
            self.start = next_start;
            assert(self@ =~= pushed(old(self)@, old(self).capacity(), elem)) by {
                let before = old(self)@;
                let s0 = old(self).start as int;
                let c = cap as int;
                assert forall|i: int| 0 <= i < c implies self@[i] == before.drop_first().push(
                    elem,
                )[i] by {
                    if i < c - 1 {
                        assert(slot(self.start as int, i, c) == slot(s0, i + 1, c));
                    } else {
                        assert(slot(self.start as int, i, c) == s0);
                    }
                }
            }
            return Some(old_elem);
        }
        let index = if self.len < cap - self.start {
            self.start + self.len
        } else {
            self.len - (cap - self.start)
        };
        self.data[index] = elem;
        self.len += 1;
        assert(self@ =~= old(self)@.push(elem)) by {
            let c = cap as int;
            let s0 = self.start as int;
            assert forall|i: int| 0 <= i < self.len implies self@[i] == old(self)@.push(
                elem,
            )[i] by {
                if i < self.len - 1 {
                    assert(slot(s0, i, c) != index);
                }
            }
        }
        None
    }

    /// Takes the sample at the front, if there is one.
    pub fn pop(&mut self) -> (r: Option<S>)
        requires
            old(self).wf(),
        ensures
            final(self).wf(),
            final(self).capacity() == old(self).capacity(),
            old(self)@.len() == 0 ==> r.is_none() && final(self)@ == old(self)@,
            old(self)@.len() > 0 ==> r == Some(old(self)@[0]) && final(self)@
                == old(self)@.drop_first(),
    {
        if self.len == 0 {
            return None;
        }
        let cap = self.data.len();
        let old_elem = self.data[self.start];
        let mut next_start = self.start + 1;
        if next_start >= cap {
            next_start = 0;
        }
        self.start = next_start;
        self.len -= 1;
        assert(self@ =~= old(self)@.drop_first()) by {
            let c = cap as int;
            let s0 = old(self).start as int;
            assert forall|i: int| 0 <= i < self.len implies self@[i]
                == old(self)@.drop_first()[i] by {
                assert(slot(self.start as int, i, c) == slot(s0, i + 1, c));
            }
        }
        Some(old_elem)
    }

    /// Pushes each sample of `block` in turn.
    pub fn extend(&mut self, block: &[S])
        requires
            old(self).wf(),
        ensures
            final(self).wf(),
            final(self).capacity() == old(self).capacity(),
            final(self)@ == extended(old(self)@, old(self).capacity(), block@),
    {
        let mut i: usize = 0;
        while i < block.len()
            invariant
                i <= block.len(),
                self.wf(),
                self.capacity() == old(self).capacity(),
                self@ == extended(old(self)@, old(self).capacity(), block@.take(i as int)),
            decreases block.len() - i,
        {
            self.push(block[i]);
            assert(block@.take(i + 1).drop_last() =~= block@.take(i as int));
            i += 1;
        }
        assert(block@.take(block@.len() as int) =~= block@);
    }

    /// Fills `dest` from the front of the queue, provided the queue holds
    /// enough samples to fill all of it. Otherwise takes nothing and leaves
    /// `dest` as it is.
    pub fn try_read(&mut self, dest: &mut [S]) -> (r: bool)
        requires
            old(self).wf(),
        ensures
            final(self).wf(),
            final(self).capacity() == old(self).capacity(),
            r == (old(dest)@.len() <= old(self)@.len()),
            r ==> final(dest)@ == old(self)@.take(old(dest)@.len() as int) && final(self)@
                == old(self)@.skip(old(dest)@.len() as int),
            !r ==> final(dest)@ == old(dest)@ && final(self)@ == old(self)@,
    {
        let n = dest.len();
        if n > self.len {
            return false;
        }
        let mut i: usize = 0;
        while i < n
            invariant
                i <= n,
                n == dest@.len(),
                n <= old(self)@.len(),
                self.wf(),
                self.capacity() == old(self).capacity(),
                self@ == old(self)@.skip(i as int),
                forall|j: int| 0 <= j < i ==> dest@[j] == old(self)@[j],
            decreases n - i,
        {
            let front = self.pop();
            match front {
                Some(v) => {
                    dest[i] = v;
                },
                None => {},
            }
            assert(old(self)@.skip(i as int).drop_first() =~= old(self)@.skip(i + 1));
            i += 1;
        }
        assert(dest@ =~= old(self)@.take(n as int));
        true
    }
}

/// A queue grows by the length of what it is extended by, up to its
/// capacity.
pub proof fn extended_len<S>(queue: Seq<S>, max_len: nat, block: Seq<S>)
    requires
        queue.len() <= max_len,
        max_len >= 1,
    ensures
        extended(queue, max_len, block).len() == if queue.len() + block.len() <= max_len {
            queue.len() + block.len()
        } else {
            max_len
        },
    decreases block.len(),
{
    if block.len() > 0 {
        extended_len(queue, max_len, block.drop_last());
    }
}

/// Extending a queue that has room for the whole block appends the block.
pub proof fn extended_appends<S>(queue: Seq<S>, max_len: nat, block: Seq<S>)
    requires
        queue.len() + block.len() <= max_len,
    ensures
        extended(queue, max_len, block) == queue + block,
    decreases block.len(),
{
    if block.len() == 0 {
        assert(queue + block =~= queue);
    } else {
        extended_appends(queue, max_len, block.drop_last());
        assert((queue + block.drop_last()).push(block.last()) =~= queue + block);
    }
}

} // verus!
