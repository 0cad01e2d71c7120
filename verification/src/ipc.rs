//! The queue of senders blocked on a process: a FIFO of process numbers.
use vstd::prelude::*;
use crate::proc::ProcNr;

verus! {

/// Processes blocked while sending to the owner of the queue, first come
/// first.
#[derive(Debug)]
pub struct SenderQueue {
    q: Vec<ProcNr>,
}

/// The position of the first occurrence of `x` in `q` (meaningful when `q`
/// contains `x`).
pub open spec fn first_pos(q: Seq<ProcNr>, x: ProcNr) -> int {
    choose|i: int| 0 <= i < q.len() && q[i] == x && forall|j: int| 0 <= j < i ==> q[j] != x
}

/// `q` without its first occurrence of `x`; `q` itself when `x` is absent.
pub open spec fn without_sender(q: Seq<ProcNr>, x: ProcNr) -> Seq<ProcNr> {
    if q.contains(x) {
        q.remove(first_pos(q, x))
    } else {
        q
    }
}

impl View for SenderQueue {
    type V = Seq<ProcNr>;

    closed spec fn view(&self) -> Seq<ProcNr> {
        self.q@
    }
}

impl SenderQueue {
    /// An empty queue.
    pub fn new() -> (r: SenderQueue)
        ensures
            r@ == Seq::<ProcNr>::empty(),
    {
        SenderQueue { q: Vec::new() }
    }

    /// Append sender `nr` at the back.
    pub fn push_back(&mut self, nr: ProcNr)
        ensures
            final(self)@ == old(self)@.push(nr),
    {
        self.q.push(nr);
    }

    /// Whether no sender waits.
    pub fn is_empty(&self) -> (r: bool)
        ensures
            r == (self@.len() == 0),
    {
        self.q.is_empty()
    }

    /// Number of waiting senders.
    pub fn len(&self) -> (r: usize)
        ensures
            r == self@.len(),
    {
        self.q.len()
    }

    /// Take sender `nr` out of the queue (its first occurrence), keeping
    /// the order of the others; whether it was there.
    pub fn remove_by_nr(&mut self, nr: ProcNr) -> (r: bool)
        ensures
            r == old(self)@.contains(nr),
            final(self)@ == without_sender(old(self)@, nr),
    {
        let n = self.q.len();
        let mut i: usize = 0;
        while i < n
            invariant
                self.q@ == old(self).q@,
                n == self.q@.len(),
                0 <= i <= n,
                forall|j: int| 0 <= j < i ==> self.q@[j] != nr,
            decreases n - i,
        {
            if self.q[i].0 == nr.0 {
                let ghost q0 = self.q@;
                proof {
                    let k = first_pos(q0, nr);
                    assert(q0[i as int] == nr);
                    assert(q0.contains(nr));
                    assert(exists|k: int| 0 <= k < q0.len() && q0[k] == nr && forall|j: int| 0 <= j < k ==> q0[j] != nr);
                    if k < i {
                        assert(q0[k] != nr);
                    } else if k > i {
                        assert(q0[i as int] != nr);
                    }
                    assert(k == i);
                }
                self.q.remove(i);
                return true;
            }
            i = i + 1;
        }
        proof {
            assert(!self.q@.contains(nr)) by {
                if self.q@.contains(nr) {
                    let k = choose|k: int| 0 <= k < self.q@.len() && self.q@[k] == nr;
                    assert(self.q@[k] != nr);
                }
            }
        }
        false
    }

    /// Move the whole queue out, leaving this one empty.
    pub fn take(&mut self) -> (r: SenderQueue)
        ensures
            r == *old(self),
            final(self)@ == Seq::<ProcNr>::empty(),
    {
        let mut q: Vec<ProcNr> = Vec::new();
        std::mem::swap(&mut q, &mut self.q);
        SenderQueue { q }
    }
}

} // verus!
