//! The recorded result of a propagation: accepted samples in time order.

use vstd::prelude::*;

verus! {

use crate::state::StateVector;

/// One accepted point of the trajectory.
#[derive(Clone, Copy, PartialEq, Eq, Structural, Debug)]
pub struct TrajectorySample {
    pub t: i128,
    pub state: StateVector,
}

/// An append-only sequence of samples with strictly increasing times.
#[derive(Debug)]
pub struct Trajectory {
    samples: Vec<TrajectorySample>,
}

impl View for Trajectory {
    type V = Seq<TrajectorySample>;

    closed spec fn view(&self) -> Seq<TrajectorySample> {
        self.samples@
    }
}

impl Trajectory {
    /// Sample times are strictly increasing.
    pub open spec fn wf(self) -> bool {
        forall|i: int, j: int|
            0 <= i < j < self@.len() ==> self@[i].t < self@[j].t
    }

    /// An empty recorder.
    pub fn new() -> (r: Trajectory)
        ensures
            r@ == Seq::<TrajectorySample>::empty(),
            r.wf(),
    {
        Trajectory { samples: Vec::new() }
    }

    /// Number of accepted samples.
    pub fn len(&self) -> (r: usize)
        ensures
            r == self@.len(),
    {
        self.samples.len()
    }

    /// The sample at index `i`.
    pub fn get(&self, i: usize) -> (r: TrajectorySample)
        requires
            i < self@.len(),
        ensures
            r == self@[i as int],
    {
        self.samples[i]
    }

    /// The most recent sample: the final state once the propagation has
    /// converged.
    pub fn last(&self) -> (r: TrajectorySample)
        requires
            self@.len() > 0,
        ensures
            r == self@.last(),
    {
        self.samples[self.samples.len() - 1]
    }

    /// The full ordered sample sequence, as a fresh vector.
    pub fn to_samples(&self) -> (r: Vec<TrajectorySample>)
        ensures
            r@ == self@,
    {
        let mut out: Vec<TrajectorySample> = Vec::new();
        let mut i: usize = 0;
        while i < self.samples.len()
            invariant
                i <= self.samples@.len(),
                out@ == self.samples@.take(i as int),
            decreases self.samples@.len() - i,
        {
            out.push(self.samples[i]);
            i = i + 1;
            proof {
                assert(out@ =~= self.samples@.take(i as int));
            }
        }
        proof {
            assert(out@ =~= self.samples@);
        }
        out
    }

    /// Append a sample; its time must lie after every recorded time.
    pub fn push(&mut self, t: i128, state: StateVector)
        requires
            old(self).wf(),
            old(self)@.len() > 0 ==> old(self)@.last().t < t,
        ensures
            final(self)@ == old(self)@.push(TrajectorySample { t, state }),
            final(self).wf(),
    {
        self.samples.push(TrajectorySample { t, state });
        proof {
            assert forall|i: int, j: int| 0 <= i < j < self@.len() implies self@[i].t
                < self@[j].t by {
                if j < self@.len() - 1 {
                    assert(old(self)@[i].t < old(self)@[j].t);
                } else if i < self@.len() - 1 {
                    if i < old(self)@.len() - 1 {
                        assert(old(self)@[i].t < old(self)@.last().t);
                    }
                }
            }
        }
    }
}

} // verus!
