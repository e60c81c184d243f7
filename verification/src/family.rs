//! Families of spirographs.
//!
//! A [`SpirographFamily`] is an ordered collection of
//! [`Spirograph`]s built once from a count and a per-index builder,
//! sharing one display tag that is opaque to the core (a color, a
//! label).  It samples all members at once and perturbs all members
//! in lock-step.

use vstd::prelude::*;
use crate::complex::Complex;
use crate::spirograph::{Spirograph, curve_re, curve_im, shift_phases, shift_amplitudes};

verus! {

/// An ordered collection of spirographs with one shared display tag.
pub struct SpirographFamily<T> {
    graphs: Vec<Spirograph>,
    /// The shared display tag; the core never reads it.
    pub color: T,
}

impl<T> SpirographFamily<T> {
    /// The member spirographs, in construction order.
    pub closed spec fn members(&self) -> Seq<Spirograph> {
        self.graphs@
    }

    /// The shared display tag, as contracts see it.
    pub closed spec fn tag(&self) -> T {
        self.color
    }

    /// Every member is well-formed.
    pub open spec fn wf(&self) -> bool {
        forall|i: int| 0 <= i < self.members().len() ==> (#[trigger] self.members()[i]).wf()
    }

    /// Builds `count` members by calling `init` on each index in
    /// order, and stores them with the shared tag.
    pub fn new<F: Fn(u32) -> Spirograph>(count: u32, color: T, init: F) -> (r: SpirographFamily<
        T,
    >)
        requires
            forall|i: u32| i < count ==> call_requires(init, (i,)),
        ensures
            r.members().len() == count,
            forall|i: int|
                0 <= i < count ==> call_ensures(init, ((i as u32),), #[trigger] r.members()[i]),
            r.tag() == color,
    {
        let mut graphs: Vec<Spirograph> = Vec::new();
        let mut i: u32 = 0;
        while i < count
            invariant
                i <= count,
                graphs@.len() == i,
                forall|k: u32| k < count ==> call_requires(init, (k,)),
                forall|j: int|
                    0 <= j < i ==> call_ensures(init, ((j as u32),), #[trigger] graphs@[j]),
            decreases count - i,
        {
            let g: Spirograph = init(i);
            graphs.push(g);
            i += 1;
        }
        SpirographFamily { graphs, color }
    }

    /// Samples every member at time `t`, in member order.  The
    /// result always has exactly as many points as the family has
    /// members.
    pub fn sample(&self, t: i64) -> (r: Vec<Complex>)
        requires
            self.wf(),
        ensures
            r@.len() == self.members().len(),
            forall|i: int|
                0 <= i < r@.len() ==> (#[trigger] r@[i]).re == curve_re(
                    self.members()[i]@,
                    t as int,
                    self.members()[i]@.len() as int,
                ) && r@[i].im == curve_im(
                    self.members()[i]@,
                    t as int,
                    self.members()[i]@.len() as int,
                ),
    {
        let n: usize = self.graphs.len();
        let mut points: Vec<Complex> = Vec::new();
        let mut i: usize = 0;
        while i < n
            invariant
                self.wf(),
                i <= n,
                n == self.members().len(),
                points@.len() == i,
                forall|j: int|
                    0 <= j < i ==> (#[trigger] points@[j]).re == curve_re(
                        self.members()[j]@,
                        t as int,
                        self.members()[j]@.len() as int,
                    ) && points@[j].im == curve_im(
                        self.members()[j]@,
                        t as int,
                        self.members()[j]@.len() as int,
                    ),
            decreases n - i,
        {
            let p: Complex = self.graphs[i].sample(t);
            points.push(p);
            i += 1;
        }
        points
    }

    /// Applies the same phase and amplitude offset to every member,
    /// in place: first the phase shift, then the amplitude shift.
    pub fn offset(&mut self, phase: i64, amplitude: i64)
        requires
            forall|i: int, j: int|
                0 <= i < old(self).members().len() && 0 <= j < old(self).members()[i]@.len()
                    ==> i64::MIN <= (#[trigger] old(self).members()[i]@[j]).phase + phase
                    <= i64::MAX && i64::MIN <= old(self).members()[i]@[j].amplitude + amplitude
                    <= i64::MAX,
        ensures
            final(self).members().len() == old(self).members().len(),
            forall|i: int|
                0 <= i < old(self).members().len() ==> (#[trigger] final(self).members()[i])@
                    == shift_amplitudes(
                    shift_phases(old(self).members()[i]@, phase as int),
                    amplitude as int,
                ),
            final(self).tag() == old(self).tag(),
    {
        let n: usize = self.graphs.len();
        let mut i: usize = 0;
        while i < n
            invariant
                i <= n,
                n == self.graphs@.len(),
                self.graphs@.len() == old(self).graphs@.len(),
                self.color == old(self).color,
                forall|k: int, j: int|
                    0 <= k < old(self).members().len() && 0 <= j < old(self).members()[k]@.len()
                        ==> i64::MIN <= (#[trigger] old(self).members()[k]@[j]).phase + phase
                        <= i64::MAX && i64::MIN <= old(self).members()[k]@[j].amplitude + amplitude
                        <= i64::MAX,
                forall|k: int|
                    0 <= k < i ==> (#[trigger] self.graphs@[k])@ == shift_amplitudes(
                        shift_phases(old(self).graphs@[k]@, phase as int),
                        amplitude as int,
                    ),
                forall|k: int| i <= k < n ==> #[trigger] self.graphs@[k] == old(self).graphs@[k],
            decreases n - i,
        {
            let mut g: Spirograph = self.graphs.remove(i);
            proof {
                assert(g == old(self).graphs@[i as int]);
                assert forall|j: int| 0 <= j < g@.len() implies i64::MIN <= (
                #[trigger] g@[j]).phase + phase <= i64::MAX by {
                    assert(old(self).members()[i as int]@[j] == g@[j]);
                }
            }
            g.offset_phase(phase);
            proof {
                assert forall|j: int| 0 <= j < g@.len() implies i64::MIN <= (
                #[trigger] g@[j]).amplitude + amplitude <= i64::MAX by {
                    assert(g@[j] == shift_phases(old(self).graphs@[i as int]@, phase as int)[j]);
                    assert(g@[j].amplitude == old(self).members()[i as int]@[j].amplitude);
                }
            }
            g.offset_amplitude(amplitude);
            self.graphs.insert(i, g);
            i += 1;
        }
    }
}

} // verus!
