use vstd::prelude::*;

use crate::chromosome::Chromosome;
use crate::random::draw_ratio;

verus! {

/// Combines two parent chromosomes into a child.
pub trait CrossoverMethod {
    /// A child with as many genes as each parent, each gene that of one
    /// parent at the same position.
    fn crossover<T: Copy, R: rand::RngCore + ?Sized>(
        &self,
        rng: &mut R,
        parent_a: &Chromosome<T>,
        parent_b: &Chromosome<T>,
    ) -> (r: Chromosome<T>)
        requires
            parent_a@.len() == parent_b@.len(),
        ensures
            r@.len() == parent_a@.len(),
            forall|i: int| 0 <= i < r@.len() ==> r@[i] == parent_a@[i] || r@[i] == parent_b@[i],
    ;
}

/// Uniform crossover: each gene comes from one parent or the other, on a fair
/// coin flipped for each position.
#[derive(Clone, Copy, Debug)]
pub struct UniformCrossover;

/// The child that takes gene `i` from `a` where `picks[i]` holds, else from `b`.
pub open spec fn picked<T>(picks: Seq<bool>, a: Seq<T>, b: Seq<T>) -> Seq<T> {
    Seq::new(a.len(), |i: int| if picks[i] { a[i] } else { b[i] })
}

impl UniformCrossover {
    /// The child that takes gene `i` from `parent_a` where `picks[i]` holds,
    /// and from `parent_b` where it does not.
    pub fn crossover_by<T: Copy>(&self, picks: &[bool], parent_a: &Chromosome<T>, parent_b: &Chromosome<T>) -> (r:
        Chromosome<T>)
        requires
            parent_a@.len() == parent_b@.len(),
            picks@.len() == parent_a@.len(),
        ensures
            r@ == picked(picks@, parent_a@, parent_b@),
    {
        let mut child: Vec<T> = Vec::new();
        let n = parent_a.len();
        let mut i: usize = 0;
        while i < n
            invariant
                n == parent_a@.len(),
                parent_a@.len() == parent_b@.len(),
                picks@.len() == n,
                i <= n,
                child@ == picked(picks@, parent_a@, parent_b@).subrange(0, i as int),
            decreases n - i,
        {
            let gene = if picks[i] {
                parent_a.index(i)
            } else {
                parent_b.index(i)
            };
            child.push(gene);
            i += 1;
            proof {
                assert(child@ =~= picked(picks@, parent_a@, parent_b@).subrange(0, i as int));
            }
        }
        proof {
            assert(child@ =~= picked(picks@, parent_a@, parent_b@));
        }
        Chromosome::new(child)
    }
}

impl CrossoverMethod for UniformCrossover {
    fn crossover<T: Copy, R: rand::RngCore + ?Sized>(
        &self,
        rng: &mut R,
        parent_a: &Chromosome<T>,
        parent_b: &Chromosome<T>,
    ) -> (r: Chromosome<T>)
        ensures
            parent_a@ == parent_b@ ==> r@ == parent_a@,
    {
        let n = parent_a.len();
        let mut picks: Vec<bool> = Vec::new();
        let mut i: usize = 0;
        while i < n
            invariant
                i <= n,
                picks@.len() == i,
            decreases n - i,
        {
            picks.push(draw_ratio(rng, 1, 2));
            i += 1;
        }
        let r = self.crossover_by(picks.as_slice(), parent_a, parent_b);
        proof {
            if parent_a@ == parent_b@ {
                assert(r@ =~= parent_a@);
            }
        }
        r
    }
}

} // verus!
