use vstd::prelude::*;
use vstd::std_specs::iter::IteratorSpec;

verus! {

/// An ordered, fixed-length sequence of genes.
#[derive(Debug)]
pub struct Chromosome<T> {
    genes: Vec<T>,
}

impl<T> View for Chromosome<T> {
    type V = Seq<T>;

    closed spec fn view(&self) -> Seq<T> {
        self.genes@
    }
}

impl<T: Copy> Chromosome<T> {
    pub fn new(genes: Vec<T>) -> (r: Self)
        ensures
            r@ == genes@,
    {
        Chromosome { genes }
    }

    pub fn len(&self) -> (r: usize)
        ensures
            r == self@.len(),
    {
        self.genes.len()
    }

    /// The genes, in order.
    pub fn iter(&self) -> (r: std::slice::Iter<'_, T>)
        ensures
            r.remaining() == self@.map_values(|g: T| &g),
    {
        let r = self.genes.iter();
        proof {
            assert(r.remaining() =~= self@.map_values(|g: T| &g));
        }
        r
    }

    /// The genes as a slice.
    pub fn as_slice(&self) -> (r: &[T])
        ensures
            r@ == self@,
    {
        self.genes.as_slice()
    }

    /// The gene at `index`.
    pub fn index(&self, index: usize) -> (r: T)
        requires
            index < self@.len(),
        ensures
            r == self@[index as int],
    {
        self.genes[index]
    }

    /// Replaces the gene at `index`, leaving the others as they are.
    pub fn set(&mut self, index: usize, gene: T)
        requires
            index < old(self)@.len(),
        ensures
            final(self)@ == old(self)@.update(index as int, gene),
    {
        self.genes.set(index, gene);
    }

    /// Gives up the chromosome for its genes, in order.
    pub fn into_genes(self) -> (r: Vec<T>)
        ensures
            r@ == self@,
    {
        self.genes
    }
}

impl<T: Copy> Clone for Chromosome<T> {
    fn clone(&self) -> (r: Self)
        ensures
            r@ == self@,
    {
        let mut genes: Vec<T> = Vec::with_capacity(self.genes.len());
        let mut i: usize = 0;
        while i < self.genes.len()
            invariant
                i <= self.genes@.len(),
                genes@ == self.genes@.subrange(0, i as int),
            decreases self.genes@.len() - i,
        {
            genes.push(self.genes[i]);
            i += 1;
            proof {
                assert(genes@ =~= self.genes@.subrange(0, i as int));
            }
        }
        proof {
            assert(genes@ =~= self.genes@);
        }
        Chromosome { genes }
    }
}

} // verus!
