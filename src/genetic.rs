use vstd::prelude::*;

use core::ops::{Add, AddAssign, Mul, Sub};
use rand::distributions::uniform::{SampleUniform, UniformFloat, UniformSampler};

use crate::chromosome::Chromosome;
use crate::crossover::CrossoverMethod;
use crate::individual::Individual;
use crate::mutation::MutationMethod;
use crate::selection::{valid_fitness, SelectionMethod};

verus! {

/// A generational genetic algorithm built from one selection, one crossover
/// and one mutation method.
pub struct GeneticAlgorithm<S, C, M> {
    selection_method: S,
    crossover_method: C,
    mutation_method: M,
}

impl<S, C, M> GeneticAlgorithm<S, C, M> {
    pub closed spec fn selection_spec(&self) -> S {
        self.selection_method
    }

    pub closed spec fn crossover_spec(&self) -> C {
        self.crossover_method
    }

    pub closed spec fn mutation_spec(&self) -> M {
        self.mutation_method
    }
}

impl<S: SelectionMethod, C: CrossoverMethod, M> GeneticAlgorithm<S, C, M> {
    pub fn new(selection_method: S, crossover_method: C, mutation_method: M) -> (r: Self)
        ensures
            r.selection_spec() == selection_method,
            r.crossover_spec() == crossover_method,
            r.mutation_spec() == mutation_method,
    {
        GeneticAlgorithm { selection_method, crossover_method, mutation_method }
    }

    /// The child of two parent chromosomes of one length: crossed over, then
    /// mutated. It has that length too; where the mutation leaves genes, each
    /// gene is one parent's gene at that position, and equal parents give
    /// their chromosome back.
    pub fn breed<T, R>(&self, rng: &mut R, parent_a: &Chromosome<T>, parent_b: &Chromosome<T>) -> (r: Chromosome<T>)
        where
            T: Copy + Add<Output = T> + Mul<Output = T>,
            R: rand::RngCore + ?Sized,
            M: MutationMethod<T>,
            rand::distributions::Standard: rand::distributions::Distribution<T>,
        requires
            parent_a@.len() == parent_b@.len(),
            forall|g: Seq<T>|
                g.len() == parent_a@.len() && (forall|k: int|
                    0 <= k < g.len() ==> g[k] == parent_a@[k] || g[k] == parent_b@[k])
                    ==> #[trigger] self.mutation_spec().can_mutate(g),
        ensures
            r@.len() == parent_a@.len(),
            self.mutation_spec().leaves_genes() ==> forall|g: int|
                0 <= g < r@.len() ==> r@[g] == parent_a@[g] || r@[g] == parent_b@[g],
            self.mutation_spec().leaves_genes() && parent_a@ == parent_b@ ==> r@ == parent_a@,
    {
        let mut child = self.crossover_method.crossover(rng, parent_a, parent_b);
        let ghost crossed = child@;
        proof {
            assert(self.mutation_spec() == self.mutation_method);
            assert(self.mutation_spec().can_mutate(crossed));
        }
        self.mutation_method.mutate(rng, &mut child);
        proof {
            if self.mutation_spec().leaves_genes() && parent_a@ == parent_b@ {
                assert(child@ =~= parent_a@) by {
                    assert(child@ == crossed);
                }
            }
        }
        child
    }

    /// The next generation, as large as `population`. Each member is grown
    /// by `I::create` from a child chromosome bred from the chromosomes of two
    /// selected members: it has their common length, and where the mutation
    /// leaves genes, each gene is one parent's at that position.
    pub fn evolve<T, R, I>(&self, rng: &mut R, population: &[I]) -> (r: Vec<I>)
        where
            T: Copy + SampleUniform + PartialOrd + for <'b>AddAssign<&'b T> + Default + Add<Output = T> + Mul<Output = T> + Sub<Output = T> + From<i8>,
            UniformFloat<T>: UniformSampler,
            R: rand::RngCore + ?Sized,
            I: Individual<T>,
            M: MutationMethod<T>,
            rand::distributions::Standard: rand::distributions::Distribution<T>,
        requires
            population@.len() > 0,
            valid_fitness::<T, I>(population@),
            same_length::<T, I>(population@),
            forall|g: Seq<T>| #[trigger] self.mutation_spec().can_mutate(g),
        ensures
            r@.len() == population@.len(),
            forall|k: int| 0 <= k < r@.len() ==> bred_from::<T, I>(#[trigger] r@[k], population@, self.mutation_spec().leaves_genes()),
    {
        let mut next: Vec<I> = Vec::new();
        let mut i: usize = 0;
        while i < population.len()
            invariant
                i <= population@.len(),
                population@.len() > 0,
                next@.len() == i,
                valid_fitness::<T, I>(population@),
                same_length::<T, I>(population@),
                forall|g: Seq<T>| #[trigger] self.mutation_spec().can_mutate(g),
                forall|k: int| 0 <= k < i ==> bred_from::<T, I>(#[trigger] next@[k], population@, self.mutation_spec().leaves_genes()),
            decreases population@.len() - i,
        {
            let pa = self.selection_method.select(rng, population);
            let pb = self.selection_method.select(rng, population);
            let parent_a = pa.chromosome();
            let parent_b = pb.chromosome();
            let child = self.breed(rng, parent_a, parent_b);
            let ghost c = child;
            let member = I::create(child);
            next.push(member);
            i += 1;
            proof {
                let ia = choose|j: int| 0 <= j < population@.len() && population@[j] == *pa;
                let ib = choose|j: int| 0 <= j < population@.len() && population@[j] == *pb;
                assert(call_ensures(I::create, (c,), next@[i - 1]));
                assert(call_ensures(I::chromosome, (&population@[ia],), parent_a));
                assert(call_ensures(I::chromosome, (&population@[ib],), parent_b));
                assert(bred_from::<T, I>(next@[i - 1], population@, self.mutation_spec().leaves_genes()));
            }
        }
        next
    }
}

/// Whatever chromosomes the members of `population` report have one length.
pub open spec fn same_length<T, I: Individual<T>>(population: Seq<I>) -> bool {
    forall|i: int, j: int, a: &Chromosome<T>, b: &Chromosome<T>|
        0 <= i < population.len() && 0 <= j < population.len() && #[trigger] call_ensures(
            I::chromosome,
            (&population[i],),
            a,
        ) && #[trigger] call_ensures(I::chromosome, (&population[j],), b) ==> a@.len() == b@.len()
}

/// `x` is what `I::create` made of a chromosome `c` as long as the
/// chromosomes `a` and `b` that two members report; where `kept`, each gene of
/// `c` is that of `a` or `b` at the same position, and equal `a` and `b`
/// give `c` equal to them.
pub open spec fn bred_from<T, I: Individual<T>>(x: I, population: Seq<I>, kept: bool) -> bool {
    exists|c: Chromosome<T>, a: &Chromosome<T>, b: &Chromosome<T>, i: int, j: int|
        #[trigger] call_ensures(I::create, (c,), x) && #[trigger] call_ensures(
            I::chromosome,
            (&population[i],),
            a,
        ) && #[trigger] call_ensures(I::chromosome, (&population[j],), b) && 0 <= i < population.len() && 0
            <= j < population.len() && c@.len() == a@.len() && (kept ==> forall|g: int|
            0 <= g < c@.len() ==> c@[g] == a@[g] || c@[g] == b@[g]) && (kept && a@ == b@ ==> c@ == a@)
}

} // verus!
