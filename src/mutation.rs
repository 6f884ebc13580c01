use vstd::prelude::*;
use vstd::std_specs::cmp::PartialOrdSpec;
use vstd::std_specs::convert::FromSpec;
use vstd::std_specs::ops::MulSpec;
use vstd::std_specs::ops::AddSpec;

use core::cmp::Ordering;

use crate::chromosome::Chromosome;
use crate::network::{modelled_arithmetic, total_arithmetic};
use crate::random::{draw_ratio, draw_unit};

verus! {

/// Perturbs the genes of a chromosome in place.
pub trait MutationMethod<T: Copy + core::ops::Add<Output = T> + core::ops::Mul<Output = T>> {
    /// The mutation leaves every chromosome as it is.
    spec fn leaves_genes(&self) -> bool;

    /// The arithmetic that mutating `genes` may take is permitted.
    spec fn can_mutate(&self, genes: Seq<T>) -> bool;

    /// Changes genes of `chromosome`, never its length; none where the
    /// mutation leaves genes.
    fn mutate<R: rand::RngCore + ?Sized>(&self, rng: &mut R, chromosome: &mut Chromosome<T>)
        where
            rand::distributions::Standard: rand::distributions::Distribution<T>,
        requires
            self.can_mutate(old(chromosome)@),
        ensures
            final(chromosome)@.len() == old(chromosome)@.len(),
            self.leaves_genes() ==> final(chromosome)@ == old(chromosome)@,
    ;
}

/// A probability, as the fraction `numerator / denominator` with
/// `0 < denominator` and `numerator <= denominator`.
#[derive(Clone, Copy, Debug, PartialEq, Eq, Structural)]
pub struct Chance {
    numerator: u32,
    denominator: u32,
}

impl Chance {
    #[verifier::type_invariant]
    spec fn is_probability(&self) -> bool {
        0 < self.denominator && self.numerator <= self.denominator
    }

    pub closed spec fn numerator_spec(&self) -> u32 {
        self.numerator
    }

    pub closed spec fn denominator_spec(&self) -> u32 {
        self.denominator
    }

    /// The chance `numerator / denominator`; none unless it lies in [0, 1].
    pub fn new(numerator: u32, denominator: u32) -> (r: Option<Chance>)
        ensures
            r is Some <==> (0 < denominator && numerator <= denominator),
            r matches Some(c) ==> c.numerator_spec() == numerator && c.denominator_spec() == denominator,
    {
        if 0 < denominator && numerator <= denominator {
            Some(Chance { numerator, denominator })
        } else {
            None
        }
    }

    pub fn numerator(&self) -> (r: u32)
        ensures
            r == self.numerator_spec(),
    {
        self.numerator
    }

    pub fn denominator(&self) -> (r: u32)
        ensures
            r == self.denominator_spec(),
    {
        self.denominator
    }
}

/// `lo <= v`, by `T`'s comparison.
pub open spec fn at_most<T: PartialOrd>(lo: T, v: T) -> bool {
    lo.partial_cmp_spec(&v) matches Some(Ordering::Less | Ordering::Equal)
}

/// The coefficient lies in [0, 3].
pub open spec fn coeff_in_range<T: PartialOrd + From<i8>>(coeff: T) -> bool {
    at_most(T::from_spec(0i8), coeff) && at_most(coeff, T::from_spec(3i8))
}

/// Gene `g` moved by `sign * coeff * u`, the sign being -1 when `negative`
/// and 1 otherwise.
pub open spec fn perturbed<T: core::ops::Add<Output = T> + core::ops::Mul<Output = T> + From<i8>>(
    g: T,
    negative: bool,
    coeff: T,
    u: T,
) -> T {
    g.add_spec(T::from_spec(if negative { -1i8 } else { 1i8 }).mul_spec(coeff).mul_spec(u))
}

/// The steps of moving gene `g` by `sign * coeff * u` are permitted.
pub open spec fn perturbation_ok<T: core::ops::Add<Output = T> + core::ops::Mul<Output = T> + From<i8>>(
    g: T,
    negative: bool,
    coeff: T,
    u: T,
) -> bool {
    let sign = T::from_spec(if negative { -1i8 } else { 1i8 });
    &&& sign.mul_req(coeff)
    &&& sign.mul_spec(coeff).mul_req(u)
    &&& g.add_req(sign.mul_spec(coeff).mul_spec(u))
}

/// The arithmetic of applying `draws` to `genes` is permitted: all of it where
/// `T`'s arithmetic is total (floating point), or, where it follows its
/// specification (the integers), each step on the values it meets.
pub open spec fn draws_arith_ok<T: core::ops::Add<Output = T> + core::ops::Mul<Output = T> + PartialOrd + From<i8>>(
    genes: Seq<T>,
    draws: Seq<Option<(bool, T)>>,
    coeff: T,
) -> bool {
    total_arithmetic::<T>() || (modelled_arithmetic::<T>() && forall|i: int|
        0 <= i < genes.len() ==> #[trigger] draw_ok(genes[i], draws[i], coeff))
}

/// The steps of applying draw `d` to gene `g` are permitted.
pub open spec fn draw_ok<T: core::ops::Add<Output = T> + core::ops::Mul<Output = T> + From<i8>>(
    g: T,
    d: Option<(bool, T)>,
    coeff: T,
) -> bool {
    match d {
        Some(p) => perturbation_ok(g, p.0, coeff, p.1),
        None => true,
    }
}

/// The arithmetic of any mutation of `genes` is permitted, whatever signs and
/// amounts are drawn.
pub open spec fn mutation_arith_ok<T: core::ops::Add<Output = T> + core::ops::Mul<Output = T> + PartialOrd + From<i8>>(
    genes: Seq<T>,
    coeff: T,
) -> bool {
    total_arithmetic::<T>() || (modelled_arithmetic::<T>() && forall|i: int, negative: bool, u: T|
        0 <= i < genes.len() ==> #[trigger] perturbation_ok(genes[i], negative, coeff, u))
}

/// `genes` after `draws`: gene `i` stays where `draws[i]` is none and is
/// perturbed by the sign and amount that it holds otherwise.
pub open spec fn mutated<T: core::ops::Add<Output = T> + core::ops::Mul<Output = T> + From<i8>>(
    genes: Seq<T>,
    draws: Seq<Option<(bool, T)>>,
    coeff: T,
) -> Seq<T> {
    Seq::new(
        genes.len(),
        |i: int|
            match draws[i] {
                Some(d) => perturbed(genes[i], d.0, coeff, d.1),
                None => genes[i],
            },
    )
}

/// Gaussian-style mutation: each gene, with probability `chance`, moves by
/// `sign * coeff * u`, with a fair random sign and `u` uniform in [0, 1).
#[derive(Clone, Copy, Debug)]
pub struct GaussianMutation<T> {
    chance: Chance,
    coeff: T,
}

impl<T: Copy> GaussianMutation<T> {
    pub closed spec fn chance_spec(&self) -> Chance {
        self.chance
    }

    pub closed spec fn coeff_spec(&self) -> T {
        self.coeff
    }

    pub fn chance(&self) -> (r: Chance)
        ensures
            r == self.chance_spec(),
    {
        self.chance
    }

    pub fn coeff(&self) -> (r: T)
        ensures
            r == self.coeff_spec(),
    {
        self.coeff
    }
}

impl<T: Copy + PartialOrd + From<i8> + core::ops::Add<Output = T> + core::ops::Mul<Output = T>> GaussianMutation<T> {
    /// A mutation that touches each gene with probability `chance` and moves
    /// it by at most `coeff`, which lies in [0, 3].
    pub fn new(chance: Chance, coeff: T) -> (r: Self)
        requires
            coeff_in_range(coeff),
        ensures
            r.chance_spec() == chance,
            r.coeff_spec() == coeff,
    {
        GaussianMutation { chance, coeff }
    }

    /// What a mutation may leave: `draws` holds, for each gene, none where it
    /// was not touched, or its sign (negative or not) and amount `u`. Untouched
    /// genes stay; touched ones move by `sign * coeff * u`; with a chance of
    /// zero none is touched, with a chance of one all are.
    pub open spec fn outcome(&self, before: Seq<T>, after: Seq<T>, draws: Seq<Option<(bool, T)>>) -> bool {
        &&& draws.len() == before.len()
        &&& after.len() == before.len()
        &&& forall|i: int| 0 <= i < draws.len() && draws[i] is None ==> after[i] == before[i]
        &&& modelled_arithmetic::<T>() ==> after == mutated(before, draws, self.coeff_spec())
        &&& self.chance_spec().numerator_spec() == 0 ==> forall|i: int|
            0 <= i < draws.len() ==> draws[i] is None
        &&& self.chance_spec().numerator_spec() == self.chance_spec().denominator_spec() ==> forall|i: int|
            0 <= i < draws.len() ==> draws[i] is Some
    }

    /// Applies `draws` to `chromosome`: gene `i` stays where `draws[i]` is
    /// none, and moves by `sign * coeff * u` where it holds a sign and `u`.
    pub fn mutate_with(&self, chromosome: &mut Chromosome<T>, draws: &[Option<(bool, T)>])
        requires
            draws@.len() == old(chromosome)@.len(),
            draws_arith_ok(old(chromosome)@, draws@, self.coeff_spec()),
        ensures
            final(chromosome)@.len() == old(chromosome)@.len(),
            forall|i: int|
                0 <= i < draws@.len() && draws@[i] is None ==> final(chromosome)@[i] == old(chromosome)@[i],
            modelled_arithmetic::<T>() ==> final(chromosome)@ == mutated(old(chromosome)@, draws@, self.coeff_spec()),
    {
        let ghost before = chromosome@;
        let n = chromosome.len();
        let mut i: usize = 0;
        while i < n
            invariant
                n == before.len(),
                draws@.len() == n,
                chromosome@.len() == n,
                i <= n,
                draws_arith_ok(before, draws@, self.coeff_spec()),
                forall|k: int| i <= k < n ==> chromosome@[k] == before[k],
                forall|k: int| 0 <= k < i && draws@[k] is None ==> chromosome@[k] == before[k],
                modelled_arithmetic::<T>() ==> forall|k: int|
                    0 <= k < i ==> chromosome@[k] == mutated(before, draws@, self.coeff_spec())[k],
            decreases n - i,
        {
            match draws[i] {
                Some((negative, u)) => {
                    let sign = if negative {
                        T::from(-1i8)
                    } else {
                        T::from(1i8)
                    };
                    let gene = chromosome.index(i);
                    proof {
                        if !total_arithmetic::<T>() {
                            assert(draw_ok(before[i as int], draws@[i as int], self.coeff));
                        }
                    }
                    chromosome.set(i, gene + sign * self.coeff * u);
                },
                None => {},
            }
            i += 1;
        }
        proof {
            if modelled_arithmetic::<T>() {
                assert(chromosome@ =~= mutated(before, draws@, self.coeff_spec()));
            }
        }
    }

    /// Mutates `chromosome` in place and gives the draws it made: for each
    /// gene a sign is drawn, then whether it is touched, then, if it is, the
    /// amount `u` from [0, 1).
    pub fn mutate_genes<R: rand::RngCore + ?Sized>(&self, rng: &mut R, chromosome: &mut Chromosome<T>) -> (draws:
        Vec<Option<(bool, T)>>)
        where
            rand::distributions::Standard: rand::distributions::Distribution<T>,
        requires
            mutation_arith_ok(old(chromosome)@, self.coeff_spec()),
        ensures
            self.outcome(old(chromosome)@, final(chromosome)@, draws@),
            self.chance_spec().numerator_spec() == 0 ==> final(chromosome)@ == old(chromosome)@,
    {
        proof {
            use_type_invariant(&self.chance);
        }
        let ghost before = chromosome@;
        let n = chromosome.len();
        let mut draws: Vec<Option<(bool, T)>> = Vec::new();
        let mut i: usize = 0;
        while i < n
            invariant
                n == before.len(),
                chromosome@ == before,
                i <= n,
                draws@.len() == i,
                0 < self.chance_spec().denominator_spec(),
                self.chance_spec().numerator_spec() <= self.chance_spec().denominator_spec(),
                self.chance_spec().numerator_spec() == 0 ==> forall|k: int| 0 <= k < i ==> draws@[k] is None,
                self.chance_spec().numerator_spec() == self.chance_spec().denominator_spec() ==> forall|k: int|
                    0 <= k < i ==> draws@[k] is Some,
            decreases n - i,
        {
            let negative = draw_ratio(rng, 1, 2);
            if draw_ratio(rng, self.chance.numerator, self.chance.denominator) {
                let u: T = draw_unit(rng);
                draws.push(Some((negative, u)));
            } else {
                draws.push(None);
            }
            i += 1;
        }
        proof {
            if !total_arithmetic::<T>() {
                assert forall|k: int| 0 <= k < before.len() implies #[trigger] draw_ok(
                    before[k],
                    draws@[k],
                    self.coeff_spec(),
                ) by {
                    match draws@[k] {
                        Some(p) => {
                            assert(perturbation_ok(before[k], p.0, self.coeff_spec(), p.1));
                        },
                        None => {},
                    }
                }
            }
        }
        self.mutate_with(chromosome, draws.as_slice());
        proof {
            if self.chance_spec().numerator_spec() == 0 {
                assert(chromosome@ =~= before);
            }
        }
        draws
    }
}

impl<T: Copy + PartialOrd + From<i8> + core::ops::Add<Output = T> + core::ops::Mul<Output = T>> MutationMethod<T> for GaussianMutation<T> {
    /// A chance of zero touches no gene.
    open spec fn leaves_genes(&self) -> bool {
        self.chance_spec().numerator_spec() == 0
    }

    open spec fn can_mutate(&self, genes: Seq<T>) -> bool {
        mutation_arith_ok(genes, self.coeff_spec())
    }

    fn mutate<R: rand::RngCore + ?Sized>(&self, rng: &mut R, chromosome: &mut Chromosome<T>)
        where
            rand::distributions::Standard: rand::distributions::Distribution<T>,
        ensures
            exists|draws: Seq<Option<(bool, T)>>| #[trigger] self.outcome(old(chromosome)@, final(chromosome)@, draws),
            self.chance_spec().numerator_spec() == 0 ==> final(chromosome)@ == old(chromosome)@,
    {
        let draws = self.mutate_genes(rng, chromosome);
        proof {
            assert(self.outcome(old(chromosome)@, chromosome@, draws@));
        }
    }
}

} // verus!
