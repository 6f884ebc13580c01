use vstd::prelude::*;
use vstd::std_specs::cmp::PartialOrdSpec;
use vstd::std_specs::ops::{AddSpec, SubSpec};

use core::cmp::Ordering;
use core::ops::{Add, AddAssign, Sub};
use rand::distributions::uniform::{SampleUniform, UniformFloat, UniformSampler};

use crate::individual::Individual;
use crate::network::zero_of;
use crate::random::draw_weighted;

verus! {

/// `w` is zero or above.
pub open spec fn is_nonneg<T: PartialOrd + From<i8>>(w: T) -> bool {
    zero_of::<T>().partial_cmp_spec(&w) matches Some(Ordering::Less | Ordering::Equal)
}

/// `w` is above zero.
pub open spec fn is_positive<T: PartialOrd + From<i8>>(w: T) -> bool {
    zero_of::<T>().partial_cmp_spec(&w) == Some(Ordering::Less)
}

/// `ws[0] + ws[1] + ... + ws[n - 1]`, added from the first.
pub open spec fn running_total<T: Add<Output = T>>(ws: Seq<T>, n: int) -> T
    decreases n,
{
    if n <= 1 {
        ws[0]
    } else {
        running_total(ws, n - 1).add_spec(ws[n - 1])
    }
}

/// `x - x` is zero: `x` is neither infinite nor undefined.
pub open spec fn is_finite<T: Sub<Output = T> + From<i8>>(x: T) -> bool {
    x.sub_spec(x) == zero_of::<T>()
}

/// Weights for a weighted draw: at least one, none below zero, one above
/// zero, and a total that `T` can hold at every step.
pub open spec fn valid_weights<T: Add<Output = T> + Sub<Output = T> + PartialOrd + From<i8>>(ws: Seq<T>) -> bool {
    &&& ws.len() > 0
    &&& forall|i: int| 0 <= i < ws.len() ==> is_nonneg(#[trigger] ws[i])
    &&& exists|i: int| 0 <= i < ws.len() && is_positive(#[trigger] ws[i])
    &&& forall|i: int| 1 <= i < ws.len() ==> (#[trigger] running_total(ws, i)).add_req(ws[i])
    &&& is_finite(running_total(ws, ws.len() as int))
}

/// Whatever fitness values the members of `population` report, in order,
/// they are valid weights.
pub open spec fn valid_fitness<T, I>(population: Seq<I>) -> bool where
    T: Add<Output = T> + Sub<Output = T> + PartialOrd + From<i8>,
    I: Individual<T>,
 {
    forall|ws: Seq<T>|
        ws.len() == population.len() && (forall|i: int|
            0 <= i < ws.len() ==> call_ensures(I::fitness, (&population[i],), #[trigger] ws[i]))
            ==> valid_weights(ws)
}

/// Picks a parent out of a population.
pub trait SelectionMethod {
    /// A member of `population`.
    fn select<'a, T, R, I>(&self, rng: &mut R, population: &'a [I]) -> (r: &'a I)
        where
            T: Copy + SampleUniform + PartialOrd + for <'b>AddAssign<&'b T> + Default + Add<Output = T> + Sub<Output = T> + From<i8>,
            UniformFloat<T>: UniformSampler,
            R: rand::RngCore + ?Sized,
            I: Individual<T>,
        requires
            population@.len() > 0,
            valid_fitness::<T, I>(population@),
        ensures
            exists|i: int| 0 <= i < population@.len() && population@[i] == *r,
    ;
}

/// Roulette-wheel selection: each member is drawn with chance proportional to
/// its fitness.
pub struct RouletteWheelSelection;

impl RouletteWheelSelection {
    /// The index of one of `weights`, drawn with chance proportional to its
    /// weight; never one of weight zero.
    pub fn choose_index<T, R>(&self, rng: &mut R, weights: &[T]) -> (r: usize)
        where
            T: Copy + SampleUniform + PartialOrd + for <'b>AddAssign<&'b T> + Default + Add<Output = T> + Sub<Output = T> + From<i8>,
            UniformFloat<T>: UniformSampler,
            R: rand::RngCore + ?Sized,
        requires
            valid_weights(weights@),
        ensures
            r < weights@.len(),
            is_positive(weights@[r as int]),
    {
        let mut entries: Vec<(usize, T)> = Vec::new();
        let mut i: usize = 0;
        while i < weights.len()
            invariant
                i <= weights@.len(),
                entries@.len() == i,
                forall|k: int| 0 <= k < i ==> (#[trigger] entries@[k]) == (k as usize, weights@[k]),
            decreases weights@.len() - i,
        {
            entries.push((i, weights[i]));
            i += 1;
        }
        proof {
            assert(crate::random::second_fields(entries@) =~= weights@);
        }
        let k = match draw_weighted(rng, entries.as_slice()) {
            Some(k) => k,
            None => {
                proof {
                    assert(false);
                }
                0
            },
        };
        proof {
            let j = choose|j: int| 0 <= j < entries@.len() && entries@[j].0 == k && is_positive(entries@[j].1);
            assert(0 <= j < entries@.len() && entries@[j].0 == k);
            assert(entries@[j] == (j as usize, weights@[j]));
        }
        k
    }
}

impl SelectionMethod for RouletteWheelSelection {
    fn select<'a, T, R, I>(&self, rng: &mut R, population: &'a [I]) -> (r: &'a I)
        where
            T: Copy + SampleUniform + PartialOrd + for <'b>AddAssign<&'b T> + Default + Add<Output = T> + Sub<Output = T> + From<i8>,
            UniformFloat<T>: UniformSampler,
            R: rand::RngCore + ?Sized,
            I: Individual<T>,
        ensures
            exists|w: T| call_ensures(I::fitness, (r,), w) && is_positive(w),
    {
        let mut weights: Vec<T> = Vec::new();
        let mut i: usize = 0;
        while i < population.len()
            invariant
                i <= population@.len(),
                weights@.len() == i,
                forall|k: int| 0 <= k < i ==> call_ensures(I::fitness, (&population@[k],), #[trigger] weights@[k]),
            decreases population@.len() - i,
        {
            let w = population[i].fitness();
            weights.push(w);
            i += 1;
        }
        let k = self.choose_index(rng, weights.as_slice());
        proof {
            assert(call_ensures(I::fitness, (&population@[k as int],), weights@[k as int]));
        }
        &population[k]
    }
}

} // verus!
