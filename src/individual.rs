use vstd::prelude::*;

use crate::chromosome::Chromosome;

verus! {

/// What the genetic algorithm breeds: anything with a fitness and a
/// chromosome that can be made again from a chromosome.
pub trait Individual<T>: Sized {
    /// A fresh individual grown from `chromosome`.
    fn create(chromosome: Chromosome<T>) -> Self;

    /// How well the individual did; higher is better.
    fn fitness(&self) -> T;

    /// The individual's chromosome.
    fn chromosome(&self) -> &Chromosome<T>;
}

} // verus!
