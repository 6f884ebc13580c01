use vstd::prelude::*;

use core::ops::{Add, AddAssign, Sub};
use rand::distributions::uniform::{SampleUniform, UniformFloat, UniformSampler};

use crate::network::within;
use crate::selection::{is_positive, valid_weights};

verus! {

/// rand's distribution of "standard" values: for a floating-point type,
/// uniform over [0, 1).
#[verifier::external_type_specification]
#[verifier::external_body]
pub struct ExStandard(rand::distributions::Standard);

/// rand's uniform sampler for floating-point types; rand makes it a
/// `UniformSampler` for its two floating-point types alone.
#[verifier::external_type_specification]
#[verifier::external_body]
#[verifier::reject_recursive_types(X)]
pub struct ExUniformFloat<X>(UniformFloat<X>);

/// Relies on rand's `Rng::gen_ratio`: true with chance `numerator / denominator`;
/// always true when the two are equal, always false when `numerator` is 0. It
/// panics when `denominator` is 0 or below `numerator`. A ratio of 1 in 2 draws
/// exactly as `gen_bool` with one half does.
#[verifier::external_body]
pub(crate) fn draw_ratio<R: rand::RngCore + ?Sized>(rng: &mut R, numerator: u32, denominator: u32) -> (r: bool)
    requires
        0 < denominator,
        numerator <= denominator,
    ensures
        numerator == denominator ==> r,
        numerator == 0 ==> !r,
{
    rand::Rng::gen_ratio(rng, numerator, denominator)
}

/// Relies on rand's `Rng::gen_range` over the closed range between `lo` and `hi`,
/// both converted by `From<i8>`. The bound `UniformFloat<T>: UniformSampler`
/// holds for rand's floating-point types alone, and no other crate can make it
/// hold for another type; so `T`'s sampler is rand's `UniformFloat`, the
/// conversion is exact, the range is not empty when `lo <= hi`, and the value
/// drawn lies in it.
#[verifier::external_body]
pub(crate) fn draw_between<R, T>(rng: &mut R, lo: i8, hi: i8) -> (r: T)
    where
        R: rand::RngCore + ?Sized,
        T: SampleUniform + PartialOrd + From<i8>,
        UniformFloat<T>: UniformSampler,
    requires
        lo <= hi,
    ensures
        within(r, lo, hi),
{
    rand::Rng::gen_range(rng, T::from(lo)..=T::from(hi))
}

/// Relies on rand's `Rng::gen` with the `Standard` distribution: for a
/// floating-point type, a value drawn uniformly from [0, 1).
#[verifier::external_body]
pub(crate) fn draw_unit<R, T>(rng: &mut R) -> T
    where
        R: rand::RngCore + ?Sized,
        rand::distributions::Standard: rand::distributions::Distribution<T>,
{
    rand::Rng::gen(rng)
}

/// The second field of each entry, in order.
pub open spec fn second_fields<T>(entries: Seq<(usize, T)>) -> Seq<T> {
    entries.map_values(|e: (usize, T)| e.1)
}

/// Some entry of positive weight has first field `k`.
pub open spec fn drawn_positive<T: PartialOrd + From<i8>>(entries: Seq<(usize, T)>, k: usize) -> bool {
    exists|i: int| 0 <= i < entries.len() && entries[i].0 == k && is_positive(entries[i].1)
}

/// `r` is the first field of an entry of positive weight.
pub open spec fn drawn<T: PartialOrd + From<i8>>(entries: Seq<(usize, T)>, r: Option<usize>) -> bool {
    r matches Some(k) && drawn_positive(entries, k)
}

/// Relies on rand's `SliceRandom::choose_weighted`, weighing each entry by its
/// second field: one entry drawn with chance proportional to its weight, given
/// by its first field. By the bound `UniformFloat<T>: UniformSampler`, `T` is
/// one of rand's floating-point types, whose `Default` is zero, whose `>=`,
/// `+=` and `==` are IEEE's, and whose sampler draws below the total. rand adds the weights up from the first and draws below the
/// total; it panics when that total is not finite, and fails when there is no
/// entry, a weight is below zero or not comparable, or all are zero, which
/// `valid_weights` leaves out. An entry of weight zero is never drawn.
#[verifier::external_body]
pub(crate) fn draw_weighted<R, T>(rng: &mut R, entries: &[(usize, T)]) -> (r: Option<usize>)
    where
        R: rand::RngCore + ?Sized,
        T: Copy + SampleUniform + PartialOrd + for <'b>AddAssign<&'b T> + Default + Add<Output = T> + Sub<Output = T> + From<i8>,
        UniformFloat<T>: UniformSampler,
    requires
        valid_weights(second_fields(entries@)),
    ensures
        drawn(entries@, r),
{
    rand::seq::SliceRandom::choose_weighted(entries, rng, |e| e.1).ok().map(|e| e.0)
}

} // verus!
