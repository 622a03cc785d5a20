//! Good and bad outcomes of user enums: the derivation that groups an enum's marked variants
//! and decides what to emit for it, and the traits that the emitted code implements.

use vstd::prelude::*;

pub mod __private;
pub mod bool_packing;
pub mod declaration;
pub mod derivation;
pub mod grouping;
pub mod traits;

pub use traits::bad::{Bad, FromBad, IntoBad};
pub use traits::exactly_two_distinct_variants::ExactlyTwoDistinctVariants;
pub use traits::good::{FromGood, Good, IntoGood};
pub use traits::homogeneous::Homogeneous;
pub use traits::no_neutral_variants::NoNeutralVariants;
pub use traits::two_states::TwoStates;

verus! {

/// Builds the good value of `Target` that holds `value`.
#[allow(non_snake_case)]
pub fn Good<Target, G>(value: G) -> (r: Target) where Target: FromGood<G>
    ensures
        <Target as traits::good::Good<G>>::good_value(r) == Some(value),
{
    FromGood::from_good(value)
}

/// Builds the bad value of `Target` that holds `value`.
#[allow(non_snake_case)]
pub fn Bad<Target, B>(value: B) -> (r: Target) where Target: FromBad<B>
    ensures
        <Target as traits::bad::Bad<B>>::bad_value(r) == Some(value),
{
    FromBad::from_bad(value)
}

} // verus!
