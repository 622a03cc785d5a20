use vstd::prelude::*;

use crate::traits::bad::{Bad, FromBad};
use crate::traits::exactly_two_distinct_variants::ExactlyTwoDistinctVariants;
use crate::traits::good::{FromGood, Good};

verus! {

/// A type with exactly one good and one bad variant, which behaves as `Result<G, B>`.
pub trait TwoStates<G, B>: Good<G> + Bad<B> + FromGood<G> + FromBad<B> + ExactlyTwoDistinctVariants {
    /// The good payload as `Ok`, or else the bad payload as `Err`.
    #[inline]
    fn two_states(self) -> (r: Result<G, B>)
        requires
            self.good_value() is Some || self.bad_value() is Some,
        ensures
            match self.good_value() {
                Some(g) => r == Ok::<G, B>(g),
                None => r == Err::<G, B>(self.bad_value()->0),
            },
    {
        match self.good() {
            Ok(good) => Ok(good),
            Err(value) => match value.bad() {
                Err(bad) => Err(bad),
                Ok(_) => vstd::pervasive::unreached(),
            },
        }
    }
}

impl<T, G, B> TwoStates<G, B> for T where
    T: Good<G> + Bad<B> + FromGood<G> + FromBad<B> + ExactlyTwoDistinctVariants,
 {

}

} // verus!
