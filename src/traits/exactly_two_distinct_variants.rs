use vstd::prelude::*;

use core::ops::ControlFlow;

verus! {

/// Marks a type with exactly one good and one bad variant and no other variant.
///
/// A derived enum has it when its variants are one good and one bad variant, nothing else.
/// It enables [`TwoStates`](crate::traits::two_states::TwoStates).
pub trait ExactlyTwoDistinctVariants {}

impl<T, E> ExactlyTwoDistinctVariants for Result<T, E> {}

impl<'a, T, E> ExactlyTwoDistinctVariants for &'a Result<T, E> {}

impl<'a, T, E> ExactlyTwoDistinctVariants for &'a mut Result<T, E> {}

impl<T> ExactlyTwoDistinctVariants for Option<T> {}

impl<'a, T> ExactlyTwoDistinctVariants for &'a Option<T> {}

impl<'a, T> ExactlyTwoDistinctVariants for &'a mut Option<T> {}

impl<B, C> ExactlyTwoDistinctVariants for ControlFlow<B, C> {}

impl<'a, B, C> ExactlyTwoDistinctVariants for &'a ControlFlow<B, C> {}

impl<'a, B, C> ExactlyTwoDistinctVariants for &'a mut ControlFlow<B, C> {}

} // verus!
