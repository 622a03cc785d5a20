use vstd::prelude::*;

use core::ops::ControlFlow;

verus! {

/// Marks a type every value of which is either good or bad: it has no neutral variant.
pub trait NoNeutralVariants {}

impl<T, E> NoNeutralVariants for Result<T, E> {}

impl<'a, T, E> NoNeutralVariants for &'a Result<T, E> {}

impl<'a, T, E> NoNeutralVariants for &'a mut Result<T, E> {}

impl<T> NoNeutralVariants for Option<T> {}

impl<'a, T> NoNeutralVariants for &'a Option<T> {}

impl<'a, T> NoNeutralVariants for &'a mut Option<T> {}

impl<B, C> NoNeutralVariants for ControlFlow<B, C> {}

impl<'a, B, C> NoNeutralVariants for &'a ControlFlow<B, C> {}

impl<'a, B, C> NoNeutralVariants for &'a mut ControlFlow<B, C> {}

impl NoNeutralVariants for bool {}

impl NoNeutralVariants for u8 {}

impl NoNeutralVariants for u16 {}

impl NoNeutralVariants for u32 {}

impl NoNeutralVariants for u64 {}

impl NoNeutralVariants for u128 {}

impl NoNeutralVariants for usize {}

impl NoNeutralVariants for i8 {}

impl NoNeutralVariants for i16 {}

impl NoNeutralVariants for i32 {}

impl NoNeutralVariants for i64 {}

impl NoNeutralVariants for i128 {}

impl NoNeutralVariants for isize {}

} // verus!
