use vstd::prelude::*;

use core::ops::ControlFlow;

verus! {

/// A type whose variants all hold a payload of one type `T`, which can be taken out whatever
/// the variant.
pub trait Homogeneous<T> {
    /// The payload of `self`.
    spec fn inner_value(self) -> T;

    /// Takes out the payload, whatever the variant.
    fn get_inner_value(self) -> (r: T)
        ensures
            r == self.inner_value(),
    ;
}

impl<T> Homogeneous<T> for Result<T, T> {
    open spec fn inner_value(self) -> T {
        match self {
            Ok(v) => v,
            Err(v) => v,
        }
    }

    #[inline]
    fn get_inner_value(self) -> (r: T) {
        match self {
            Ok(v) => v,
            Err(v) => v,
        }
    }
}

impl<'a, T> Homogeneous<&'a T> for &'a Result<T, T> {
    open spec fn inner_value(self) -> &'a T {
        match self {
            Ok(v) => v,
            Err(v) => v,
        }
    }

    #[inline]
    fn get_inner_value(self) -> (r: &'a T) {
        match self {
            Ok(v) => v,
            Err(v) => v,
        }
    }
}

impl<T> Homogeneous<T> for ControlFlow<T, T> {
    open spec fn inner_value(self) -> T {
        match self {
            ControlFlow::Continue(v) => v,
            ControlFlow::Break(v) => v,
        }
    }

    #[inline]
    fn get_inner_value(self) -> (r: T) {
        match self {
            ControlFlow::Continue(v) => v,
            ControlFlow::Break(v) => v,
        }
    }
}

impl<'a, T> Homogeneous<&'a T> for &'a ControlFlow<T, T> {
    open spec fn inner_value(self) -> &'a T {
        match self {
            ControlFlow::Continue(v) => v,
            ControlFlow::Break(v) => v,
        }
    }

    #[inline]
    fn get_inner_value(self) -> (r: &'a T) {
        match self {
            ControlFlow::Continue(v) => v,
            ControlFlow::Break(v) => v,
        }
    }
}

impl Homogeneous<()> for Option<()> {
    open spec fn inner_value(self) -> () {
        ()
    }

    #[inline]
    fn get_inner_value(self) -> (r: ()) {
        ()
    }
}

impl Homogeneous<bool> for bool {
    open spec fn inner_value(self) -> bool {
        self
    }

    #[inline]
    fn get_inner_value(self) -> (r: bool) {
        self
    }
}

impl Homogeneous<u8> for u8 {
    open spec fn inner_value(self) -> u8 {
        self
    }

    #[inline]
    fn get_inner_value(self) -> (r: u8) {
        self
    }
}

impl Homogeneous<u16> for u16 {
    open spec fn inner_value(self) -> u16 {
        self
    }

    #[inline]
    fn get_inner_value(self) -> (r: u16) {
        self
    }
}

impl Homogeneous<u32> for u32 {
    open spec fn inner_value(self) -> u32 {
        self
    }

    #[inline]
    fn get_inner_value(self) -> (r: u32) {
        self
    }
}

impl Homogeneous<u64> for u64 {
    open spec fn inner_value(self) -> u64 {
        self
    }

    #[inline]
    fn get_inner_value(self) -> (r: u64) {
        self
    }
}

impl Homogeneous<u128> for u128 {
    open spec fn inner_value(self) -> u128 {
        self
    }

    #[inline]
    fn get_inner_value(self) -> (r: u128) {
        self
    }
}

impl Homogeneous<usize> for usize {
    open spec fn inner_value(self) -> usize {
        self
    }

    #[inline]
    fn get_inner_value(self) -> (r: usize) {
        self
    }
}

impl Homogeneous<i8> for i8 {
    open spec fn inner_value(self) -> i8 {
        self
    }

    #[inline]
    fn get_inner_value(self) -> (r: i8) {
        self
    }
}

impl Homogeneous<i16> for i16 {
    open spec fn inner_value(self) -> i16 {
        self
    }

    #[inline]
    fn get_inner_value(self) -> (r: i16) {
        self
    }
}

impl Homogeneous<i32> for i32 {
    open spec fn inner_value(self) -> i32 {
        self
    }

    #[inline]
    fn get_inner_value(self) -> (r: i32) {
        self
    }
}

impl Homogeneous<i64> for i64 {
    open spec fn inner_value(self) -> i64 {
        self
    }

    #[inline]
    fn get_inner_value(self) -> (r: i64) {
        self
    }
}

impl Homogeneous<i128> for i128 {
    open spec fn inner_value(self) -> i128 {
        self
    }

    #[inline]
    fn get_inner_value(self) -> (r: i128) {
        self
    }
}

impl Homogeneous<isize> for isize {
    open spec fn inner_value(self) -> isize {
        self
    }

    #[inline]
    fn get_inner_value(self) -> (r: isize) {
        self
    }
}

} // verus!
