use vstd::prelude::*;

use core::ops::ControlFlow;

verus! {

/// A type whose values are either "good", holding a payload of type `T`, or not.
pub trait Good<T>: Sized {
    /// The payload of `self` when it is good. Implementations that Verus checks define it;
    /// for any other implementation (code emitted by the derivation, say) it is left unknown.
    closed spec fn good_value(self) -> Option<T> {
        vstd::pervasive::arbitrary()
    }

    /// The payload when `self` is good; `self` back, unchanged, otherwise.
    fn good(self) -> (r: Result<T, Self>)
        ensures
            match self.good_value() {
                Some(t) => r == Ok::<T, Self>(t),
                None => r == Err::<T, Self>(self),
            },
    ;
}

/// A type that can be built from a good payload of type `T`.
pub trait FromGood<T>: Good<T> {
    /// The good value holding `good`.
    fn from_good(good: T) -> (r: Self)
        ensures
            r.good_value() == Some(good),
    ;
}

/// A payload that can be turned into a good value of type `T`.
pub trait IntoGood<T> {
    fn into_good(self) -> T;
}

impl<T, E> Good<T> for Result<T, E> {
    open spec fn good_value(self) -> Option<T> {
        match self {
            Ok(v) => Some(v),
            _ => None,
        }
    }

    #[inline]
    fn good(self) -> (r: Result<T, Self>) {
        match self {
            Ok(v) => Ok(v),
            _ => Err(self),
        }
    }
}

impl<'a, T, E> Good<&'a T> for &'a Result<T, E> {
    open spec fn good_value(self) -> Option<&'a T> {
        match self {
            Ok(v) => Some(v),
            _ => None,
        }
    }

    #[inline]
    fn good(self) -> (r: Result<&'a T, Self>) {
        match self {
            Ok(v) => Ok(v),
            _ => Err(self),
        }
    }
}

impl<T, E> FromGood<T> for Result<T, E> {
    #[inline]
    fn from_good(good: T) -> (r: Self) {
        Ok(good)
    }
}

impl<T> Good<T> for Option<T> {
    open spec fn good_value(self) -> Option<T> {
        match self {
            Some(v) => Some(v),
            _ => None,
        }
    }

    #[inline]
    fn good(self) -> (r: Result<T, Self>) {
        match self {
            Some(v) => Ok(v),
            _ => Err(self),
        }
    }
}

impl<'a, T> Good<&'a T> for &'a Option<T> {
    open spec fn good_value(self) -> Option<&'a T> {
        match self {
            Some(v) => Some(v),
            _ => None,
        }
    }

    #[inline]
    fn good(self) -> (r: Result<&'a T, Self>) {
        match self {
            Some(v) => Ok(v),
            _ => Err(self),
        }
    }
}

impl<T> FromGood<T> for Option<T> {
    #[inline]
    fn from_good(good: T) -> (r: Self) {
        Some(good)
    }
}

impl<B, C> Good<C> for ControlFlow<B, C> {
    open spec fn good_value(self) -> Option<C> {
        match self {
            ControlFlow::Continue(v) => Some(v),
            _ => None,
        }
    }

    #[inline]
    fn good(self) -> (r: Result<C, Self>) {
        match self {
            ControlFlow::Continue(v) => Ok(v),
            _ => Err(self),
        }
    }
}

impl<'a, B, C> Good<&'a C> for &'a ControlFlow<B, C> {
    open spec fn good_value(self) -> Option<&'a C> {
        match self {
            ControlFlow::Continue(v) => Some(v),
            _ => None,
        }
    }

    #[inline]
    fn good(self) -> (r: Result<&'a C, Self>) {
        match self {
            ControlFlow::Continue(v) => Ok(v),
            _ => Err(self),
        }
    }
}

impl<B, C> FromGood<C> for ControlFlow<B, C> {
    #[inline]
    fn from_good(good: C) -> (r: Self) {
        ControlFlow::Continue(good)
    }
}

impl<T, U: FromGood<T>> IntoGood<U> for T {
    fn into_good(self) -> (r: U)
        ensures
            <U as Good<T>>::good_value(r) == Some(self),
    {
        U::from_good(self)
    }
}

} // verus!
