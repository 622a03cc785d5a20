use vstd::prelude::*;

use core::ops::ControlFlow;

verus! {

/// A type whose values are either "bad", holding a payload of type `T`, or not.
pub trait Bad<T>: Sized {
    /// The payload of `self` when it is bad. Implementations that Verus checks define it;
    /// for any other implementation (code emitted by the derivation, say) it is left unknown.
    closed spec fn bad_value(self) -> Option<T> {
        vstd::pervasive::arbitrary()
    }

    /// The payload when `self` is bad; `self` back, unchanged, otherwise.
    fn bad(self) -> (r: Result<Self, T>)
        ensures
            match self.bad_value() {
                Some(t) => r == Err::<Self, T>(t),
                None => r == Ok::<Self, T>(self),
            },
    ;
}

/// A type that can be built from a bad payload of type `T`.
pub trait FromBad<T>: Bad<T> {
    /// The bad value holding `bad`.
    fn from_bad(bad: T) -> (r: Self)
        ensures
            r.bad_value() == Some(bad),
    ;
}

/// A payload that can be turned into a bad value of type `T`.
pub trait IntoBad<T> {
    fn into_bad(self) -> T;
}

impl<T, E> Bad<E> for Result<T, E> {
    open spec fn bad_value(self) -> Option<E> {
        match self {
            Err(v) => Some(v),
            _ => None,
        }
    }

    #[inline]
    fn bad(self) -> (r: Result<Self, E>) {
        match self {
            Err(v) => Err(v),
            _ => Ok(self),
        }
    }
}

impl<'a, T, E> Bad<&'a E> for &'a Result<T, E> {
    open spec fn bad_value(self) -> Option<&'a E> {
        match self {
            Err(v) => Some(v),
            _ => None,
        }
    }

    #[inline]
    fn bad(self) -> (r: Result<Self, &'a E>) {
        match self {
            Err(v) => Err(v),
            _ => Ok(self),
        }
    }
}

impl<T, E> FromBad<E> for Result<T, E> {
    #[inline]
    fn from_bad(bad: E) -> (r: Self) {
        Err(bad)
    }
}

impl<B, C> Bad<B> for ControlFlow<B, C> {
    open spec fn bad_value(self) -> Option<B> {
        match self {
            ControlFlow::Break(v) => Some(v),
            _ => None,
        }
    }

    #[inline]
    fn bad(self) -> (r: Result<Self, B>) {
        match self {
            ControlFlow::Break(v) => Err(v),
            _ => Ok(self),
        }
    }
}

impl<'a, B, C> Bad<&'a B> for &'a ControlFlow<B, C> {
    open spec fn bad_value(self) -> Option<&'a B> {
        match self {
            ControlFlow::Break(v) => Some(v),
            _ => None,
        }
    }

    #[inline]
    fn bad(self) -> (r: Result<Self, &'a B>) {
        match self {
            ControlFlow::Break(v) => Err(v),
            _ => Ok(self),
        }
    }
}

impl<B, C> FromBad<B> for ControlFlow<B, C> {
    #[inline]
    fn from_bad(bad: B) -> (r: Self) {
        ControlFlow::Break(bad)
    }
}

impl<T> Bad<()> for Option<T> {
    open spec fn bad_value(self) -> Option<()> {
        match self {
            None => Some(()),
            _ => None,
        }
    }

    #[inline]
    fn bad(self) -> (r: Result<Self, ()>) {
        match self {
            None => Err(()),
            _ => Ok(self),
        }
    }
}

impl<T> FromBad<()> for Option<T> {
    #[inline]
    fn from_bad(bad: ()) -> (r: Self) {
        None
    }
}

impl<T, U: FromBad<T>> IntoBad<U> for T {
    fn into_bad(self) -> (r: U)
        ensures
            <U as Bad<T>>::bad_value(r) == Some(self),
    {
        U::from_bad(self)
    }
}

} // verus!
