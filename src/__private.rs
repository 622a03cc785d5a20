use vstd::prelude::*;

use core::ops::ControlFlow;

use crate::bool_packing::{bit_at, get_bit_at};

verus! {

/// The declaration-order index of the variant a value is.
#[allow(non_camel_case_types)]
pub trait __GetIndex {
    /// The index of the variant `self` is. Implementations that Verus checks define it; for
    /// any other implementation (code emitted by the derivation, say) it is left unknown.
    closed spec fn variant_index(&self) -> int {
        vstd::pervasive::arbitrary()
    }

    fn get_index(&self) -> (r: usize)
        ensures
            r == self.variant_index(),
    ;
}

/// The classification of variants as good, one bit per variant.
#[allow(non_camel_case_types)]
pub trait __GoodIndex: __GetIndex {
    /// The packed table of good variants; left unknown for implementations that Verus does
    /// not check.
    closed spec fn good_table(&self) -> Seq<u8> {
        vstd::pervasive::arbitrary()
    }

    fn good_indexes(&self) -> (r: &'static [u8])
        ensures
            r@ == self.good_table(),
    ;

    /// Whether `self` is a good variant: the bit of its index in the good table.
    fn is_good(&self) -> (r: bool)
        ensures
            r == (self.variant_index() / 8 < self.good_table().len() && bit_at(
                self.good_table(),
                self.variant_index(),
            )),
    {
        let table = self.good_indexes();
        let index = self.get_index();
        if index / 8 < table.len() {
            get_bit_at(table, index)
        } else {
            false
        }
    }
}

/// The classification of variants as bad, one bit per variant.
#[allow(non_camel_case_types)]
pub trait __BadIndex: __GetIndex {
    /// The packed table of bad variants; left unknown for implementations that Verus does
    /// not check.
    closed spec fn bad_table(&self) -> Seq<u8> {
        vstd::pervasive::arbitrary()
    }

    fn bad_indexes(&self) -> (r: &'static [u8])
        ensures
            r@ == self.bad_table(),
    ;

    /// Whether `self` is a bad variant: the bit of its index in the bad table.
    fn is_bad(&self) -> (r: bool)
        ensures
            r == (self.variant_index() / 8 < self.bad_table().len() && bit_at(
                self.bad_table(),
                self.variant_index(),
            )),
    {
        let table = self.bad_indexes();
        let index = self.get_index();
        if index / 8 < table.len() {
            get_bit_at(table, index)
        } else {
            false
        }
    }
}

impl<T, E> __GetIndex for Result<T, E> {
    open spec fn variant_index(&self) -> int {
        match self {
            Ok{..} => 0,
            Err{..} => 1,
        }
    }

    fn get_index(&self) -> (r: usize) {
        match self {
            Ok{..} => 0,
            Err{..} => 1,
        }
    }
}

impl<T, E> __GoodIndex for Result<T, E> {
    open spec fn good_table(&self) -> Seq<u8> {
        seq![1u8]
    }

    fn good_indexes(&self) -> (r: &'static [u8]) {
        let r: &'static [u8] = &[1u8];
        assert(r@ =~= seq![1u8]);
        r
    }
}

impl<T, E> __BadIndex for Result<T, E> {
    open spec fn bad_table(&self) -> Seq<u8> {
        seq![2u8]
    }

    fn bad_indexes(&self) -> (r: &'static [u8]) {
        let r: &'static [u8] = &[2u8];
        assert(r@ =~= seq![2u8]);
        r
    }
}

impl<T> __GetIndex for Option<T> {
    open spec fn variant_index(&self) -> int {
        match self {
            Some{..} => 0,
            None{..} => 1,
        }
    }

    fn get_index(&self) -> (r: usize) {
        match self {
            Some{..} => 0,
            None{..} => 1,
        }
    }
}

impl<T> __GoodIndex for Option<T> {
    open spec fn good_table(&self) -> Seq<u8> {
        seq![1u8]
    }

    fn good_indexes(&self) -> (r: &'static [u8]) {
        let r: &'static [u8] = &[1u8];
        assert(r@ =~= seq![1u8]);
        r
    }
}

impl<T> __BadIndex for Option<T> {
    open spec fn bad_table(&self) -> Seq<u8> {
        seq![2u8]
    }

    fn bad_indexes(&self) -> (r: &'static [u8]) {
        let r: &'static [u8] = &[2u8];
        assert(r@ =~= seq![2u8]);
        r
    }
}

impl<B, C> __GetIndex for ControlFlow<B, C> {
    open spec fn variant_index(&self) -> int {
        match self {
            ControlFlow::Continue{..} => 0,
            ControlFlow::Break{..} => 1,
        }
    }

    fn get_index(&self) -> (r: usize) {
        match self {
            ControlFlow::Continue{..} => 0,
            ControlFlow::Break{..} => 1,
        }
    }
}

impl<B, C> __GoodIndex for ControlFlow<B, C> {
    open spec fn good_table(&self) -> Seq<u8> {
        seq![1u8]
    }

    fn good_indexes(&self) -> (r: &'static [u8]) {
        let r: &'static [u8] = &[1u8];
        assert(r@ =~= seq![1u8]);
        r
    }
}

impl<B, C> __BadIndex for ControlFlow<B, C> {
    open spec fn bad_table(&self) -> Seq<u8> {
        seq![2u8]
    }

    fn bad_indexes(&self) -> (r: &'static [u8]) {
        let r: &'static [u8] = &[2u8];
        assert(r@ =~= seq![2u8]);
        r
    }
}

} // verus!
