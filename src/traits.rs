pub mod bad;
pub mod exactly_two_distinct_variants;
pub mod good;
pub mod homogeneous;
pub mod no_neutral_variants;
pub mod two_states;
