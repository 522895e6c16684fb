//! Variable length octet sequences.
//!
//! This crate provides a set of basic traits that allow defining types that
//! are generic over a variable length sequence of octets (or, vulgo: bytes).
//!
//! There are two groups of traits: those that represent behavior of immutable
//! octets sequences are collected in the module [octets] and those for
//! building such sequences are in [builder]. Most traits from these modules
//! are also re-exported at the crate root for convenience.
//!
//! A number of additional modules exist that provide a few helpful things:
//!
//! * The [mod@array] module provides an octets builder backed by an octets
//!   array.
//! * The [parse] module provides a parser that takes data out of an octets
//!   sequence step by step and never goes beyond its end.
//! * The [mod@str] module provides both immutable and buildable string types
//!   that are generic over the octets sequence they wrap.
//! * The [endian] module says which number a sequence of octets stands for.
//! * The [shared] and [small] modules provide the traits for octets
//!   sequences that share their buffer or keep it in place.

pub use self::array::Array;
pub use self::builder::{
    infallible, with_infallible, Collapse, CollapseResult, EmptyBuilder, FromBuilder, IntoBuilder,
    OctetsBuilder, ShortBuf,
};
pub use self::octets::{AsOctets, Octets, OctetsFrom, OctetsInto, Truncate};
pub use self::parse::{FormError, ParseError, Parser, ShortInput};
pub use self::small::SmallOctets;

pub mod array;
pub mod builder;
pub mod endian;
pub mod octets;
pub mod parse;
pub mod shared;
pub mod small;
pub mod str;
