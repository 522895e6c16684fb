//! Octets that are kept in place while they are few.
//!
//! The type [`SmallOctets`] keeps up to 24 octets within the value itself
//! and only moves them to the heap when they become more than that. It is a
//! small vector of the smallvec crate.
//!
//! What the methods of the small vector do is taken on trust from the
//! smallvec crate. Each of them is called in one place only, a function of
//! this module that says what is relied upon.

use crate::builder::{EmptyBuilder, FromBuilder, IntoBuilder, OctetsBuilder};
use crate::octets::{truncated, AsOctets, Octets, OctetsFrom, Truncate};
use std::convert::Infallible;
use vstd::prelude::*;
use vstd::slice::slice_subrange;

verus! {

//------------ What is taken on trust ----------------------------------------

/// A octets vector that doesn't allocate for small sizes.
///
/// This is a `smallvec::SmallVec<[u8; 24]>`. Nothing is known about what it
/// is made of.
#[verifier::external_body]
pub struct SmallOctets {
    octets: smallvec::SmallVec<[u8; 24]>,
}

/// The octets a small octets vector holds, in order.
pub uninterp spec fn small_content(octets: SmallOctets) -> Seq<u8>;

/// Calls `SmallVec::as_slice`, which returns the octets of the vector as a
/// slice.
#[verifier::external_body]
fn small_as_slice(octets: &SmallOctets) -> (res: &[u8])
    ensures
        res@ == small_content(*octets),
{
    octets.octets.as_slice()
}

/// Calls `SmallVec::truncate`, which drops octets from the end for as long
/// as there are more than `len`.
#[verifier::external_body]
fn small_truncate(octets: &mut SmallOctets, len: usize)
    ensures
        small_content(*final(octets)) == truncated(small_content(*old(octets)), len),
{
    octets.octets.truncate(len)
}

/// Calls `SmallVec::extend_from_slice`, which appends the octets of the
/// slice, making room on the heap if need be. What happens if memory runs
/// out is not spoken of.
#[verifier::external_body]
fn small_extend_from_slice(octets: &mut SmallOctets, slice: &[u8])
    ensures
        small_content(*final(octets)) == small_content(*old(octets)) + slice@,
{
    octets.octets.extend_from_slice(slice)
}

/// Calls `SmallVec::new`, which returns an empty vector.
#[verifier::external_body]
fn small_new() -> (res: SmallOctets)
    ensures
        small_content(res) == Seq::<u8>::empty(),
{
    SmallOctets { octets: smallvec::SmallVec::new() }
}

/// Calls `SmallVec::with_capacity`, which returns an empty vector whatever
/// the capacity.
///
/// The function panics if the capacity is more than a vector can ever have.
#[verifier::external_body]
fn small_with_capacity(capacity: usize) -> (res: SmallOctets)
    requires
        capacity <= isize::MAX,
    ensures
        small_content(res) == Seq::<u8>::empty(),
{
    SmallOctets { octets: smallvec::SmallVec::with_capacity(capacity) }
}

/// Calls `SmallVec::from_slice`, which returns a vector with a copy of the
/// octets of the slice.
#[verifier::external_body]
fn small_from_slice(slice: &[u8]) -> (res: SmallOctets)
    ensures
        small_content(res) == slice@,
{
    SmallOctets { octets: smallvec::SmallVec::from_slice(slice) }
}

//------------ SmallOctets ---------------------------------------------------

impl AsOctets for SmallOctets {
    open spec fn content(&self) -> Seq<u8> {
        small_content(*self)
    }

    fn as_slice(&self) -> (res: &[u8]) {
        small_as_slice(self)
    }
}

impl<'a> Octets<'a> for SmallOctets {
    type Range = &'a [u8];

    fn range(&'a self, start: usize, end: usize) -> (res: &'a [u8]) {
        slice_subrange(self.as_slice(), start, end)
    }
}

impl Truncate for SmallOctets {
    fn truncate(&mut self, len: usize) {
        small_truncate(self, len)
    }
}

impl<Source: AsOctets> OctetsFrom<Source> for SmallOctets {
    type Error = Infallible;

    open spec fn has_space(len: nat) -> bool {
        true
    }

    fn try_octets_from(source: Source) -> (res: Result<Self, Self::Error>) {
        Ok(small_from_slice(source.as_slice()))
    }
}

impl OctetsBuilder for SmallOctets {
    type Octets = Self;

    type AppendError = Infallible;

    open spec fn limit() -> Option<nat> {
        None
    }

    fn append_slice(&mut self, slice: &[u8]) -> (res: Result<(), Self::AppendError>) {
        small_extend_from_slice(self, slice);
        Ok(())
    }

    fn freeze(self) -> (res: Self::Octets) {
        self
    }

    fn len(&self) -> (res: usize) {
        self.as_slice().len()
    }

    fn is_empty(&self) -> (res: bool) {
        self.as_slice().len() == 0
    }
}

impl EmptyBuilder for SmallOctets {
    fn empty() -> (res: Self) {
        small_new()
    }

    fn with_capacity(capacity: usize) -> (res: Self) {
        if capacity <= isize::MAX as usize {
            small_with_capacity(capacity)
        } else {
            small_new()
        }
    }
}

impl IntoBuilder for SmallOctets {
    type Builder = Self;

    fn into_builder(self) -> (res: Self::Builder) {
        self
    }
}

impl FromBuilder for SmallOctets {
    type Builder = Self;

    fn from_builder(builder: Self::Builder) -> (res: Self) {
        builder
    }
}

} // verus!
