//! Octets that share their buffer.
//!
//! The types `Bytes` and `BytesMut` of the bytes crate keep their octets in
//! a buffer that values can share. A range of a `Bytes` value therefore is
//! another `Bytes` value atop the same buffer, which can be kept around
//! after the value it was taken from is gone. A `BytesMut` value is the
//! builder for `Bytes`.
//!
//! What the methods of the two types do is taken on trust from the bytes
//! crate. Each of them is called in one place only, a function of this
//! module that says what is relied upon.

use crate::builder::{EmptyBuilder, FromBuilder, IntoBuilder, OctetsBuilder};
use crate::octets::{truncated, AsOctets, Octets, OctetsFrom, Truncate};
use bytes::{Bytes, BytesMut};
use std::convert::Infallible;
use vstd::prelude::*;

verus! {

//------------ What is taken on trust ----------------------------------------

/// The type `bytes::Bytes`. Nothing is known about what it is made of.
#[verifier::external_type_specification]
#[verifier::external_body]
pub struct ExBytes(bytes::Bytes);

/// The type `bytes::BytesMut`. Nothing is known about what it is made of.
#[verifier::external_type_specification]
#[verifier::external_body]
pub struct ExBytesMut(bytes::BytesMut);

/// The octets a `Bytes` value holds, in order.
pub uninterp spec fn bytes_content(bytes: Bytes) -> Seq<u8>;

/// The octets a `BytesMut` value holds, in order.
pub uninterp spec fn bytes_mut_content(bytes: BytesMut) -> Seq<u8>;

/// Calls `<Bytes as AsRef<[u8]>>::as_ref`, which returns the octets of the
/// value as a slice.
#[verifier::external_body]
fn bytes_as_slice(bytes: &Bytes) -> (res: &[u8])
    ensures
        res@ == bytes_content(*bytes),
{
    bytes.as_ref()
}

/// Calls `Bytes::slice` with the range from `start` up to but excluding
/// `end`, which returns a value for the octets in that range.
///
/// The method panics unless the range is in order and ends within the
/// value.
#[verifier::external_body]
fn bytes_slice(bytes: &Bytes, start: usize, end: usize) -> (res: Bytes)
    requires
        start <= end <= bytes_content(*bytes).len(),
    ensures
        bytes_content(res) == bytes_content(*bytes).subrange(start as int, end as int),
{
    bytes.slice(start..end)
}

/// Calls `Bytes::truncate`, which keeps the first `len` octets and does
/// nothing if there are no more than `len`.
#[verifier::external_body]
fn bytes_truncate(bytes: &mut Bytes, len: usize)
    ensures
        bytes_content(*final(bytes)) == truncated(bytes_content(*old(bytes)), len),
{
    bytes.truncate(len)
}

/// Calls `Bytes::copy_from_slice`, which returns a value with a copy of the
/// octets of the slice.
#[verifier::external_body]
fn bytes_copy_from_slice(slice: &[u8]) -> (res: Bytes)
    ensures
        bytes_content(res) == slice@,
{
    Bytes::copy_from_slice(slice)
}

/// Calls `<BytesMut as AsRef<[u8]>>::as_ref`, which returns the octets of
/// the value as a slice.
#[verifier::external_body]
fn bytes_mut_as_slice(bytes: &BytesMut) -> (res: &[u8])
    ensures
        res@ == bytes_mut_content(*bytes),
{
    bytes.as_ref()
}

/// Calls `BytesMut::extend_from_slice`, which appends the octets of the
/// slice, growing the buffer if need be. What happens if memory runs out is
/// not spoken of.
#[verifier::external_body]
fn bytes_mut_extend_from_slice(bytes: &mut BytesMut, slice: &[u8])
    ensures
        bytes_mut_content(*final(bytes)) == bytes_mut_content(*old(bytes)) + slice@,
{
    bytes.extend_from_slice(slice)
}

/// Calls `BytesMut::truncate`, which keeps the first `len` octets and does
/// nothing if there are no more than `len`.
#[verifier::external_body]
fn bytes_mut_truncate(bytes: &mut BytesMut, len: usize)
    ensures
        bytes_mut_content(*final(bytes)) == truncated(bytes_mut_content(*old(bytes)), len),
{
    bytes.truncate(len)
}

/// Calls `BytesMut::freeze`, which turns the value into a `Bytes` value
/// with the same octets.
#[verifier::external_body]
fn bytes_mut_freeze(bytes: BytesMut) -> (res: Bytes)
    ensures
        bytes_content(res) == bytes_mut_content(bytes),
{
    bytes.freeze()
}

/// Calls `BytesMut::new`, which returns a value of length 0.
#[verifier::external_body]
fn bytes_mut_new() -> (res: BytesMut)
    ensures
        bytes_mut_content(res) == Seq::<u8>::empty(),
{
    BytesMut::new()
}

/// Calls `BytesMut::with_capacity`, which returns a value of length 0
/// whatever the capacity.
///
/// The function panics if the capacity is more than a buffer can ever have.
#[verifier::external_body]
fn bytes_mut_with_capacity(capacity: usize) -> (res: BytesMut)
    requires
        capacity <= isize::MAX,
    ensures
        bytes_mut_content(res) == Seq::<u8>::empty(),
{
    BytesMut::with_capacity(capacity)
}

/// Calls `<BytesMut as From<&[u8]>>::from`, which returns a value with a
/// copy of the octets of the slice.
#[verifier::external_body]
fn bytes_mut_from_slice(slice: &[u8]) -> (res: BytesMut)
    ensures
        bytes_mut_content(res) == slice@,
{
    BytesMut::from(slice)
}

//------------ Bytes ---------------------------------------------------------

impl AsOctets for Bytes {
    open spec fn content(&self) -> Seq<u8> {
        bytes_content(*self)
    }

    fn as_slice(&self) -> (res: &[u8]) {
        bytes_as_slice(self)
    }
}

impl<'a> Octets<'a> for Bytes {
    type Range = Bytes;

    fn range(&'a self, start: usize, end: usize) -> (res: Bytes) {
        bytes_slice(self, start, end)
    }
}

impl Truncate for Bytes {
    fn truncate(&mut self, len: usize) {
        bytes_truncate(self, len)
    }
}

impl<Source: AsOctets> OctetsFrom<Source> for Bytes {
    type Error = Infallible;

    open spec fn has_space(len: nat) -> bool {
        true
    }

    fn try_octets_from(source: Source) -> (res: Result<Self, Self::Error>) {
        Ok(bytes_copy_from_slice(source.as_slice()))
    }
}

impl IntoBuilder for Bytes {
    type Builder = BytesMut;

    fn into_builder(self) -> (res: Self::Builder) {
        bytes_mut_from_slice(self.as_slice())
    }
}

impl FromBuilder for Bytes {
    type Builder = BytesMut;

    fn from_builder(builder: Self::Builder) -> (res: Self) {
        bytes_mut_freeze(builder)
    }
}

//------------ BytesMut ------------------------------------------------------

impl AsOctets for BytesMut {
    open spec fn content(&self) -> Seq<u8> {
        bytes_mut_content(*self)
    }

    fn as_slice(&self) -> (res: &[u8]) {
        bytes_mut_as_slice(self)
    }
}

impl Truncate for BytesMut {
    fn truncate(&mut self, len: usize) {
        bytes_mut_truncate(self, len)
    }
}

impl<Source: AsOctets> OctetsFrom<Source> for BytesMut {
    type Error = Infallible;

    open spec fn has_space(len: nat) -> bool {
        true
    }

    fn try_octets_from(source: Source) -> (res: Result<Self, Self::Error>) {
        Ok(bytes_mut_from_slice(source.as_slice()))
    }
}

impl OctetsBuilder for BytesMut {
    type Octets = Bytes;

    type AppendError = Infallible;

    open spec fn limit() -> Option<nat> {
        None
    }

    fn append_slice(&mut self, slice: &[u8]) -> (res: Result<(), Self::AppendError>) {
        bytes_mut_extend_from_slice(self, slice);
        Ok(())
    }

    fn freeze(self) -> (res: Self::Octets) {
        bytes_mut_freeze(self)
    }

    fn len(&self) -> (res: usize) {
        self.as_slice().len()
    }

    fn is_empty(&self) -> (res: bool) {
        self.as_slice().len() == 0
    }
}

impl EmptyBuilder for BytesMut {
    fn empty() -> (res: Self) {
        bytes_mut_new()
    }

    fn with_capacity(capacity: usize) -> (res: Self) {
        if capacity <= isize::MAX as usize {
            bytes_mut_with_capacity(capacity)
        } else {
            bytes_mut_new()
        }
    }
}

} // verus!
