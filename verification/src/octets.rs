//! Octets sequences.
//!
//! An octets sequence, or just octets for short, is a variable length
//! sequence of bytes. Any type that implements [`AsOctets`] can serve as
//! octets. The trait [`Octets`] adds taking a sub-sequence, called a
//! 'range', out of the octets in the cheapest way possible. For most types,
//! ranges will be octet slices `&[u8]` but some shareable types allow ranges
//! to be owned values, thus avoiding the lifetime limitations a slice would
//! bring. Therefore, `Octets` names the type of a range as an associated
//! type.

use std::borrow::Cow;
use std::cmp::Ordering;
use std::convert::Infallible;
use vstd::prelude::*;
use vstd::slice::{slice_subrange, slice_to_vec};
use vstd::utf8::encode_utf8;

verus! {

//------------ AsOctets ------------------------------------------------------

/// A type that holds a sequence of octets and can show it as one slice.
pub trait AsOctets {
    /// The octets the value holds, in order.
    spec fn content(&self) -> Seq<u8>;

    /// Returns the entire content as an octets slice.
    fn as_slice(&self) -> (res: &[u8])
        ensures
            res@ == self.content(),
    ;
}

impl AsOctets for [u8] {
    open spec fn content(&self) -> Seq<u8> {
        self@
    }

    fn as_slice(&self) -> (res: &[u8]) {
        self
    }
}

impl<'t, T: AsOctets + ?Sized> AsOctets for &'t T {
    open spec fn content(&self) -> Seq<u8> {
        (**self).content()
    }

    fn as_slice(&self) -> (res: &[u8]) {
        (**self).as_slice()
    }
}

impl<const N: usize> AsOctets for [u8; N] {
    open spec fn content(&self) -> Seq<u8> {
        self@
    }

    fn as_slice(&self) -> (res: &[u8]) {
        self
    }
}

impl AsOctets for Vec<u8> {
    open spec fn content(&self) -> Seq<u8> {
        self@
    }

    fn as_slice(&self) -> (res: &[u8]) {
        Vec::as_slice(self)
    }
}

impl AsOctets for str {
    /// The octets of a string slice are its UTF-8 encoding.
    open spec fn content(&self) -> Seq<u8> {
        encode_utf8(self@)
    }

    fn as_slice(&self) -> (res: &[u8]) {
        self.as_bytes()
    }
}

impl<'c> AsOctets for Cow<'c, str> {
    /// The octets of a string are its UTF-8 encoding.
    open spec fn content(&self) -> Seq<u8> {
        encode_utf8(self@)
    }

    fn as_slice(&self) -> (res: &[u8]) {
        match self {
            Cow::Borrowed(slice) => slice.as_bytes(),
            Cow::Owned(string) => string.as_str().as_bytes(),
        }
    }
}

impl AsOctets for String {
    /// The octets of a string are its UTF-8 encoding.
    open spec fn content(&self) -> Seq<u8> {
        encode_utf8(self@)
    }

    fn as_slice(&self) -> (res: &[u8]) {
        self.as_str().as_bytes()
    }
}

impl<'c> AsOctets for Cow<'c, [u8]> {
    open spec fn content(&self) -> Seq<u8> {
        self@
    }

    fn as_slice(&self) -> (res: &[u8]) {
        match self {
            Cow::Borrowed(slice) => slice,
            Cow::Owned(vec) => Vec::as_slice(vec),
        }
    }
}

//------------ Octets --------------------------------------------------------

/// A type representing an octets sequence.
///
/// The primary purpose of the trait is to allow access to a sub-sequence,
/// called a 'range.' The type of this range is given via the `Range`
/// associated type. For most types it will be a `&[u8]` with a lifetime
/// equal to that of a reference. Only if an owned range can be created
/// cheaply, it should be that type.
pub trait Octets<'a>: AsOctets {
    /// The type of a range of the sequence borrowed for `'a`.
    type Range: AsOctets;

    /// Returns the range of the sequence from `start` up to, but not
    /// including, `end`.
    ///
    /// The bounds have to lie within the sequence and in order. It is upon
    /// the caller to make sure of that before the call.
    fn range(&'a self, start: usize, end: usize) -> (res: Self::Range)
        requires
            start <= end <= self.content().len(),
        ensures
            res.content() == self.content().subrange(start as int, end as int),
    ;
}

impl<'a> Octets<'a> for [u8] {
    type Range = &'a [u8];

    fn range(&'a self, start: usize, end: usize) -> (res: &'a [u8]) {
        slice_subrange(self, start, end)
    }
}

impl<'a, 't, T: Octets<'a> + ?Sized> Octets<'a> for &'t T {
    type Range = T::Range;

    fn range(&'a self, start: usize, end: usize) -> (res: T::Range) {
        (**self).range(start, end)
    }
}

impl<'a, const N: usize> Octets<'a> for [u8; N] {
    type Range = &'a [u8];

    fn range(&'a self, start: usize, end: usize) -> (res: &'a [u8]) {
        slice_subrange(self, start, end)
    }
}

impl<'a> Octets<'a> for Vec<u8> {
    type Range = &'a [u8];

    fn range(&'a self, start: usize, end: usize) -> (res: &'a [u8]) {
        slice_subrange(Vec::as_slice(self), start, end)
    }
}

impl<'a, 'c> Octets<'a> for Cow<'c, [u8]> {
    type Range = &'a [u8];

    fn range(&'a self, start: usize, end: usize) -> (res: &'a [u8]) {
        slice_subrange(self.as_slice(), start, end)
    }
}

//------------ Comparing octets ----------------------------------------------

/// The number of octets at their beginning in which two sequences agree.
pub open spec fn common_prefix(left: Seq<u8>, right: Seq<u8>) -> int
    decreases left.len(),
{
    if left.len() == 0 || right.len() == 0 || left[0] != right[0] {
        0
    } else {
        1 + common_prefix(left.drop_first(), right.drop_first())
    }
}

/// How two sequences of octets compare to each other.
///
/// The first octet in which they differ decides. If there is none, the
/// shorter sequence is the lesser one.
pub open spec fn octets_order(left: Seq<u8>, right: Seq<u8>) -> Ordering {
    let shared = common_prefix(left, right);
    if shared < left.len() && shared < right.len() {
        if left[shared] < right[shared] {
            Ordering::Less
        } else {
            Ordering::Greater
        }
    } else if left.len() < right.len() {
        Ordering::Less
    } else if left.len() == right.len() {
        Ordering::Equal
    } else {
        Ordering::Greater
    }
}

/// Two sequences agree in all octets before `index` and no further if and
/// only if `index` is the length of what they share at the beginning.
pub proof fn lemma_common_prefix(left: Seq<u8>, right: Seq<u8>, index: int)
    requires
        0 <= index <= left.len(),
        index <= right.len(),
    ensures
        common_prefix(left, right) == index <==> {
            &&& forall|k: int| 0 <= k < index ==> left[k] == right[k]
            &&& index == left.len() || index == right.len() || left[index] != right[index]
        },
        0 <= common_prefix(left, right) <= left.len(),
        common_prefix(left, right) <= right.len(),
    decreases left.len(),
{
    if left.len() == 0 || right.len() == 0 || left[0] != right[0] {
    } else {
        let left_rest = left.drop_first();
        let right_rest = right.drop_first();
        if index > 0 {
            lemma_common_prefix(left_rest, right_rest, index - 1);
            assert(forall|k: int| 0 < k < index ==> left[k] == left_rest[k - 1]);
            assert(forall|k: int| 0 <= k < index - 1 ==> left_rest[k] == left[k + 1]);
        } else {
            lemma_common_prefix(left_rest, right_rest, 0);
        }
    }
}

/// Two sequences agree in all their octets if and only if they are the
/// same.
pub proof fn lemma_common_prefix_of_same(left: Seq<u8>, right: Seq<u8>)
    ensures
        common_prefix(left, right) == left.len() == right.len() <==> left == right,
{
    lemma_common_prefix(left, right, 0);
    if left.len() == right.len() {
        lemma_common_prefix(left, right, left.len() as int);
        if common_prefix(left, right) == left.len() {
            assert(left =~= right);
        }
    }
}

/// Two sequences of octets compare as equal if and only if they are the
/// same.
pub proof fn lemma_equal_order(left: Seq<u8>, right: Seq<u8>)
    ensures
        octets_order(left, right) == Ordering::Equal <==> left == right,
{
    lemma_common_prefix_of_same(left, right);
    lemma_common_prefix(left, right, 0);
}

/// Returns the number of octets at their beginning in which two slices
/// agree.
pub fn shared_prefix_len(left: &[u8], right: &[u8]) -> (res: usize)
    ensures
        res == common_prefix(left@, right@),
{
    let mut i: usize = 0;
    while i < left.len() && i < right.len() && left[i] == right[i]
        invariant
            i <= left@.len(),
            i <= right@.len(),
            forall|k: int| 0 <= k < i ==> left@[k] == right@[k],
        decreases left@.len() - i,
    {
        i += 1;
    }
    proof {
        lemma_common_prefix(left@, right@, i as int);
    }
    i
}

/// Returns whether two slices hold the same octets.
pub fn same_octets(left: &[u8], right: &[u8]) -> (res: bool)
    ensures
        res <==> left@ == right@,
{
    proof {
        lemma_common_prefix_of_same(left@, right@);
    }
    let shared = shared_prefix_len(left, right);
    shared == left.len() && shared == right.len()
}

/// Returns how two slices of octets compare to each other.
pub fn compare_octets(left: &[u8], right: &[u8]) -> (res: Ordering)
    ensures
        res == octets_order(left@, right@),
{
    let shared = shared_prefix_len(left, right);
    if shared < left.len() && shared < right.len() {
        if left[shared] < right[shared] {
            Ordering::Less
        } else {
            Ordering::Greater
        }
    } else if left.len() < right.len() {
        Ordering::Less
    } else if left.len() == right.len() {
        Ordering::Equal
    } else {
        Ordering::Greater
    }
}

//------------ Truncate ------------------------------------------------------

/// What is left of `content` once it has been cut down to `len` octets.
pub open spec fn truncated(content: Seq<u8>, len: usize) -> Seq<u8> {
    if len < content.len() {
        content.take(len as int)
    } else {
        content
    }
}

/// An octet sequence that can be shortened.
pub trait Truncate: AsOctets {
    /// Truncate the sequence to `len` octets.
    ///
    /// If `len` is larger than the length of the sequence, nothing happens.
    fn truncate(&mut self, len: usize)
        ensures
            final(self).content() == truncated(old(self).content(), len),
    ;
}

impl<'a> Truncate for &'a [u8] {
    fn truncate(&mut self, len: usize) {
        if len < self.len() {
            *self = slice_subrange(*self, 0, len);
        }
    }
}

impl<'a> Truncate for Cow<'a, [u8]> {
    fn truncate(&mut self, len: usize) {
        match self {
            Cow::Borrowed(slice) => {
                if len < slice.len() {
                    *slice = slice_subrange(*slice, 0, len);
                }
            },
            Cow::Owned(vec) => vec.truncate(len),
        }
    }
}

impl Truncate for Vec<u8> {
    fn truncate(&mut self, len: usize) {
        Vec::truncate(self, len)
    }
}

//------------ OctetsFrom ----------------------------------------------------

/// Convert a type from one octets type to another.
///
/// This trait allows creating a value of a type that is generic over an
/// octets sequence from an identical value using a different type of octets
/// sequence.
///
/// This is different from just `From` in that the conversion may fail if the
/// source sequence is longer than the space available for the target type.
pub trait OctetsFrom<Source: AsOctets>: AsOctets + Sized {
    /// The error of a conversion that found the source too long.
    type Error;

    /// Whether a value of the type has the space for `len` octets.
    spec fn has_space(len: nat) -> bool;

    /// Performs the conversion.
    fn try_octets_from(source: Source) -> (res: Result<Self, Self::Error>)
        ensures
            res is Ok <==> Self::has_space(source.content().len()),
            res matches Ok(octets) ==> octets.content() == source.content(),
    ;

    /// Performs a conversion that is known to have the space it needs.
    fn octets_from(source: Source) -> (res: Self) where Self::Error: Into<Infallible>
        requires
            Self::has_space(source.content().len()),
        ensures
            res.content() == source.content(),
    {
        match Self::try_octets_from(source) {
            Ok(ok) => ok,
            Err(_) => vstd::pervasive::unreached(),
        }
    }
}

impl<'a, Source: AsOctets + ?Sized> OctetsFrom<&'a Source> for &'a [u8] {
    type Error = Infallible;

    open spec fn has_space(len: nat) -> bool {
        true
    }

    fn try_octets_from(source: &'a Source) -> (res: Result<Self, Self::Error>) {
        let res: &'a [u8] = (*source).as_slice();
        // The content of a reference is the content of what it refers to.
        assert(res.content() == res@);
        Ok(res)
    }
}

impl<Source: AsOctets> OctetsFrom<Source> for Vec<u8> {
    type Error = Infallible;

    open spec fn has_space(len: nat) -> bool {
        true
    }

    fn try_octets_from(source: Source) -> (res: Result<Self, Self::Error>) {
        Ok(slice_to_vec(source.as_slice()))
    }
}

//------------ OctetsInto ----------------------------------------------------

/// Convert a type from one octets type to another.
///
/// This trait allows trading in a value of a type that is generic over an
/// octets sequence for an identical value using a different type of octets
/// sequence.
///
/// This is different from just `Into` in that the conversion may fail if the
/// source sequence is longer than the space available for the target type.
///
/// This trait has a blanket implementation for all pairs of types where
/// `OctetsFrom` has been implemented.
pub trait OctetsInto<Target: OctetsFrom<Self>>: AsOctets + Sized {
    /// The error of a conversion that found the source too long.
    type Error;

    /// Performs the conversion.
    fn try_octets_into(self) -> (res: Result<Target, Self::Error>)
        ensures
            res is Ok <==> Target::has_space(self.content().len()),
            res matches Ok(octets) ==> octets.content() == self.content(),
    ;

    /// Performs a conversion that is known to have the space it needs.
    fn octets_into(self) -> (res: Target) where Self::Error: Into<Infallible>
        requires
            Target::has_space(self.content().len()),
        ensures
            res.content() == self.content(),
    {
        match self.try_octets_into() {
            Ok(ok) => ok,
            Err(_) => vstd::pervasive::unreached(),
        }
    }
}

impl<Source: AsOctets, Target: OctetsFrom<Source>> OctetsInto<Target> for Source {
    type Error = <Target as OctetsFrom<Source>>::Error;

    fn try_octets_into(self) -> (res: Result<Target, Self::Error>) {
        Target::try_octets_from(self)
    }
}

} // verus!
