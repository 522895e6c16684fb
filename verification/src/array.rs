//! A fixed-capacity octets sequence.

use crate::builder::{EmptyBuilder, FromBuilder, IntoBuilder, OctetsBuilder, ShortBuf};
use crate::octets::{
    compare_octets, octets_order, same_octets, AsOctets, Octets, OctetsFrom, Truncate,
};
use std::cmp::Ordering;
use vstd::prelude::*;
use vstd::slice::slice_subrange;

verus! {

//------------ Array ---------------------------------------------------------

/// An octets sequence atop an array of `N` octets.
///
/// The sequence consists of the first octets of the array, as many as the
/// length of the sequence says. The length never exceeds `N`.
#[derive(Debug)]
pub struct Array<const N: usize> {
    octets: [u8; N],
    len: usize,
}

/// A sequence of `len` octets that are all zero.
pub open spec fn zeros(len: nat) -> Seq<u8> {
    Seq::new(len, |i: int| 0u8)
}

impl<const N: usize> View for Array<N> {
    type V = Seq<u8>;

    /// The content of the sequence: the first `len` octets of the array.
    open spec fn view(&self) -> Seq<u8> {
        self.storage().take(self.spec_len() as int)
    }
}

impl<const N: usize> Array<N> {
    /// Whether the length of the sequence lies within the array.
    ///
    /// This holds of every array there is.
    #[verifier::type_invariant]
    pub open spec fn wf(self) -> bool {
        self.spec_len() <= N && self.storage().len() == N
    }

    /// The octets of the whole array, whether they are part of the sequence
    /// or not.
    pub closed spec fn storage(&self) -> Seq<u8> {
        self.octets@
    }

    /// The length of the sequence.
    pub closed spec fn spec_len(&self) -> usize {
        self.len
    }

    /// Creates a new empty value.
    ///
    /// All octets of the array are zero.
    pub fn new() -> (res: Self)
        ensures
            res.wf(),
            res@ == Seq::<u8>::empty(),
            res.storage() == zeros(N as nat),
    {
        let octets = [0u8;N];
        proof {
            vstd::array::axiom_spec_array_fill_for_copy_type::<u8, N>(0u8);
            assert(octets@ =~= zeros(N as nat));
        }
        Array { octets, len: 0 }
    }

    /// Creates an array with the content of `src`.
    ///
    /// Fails if `src` is longer than the array. The octets of the array
    /// behind the content are zero.
    pub fn try_from(src: &[u8]) -> (res: Result<Self, ShortBuf>)
        ensures
            res is Ok <==> src@.len() <= N,
            res matches Ok(array) ==> {
                &&& array.wf()
                &&& array@ == src@
                &&& array.storage() == src@ + zeros((N - src@.len()) as nat)
            },
    {
        let len = src.len();
        if len > N {
            Err(ShortBuf)
        } else {
            let mut res = Self::new();
            res.fill(0, src, len);
            proof {
                assert(res.storage() =~= src@ + zeros((N - len) as nat));
            }
            Ok(res)
        }
    }

    /// Returns an octets slice with the content of the array.
    pub fn as_slice(&self) -> (res: &[u8])
        ensures
            res@ == self@,
    {
        proof {
            use_type_invariant(self);
        }
        slice_subrange(self.octets.as_slice(), 0, self.len)
    }

    /// Returns a mutable octets slice with the content of the array.
    ///
    /// What is written to the slice becomes the content of the array.
    pub fn as_slice_mut(&mut self) -> (res: &mut [u8])
        ensures
            res@ == old(self)@,
            final(self)@ == final(res)@,
            final(self).spec_len() == old(self).spec_len(),
            final(self).storage().skip(old(self).spec_len() as int) == old(
                self,
            ).storage().skip(old(self).spec_len() as int),
    {
        proof {
            use_type_invariant(&*self);
        }
        let len = self.len;
        let whole: &mut [u8] = &mut self.octets;
        let (head, _tail) = whole.split_at_mut(len);
        head
    }

    /// Resizes the array in place updating additional octets.
    ///
    /// The method only changes the length of the contained octets
    /// sequence. If `new_len` is greater than the current length, the
    /// content of the additional octets will be left at whatever they
    /// were.
    ///
    /// Returns an error if `new_len` is larger than the array size.
    pub fn resize_raw(&mut self, new_len: usize) -> (res: Result<(), ShortBuf>)
        ensures
            res is Ok <==> new_len <= N,
            res is Ok ==> final(self).spec_len() == new_len,
            res is Err ==> final(self).spec_len() == old(self).spec_len(),
            final(self).storage() == old(self).storage(),
            res is Ok && new_len <= old(self).spec_len() ==> final(self)@ == old(self)@.take(
                new_len as int,
            ),
            res is Ok && new_len >= old(self).spec_len() ==> final(self)@.take(
                old(self).spec_len() as int,
            ) == old(self)@,
            res is Err ==> final(self)@ == old(self)@,
    {
        proof {
            use_type_invariant(&*self);
        }
        if new_len > N {
            Err(ShortBuf)
        } else {
            self.len = new_len;
            proof {
                if new_len <= old(self).spec_len() {
                    assert(self@ =~= old(self)@.take(new_len as int));
                } else {
                    assert(self@.take(old(self).spec_len() as int) =~= old(self)@);
                }
            }
            Ok(())
        }
    }

    /// Returns the length of the sequence.
    pub fn len(&self) -> (res: usize)
        ensures
            res == self@.len(),
            res == self.spec_len(),
            res <= N,
    {
        proof {
            use_type_invariant(self);
        }
        self.len
    }

    /// Copies `src` into the array from index `at` on, and makes `len` the
    /// length of the sequence.
    fn fill(&mut self, at: usize, src: &[u8], len: usize)
        requires
            at + src@.len() <= N,
            len <= N,
        ensures
            final(self).spec_len() == len,
            final(self).storage() == old(self).storage().take(at as int) + src@ + old(
                self,
            ).storage().skip(at + src@.len()),
    {
        let count = src.len();
        let mut octets = self.octets;
        let mut i: usize = 0;
        while i < count
            invariant
                i <= count == src@.len(),
                at + count <= N,
                octets@.len() == N,
                octets@.take(at as int) == old(self).storage().take(at as int),
                octets@.skip(at + count) == old(self).storage().skip(at + count),
                octets@.subrange(at as int, at + i) == src@.take(i as int),
            decreases count - i,
        {
            octets[at + i] = src[i];
            i += 1;
        }
        proof {
            assert(octets@ =~= octets@.take(at as int) + octets@.subrange(at as int, at + count)
                + octets@.skip(at + count));
        }
        *self = Array { octets, len };
    }
}

//--- Clone

impl<const N: usize> Clone for Array<N> {
    fn clone(&self) -> (res: Self)
        ensures
            res == *self,
    {
        proof {
            use_type_invariant(self);
        }
        Array { octets: self.octets, len: self.len }
    }
}

//--- Default

impl<const N: usize> Default for Array<N> {
    fn default() -> (res: Self)
        ensures
            res.wf(),
            res@ == Seq::<u8>::empty(),
            res.storage() == zeros(N as nat),
    {
        Array::new()
    }
}

//--- PartialEq and Eq

impl<T: AsOctets + ?Sized, const N: usize> vstd::std_specs::cmp::PartialEqSpecImpl<T> for Array<N> {
    open spec fn obeys_eq_spec() -> bool {
        true
    }

    /// An array is equal to whatever holds the same octets.
    open spec fn eq_spec(&self, other: &T) -> bool {
        self@ == other.content()
    }
}

impl<T: AsOctets + ?Sized, const N: usize> PartialEq<T> for Array<N> {
    fn eq(&self, other: &T) -> (res: bool) {
        same_octets(Array::as_slice(self), other.as_slice())
    }
}

impl<const N: usize> Eq for Array<N> {

}

//--- PartialOrd

impl<T: AsOctets + ?Sized, const N: usize> vstd::std_specs::cmp::PartialOrdSpecImpl<T> for Array<N> {
    open spec fn obeys_partial_cmp_spec() -> bool {
        true
    }

    /// Arrays are ordered by their octets: see [`octets_order`].
    open spec fn partial_cmp_spec(&self, other: &T) -> Option<Ordering> {
        Some(octets_order(self@, other.content()))
    }
}

impl<T: AsOctets + ?Sized, const N: usize> PartialOrd<T> for Array<N> {
    fn partial_cmp(&self, other: &T) -> (res: Option<Ordering>) {
        Some(compare_octets(Array::as_slice(self), other.as_slice()))
    }
}

//--- AsOctets and Octets

impl<const N: usize> AsOctets for Array<N> {
    open spec fn content(&self) -> Seq<u8> {
        self@
    }

    fn as_slice(&self) -> (res: &[u8]) {
        Array::as_slice(self)
    }
}

impl<'a, const N: usize> Octets<'a> for Array<N> {
    type Range = &'a [u8];

    fn range(&'a self, start: usize, end: usize) -> (res: &'a [u8]) {
        slice_subrange(Array::as_slice(self), start, end)
    }
}

//--- Truncate

impl<const N: usize> Truncate for Array<N> {
    /// Truncates the sequence and leaves the octets of the array as they
    /// are.
    fn truncate(&mut self, len: usize)
        ensures
            final(self).storage() == old(self).storage(),
    {
        proof {
            use_type_invariant(&*self);
        }
        if len < self.len {
            self.len = len;
        }
    }
}

//--- OctetsBuilder and EmptyBuilder

impl<const N: usize> OctetsBuilder for Array<N> {
    type Octets = Self;

    type AppendError = ShortBuf;

    open spec fn limit() -> Option<nat> {
        Some(N as nat)
    }

    /// Appends the slice if the array has the room, and leaves the octets
    /// of the array behind the new content as they are.
    fn append_slice(&mut self, slice: &[u8]) -> (res: Result<(), Self::AppendError>)
        ensures
            res is Ok ==> final(self).storage() == final(self)@ + old(self).storage().skip(
                old(self).spec_len() + slice@.len(),
            ),
            res is Err ==> final(self).storage() == old(self).storage(),
    {
        proof {
            use_type_invariant(&*self);
        }
        if slice.len() > N - self.len {
            return Err(ShortBuf);
        }
        let start = self.len;
        let end = start + slice.len();
        self.fill(start, slice, end);
        Ok(())
    }

    fn freeze(self) -> (res: Self::Octets) {
        self
    }

    fn len(&self) -> (res: usize) {
        Array::len(self)
    }

    fn is_empty(&self) -> (res: bool) {
        Array::len(self) == 0
    }
}

impl<const N: usize> EmptyBuilder for Array<N> {
    fn empty() -> (res: Self) {
        Array::new()
    }

    fn with_capacity(_capacity: usize) -> (res: Self) {
        Array::new()
    }
}

//--- IntoBuilder, FromBuilder

impl<const N: usize> IntoBuilder for Array<N> {
    type Builder = Self;

    fn into_builder(self) -> (res: Self::Builder) {
        self
    }
}

impl<const N: usize> FromBuilder for Array<N> {
    type Builder = Self;

    fn from_builder(builder: Self::Builder) -> (res: Self) {
        builder
    }
}

//--- OctetsFrom

impl<Source: AsOctets, const N: usize> OctetsFrom<Source> for Array<N> {
    type Error = ShortBuf;

    open spec fn has_space(len: nat) -> bool {
        len <= N
    }

    fn try_octets_from(source: Source) -> (res: Result<Self, Self::Error>) {
        Array::try_from(source.as_slice())
    }
}

} // verus!
