//! Octets Builders
//!
//! Octets builders, i.e., anything that implements the [`OctetsBuilder`]
//! trait, represent a buffer to which octets can be appended.
//! Whether the buffer can grow to accommodate appended data depends on the
//! underlying type.
//!
//! The [`OctetsBuilder`] trait only provides methods to append data to the
//! builder. Implementations may, however, provide more functionality. They
//! do so by implementing additional traits. Conversely, if additional
//! functionality is needed from a builder, this can be expressed by
//! adding trait bounds.
//!
//! Some examples are:
//!
//! * creating an empty octets builder from scratch is provided by the
//!   [`EmptyBuilder`] trait,
//! * looking at already assembled octets is done via [`AsOctets`], and
//! * truncating the sequence of assembled octets happens through
//!   [`Truncate`].
//!
//! [`Truncate`]: crate::octets::Truncate

use crate::octets::AsOctets;
use std::borrow::Cow;
use std::convert::Infallible;
use vstd::prelude::*;
use vstd::slice::slice_to_vec;

verus! {

//------------ OctetsBuilder -------------------------------------------------

/// Whether a buffer that takes at most `limit` octets and holds `len` of
/// them has the room for `more`.
///
/// A buffer without a limit has room for everything.
pub open spec fn has_room(limit: Option<nat>, len: nat, more: nat) -> bool {
    match limit {
        Some(limit) => len + more <= limit,
        None => true,
    }
}

/// A buffer to construct an octet sequence.
///
/// Octet builders represent a buffer of space available for building an
/// octets sequence by appending the contents of octet slices. The buffers
/// may consist of a predefined amount of space or grow as needed.
///
/// Octet builders provide access to the already assembled data through
/// octet slices via their implementations of [`AsOctets`].
pub trait OctetsBuilder: AsOctets {
    /// The type of the octets the builder can be converted into.
    ///
    /// If `Octets` implements [`IntoBuilder`], the `Builder` associated
    /// type of that trait must be `Self`.
    type Octets: AsOctets;

    /// The error type when appending data fails.
    ///
    /// There are exactly two options for this type: Builders where appending
    /// never fails use `Infallible`. Builders with a limited buffer which
    /// may have insufficient space for appending use [`ShortBuf`].
    ///
    /// The trait bound on the type allows upgrading the error to [`ShortBuf`]
    /// even for builders with unlimited space. This way, an error type for
    /// operations that use a builder doesn't need to be generic over the
    /// append error type and can simply use a variant for anything
    /// `Into<ShortBuf>` instead.
    type AppendError: Into<ShortBuf>;

    /// The number of octets that a builder of the type takes at most, if
    /// there is such a number.
    spec fn limit() -> Option<nat>;

    /// Appends the content of a slice to the builder.
    ///
    /// If there isn't enough space available for appending the slice,
    /// returns an error and leaves the builder alone.
    fn append_slice(&mut self, slice: &[u8]) -> (res: Result<(), Self::AppendError>)
        ensures
            res is Ok <==> has_room(Self::limit(), old(self).content().len(), slice@.len()),
            res is Ok ==> final(self).content() == old(self).content() + slice@,
            res is Err ==> final(self).content() == old(self).content(),
    ;

    /// Converts the builder into immutable octets.
    fn freeze(self) -> (res: Self::Octets) where Self: Sized
        ensures
            res.content() == self.content(),
    ;

    /// Returns the length of the already assembled data.
    fn len(&self) -> (res: usize)
        ensures
            res == self.content().len(),
            has_room(Self::limit(), self.content().len(), 0),
    ;

    /// Returns whether the builder is currently empty.
    fn is_empty(&self) -> (res: bool)
        ensures
            res <==> self.content().len() == 0,
    ;
}

impl OctetsBuilder for Vec<u8> {
    type Octets = Self;

    type AppendError = Infallible;

    open spec fn limit() -> Option<nat> {
        None
    }

    fn append_slice(&mut self, slice: &[u8]) -> (res: Result<(), Self::AppendError>) {
        self.extend_from_slice(slice);
        Ok(())
    }

    fn freeze(self) -> (res: Self::Octets) {
        self
    }

    fn len(&self) -> (res: usize) {
        Vec::len(self)
    }

    fn is_empty(&self) -> (res: bool) {
        Vec::len(self) == 0
    }
}

impl<'a> OctetsBuilder for Cow<'a, [u8]> {
    type Octets = Self;

    type AppendError = Infallible;

    open spec fn limit() -> Option<nat> {
        None
    }

    fn append_slice(&mut self, slice: &[u8]) -> (res: Result<(), Self::AppendError>) {
        match self {
            Cow::Owned(vec) => {
                vec.extend_from_slice(slice);
            },
            Cow::Borrowed(borrowed) => {
                let mut vec = slice_to_vec(*borrowed);
                vec.extend_from_slice(slice);
                *self = Cow::Owned(vec);
            },
        }
        Ok(())
    }

    fn freeze(self) -> (res: Self::Octets) {
        self
    }

    fn len(&self) -> (res: usize) {
        self.as_slice().len()
    }

    fn is_empty(&self) -> (res: bool) {
        self.as_slice().len() == 0
    }
}

//------------ EmptyBuilder --------------------------------------------------

/// An octets builder that can be newly created empty.
pub trait EmptyBuilder: AsOctets + Sized {
    /// Creates a new empty octets builder with a default size.
    fn empty() -> (res: Self)
        ensures
            res.content() == Seq::<u8>::empty(),
    ;

    /// Creates a new empty octets builder with a suggested initial size.
    ///
    /// The builder may or may not use the size provided by `capacity` as the
    /// initial size of the buffer. It may very well be possibly that the
    /// builder is never able to grow to this capacity at all. Therefore,
    /// even if you create a builder for your data size via this function,
    /// appending may still fail.
    fn with_capacity(capacity: usize) -> (res: Self)
        ensures
            res.content() == Seq::<u8>::empty(),
    ;
}

impl EmptyBuilder for Vec<u8> {
    fn empty() -> (res: Self) {
        Vec::new()
    }

    fn with_capacity(capacity: usize) -> (res: Self) {
        if capacity <= isize::MAX as usize {
            Vec::with_capacity(capacity)
        } else {
            Vec::new()
        }
    }
}

//------------ IntoBuilder ---------------------------------------------------

/// An octets type that can be converted into an octets builder.
pub trait IntoBuilder: AsOctets + Sized {
    /// The type of octets builder this octets type can be converted into.
    type Builder: OctetsBuilder;

    /// Converts an octets value into an octets builder.
    fn into_builder(self) -> (res: Self::Builder)
        ensures
            res.content() == self.content(),
    ;
}

impl IntoBuilder for Vec<u8> {
    type Builder = Self;

    fn into_builder(self) -> (res: Self::Builder) {
        self
    }
}

impl<'a> IntoBuilder for &'a [u8] {
    type Builder = Vec<u8>;

    fn into_builder(self) -> (res: Self::Builder) {
        slice_to_vec(self)
    }
}

impl<'a> IntoBuilder for Cow<'a, [u8]> {
    type Builder = Self;

    fn into_builder(self) -> (res: Self::Builder) {
        self
    }
}

//------------ FromBuilder ---------------------------------------------------

/// An octets type that can be created from an octets builder.
pub trait FromBuilder: AsOctets + Sized {
    /// The type of builder this octets type can be created from.
    type Builder: OctetsBuilder<Octets = Self>;

    /// Creates an octets value from an octets builder.
    fn from_builder(builder: Self::Builder) -> (res: Self)
        ensures
            res.content() == builder.content(),
    ;
}

impl FromBuilder for Vec<u8> {
    type Builder = Self;

    fn from_builder(builder: Self::Builder) -> (res: Self) {
        builder
    }
}

impl<'a> FromBuilder for Cow<'a, [u8]> {
    type Builder = Self;

    fn from_builder(builder: Self::Builder) -> (res: Self) {
        builder
    }
}

//============ Error Handling ================================================

//------------ ShortBuf ------------------------------------------------------

/// An attempt was made to write beyond the end of a buffer.
///
/// This type is returned as an error by all functions and methods that append
/// data to an [octets builder] when the buffer size of the builder is not
/// sufficient to append the data.
///
/// [octets builder]: OctetsBuilder
#[derive(Clone, Debug, Eq, PartialEq)]
pub struct ShortBuf;

impl ShortBuf {
    /// Returns what the error says.
    pub fn as_str(&self) -> (res: &'static str)
        ensures
            res == "buffer size exceeded",
    {
        "buffer size exceeded"
    }
}

//--- From

impl vstd::std_specs::convert::FromSpecImpl<Infallible> for ShortBuf {
    open spec fn obeys_from_spec() -> bool {
        true
    }

    open spec fn from_spec(never: Infallible) -> Self {
        ShortBuf
    }
}

impl From<Infallible> for ShortBuf {
    fn from(never: Infallible) -> (res: ShortBuf) {
        ShortBuf
    }
}

//------------ Functions for Infallible --------------------------------------

/// Erases an error for infallible results.
///
/// This function can be used in place of the still unstable
/// `Result::into_ok` for operations on infallible octets builders.
///
/// If you perform multiple operations, [`with_infallible`] allows you to
/// use the question mark operator on them before erasing the error.
pub fn infallible<T, E: Into<Infallible>>(src: Result<T, E>) -> (res: T)
    requires
        src is Ok,
    ensures
        src == Ok::<T, E>(res),
{
    match src {
        Ok(ok) => ok,
        Err(_) => vstd::pervasive::unreached(),
    }
}

/// Erases an error for a closure returning an infallible results.
///
/// This function can be used for a sequence of operations on an infallible
/// octets builder. By wrapping these operations in a closure, you can still
/// use the question mark operator rather than having to wrap each individual
/// operation in [`infallible`].
pub fn with_infallible<F, T, E>(op: F) -> (res: T) where
    F: FnOnce() -> Result<T, E>,
    E: Into<Infallible>,

    requires
        op.requires(()),
        forall|src: Result<T, E>| #[trigger] op.ensures((), src) ==> src is Ok,
    ensures
        op.ensures((), Ok::<T, E>(res)),
{
    infallible(op())
}

//------------ CollapseResult ------------------------------------------------

/// A helper trait to allow removing the error case of infallible results.
pub trait CollapseResult<T, E>: Sized {
    /// What a result that is not an error collapses to.
    spec fn collapsed_result(src: Result<T, E>) -> Self;

    /// Returns what a result that is known not to be an error holds.
    fn collapse_result(src: Result<T, E>) -> (res: Self)
        requires
            src is Ok,
        ensures
            res == Self::collapsed_result(src),
    ;
}

// This blanket impl will cover the cases for unlimited buffers, i.e., it
// will allow turning a `Result<T, Infallible>` into just a `T`.
impl<T> CollapseResult<T, Infallible> for T {
    /// A result that cannot be an error collapses to the value it holds.
    open spec fn collapsed_result(src: Result<T, Infallible>) -> Self {
        src->Ok_0
    }

    fn collapse_result(src: Result<T, Infallible>) -> (res: Self)
        ensures
            src == Ok::<T, Infallible>(res),
    {
        match src {
            Ok(t) => t,
            Err(_) => vstd::pervasive::unreached(),
        }
    }
}

/// Another helper trait that acts as the reverse of `CollapseResult`.
///
/// This trait acts for `CollapseResult` as `Into` acts for `From`. It is
/// only implemented via the below blanket impl.
pub trait Collapse<U>: Sized {
    /// Whether the value is a result that is not an error.
    spec fn is_ok(&self) -> bool;

    /// What the value collapses to if it is a result that is not an error.
    spec fn collapsed(self) -> U;

    /// Returns what a result that is known not to be an error collapses to.
    fn collapse(self) -> (res: U)
        requires
            self.is_ok(),
        ensures
            res == self.collapsed(),
    ;
}

impl<T, E, U: CollapseResult<T, E>> Collapse<U> for Result<T, E> {
    open spec fn is_ok(&self) -> bool {
        self is Ok
    }

    /// A result collapses to what the target type makes of it.
    open spec fn collapsed(self) -> U {
        U::collapsed_result(self)
    }

    fn collapse(self) -> (res: U) {
        U::collapse_result(self)
    }
}

} // verus!
