//! Strings atop octet sequences.
//!
//! This module provides the type `Str<Octets>` that guarantees the same
//! invariants, namely that the content is an UTF-8 encoded string, as
//! the standard library's `str` and `String` types but atop a generic
//! octet sequence.

use crate::builder::{has_room, EmptyBuilder, OctetsBuilder};
use crate::octets::{compare_octets, octets_order, same_octets, AsOctets, Truncate};
use std::cmp::Ordering;
use std::convert::Infallible;
use vstd::prelude::*;
use vstd::slice::slice_subrange;
use vstd::utf8::{
    decode_utf8, encode_scalar, encode_utf8, is_char_boundary, is_continuation_byte, valid_utf8,
};

verus! {

//------------ Utf8Error -----------------------------------------------------

/// What is wrong with octets that are not an UTF-8 encoded string.
#[derive(Clone, Copy, Debug, Eq, PartialEq)]
pub struct Utf8Error {
    /// The index in the octets up to which they are valid UTF-8.
    pub valid_up_to: usize,
    /// The number of octets from that index on that cannot be part of any
    /// character, or `None` if the octets end in the middle of a character.
    pub error_len: Option<usize>,
}

/// Whether `index` is the largest index such that the octets before it are
/// valid UTF-8.
pub open spec fn is_valid_up_to(bytes: Seq<u8>, index: int) -> bool {
    &&& 0 <= index <= bytes.len()
    &&& valid_utf8(bytes.take(index))
    &&& forall|longer: int|
        index < longer <= bytes.len() ==> !valid_utf8(#[trigger] bytes.take(longer))
}

/// The largest index such that the octets before it are valid UTF-8.
pub open spec fn valid_up_to(bytes: Seq<u8>) -> int {
    choose|index: int| is_valid_up_to(bytes, index)
}

/// The number of octets that the standard library gives for the sequence of
/// octets that is not valid at the point where `bytes` stops being UTF-8, or
/// `None` if it gives none.
///
/// This is what `Utf8Error::error_len` returns for the error that
/// `core::str::from_utf8` returns for `bytes`.
pub uninterp spec fn utf8_error_len(bytes: Seq<u8>) -> Option<usize>;

/// Whether `err` is what is wrong with `bytes`.
///
/// The invalid sequence that the error speaks of is at least one octet long
/// and lies within `bytes`.
pub open spec fn is_utf8_error(bytes: Seq<u8>, err: Utf8Error) -> bool {
    &&& is_valid_up_to(bytes, err.valid_up_to as int)
    &&& err.error_len == utf8_error_len(bytes)
    &&& err.error_len matches Some(len) ==> 1 <= len && err.valid_up_to + len <= bytes.len()
}

/// Calls `core::str::from_utf8`, which returns the octets as a string slice
/// if they are valid UTF-8, and an error if they are not.
///
/// Of the error, `valid_up_to` and `error_len` are handed on. The first is
/// the largest index such that the octets before it are valid UTF-8. The
/// second, if there is one, is the length of the invalid sequence that
/// starts there.
#[verifier::external_body]
fn str_from_utf8(bytes: &[u8]) -> (res: Result<&str, Utf8Error>)
    ensures
        res is Ok <==> valid_utf8(bytes@),
        res matches Ok(s) ==> encode_utf8(s@) == bytes@,
        res matches Err(err) ==> is_valid_up_to(bytes@, err.valid_up_to as int),
        res matches Err(err) ==> err.error_len == utf8_error_len(bytes@),
        res matches Err(err) ==> (err.error_len matches Some(len) ==> 1 <= len && err.valid_up_to
            + len <= bytes@.len()),
{
    match core::str::from_utf8(bytes) {
        Ok(s) => Ok(s),
        Err(err) => Err(Utf8Error { valid_up_to: err.valid_up_to(), error_len: err.error_len() }),
    }
}

/// There is only one largest index such that the octets before it are valid
/// UTF-8.
pub proof fn lemma_valid_up_to_is_unique(bytes: Seq<u8>, index: int)
    requires
        is_valid_up_to(bytes, index),
    ensures
        valid_up_to(bytes) == index,
        valid_utf8(bytes) <==> index == bytes.len(),
{
    assert(bytes.take(bytes.len() as int) =~= bytes);
}

/// Checks whether octets are valid UTF-8, and if not, says what is wrong.
pub fn check_utf8(bytes: &[u8]) -> (res: Result<(), Utf8Error>)
    ensures
        res is Ok <==> valid_utf8(bytes@),
        res matches Err(err) ==> is_utf8_error(bytes@, err),
{
    match str_from_utf8(bytes) {
        Ok(_) => Ok(()),
        Err(err) => Err(err),
    }
}

//------------ Str -----------------------------------------------------------

/// A fixed length UTF-8 encoded string atop an octet sequence.
#[derive(Debug)]
pub struct Str<Octets: AsOctets>(Octets);

impl<Octets: AsOctets> Str<Octets> {
    /// Whether the octets are valid UTF-8.
    ///
    /// This holds of every string there is.
    #[verifier::type_invariant]
    pub open spec fn wf(self) -> bool {
        valid_utf8(self.content())
    }

    /// The underlying octets sequence.
    pub closed spec fn spec_as_octets(&self) -> &Octets {
        &self.0
    }

    /// The octets of the string.
    pub open spec fn content(&self) -> Seq<u8> {
        self.as_octets().content()
    }

    /// The characters of the string.
    pub open spec fn chars(&self) -> Seq<char> {
        decode_utf8(self.content())
    }

    /// Converts a sequence of octets into a string.
    ///
    /// Fails if the octets are not valid UTF-8. The error then holds the
    /// octets and says what is wrong with them.
    pub fn from_utf8(octets: Octets) -> (res: Result<Self, FromUtf8Error<Octets>>)
        ensures
            res is Ok <==> valid_utf8(octets.content()),
            res matches Ok(string) ==> string.wf() && *string.as_octets() == octets,
            res matches Err(err) ==> err.octets == octets && is_utf8_error(
                octets.content(),
                err.error,
            ),
    {
        match check_utf8(octets.as_slice()) {
            Ok(()) => Ok(Str(octets)),
            Err(error) => Err(FromUtf8Error { octets, error }),
        }
    }

    /// Converts the string into its raw octets.
    pub fn into_octets(self) -> (res: Octets)
        ensures
            res == *self.as_octets(),
            valid_utf8(res.content()),
    {
        proof {
            use_type_invariant(&self);
        }
        self.0
    }

    /// Returns the string as a string slice.
    pub fn as_str(&self) -> (res: &str)
        ensures
            encode_utf8(res@) == self.content(),
            res@ == self.chars(),
    {
        proof {
            use_type_invariant(self);
        }
        match str_from_utf8(self.0.as_slice()) {
            Ok(res) => {
                proof {
                    vstd::utf8::encode_utf8_decode_utf8(res@);
                }
                res
            },
            Err(_) => vstd::pervasive::unreached(),
        }
    }

    /// Returns a reference to the underlying octets sequence.
    #[verifier::when_used_as_spec(spec_as_octets)]
    pub fn as_octets(&self) -> (res: &Octets)
        ensures
            res == self.spec_as_octets(),
            valid_utf8(res.content()),
    {
        proof {
            use_type_invariant(self);
        }
        &self.0
    }

    /// Returns the string's octets as a slice.
    pub fn as_slice(&self) -> (res: &[u8])
        ensures
            res@ == self.content(),
            valid_utf8(res@),
    {
        proof {
            use_type_invariant(self);
        }
        self.0.as_slice()
    }

    /// Returns the length of the string in octets.
    pub fn len(&self) -> (res: usize)
        ensures
            res == self.content().len(),
    {
        self.0.as_slice().len()
    }

    /// Returns whether the string is empty.
    pub fn is_empty(&self) -> (res: bool)
        ensures
            res <==> self.content().len() == 0,
    {
        self.0.as_slice().len() == 0
    }
}

//--- AsOctets

impl<Octets: AsOctets> AsOctets for Str<Octets> {
    open spec fn content(&self) -> Seq<u8> {
        self.as_octets().content()
    }

    fn as_slice(&self) -> (res: &[u8]) {
        Str::as_slice(self)
    }
}

//--- PartialEq and Eq

impl<Octets: AsOctets, Other: AsOctets + ?Sized> vstd::std_specs::cmp::PartialEqSpecImpl<Other> for Str<Octets> {
    open spec fn obeys_eq_spec() -> bool {
        true
    }

    /// A string is equal to whatever holds the same octets. For a string
    /// slice, these are the octets of its UTF-8 encoding.
    open spec fn eq_spec(&self, other: &Other) -> bool {
        self.as_octets().content() == other.content()
    }
}

impl<Octets: AsOctets, Other: AsOctets + ?Sized> PartialEq<Other> for Str<Octets> {
    fn eq(&self, other: &Other) -> (res: bool) {
        same_octets(Str::as_slice(self), other.as_slice())
    }
}

impl<Octets: AsOctets> Eq for Str<Octets> {

}

//--- PartialOrd

impl<Octets: AsOctets, Other: AsOctets + ?Sized> vstd::std_specs::cmp::PartialOrdSpecImpl<Other> for Str<Octets> {
    open spec fn obeys_partial_cmp_spec() -> bool {
        true
    }

    /// Strings are ordered by their octets: see [`octets_order`]. For UTF-8
    /// this is the order of their characters.
    open spec fn partial_cmp_spec(&self, other: &Other) -> Option<Ordering> {
        Some(octets_order(self.as_octets().content(), other.content()))
    }
}

impl<Octets: AsOctets, Other: AsOctets + ?Sized> PartialOrd<Other> for Str<Octets> {
    fn partial_cmp(&self, other: &Other) -> (res: Option<Ordering>) {
        Some(compare_octets(Str::as_slice(self), other.as_slice()))
    }
}

//------------ StrBuilder ----------------------------------------------------

/// A growable, UTF-8 encoded string atop an octets builder.
#[derive(Debug)]
pub struct StrBuilder<Octets: AsOctets>(Octets);

impl<Octets: AsOctets> StrBuilder<Octets> {
    /// Whether the octets are valid UTF-8.
    ///
    /// This holds of every string builder that this type hands out, and the
    /// methods that change a string builder keep it so.
    pub open spec fn wf(&self) -> bool {
        valid_utf8(self.content())
    }

    /// The underlying octets builder.
    pub closed spec fn octets_builder(&self) -> &Octets {
        &self.0
    }

    /// The octets of the string assembled so far.
    pub open spec fn content(&self) -> Seq<u8> {
        self.octets_builder().content()
    }

    /// The characters of the string assembled so far.
    pub open spec fn chars(&self) -> Seq<char> {
        decode_utf8(self.content())
    }

    /// Creates a new, empty string builder.
    pub fn new() -> (res: Self) where Octets: EmptyBuilder
        ensures
            res.wf(),
            res.content() == Seq::<u8>::empty(),
    {
        StrBuilder(Octets::empty())
    }

    /// Creates a new, empty string builder with a given minimum capacity.
    ///
    /// The octets builder underneath is the one that its type creates for
    /// that capacity.
    pub fn with_capacity(capacity: usize) -> (res: Self) where Octets: EmptyBuilder
        ensures
            res.wf(),
            res.content() == Seq::<u8>::empty(),
            call_ensures(Octets::with_capacity, (capacity,), *res.octets_builder()),
    {
        StrBuilder(Octets::with_capacity(capacity))
    }

    /// Creates a new string builder from an octets builder.
    ///
    /// The function expects the contents of the octets builder to contain
    /// a sequence of UTF-8 encoded characters. If it does not, the error
    /// holds the octets builder and says what is wrong with its content.
    pub fn from_utf8(octets: Octets) -> (res: Result<Self, FromUtf8Error<Octets>>)
        ensures
            res is Ok <==> valid_utf8(octets.content()),
            res matches Ok(builder) ==> builder.wf() && *builder.octets_builder() == octets,
            res matches Err(err) ==> err.octets == octets && is_utf8_error(
                octets.content(),
                err.error,
            ),
    {
        match check_utf8(octets.as_slice()) {
            Ok(()) => Ok(StrBuilder(octets)),
            Err(error) => Err(FromUtf8Error { octets, error }),
        }
    }

    /// Converts on octets builder into a string builder.
    ///
    /// If the octets builder contains invalid octets, they are replaced with
    /// `U+FFFD REPLACEMENT CHARACTER`: see [`lossy`] for what comes out.
    ///
    /// If the content is UTF-8 encoded, it will remain unchanged. Otherwise,
    /// a new builder is created and the passed builder is dropped. This
    /// fails if the new builder does not have the room for what comes out.
    pub fn try_from_utf8_lossy(octets: Octets) -> (res: Result<Self, Octets::AppendError>) where
        Octets: OctetsBuilder + EmptyBuilder,

        ensures
            res is Ok <==> valid_utf8(octets.content()) || has_room(
                Octets::limit(),
                0,
                lossy(octets.content()).len(),
            ),
            res matches Ok(builder) ==> builder.wf() && builder.content() == lossy(
                octets.content(),
            ),
            res matches Ok(builder) ==> (valid_utf8(octets.content()) ==> *builder.octets_builder()
                == octets),
    {
        let source = octets.as_slice();
        let mut err = match check_utf8(source) {
            Ok(()) => {
                return Ok(StrBuilder(octets));
            },
            Err(err) => err,
        };
        let mut rest: &[u8] = source;
        let mut res = Octets::with_capacity(source.len());
        loop
            invariant_except_break
                is_utf8_error(rest@, err),
                !valid_utf8(rest@),
                res.content() + lossy(rest@) == lossy(source@),
            invariant
                !valid_utf8(source@),
                source@ == octets.content(),
                valid_utf8(res.content()),
                has_room(Octets::limit(), res.content().len(), 0),
            ensures
                res.content() == lossy(source@),
            decreases rest@.len(),
        {
            proof {
                lemma_replacement_is_utf8();
                vstd::utf8::valid_utf8_concat(res.content(), rest@.take(err.valid_up_to as int));
                vstd::utf8::valid_utf8_concat(
                    res.content() + rest@.take(err.valid_up_to as int),
                    replacement(),
                );
            }
            let ghost before = res.content();
            let ghost old_rest = rest@;
            let next = match append_lossy(&mut res, rest, err) {
                Ok(next) => next,
                Err(err) => {
                    return Err(err);
                },
            };
            rest = slice_subrange(rest, next, rest.len());
            proof {
                assert(res.content() + lossy(rest@) =~= before + lossy(old_rest));
            }
            match check_utf8(rest) {
                Ok(()) => {
                    proof {
                        vstd::utf8::valid_utf8_concat(res.content(), rest@);
                    }
                    match res.append_slice(rest) {
                        Ok(()) => {},
                        Err(err) => {
                            return Err(err);
                        },
                    }
                    break ;
                },
                Err(next_err) => {
                    err = next_err;
                },
            }
        }
        Ok(StrBuilder(res))
    }

    /// Converts an octets builder into a string builder.
    ///
    /// This is a simpler version of
    /// [try_from_utf8_lossy][Self::try_from_utf8_lossy]
    /// for octets builders that take any number of octets.
    pub fn from_utf8_lossy(octets: Octets) -> (res: Self) where
        Octets: OctetsBuilder + EmptyBuilder,
        Octets::AppendError: Into<Infallible>,

        requires
            Octets::limit() is None,
        ensures
            res.wf(),
            res.content() == lossy(octets.content()),
            valid_utf8(octets.content()) ==> *res.octets_builder() == octets,
    {
        match Self::try_from_utf8_lossy(octets) {
            Ok(ok) => ok,
            Err(_) => vstd::pervasive::unreached(),
        }
    }

    /// Converts the string builder into the underlying octets builder.
    pub fn into_octets_builder(self) -> (res: Octets)
        requires
            self.wf(),
        ensures
            res == *self.octets_builder(),
            valid_utf8(res.content()),
    {
        self.0
    }

    /// Converts the string builder into the final str.
    pub fn freeze(self) -> (res: Str<Octets::Octets>) where Octets: OctetsBuilder
        requires
            self.wf(),
        ensures
            res.wf(),
            res.content() == self.content(),
    {
        Str(self.0.freeze())
    }

    /// Returns a slice of the already assembled string.
    pub fn as_str(&self) -> (res: &str)
        requires
            self.wf(),
        ensures
            encode_utf8(res@) == self.content(),
            res@ == self.chars(),
    {
        match str_from_utf8(self.0.as_slice()) {
            Ok(res) => {
                proof {
                    vstd::utf8::encode_utf8_decode_utf8(res@);
                }
                res
            },
            Err(_) => vstd::pervasive::unreached(),
        }
    }

    /// Returns the string's octets as a slice.
    pub fn as_slice(&self) -> (res: &[u8])
        ensures
            res@ == self.content(),
    {
        self.0.as_slice()
    }

    /// Returns the length of the string in octets.
    pub fn len(&self) -> (res: usize)
        ensures
            res == self.content().len(),
    {
        self.0.as_slice().len()
    }

    /// Returns whether the string is empty.
    pub fn is_empty(&self) -> (res: bool)
        ensures
            res <==> self.content().len() == 0,
    {
        self.0.as_slice().len() == 0
    }
}

impl<Octets: AsOctets> StrBuilder<Octets> {
    /// Appends a given string slice onto the end of this builder.
    ///
    /// Fails if the builder has no room for the string slice, and is left
    /// as it is then.
    pub fn try_push_str(&mut self, s: &str) -> (res: Result<(), Octets::AppendError>) where
        Octets: OctetsBuilder,

        requires
            old(self).wf(),
        ensures
            final(self).wf(),
            res is Ok <==> has_room(
                Octets::limit(),
                old(self).content().len(),
                encode_utf8(s@).len(),
            ),
            res is Ok ==> final(self).content() == old(self).content() + encode_utf8(s@),
            res is Err ==> final(self).content() == old(self).content(),
    {
        proof {
            vstd::utf8::encode_utf8_valid_utf8(s@);
            vstd::utf8::valid_utf8_concat(self.content(), encode_utf8(s@));
        }
        self.0.append_slice(s.as_bytes())
    }

    /// Appends a given string slice onto the end of this builder.
    ///
    /// This is for octets builders that take any number of octets.
    pub fn push_str(&mut self, s: &str) where
        Octets: OctetsBuilder,
        Octets::AppendError: Into<Infallible>,

        requires
            old(self).wf(),
            Octets::limit() is None,
        ensures
            final(self).wf(),
            final(self).content() == old(self).content() + encode_utf8(s@),
    {
        match self.try_push_str(s) {
            Ok(()) => {},
            Err(_) => vstd::pervasive::unreached(),
        }
    }

    /// Appends the given character to the end of the builder.
    ///
    /// Fails if the builder has no room for the character, and is left as
    /// it is then.
    pub fn try_push(&mut self, ch: char) -> (res: Result<(), Octets::AppendError>) where
        Octets: OctetsBuilder,

        requires
            old(self).wf(),
        ensures
            final(self).wf(),
            res is Ok <==> has_room(
                Octets::limit(),
                old(self).content().len(),
                encode_scalar(ch as u32).len(),
            ),
            res is Ok ==> final(self).content() == old(self).content() + encode_scalar(ch as u32),
            res is Err ==> final(self).content() == old(self).content(),
    {
        let mut buf = [0u8;4];
        let len = encode_char(ch, &mut buf);
        proof {
            lemma_encoded_char_is_utf8(ch);
            vstd::utf8::valid_utf8_concat(self.content(), encode_scalar(ch as u32));
        }
        self.0.append_slice(slice_subrange(buf.as_slice(), 0, len))
    }

    /// Appends the given character to the end of the builder.
    ///
    /// This is for octets builders that take any number of octets.
    pub fn push(&mut self, ch: char) where
        Octets: OctetsBuilder,
        Octets::AppendError: Into<Infallible>,

        requires
            old(self).wf(),
            Octets::limit() is None,
        ensures
            final(self).wf(),
            final(self).content() == old(self).content() + encode_scalar(ch as u32),
    {
        match self.try_push(ch) {
            Ok(()) => {},
            Err(_) => vstd::pervasive::unreached(),
        }
    }

    /// Returns whether a character starts at the octet with the given index
    /// or the string ends there.
    pub fn is_char_boundary(&self, index: usize) -> (res: bool)
        requires
            self.wf(),
        ensures
            res == is_char_boundary(self.content(), index as int),
    {
        proof {
            vstd::utf8::is_char_boundary_start_end_of_seq(self.content());
        }
        let octets = self.0.as_slice();
        if index == 0 || index == octets.len() {
            true
        } else if index > octets.len() {
            false
        } else {
            proof {
                vstd::utf8::is_char_boundary_iff_not_is_continuation_byte(
                    self.content(),
                    index as int,
                );
            }
            !(0x80 <= octets[index] && octets[index] <= 0xbf)
        }
    }

    /// Truncates the builder, keeping the first `new_len` octets.
    ///
    /// If `new_len` is less than the length of the string, it has to lie on
    /// a `char` boundary: see [`is_char_boundary`][Self::is_char_boundary].
    /// If it is not less, nothing happens.
    pub fn truncate(&mut self, new_len: usize) where Octets: Truncate
        requires
            old(self).wf(),
            new_len < old(self).content().len() ==> is_char_boundary(
                old(self).content(),
                new_len as int,
            ),
        ensures
            final(self).wf(),
            final(self).content() == crate::octets::truncated(old(self).content(), new_len),
    {
        proof {
            if new_len < self.content().len() {
                vstd::utf8::valid_utf8_split(self.content(), new_len as int);
            }
        }
        self.0.truncate(new_len)
    }

    /// Clears the builder into an empty builder.
    pub fn clear(&mut self) where Octets: Truncate
        requires
            old(self).wf(),
        ensures
            final(self).wf(),
            final(self).content() == Seq::<u8>::empty(),
    {
        self.truncate(0);
    }

    /// Removes the last character from the builder and returns it.
    ///
    /// Returns `None` if the builder is empty.
    pub fn pop(&mut self) -> (res: Option<char>) where Octets: Truncate
        requires
            old(self).wf(),
        ensures
            final(self).wf(),
            res is None <==> old(self).content().len() == 0,
            res is None ==> final(self).content() == old(self).content(),
            res matches Some(ch) ==> old(self).content() == final(self).content() + encode_scalar(
                ch as u32,
            ),
    {
        let octets = self.0.as_slice();
        let len = octets.len();
        if len == 0 {
            return None;
        }
        let mut start = len - 1;
        while start > 0 && 0x80 <= octets[start] && octets[start] <= 0xbf
            invariant
                start < len == octets@.len(),
                forall|i: int| start < i < len ==> is_continuation_byte(#[trigger] octets@[i]),
            decreases start,
        {
            start -= 1;
        }
        let last = slice_subrange(octets, start, len);
        proof {
            if start > 0 {
                vstd::utf8::is_char_boundary_iff_not_is_continuation_byte(octets@, start as int);
            }
            vstd::utf8::valid_utf8_split(octets@, start as int);
            lemma_single_char(last@);
        }
        let ch = match str_from_utf8(last) {
            Ok(s) => {
                proof {
                    vstd::utf8::encode_utf8_decode_utf8(s@);
                    assert(encode_utf8(s@) =~= encode_scalar(s@[0] as u32)) by {
                        reveal_with_fuel(encode_utf8, 2);
                    }
                }
                first_char(s)
            },
            Err(_) => vstd::pervasive::unreached(),
        };
        self.0.truncate(start);
        Some(ch)
    }
}

/// Returns the first character of a string slice that is not empty.
fn first_char(s: &str) -> (res: char)
    requires
        s@.len() > 0,
    ensures
        res == s@[0],
{
    let mut chars = s.chars();
    match chars.next() {
        Some(ch) => ch,
        None => vstd::pervasive::unreached(),
    }
}

/// Writes the UTF-8 encoding of a character to the beginning of a buffer
/// and returns its length.
pub fn encode_char(ch: char, buf: &mut [u8; 4]) -> (len: usize)
    ensures
        1 <= len <= 4,
        final(buf)@.take(len as int) == encode_scalar(ch as u32),
{
    let code = ch as u32;
    if code <= 0x7f {
        buf[0] = (code & 0x7F) as u8;
        1
    } else if code <= 0x7ff {
        buf[0] = 0xC0 | ((code >> 6) & 0x1F) as u8;
        buf[1] = 0x80 | (code & 0x3F) as u8;
        2
    } else if code <= 0xffff {
        buf[0] = 0xE0 | ((code >> 12) & 0x0F) as u8;
        buf[1] = 0x80 | ((code >> 6) & 0x3F) as u8;
        buf[2] = 0x80 | (code & 0x3F) as u8;
        3
    } else {
        buf[0] = 0xF0 | ((code >> 18) & 0x7) as u8;
        buf[1] = 0x80 | ((code >> 12) & 0x3F) as u8;
        buf[2] = 0x80 | ((code >> 6) & 0x3F) as u8;
        buf[3] = 0x80 | (code & 0x3F) as u8;
        4
    }
}

/// The UTF-8 encoding of a character is valid UTF-8.
pub proof fn lemma_encoded_char_is_utf8(ch: char)
    ensures
        valid_utf8(encode_scalar(ch as u32)),
        encode_scalar(ch as u32) == encode_utf8(seq![ch]),
{
    let chars = seq![ch];
    assert(encode_utf8(chars) =~= encode_scalar(ch as u32)) by {
        reveal_with_fuel(encode_utf8, 2);
    }
    vstd::utf8::encode_utf8_valid_utf8(chars);
}

/// Valid UTF-8 that has no octet behind its first that starts a character
/// is a single character.
proof fn lemma_single_char(bytes: Seq<u8>)
    requires
        valid_utf8(bytes),
        bytes.len() > 0,
        forall|i: int| 0 < i < bytes.len() ==> is_continuation_byte(#[trigger] bytes[i]),
    ensures
        decode_utf8(bytes).len() == 1,
{
    reveal_with_fuel(valid_utf8, 2);
    reveal_with_fuel(decode_utf8, 2);
    // Whatever followed the first character would have to start with an
    // octet that starts a character.
    let rest = vstd::utf8::pop_first_scalar(bytes);
    assert(rest.len() > 0 ==> rest[0] == bytes[vstd::utf8::length_of_first_scalar(bytes)]);
}

//--- AsOctets

impl<Octets: AsOctets> AsOctets for StrBuilder<Octets> {
    open spec fn content(&self) -> Seq<u8> {
        self.octets_builder().content()
    }

    fn as_slice(&self) -> (res: &[u8]) {
        StrBuilder::as_slice(self)
    }
}

//--- PartialEq and Eq

impl<Octets: AsOctets, Other: AsOctets + ?Sized> vstd::std_specs::cmp::PartialEqSpecImpl<Other> for StrBuilder<Octets> {
    open spec fn obeys_eq_spec() -> bool {
        true
    }

    /// A string builder is equal to whatever holds the same octets. For a
    /// string slice, these are the octets of its UTF-8 encoding.
    open spec fn eq_spec(&self, other: &Other) -> bool {
        self.octets_builder().content() == other.content()
    }
}

impl<Octets: AsOctets, Other: AsOctets + ?Sized> PartialEq<Other> for StrBuilder<Octets> {
    fn eq(&self, other: &Other) -> (res: bool) {
        same_octets(StrBuilder::as_slice(self), other.as_slice())
    }
}

impl<Octets: AsOctets> Eq for StrBuilder<Octets> {

}

//--- PartialOrd

impl<Octets: AsOctets, Other: AsOctets + ?Sized> vstd::std_specs::cmp::PartialOrdSpecImpl<Other> for StrBuilder<Octets> {
    open spec fn obeys_partial_cmp_spec() -> bool {
        true
    }

    /// Strings are ordered by their octets: see [`octets_order`]. For UTF-8
    /// this is the order of their characters.
    open spec fn partial_cmp_spec(&self, other: &Other) -> Option<Ordering> {
        Some(octets_order(self.octets_builder().content(), other.content()))
    }
}

impl<Octets: AsOctets, Other: AsOctets + ?Sized> PartialOrd<Other> for StrBuilder<Octets> {
    fn partial_cmp(&self, other: &Other) -> (res: Option<Ordering>) {
        Some(compare_octets(StrBuilder::as_slice(self), other.as_slice()))
    }
}

//--- Default

impl<Octets: EmptyBuilder> Default for StrBuilder<Octets> {
    fn default() -> (res: Self)
        ensures
            res.wf(),
            res.content() == Seq::<u8>::empty(),
    {
        Self::new()
    }
}

//------------ Replacing what is not UTF-8 -----------------------------------

/// The UTF-8 encoding of `U+FFFD REPLACEMENT CHARACTER`.
pub open spec fn replacement() -> Seq<u8> {
    seq![239u8, 191u8, 189u8]
}

/// The index at which looking for UTF-8 goes on after `bytes` stopped being
/// UTF-8: behind the invalid sequence, or at the end if `bytes` ends in the
/// middle of a character.
pub open spec fn resume_at(bytes: Seq<u8>) -> int {
    match utf8_error_len(bytes) {
        Some(len) => valid_up_to(bytes) + len,
        None => bytes.len() as int,
    }
}

/// What becomes of `bytes` if everything that is not UTF-8 is replaced.
///
/// Valid UTF-8 stays what it is. Otherwise the octets up to where they stop
/// being valid are kept, the replacement character stands for the invalid
/// sequence that follows, and the octets behind that are dealt with in the
/// same way.
pub open spec fn lossy(bytes: Seq<u8>) -> Seq<u8>
    decreases bytes.len(),
{
    if valid_utf8(bytes) {
        bytes
    } else {
        let good = valid_up_to(bytes);
        let next = resume_at(bytes);
        bytes.take(good) + replacement() + if 0 < next <= bytes.len() {
            lossy(bytes.skip(next))
        } else {
            Seq::empty()
        }
    }
}

/// The replacement character is valid UTF-8.
pub proof fn lemma_replacement_is_utf8()
    ensures
        valid_utf8(replacement()),
{
    assert((239u8 & 0x0f) as u32 == 15) by (bit_vector);
    assert((191u8 & 0x3f) as u32 == 63) by (bit_vector);
    assert((189u8 & 0x3f) as u32 == 61) by (bit_vector);
    assert((15u32 << 12) | (63u32 << 6) | 61u32 == 0xfffd) by (bit_vector);
    reveal_with_fuel(valid_utf8, 2);
}

/// Appends what becomes of the beginning of `octets` if what is not UTF-8
/// is replaced.
///
/// The error `err` says where `octets` stop being UTF-8. The octets up to
/// there and the replacement character are appended to `target`. Returned
/// is the index in `octets` from which to go on.
///
/// This fails if `target` has no room for what is to be appended. It then
/// may have taken the octets up to the error already.
pub fn append_lossy<Target: OctetsBuilder>(
    target: &mut Target,
    octets: &[u8],
    err: Utf8Error,
) -> (res: Result<usize, Target::AppendError>)
    requires
        err.valid_up_to <= octets@.len(),
        err.error_len matches Some(len) ==> err.valid_up_to + len <= octets@.len(),
    ensures
        res is Ok <==> has_room(
            Target::limit(),
            old(target).content().len(),
            (err.valid_up_to + 3) as nat,
        ),
        res matches Ok(next) ==> {
            &&& final(target).content() == old(target).content() + octets@.take(
                err.valid_up_to as int,
            ) + replacement()
            &&& next == match err.error_len {
                Some(len) => err.valid_up_to + len,
                None => octets@.len() as int,
            }
        },
        res is Err ==> final(target).content() == if has_room(
            Target::limit(),
            old(target).content().len(),
            err.valid_up_to as nat,
        ) {
            old(target).content() + octets@.take(err.valid_up_to as int)
        } else {
            old(target).content()
        },
{
    let replacement_char: [u8; 3] = [239, 191, 189];
    let len = octets.len();
    match target.append_slice(slice_subrange(octets, 0, err.valid_up_to)) {
        Ok(()) => {},
        Err(err) => {
            return Err(err);
        },
    }
    match target.append_slice(replacement_char.as_slice()) {
        Ok(()) => {},
        Err(err) => {
            return Err(err);
        },
    }
    Ok(
        match err.error_len {
            Some(error_len) => err.valid_up_to + error_len,
            None => len,
        },
    )
}

//------------ FromUtf8Error -------------------------------------------------

/// An error happened when converting octets into a string.
#[derive(Clone, Copy, Debug, Eq, PartialEq)]
pub struct FromUtf8Error<Octets> {
    /// The octets that failed to convert.
    pub octets: Octets,
    /// What is wrong with them.
    pub error: Utf8Error,
}

impl<Octets> FromUtf8Error<Octets> {
    /// Returns an octets slice of the data that failed to convert.
    pub fn as_slice(&self) -> (res: &[u8]) where Octets: AsOctets
        ensures
            res@ == self.octets.content(),
    {
        self.octets.as_slice()
    }

    /// Returns the octets sequence that failed to convert.
    pub fn into_octets(self) -> (res: Octets)
        ensures
            res == self.octets,
    {
        self.octets
    }

    /// Returns the reason for the conversion error.
    pub fn utf8_error(&self) -> (res: Utf8Error)
        ensures
            res == self.error,
    {
        self.error
    }
}

} // verus!
