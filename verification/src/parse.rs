//! Reading data from an octet sequence.
//!
//! Parsing is a little more complicated since encoded data may very well be
//! broken or ambiguously encoded. The helper type [`Parser`] wraps an octets
//! ref and allows to parse values from the octets.

use crate::endian::{
    be_u128, be_value, le_u128, le_value, lemma_be_value_bound, lemma_le_value_bound,
    lemma_radix_values, signed_value,
};
use crate::octets::{AsOctets, Octets};
use vstd::prelude::*;
use vstd::slice::slice_subrange;

verus! {

//------------ Parser --------------------------------------------------------

/// A parser for sequentially extracting data from an octets sequence.
///
/// The parser wraps a reference to an octets sequence and remembers the read
/// position on the referenced sequence. Methods allow reading out data and
/// progressing the position beyond processed data.
///
/// A parser is described by three things: the sequence it refers to, its
/// position, and its length. The length is where parsing ends. It starts out
/// as the length of the sequence but a parser made by [`parse_parser`] or a
/// parser inside [`parse_block`] ends earlier. At all times the position is
/// at most the length, and the length at most the length of the sequence.
///
/// [`parse_parser`]: Parser::parse_parser
/// [`parse_block`]: Parser::parse_block
#[derive(Debug)]
pub struct Parser<'a, Octs: AsOctets + ?Sized> {
    /// The underlying octets reference.
    octets: &'a Octs,
    /// The current position of the parser from the beginning of `octets`.
    pos: usize,
    /// The length of the octets sequence.
    ///
    /// This starts out as the length of the underlying sequence and is kept
    /// here to be able to temporarily limit the allowed length for
    /// `parse_block`.
    len: usize,
}

impl<'a, Octs: AsOctets + ?Sized> Parser<'a, Octs> {
    /// Whether position and length lie within the sequence and in order.
    ///
    /// This holds of every parser there is.
    #[verifier::type_invariant]
    pub open spec fn wf(self) -> bool {
        self.pos() <= self.len() <= self.data().len()
    }

    /// The reference to the underlying octets sequence.
    pub closed spec fn spec_octets_ref(&self) -> &'a Octs {
        self.octets
    }

    /// The current parse position.
    pub closed spec fn spec_pos(&self) -> usize {
        self.pos
    }

    /// The index at which parsing ends.
    pub closed spec fn spec_len(&self) -> usize {
        self.len
    }

    /// The number of octets left to parse.
    pub open spec fn spec_remaining(&self) -> usize {
        (self.len() - self.pos()) as usize
    }

    /// Whether the parser covers no octets at all.
    pub open spec fn spec_is_empty(&self) -> bool {
        self.len() == 0
    }

    /// The content of the underlying octets sequence.
    pub open spec fn data(&self) -> Seq<u8> {
        self.octets_ref().content()
    }

    /// The octets left to parse: those from the position up to the length.
    pub open spec fn rest(&self) -> Seq<u8> {
        self.data().subrange(self.pos() as int, self.len() as int)
    }

    /// Whether `other` refers to the same sequence and ends where this
    /// parser ends.
    ///
    /// Every method that moves a parser leaves it like this.
    pub open spec fn same_bounds(&self, other: &Self) -> bool {
        &&& self.octets_ref() == other.octets_ref()
        &&& self.len() == other.len()
    }

    /// Whether `other` only differs by having moved on by `len` octets.
    pub open spec fn advanced_by(&self, other: &Self, len: int) -> bool {
        &&& self.same_bounds(other)
        &&& other.pos() == self.pos() + len
    }

    /// Whether `after` is what an attempt to take `len` octets makes of this
    /// parser, where `taken` says whether the attempt went well.
    ///
    /// The attempt goes well if and only if `len` octets are left. The
    /// parser then has moved on by `len` octets. Otherwise it is where it
    /// was.
    pub open spec fn took(&self, after: &Self, len: int, taken: bool) -> bool {
        &&& taken <==> len <= self.remaining()
        &&& self.advanced_by(after, if taken { len } else { 0 })
    }

    /// Whether `block` is a parser for the next `len` octets of this
    /// parser: it refers to the same sequence, is where this parser is, and
    /// ends `len` octets further on.
    pub open spec fn has_block(&self, block: &Self, len: int) -> bool {
        &&& block.octets_ref() == self.octets_ref()
        &&& block.pos() == self.pos()
        &&& block.len() == self.pos() + len
    }

    /// Whether `res` is what looking at the next `len` octets returns: the
    /// octets if there are as many left, and an error otherwise.
    pub open spec fn peeked(&self, len: usize, res: Result<&[u8], ShortInput>) -> bool {
        &&& res is Ok <==> len <= self.remaining()
        &&& res matches Ok(slice) ==> slice@ == self.rest().take(len as int)
    }

    /// Creates a new parser atop a reference to an octet sequence.
    pub fn from_ref(octets: &'a Octs) -> (res: Self)
        ensures
            res.wf(),
            res.octets_ref() == octets,
            res.pos() == 0,
            res.len() == octets.content().len(),
    {
        Parser { pos: 0, len: octets.as_slice().len(), octets }
    }

    /// Creates a new parser atop a reference to an octet sequence that
    /// starts out at position `pos`.
    ///
    /// The position must not lie beyond the end of the sequence.
    pub fn from_ref_at(octets: &'a Octs, pos: usize) -> (res: Self)
        requires
            pos <= octets.content().len(),
        ensures
            res.wf(),
            res.octets_ref() == octets,
            res.pos() == pos,
            res.len() == octets.content().len(),
    {
        Parser { pos, len: octets.as_slice().len(), octets }
    }

    /// Returns the wrapped reference to the underlying octets sequence.
    #[verifier::when_used_as_spec(spec_octets_ref)]
    pub fn octets_ref(&self) -> (res: &'a Octs)
        ensures
            res == self.spec_octets_ref(),
    {
        self.octets
    }

    /// Returns the current parse position as an index into the octets.
    #[verifier::when_used_as_spec(spec_pos)]
    pub fn pos(&self) -> (res: usize)
        ensures
            res == self.spec_pos(),
            res <= self.len(),
    {
        proof {
            use_type_invariant(self);
        }
        self.pos
    }

    /// Returns the length of the underlying octet sequence.
    ///
    /// This is _not_ the number of octets left for parsing. Use
    /// [`remaining`] for that.
    ///
    /// [`remaining`]: Parser::remaining
    #[verifier::when_used_as_spec(spec_len)]
    pub fn len(&self) -> (res: usize)
        ensures
            res == self.spec_len(),
            res <= self.data().len(),
    {
        proof {
            use_type_invariant(self);
        }
        self.len
    }

    /// Returns whether the underlying octets sequence is empty.
    ///
    /// This does _not_ return whether there are no more octets left to parse.
    #[verifier::when_used_as_spec(spec_is_empty)]
    pub fn is_empty(&self) -> (res: bool)
        ensures
            res == (self.len() == 0),
    {
        self.len == 0
    }

    /// Returns an octets slice of the underlying sequence.
    ///
    /// The slice covers the entire sequence up to the parser's length, not
    /// just the remaining data. You can use [`peek_all`] for that.
    ///
    /// [`peek_all`]: Parser::peek_all
    pub fn as_slice(&self) -> (res: &[u8])
        ensures
            res@ == self.data().take(self.len() as int),
    {
        proof {
            use_type_invariant(self);
        }
        slice_subrange(self.octets.as_slice(), 0, self.len)
    }

    /// Returns the number of remaining octets to parse.
    #[verifier::when_used_as_spec(spec_remaining)]
    pub fn remaining(&self) -> (res: usize)
        ensures
            res == self.len() - self.pos(),
            res == self.spec_remaining(),
            res == self.rest().len(),
    {
        proof {
            use_type_invariant(self);
        }
        self.len - self.pos
    }

    /// Returns a slice for the next `len` octets.
    ///
    /// If less than `len` octets are left, returns an error.
    pub fn peek(&self, len: usize) -> (res: Result<&[u8], ShortInput>)
        ensures
            self.peeked(len, res),
    {
        proof {
            use_type_invariant(self);
        }
        if self.check_len(len).is_err() {
            return Err(ShortInput(()));
        }
        Ok(slice_subrange(self.peek_all(), 0, len))
    }

    /// Returns a slice of the data left to parse.
    pub fn peek_all(&self) -> (res: &[u8])
        ensures
            res@ == self.rest(),
    {
        proof {
            use_type_invariant(self);
        }
        slice_subrange(self.octets.as_slice(), self.pos, self.len)
    }

    /// Repositions the parser to the given index.
    ///
    /// It is okay to reposition anywhere within the sequence. However,
    /// if `pos` is larger than the length of the sequence, an error is
    /// returned and the parser stays where it is.
    pub fn seek(&mut self, pos: usize) -> (res: Result<(), ShortInput>)
        ensures
            res is Ok <==> pos <= old(self).len(),
            res is Ok ==> final(self).pos() == pos,
            res is Err ==> final(self).pos() == old(self).pos(),
            old(self).same_bounds(final(self)),
    {
        if pos > self.len {
            Err(ShortInput(()))
        } else {
            proof {
                use_type_invariant(&*self);
            }
            self.pos = pos;
            Ok(())
        }
    }

    /// Advances the parser's position by `len` octets.
    ///
    /// If this would take the parser beyond its end, an error is returned
    /// and the parser stays where it is.
    pub fn advance(&mut self, len: usize) -> (res: Result<(), ShortInput>)
        ensures
            old(self).took(final(self), len as int, res is Ok),
    {
        proof {
            use_type_invariant(&*self);
        }
        if len > self.remaining() {
            Err(ShortInput(()))
        } else {
            self.pos += len;
            Ok(())
        }
    }

    /// Advances to the end of the parser.
    pub fn advance_to_end(&mut self)
        ensures
            final(self).pos() == old(self).len(),
            final(self).remaining() == 0,
            old(self).same_bounds(final(self)),
    {
        proof {
            use_type_invariant(&*self);
        }
        self.pos = self.len
    }

    /// Checks that there are `len` octets left to parse.
    ///
    /// If there aren't, returns an error.
    pub fn check_len(&self, len: usize) -> (res: Result<(), ShortInput>)
        ensures
            res is Ok <==> len <= self.remaining(),
    {
        if self.remaining() < len {
            Err(ShortInput(()))
        } else {
            Ok(())
        }
    }

    /// Takes and returns the next `len` octets.
    ///
    /// Advances the parser by `len` octets. If there aren't enough octets
    /// left, leaves the parser untouched and returns an error instead.
    pub fn parse_octets(&mut self, len: usize) -> (res: Result<Octs::Range, ShortInput>) where
        Octs: Octets<'a>,

        ensures
            old(self).took(final(self), len as int, res is Ok),
            res matches Ok(range) ==> range.content() == old(self).rest().take(len as int),
    {
        proof {
            use_type_invariant(&*self);
        }
        if len > self.remaining() {
            return Err(ShortInput(()));
        }
        let end = self.pos + len;
        let res = self.octets.range(self.pos, end);
        self.pos = end;
        Ok(res)
    }

    /// Fills the provided buffer by taking octets from the parser.
    ///
    /// Copies as many octets as the buffer is long from the parser into the
    /// buffer and advances the parser by that many octets.
    ///
    /// If there aren't enough octets left in the parser to fill the buffer
    /// completely, returns an error and leaves the parser and the buffer
    /// untouched.
    pub fn parse_buf(&mut self, buf: &mut [u8]) -> (res: Result<(), ShortInput>)
        ensures
            old(self).took(final(self), old(buf)@.len() as int, res is Ok),
            res is Ok ==> final(buf)@ == old(self).rest().take(old(buf)@.len() as int),
            res is Err ==> final(buf)@ == old(buf)@,
    {
        proof {
            use_type_invariant(&*self);
        }
        let pos = self.pos;
        let len = buf.len();
        if self.advance(len).is_err() {
            return Err(ShortInput(()));
        }
        let src = self.octets.as_slice();
        let end = self.pos;
        let mut i: usize = 0;
        while i < len
            invariant
                i <= len,
                buf@.len() == len,
                pos + len == end <= src@.len(),
                forall|k: int| 0 <= k < i ==> buf@[k] == src@[pos + k],
            decreases len - i,
        {
            buf[i] = src[pos + i];
            i += 1;
        }
        Ok(())
    }

    /// Takes as many octets as requested and returns a parser for them.
    ///
    /// If enough octets are remaining, the method clones `self`, limits
    /// its length to the requested number of octets, and returns it. The
    /// returned parser will be positioned at wherever `self` was positioned.
    /// The `self` parser will be advanced by the requested amount of octets.
    ///
    /// If there aren't enough octets left in the parser, returns an error
    /// and leaves the parser untouched.
    pub fn parse_parser(&mut self, len: usize) -> (res: Result<Self, ShortInput>)
        ensures
            old(self).took(final(self), len as int, res is Ok),
            res matches Ok(sub) ==> sub.wf() && old(self).has_block(&sub, len as int),
    {
        proof {
            use_type_invariant(&*self);
        }
        if self.check_len(len).is_err() {
            return Err(ShortInput(()));
        }
        let res = Parser { octets: self.octets, pos: self.pos, len: self.pos + len };
        self.pos += len;
        Ok(res)
    }
}

impl<'a, Octs: AsOctets + ?Sized> Parser<'a, Octs> {
    /// Takes an `i8` from the beginning of the parser.
    ///
    /// Advances the parser by one octet. If there aren't enough octets left,
    /// leaves the parser untouched and returns an error instead.
    pub fn parse_i8(&mut self) -> (res: Result<i8, ShortInput>)
        ensures
            old(self).took(final(self), 1, res is Ok),
            res matches Ok(value) ==> value as int == signed_value(old(self).rest()[0] as nat, 1),
    {
        let value = self.parse_u8()?;
        Ok(signed_8(value))
    }

    /// Takes a `u8` from the beginning of the parser.
    ///
    /// Advances the parser by one octet. If there aren't enough octets left,
    /// leaves the parser untouched and returns an error instead.
    pub fn parse_u8(&mut self) -> (res: Result<u8, ShortInput>)
        ensures
            old(self).took(final(self), 1, res is Ok),
            res matches Ok(value) ==> value == old(self).rest()[0],
    {
        proof {
            use_type_invariant(&*self);
        }
        let res = self.peek(1)?[0];
        self.pos += 1;
        Ok(res)
    }

    /// Takes a big-endian `i16` from the beginning of the parser.
    ///
    /// The parser is advanced by two octets. If there aren't enough octets
    /// left, leaves the parser untouched and returns an error instead.
    pub fn parse_i16_be(&mut self) -> (res: Result<i16, ShortInput>)
        ensures
            old(self).took(final(self), 2, res is Ok),
            res matches Ok(value) ==> value as int == signed_value(
                be_value(old(self).rest().take(2)),
                2,
            ),
    {
        let mut buf = [0u8; 2];
        self.parse_buf(&mut buf)?;
        proof {
            lemma_be_value_bound(buf@);
            lemma_radix_values();
        }
        let raw = be_u128(&buf) as u16;
        Ok(signed_16(raw))
    }

    /// Takes a little-endian `i16` from the beginning of the parser.
    ///
    /// The parser is advanced by two octets. If there aren't enough octets
    /// left, leaves the parser untouched and returns an error instead.
    pub fn parse_i16_le(&mut self) -> (res: Result<i16, ShortInput>)
        ensures
            old(self).took(final(self), 2, res is Ok),
            res matches Ok(value) ==> value as int == signed_value(
                le_value(old(self).rest().take(2)),
                2,
            ),
    {
        let mut buf = [0u8; 2];
        self.parse_buf(&mut buf)?;
        proof {
            lemma_le_value_bound(buf@);
            lemma_radix_values();
        }
        let raw = le_u128(&buf) as u16;
        Ok(signed_16(raw))
    }

    /// Takes a big-endian `u16` from the beginning of the parser.
    ///
    /// The parser is advanced by two octets. If there aren't enough octets
    /// left, leaves the parser untouched and returns an error instead.
    pub fn parse_u16_be(&mut self) -> (res: Result<u16, ShortInput>)
        ensures
            old(self).took(final(self), 2, res is Ok),
            res matches Ok(value) ==> value as nat == be_value(old(self).rest().take(2)),
    {
        let mut buf = [0u8; 2];
        self.parse_buf(&mut buf)?;
        proof {
            lemma_be_value_bound(buf@);
            lemma_radix_values();
        }
        let raw = be_u128(&buf) as u16;
        Ok(raw)
    }

    /// Takes a little-endian `u16` from the beginning of the parser.
    ///
    /// The parser is advanced by two octets. If there aren't enough octets
    /// left, leaves the parser untouched and returns an error instead.
    pub fn parse_u16_le(&mut self) -> (res: Result<u16, ShortInput>)
        ensures
            old(self).took(final(self), 2, res is Ok),
            res matches Ok(value) ==> value as nat == le_value(old(self).rest().take(2)),
    {
        let mut buf = [0u8; 2];
        self.parse_buf(&mut buf)?;
        proof {
            lemma_le_value_bound(buf@);
            lemma_radix_values();
        }
        let raw = le_u128(&buf) as u16;
        Ok(raw)
    }

    /// Takes a big-endian `i32` from the beginning of the parser.
    ///
    /// The parser is advanced by four octets. If there aren't enough octets
    /// left, leaves the parser untouched and returns an error instead.
    pub fn parse_i32_be(&mut self) -> (res: Result<i32, ShortInput>)
        ensures
            old(self).took(final(self), 4, res is Ok),
            res matches Ok(value) ==> value as int == signed_value(
                be_value(old(self).rest().take(4)),
                4,
            ),
    {
        let mut buf = [0u8; 4];
        self.parse_buf(&mut buf)?;
        proof {
            lemma_be_value_bound(buf@);
            lemma_radix_values();
        }
        let raw = be_u128(&buf) as u32;
        Ok(signed_32(raw))
    }

    /// Takes a little-endian `i32` from the beginning of the parser.
    ///
    /// The parser is advanced by four octets. If there aren't enough octets
    /// left, leaves the parser untouched and returns an error instead.
    pub fn parse_i32_le(&mut self) -> (res: Result<i32, ShortInput>)
        ensures
            old(self).took(final(self), 4, res is Ok),
            res matches Ok(value) ==> value as int == signed_value(
                le_value(old(self).rest().take(4)),
                4,
            ),
    {
        let mut buf = [0u8; 4];
        self.parse_buf(&mut buf)?;
        proof {
            lemma_le_value_bound(buf@);
            lemma_radix_values();
        }
        let raw = le_u128(&buf) as u32;
        Ok(signed_32(raw))
    }

    /// Takes a big-endian `u32` from the beginning of the parser.
    ///
    /// The parser is advanced by four octets. If there aren't enough octets
    /// left, leaves the parser untouched and returns an error instead.
    pub fn parse_u32_be(&mut self) -> (res: Result<u32, ShortInput>)
        ensures
            old(self).took(final(self), 4, res is Ok),
            res matches Ok(value) ==> value as nat == be_value(old(self).rest().take(4)),
    {
        let mut buf = [0u8; 4];
        self.parse_buf(&mut buf)?;
        proof {
            lemma_be_value_bound(buf@);
            lemma_radix_values();
        }
        let raw = be_u128(&buf) as u32;
        Ok(raw)
    }

    /// Takes a little-endian `u32` from the beginning of the parser.
    ///
    /// The parser is advanced by four octets. If there aren't enough octets
    /// left, leaves the parser untouched and returns an error instead.
    pub fn parse_u32_le(&mut self) -> (res: Result<u32, ShortInput>)
        ensures
            old(self).took(final(self), 4, res is Ok),
            res matches Ok(value) ==> value as nat == le_value(old(self).rest().take(4)),
    {
        let mut buf = [0u8; 4];
        self.parse_buf(&mut buf)?;
        proof {
            lemma_le_value_bound(buf@);
            lemma_radix_values();
        }
        let raw = le_u128(&buf) as u32;
        Ok(raw)
    }

    /// Takes a big-endian `i64` from the beginning of the parser.
    ///
    /// The parser is advanced by eight octets. If there aren't enough octets
    /// left, leaves the parser untouched and returns an error instead.
    pub fn parse_i64_be(&mut self) -> (res: Result<i64, ShortInput>)
        ensures
            old(self).took(final(self), 8, res is Ok),
            res matches Ok(value) ==> value as int == signed_value(
                be_value(old(self).rest().take(8)),
                8,
            ),
    {
        let mut buf = [0u8; 8];
        self.parse_buf(&mut buf)?;
        proof {
            lemma_be_value_bound(buf@);
            lemma_radix_values();
        }
        let raw = be_u128(&buf) as u64;
        Ok(signed_64(raw))
    }

    /// Takes a little-endian `i64` from the beginning of the parser.
    ///
    /// The parser is advanced by eight octets. If there aren't enough octets
    /// left, leaves the parser untouched and returns an error instead.
    pub fn parse_i64_le(&mut self) -> (res: Result<i64, ShortInput>)
        ensures
            old(self).took(final(self), 8, res is Ok),
            res matches Ok(value) ==> value as int == signed_value(
                le_value(old(self).rest().take(8)),
                8,
            ),
    {
        let mut buf = [0u8; 8];
        self.parse_buf(&mut buf)?;
        proof {
            lemma_le_value_bound(buf@);
            lemma_radix_values();
        }
        let raw = le_u128(&buf) as u64;
        Ok(signed_64(raw))
    }

    /// Takes a big-endian `u64` from the beginning of the parser.
    ///
    /// The parser is advanced by eight octets. If there aren't enough octets
    /// left, leaves the parser untouched and returns an error instead.
    pub fn parse_u64_be(&mut self) -> (res: Result<u64, ShortInput>)
        ensures
            old(self).took(final(self), 8, res is Ok),
            res matches Ok(value) ==> value as nat == be_value(old(self).rest().take(8)),
    {
        let mut buf = [0u8; 8];
        self.parse_buf(&mut buf)?;
        proof {
            lemma_be_value_bound(buf@);
            lemma_radix_values();
        }
        let raw = be_u128(&buf) as u64;
        Ok(raw)
    }

    /// Takes a little-endian `u64` from the beginning of the parser.
    ///
    /// The parser is advanced by eight octets. If there aren't enough octets
    /// left, leaves the parser untouched and returns an error instead.
    pub fn parse_u64_le(&mut self) -> (res: Result<u64, ShortInput>)
        ensures
            old(self).took(final(self), 8, res is Ok),
            res matches Ok(value) ==> value as nat == le_value(old(self).rest().take(8)),
    {
        let mut buf = [0u8; 8];
        self.parse_buf(&mut buf)?;
        proof {
            lemma_le_value_bound(buf@);
            lemma_radix_values();
        }
        let raw = le_u128(&buf) as u64;
        Ok(raw)
    }

    /// Takes a big-endian `i128` from the beginning of the parser.
    ///
    /// The parser is advanced by 16 octets. If there aren't enough octets
    /// left, leaves the parser untouched and returns an error instead.
    pub fn parse_i128_be(&mut self) -> (res: Result<i128, ShortInput>)
        ensures
            old(self).took(final(self), 16, res is Ok),
            res matches Ok(value) ==> value as int == signed_value(
                be_value(old(self).rest().take(16)),
                16,
            ),
    {
        let mut buf = [0u8; 16];
        self.parse_buf(&mut buf)?;
        let raw = be_u128(&buf);
        Ok(signed_128(raw))
    }

    /// Takes a little-endian `i128` from the beginning of the parser.
    ///
    /// The parser is advanced by 16 octets. If there aren't enough octets
    /// left, leaves the parser untouched and returns an error instead.
    pub fn parse_i128_le(&mut self) -> (res: Result<i128, ShortInput>)
        ensures
            old(self).took(final(self), 16, res is Ok),
            res matches Ok(value) ==> value as int == signed_value(
                le_value(old(self).rest().take(16)),
                16,
            ),
    {
        let mut buf = [0u8; 16];
        self.parse_buf(&mut buf)?;
        let raw = le_u128(&buf);
        Ok(signed_128(raw))
    }

    /// Takes a big-endian `u128` from the beginning of the parser.
    ///
    /// The parser is advanced by 16 octets. If there aren't enough octets
    /// left, leaves the parser untouched and returns an error instead.
    pub fn parse_u128_be(&mut self) -> (res: Result<u128, ShortInput>)
        ensures
            old(self).took(final(self), 16, res is Ok),
            res matches Ok(value) ==> value as nat == be_value(old(self).rest().take(16)),
    {
        let mut buf = [0u8; 16];
        self.parse_buf(&mut buf)?;
        let raw = be_u128(&buf);
        Ok(raw)
    }

    /// Takes a little-endian `u128` from the beginning of the parser.
    ///
    /// The parser is advanced by 16 octets. If there aren't enough octets
    /// left, leaves the parser untouched and returns an error instead.
    pub fn parse_u128_le(&mut self) -> (res: Result<u128, ShortInput>)
        ensures
            old(self).took(final(self), 16, res is Ok),
            res matches Ok(value) ==> value as nat == le_value(old(self).rest().take(16)),
    {
        let mut buf = [0u8; 16];
        self.parse_buf(&mut buf)?;
        let raw = le_u128(&buf);
        Ok(raw)
    }
}

/// Reads `raw` as the two's complement of an `i8`.
fn signed_8(raw: u8) -> (res: i8)
    ensures
        res as int == signed_value(raw as nat, 1),
{
    proof {
        lemma_radix_values();
    }
    if raw < 0x80 {
        raw as i8
    } else {
        (raw - 0x80) as i8 + i8::MIN
    }
}

/// Reads `raw` as the two's complement of an `i16`.
fn signed_16(raw: u16) -> (res: i16)
    ensures
        res as int == signed_value(raw as nat, 2),
{
    proof {
        lemma_radix_values();
    }
    if raw < 0x8000 {
        raw as i16
    } else {
        (raw - 0x8000) as i16 + i16::MIN
    }
}

/// Reads `raw` as the two's complement of an `i32`.
fn signed_32(raw: u32) -> (res: i32)
    ensures
        res as int == signed_value(raw as nat, 4),
{
    proof {
        lemma_radix_values();
    }
    if raw < 0x8000_0000 {
        raw as i32
    } else {
        (raw - 0x8000_0000) as i32 + i32::MIN
    }
}

/// Reads `raw` as the two's complement of an `i64`.
fn signed_64(raw: u64) -> (res: i64)
    ensures
        res as int == signed_value(raw as nat, 8),
{
    proof {
        lemma_radix_values();
    }
    if raw < 0x8000_0000_0000_0000 {
        raw as i64
    } else {
        (raw - 0x8000_0000_0000_0000) as i64 + i64::MIN
    }
}

/// Reads `raw` as the two's complement of an `i128`.
fn signed_128(raw: u128) -> (res: i128)
    ensures
        res as int == signed_value(raw as nat, 16),
{
    proof {
        lemma_radix_values();
    }
    if raw < 0x8000_0000_0000_0000_0000_0000_0000_0000 {
        raw as i128
    } else {
        (raw - 0x8000_0000_0000_0000_0000_0000_0000_0000) as i128 + i128::MIN
    }
}

impl<'a, Octs: AsOctets + ?Sized> Parser<'a, Octs> {
    /// Parses a block of `limit` octets.
    ///
    /// The closure `op` is handed the parser with its length cut down to the
    /// end of the block. Once it is done, the length is put back. The block
    /// has to be used up exactly: see [`close_block`] for what is returned.
    ///
    /// If fewer than `limit` octets are left, the parser is advanced to its
    /// end, `op` is not called, and a short input error is returned.
    ///
    /// The closure has to accept the parser for the block, and has to leave
    /// it atop the same sequence and with the same length, as every method
    /// of the parser does.
    pub fn parse_block<U, F>(&mut self, limit: usize, op: F) -> (res: Result<U, ParseError>) where
        F: FnOnce(&mut Self) -> Result<U, ParseError>,

        requires
            forall|block: &mut Self|
                block.wf() && old(self).has_block(&*block, limit as int) ==> #[trigger] op.requires(
                    (block,),
                ),
            forall|block: &mut Self, inner: Result<U, ParseError>| #[trigger]
                op.ensures((block,), inner) ==> block.same_bounds(&*final(block)),
        ensures
            old(self).same_bounds(final(self)),
            limit > old(self).remaining() ==> {
                &&& res == Err::<U, ParseError>(ParseError::ShortInput)
                &&& final(self).pos() == old(self).len()
            },
            limit <= old(self).remaining() ==> exists|
                block: &mut Self,
                inner: Result<U, ParseError>,
            |
                {
                    &&& old(self).has_block(&*block, limit as int)
                    &&& #[trigger] op.ensures((block,), inner)
                    &&& final(self).pos() == final(block).pos()
                    &&& res == block_result(inner, final(block).remaining() == 0)
                },
            res is Ok ==> old(self).advanced_by(final(self), limit as int),
    {
        proof {
            use_type_invariant(&*self);
        }
        if limit > self.remaining() {
            self.advance_to_end();
            return Err(ParseError::ShortInput);
        }
        let end = self.pos + limit;
        let len = self.len;
        self.len = end;
        let inner = op(self);
        proof {
            use_type_invariant(&*self);
        }
        let at_end = self.pos == end;
        self.len = len;
        close_block(inner, at_end)
    }
}

/// What parsing a block comes to, where `inner` is what parsing its content
/// returned and `at_end` says whether that used up the block.
///
/// Content that was parsed well is returned if the block was used up, and
/// is a form error otherwise. Running out of octets inside the block is a
/// form error, too. Any other error is returned as it is.
pub open spec fn block_result<U>(inner: Result<U, ParseError>, at_end: bool) -> Result<
    U,
    ParseError,
> {
    match inner {
        Ok(_) => if at_end {
            inner
        } else {
            Err(ParseError::Form(FormError::new("trailing data in field")))
        },
        Err(ParseError::ShortInput) => Err(ParseError::Form(FormError::new("short field"))),
        Err(ParseError::Form(_)) => inner,
    }
}

/// Decides what parsing a block returns.
///
/// Takes what parsing the content of the block returned and whether that
/// left the parser at the end of the block. A block parses well if and only
/// if its content does and uses it up exactly.
pub fn close_block<U>(inner: Result<U, ParseError>, at_end: bool) -> (res: Result<U, ParseError>)
    ensures
        res == block_result(inner, at_end),
        res is Ok <==> inner is Ok && at_end,
{
    match inner {
        Ok(value) => {
            if at_end {
                Ok(value)
            } else {
                Err(ParseError::form_error("trailing data in field"))
            }
        },
        Err(ParseError::ShortInput) => Err(ParseError::form_error("short field")),
        Err(ParseError::Form(err)) => Err(ParseError::Form(err)),
    }
}

impl Parser<'static, [u8]> {
    /// Creates a new parser atop a static byte slice.
    ///
    /// This function is most useful for testing.
    pub fn from_static(slice: &'static [u8]) -> (res: Self)
        ensures
            res.wf(),
            res.octets_ref() == slice,
            res.data() == slice@,
            res.pos() == 0,
            res.len() == slice@.len(),
    {
        Self::from_ref(slice)
    }
}

//--- Clone and Copy

impl<'a, Octs: AsOctets + ?Sized> Clone for Parser<'a, Octs> {
    fn clone(&self) -> (res: Self)
        ensures
            res == *self,
    {
        proof {
            use_type_invariant(self);
        }
        Parser { octets: self.octets, pos: self.pos, len: self.len }
    }
}

impl<'a, Octs: AsOctets + ?Sized> Copy for Parser<'a, Octs> {

}

//------------ Laws ----------------------------------------------------------

/// A parser that could not take what it was asked for is what it was
/// before: it has not moved and ends where it ended.
pub proof fn lemma_failure_leaves_parser<'a, Octs: AsOctets + ?Sized>(
    before: Parser<'a, Octs>,
    after: Parser<'a, Octs>,
    len: int,
)
    requires
        before.took(&after, len, false),
    ensures
        after == before,
        after.pos() == before.pos(),
        after.len() == before.len(),
{
}

/// A parser that took `len` octets has moved on by exactly `len`, has
/// exactly `len` octets less left, and what is left to it is what was left
/// before without its first `len` octets.
pub proof fn lemma_success_advances_parser<'a, Octs: AsOctets + ?Sized>(
    before: Parser<'a, Octs>,
    after: Parser<'a, Octs>,
    len: int,
)
    requires
        before.wf(),
        0 <= len,
        before.took(&after, len, true),
    ensures
        after.wf(),
        after.pos() == before.pos() + len,
        after.remaining() == before.remaining() - len,
        after.rest() == before.rest().skip(len),
{
}

/// A parser for a block of `len` octets has exactly `len` octets left, and
/// they are the next `len` octets of the parser it was taken from. It will
/// not give out more than that, however many octets follow the block.
pub proof fn lemma_block_is_isolated<'a, Octs: AsOctets + ?Sized>(
    parent: Parser<'a, Octs>,
    block: Parser<'a, Octs>,
    len: int,
    after: Parser<'a, Octs>,
    more: int,
    taken: bool,
)
    requires
        parent.wf(),
        0 <= len <= parent.remaining(),
        parent.has_block(&block, len),
        more > len,
        block.took(&after, more, taken),
    ensures
        block.wf(),
        block.remaining() == len,
        block.rest() == parent.rest().take(len),
        !taken,
        after == block,
{
}

/// Looking at the next octets twice without moving the parser shows the
/// same octets both times, or fails both times.
pub proof fn lemma_peek_is_idempotent<'a, Octs: AsOctets + ?Sized>(
    parser: Parser<'a, Octs>,
    len: usize,
    first: Result<&[u8], ShortInput>,
    second: Result<&[u8], ShortInput>,
)
    requires
        parser.peeked(len, first),
        parser.peeked(len, second),
    ensures
        first is Ok <==> second is Ok,
        first is Ok ==> first->Ok_0@ == second->Ok_0@,
{
}

/// A parser at its end has nothing left. It is empty only if it never
/// covered any octets at all.
pub proof fn lemma_exhausted_is_not_empty<'a, Octs: AsOctets + ?Sized>(parser: Parser<'a, Octs>)
    requires
        parser.wf(),
        parser.pos() == parser.len(),
    ensures
        parser.remaining() == 0,
        parser.rest() == Seq::<u8>::empty(),
        parser.is_empty() <==> parser.len() == 0,
{
}

/// A block parses well if and only if its content parses well and uses the
/// block up. Otherwise the outcome is an error, and never a short input
/// error.
pub proof fn lemma_block_is_exact<U>(inner: Result<U, ParseError>, at_end: bool)
    ensures
        block_result(inner, at_end) is Ok <==> inner is Ok && at_end,
        block_result(inner, at_end) is Ok ==> block_result(inner, at_end) == inner,
        block_result(inner, at_end) != Err::<U, ParseError>(ParseError::ShortInput),
{
}

//------------ ShortInput ----------------------------------------------------

/// An attempt was made to go beyond the end of the parser.
#[derive(Clone, Copy, Debug, Eq, PartialEq)]
pub struct ShortInput(());

impl ShortInput {
    /// Returns what the error says.
    pub fn as_str(&self) -> (res: &'static str)
        ensures
            res@ == "unexpected end of input"@,
    {
        "unexpected end of input"
    }
}

impl Default for ShortInput {
    fn default() -> (res: Self) {
        ShortInput(())
    }
}

//------------ ParseError ----------------------------------------------------

/// An error happened while parsing data.
#[derive(Clone, Copy, Debug, Eq, PartialEq)]
pub enum ParseError {
    /// An attempt was made to go beyond the end of the parser.
    ShortInput,
    /// A formatting error occurred.
    Form(FormError),
}

impl ParseError {
    /// Creates a new parse error as a form error with the given message.
    pub fn form_error(msg: &'static str) -> (res: Self)
        ensures
            res == ParseError::Form(FormError::new(msg)),
    {
        ParseError::Form(FormError::new(msg))
    }

    /// Returns what the error says.
    pub fn as_str(&self) -> (res: &'static str)
        ensures
            res == match *self {
                ParseError::ShortInput => "unexpected end of input",
                ParseError::Form(err) => err.as_str(),
            },
    {
        match *self {
            ParseError::ShortInput => "unexpected end of input",
            ParseError::Form(err) => err.as_str(),
        }
    }
}

impl vstd::std_specs::convert::FromSpecImpl<ShortInput> for ParseError {
    open spec fn obeys_from_spec() -> bool {
        true
    }

    open spec fn from_spec(err: ShortInput) -> Self {
        ParseError::ShortInput
    }
}

impl From<ShortInput> for ParseError {
    fn from(err: ShortInput) -> (res: Self) {
        ParseError::ShortInput
    }
}

impl vstd::std_specs::convert::FromSpecImpl<FormError> for ParseError {
    open spec fn obeys_from_spec() -> bool {
        true
    }

    open spec fn from_spec(err: FormError) -> Self {
        ParseError::Form(err)
    }
}

impl From<FormError> for ParseError {
    fn from(err: FormError) -> (res: Self) {
        ParseError::Form(err)
    }
}

//------------ FormError -----------------------------------------------------

/// A formatting error occurred.
///
/// This is a generic error for all kinds of error cases that result in data
/// not being accepted. For diagnostics, the error is being given a static
/// string describing the error.
#[derive(Clone, Copy, Debug, Eq, PartialEq)]
pub struct FormError(&'static str);

impl FormError {
    /// The form error with the given message.
    pub closed spec fn spec_new(msg: &'static str) -> Self {
        FormError(msg)
    }

    /// The message of the error.
    pub closed spec fn spec_as_str(&self) -> &'static str {
        self.0
    }

    /// Creates a new form error value with the given diagnostics string.
    #[verifier::when_used_as_spec(spec_new)]
    pub fn new(msg: &'static str) -> (res: Self)
        ensures
            res == Self::spec_new(msg),
            res.as_str() == msg,
    {
        FormError(msg)
    }

    /// Returns the diagnostics string of the error.
    #[verifier::when_used_as_spec(spec_as_str)]
    pub fn as_str(&self) -> (res: &'static str)
        ensures
            res == self.spec_as_str(),
    {
        self.0
    }
}

} // verus!
