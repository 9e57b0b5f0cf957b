//! A forward cursor over a byte slice, with the primitive reads that both
//! formats share.

use crate::bytes::{le_i16, le_i32, le_u32, read_i16_le, read_i32_le, read_u32_le, Float32};
use crate::error::{truncated, FormatError, ParseError};
use crate::model::views;
use vstd::prelude::*;
use vstd::slice::slice_subrange;

verus! {

/// `String::push` of std appends the character to the end of the string.
pub assume_specification[ String::push ](s: &mut String, ch: char)
    ensures
        final(s)@ == old(s)@.push(ch),
;

/// Whether the outcome `res` of a decoder that left the cursor at `end` is the
/// one that `expected` describes: the same value, by its view, and the same
/// end position; or the same error.
pub open spec fn decoded<T: View>(
    res: Result<T, ParseError>,
    end: int,
    expected: Result<(T::V, int), ParseError>,
) -> bool {
    match expected {
        Ok((v, next)) => res matches Ok(x) && x@ == v && end == next,
        Err(e) => res matches Err(x) && x == e,
    }
}

/// The same for a decoder of a list whose items have views of their own: the
/// views of the items are the expected ones, in order.
pub open spec fn decoded_list<T: View>(
    res: Result<Vec<T>, ParseError>,
    end: int,
    expected: Result<(Seq<T::V>, int), ParseError>,
) -> bool {
    match expected {
        Ok((v, next)) => res matches Ok(x) && views(x@) == v && end == next,
        Err(e) => res matches Err(x) && x == e,
    }
}

/// What decoding a record of `size` bytes at `pos` gives: `value` and the
/// position behind the record if the stream holds it whole, else the error for
/// a read of `size` bytes at `pos`.
pub open spec fn fixed<T>(data: Seq<u8>, pos: int, size: int, value: T) -> Result<
    (T, int),
    ParseError,
> {
    if pos + size > data.len() {
        Err(truncated(pos, size, data.len() as int))
    } else {
        Ok((value, pos + size))
    }
}

/// The number of entries that a declared count `n` stands for: a negative
/// count declares none.
pub open spec fn entries(n: int) -> int {
    if n < 0 {
        0
    } else {
        n
    }
}

/// The single-precision number whose little-endian encoding starts at `data[pos]`.
pub open spec fn float_at(data: Seq<u8>, pos: int) -> Float32 {
    Float32 { bits: le_u32(data, pos) as u32 }
}

/// The characters of the `n` bytes from `data[pos]` on, one character per byte.
pub open spec fn chars_at(data: Seq<u8>, pos: int, n: int) -> Seq<char> {
    Seq::new(n as nat, |i: int| data[pos + i] as char)
}

/// A length-prefixed string at `pos`: a signed 32-bit length, then that many
/// bytes, each one character.
pub open spec fn spec_string(data: Seq<u8>, pos: int) -> Result<(Seq<char>, int), ParseError> {
    if pos + 4 > data.len() {
        Err(truncated(pos, 4, data.len() as int))
    } else {
        let n = entries(le_i32(data, pos));
        if pos + 4 + n > data.len() {
            Err(truncated(pos + 4, n, data.len() as int))
        } else {
            Ok((chars_at(data, pos + 4, n), pos + 4 + n))
        }
    }
}

/// A string that decodes takes four bytes and one more for each of its
/// characters, of which it has as many as the length says; a length of zero
/// gives the empty string, which takes the four bytes of the length.
pub proof fn lemma_string_takes_four_plus_len(data: Seq<u8>, pos: int)
    ensures
        spec_string(data, pos) matches Ok((s, next)) ==> next == pos + 4 + s.len() && s.len()
            == entries(le_i32(data, pos)),
        pos + 4 <= data.len() && le_i32(data, pos) == 0 ==> spec_string(data, pos) == Ok::<
            (Seq<char>, int),
            ParseError,
        >((Seq::empty(), pos + 4)),
{
    if pos + 4 <= data.len() && le_i32(data, pos) == 0 {
        assert(chars_at(data, pos + 4, 0) =~= Seq::empty());
    }
}

/// The first `count` records from `pos` on, laid out back to back, where
/// `item` says what one record at a position holds and where it ends; and the
/// position behind the last of them. The first record that fails to decode
/// fails the list.
pub open spec fn spec_repeat<V>(
    item: spec_fn(Seq<u8>, int) -> Result<(V, int), ParseError>,
    data: Seq<u8>,
    pos: int,
    count: nat,
) -> Result<(Seq<V>, int), ParseError>
    decreases count,
{
    if count == 0 {
        Ok((Seq::empty(), pos))
    } else {
        match spec_repeat(item, data, pos, (count - 1) as nat) {
            Err(e) => Err(e),
            Ok((front, p)) => match item(data, p) {
                Err(e) => Err(e),
                Ok((v, q)) => Ok((front.push(v), q)),
            },
        }
    }
}

/// Once the records up to `count` fail to decode, so do those up to any
/// larger count, with the same error.
pub proof fn lemma_repeat_error_stays<V>(
    item: spec_fn(Seq<u8>, int) -> Result<(V, int), ParseError>,
    data: Seq<u8>,
    pos: int,
    count: nat,
    more: nat,
)
    requires
        count <= more,
        spec_repeat(item, data, pos, count) is Err,
    ensures
        spec_repeat(item, data, pos, more) == spec_repeat(item, data, pos, count),
    decreases more,
{
    if count < more {
        lemma_repeat_error_stays(item, data, pos, count, (more - 1) as nat);
    }
}

/// A list that decodes has as many records as were asked for.
pub proof fn lemma_repeat_len<V>(
    item: spec_fn(Seq<u8>, int) -> Result<(V, int), ParseError>,
    data: Seq<u8>,
    pos: int,
    count: nat,
)
    requires
        spec_repeat(item, data, pos, count) is Ok,
    ensures
        spec_repeat(item, data, pos, count)->Ok_0.0.len() == count,
    decreases count,
{
    if count > 0 {
        lemma_repeat_len(item, data, pos, (count - 1) as nat);
    }
}

/// A position in a byte stream. Reads move it forward; a failed read leaves
/// it where it was.
pub struct Reader<'a> {
    data: &'a [u8],
    pos: usize,
}

impl<'a> Reader<'a> {
    /// The whole stream.
    pub closed spec fn bytes(&self) -> Seq<u8> {
        self.data@
    }

    /// Offset of the next byte to be read.
    pub closed spec fn cursor(&self) -> int {
        self.pos as int
    }

    /// The cursor lies within the stream or at its end.
    pub open spec fn wf(&self) -> bool {
        0 <= self.cursor() <= self.bytes().len() <= usize::MAX
    }

    /// The reader has the same stream as `other` and is well-formed.
    pub open spec fn follows(&self, other: &Reader) -> bool {
        self.wf() && self.bytes() == other.bytes()
    }

    /// A reader at the start of `data`.
    pub fn new(data: &'a [u8]) -> (r: Self)
        ensures
            r.wf(),
            r.bytes() == data@,
            r.cursor() == 0,
    {
        let _ = data.len();
        Reader { data, pos: 0 }
    }

    /// Offset of the next byte to be read.
    pub fn position(&self) -> (p: usize)
        ensures
            p as int == self.cursor(),
    {
        self.pos
    }

    /// Length of the whole stream.
    pub fn len(&self) -> (n: usize)
        ensures
            n as nat == self.bytes().len(),
    {
        self.data.len()
    }

    /// Number of bytes from the cursor to the end of the stream.
    pub fn remaining(&self) -> (n: usize)
        requires
            self.wf(),
        ensures
            n as int == self.bytes().len() - self.cursor(),
    {
        self.data.len() - self.pos
    }

    /// Whether the cursor has reached the end of the stream.
    pub fn at_end(&self) -> (b: bool)
        requires
            self.wf(),
        ensures
            b == (self.cursor() >= self.bytes().len()),
    {
        self.pos >= self.data.len()
    }

    /// Moves the cursor to `target` if that lies within the stream or at its
    /// end, and says whether it did.
    pub fn seek(&mut self, target: usize) -> (moved: bool)
        requires
            old(self).wf(),
        ensures
            final(self).follows(old(self)),
            moved == (target <= old(self).bytes().len()),
            final(self).cursor() == if moved {
                target as int
            } else {
                old(self).cursor()
            },
    {
        if target <= self.data.len() {
            self.pos = target;
            true
        } else {
            false
        }
    }

    /// Checks that `n` more bytes can be read, without reading them.
    pub fn need(&self, n: u64) -> (res: Result<(), ParseError>)
        requires
            self.wf(),
        ensures
            match res {
                Ok(_) => self.cursor() + n <= self.bytes().len(),
                Err(e) => self.cursor() + n > self.bytes().len() && e == truncated(
                    self.cursor(),
                    n as int,
                    self.bytes().len() as int,
                ),
            },
    {
        let left: usize = self.data.len() - self.pos;
        if n <= left as u64 {
            Ok(())
        } else {
            Err(
                ParseError::at(
                    FormatError::TruncatedData { needed: n, available: left as u64 },
                    self.pos,
                ),
            )
        }
    }

    /// Moves the cursor `n` bytes forward, or fails if fewer are left.
    pub fn skip(&mut self, n: u64) -> (res: Result<(), ParseError>)
        requires
            old(self).wf(),
        ensures
            final(self).follows(old(self)),
            match res {
                Ok(_) => old(self).cursor() + n <= old(self).bytes().len() && final(self).cursor()
                    == old(self).cursor() + n,
                Err(e) => old(self).cursor() + n > old(self).bytes().len() && e == truncated(
                    old(self).cursor(),
                    n as int,
                    old(self).bytes().len() as int,
                ) && final(self).cursor() == old(self).cursor(),
            },
    {
        self.need(n)?;
        self.pos = self.pos + n as usize;
        Ok(())
    }

    /// Reads one byte.
    pub fn read_u8(&mut self) -> (res: Result<u8, ParseError>)
        requires
            old(self).wf(),
        ensures
            final(self).follows(old(self)),
            match res {
                Ok(v) => old(self).cursor() + 1 <= old(self).bytes().len() && v == old(
                    self,
                ).bytes()[old(self).cursor()] && final(self).cursor() == old(self).cursor() + 1,
                Err(e) => old(self).cursor() + 1 > old(self).bytes().len() && e == truncated(
                    old(self).cursor(),
                    1,
                    old(self).bytes().len() as int,
                ) && final(self).cursor() == old(self).cursor(),
            },
    {
        self.need(1)?;
        let v = self.data[self.pos];
        self.pos = self.pos + 1;
        Ok(v)
    }

    /// Reads a signed 16-bit little-endian integer.
    pub fn read_i16(&mut self) -> (res: Result<i16, ParseError>)
        requires
            old(self).wf(),
        ensures
            final(self).follows(old(self)),
            match res {
                Ok(v) => old(self).cursor() + 2 <= old(self).bytes().len() && v as int == le_i16(
                    old(self).bytes(),
                    old(self).cursor(),
                ) && final(self).cursor() == old(self).cursor() + 2,
                Err(e) => old(self).cursor() + 2 > old(self).bytes().len() && e == truncated(
                    old(self).cursor(),
                    2,
                    old(self).bytes().len() as int,
                ) && final(self).cursor() == old(self).cursor(),
            },
    {
        self.need(2)?;
        let v = read_i16_le(slice_subrange(self.data, self.pos, self.pos + 2));
        self.pos = self.pos + 2;
        Ok(v)
    }

    /// Reads a signed 32-bit little-endian integer.
    pub fn read_i32(&mut self) -> (res: Result<i32, ParseError>)
        requires
            old(self).wf(),
        ensures
            final(self).follows(old(self)),
            match res {
                Ok(v) => old(self).cursor() + 4 <= old(self).bytes().len() && v as int == le_i32(
                    old(self).bytes(),
                    old(self).cursor(),
                ) && final(self).cursor() == old(self).cursor() + 4,
                Err(e) => old(self).cursor() + 4 > old(self).bytes().len() && e == truncated(
                    old(self).cursor(),
                    4,
                    old(self).bytes().len() as int,
                ) && final(self).cursor() == old(self).cursor(),
            },
    {
        self.need(4)?;
        let v = read_i32_le(slice_subrange(self.data, self.pos, self.pos + 4));
        self.pos = self.pos + 4;
        Ok(v)
    }

    /// Reads an unsigned 32-bit little-endian integer.
    pub fn read_u32(&mut self) -> (res: Result<u32, ParseError>)
        requires
            old(self).wf(),
        ensures
            final(self).follows(old(self)),
            match res {
                Ok(v) => old(self).cursor() + 4 <= old(self).bytes().len() && v as int == le_u32(
                    old(self).bytes(),
                    old(self).cursor(),
                ) && final(self).cursor() == old(self).cursor() + 4,
                Err(e) => old(self).cursor() + 4 > old(self).bytes().len() && e == truncated(
                    old(self).cursor(),
                    4,
                    old(self).bytes().len() as int,
                ) && final(self).cursor() == old(self).cursor(),
            },
    {
        self.need(4)?;
        let v = read_u32_le(slice_subrange(self.data, self.pos, self.pos + 4));
        self.pos = self.pos + 4;
        Ok(v)
    }

    /// Reads a single-precision number: four bytes, kept as the number's bits.
    pub fn read_float(&mut self) -> (res: Result<Float32, ParseError>)
        requires
            old(self).wf(),
        ensures
            final(self).follows(old(self)),
            match res {
                Ok(v) => old(self).cursor() + 4 <= old(self).bytes().len() && v == float_at(
                    old(self).bytes(),
                    old(self).cursor(),
                ) && final(self).cursor() == old(self).cursor() + 4,
                Err(e) => old(self).cursor() + 4 > old(self).bytes().len() && e == truncated(
                    old(self).cursor(),
                    4,
                    old(self).bytes().len() as int,
                ) && final(self).cursor() == old(self).cursor(),
            },
    {
        let bits = self.read_u32()?;
        Ok(Float32 { bits })
    }

    /// Reads a length-prefixed string: a signed 32-bit length `n`, then `n`
    /// bytes, each taken as one character. A negative length reads as an
    /// empty string. The read consumes `4 + n` bytes, so four for an empty
    /// string.
    pub fn read_string(&mut self) -> (res: Result<String, ParseError>)
        requires
            old(self).wf(),
        ensures
            final(self).follows(old(self)),
            decoded(res, final(self).cursor(), spec_string(old(self).bytes(), old(self).cursor())),
            res matches Ok(s) ==> final(self).cursor() == old(self).cursor() + 4 + s@.len(),
            res matches Ok(s) ==> s@.len() == entries(
                le_i32(old(self).bytes(), old(self).cursor()),
            ),
    {
        let declared = self.read_i32()?;
        let n: usize = if declared < 0 {
            0
        } else {
            declared as usize
        };
        self.need(n as u64)?;
        let start: usize = self.pos;
        let mut text = String::new();
        let mut i: usize = 0;
        while i < n
            invariant
                i <= n,
                start + n <= self.data@.len() <= usize::MAX,
                text@ == chars_at(self.data@, start as int, i as int),
            decreases n - i,
        {
            text.push(self.data[start + i] as char);
            i = i + 1;
            assert(text@ =~= chars_at(self.data@, start as int, i as int));
        }
        self.pos = start + n;
        Ok(text)
    }
}

} // verus!
