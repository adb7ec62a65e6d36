//! A read position in a buffer of bytes, and the readers of little-endian values.

use byteorder::{ByteOrder, LittleEndian};
use vstd::prelude::*;
use vstd::slice::slice_subrange;

verus! {

/// The 16-bit number that two bytes write, least significant byte first.
pub open spec fn le_u16(bytes: Seq<u8>) -> u16 {
    (bytes[0] as int + 0x100 * bytes[1] as int) as u16
}

/// The 32-bit number that four bytes write, least significant byte first.
pub open spec fn le_u32(bytes: Seq<u8>) -> u32 {
    (bytes[0] as int + 0x100 * bytes[1] as int + 0x1_0000 * bytes[2] as int + 0x100_0000
        * bytes[3] as int) as u32
}

/// The 16-bit little-endian number at index `at` of `bytes`.
pub open spec fn u16_at(bytes: Seq<u8>, at: int) -> u16 {
    le_u16(bytes.subrange(at, at + 2))
}

/// The 32-bit little-endian number at index `at` of `bytes`.
pub open spec fn u32_at(bytes: Seq<u8>, at: int) -> u32 {
    le_u32(bytes.subrange(at, at + 4))
}

/// The signed number that a byte writes in two's complement.
pub open spec fn signed(byte: u8) -> i8 {
    if byte < 0x80 {
        byte as i8
    } else {
        (byte as int - 0x100) as i8
    }
}

/// Reads two bytes as a little-endian number.
///
/// Calls `byteorder::LittleEndian::read_u16`, which reads the first two bytes
/// of the buffer and panics on a shorter one.
#[verifier::external_body]
fn read_u16_le(buf: &[u8]) -> (n: u16)
    requires
        buf@.len() >= 2,
    ensures
        n == le_u16(buf@),
{
    LittleEndian::read_u16(buf)
}

/// Reads four bytes as a little-endian number.
///
/// Calls `byteorder::LittleEndian::read_u32`, which reads the first four bytes
/// of the buffer and panics on a shorter one.
#[verifier::external_body]
fn read_u32_le(buf: &[u8]) -> (n: u32)
    requires
        buf@.len() >= 4,
    ensures
        n == le_u32(buf@),
{
    LittleEndian::read_u32(buf)
}

/// Reads the little-endian 16-bit number at index `at`.
pub(crate) fn get_u16(bytes: &[u8], at: usize) -> (n: u16)
    requires
        at + 2 <= bytes@.len(),
    ensures
        n == u16_at(bytes@, at as int),
{
    let len: usize = bytes.len();
    read_u16_le(slice_subrange(bytes, at, at + 2))
}

/// Reads the little-endian 32-bit number at index `at`.
pub(crate) fn get_u32(bytes: &[u8], at: usize) -> (n: u32)
    requires
        at + 4 <= bytes@.len(),
    ensures
        n == u32_at(bytes@, at as int),
{
    let len: usize = bytes.len();
    read_u32_le(slice_subrange(bytes, at, at + 4))
}

/// The input ended before a value was complete.
#[derive(Clone, Copy, Debug, PartialEq, Eq, Structural)]
pub struct UnexpectedEof;

/// A read position in a buffer of bytes.
///
/// A read that succeeds moves the position behind what it read. A read that
/// finds too few bytes left fails and moves the position to the end of the
/// buffer.
#[derive(Debug)]
pub struct Cursor<'a> {
    bytes: &'a [u8],
    position: usize,
}

impl<'a> Cursor<'a> {
    /// The whole buffer.
    pub closed spec fn bytes(self) -> Seq<u8> {
        self.bytes@
    }

    /// The number of bytes before the read position.
    pub closed spec fn position(self) -> nat {
        self.position as nat
    }

    /// The bytes from the read position on.
    pub open spec fn remaining(self) -> Seq<u8> {
        if self.position() <= self.bytes().len() {
            self.bytes().skip(self.position() as int)
        } else {
            Seq::empty()
        }
    }

    /// Whether `next` is this cursor at position `position`.
    pub open spec fn moved_to(self, next: Cursor<'a>, position: int) -> bool {
        next.bytes() == self.bytes() && next.position() == position
    }

    /// Whether `next` is this cursor moved forward by `n` bytes.
    pub open spec fn advanced(self, next: Cursor<'a>, n: int) -> bool {
        self.moved_to(next, self.position() + n)
    }

    /// Whether `next` is this cursor at the end of its buffer.
    pub open spec fn at_end(self, next: Cursor<'a>) -> bool {
        self.moved_to(next, self.bytes().len() as int)
    }

    /// A cursor at the start of `bytes`.
    pub fn new(bytes: &'a [u8]) -> (cursor: Cursor<'a>)
        ensures
            cursor.bytes() == bytes@,
            cursor.position() == 0,
    {
        Cursor { bytes, position: 0 }
    }

    /// The read position.
    pub fn get_position(&self) -> (position: usize)
        ensures
            position == self.position(),
    {
        self.position
    }

    /// Moves the read position. Behind the end of the buffer nothing is left to read.
    pub fn set_position(&mut self, position: usize)
        ensures
            old(self).moved_to(*final(self), position as int),
    {
        self.position = position;
    }

    /// Reads `n` bytes and moves behind them.
    pub fn take(&mut self, n: usize) -> (r: Result<&'a [u8], UnexpectedEof>)
        ensures
            old(self).remaining().len() >= n ==> r is Ok && r->Ok_0@ == old(self).remaining().take(
                n as int,
            ) && old(self).advanced(*final(self), n as int) && final(self).remaining() == old(
                self,
            ).remaining().skip(n as int),
            old(self).remaining().len() < n ==> r is Err && old(self).at_end(*final(self)),
    {
        let len: usize = self.bytes.len();
        if n == 0 {
            let taken: &'a [u8] = slice_subrange(self.bytes, 0, 0);
            assert(taken@ =~= old(self).remaining().take(0));
            assert(self.remaining() =~= old(self).remaining().skip(0));
            Ok(taken)
        } else if self.position <= len && len - self.position >= n {
            let start: usize = self.position;
            let taken: &'a [u8] = slice_subrange(self.bytes, start, start + n);
            self.position = start + n;
            assert(taken@ =~= old(self).remaining().take(n as int));
            assert(self.remaining() =~= old(self).remaining().skip(n as int));
            Ok(taken)
        } else {
            self.position = len;
            Err(UnexpectedEof)
        }
    }

    /// Gives up reading: moves to the end.
    pub fn exhaust(&mut self)
        ensures
            old(self).at_end(*final(self)),
    {
        self.position = self.bytes.len();
    }

    /// Reads all the bytes that are left and moves to the end.
    pub fn take_rest(&mut self) -> (rest: &'a [u8])
        ensures
            rest@ == old(self).remaining(),
            old(self).at_end(*final(self)),
    {
        let len: usize = self.bytes.len();
        let start: usize = if self.position <= len {
            self.position
        } else {
            len
        };
        let rest: &'a [u8] = slice_subrange(self.bytes, start, len);
        self.position = len;
        assert(rest@ =~= old(self).remaining());
        rest
    }

    /// Reads one byte.
    pub fn read_u8(&mut self) -> (r: Result<u8, UnexpectedEof>)
        ensures
            old(self).remaining().len() >= 1 ==> r == Ok::<u8, UnexpectedEof>(
                old(self).remaining()[0],
            ) && old(self).advanced(*final(self), 1) && final(self).remaining() == old(
                self,
            ).remaining().skip(1),
            old(self).remaining().len() < 1 ==> r is Err && old(self).at_end(*final(self)),
    {
        match self.take(1) {
            Ok(bytes) => Ok(bytes[0]),
            Err(e) => Err(e),
        }
    }

    /// Reads one byte as a signed number.
    pub fn read_i8(&mut self) -> (r: Result<i8, UnexpectedEof>)
        ensures
            old(self).remaining().len() >= 1 ==> r == Ok::<i8, UnexpectedEof>(
                signed(old(self).remaining()[0]),
            ) && old(self).advanced(*final(self), 1) && final(self).remaining() == old(
                self,
            ).remaining().skip(1),
            old(self).remaining().len() < 1 ==> r is Err && old(self).at_end(*final(self)),
    {
        match self.take(1) {
            Ok(bytes) => Ok(to_signed(bytes[0])),
            Err(e) => Err(e),
        }
    }

    /// Reads a little-endian 16-bit number.
    pub fn read_u16(&mut self) -> (r: Result<u16, UnexpectedEof>)
        ensures
            old(self).remaining().len() >= 2 ==> r == Ok::<u16, UnexpectedEof>(
                le_u16(old(self).remaining().take(2)),
            ) && old(self).advanced(*final(self), 2) && final(self).remaining() == old(
                self,
            ).remaining().skip(2),
            old(self).remaining().len() < 2 ==> r is Err && old(self).at_end(*final(self)),
    {
        match self.take(2) {
            Ok(bytes) => {
                assert(bytes@.subrange(0, 2) =~= bytes@);
                Ok(get_u16(bytes, 0))
            },
            Err(e) => Err(e),
        }
    }

    /// Reads a little-endian 32-bit number.
    pub fn read_u32(&mut self) -> (r: Result<u32, UnexpectedEof>)
        ensures
            old(self).remaining().len() >= 4 ==> r == Ok::<u32, UnexpectedEof>(
                le_u32(old(self).remaining().take(4)),
            ) && old(self).advanced(*final(self), 4) && final(self).remaining() == old(
                self,
            ).remaining().skip(4),
            old(self).remaining().len() < 4 ==> r is Err && old(self).at_end(*final(self)),
    {
        match self.take(4) {
            Ok(bytes) => {
                assert(bytes@.subrange(0, 4) =~= bytes@);
                Ok(get_u32(bytes, 0))
            },
            Err(e) => Err(e),
        }
    }
}

/// Reads a byte as a signed number in two's complement.
pub fn to_signed(byte: u8) -> (n: i8)
    ensures
        n == signed(byte),
{
    if byte < 0x80 {
        byte as i8
    } else {
        (byte as i16 - 0x100) as i8
    }
}

} // verus!
