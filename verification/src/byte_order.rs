//! Integers on the wire: the two byte orders, as functions on byte sequences,
//! and the executable field accessors that read and write them at an offset.
use vstd::prelude::*;
use vstd::slice::slice_subrange;

verus! {

/// The order in which the bytes of an integer are laid out.
#[derive(Debug, Clone, Copy, PartialEq, Eq)]
pub enum ByteOrder {
    LittleEndian,
    BigEndian,
}

/// `s` with the bytes from `at` on replaced by `b`.
pub open spec fn splice(s: Seq<u8>, at: int, b: Seq<u8>) -> Seq<u8> {
    s.subrange(0, at) + b + s.skip(at + b.len())
}

/// `n` zero bytes.
pub open spec fn zeros(n: nat) -> Seq<u8> {
    Seq::new(n, |i: int| 0u8)
}

pub open spec fn u16_from_le(b: Seq<u8>) -> u16 {
    (b[0] as int + b[1] as int * 0x100) as u16
}

pub open spec fn u16_from_be(b: Seq<u8>) -> u16 {
    (b[1] as int + b[0] as int * 0x100) as u16
}

pub open spec fn u16_to_le(n: u16) -> Seq<u8> {
    seq![(n % 0x100) as u8, (n / 0x100) as u8]
}

pub open spec fn u16_to_be(n: u16) -> Seq<u8> {
    seq![(n / 0x100) as u8, (n % 0x100) as u8]
}

pub open spec fn u32_from_le(b: Seq<u8>) -> u32 {
    (b[0] as int + b[1] as int * 0x100 + b[2] as int * 0x1_0000 + b[3] as int * 0x100_0000) as u32
}

pub open spec fn u32_from_be(b: Seq<u8>) -> u32 {
    (b[3] as int + b[2] as int * 0x100 + b[1] as int * 0x1_0000 + b[0] as int * 0x100_0000) as u32
}

pub open spec fn u32_to_le(n: u32) -> Seq<u8> {
    seq![
        (n % 0x100) as u8,
        (n / 0x100 % 0x100) as u8,
        (n / 0x1_0000 % 0x100) as u8,
        (n / 0x100_0000) as u8,
    ]
}

pub open spec fn u32_to_be(n: u32) -> Seq<u8> {
    seq![
        (n / 0x100_0000) as u8,
        (n / 0x1_0000 % 0x100) as u8,
        (n / 0x100 % 0x100) as u8,
        (n % 0x100) as u8,
    ]
}

pub open spec fn u64_from_le(b: Seq<u8>) -> u64 {
    (u32_from_le(b) as int + u32_from_le(b.skip(4)) as int * 0x1_0000_0000) as u64
}

pub open spec fn u64_from_be(b: Seq<u8>) -> u64 {
    (u32_from_be(b.skip(4)) as int + u32_from_be(b) as int * 0x1_0000_0000) as u64
}

pub open spec fn u64_to_le(n: u64) -> Seq<u8> {
    u32_to_le((n % 0x1_0000_0000) as u32) + u32_to_le((n / 0x1_0000_0000) as u32)
}

pub open spec fn u64_to_be(n: u64) -> Seq<u8> {
    u32_to_be((n / 0x1_0000_0000) as u32) + u32_to_be((n % 0x1_0000_0000) as u32)
}

/// `byteorder::LittleEndian::read_u16`: the first two bytes of `buf`, the
/// low byte first. It panics on a shorter slice.
#[verifier::external_body]
fn le_read_u16(buf: &[u8]) -> (r: u16)
    requires
        buf@.len() >= 2,
    ensures
        r == u16_from_le(buf@),
{
    <byteorder::LittleEndian as byteorder::ByteOrder>::read_u16(buf)
}

/// `byteorder::BigEndian::read_u16`: the first two bytes of `buf`, the high
/// byte first. It panics on a shorter slice.
#[verifier::external_body]
fn be_read_u16(buf: &[u8]) -> (r: u16)
    requires
        buf@.len() >= 2,
    ensures
        r == u16_from_be(buf@),
{
    <byteorder::BigEndian as byteorder::ByteOrder>::read_u16(buf)
}

/// `byteorder::LittleEndian::read_u32`: the first four bytes of `buf`, the
/// low byte first. It panics on a shorter slice.
#[verifier::external_body]
fn le_read_u32(buf: &[u8]) -> (r: u32)
    requires
        buf@.len() >= 4,
    ensures
        r == u32_from_le(buf@),
{
    <byteorder::LittleEndian as byteorder::ByteOrder>::read_u32(buf)
}

/// `byteorder::BigEndian::read_u32`: the first four bytes of `buf`, the high
/// byte first. It panics on a shorter slice.
#[verifier::external_body]
fn be_read_u32(buf: &[u8]) -> (r: u32)
    requires
        buf@.len() >= 4,
    ensures
        r == u32_from_be(buf@),
{
    <byteorder::BigEndian as byteorder::ByteOrder>::read_u32(buf)
}

/// `byteorder::LittleEndian::read_u64`: the first eight bytes of `buf`, the
/// low byte first. It panics on a shorter slice.
#[verifier::external_body]
fn le_read_u64(buf: &[u8]) -> (r: u64)
    requires
        buf@.len() >= 8,
    ensures
        r == u64_from_le(buf@),
{
    <byteorder::LittleEndian as byteorder::ByteOrder>::read_u64(buf)
}

/// `byteorder::BigEndian::read_u64`: the first eight bytes of `buf`, the high
/// byte first. It panics on a shorter slice.
#[verifier::external_body]
fn be_read_u64(buf: &[u8]) -> (r: u64)
    requires
        buf@.len() >= 8,
    ensures
        r == u64_from_be(buf@),
{
    <byteorder::BigEndian as byteorder::ByteOrder>::read_u64(buf)
}

/// `byteorder::LittleEndian::write_u16`: overwrites the first two bytes of
/// `buf` and leaves the rest. It panics on a shorter slice.
#[verifier::external_body]
fn le_write_u16(buf: &mut [u8], n: u16)
    requires
        old(buf)@.len() >= 2,
    ensures
        final(buf)@ == u16_to_le(n) + old(buf)@.skip(2),
{
    <byteorder::LittleEndian as byteorder::ByteOrder>::write_u16(buf, n)
}

/// `byteorder::BigEndian::write_u16`: overwrites the first two bytes of `buf`
/// and leaves the rest. It panics on a shorter slice.
#[verifier::external_body]
fn be_write_u16(buf: &mut [u8], n: u16)
    requires
        old(buf)@.len() >= 2,
    ensures
        final(buf)@ == u16_to_be(n) + old(buf)@.skip(2),
{
    <byteorder::BigEndian as byteorder::ByteOrder>::write_u16(buf, n)
}

/// `byteorder::LittleEndian::write_u32`: overwrites the first four bytes of
/// `buf` and leaves the rest. It panics on a shorter slice.
#[verifier::external_body]
fn le_write_u32(buf: &mut [u8], n: u32)
    requires
        old(buf)@.len() >= 4,
    ensures
        final(buf)@ == u32_to_le(n) + old(buf)@.skip(4),
{
    <byteorder::LittleEndian as byteorder::ByteOrder>::write_u32(buf, n)
}

/// `byteorder::BigEndian::write_u32`: overwrites the first four bytes of `buf`
/// and leaves the rest. It panics on a shorter slice.
#[verifier::external_body]
fn be_write_u32(buf: &mut [u8], n: u32)
    requires
        old(buf)@.len() >= 4,
    ensures
        final(buf)@ == u32_to_be(n) + old(buf)@.skip(4),
{
    <byteorder::BigEndian as byteorder::ByteOrder>::write_u32(buf, n)
}

/// `byteorder::LittleEndian::write_u64`: overwrites the first eight bytes of
/// `buf` and leaves the rest. It panics on a shorter slice.
#[verifier::external_body]
fn le_write_u64(buf: &mut [u8], n: u64)
    requires
        old(buf)@.len() >= 8,
    ensures
        final(buf)@ == u64_to_le(n) + old(buf)@.skip(8),
{
    <byteorder::LittleEndian as byteorder::ByteOrder>::write_u64(buf, n)
}

/// `byteorder::BigEndian::write_u64`: overwrites the first eight bytes of `buf`
/// and leaves the rest. It panics on a shorter slice.
#[verifier::external_body]
fn be_write_u64(buf: &mut [u8], n: u64)
    requires
        old(buf)@.len() >= 8,
    ensures
        final(buf)@ == u64_to_be(n) + old(buf)@.skip(8),
{
    <byteorder::BigEndian as byteorder::ByteOrder>::write_u64(buf, n)
}

/// `byteorder::NativeEndian::read_u16`: the first two bytes of `buf` in the
/// order of the machine the program was built for, which is one of the two.
/// It panics on a shorter slice.
#[verifier::external_body]
fn ne_read_u16(buf: &[u8]) -> (r: u16)
    requires
        buf@.len() >= 2,
    ensures
        r == u16_from_le(buf@) || r == u16_from_be(buf@),
{
    <byteorder::NativeEndian as byteorder::ByteOrder>::read_u16(buf)
}

impl ByteOrder {
    /// The 16-bit integer that the first two bytes of `b` stand for.
    pub open spec fn u16_from(self, b: Seq<u8>) -> u16 {
        match self {
            ByteOrder::LittleEndian => u16_from_le(b),
            ByteOrder::BigEndian => u16_from_be(b),
        }
    }

    /// The two bytes that stand for `n`.
    pub open spec fn u16_bytes(self, n: u16) -> Seq<u8> {
        match self {
            ByteOrder::LittleEndian => u16_to_le(n),
            ByteOrder::BigEndian => u16_to_be(n),
        }
    }

    /// The 32-bit integer that the first four bytes of `b` stand for.
    pub open spec fn u32_from(self, b: Seq<u8>) -> u32 {
        match self {
            ByteOrder::LittleEndian => u32_from_le(b),
            ByteOrder::BigEndian => u32_from_be(b),
        }
    }

    /// The four bytes that stand for `n`.
    pub open spec fn u32_bytes(self, n: u32) -> Seq<u8> {
        match self {
            ByteOrder::LittleEndian => u32_to_le(n),
            ByteOrder::BigEndian => u32_to_be(n),
        }
    }

    /// The 64-bit integer that the first eight bytes of `b` stand for.
    pub open spec fn u64_from(self, b: Seq<u8>) -> u64 {
        match self {
            ByteOrder::LittleEndian => u64_from_le(b),
            ByteOrder::BigEndian => u64_from_be(b),
        }
    }

    /// The eight bytes that stand for `n`.
    pub open spec fn u64_bytes(self, n: u64) -> Seq<u8> {
        match self {
            ByteOrder::LittleEndian => u64_to_le(n),
            ByteOrder::BigEndian => u64_to_be(n),
        }
    }

    /// The order of the machine that runs the program, found by decoding the
    /// bytes `01 00` natively. Nothing is promised of the answer: contracts
    /// that depend on the order take it as a parameter.
    pub fn native() -> ByteOrder {
        let probe: [u8; 2] = [1, 0];
        let n: u16 = ne_read_u16(probe.as_slice());
        ByteOrder::reading_as(n)
    }

    /// The order in which the bytes `01 00` stand for `n`: the low byte
    /// first when they stand for 1, else the high byte first.
    pub open spec fn reading_as_spec(n: u16) -> ByteOrder {
        if n == 1 {
            ByteOrder::LittleEndian
        } else {
            ByteOrder::BigEndian
        }
    }

    /// The order in which the bytes `01 00` stand for `n`. For the two
    /// numbers that these bytes can stand for, 1 and 256, it is the order
    /// that reads them so.
    pub fn reading_as(n: u16) -> (r: ByteOrder)
        ensures
            r == ByteOrder::reading_as_spec(n),
            n == 1 || n == 0x100 ==> r.u16_from(seq![1u8, 0u8]) == n,
    {
        if n == 1 {
            ByteOrder::LittleEndian
        } else {
            ByteOrder::BigEndian
        }
    }

    /// The order of ports and addresses on the network.
    pub fn network() -> (r: ByteOrder)
        ensures
            r == ByteOrder::BigEndian,
    {
        ByteOrder::BigEndian
    }

    pub fn read_u16(self, buf: &[u8], at: usize) -> (r: u16)
        requires
            at + 2 <= buf.len(),
        ensures
            r == self.u16_from(buf@.subrange(at as int, at + 2)),
    {
        let field = slice_subrange(buf, at, at + 2);
        match self {
            ByteOrder::LittleEndian => le_read_u16(field),
            ByteOrder::BigEndian => be_read_u16(field),
        }
    }

    pub fn read_u32(self, buf: &[u8], at: usize) -> (r: u32)
        requires
            at + 4 <= buf.len(),
        ensures
            r == self.u32_from(buf@.subrange(at as int, at + 4)),
    {
        let field = slice_subrange(buf, at, at + 4);
        match self {
            ByteOrder::LittleEndian => le_read_u32(field),
            ByteOrder::BigEndian => be_read_u32(field),
        }
    }

    pub fn read_u64(self, buf: &[u8], at: usize) -> (r: u64)
        requires
            at + 8 <= buf.len(),
        ensures
            r == self.u64_from(buf@.subrange(at as int, at + 8)),
    {
        let field = slice_subrange(buf, at, at + 8);
        match self {
            ByteOrder::LittleEndian => le_read_u64(field),
            ByteOrder::BigEndian => be_read_u64(field),
        }
    }

    pub fn write_u16(self, buf: &mut [u8], at: usize, n: u16)
        requires
            at + 2 <= old(buf).len(),
        ensures
            final(buf)@ == splice(old(buf)@, at as int, self.u16_bytes(n)),
    {
        let (_head, field) = buf.split_at_mut(at);
        match self {
            ByteOrder::LittleEndian => le_write_u16(field, n),
            ByteOrder::BigEndian => be_write_u16(field, n),
        }
    }

    pub fn write_u32(self, buf: &mut [u8], at: usize, n: u32)
        requires
            at + 4 <= old(buf).len(),
        ensures
            final(buf)@ == splice(old(buf)@, at as int, self.u32_bytes(n)),
    {
        let (_head, field) = buf.split_at_mut(at);
        match self {
            ByteOrder::LittleEndian => le_write_u32(field, n),
            ByteOrder::BigEndian => be_write_u32(field, n),
        }
    }

    pub fn write_u64(self, buf: &mut [u8], at: usize, n: u64)
        requires
            at + 8 <= old(buf).len(),
        ensures
            final(buf)@ == splice(old(buf)@, at as int, self.u64_bytes(n)),
    {
        let (_head, field) = buf.split_at_mut(at);
        match self {
            ByteOrder::LittleEndian => le_write_u64(field, n),
            ByteOrder::BigEndian => be_write_u64(field, n),
        }
    }
}

/// Decoding what was encoded gives the integer back, in either order.
pub proof fn lemma_u16_round_trip(order: ByteOrder, n: u16)
    ensures
        order.u16_bytes(n).len() == 2,
        order.u16_from(order.u16_bytes(n)) == n,
{
}

/// Decoding what was encoded gives the integer back, in either order.
pub proof fn lemma_u32_round_trip(order: ByteOrder, n: u32)
    ensures
        order.u32_bytes(n).len() == 4,
        order.u32_from(order.u32_bytes(n)) == n,
{
    let v = n as int;
    let b0 = v % 0x100;
    let b1 = v / 0x100 % 0x100;
    let b2 = v / 0x1_0000 % 0x100;
    let b3 = v / 0x100_0000;
    assert(v == b0 + (v / 0x100) * 0x100);
    assert(v / 0x100 == b1 + (v / 0x1_0000) * 0x100);
    assert(v / 0x1_0000 == b2 + b3 * 0x100);
    assert(v == b0 + b1 * 0x100 + b2 * 0x1_0000 + b3 * 0x100_0000);
    assert(0 <= b3 < 0x100);
    match order {
        ByteOrder::LittleEndian => {
            let s = u32_to_le(n);
            assert(s[0] == b0 && s[1] == b1 && s[2] == b2 && s[3] == b3);
        },
        ByteOrder::BigEndian => {
            let s = u32_to_be(n);
            assert(s[3] == b0 && s[2] == b1 && s[1] == b2 && s[0] == b3);
        },
    }
}

/// Decoding what was encoded gives the integer back, in either order.
pub proof fn lemma_u64_round_trip(order: ByteOrder, n: u64)
    ensures
        order.u64_bytes(n).len() == 8,
        order.u64_from(order.u64_bytes(n)) == n,
{
    let lo = (n % 0x1_0000_0000) as u32;
    let hi = (n / 0x1_0000_0000) as u32;
    lemma_u32_round_trip(order, lo);
    lemma_u32_round_trip(order, hi);
    assert(order.u64_bytes(n).skip(4) =~= match order {
        ByteOrder::LittleEndian => u32_to_le(hi),
        ByteOrder::BigEndian => u32_to_be(lo),
    });
    assert(u32_from_le(u32_to_le(lo) + u32_to_le(hi)) == u32_from_le(u32_to_le(lo)));
    assert(u32_from_be(u32_to_be(hi) + u32_to_be(lo)) == u32_from_be(u32_to_be(hi)));
}

/// Encoding what was decoded from two bytes gives the bytes back.
pub proof fn lemma_u16_bytes_of_value(order: ByteOrder, b: Seq<u8>)
    requires
        b.len() == 2,
    ensures
        order.u16_bytes(order.u16_from(b)) == b,
{
    assert(order.u16_bytes(order.u16_from(b)) =~= b);
}

} // verus!
