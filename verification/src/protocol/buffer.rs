//! The growable byte buffer of the `bytes` crate, as the frame parser uses it.
//!
//! Every item here is trusted: its contract restates what the `bytes` source
//! documents and implements for `BytesMut`, `Buf` and `BufMut`.

use bytes::{Buf, BufMut, BytesMut};
use vstd::prelude::*;

verus! {

/// `bytes::BytesMut`, held opaquely; its contents are `bytes_contents`.
#[verifier::external_type_specification]
#[verifier::external_body]
pub struct ExBytesMut(bytes::BytesMut);

/// The bytes that a `BytesMut` currently holds, in order.
pub uninterp spec fn bytes_contents(b: BytesMut) -> Seq<u8>;

/// The number a little-endian pair of bytes stands for.
pub open spec fn le_u16(lo: u8, hi: u8) -> nat {
    lo as nat + 256 * (hi as nat)
}

/// `BytesMut::new`: an empty buffer.
#[verifier::external_body]
pub(crate) fn bytes_new() -> (b: BytesMut)
    ensures
        bytes_contents(b) == Seq::<u8>::empty(),
{
    BytesMut::new()
}

/// `BytesMut::extend_from_slice`: appends `data` at the end. It panics when
/// the buffer would outgrow what a vector can hold (`isize::MAX` bytes),
/// which `requires` leaves out.
#[verifier::external_body]
pub(crate) fn bytes_extend(b: &mut BytesMut, data: &[u8])
    requires
        bytes_contents(*old(b)).len() + data@.len() <= isize::MAX,
    ensures
        bytes_contents(*final(b)) == bytes_contents(*old(b)) + data@,
{
    b.extend_from_slice(data)
}

/// `BytesMut::len`: the number of bytes held.
#[verifier::external_body]
pub(crate) fn bytes_len(b: &BytesMut) -> (n: usize)
    ensures
        n == bytes_contents(*b).len(),
{
    b.len()
}

/// Indexing a `BytesMut` (through its `Deref` to `[u8]`): the byte at `i`.
#[verifier::external_body]
pub(crate) fn bytes_at(b: &BytesMut, i: usize) -> (v: u8)
    requires
        i < bytes_contents(*b).len(),
    ensures
        v == bytes_contents(*b)[i as int],
{
    b[i]
}

/// `Buf::advance` on a `BytesMut`: drops the first `n` bytes. It panics when
/// `n` exceeds the length, which `requires` leaves out.
#[verifier::external_body]
pub(crate) fn bytes_advance(b: &mut BytesMut, n: usize)
    requires
        n <= bytes_contents(*old(b)).len(),
    ensures
        bytes_contents(*final(b)) == bytes_contents(*old(b)).skip(n as int),
{
    b.advance(n)
}

/// `Buf::get_u16_le` on a `BytesMut`: reads the first two bytes as a
/// little-endian number and drops them. It panics on fewer than two bytes,
/// which `requires` leaves out.
#[verifier::external_body]
pub(crate) fn bytes_get_u16_le(b: &mut BytesMut) -> (v: u16)
    requires
        bytes_contents(*old(b)).len() >= 2,
    ensures
        v as nat == le_u16(bytes_contents(*old(b))[0], bytes_contents(*old(b))[1]),
        bytes_contents(*final(b)) == bytes_contents(*old(b)).skip(2),
{
    b.get_u16_le()
}

/// `BytesMut::split_to`: returns the first `at` bytes and keeps the rest. It
/// panics when `at` exceeds the length, which `requires` leaves out.
#[verifier::external_body]
pub(crate) fn bytes_split_to(b: &mut BytesMut, at: usize) -> (front: BytesMut)
    requires
        at <= bytes_contents(*old(b)).len(),
    ensures
        bytes_contents(front) == bytes_contents(*old(b)).take(at as int),
        bytes_contents(*final(b)) == bytes_contents(*old(b)).skip(at as int),
{
    b.split_to(at)
}

/// `BytesMut::freeze` followed by `to_vec` on the frozen `Bytes`: a vector
/// holding the same bytes.
#[verifier::external_body]
pub(crate) fn bytes_into_vec(b: BytesMut) -> (v: Vec<u8>)
    ensures
        v@ == bytes_contents(b),
{
    b.freeze().to_vec()
}

/// `BytesMut::clear`: drops every byte.
#[verifier::external_body]
pub(crate) fn bytes_clear(b: &mut BytesMut)
    ensures
        bytes_contents(*final(b)) == Seq::<u8>::empty(),
{
    b.clear()
}

/// `BufMut::put_u16_le` on a `Vec<u8>`: appends the low byte of `n`, then the
/// high byte. A vector never grows past `isize::MAX` bytes; `requires` keeps
/// within that.
#[verifier::external_body]
pub(crate) fn vec_put_u16_le(buf: &mut Vec<u8>, n: u16)
    requires
        old(buf)@.len() + 2 <= isize::MAX,
    ensures
        final(buf)@ == old(buf)@ + seq![(n % 256) as u8, (n / 256) as u8],
{
    buf.put_u16_le(n)
}

} // verus!
