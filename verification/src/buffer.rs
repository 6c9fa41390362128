//! Byte buffers for serialisation, backed by the `bytes` crate.
//!
//! A `BytesMut` is a growable write buffer, a `Bytes` an immutable,
//! cheaply cloneable byte string with a read cursor. The contents of
//! either is named by an abstract byte sequence (`bytes_mut_view`,
//! `bytes_view`); the wrappers below state, over those names, what the
//! buffer operations do as the crate's source shows it.
//!
//! The `bytes` crate caps every buffer at `isize::MAX` bytes
//! (`MAX_BUF_LEN` here): writes past that cap panic, so the write
//! wrappers require room for what they append.

use vstd::prelude::*;

use bytes::Buf;
use bytes::BufMut;

verus! {

/// The largest length a `bytes` buffer can reach (`isize::MAX`): its
/// writers panic once `MAX_BUF_LEN - len` is smaller than what they append.
pub const MAX_BUF_LEN: u64 = 0x7fff_ffff_ffff_ffff;

#[verifier::external_type_specification]
#[verifier::external_body]
pub struct ExBytes(bytes::Bytes);

#[verifier::external_type_specification]
#[verifier::external_body]
pub struct ExBytesMut(bytes::BytesMut);

/// The bytes an immutable buffer holds, from its cursor to its end.
pub uninterp spec fn bytes_view(b: bytes::Bytes) -> Seq<u8>;

/// The bytes written to a write buffer so far.
pub uninterp spec fn bytes_mut_view(b: bytes::BytesMut) -> Seq<u8>;

/// The big-endian bytes of a 16-bit integer.
pub open spec fn u16_to_be_bytes(v: u16) -> Seq<u8> {
    seq![(v >> 8) as u8, v as u8]
}

/// The 16-bit integer read big-endian from two bytes.
pub open spec fn u16_from_be_bytes(s: Seq<u8>) -> u16
    recommends
        s.len() == 2,
{
    (((s[0] as u16) << 8) | (s[1] as u16)) as u16
}

/// The big-endian bytes of a 64-bit integer.
pub open spec fn u64_to_be_bytes(v: u64) -> Seq<u8> {
    seq![
        (v >> 56) as u8,
        (v >> 48) as u8,
        (v >> 40) as u8,
        (v >> 32) as u8,
        (v >> 24) as u8,
        (v >> 16) as u8,
        (v >> 8) as u8,
        v as u8,
    ]
}

/// The 64-bit integer read big-endian from eight bytes.
pub open spec fn u64_from_be_bytes(s: Seq<u8>) -> u64
    recommends
        s.len() == 8,
{
    (((s[0] as u64) << 56) | ((s[1] as u64) << 48) | ((s[2] as u64) << 40) | ((s[3] as u64) << 32)
        | ((s[4] as u64) << 24) | ((s[5] as u64) << 16) | ((s[6] as u64) << 8) | (s[7] as u64)) as u64
}

/// Reading back the big-endian bytes of a 16-bit integer gives the integer.
pub proof fn lemma_u16_be_roundtrip(v: u16)
    ensures
        u16_from_be_bytes(u16_to_be_bytes(v)) == v,
{
    let b0 = (v >> 8) as u8;
    let b1 = v as u8;
    assert(u16_to_be_bytes(v)[0] == b0 && u16_to_be_bytes(v)[1] == b1);
    assert((((b0 as u16) << 8) | (b1 as u16)) == v) by (bit_vector)
        requires
            b0 == (v >> 8) as u8,
            b1 == v as u8,
    ;
}

/// Two bytes re-encode to themselves through the 16-bit integer they
/// spell big-endian.
pub proof fn lemma_u16_be_bytes_roundtrip(s: Seq<u8>)
    requires
        s.len() == 2,
    ensures
        u16_to_be_bytes(u16_from_be_bytes(s)) == s,
{
    let b0 = s[0];
    let b1 = s[1];
    let v = u16_from_be_bytes(s);
    assert((((((b0 as u16) << 8) | (b1 as u16)) as u16 >> 8) as u8) == b0 && (((((b0 as u16) << 8)
        | (b1 as u16)) as u16) as u8) == b1) by (bit_vector);
    assert(u16_to_be_bytes(v) =~= s);
}

/// Reading back the big-endian bytes of a 64-bit integer gives the integer.
pub proof fn lemma_u64_be_roundtrip(v: u64)
    ensures
        u64_from_be_bytes(u64_to_be_bytes(v)) == v,
{
    let b0 = (v >> 56) as u8;
    let b1 = (v >> 48) as u8;
    let b2 = (v >> 40) as u8;
    let b3 = (v >> 32) as u8;
    let b4 = (v >> 24) as u8;
    let b5 = (v >> 16) as u8;
    let b6 = (v >> 8) as u8;
    let b7 = v as u8;
    assert((((b0 as u64) << 56) | ((b1 as u64) << 48) | ((b2 as u64) << 40) | ((b3 as u64) << 32)
        | ((b4 as u64) << 24) | ((b5 as u64) << 16) | ((b6 as u64) << 8) | (b7 as u64)) == v)
        by (bit_vector)
        requires
            b0 == (v >> 56) as u8,
            b1 == (v >> 48) as u8,
            b2 == (v >> 40) as u8,
            b3 == (v >> 32) as u8,
            b4 == (v >> 24) as u8,
            b5 == (v >> 16) as u8,
            b6 == (v >> 8) as u8,
            b7 == v as u8,
    ;
}

/// Eight bytes re-encode to themselves through the 64-bit integer they
/// spell big-endian.
pub proof fn lemma_u64_be_bytes_roundtrip(s: Seq<u8>)
    requires
        s.len() == 8,
    ensures
        u64_to_be_bytes(u64_from_be_bytes(s)) == s,
{
    let b0 = s[0];
    let b1 = s[1];
    let b2 = s[2];
    let b3 = s[3];
    let b4 = s[4];
    let b5 = s[5];
    let b6 = s[6];
    let b7 = s[7];
    let v = u64_from_be_bytes(s);
    assert({
        let w = (((b0 as u64) << 56) | ((b1 as u64) << 48) | ((b2 as u64) << 40) | ((b3 as u64)
            << 32) | ((b4 as u64) << 24) | ((b5 as u64) << 16) | ((b6 as u64) << 8) | (
        b7 as u64)) as u64;
        &&& (w >> 56) as u8 == b0
        &&& (w >> 48) as u8 == b1
        &&& (w >> 40) as u8 == b2
        &&& (w >> 32) as u8 == b3
        &&& (w >> 24) as u8 == b4
        &&& (w >> 16) as u8 == b5
        &&& (w >> 8) as u8 == b6
        &&& w as u8 == b7
    }) by (bit_vector);
    assert(u64_to_be_bytes(v) =~= s);
}

/// Relies on `BytesMut::with_capacity`: a fresh, empty write buffer; the
/// capacity is only a pre-allocation hint.
#[verifier::external_body]
pub(crate) fn bytes_mut_with_capacity(cap: usize) -> (b: bytes::BytesMut)
    requires
        cap as u64 <= MAX_BUF_LEN,
    ensures
        bytes_mut_view(b) == Seq::<u8>::empty(),
{
    bytes::BytesMut::with_capacity(cap)
}

/// Relies on `BytesMut::len`; the crate caps allocations at `isize::MAX`,
/// so the length never exceeds `MAX_BUF_LEN`.
#[verifier::external_body]
pub(crate) fn bytes_mut_len(b: &bytes::BytesMut) -> (n: usize)
    ensures
        n == bytes_mut_view(*b).len(),
        n <= MAX_BUF_LEN,
{
    b.len()
}

/// Relies on `BufMut::put_u8` for `BytesMut`: appends one byte.
#[verifier::external_body]
pub(crate) fn put_u8(b: &mut bytes::BytesMut, v: u8)
    requires
        bytes_mut_view(*old(b)).len() + 1 <= MAX_BUF_LEN,
    ensures
        bytes_mut_view(*final(b)) == bytes_mut_view(*old(b)).push(v),
{
    b.put_u8(v);
}

/// Relies on `BufMut::put_u16` for `BytesMut`: appends two bytes,
/// big-endian.
#[verifier::external_body]
pub(crate) fn put_u16_be(b: &mut bytes::BytesMut, v: u16)
    requires
        bytes_mut_view(*old(b)).len() + 2 <= MAX_BUF_LEN,
    ensures
        bytes_mut_view(*final(b)) == bytes_mut_view(*old(b)) + u16_to_be_bytes(v),
{
    b.put_u16(v);
}

/// Relies on `BufMut::put_u64` for `BytesMut`: appends eight bytes,
/// big-endian.
#[verifier::external_body]
pub(crate) fn put_u64_be(b: &mut bytes::BytesMut, v: u64)
    requires
        bytes_mut_view(*old(b)).len() + 8 <= MAX_BUF_LEN,
    ensures
        bytes_mut_view(*final(b)) == bytes_mut_view(*old(b)) + u64_to_be_bytes(v),
{
    b.put_u64(v);
}

/// Relies on `BufMut::put_slice` for `BytesMut`: appends the slice.
#[verifier::external_body]
pub(crate) fn put_slice(b: &mut bytes::BytesMut, s: &[u8])
    requires
        bytes_mut_view(*old(b)).len() + s@.len() <= MAX_BUF_LEN,
    ensures
        bytes_mut_view(*final(b)) == bytes_mut_view(*old(b)) + s@,
{
    b.put_slice(s);
}

/// Relies on `BytesMut::freeze`: the immutable buffer holds exactly what
/// was written.
#[verifier::external_body]
pub(crate) fn freeze(b: bytes::BytesMut) -> (r: bytes::Bytes)
    ensures
        bytes_view(r) == bytes_mut_view(b),
{
    b.freeze()
}

/// Relies on `Bytes::len`: how many bytes remain to be read.
#[verifier::external_body]
pub(crate) fn bytes_len(b: &bytes::Bytes) -> (n: usize)
    ensures
        n == bytes_view(*b).len(),
{
    b.len()
}

/// Relies on `Buf::get_u8` for `Bytes`: reads the first byte and advances
/// past it; panics on an empty buffer, which the caller rules out.
#[verifier::external_body]
pub(crate) fn get_u8(b: &mut bytes::Bytes) -> (v: u8)
    requires
        bytes_view(*old(b)).len() >= 1,
    ensures
        v == bytes_view(*old(b))[0],
        bytes_view(*final(b)) == bytes_view(*old(b)).skip(1),
{
    b.get_u8()
}

/// Relies on `Buf::get_u16` for `Bytes`: reads two bytes big-endian and
/// advances past them.
#[verifier::external_body]
pub(crate) fn get_u16_be(b: &mut bytes::Bytes) -> (v: u16)
    requires
        bytes_view(*old(b)).len() >= 2,
    ensures
        v == u16_from_be_bytes(bytes_view(*old(b)).take(2)),
        bytes_view(*final(b)) == bytes_view(*old(b)).skip(2),
{
    b.get_u16()
}

/// Relies on `Buf::get_u64` for `Bytes`: reads eight bytes big-endian and
/// advances past them.
#[verifier::external_body]
pub(crate) fn get_u64_be(b: &mut bytes::Bytes) -> (v: u64)
    requires
        bytes_view(*old(b)).len() >= 8,
    ensures
        v == u64_from_be_bytes(bytes_view(*old(b)).take(8)),
        bytes_view(*final(b)) == bytes_view(*old(b)).skip(8),
{
    b.get_u64()
}

/// Relies on `Bytes::split_to`: splits off and returns the first `n`
/// bytes, leaving the rest.
#[verifier::external_body]
pub(crate) fn split_to(b: &mut bytes::Bytes, n: usize) -> (r: bytes::Bytes)
    requires
        n <= bytes_view(*old(b)).len(),
    ensures
        bytes_view(r) == bytes_view(*old(b)).take(n as int),
        bytes_view(*final(b)) == bytes_view(*old(b)).skip(n as int),
{
    b.split_to(n)
}

/// Relies on `Bytes` dereferencing to a slice of its contents.
#[verifier::external_body]
pub(crate) fn bytes_as_slice(b: &bytes::Bytes) -> (s: &[u8])
    ensures
        s@ == bytes_view(*b),
{
    b.as_ref()
}

/// Relies on `Bytes` dereferencing to a slice of its contents, copied out
/// with `slice::to_vec`.
#[verifier::external_body]
pub(crate) fn bytes_to_vec(b: &bytes::Bytes) -> (v: Vec<u8>)
    ensures
        v@ == bytes_view(*b),
{
    b.as_ref().to_vec()
}

} // verus!
