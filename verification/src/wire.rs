//! Little-endian integers on byte slices.
//!
//! The `spec_*` functions say what each integer is; the `read_*` functions
//! fetch it through the `bytes` crate.

use vstd::prelude::*;
use vstd::slice::slice_subrange;

verus! {

/// The unsigned 16-bit integer stored little-endian at `at`.
pub open spec fn spec_u16_le(s: Seq<u8>, at: int) -> u16 {
    (s[at] as int + 256 * (s[at + 1] as int)) as u16
}

/// The signed 16-bit integer stored little-endian (two's complement) at `at`.
pub open spec fn spec_i16_le(s: Seq<u8>, at: int) -> i16 {
    let raw = s[at] as int + 256 * (s[at + 1] as int);
    if raw >= 32768 {
        (raw - 65536) as i16
    } else {
        raw as i16
    }
}

/// The unsigned 32-bit integer stored little-endian at `at`.
pub open spec fn spec_u32_le(s: Seq<u8>, at: int) -> u32 {
    (s[at] as int + 256 * (s[at + 1] as int) + 65536 * (s[at + 2] as int) + 16777216 * (
    s[at + 3] as int)) as u32
}

/// `bytes::Buf::get_u8` on a slice: the first byte of `buf`.
/// The outside function panics on an empty buffer, which `requires` excludes.
#[verifier::external_body]
fn first_u8(buf: &[u8]) -> (v: u8)
    requires
        buf@.len() >= 1,
    ensures
        v == buf@[0],
{
    let mut cursor = buf;
    bytes::Buf::get_u8(&mut cursor)
}

/// `bytes::Buf::get_u16_le` on a slice: the first two bytes of `buf` read as a
/// little-endian unsigned integer. The outside function panics on fewer than
/// two bytes, which `requires` excludes.
#[verifier::external_body]
fn first_u16_le(buf: &[u8]) -> (v: u16)
    requires
        buf@.len() >= 2,
    ensures
        v == spec_u16_le(buf@, 0),
{
    let mut cursor = buf;
    bytes::Buf::get_u16_le(&mut cursor)
}

/// `bytes::Buf::get_i16_le` on a slice: the first two bytes of `buf` read as a
/// little-endian two's-complement integer. The outside function panics on
/// fewer than two bytes, which `requires` excludes.
#[verifier::external_body]
fn first_i16_le(buf: &[u8]) -> (v: i16)
    requires
        buf@.len() >= 2,
    ensures
        v == spec_i16_le(buf@, 0),
{
    let mut cursor = buf;
    bytes::Buf::get_i16_le(&mut cursor)
}

/// `bytes::Buf::get_u32_le` on a slice: the first four bytes of `buf` read as
/// a little-endian unsigned integer. The outside function panics on fewer
/// than four bytes, which `requires` excludes.
#[verifier::external_body]
fn first_u32_le(buf: &[u8]) -> (v: u32)
    requires
        buf@.len() >= 4,
    ensures
        v == spec_u32_le(buf@, 0),
{
    let mut cursor = buf;
    bytes::Buf::get_u32_le(&mut cursor)
}

/// Reads the byte at `at`.
pub fn read_u8(bytes: &[u8], at: usize) -> (v: u8)
    requires
        at < bytes.len(),
    ensures
        v == bytes@[at as int],
{
    let tail = slice_subrange(bytes, at, at + 1);
    first_u8(tail)
}

/// Reads the little-endian `u16` at `at`.
pub fn read_u16_le(bytes: &[u8], at: usize) -> (v: u16)
    requires
        at + 2 <= bytes.len(),
    ensures
        v == spec_u16_le(bytes@, at as int),
{
    let tail = slice_subrange(bytes, at, at + 2);
    first_u16_le(tail)
}

/// Reads the little-endian `i16` at `at`.
pub fn read_i16_le(bytes: &[u8], at: usize) -> (v: i16)
    requires
        at + 2 <= bytes.len(),
    ensures
        v == spec_i16_le(bytes@, at as int),
{
    let tail = slice_subrange(bytes, at, at + 2);
    first_i16_le(tail)
}

/// Reads the little-endian `u32` at `at`.
pub fn read_u32_le(bytes: &[u8], at: usize) -> (v: u32)
    requires
        at + 4 <= bytes.len(),
    ensures
        v == spec_u32_le(bytes@, at as int),
{
    let tail = slice_subrange(bytes, at, at + 4);
    first_u32_le(tail)
}

} // verus!
