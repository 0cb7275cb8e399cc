//! Big-endian interpretation of fixed-width byte groups.
//!
//! The class-file format stores every multi-byte integer most significant
//! byte first. The spec functions here give the mathematical value of a
//! byte group, and the executable functions compute it.

use vstd::prelude::*;

verus! {

/// Value of two bytes read most significant first.
pub open spec fn be16(s: Seq<u8>) -> int
    recommends
        s.len() == 2,
{
    s[0] * 0x100 + s[1]
}

/// Value of four bytes read most significant first.
pub open spec fn be32(s: Seq<u8>) -> int
    recommends
        s.len() == 4,
{
    s[0] * 0x1000000 + s[1] * 0x10000 + s[2] * 0x100 + s[3]
}

/// Value of eight bytes read most significant first.
pub open spec fn be64(s: Seq<u8>) -> int
    recommends
        s.len() == 8,
{
    s[0] * 0x100000000000000 + s[1] * 0x1000000000000 + s[2] * 0x10000000000 + s[3] * 0x100000000
        + s[4] * 0x1000000 + s[5] * 0x10000 + s[6] * 0x100 + s[7]
}

/// Two's-complement reading of a 16-bit unsigned value.
pub open spec fn signed16(v: int) -> int {
    if v < 0x8000 {
        v
    } else {
        v - 0x10000
    }
}

/// Two's-complement reading of a 32-bit unsigned value.
pub open spec fn signed32(v: int) -> int {
    if v < 0x80000000 {
        v
    } else {
        v - 0x100000000
    }
}

/// Two's-complement reading of a 64-bit unsigned value.
pub open spec fn signed64(v: int) -> int {
    if v < 0x8000000000000000 {
        v
    } else {
        v - 0x10000000000000000
    }
}

pub fn parse_u16(b: [u8; 2]) -> (r: u16)
    ensures
        r == be16(b@),
{
    b[0] as u16 * 0x100 + b[1] as u16
}

pub fn parse_u32(b: [u8; 4]) -> (r: u32)
    ensures
        r == be32(b@),
{
    b[0] as u32 * 0x1000000 + b[1] as u32 * 0x10000 + b[2] as u32 * 0x100 + b[3] as u32
}

pub fn parse_u64(b: [u8; 8]) -> (r: u64)
    ensures
        r == be64(b@),
{
    b[0] as u64 * 0x100000000000000 + b[1] as u64 * 0x1000000000000 + b[2] as u64 * 0x10000000000
        + b[3] as u64 * 0x100000000 + b[4] as u64 * 0x1000000 + b[5] as u64 * 0x10000
        + b[6] as u64 * 0x100 + b[7] as u64
}

pub fn parse_i16(b: [u8; 2]) -> (r: i16)
    ensures
        r == signed16(be16(b@)),
{
    let v: i32 = b[0] as i32 * 0x100 + b[1] as i32;
    if v < 0x8000 {
        v as i16
    } else {
        (v - 0x10000) as i16
    }
}

pub fn parse_i32(b: [u8; 4]) -> (r: i32)
    ensures
        r == signed32(be32(b@)),
{
    i32_from_bits(parse_u32(b))
}

pub fn parse_i64(b: [u8; 8]) -> (r: i64)
    ensures
        r == signed64(be64(b@)),
{
    i64_from_bits(parse_u64(b))
}

/// The signed integer carried by a 32-bit two's-complement pattern.
pub fn i32_from_bits(u: u32) -> (r: i32)
    ensures
        r == signed32(u as int),
{
    if u < 0x80000000 {
        u as i32
    } else {
        (u as i64 - 0x100000000) as i32
    }
}

/// The signed integer carried by a 64-bit two's-complement pattern.
pub fn i64_from_bits(u: u64) -> (r: i64)
    ensures
        r == signed64(u as int),
{
    if u < 0x8000000000000000 {
        u as i64
    } else {
        let m: u64 = (0xffffffffffffffffu64 - u) + 1;
        if m == 0x8000000000000000 {
            -0x7fffffffffffffffi64 - 1
        } else {
            -(m as i64)
        }
    }
}

} // verus!
