//! Fixed-width little-endian fields of an instruction payload.

use crate::double::Double;
use vstd::bytes::spec_u128_from_le_bytes;
use vstd::bytes::spec_u64_from_le_bytes;
use vstd::bytes::u128_from_le_bytes;
use vstd::bytes::u64_from_le_bytes;
use vstd::prelude::*;

verus! {

/// A field that takes a fixed number of bytes in a payload.
pub trait Unpackable {
    /// The number of bytes that the field takes.
    spec fn width() -> usize;

    fn get_bytes() -> (n: usize)
        ensures
            n == Self::width(),
    ;
}

impl Unpackable for u64 {
    open spec fn width() -> usize {
        8
    }

    fn get_bytes() -> (n: usize) {
        8
    }
}

impl Unpackable for Double {
    open spec fn width() -> usize {
        8
    }

    fn get_bytes() -> (n: usize) {
        8
    }
}

impl Unpackable for u128 {
    open spec fn width() -> usize {
        16
    }

    fn get_bytes() -> (n: usize) {
        16
    }
}

/// A field that is read from its little-endian bytes.
pub trait ByteDeserialize: Unpackable + Sized {
    /// The value that the bytes hold.
    spec fn decoded(bytes: Seq<u8>) -> Self;

    fn from_le_bytes(bytes: &[u8]) -> (r: Self)
        requires
            bytes@.len() == Self::width(),
        ensures
            r == Self::decoded(bytes@),
    ;
}

impl ByteDeserialize for u64 {
    open spec fn decoded(bytes: Seq<u8>) -> u64 {
        spec_u64_from_le_bytes(bytes)
    }

    fn from_le_bytes(bytes: &[u8]) -> (r: u64) {
        u64_from_le_bytes(bytes)
    }
}

impl ByteDeserialize for Double {
    open spec fn decoded(bytes: Seq<u8>) -> Double {
        Double { bits: spec_u64_from_le_bytes(bytes) }
    }

    fn from_le_bytes(bytes: &[u8]) -> (r: Double) {
        Double { bits: u64_from_le_bytes(bytes) }
    }
}

impl ByteDeserialize for u128 {
    open spec fn decoded(bytes: Seq<u8>) -> u128 {
        spec_u128_from_le_bytes(bytes)
    }

    fn from_le_bytes(bytes: &[u8]) -> (r: u128) {
        u128_from_le_bytes(bytes)
    }
}

} // verus!
