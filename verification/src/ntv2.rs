//! Byte-level access to NTv2 grid files.
//!
//! An NTv2 file begins with an overview header of 11 records of 16 bytes.
//! Its `NUM_OREC` field holds the value 11 in the file's native byte
//! order, so the low byte at offset 8 reads 11 exactly when the file is
//! little-endian. Every numeric field is then decoded accordingly.
//! Floating-point fields are handed out as their bit patterns; the caller
//! reinterprets them.

use vstd::prelude::*;

use crate::error::GeodesyError;
use vstd::string::StringSliceAdditionalSpecFns;

verus! {

/// Byte order of one NTv2 file.
#[derive(Clone, Copy, Debug, PartialEq, Eq, Structural)]
pub enum Endianness {
    Be,
    Le,
}

/// Both the overview header and each sub-grid header hold 11 records of
/// 16 bytes.
pub const HEADER_SIZE: usize = 11 * 16;

/// Offset of the `NUM_OREC` record count in the overview header.
pub const HEAD_NUM_RECORDS: usize = 8;

/// A 32-bit big-endian value read at `o`.
pub open spec fn spec_u32_be(b: Seq<u8>, o: int) -> int {
    b[o] * 0x100_0000 + b[o + 1] * 0x1_0000 + b[o + 2] * 0x100 + b[o + 3]
}

/// A 32-bit little-endian value read at `o`.
pub open spec fn spec_u32_le(b: Seq<u8>, o: int) -> int {
    b[o + 3] * 0x100_0000 + b[o + 2] * 0x1_0000 + b[o + 1] * 0x100 + b[o]
}

/// A 64-bit big-endian value read at `o`.
pub open spec fn spec_u64_be(b: Seq<u8>, o: int) -> int {
    spec_u32_be(b, o) * 0x1_0000_0000 + spec_u32_be(b, o + 4)
}

/// A 64-bit little-endian value read at `o`.
pub open spec fn spec_u64_le(b: Seq<u8>, o: int) -> int {
    spec_u32_le(b, o + 4) * 0x1_0000_0000 + spec_u32_le(b, o)
}

/// An NTv2 buffer with its detected byte order.
pub struct NTv2Parser {
    pub buf: Vec<u8>,
    pub endian: Endianness,
}

/// Relies on std::str::from_utf8: a slice of bytes below 128 is valid
/// UTF-8 and decodes to exactly those bytes as characters.
#[verifier::external_body]
fn ascii_bytes_to_string(bytes: &Vec<u8>) -> (r: Option<String>)
    ensures
        (forall|i: int| 0 <= i < bytes@.len() ==> bytes@[i] < 128) ==> match r {
            Some(s) => s@ == bytes@.map_values(|b: u8| b as char),
            None => false,
        },
{
    match std::str::from_utf8(bytes.as_slice()) {
        Ok(s) => Some(s.to_string()),
        Err(_) => None,
    }
}

impl NTv2Parser {
    /// Wrap a buffer; a header is expected to have 11 records, so the
    /// low byte of `NUM_OREC` decides the byte order.
    pub fn new(buf: Vec<u8>) -> (r: Self)
        requires
            buf@.len() > HEAD_NUM_RECORDS,
        ensures
            r.buf@ == buf@,
            r.endian == if buf@[HEAD_NUM_RECORDS as int] == 11 {
                Endianness::Le
            } else {
                Endianness::Be
            },
    {
        let endian = if buf[HEAD_NUM_RECORDS] == 11 {
            Endianness::Le
        } else {
            Endianness::Be
        };
        NTv2Parser { buf, endian }
    }

    /// The detected byte order.
    pub fn endian(&self) -> (r: Endianness)
        ensures
            r == self.endian,
    {
        self.endian
    }

    /// The 32-bit value at `offset`, decoded in the file's byte order.
    pub fn get_u32(&self, offset: usize) -> (r: u32)
        requires
            offset + 4 <= self.buf@.len(),
        ensures
            self.endian == Endianness::Be ==> r == spec_u32_be(self.buf@, offset as int),
            self.endian == Endianness::Le ==> r == spec_u32_le(self.buf@, offset as int),
    {
        let n = self.buf.len();
        let b0 = self.buf[offset] as u32;
        let b1 = self.buf[offset + 1] as u32;
        let b2 = self.buf[offset + 2] as u32;
        let b3 = self.buf[offset + 3] as u32;
        match self.endian {
            Endianness::Be => b0 * 0x100_0000 + b1 * 0x1_0000 + b2 * 0x100 + b3,
            Endianness::Le => b3 * 0x100_0000 + b2 * 0x1_0000 + b1 * 0x100 + b0,
        }
    }

    /// The 64-bit value at `offset`, decoded in the file's byte order:
    /// for a double-precision field this is its bit pattern.
    pub fn get_u64(&self, offset: usize) -> (r: u64)
        requires
            offset + 8 <= self.buf@.len(),
        ensures
            self.endian == Endianness::Be ==> r == spec_u64_be(self.buf@, offset as int),
            self.endian == Endianness::Le ==> r == spec_u64_le(self.buf@, offset as int),
    {
        let n = self.buf.len();
        match self.endian {
            Endianness::Be => {
                let hi = self.get_u32(offset) as u64;
                let lo = self.get_u32(offset + 4) as u64;
                hi * 0x1_0000_0000 + lo
            },
            Endianness::Le => {
                let b0 = self.buf[offset] as u64;
                assert(offset + 8 <= n);
                let b1 = self.buf[offset + 1] as u64;
                let b2 = self.buf[offset + 2] as u64;
                let b3 = self.buf[offset + 3] as u64;
                let b4 = self.buf[offset + 4] as u64;
                let b5 = self.buf[offset + 5] as u64;
                let b6 = self.buf[offset + 6] as u64;
                let b7 = self.buf[offset + 7] as u64;
                let lo = b3 * 0x100_0000 + b2 * 0x1_0000 + b1 * 0x100 + b0;
                let hi = b7 * 0x100_0000 + b6 * 0x1_0000 + b5 * 0x100 + b4;
                hi * 0x1_0000_0000 + lo
            },
        }
    }

    /// The text at `offset`: exactly the window's bytes as characters
    /// when they are ASCII, an error when they cannot be decoded.
    #[verifier::loop_isolation(false)]
    pub fn get_str(&self, offset: usize, len: usize) -> (r: Result<String, GeodesyError>)
        requires
            offset + len <= self.buf@.len(),
        ensures
            (forall|i: int|
                offset <= i < offset + len ==> self.buf@[i] < 128) ==> match r {
                Ok(s) => s@ == self.buf@.subrange(offset as int, offset + len).map_values(
                    |b: u8| b as char,
                ),
                Err(_) => false,
            },
    {
        let n = self.buf.len();
        let mut window: Vec<u8> = Vec::new();
        let mut i: usize = 0;
        while i < len
            invariant
                0 <= i <= len,
                window@ =~= self.buf@.subrange(offset as int, offset + i),
            decreases len - i,
        {
            window.push(self.buf[offset + i]);
            assert(window@ =~= self.buf@.subrange(offset as int, offset + i + 1));
            i = i + 1;
        }
        match ascii_bytes_to_string(&window) {
            Some(s) => Ok(s),
            None => Err(
                GeodesyError::Io(String::from_str("header text is not valid character data")),
            ),
        }
    }

    /// Whether the bytes at `offset` are exactly the UTF-8 encoding of
    /// `s`. This is how header magic such as record names is recognized.
    #[verifier::loop_isolation(false)]
    pub fn cmp_str(&self, offset: usize, s: &str) -> (r: bool)
        requires
            offset + s.spec_bytes().len() <= self.buf@.len(),
        ensures
            r == (self.buf@.subrange(offset as int, offset + s.spec_bytes().len())
                == s.spec_bytes()),
    {
        let bytes = s.as_bytes();
        let n = bytes.len();
        let total = self.buf.len();
        let mut i: usize = 0;
        while i < n
            invariant
                0 <= i <= n,
                forall|j: int| 0 <= j < i ==> self.buf@[offset + j] == s.spec_bytes()[j],
            decreases n - i,
        {
            if self.buf[offset + i] != bytes[i] {
                assert(self.buf@.subrange(offset as int, offset + n)[i as int]
                    != s.spec_bytes()[i as int]);
                return false;
            }
            i = i + 1;
        }
        proof {
            assert(self.buf@.subrange(offset as int, offset + n) =~= s.spec_bytes());
        }
        true
    }

    /// The whole underlying buffer.
    pub fn buffer(&self) -> (r: &[u8])
        ensures
            r@ == self.buf@,
    {
        self.buf.as_slice()
    }
}

} // verus!
