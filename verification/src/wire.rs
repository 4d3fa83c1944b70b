//! The wire format, stated mathematically: for every primitive kind, a spec
//! function giving its canonical minimal-width encoding as a byte sequence,
//! and a spec function giving the result of decoding it (value and number of
//! bytes consumed, or the error) from the front of a byte sequence.
//!
//! Tag space, by leading byte:
//! `0x00..=0x7f` positive fixed integer; `0x80..=0x8f` fixed mapping;
//! `0x90..=0x9f` fixed sequence; `0xa0..=0xbf` fixed raw bytes;
//! `0xc0` nil; `0xc2`/`0xc3` booleans; `0xca`/`0xcb` 32-/64-bit floats;
//! `0xcc..=0xcf` unsigned 8/16/32/64-bit; `0xd0..=0xd3` signed 8/16/32/64-bit;
//! `0xda`/`0xdb` raw bytes with 16-/32-bit length; `0xdc`/`0xdd` sequences and
//! `0xde`/`0xdf` mappings with 16-/32-bit counts; `0xe0..=0xff` negative
//! fixed integer; `0xc1`, `0xc4..=0xc9`, `0xd4..=0xd9` reserved.

use crate::error::Error;
use vstd::prelude::*;

verus! {

/// Reserved leading bytes: never emitted, always a decode error.
pub open spec fn is_reserved(c: u8) -> bool {
    c == 0xc1 || (0xc4 <= c && c <= 0xc9) || (0xd4 <= c && c <= 0xd9)
}

// ---------------------------------------------------------------------------
// Big-endian byte strings of the fixed-width payloads.
// ---------------------------------------------------------------------------

/// The two big-endian bytes of a 16-bit value.
pub open spec fn be2_bytes(v: u16) -> Seq<u8> {
    seq![(v as int / 0x100) as u8, (v as int % 0x100) as u8]
}

/// The four big-endian bytes of a 32-bit value.
pub open spec fn be4_bytes(v: u32) -> Seq<u8> {
    seq![
        (v as int / 0x100_0000) as u8,
        ((v as int / 0x1_0000) % 0x100) as u8,
        ((v as int / 0x100) % 0x100) as u8,
        (v as int % 0x100) as u8,
    ]
}

/// The eight big-endian bytes of a 64-bit value.
pub open spec fn be8_bytes(v: u64) -> Seq<u8> {
    seq![
        (v as int / 0x100_0000_0000_0000) as u8,
        ((v as int / 0x1_0000_0000_0000) % 0x100) as u8,
        ((v as int / 0x100_0000_0000) % 0x100) as u8,
        ((v as int / 0x1_0000_0000) % 0x100) as u8,
        ((v as int / 0x100_0000) % 0x100) as u8,
        ((v as int / 0x1_0000) % 0x100) as u8,
        ((v as int / 0x100) % 0x100) as u8,
        (v as int % 0x100) as u8,
    ]
}

/// The value spelled by two big-endian bytes.
pub open spec fn be2_val(b0: u8, b1: u8) -> u64 {
    ((b0 as int) * 0x100 + (b1 as int)) as u64
}

/// The value spelled by four big-endian bytes.
pub open spec fn be4_val(b0: u8, b1: u8, b2: u8, b3: u8) -> u64 {
    ((b0 as int) * 0x100_0000 + (b1 as int) * 0x1_0000 + (b2 as int) * 0x100 + (b3 as int)) as u64
}

/// The value spelled by eight big-endian bytes.
pub open spec fn be8_val(b0: u8, b1: u8, b2: u8, b3: u8, b4: u8, b5: u8, b6: u8, b7: u8) -> u64 {
    ((b0 as int) * 0x100_0000_0000_0000 + (b1 as int) * 0x1_0000_0000_0000 + (b2 as int)
        * 0x100_0000_0000 + (b3 as int) * 0x1_0000_0000 + (b4 as int) * 0x100_0000 + (b5 as int)
        * 0x1_0000 + (b6 as int) * 0x100 + (b7 as int)) as u64
}

// ---------------------------------------------------------------------------
// Two's-complement views of signed payloads.
// ---------------------------------------------------------------------------

/// The single byte carrying a signed value in `-0x80..=0x7f`.
pub open spec fn i8_byte(v: i64) -> u8
    recommends
        -0x80 <= v <= 0x7f,
{
    if v >= 0 {
        v as u8
    } else {
        (v + 0x100) as u8
    }
}

/// The 16-bit two's-complement image of a signed value in range.
pub open spec fn i16_image(v: i64) -> u16
    recommends
        -0x8000 <= v <= 0x7fff,
{
    if v >= 0 {
        v as u16
    } else {
        (v + 0x1_0000) as u16
    }
}

/// The 32-bit two's-complement image of a signed value in range.
pub open spec fn i32_image(v: i64) -> u32
    recommends
        -0x8000_0000 <= v <= 0x7fff_ffff,
{
    if v >= 0 {
        v as u32
    } else {
        (v + 0x1_0000_0000) as u32
    }
}

/// The 64-bit two's-complement image of a signed value.
pub open spec fn i64_image(v: i64) -> u64 {
    if v >= 0 {
        v as u64
    } else {
        (v as int + 0x1_0000_0000_0000_0000) as u64
    }
}

/// The signed value a single two's-complement byte spells.
pub open spec fn i8_val(b: u8) -> i64 {
    if b < 0x80 {
        b as i64
    } else {
        (b - 0x100) as i64
    }
}

/// The signed value a 16-bit two's-complement image spells.
pub open spec fn i16_val(w: u64) -> i64
    recommends
        w < 0x1_0000,
{
    if w < 0x8000 {
        w as i64
    } else {
        (w - 0x1_0000) as i64
    }
}

/// The signed value a 32-bit two's-complement image spells.
pub open spec fn i32_val(w: u64) -> i64
    recommends
        w < 0x1_0000_0000,
{
    if w < 0x8000_0000 {
        w as i64
    } else {
        (w - 0x1_0000_0000) as i64
    }
}

/// The signed value a 64-bit two's-complement image spells.
pub open spec fn i64_val(w: u64) -> i64 {
    if w < 0x8000_0000_0000_0000 {
        w as i64
    } else {
        (w as int - 0x1_0000_0000_0000_0000) as i64
    }
}

// ---------------------------------------------------------------------------
// Canonical encodings.
// ---------------------------------------------------------------------------

/// The canonical encoding of an unsigned integer: the narrowest of the
/// positive fixed integer and the 8/16/32/64-bit unsigned tags that holds it.
pub open spec fn enc_unsigned(v: u64) -> Seq<u8> {
    if v <= 0x7f {
        seq![v as u8]
    } else if v <= 0xff {
        seq![0xccu8, v as u8]
    } else if v <= 0xffff {
        seq![0xcdu8] + be2_bytes(v as u16)
    } else if v <= 0xffff_ffff {
        seq![0xceu8] + be4_bytes(v as u32)
    } else {
        seq![0xcfu8] + be8_bytes(v)
    }
}

/// The canonical encoding of a signed integer: the negative fixed integer
/// byte when the value lies in `-32..=-1`, else the narrowest of the
/// 8/16/32/64-bit signed tags that holds it.
pub open spec fn enc_signed(v: i64) -> Seq<u8> {
    if -32 <= v && v <= -1 {
        seq![i8_byte(v)]
    } else if -0x80 <= v && v <= 0x7f {
        seq![0xd0u8, i8_byte(v)]
    } else if -0x8000 <= v && v <= 0x7fff {
        seq![0xd1u8] + be2_bytes(i16_image(v))
    } else if -0x8000_0000 <= v && v <= 0x7fff_ffff {
        seq![0xd2u8] + be4_bytes(i32_image(v))
    } else {
        seq![0xd3u8] + be8_bytes(i64_image(v))
    }
}

/// The encoding of nil.
pub open spec fn enc_nil() -> Seq<u8> {
    seq![0xc0u8]
}

/// The encoding of a boolean.
pub open spec fn enc_bool(v: bool) -> Seq<u8> {
    if v {
        seq![0xc3u8]
    } else {
        seq![0xc2u8]
    }
}

/// The encoding of a 32-bit float, given as its IEEE bit pattern: always
/// fixed-width, never compacted.
pub open spec fn enc_f32_bits(v: u32) -> Seq<u8> {
    seq![0xcau8] + be4_bytes(v)
}

/// The encoding of a 64-bit float, given as its IEEE bit pattern.
pub open spec fn enc_f64_bits(v: u64) -> Seq<u8> {
    seq![0xcbu8] + be8_bytes(v)
}

/// The length prefix of a raw-bytes value: fixed tag up to 31 bytes, then
/// 16-bit, then 32-bit length.
pub open spec fn enc_raw_len(len: int) -> Seq<u8>
    recommends
        0 <= len <= 0xffff_ffff,
{
    if len <= 31 {
        seq![(0xa0 + len) as u8]
    } else if len <= 0xffff {
        seq![0xdau8] + be2_bytes(len as u16)
    } else {
        seq![0xdbu8] + be4_bytes(len as u32)
    }
}

/// The encoding of a raw-bytes value: length prefix, then the bytes verbatim.
pub open spec fn enc_raw(b: Seq<u8>) -> Seq<u8>
    recommends
        b.len() <= 0xffff_ffff,
{
    enc_raw_len(b.len() as int) + b
}

/// The encoding of a string: its UTF-8 bytes as a raw-bytes value.
pub open spec fn enc_str(s: Seq<char>) -> Seq<u8> {
    enc_raw(vstd::utf8::encode_utf8(s))
}

/// The count prefix of a sequence (or record): fixed tag up to 15 elements,
/// then 16-bit, then 32-bit count.
pub open spec fn enc_vec_len(len: int) -> Seq<u8>
    recommends
        0 <= len <= 0xffff_ffff,
{
    if len <= 15 {
        seq![(0x90 + len) as u8]
    } else if len <= 0xffff {
        seq![0xdcu8] + be2_bytes(len as u16)
    } else {
        seq![0xddu8] + be4_bytes(len as u32)
    }
}

/// The count prefix of a mapping.
pub open spec fn enc_map_len(len: int) -> Seq<u8>
    recommends
        0 <= len <= 0xffff_ffff,
{
    if len <= 15 {
        seq![(0x80 + len) as u8]
    } else if len <= 0xffff {
        seq![0xdeu8] + be2_bytes(len as u16)
    } else {
        seq![0xdfu8] + be4_bytes(len as u32)
    }
}

// ---------------------------------------------------------------------------
// Decoding, from the front of a byte sequence. Each function returns the
// value and the number of bytes consumed, or the error: reserved leading
// bytes give `InvalidTag`, tags of another wire type give `TypeMismatch`,
// missing bytes give `UnexpectedEndOfInput`.
// ---------------------------------------------------------------------------

/// Decodes an unsigned integer. Accepts the positive fixed integer and every
/// unsigned width tag, narrow or wide; the signed family is disjoint.
pub open spec fn dec_unsigned(s: Seq<u8>) -> Result<(u64, int), Error> {
    if s.len() < 1 {
        Err(Error::UnexpectedEndOfInput)
    } else {
        let c = s[0];
        if c <= 0x7f {
            Ok(((c as u64), 1))
        } else if c == 0xcc {
            if s.len() < 2 {
                Err(Error::UnexpectedEndOfInput)
            } else {
                Ok(((s[1] as u64), 2))
            }
        } else if c == 0xcd {
            if s.len() < 3 {
                Err(Error::UnexpectedEndOfInput)
            } else {
                Ok((be2_val(s[1], s[2]), 3))
            }
        } else if c == 0xce {
            if s.len() < 5 {
                Err(Error::UnexpectedEndOfInput)
            } else {
                Ok((be4_val(s[1], s[2], s[3], s[4]), 5))
            }
        } else if c == 0xcf {
            if s.len() < 9 {
                Err(Error::UnexpectedEndOfInput)
            } else {
                Ok((be8_val(s[1], s[2], s[3], s[4], s[5], s[6], s[7], s[8]), 9))
            }
        } else if is_reserved(c) {
            Err(Error::InvalidTag)
        } else {
            Err(Error::TypeMismatch)
        }
    }
}

/// Decodes a signed integer. Accepts the negative fixed integer and every
/// signed width tag; the unsigned family is disjoint.
pub open spec fn dec_signed(s: Seq<u8>) -> Result<(i64, int), Error> {
    if s.len() < 1 {
        Err(Error::UnexpectedEndOfInput)
    } else {
        let c = s[0];
        if 0xe0 <= c {
            Ok((i8_val(c), 1))
        } else if c == 0xd0 {
            if s.len() < 2 {
                Err(Error::UnexpectedEndOfInput)
            } else {
                Ok((i8_val(s[1]), 2))
            }
        } else if c == 0xd1 {
            if s.len() < 3 {
                Err(Error::UnexpectedEndOfInput)
            } else {
                Ok((i16_val(be2_val(s[1], s[2])), 3))
            }
        } else if c == 0xd2 {
            if s.len() < 5 {
                Err(Error::UnexpectedEndOfInput)
            } else {
                Ok((i32_val(be4_val(s[1], s[2], s[3], s[4])), 5))
            }
        } else if c == 0xd3 {
            if s.len() < 9 {
                Err(Error::UnexpectedEndOfInput)
            } else {
                Ok((i64_val(be8_val(s[1], s[2], s[3], s[4], s[5], s[6], s[7], s[8])), 9))
            }
        } else if is_reserved(c) {
            Err(Error::InvalidTag)
        } else {
            Err(Error::TypeMismatch)
        }
    }
}

/// Decodes nil: the exact tag `0xc0`.
pub open spec fn dec_nil(s: Seq<u8>) -> Result<int, Error> {
    if s.len() < 1 {
        Err(Error::UnexpectedEndOfInput)
    } else if s[0] == 0xc0 {
        Ok(1)
    } else if is_reserved(s[0]) {
        Err(Error::InvalidTag)
    } else {
        Err(Error::TypeMismatch)
    }
}

/// Decodes a boolean: exactly `0xc2` or `0xc3`.
pub open spec fn dec_bool(s: Seq<u8>) -> Result<(bool, int), Error> {
    if s.len() < 1 {
        Err(Error::UnexpectedEndOfInput)
    } else if s[0] == 0xc2 {
        Ok((false, 1))
    } else if s[0] == 0xc3 {
        Ok((true, 1))
    } else if is_reserved(s[0]) {
        Err(Error::InvalidTag)
    } else {
        Err(Error::TypeMismatch)
    }
}

/// Decodes a 32-bit float to its IEEE bit pattern: exactly tag `0xca`.
pub open spec fn dec_f32_bits(s: Seq<u8>) -> Result<(u32, int), Error> {
    if s.len() < 1 {
        Err(Error::UnexpectedEndOfInput)
    } else if s[0] == 0xca {
        if s.len() < 5 {
            Err(Error::UnexpectedEndOfInput)
        } else {
            Ok(((be4_val(s[1], s[2], s[3], s[4]) as u32), 5))
        }
    } else if is_reserved(s[0]) {
        Err(Error::InvalidTag)
    } else {
        Err(Error::TypeMismatch)
    }
}

/// Decodes a 64-bit float to its IEEE bit pattern: exactly tag `0xcb`.
pub open spec fn dec_f64_bits(s: Seq<u8>) -> Result<(u64, int), Error> {
    if s.len() < 1 {
        Err(Error::UnexpectedEndOfInput)
    } else if s[0] == 0xcb {
        if s.len() < 9 {
            Err(Error::UnexpectedEndOfInput)
        } else {
            Ok((be8_val(s[1], s[2], s[3], s[4], s[5], s[6], s[7], s[8]), 9))
        }
    } else if is_reserved(s[0]) {
        Err(Error::InvalidTag)
    } else {
        Err(Error::TypeMismatch)
    }
}

/// Decodes the header of a raw-bytes value: the payload length and the
/// header's own size. Accepts the fixed, 16-bit and 32-bit raw tags.
pub open spec fn dec_raw_header(s: Seq<u8>) -> Result<(int, int), Error> {
    if s.len() < 1 {
        Err(Error::UnexpectedEndOfInput)
    } else {
        let c = s[0];
        if 0xa0 <= c && c <= 0xbf {
            Ok(((c - 0xa0) as int, 1))
        } else if c == 0xda {
            if s.len() < 3 {
                Err(Error::UnexpectedEndOfInput)
            } else {
                Ok((be2_val(s[1], s[2]) as int, 3))
            }
        } else if c == 0xdb {
            if s.len() < 5 {
                Err(Error::UnexpectedEndOfInput)
            } else {
                Ok((be4_val(s[1], s[2], s[3], s[4]) as int, 5))
            }
        } else if is_reserved(c) {
            Err(Error::InvalidTag)
        } else {
            Err(Error::TypeMismatch)
        }
    }
}

/// Decodes a raw-bytes value: header, then that many bytes verbatim.
pub open spec fn dec_raw(s: Seq<u8>) -> Result<(Seq<u8>, int), Error> {
    match dec_raw_header(s) {
        Ok((len, hdr)) => {
            if s.len() < hdr + len {
                Err(Error::UnexpectedEndOfInput)
            } else {
                Ok((s.subrange(hdr, hdr + len), hdr + len))
            }
        },
        Err(e) => Err(e),
    }
}

/// Decodes a string: a raw-bytes value whose payload must be valid UTF-8.
pub open spec fn dec_str(s: Seq<u8>) -> Result<(Seq<char>, int), Error> {
    match dec_raw(s) {
        Ok((b, n)) => {
            if vstd::utf8::valid_utf8(b) {
                Ok((vstd::utf8::decode_utf8(b), n))
            } else {
                Err(Error::TypeMismatch)
            }
        },
        Err(e) => Err(e),
    }
}

/// Decodes a sequence count prefix: the element count and the bytes consumed.
pub open spec fn dec_vec_len(s: Seq<u8>) -> Result<(int, int), Error> {
    if s.len() < 1 {
        Err(Error::UnexpectedEndOfInput)
    } else {
        let c = s[0];
        if 0x90 <= c && c <= 0x9f {
            Ok(((c - 0x90) as int, 1))
        } else if c == 0xdc {
            if s.len() < 3 {
                Err(Error::UnexpectedEndOfInput)
            } else {
                Ok((be2_val(s[1], s[2]) as int, 3))
            }
        } else if c == 0xdd {
            if s.len() < 5 {
                Err(Error::UnexpectedEndOfInput)
            } else {
                Ok((be4_val(s[1], s[2], s[3], s[4]) as int, 5))
            }
        } else if is_reserved(c) {
            Err(Error::InvalidTag)
        } else {
            Err(Error::TypeMismatch)
        }
    }
}

/// Decodes a mapping count prefix: the pair count and the bytes consumed.
pub open spec fn dec_map_len(s: Seq<u8>) -> Result<(int, int), Error> {
    if s.len() < 1 {
        Err(Error::UnexpectedEndOfInput)
    } else {
        let c = s[0];
        if 0x80 <= c && c <= 0x8f {
            Ok(((c - 0x80) as int, 1))
        } else if c == 0xde {
            if s.len() < 3 {
                Err(Error::UnexpectedEndOfInput)
            } else {
                Ok((be2_val(s[1], s[2]) as int, 3))
            }
        } else if c == 0xdf {
            if s.len() < 5 {
                Err(Error::UnexpectedEndOfInput)
            } else {
                Ok((be4_val(s[1], s[2], s[3], s[4]) as int, 5))
            }
        } else if is_reserved(c) {
            Err(Error::InvalidTag)
        } else {
            Err(Error::TypeMismatch)
        }
    }
}

/// Decodes a count prefix of either aggregate kind: a mapping prefix gives
/// its pair count, a sequence prefix its element count.
pub open spec fn dec_elt_len(s: Seq<u8>) -> Result<(int, int), Error> {
    if s.len() < 1 {
        Err(Error::UnexpectedEndOfInput)
    } else {
        let c = s[0];
        if 0x80 <= c && c <= 0x9f {
            if c <= 0x8f {
                Ok(((c - 0x80) as int, 1))
            } else {
                Ok(((c - 0x90) as int, 1))
            }
        } else if c == 0xdc || c == 0xde {
            if s.len() < 3 {
                Err(Error::UnexpectedEndOfInput)
            } else {
                Ok((be2_val(s[1], s[2]) as int, 3))
            }
        } else if c == 0xdd || c == 0xdf {
            if s.len() < 5 {
                Err(Error::UnexpectedEndOfInput)
            } else {
                Ok((be4_val(s[1], s[2], s[3], s[4]) as int, 5))
            }
        } else if is_reserved(c) {
            Err(Error::InvalidTag)
        } else {
            Err(Error::TypeMismatch)
        }
    }
}

} // verus!
