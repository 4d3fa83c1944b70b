//! The typed decoder: offers one read operation per primitive kind over an
//! in-memory byte source. Every numeric read accepts any tag of the requested
//! signedness family, narrow or wide, decodes the full 64-bit value, and then
//! fails with `NumericOverflow` when the value does not fit the width the
//! caller asked for — it never silently truncates.

use crate::error::Error;
use crate::wire;
use vstd::prelude::*;

verus! {

/// Relies on `String::from_utf8`: it succeeds exactly on valid UTF-8 input
/// and returns the string those bytes spell.
#[verifier::external_body]
fn string_from_utf8(bytes: Vec<u8>) -> (r: Option<String>)
    ensures
        match r {
            Some(s) => vstd::utf8::valid_utf8(bytes@) && s@ == vstd::utf8::decode_utf8(bytes@),
            None => !vstd::utf8::valid_utf8(bytes@),
        },
{
    match String::from_utf8(bytes) {
        Ok(s) => Some(s),
        Err(_) => None,
    }
}

/// Reads values back from a byte source through an exclusive cursor. The
/// source is fixed at construction; `rest()` is the part not yet consumed.
pub struct Decoder {
    data: Vec<u8>,
    pos: usize,
}

impl Decoder {
    /// The whole byte source.
    pub closed spec fn all_bytes(self) -> Seq<u8> {
        self.data@
    }

    /// How many bytes have been consumed.
    pub closed spec fn cursor(self) -> int {
        self.pos as int
    }

    /// The cursor never runs past the end of the source.
    pub open spec fn wf(self) -> bool {
        0 <= self.cursor() <= self.all_bytes().len()
    }

    /// The bytes not yet consumed.
    pub open spec fn rest(self) -> Seq<u8> {
        self.all_bytes().skip(self.cursor())
    }

    /// A decoder positioned at the start of the given bytes.
    pub fn new(data: Vec<u8>) -> (r: Decoder)
        ensures
            r.wf(),
            r.all_bytes() == data@,
            r.cursor() == 0,
    {
        Decoder { data, pos: 0 }
    }

    /// True when every byte of the source has been consumed.
    pub fn is_at_end(&self) -> (r: bool)
        requires
            self.wf(),
        ensures
            r == (self.rest().len() == 0),
    {
        self.pos == self.data.len()
    }

    /// Looks at the next byte without consuming it.
    pub fn peek_byte(&self) -> (r: Option<u8>)
        requires
            self.wf(),
        ensures
            match r {
                Some(b) => self.rest().len() >= 1 && b == self.rest()[0],
                None => self.rest().len() == 0,
            },
    {
        if self.pos < self.data.len() {
            Some(self.data[self.pos])
        } else {
            None
        }
    }

    /// Reads the next single byte, or fails at the end of the input.
    pub fn _read_byte(&mut self) -> (r: Result<u8, Error>)
        requires
            old(self).wf(),
        ensures
            final(self).wf(),
            final(self).all_bytes() == old(self).all_bytes(),
            match r {
                Ok(b) => old(self).rest().len() >= 1 && b == old(self).rest()[0] && final(self).cursor() == old(self).cursor() + 1,
                Err(e) => e == Error::UnexpectedEndOfInput && old(self).rest().len() == 0 && final(self).cursor() == old(self).cursor(),
            },
    {
        if self.pos < self.data.len() {
            let b = self.data[self.pos];
            self.pos = self.pos + 1;
            Ok(b)
        } else {
            Err(Error::UnexpectedEndOfInput)
        }
    }

    /// Reads two bytes as a big-endian value.
    pub(crate) fn read_be2(&mut self) -> (r: Result<u64, Error>)
        requires
            old(self).wf(),
        ensures
            final(self).wf(),
            final(self).all_bytes() == old(self).all_bytes(),
            match r {
                Ok(v) => old(self).rest().len() >= 2 && v == wire::be2_val(
                    old(self).rest()[0],
                    old(self).rest()[1],
                ) && final(self).cursor() == old(self).cursor() + 2,
                Err(e) => e == Error::UnexpectedEndOfInput && old(self).rest().len() < 2 && old(self).cursor() <= final(self).cursor(),
            },
    {
        let b0 = match self._read_byte() {
            Ok(b) => b,
            Err(e) => {
                return Err(e);
            },
        };
        let b1 = match self._read_byte() {
            Ok(b) => b,
            Err(e) => {
                return Err(e);
            },
        };
        Ok((b0 as u64) * 0x100 + (b1 as u64))
    }

    /// Reads four bytes as a big-endian value.
    pub(crate) fn read_be4(&mut self) -> (r: Result<u64, Error>)
        requires
            old(self).wf(),
        ensures
            final(self).wf(),
            final(self).all_bytes() == old(self).all_bytes(),
            match r {
                Ok(v) => old(self).rest().len() >= 4 && v == wire::be4_val(
                    old(self).rest()[0],
                    old(self).rest()[1],
                    old(self).rest()[2],
                    old(self).rest()[3],
                ) && final(self).cursor() == old(self).cursor() + 4,
                Err(e) => e == Error::UnexpectedEndOfInput && old(self).rest().len() < 4 && old(self).cursor() <= final(self).cursor(),
            },
    {
        let hi = match self.read_be2() {
            Ok(v) => v,
            Err(e) => {
                return Err(e);
            },
        };
        let lo = match self.read_be2() {
            Ok(v) => v,
            Err(e) => {
                return Err(e);
            },
        };
        Ok(hi * 0x1_0000 + lo)
    }

    /// Reads eight bytes as a big-endian value.
    pub(crate) fn read_be8(&mut self) -> (r: Result<u64, Error>)
        requires
            old(self).wf(),
        ensures
            final(self).wf(),
            final(self).all_bytes() == old(self).all_bytes(),
            match r {
                Ok(v) => old(self).rest().len() >= 8 && v == wire::be8_val(
                    old(self).rest()[0],
                    old(self).rest()[1],
                    old(self).rest()[2],
                    old(self).rest()[3],
                    old(self).rest()[4],
                    old(self).rest()[5],
                    old(self).rest()[6],
                    old(self).rest()[7],
                ) && final(self).cursor() == old(self).cursor() + 8,
                Err(e) => e == Error::UnexpectedEndOfInput && old(self).rest().len() < 8 && old(self).cursor() <= final(self).cursor(),
            },
    {
        let hi = match self.read_be4() {
            Ok(v) => v,
            Err(e) => {
                return Err(e);
            },
        };
        let lo = match self.read_be4() {
            Ok(v) => v,
            Err(e) => {
                return Err(e);
            },
        };
        Ok(hi * 0x1_0000_0000 + lo)
    }

    /// Reads an unsigned integer of any width: positive fixed integer or an
    /// unsigned width tag, and decodes it to its full 64-bit value.
    pub fn _read_unsigned(&mut self) -> (r: Result<u64, Error>)
        requires
            old(self).wf(),
        ensures
            final(self).wf(),
            final(self).all_bytes() == old(self).all_bytes(),
            old(self).cursor() <= final(self).cursor(),
            match wire::dec_unsigned(old(self).rest()) {
                Ok((v, n)) => r == Ok::<u64, Error>(v) && final(self).cursor() == old(self).cursor()
                    + n,
                Err(e) => r == Err::<u64, Error>(e),
            },
    {
        let c = match self._read_byte() {
            Ok(b) => b,
            Err(e) => {
                return Err(e);
            },
        };
        if c <= 0x7f {
            Ok(c as u64)
        } else if c == 0xcc {
            match self._read_byte() {
                Ok(b) => Ok(b as u64),
                Err(e) => Err(e),
            }
        } else if c == 0xcd {
            self.read_be2()
        } else if c == 0xce {
            self.read_be4()
        } else if c == 0xcf {
            self.read_be8()
        } else if c == 0xc1 || (0xc4 <= c && c <= 0xc9) || (0xd4 <= c && c <= 0xd9) {
            Err(Error::InvalidTag)
        } else {
            Err(Error::TypeMismatch)
        }
    }

    /// Reads a signed integer of any width: negative fixed integer or a
    /// signed width tag, and decodes it to its full 64-bit value.
    pub fn _read_signed(&mut self) -> (r: Result<i64, Error>)
        requires
            old(self).wf(),
        ensures
            final(self).wf(),
            final(self).all_bytes() == old(self).all_bytes(),
            old(self).cursor() <= final(self).cursor(),
            match wire::dec_signed(old(self).rest()) {
                Ok((v, n)) => r == Ok::<i64, Error>(v) && final(self).cursor() == old(self).cursor()
                    + n,
                Err(e) => r == Err::<i64, Error>(e),
            },
    {
        let c = match self._read_byte() {
            Ok(b) => b,
            Err(e) => {
                return Err(e);
            },
        };
        if 0xe0 <= c {
            Ok((c as i64) - 0x100)
        } else if c == 0xd0 {
            match self._read_byte() {
                Ok(b) => if b < 0x80 {
                    Ok(b as i64)
                } else {
                    Ok((b as i64) - 0x100)
                },
                Err(e) => Err(e),
            }
        } else if c == 0xd1 {
            match self.read_be2() {
                Ok(w) => if w < 0x8000 {
                    Ok(w as i64)
                } else {
                    Ok((w as i64) - 0x1_0000)
                },
                Err(e) => Err(e),
            }
        } else if c == 0xd2 {
            match self.read_be4() {
                Ok(w) => if w < 0x8000_0000 {
                    Ok(w as i64)
                } else {
                    Ok((w as i64) - 0x1_0000_0000)
                },
                Err(e) => Err(e),
            }
        } else if c == 0xd3 {
            match self.read_be8() {
                Ok(w) => if w < 0x8000_0000_0000_0000 {
                    Ok(w as i64)
                } else {
                    Ok((((w as i128) - 0x1_0000_0000_0000_0000) as i64))
                },
                Err(e) => Err(e),
            }
        } else if c == 0xc1 || (0xc4 <= c && c <= 0xc9) || (0xd4 <= c && c <= 0xd9) {
            Err(Error::InvalidTag)
        } else {
            Err(Error::TypeMismatch)
        }
    }

    /// Reads nil: the exact tag `0xc0`.
    pub fn read_nil(&mut self) -> (r: Result<(), Error>)
        requires
            old(self).wf(),
        ensures
            final(self).wf(),
            final(self).all_bytes() == old(self).all_bytes(),
            old(self).cursor() <= final(self).cursor(),
            match wire::dec_nil(old(self).rest()) {
                Ok(n) => r == Ok::<(), Error>(()) && final(self).cursor() == old(self).cursor() + n,
                Err(e) => r == Err::<(), Error>(e),
            },
    {
        let c = match self._read_byte() {
            Ok(b) => b,
            Err(e) => {
                return Err(e);
            },
        };
        if c == 0xc0 {
            Ok(())
        } else if c == 0xc1 || (0xc4 <= c && c <= 0xc9) || (0xd4 <= c && c <= 0xd9) {
            Err(Error::InvalidTag)
        } else {
            Err(Error::TypeMismatch)
        }
    }

    /// Reads a boolean: exactly `0xc2` or `0xc3`.
    pub fn read_bool(&mut self) -> (r: Result<bool, Error>)
        requires
            old(self).wf(),
        ensures
            final(self).wf(),
            final(self).all_bytes() == old(self).all_bytes(),
            old(self).cursor() <= final(self).cursor(),
            match wire::dec_bool(old(self).rest()) {
                Ok((v, n)) => r == Ok::<bool, Error>(v) && final(self).cursor() == old(self).cursor() + n,
                Err(e) => r == Err::<bool, Error>(e),
            },
    {
        let c = match self._read_byte() {
            Ok(b) => b,
            Err(e) => {
                return Err(e);
            },
        };
        if c == 0xc2 {
            Ok(false)
        } else if c == 0xc3 {
            Ok(true)
        } else if c == 0xc1 || (0xc4 <= c && c <= 0xc9) || (0xd4 <= c && c <= 0xd9) {
            Err(Error::InvalidTag)
        } else {
            Err(Error::TypeMismatch)
        }
    }

    /// Reads an unsigned integer as a full 64-bit value.
    pub fn read_u64(&mut self) -> (r: Result<u64, Error>)
        requires
            old(self).wf(),
        ensures
            final(self).wf(),
            final(self).all_bytes() == old(self).all_bytes(),
            old(self).cursor() <= final(self).cursor(),
            match wire::dec_unsigned(old(self).rest()) {
                Ok((v, n)) => r == Ok::<u64, Error>(v) && final(self).cursor() == old(self).cursor() + n,
                Err(e) => r == Err::<u64, Error>(e),
            },
    {
        self._read_unsigned()
    }

    /// Reads an unsigned integer that must fit 32 bits.
    pub fn read_u32(&mut self) -> (r: Result<u32, Error>)
        requires
            old(self).wf(),
        ensures
            final(self).wf(),
            final(self).all_bytes() == old(self).all_bytes(),
            old(self).cursor() <= final(self).cursor(),
            match wire::dec_unsigned(old(self).rest()) {
                Ok((v, n)) => if v <= 0xffff_ffff {
                    r == Ok::<u32, Error>(v as u32) && final(self).cursor() == old(self).cursor() + n
                } else {
                    r == Err::<u32, Error>(Error::NumericOverflow)
                },
                Err(e) => r == Err::<u32, Error>(e),
            },
    {
        let v = match self._read_unsigned() {
            Ok(v) => v,
            Err(e) => {
                return Err(e);
            },
        };
        if crate::cast::can_cast_u64_to_u32(v) {
            Ok(v as u32)
        } else {
            Err(Error::NumericOverflow)
        }
    }

    /// Reads an unsigned integer that must fit 16 bits.
    pub fn read_u16(&mut self) -> (r: Result<u16, Error>)
        requires
            old(self).wf(),
        ensures
            final(self).wf(),
            final(self).all_bytes() == old(self).all_bytes(),
            old(self).cursor() <= final(self).cursor(),
            match wire::dec_unsigned(old(self).rest()) {
                Ok((v, n)) => if v <= 0xffff {
                    r == Ok::<u16, Error>(v as u16) && final(self).cursor() == old(self).cursor() + n
                } else {
                    r == Err::<u16, Error>(Error::NumericOverflow)
                },
                Err(e) => r == Err::<u16, Error>(e),
            },
    {
        let v = match self._read_unsigned() {
            Ok(v) => v,
            Err(e) => {
                return Err(e);
            },
        };
        if crate::cast::can_cast_u64_to_u16(v) {
            Ok(v as u16)
        } else {
            Err(Error::NumericOverflow)
        }
    }

    /// Reads an unsigned integer that must fit 8 bits.
    pub fn read_u8(&mut self) -> (r: Result<u8, Error>)
        requires
            old(self).wf(),
        ensures
            final(self).wf(),
            final(self).all_bytes() == old(self).all_bytes(),
            old(self).cursor() <= final(self).cursor(),
            match wire::dec_unsigned(old(self).rest()) {
                Ok((v, n)) => if v <= 0xff {
                    r == Ok::<u8, Error>(v as u8) && final(self).cursor() == old(self).cursor() + n
                } else {
                    r == Err::<u8, Error>(Error::NumericOverflow)
                },
                Err(e) => r == Err::<u8, Error>(e),
            },
    {
        let v = match self._read_unsigned() {
            Ok(v) => v,
            Err(e) => {
                return Err(e);
            },
        };
        if crate::cast::can_cast_u64_to_u8(v) {
            Ok(v as u8)
        } else {
            Err(Error::NumericOverflow)
        }
    }

    /// Reads an unsigned integer that must fit the machine word.
    pub fn read_uint(&mut self) -> (r: Result<usize, Error>)
        requires
            old(self).wf(),
        ensures
            final(self).wf(),
            final(self).all_bytes() == old(self).all_bytes(),
            old(self).cursor() <= final(self).cursor(),
            match wire::dec_unsigned(old(self).rest()) {
                Ok((v, n)) => if v <= usize::MAX as u64 {
                    r == Ok::<usize, Error>(v as usize) && final(self).cursor() == old(self).cursor() + n
                } else {
                    r == Err::<usize, Error>(Error::NumericOverflow)
                },
                Err(e) => r == Err::<usize, Error>(e),
            },
    {
        let v = match self._read_unsigned() {
            Ok(v) => v,
            Err(e) => {
                return Err(e);
            },
        };
        if v <= usize::MAX as u64 {
            Ok(v as usize)
        } else {
            Err(Error::NumericOverflow)
        }
    }

    /// Reads a signed integer as a full 64-bit value.
    pub fn read_i64(&mut self) -> (r: Result<i64, Error>)
        requires
            old(self).wf(),
        ensures
            final(self).wf(),
            final(self).all_bytes() == old(self).all_bytes(),
            old(self).cursor() <= final(self).cursor(),
            match wire::dec_signed(old(self).rest()) {
                Ok((v, n)) => r == Ok::<i64, Error>(v) && final(self).cursor() == old(self).cursor() + n,
                Err(e) => r == Err::<i64, Error>(e),
            },
    {
        self._read_signed()
    }

    /// Reads a signed integer that must fit 32 bits.
    pub fn read_i32(&mut self) -> (r: Result<i32, Error>)
        requires
            old(self).wf(),
        ensures
            final(self).wf(),
            final(self).all_bytes() == old(self).all_bytes(),
            old(self).cursor() <= final(self).cursor(),
            match wire::dec_signed(old(self).rest()) {
                Ok((v, n)) => if -0x8000_0000 <= v && v <= 0x7fff_ffff {
                    r == Ok::<i32, Error>(v as i32) && final(self).cursor() == old(self).cursor() + n
                } else {
                    r == Err::<i32, Error>(Error::NumericOverflow)
                },
                Err(e) => r == Err::<i32, Error>(e),
            },
    {
        let v = match self._read_signed() {
            Ok(v) => v,
            Err(e) => {
                return Err(e);
            },
        };
        if crate::cast::can_cast_i64_to_i32(v) {
            Ok(v as i32)
        } else {
            Err(Error::NumericOverflow)
        }
    }

    /// Reads a signed integer that must fit 16 bits.
    pub fn read_i16(&mut self) -> (r: Result<i16, Error>)
        requires
            old(self).wf(),
        ensures
            final(self).wf(),
            final(self).all_bytes() == old(self).all_bytes(),
            old(self).cursor() <= final(self).cursor(),
            match wire::dec_signed(old(self).rest()) {
                Ok((v, n)) => if -0x8000 <= v && v <= 0x7fff {
                    r == Ok::<i16, Error>(v as i16) && final(self).cursor() == old(self).cursor() + n
                } else {
                    r == Err::<i16, Error>(Error::NumericOverflow)
                },
                Err(e) => r == Err::<i16, Error>(e),
            },
    {
        let v = match self._read_signed() {
            Ok(v) => v,
            Err(e) => {
                return Err(e);
            },
        };
        if -0x8000 <= v && v <= 0x7fff {
            Ok(v as i16)
        } else {
            Err(Error::NumericOverflow)
        }
    }

    /// Reads a signed integer that must fit 8 bits.
    pub fn read_i8(&mut self) -> (r: Result<i8, Error>)
        requires
            old(self).wf(),
        ensures
            final(self).wf(),
            final(self).all_bytes() == old(self).all_bytes(),
            old(self).cursor() <= final(self).cursor(),
            match wire::dec_signed(old(self).rest()) {
                Ok((v, n)) => if -0x80 <= v && v <= 0x7f {
                    r == Ok::<i8, Error>(v as i8) && final(self).cursor() == old(self).cursor() + n
                } else {
                    r == Err::<i8, Error>(Error::NumericOverflow)
                },
                Err(e) => r == Err::<i8, Error>(e),
            },
    {
        let v = match self._read_signed() {
            Ok(v) => v,
            Err(e) => {
                return Err(e);
            },
        };
        if -0x80 <= v && v <= 0x7f {
            Ok(v as i8)
        } else {
            Err(Error::NumericOverflow)
        }
    }

    /// Reads a signed integer that must fit the machine word.
    pub fn read_int(&mut self) -> (r: Result<isize, Error>)
        requires
            old(self).wf(),
        ensures
            final(self).wf(),
            final(self).all_bytes() == old(self).all_bytes(),
            old(self).cursor() <= final(self).cursor(),
            match wire::dec_signed(old(self).rest()) {
                Ok((v, n)) => if isize::MIN as i64 <= v && v <= isize::MAX as i64 {
                    r == Ok::<isize, Error>(v as isize) && final(self).cursor() == old(self).cursor() + n
                } else {
                    r == Err::<isize, Error>(Error::NumericOverflow)
                },
                Err(e) => r == Err::<isize, Error>(e),
            },
    {
        let v = match self._read_signed() {
            Ok(v) => v,
            Err(e) => {
                return Err(e);
            },
        };
        if isize::MIN as i64 <= v && v <= isize::MAX as i64 {
            Ok(v as isize)
        } else {
            Err(Error::NumericOverflow)
        }
    }

    /// Reads a 64-bit float as its IEEE bit pattern: exactly tag `0xcb`.
    pub fn read_f64_bits(&mut self) -> (r: Result<u64, Error>)
        requires
            old(self).wf(),
        ensures
            final(self).wf(),
            final(self).all_bytes() == old(self).all_bytes(),
            old(self).cursor() <= final(self).cursor(),
            match wire::dec_f64_bits(old(self).rest()) {
                Ok((v, n)) => r == Ok::<u64, Error>(v) && final(self).cursor() == old(self).cursor() + n,
                Err(e) => r == Err::<u64, Error>(e),
            },
    {
        let c = match self._read_byte() {
            Ok(b) => b,
            Err(e) => {
                return Err(e);
            },
        };
        if c == 0xcb {
            self.read_be8()
        } else if c == 0xc1 || (0xc4 <= c && c <= 0xc9) || (0xd4 <= c && c <= 0xd9) {
            Err(Error::InvalidTag)
        } else {
            Err(Error::TypeMismatch)
        }
    }

    /// Reads a 32-bit float as its IEEE bit pattern: exactly tag `0xca`.
    pub fn read_f32_bits(&mut self) -> (r: Result<u32, Error>)
        requires
            old(self).wf(),
        ensures
            final(self).wf(),
            final(self).all_bytes() == old(self).all_bytes(),
            old(self).cursor() <= final(self).cursor(),
            match wire::dec_f32_bits(old(self).rest()) {
                Ok((v, n)) => r == Ok::<u32, Error>(v) && final(self).cursor() == old(self).cursor() + n,
                Err(e) => r == Err::<u32, Error>(e),
            },
    {
        let c = match self._read_byte() {
            Ok(b) => b,
            Err(e) => {
                return Err(e);
            },
        };
        if c == 0xca {
            match self.read_be4() {
                Ok(v) => Ok(v as u32),
                Err(e) => Err(e),
            }
        } else if c == 0xc1 || (0xc4 <= c && c <= 0xc9) || (0xd4 <= c && c <= 0xd9) {
            Err(Error::InvalidTag)
        } else {
            Err(Error::TypeMismatch)
        }
    }

    /// Reads a float as the IEEE bit pattern of its 64-bit form.
    pub fn read_float(&mut self) -> (r: Result<u64, Error>)
        requires
            old(self).wf(),
        ensures
            final(self).wf(),
            final(self).all_bytes() == old(self).all_bytes(),
            old(self).cursor() <= final(self).cursor(),
            match wire::dec_f64_bits(old(self).rest()) {
                Ok((v, n)) => r == Ok::<u64, Error>(v) && final(self).cursor() == old(self).cursor() + n,
                Err(e) => r == Err::<u64, Error>(e),
            },
    {
        self.read_f64_bits()
    }

    /// Characters have no reading of their own in this protocol.
    pub fn read_char(&mut self) -> (r: Result<char, Error>)
        ensures
            *final(self) == *old(self),
            r == Err::<char, Error>(Error::UnsupportedConstruct),
    {
        Err(Error::UnsupportedConstruct)
    }

    /// Reads the given number of bytes verbatim.
    pub fn _read_raw(&mut self, len: usize) -> (r: Result<Vec<u8>, Error>)
        requires
            old(self).wf(),
        ensures
            final(self).wf(),
            final(self).all_bytes() == old(self).all_bytes(),
            old(self).cursor() <= final(self).cursor(),
            if len <= old(self).rest().len() {
                match r {
                    Ok(v) => v@ == old(self).rest().subrange(0, len as int) && final(self).cursor()
                        == old(self).cursor() + len,
                    Err(_) => false,
                }
            } else {
                r == Err::<Vec<u8>, Error>(Error::UnexpectedEndOfInput)
            },
    {
        if len > self.data.len() - self.pos {
            return Err(Error::UnexpectedEndOfInput);
        }
        let sl = vstd::slice::slice_subrange(self.data.as_slice(), self.pos, self.pos + len);
        let v = vstd::slice::slice_to_vec(sl);
        self.pos = self.pos + len;
        proof {
            assert(v@ =~= old(self).rest().subrange(0, len as int));
        }
        Ok(v)
    }

    /// Reads the header of a raw-bytes value and gives the payload length.
    fn read_raw_header(&mut self) -> (r: Result<usize, Error>)
        requires
            old(self).wf(),
        ensures
            final(self).wf(),
            final(self).all_bytes() == old(self).all_bytes(),
            old(self).cursor() <= final(self).cursor(),
            match wire::dec_raw_header(old(self).rest()) {
                Ok((len, hdr)) => r == Ok::<usize, Error>(len as usize) && final(self).cursor()
                    == old(self).cursor() + hdr,
                Err(e) => r == Err::<usize, Error>(e),
            },
    {
        let c = match self._read_byte() {
            Ok(b) => b,
            Err(e) => {
                return Err(e);
            },
        };
        if 0xa0 <= c && c <= 0xbf {
            Ok((c - 0xa0) as usize)
        } else if c == 0xda {
            match self.read_be2() {
                Ok(v) => Ok(v as usize),
                Err(e) => Err(e),
            }
        } else if c == 0xdb {
            match self.read_be4() {
                Ok(v) => Ok(v as usize),
                Err(e) => Err(e),
            }
        } else if c == 0xc1 || (0xc4 <= c && c <= 0xc9) || (0xd4 <= c && c <= 0xd9) {
            Err(Error::InvalidTag)
        } else {
            Err(Error::TypeMismatch)
        }
    }

    /// Reads a whole raw-bytes value: header, then the payload verbatim.
    pub fn read_raw(&mut self) -> (r: Result<Vec<u8>, Error>)
        requires
            old(self).wf(),
        ensures
            final(self).wf(),
            final(self).all_bytes() == old(self).all_bytes(),
            old(self).cursor() <= final(self).cursor(),
            match wire::dec_raw(old(self).rest()) {
                Ok((b, n)) => match r {
                    Ok(v) => v@ == b && final(self).cursor() == old(self).cursor() + n,
                    Err(_) => false,
                },
                Err(e) => r == Err::<Vec<u8>, Error>(e),
            },
    {
        let ghost s0 = self.rest();
        let len = match self.read_raw_header() {
            Ok(l) => l,
            Err(e) => {
                return Err(e);
            },
        };
        let ghost hdr = self.cursor() - old(self).cursor();
        let res = self._read_raw(len);
        proof {
            if len <= self.rest().len() {
                assert(s0.skip(hdr).subrange(0, len as int) =~= s0.subrange(hdr, hdr + len as int));
            }
        }
        res
    }

    /// Reads a string: a raw-bytes value whose payload must be valid UTF-8;
    /// anything else is a `TypeMismatch`.
    pub fn read_owned_str(&mut self) -> (r: Result<String, Error>)
        requires
            old(self).wf(),
        ensures
            final(self).wf(),
            final(self).all_bytes() == old(self).all_bytes(),
            old(self).cursor() <= final(self).cursor(),
            match wire::dec_str(old(self).rest()) {
                Ok((cs, n)) => match r {
                    Ok(s) => s@ == cs && final(self).cursor() == old(self).cursor() + n,
                    Err(_) => false,
                },
                Err(e) => r == Err::<String, Error>(e),
            },
    {
        let bytes = match self.read_raw() {
            Ok(b) => b,
            Err(e) => {
                return Err(e);
            },
        };
        match string_from_utf8(bytes) {
            Some(s) => Ok(s),
            None => Err(Error::TypeMismatch),
        }
    }

    /// Reads a shared string, exactly as an owned one.
    pub fn read_managed_str(&mut self) -> (r: Result<String, Error>)
        requires
            old(self).wf(),
        ensures
            final(self).wf(),
            final(self).all_bytes() == old(self).all_bytes(),
            old(self).cursor() <= final(self).cursor(),
            match wire::dec_str(old(self).rest()) {
                Ok((cs, n)) => match r {
                    Ok(s) => s@ == cs && final(self).cursor() == old(self).cursor() + n,
                    Err(_) => false,
                },
                Err(e) => r == Err::<String, Error>(e),
            },
    {
        self.read_owned_str()
    }

    /// Reads a sequence count prefix and gives the element count.
    pub fn _read_vec_len(&mut self) -> (r: Result<usize, Error>)
        requires
            old(self).wf(),
        ensures
            final(self).wf(),
            final(self).all_bytes() == old(self).all_bytes(),
            old(self).cursor() <= final(self).cursor(),
            match wire::dec_vec_len(old(self).rest()) {
                Ok((len, n)) => r == Ok::<usize, Error>(len as usize) && final(self).cursor()
                    == old(self).cursor() + n,
                Err(e) => r == Err::<usize, Error>(e),
            },
    {
        let c = match self._read_byte() {
            Ok(b) => b,
            Err(e) => {
                return Err(e);
            },
        };
        if 0x90 <= c && c <= 0x9f {
            Ok((c - 0x90) as usize)
        } else if c == 0xdc {
            match self.read_be2() {
                Ok(v) => Ok(v as usize),
                Err(e) => Err(e),
            }
        } else if c == 0xdd {
            match self.read_be4() {
                Ok(v) => Ok(v as usize),
                Err(e) => Err(e),
            }
        } else if c == 0xc1 || (0xc4 <= c && c <= 0xc9) || (0xd4 <= c && c <= 0xd9) {
            Err(Error::InvalidTag)
        } else {
            Err(Error::TypeMismatch)
        }
    }

    /// Reads a mapping count prefix and gives the pair count.
    pub fn _read_map_len(&mut self) -> (r: Result<usize, Error>)
        requires
            old(self).wf(),
        ensures
            final(self).wf(),
            final(self).all_bytes() == old(self).all_bytes(),
            old(self).cursor() <= final(self).cursor(),
            match wire::dec_map_len(old(self).rest()) {
                Ok((len, n)) => r == Ok::<usize, Error>(len as usize) && final(self).cursor()
                    == old(self).cursor() + n,
                Err(e) => r == Err::<usize, Error>(e),
            },
    {
        let c = match self._read_byte() {
            Ok(b) => b,
            Err(e) => {
                return Err(e);
            },
        };
        if 0x80 <= c && c <= 0x8f {
            Ok((c - 0x80) as usize)
        } else if c == 0xde {
            match self.read_be2() {
                Ok(v) => Ok(v as usize),
                Err(e) => Err(e),
            }
        } else if c == 0xdf {
            match self.read_be4() {
                Ok(v) => Ok(v as usize),
                Err(e) => Err(e),
            }
        } else if c == 0xc1 || (0xc4 <= c && c <= 0xc9) || (0xd4 <= c && c <= 0xd9) {
            Err(Error::InvalidTag)
        } else {
            Err(Error::TypeMismatch)
        }
    }

    /// Reads a count prefix of either aggregate kind: a mapping gives its
    /// pair count, a sequence its element count.
    pub fn _read_elt_len(&mut self) -> (r: Result<usize, Error>)
        requires
            old(self).wf(),
        ensures
            final(self).wf(),
            final(self).all_bytes() == old(self).all_bytes(),
            old(self).cursor() <= final(self).cursor(),
            match wire::dec_elt_len(old(self).rest()) {
                Ok((len, n)) => r == Ok::<usize, Error>(len as usize) && final(self).cursor()
                    == old(self).cursor() + n,
                Err(e) => r == Err::<usize, Error>(e),
            },
    {
        let c = match self._read_byte() {
            Ok(b) => b,
            Err(e) => {
                return Err(e);
            },
        };
        if 0x80 <= c && c <= 0x9f {
            if c <= 0x8f {
                Ok((c - 0x80) as usize)
            } else {
                Ok((c - 0x90) as usize)
            }
        } else if c == 0xdc || c == 0xde {
            match self.read_be2() {
                Ok(v) => Ok(v as usize),
                Err(e) => Err(e),
            }
        } else if c == 0xdd || c == 0xdf {
            match self.read_be4() {
                Ok(v) => Ok(v as usize),
                Err(e) => Err(e),
            }
        } else if c == 0xc1 || (0xc4 <= c && c <= 0xc9) || (0xd4 <= c && c <= 0xd9) {
            Err(Error::InvalidTag)
        } else {
            Err(Error::TypeMismatch)
        }
    }

    /// Opens a sequence or mapping for element-wise reading: gives the count
    /// found on the wire; the caller then reads each element itself.
    pub fn read_owned_vec(&mut self) -> (r: Result<usize, Error>)
        requires
            old(self).wf(),
        ensures
            final(self).wf(),
            final(self).all_bytes() == old(self).all_bytes(),
            old(self).cursor() <= final(self).cursor(),
            match wire::dec_elt_len(old(self).rest()) {
                Ok((len, n)) => r == Ok::<usize, Error>(len as usize) && final(self).cursor()
                    == old(self).cursor() + n,
                Err(e) => r == Err::<usize, Error>(e),
            },
    {
        self._read_elt_len()
    }

    /// Opens a shared sequence, exactly as an owned one.
    pub fn read_managed_vec(&mut self) -> (r: Result<usize, Error>)
        requires
            old(self).wf(),
        ensures
            final(self).wf(),
            final(self).all_bytes() == old(self).all_bytes(),
            old(self).cursor() <= final(self).cursor(),
            match wire::dec_elt_len(old(self).rest()) {
                Ok((len, n)) => r == Ok::<usize, Error>(len as usize) && final(self).cursor()
                    == old(self).cursor() + n,
                Err(e) => r == Err::<usize, Error>(e),
            },
    {
        self._read_elt_len()
    }

    /// Positions at the next sequence element: nothing is consumed.
    pub fn read_vec_elt(&mut self)
        ensures
            *final(self) == *old(self),
    {
    }

    /// Opens a record of the expected field count: the on-wire count must
    /// match it exactly, else the read fails with `ArityMismatch`.
    pub fn read_struct(&mut self, _name: &str, len: usize) -> (r: Result<(), Error>)
        requires
            old(self).wf(),
        ensures
            final(self).wf(),
            final(self).all_bytes() == old(self).all_bytes(),
            old(self).cursor() <= final(self).cursor(),
            match wire::dec_vec_len(old(self).rest()) {
                Ok((n, hdr)) => if n == len {
                    r == Ok::<(), Error>(()) && final(self).cursor() == old(self).cursor() + hdr
                } else {
                    r == Err::<(), Error>(Error::ArityMismatch)
                },
                Err(e) => r == Err::<(), Error>(e),
            },
    {
        let n = match self._read_vec_len() {
            Ok(n) => n,
            Err(e) => {
                return Err(e);
            },
        };
        if n == len {
            Ok(())
        } else {
            Err(Error::ArityMismatch)
        }
    }

    /// Positions at the next record field: nothing is consumed.
    pub fn read_field(&mut self, _name: &str, _idx: usize)
        ensures
            *final(self) == *old(self),
    {
    }

    /// An owned value is read exactly as the value itself.
    pub fn read_owned(&mut self)
        ensures
            *final(self) == *old(self),
    {
    }

    /// A shared value is read exactly as the value itself.
    pub fn read_managed(&mut self)
        ensures
            *final(self) == *old(self),
    {
    }

    /// Bare records have no wire representation in the base protocol.
    pub fn read_rec(&mut self) -> (r: Result<(), Error>)
        ensures
            *final(self) == *old(self),
            r == Err::<(), Error>(Error::UnsupportedConstruct),
    {
        Err(Error::UnsupportedConstruct)
    }

    /// Tuples have no reading of their own in this protocol.
    pub fn read_tup(&mut self, _sz: usize) -> (r: Result<(), Error>)
        ensures
            *final(self) == *old(self),
            r == Err::<(), Error>(Error::UnsupportedConstruct),
    {
        Err(Error::UnsupportedConstruct)
    }

    /// Tuples have no reading of their own in this protocol.
    pub fn read_tup_elt(&mut self, _idx: usize) -> (r: Result<(), Error>)
        ensures
            *final(self) == *old(self),
            r == Err::<(), Error>(Error::UnsupportedConstruct),
    {
        Err(Error::UnsupportedConstruct)
    }

    /// Variant types have no representation in the base protocol: a consumer
    /// must frame them itself, as the RPC envelope does.
    pub fn read_enum(&mut self, _name: &str) -> (r: Result<(), Error>)
        ensures
            *final(self) == *old(self),
            r == Err::<(), Error>(Error::UnsupportedConstruct),
    {
        Err(Error::UnsupportedConstruct)
    }

    /// Variant types have no representation in the base protocol.
    pub fn read_enum_variant(&mut self) -> (r: Result<(), Error>)
        ensures
            *final(self) == *old(self),
            r == Err::<(), Error>(Error::UnsupportedConstruct),
    {
        Err(Error::UnsupportedConstruct)
    }

    /// Variant types have no representation in the base protocol.
    pub fn read_enum_variant_arg(&mut self, _idx: usize) -> (r: Result<(), Error>)
        ensures
            *final(self) == *old(self),
            r == Err::<(), Error>(Error::UnsupportedConstruct),
    {
        Err(Error::UnsupportedConstruct)
    }
}

} // verus!
