//! The encoder: consumes primitive values and length-prefixed aggregate
//! openers, and writes the canonical minimal-width binary form to an
//! in-memory byte sink. For every integer the narrowest representable tag is
//! chosen by cascading through the width-cast predicates.

use crate::cast::{can_cast_i16_to_i8, can_cast_i32_to_i16, can_cast_i64_to_i32,
    can_cast_u16_to_u8, can_cast_u32_to_u16, can_cast_u64_to_u32};
use crate::error::Error;
use crate::wire;
use vstd::prelude::*;

verus! {

/// Relies on char's `ToString::to_string`: the returned string holds exactly
/// this one character.
#[verifier::external_body]
fn char_to_string(c: char) -> (r: String)
    ensures
        r@ == seq![c],
{
    c.to_string()
}

/// Writes values in their canonical binary form to a growing byte buffer.
/// Its view is the sequence of bytes written so far.
pub struct Encoder {
    buf: Vec<u8>,
}

impl View for Encoder {
    type V = Seq<u8>;

    closed spec fn view(&self) -> Seq<u8> {
        self.buf@
    }
}

impl Encoder {
    /// A fresh encoder with an empty sink.
    pub fn new() -> (r: Encoder)
        ensures
            r@ == Seq::<u8>::empty(),
    {
        Encoder { buf: Vec::new() }
    }

    /// Gives up the encoder and hands back everything it wrote.
    pub fn into_bytes(self) -> (r: Vec<u8>)
        ensures
            r@ == self@,
    {
        self.buf
    }

    /// The bytes written so far.
    pub fn bytes(&self) -> (r: &Vec<u8>)
        ensures
            r@ == self@,
    {
        &self.buf
    }

    fn put1(&mut self, a: u8)
        ensures
            final(self)@ == old(self)@ + seq![a],
    {
        self.buf.push(a);
        proof {
            assert(self.buf@ =~= old(self).buf@ + seq![a]);
        }
    }

    fn put2(&mut self, a: u8, b: u8)
        ensures
            final(self)@ == old(self)@ + seq![a, b],
    {
        self.buf.push(a);
        self.buf.push(b);
        proof {
            assert(self.buf@ =~= old(self).buf@ + seq![a, b]);
        }
    }

    fn put_be2(&mut self, v: u16)
        ensures
            final(self)@ == old(self)@ + wire::be2_bytes(v),
    {
        self.put2((v / 0x100) as u8, (v % 0x100) as u8);
        proof {
            assert(self.buf@ =~= old(self).buf@ + wire::be2_bytes(v));
        }
    }

    fn put_be4(&mut self, v: u32)
        ensures
            final(self)@ == old(self)@ + wire::be4_bytes(v),
    {
        self.buf.push((v / 0x100_0000) as u8);
        self.buf.push(((v / 0x1_0000) % 0x100) as u8);
        self.buf.push(((v / 0x100) % 0x100) as u8);
        self.buf.push((v % 0x100) as u8);
        proof {
            assert(self.buf@ =~= old(self).buf@ + wire::be4_bytes(v));
        }
    }

    fn put_be8(&mut self, v: u64)
        ensures
            final(self)@ == old(self)@ + wire::be8_bytes(v),
    {
        self.buf.push((v / 0x100_0000_0000_0000) as u8);
        self.buf.push(((v / 0x1_0000_0000_0000) % 0x100) as u8);
        self.buf.push(((v / 0x100_0000_0000) % 0x100) as u8);
        self.buf.push(((v / 0x1_0000_0000) % 0x100) as u8);
        self.buf.push(((v / 0x100_0000) % 0x100) as u8);
        self.buf.push(((v / 0x1_0000) % 0x100) as u8);
        self.buf.push(((v / 0x100) % 0x100) as u8);
        self.buf.push((v % 0x100) as u8);
        proof {
            assert(self.buf@ =~= old(self).buf@ + wire::be8_bytes(v));
        }
    }

    /// Writes an unsigned 8-bit value: a bare byte in the positive fixed
    /// integer range, else tag `0xcc` and the byte.
    pub fn _emit_u8(&mut self, v: u8)
        ensures
            final(self)@ == old(self)@ + wire::enc_unsigned(v as u64),
    {
        if v > 0x7f {
            self.put2(0xcc, v);
        } else {
            self.put1(v);
        }
    }

    /// Writes an unsigned 16-bit value, cascading to the narrower form when
    /// the value fits it.
    pub fn _emit_u16(&mut self, v: u16)
        ensures
            final(self)@ == old(self)@ + wire::enc_unsigned(v as u64),
    {
        if !can_cast_u16_to_u8(v) {
            self.put1(0xcd);
            self.put_be2(v);
            proof {
                assert(self@ =~= old(self)@ + wire::enc_unsigned(v as u64));
            }
        } else {
            self._emit_u8(v as u8);
        }
    }

    /// Writes an unsigned 32-bit value, cascading to the narrower form when
    /// the value fits it.
    pub fn _emit_u32(&mut self, v: u32)
        ensures
            final(self)@ == old(self)@ + wire::enc_unsigned(v as u64),
    {
        if !can_cast_u32_to_u16(v) {
            self.put1(0xce);
            self.put_be4(v);
            proof {
                assert(self@ =~= old(self)@ + wire::enc_unsigned(v as u64));
            }
        } else {
            self._emit_u16(v as u16);
        }
    }

    /// Writes an unsigned 64-bit value, cascading to the narrower form when
    /// the value fits it.
    pub fn _emit_u64(&mut self, v: u64)
        ensures
            final(self)@ == old(self)@ + wire::enc_unsigned(v),
    {
        if !can_cast_u64_to_u32(v) {
            self.put1(0xcf);
            self.put_be8(v);
            proof {
                assert(self@ =~= old(self)@ + wire::enc_unsigned(v));
            }
        } else {
            self._emit_u32(v as u32);
        }
    }

    /// Writes a signed 8-bit value: a bare byte in the negative fixed
    /// integer range, else tag `0xd0` and the two's-complement byte.
    pub fn _emit_i8(&mut self, v: i8)
        ensures
            final(self)@ == old(self)@ + wire::enc_signed(v as i64),
    {
        let b: u8 = if v >= 0 {
            v as u8
        } else {
            ((v as i16) + 0x100) as u8
        };
        if -32 <= v && v < 0 {
            self.put1(b);
        } else {
            self.put2(0xd0, b);
        }
    }

    /// Writes a signed 16-bit value, cascading to the narrower form when the
    /// value fits it.
    pub fn _emit_i16(&mut self, v: i16)
        ensures
            final(self)@ == old(self)@ + wire::enc_signed(v as i64),
    {
        if !can_cast_i16_to_i8(v) {
            let w: u16 = if v >= 0 {
                v as u16
            } else {
                ((v as i32) + 0x1_0000) as u16
            };
            self.put1(0xd1);
            self.put_be2(w);
            proof {
                assert(self@ =~= old(self)@ + wire::enc_signed(v as i64));
            }
        } else {
            self._emit_i8(v as i8);
        }
    }

    /// Writes a signed 32-bit value, cascading to the narrower form when the
    /// value fits it.
    pub fn _emit_i32(&mut self, v: i32)
        ensures
            final(self)@ == old(self)@ + wire::enc_signed(v as i64),
    {
        if !can_cast_i32_to_i16(v) {
            let w: u32 = if v >= 0 {
                v as u32
            } else {
                ((v as i64) + 0x1_0000_0000) as u32
            };
            self.put1(0xd2);
            self.put_be4(w);
            proof {
                assert(self@ =~= old(self)@ + wire::enc_signed(v as i64));
            }
        } else {
            self._emit_i16(v as i16);
        }
    }

    /// Writes a signed 64-bit value, cascading to the narrower form when the
    /// value fits it.
    pub fn _emit_i64(&mut self, v: i64)
        ensures
            final(self)@ == old(self)@ + wire::enc_signed(v),
    {
        if !can_cast_i64_to_i32(v) {
            let w: u64 = if v >= 0 {
                v as u64
            } else {
                (((v as i128) + 0x1_0000_0000_0000_0000) as u64)
            };
            self.put1(0xd3);
            self.put_be8(w);
            proof {
                assert(self@ =~= old(self)@ + wire::enc_signed(v));
            }
        } else {
            self._emit_i32(v as i32);
        }
    }

    /// Writes the length prefix of a raw-bytes value.
    pub fn _emit_raw_len(&mut self, len: usize)
        requires
            len <= 0xffff_ffff,
        ensures
            final(self)@ == old(self)@ + wire::enc_raw_len(len as int),
    {
        if len <= 31 {
            self.put1(0xa0u8 + (len as u8));
        } else if len <= 0xffff {
            self.put1(0xda);
            self.put_be2(len as u16);
            proof {
                assert(self@ =~= old(self)@ + wire::enc_raw_len(len as int));
            }
        } else {
            self.put1(0xdb);
            self.put_be4(len as u32);
            proof {
                assert(self@ =~= old(self)@ + wire::enc_raw_len(len as int));
            }
        }
    }

    /// Writes a raw-bytes value: length prefix, then the bytes verbatim.
    pub fn _emit_raw(&mut self, v: &[u8])
        requires
            v@.len() <= 0xffff_ffff,
        ensures
            final(self)@ == old(self)@ + wire::enc_raw(v@),
    {
        self._emit_raw_len(v.len());
        let ghost mid = self@;
        let n = v.len();
        let mut i: usize = 0;
        while i < n
            invariant
                n == v@.len(),
                i <= n,
                self@ == mid + v@.subrange(0, i as int),
            decreases n - i,
        {
            let b = v[i];
            self.buf.push(b);
            proof {
                assert(self.buf@ =~= mid + v@.subrange(0, i + 1));
            }
            i = i + 1;
        }
        proof {
            assert(v@.subrange(0, n as int) =~= v@);
            assert(self@ =~= old(self)@ + wire::enc_raw(v@));
        }
    }

    /// Writes the count prefix of a sequence or record.
    pub fn _emit_vec_len(&mut self, len: usize)
        requires
            len <= 0xffff_ffff,
        ensures
            final(self)@ == old(self)@ + wire::enc_vec_len(len as int),
    {
        if len <= 15 {
            self.put1(0x90u8 + (len as u8));
        } else if len <= 0xffff {
            self.put1(0xdc);
            self.put_be2(len as u16);
            proof {
                assert(self@ =~= old(self)@ + wire::enc_vec_len(len as int));
            }
        } else {
            self.put1(0xdd);
            self.put_be4(len as u32);
            proof {
                assert(self@ =~= old(self)@ + wire::enc_vec_len(len as int));
            }
        }
    }

    /// Writes an unsigned 8-bit value.
    pub fn emit_u8(&mut self, v: u8)
        ensures
            final(self)@ == old(self)@ + wire::enc_unsigned(v as u64),
    {
        self._emit_u8(v)
    }

    /// Writes an unsigned 16-bit value.
    pub fn emit_u16(&mut self, v: u16)
        ensures
            final(self)@ == old(self)@ + wire::enc_unsigned(v as u64),
    {
        self._emit_u16(v)
    }

    /// Writes an unsigned 32-bit value.
    pub fn emit_u32(&mut self, v: u32)
        ensures
            final(self)@ == old(self)@ + wire::enc_unsigned(v as u64),
    {
        self._emit_u32(v)
    }

    /// Writes an unsigned 64-bit value.
    pub fn emit_u64(&mut self, v: u64)
        ensures
            final(self)@ == old(self)@ + wire::enc_unsigned(v),
    {
        self._emit_u64(v)
    }

    /// Writes an unsigned machine-word value.
    pub fn emit_uint(&mut self, v: usize)
        ensures
            final(self)@ == old(self)@ + wire::enc_unsigned(v as u64),
    {
        self._emit_u64(v as u64)
    }

    /// Writes a signed 8-bit value.
    pub fn emit_i8(&mut self, v: i8)
        ensures
            final(self)@ == old(self)@ + wire::enc_signed(v as i64),
    {
        self._emit_i8(v)
    }

    /// Writes a signed 16-bit value.
    pub fn emit_i16(&mut self, v: i16)
        ensures
            final(self)@ == old(self)@ + wire::enc_signed(v as i64),
    {
        self._emit_i16(v)
    }

    /// Writes a signed 32-bit value.
    pub fn emit_i32(&mut self, v: i32)
        ensures
            final(self)@ == old(self)@ + wire::enc_signed(v as i64),
    {
        self._emit_i32(v)
    }

    /// Writes a signed 64-bit value.
    pub fn emit_i64(&mut self, v: i64)
        ensures
            final(self)@ == old(self)@ + wire::enc_signed(v),
    {
        self._emit_i64(v)
    }

    /// Writes a signed machine-word value.
    pub fn emit_int(&mut self, v: isize)
        ensures
            final(self)@ == old(self)@ + wire::enc_signed(v as i64),
    {
        self._emit_i64(v as i64)
    }

    /// Writes a 32-bit float, given as its IEEE bit pattern: tag `0xca` and
    /// the pattern big-endian, never compacted.
    pub fn emit_f32_bits(&mut self, v: u32)
        ensures
            final(self)@ == old(self)@ + wire::enc_f32_bits(v),
    {
        self.put1(0xca);
        self.put_be4(v);
        proof {
            assert(self@ =~= old(self)@ + wire::enc_f32_bits(v));
        }
    }

    /// Writes a 64-bit float, given as its IEEE bit pattern: tag `0xcb` and
    /// the pattern big-endian.
    pub fn emit_f64_bits(&mut self, v: u64)
        ensures
            final(self)@ == old(self)@ + wire::enc_f64_bits(v),
    {
        self.put1(0xcb);
        self.put_be8(v);
        proof {
            assert(self@ =~= old(self)@ + wire::enc_f64_bits(v));
        }
    }

    /// Writes a float, given as the IEEE bit pattern of its 64-bit form.
    pub fn emit_float(&mut self, v: u64)
        ensures
            final(self)@ == old(self)@ + wire::enc_f64_bits(v),
    {
        self.emit_f64_bits(v)
    }

    /// Writes a string: its UTF-8 bytes as a raw-bytes value.
    pub fn emit_borrowed_str(&mut self, v: &str)
        requires
            vstd::utf8::encode_utf8(v@).len() <= 0xffff_ffff,
        ensures
            final(self)@ == old(self)@ + wire::enc_str(v@),
    {
        let bytes: &[u8] = v.as_bytes();
        self._emit_raw(bytes);
    }

    /// Writes an owned string, exactly as a borrowed one.
    pub fn emit_owned_str(&mut self, v: &str)
        requires
            vstd::utf8::encode_utf8(v@).len() <= 0xffff_ffff,
        ensures
            final(self)@ == old(self)@ + wire::enc_str(v@),
    {
        self.emit_borrowed_str(v)
    }

    /// Writes a shared string, exactly as a borrowed one.
    pub fn emit_managed_str(&mut self, v: &str)
        requires
            vstd::utf8::encode_utf8(v@).len() <= 0xffff_ffff,
        ensures
            final(self)@ == old(self)@ + wire::enc_str(v@),
    {
        self.emit_borrowed_str(v)
    }

    /// Writes a character as a one-character string.
    pub fn emit_char(&mut self, v: char)
        ensures
            final(self)@ == old(self)@ + wire::enc_str(seq![v]),
    {
        let s = char_to_string(v);
        proof {
            assert(seq![v].drop_first() =~= Seq::<char>::empty());
            assert(vstd::utf8::encode_utf8(seq![v]) == vstd::utf8::encode_scalar(v as u32)
                + vstd::utf8::encode_utf8(Seq::<char>::empty()));
            assert(vstd::utf8::encode_utf8(Seq::<char>::empty()) =~= Seq::<u8>::empty());
            assert(vstd::utf8::encode_scalar(v as u32).len() <= 4);
        }
        self.emit_borrowed_str(s.as_str());
    }

    /// Opens a sequence of the given element count: writes only the count
    /// prefix; the caller then writes the elements themselves.
    pub fn emit_borrowed_vec(&mut self, len: usize)
        requires
            len <= 0xffff_ffff,
        ensures
            final(self)@ == old(self)@ + wire::enc_vec_len(len as int),
    {
        self._emit_vec_len(len)
    }

    /// Opens an owned sequence, exactly as a borrowed one.
    pub fn emit_owned_vec(&mut self, len: usize)
        requires
            len <= 0xffff_ffff,
        ensures
            final(self)@ == old(self)@ + wire::enc_vec_len(len as int),
    {
        self._emit_vec_len(len)
    }

    /// Opens a shared sequence, exactly as a borrowed one.
    pub fn emit_managed_vec(&mut self, len: usize)
        requires
            len <= 0xffff_ffff,
        ensures
            final(self)@ == old(self)@ + wire::enc_vec_len(len as int),
    {
        self._emit_vec_len(len)
    }

    /// Positions at the next sequence element: elements carry no per-element
    /// framing, so nothing is written.
    pub fn emit_vec_elt(&mut self, _idx: usize)
        ensures
            final(self)@ == old(self)@,
    {
    }

    /// Bare records have no wire representation in the base protocol.
    pub fn emit_rec(&mut self) -> (r: Result<(), Error>)
        ensures
            final(self)@ == old(self)@,
            r == Err::<(), Error>(Error::UnsupportedConstruct),
    {
        Err(Error::UnsupportedConstruct)
    }

    /// Opens a record of the given field count: wire-identical to a sequence
    /// of that many elements; field names are not transmitted.
    pub fn emit_struct(&mut self, _name: &str, len: usize)
        requires
            len <= 0xffff_ffff,
        ensures
            final(self)@ == old(self)@ + wire::enc_vec_len(len as int),
    {
        self._emit_vec_len(len)
    }

    /// Positions at the next record field: nothing is written.
    pub fn emit_field(&mut self, _name: &str, _idx: usize)
        ensures
            final(self)@ == old(self)@,
    {
    }

    /// Opens a tuple of the given arity: wire-identical to a sequence.
    pub fn emit_tup(&mut self, len: usize)
        requires
            len <= 0xffff_ffff,
        ensures
            final(self)@ == old(self)@ + wire::enc_vec_len(len as int),
    {
        self._emit_vec_len(len)
    }

    /// Positions at the next tuple element: nothing is written.
    pub fn emit_tup_elt(&mut self, _idx: usize)
        ensures
            final(self)@ == old(self)@,
    {
    }

    /// A borrowed value is written exactly as the value itself.
    pub fn emit_borrowed(&mut self)
        ensures
            final(self)@ == old(self)@,
    {
    }

    /// An owned value is written exactly as the value itself.
    pub fn emit_owned(&mut self)
        ensures
            final(self)@ == old(self)@,
    {
    }

    /// A shared value is written exactly as the value itself.
    pub fn emit_managed(&mut self)
        ensures
            final(self)@ == old(self)@,
    {
    }

    /// Variant types have no representation in the base protocol: a consumer
    /// must frame them itself, as the RPC envelope does.
    pub fn emit_enum(&mut self, _name: &str) -> (r: Result<(), Error>)
        ensures
            final(self)@ == old(self)@,
            r == Err::<(), Error>(Error::UnsupportedConstruct),
    {
        Err(Error::UnsupportedConstruct)
    }

    /// Variant types have no representation in the base protocol.
    pub fn emit_enum_variant(&mut self, _name: &str, _id: usize, _cnt: usize) -> (r: Result<
        (),
        Error,
    >)
        ensures
            final(self)@ == old(self)@,
            r == Err::<(), Error>(Error::UnsupportedConstruct),
    {
        Err(Error::UnsupportedConstruct)
    }

    /// Variant types have no representation in the base protocol.
    pub fn emit_enum_variant_arg(&mut self, _idx: usize) -> (r: Result<(), Error>)
        ensures
            final(self)@ == old(self)@,
            r == Err::<(), Error>(Error::UnsupportedConstruct),
    {
        Err(Error::UnsupportedConstruct)
    }

    /// Writes nil.
    pub fn emit_nil(&mut self)
        ensures
            final(self)@ == old(self)@ + wire::enc_nil(),
    {
        self.put1(0xc0);
    }

    /// Writes a boolean.
    pub fn emit_bool(&mut self, v: bool)
        ensures
            final(self)@ == old(self)@ + wire::enc_bool(v),
    {
        if v {
            self.put1(0xc3);
        } else {
            self.put1(0xc2);
        }
    }

    /// Writes the count prefix of a mapping.
    pub fn _emit_map_len(&mut self, len: usize)
        requires
            len <= 0xffff_ffff,
        ensures
            final(self)@ == old(self)@ + wire::enc_map_len(len as int),
    {
        if len <= 15 {
            self.put1(0x80u8 + (len as u8));
        } else if len <= 0xffff {
            self.put1(0xde);
            self.put_be2(len as u16);
            proof {
                assert(self@ =~= old(self)@ + wire::enc_map_len(len as int));
            }
        } else {
            self.put1(0xdf);
            self.put_be4(len as u32);
            proof {
                assert(self@ =~= old(self)@ + wire::enc_map_len(len as int));
            }
        }
    }
}

} // verus!
