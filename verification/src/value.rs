//! The untyped document model: a recursive `Value` tree able to represent
//! any valid wire payload, its mathematical view, the spec-level parser over
//! byte sequences, and the canonical encoding of a whole tree.

use crate::error::Error;
use crate::wire;
use vstd::prelude::*;

verus! {

/// The mathematical form of a document tree.
pub enum ValueV {
    Nil,
    Bool(bool),
    Array(Seq<ValueV>),
    Mapping(Seq<(ValueV, ValueV)>),
    Int(i64),
    Uint(u64),
    Float(u32),
    Double(u64),
    Raw(Seq<u8>),
}

impl ValueV {
    /// Every length in the tree fits its 32-bit wire count.
    pub open spec fn wf(self) -> bool
        decreases self, 1int,
    {
        match self {
            ValueV::Array(vs) => vs.len() <= 0xffff_ffff && seq_wf(vs),
            ValueV::Mapping(ps) => ps.len() <= 0xffff_ffff && pairs_wf(ps),
            ValueV::Raw(b) => b.len() <= 0xffff_ffff,
            _ => true,
        }
    }
}

/// Every tree of the row is well formed.
pub open spec fn seq_wf(vs: Seq<ValueV>) -> bool
    decreases vs, 0int,
{
    forall|i: int| 0 <= i < vs.len() ==> (#[trigger] vs[i]).wf()
}

/// Every key and value of the row is well formed.
pub open spec fn pairs_wf(ps: Seq<(ValueV, ValueV)>) -> bool
    decreases ps, 0int,
{
    forall|i: int| 0 <= i < ps.len() ==> ((#[trigger] ps[i]).0.wf() && ps[i].1.wf())
}

/// The canonical encoding of a document tree: every child in order, each in
/// its own canonical minimal form.
pub open spec fn enc_value(v: ValueV) -> Seq<u8>
    decreases v,
{
    match v {
        ValueV::Nil => wire::enc_nil(),
        ValueV::Bool(b) => wire::enc_bool(b),
        ValueV::Array(vs) => wire::enc_vec_len(vs.len() as int) + enc_seq(vs),
        ValueV::Mapping(ps) => wire::enc_map_len(ps.len() as int) + enc_pairs(ps),
        ValueV::Int(x) => wire::enc_signed(x),
        ValueV::Uint(x) => wire::enc_unsigned(x),
        ValueV::Float(x) => wire::enc_f32_bits(x),
        ValueV::Double(x) => wire::enc_f64_bits(x),
        ValueV::Raw(b) => wire::enc_raw(b),
    }
}

/// The concatenated canonical encodings of a row of trees.
pub open spec fn enc_seq(vs: Seq<ValueV>) -> Seq<u8>
    decreases vs,
{
    if vs.len() == 0 {
        Seq::empty()
    } else {
        enc_value(vs[0]) + enc_seq(vs.drop_first())
    }
}

/// The concatenated canonical encodings of a row of key/value pairs, each
/// key directly before its value.
pub open spec fn enc_pairs(ps: Seq<(ValueV, ValueV)>) -> Seq<u8>
    decreases ps,
{
    if ps.len() == 0 {
        Seq::empty()
    } else {
        enc_value(ps[0].0) + enc_value(ps[0].1) + enc_pairs(ps.drop_first())
    }
}

/// Parses one document tree from the front of a byte sequence, with no
/// advance knowledge of its shape: the tree and the bytes consumed, or the
/// error. Reserved leading bytes always give `InvalidTag`.
pub open spec fn pval(s: Seq<u8>) -> Result<(ValueV, int), Error>
    decreases s.len(), 0int, 0int,
{
    if s.len() < 1 {
        Err(Error::UnexpectedEndOfInput)
    } else {
        let c = s[0];
        if c <= 0x7f {
            Ok((ValueV::Uint(c as u64), 1))
        } else if c <= 0x8f {
            match pmap(s.skip(1), (c - 0x80) as int) {
                Ok((ps, m)) => Ok((ValueV::Mapping(ps), 1 + m)),
                Err(e) => Err(e),
            }
        } else if c <= 0x9f {
            match pseq(s.skip(1), (c - 0x90) as int) {
                Ok((vs, m)) => Ok((ValueV::Array(vs), 1 + m)),
                Err(e) => Err(e),
            }
        } else if c <= 0xbf {
            let len = (c - 0xa0) as int;
            if s.len() < 1 + len {
                Err(Error::UnexpectedEndOfInput)
            } else {
                Ok((ValueV::Raw(s.subrange(1, 1 + len)), 1 + len))
            }
        } else if c == 0xc0 {
            Ok((ValueV::Nil, 1))
        } else if c == 0xc2 {
            Ok((ValueV::Bool(false), 1))
        } else if c == 0xc3 {
            Ok((ValueV::Bool(true), 1))
        } else if c == 0xca {
            if s.len() < 5 {
                Err(Error::UnexpectedEndOfInput)
            } else {
                Ok((ValueV::Float(wire::be4_val(s[1], s[2], s[3], s[4]) as u32), 5))
            }
        } else if c == 0xcb {
            if s.len() < 9 {
                Err(Error::UnexpectedEndOfInput)
            } else {
                Ok(
                    (
                        ValueV::Double(
                            wire::be8_val(s[1], s[2], s[3], s[4], s[5], s[6], s[7], s[8]),
                        ),
                        9,
                    ),
                )
            }
        } else if c == 0xcc {
            if s.len() < 2 {
                Err(Error::UnexpectedEndOfInput)
            } else {
                Ok((ValueV::Uint(s[1] as u64), 2))
            }
        } else if c == 0xcd {
            if s.len() < 3 {
                Err(Error::UnexpectedEndOfInput)
            } else {
                Ok((ValueV::Uint(wire::be2_val(s[1], s[2])), 3))
            }
        } else if c == 0xce {
            if s.len() < 5 {
                Err(Error::UnexpectedEndOfInput)
            } else {
                Ok((ValueV::Uint(wire::be4_val(s[1], s[2], s[3], s[4])), 5))
            }
        } else if c == 0xcf {
            if s.len() < 9 {
                Err(Error::UnexpectedEndOfInput)
            } else {
                Ok((ValueV::Uint(wire::be8_val(s[1], s[2], s[3], s[4], s[5], s[6], s[7], s[8])), 9))
            }
        } else if c == 0xd0 {
            if s.len() < 2 {
                Err(Error::UnexpectedEndOfInput)
            } else {
                Ok((ValueV::Int(wire::i8_val(s[1])), 2))
            }
        } else if c == 0xd1 {
            if s.len() < 3 {
                Err(Error::UnexpectedEndOfInput)
            } else {
                Ok((ValueV::Int(wire::i16_val(wire::be2_val(s[1], s[2]))), 3))
            }
        } else if c == 0xd2 {
            if s.len() < 5 {
                Err(Error::UnexpectedEndOfInput)
            } else {
                Ok((ValueV::Int(wire::i32_val(wire::be4_val(s[1], s[2], s[3], s[4]))), 5))
            }
        } else if c == 0xd3 {
            if s.len() < 9 {
                Err(Error::UnexpectedEndOfInput)
            } else {
                Ok(
                    (
                        ValueV::Int(
                            wire::i64_val(
                                wire::be8_val(s[1], s[2], s[3], s[4], s[5], s[6], s[7], s[8]),
                            ),
                        ),
                        9,
                    ),
                )
            }
        } else if c == 0xda {
            if s.len() < 3 {
                Err(Error::UnexpectedEndOfInput)
            } else {
                let len = wire::be2_val(s[1], s[2]) as int;
                if s.len() < 3 + len {
                    Err(Error::UnexpectedEndOfInput)
                } else {
                    Ok((ValueV::Raw(s.subrange(3, 3 + len)), 3 + len))
                }
            }
        } else if c == 0xdb {
            if s.len() < 5 {
                Err(Error::UnexpectedEndOfInput)
            } else {
                let len = wire::be4_val(s[1], s[2], s[3], s[4]) as int;
                if s.len() < 5 + len {
                    Err(Error::UnexpectedEndOfInput)
                } else {
                    Ok((ValueV::Raw(s.subrange(5, 5 + len)), 5 + len))
                }
            }
        } else if c == 0xdc {
            if s.len() < 3 {
                Err(Error::UnexpectedEndOfInput)
            } else {
                match pseq(s.skip(3), wire::be2_val(s[1], s[2]) as int) {
                    Ok((vs, m)) => Ok((ValueV::Array(vs), 3 + m)),
                    Err(e) => Err(e),
                }
            }
        } else if c == 0xdd {
            if s.len() < 5 {
                Err(Error::UnexpectedEndOfInput)
            } else {
                match pseq(s.skip(5), wire::be4_val(s[1], s[2], s[3], s[4]) as int) {
                    Ok((vs, m)) => Ok((ValueV::Array(vs), 5 + m)),
                    Err(e) => Err(e),
                }
            }
        } else if c == 0xde {
            if s.len() < 3 {
                Err(Error::UnexpectedEndOfInput)
            } else {
                match pmap(s.skip(3), wire::be2_val(s[1], s[2]) as int) {
                    Ok((ps, m)) => Ok((ValueV::Mapping(ps), 3 + m)),
                    Err(e) => Err(e),
                }
            }
        } else if c == 0xdf {
            if s.len() < 5 {
                Err(Error::UnexpectedEndOfInput)
            } else {
                match pmap(s.skip(5), wire::be4_val(s[1], s[2], s[3], s[4]) as int) {
                    Ok((ps, m)) => Ok((ValueV::Mapping(ps), 5 + m)),
                    Err(e) => Err(e),
                }
            }
        } else if 0xe0 <= c {
            Ok((ValueV::Int(wire::i8_val(c)), 1))
        } else {
            Err(Error::InvalidTag)
        }
    }
}

/// Parses a row of `n` document trees, one after the other.
pub open spec fn pseq(s: Seq<u8>, n: int) -> Result<(Seq<ValueV>, int), Error>
    decreases s.len(), 1int, n,
{
    if n <= 0 {
        Ok((Seq::empty(), 0))
    } else {
        match pval(s) {
            Ok((v, k)) => {
                // defensive guard: a parsed tree always consumes between one
                // byte and the whole input (lemma_pval_bounds)
                if k < 1 || k > s.len() {
                    Err(Error::InvalidTag)
                } else {
                    match pseq(s.skip(k), n - 1) {
                        Ok((vs, m)) => Ok((seq![v] + vs, k + m)),
                        Err(e) => Err(e),
                    }
                }
            },
            Err(e) => Err(e),
        }
    }
}

/// Parses a row of `n` key/value pairs, each key directly before its value.
pub open spec fn pmap(s: Seq<u8>, n: int) -> Result<(Seq<(ValueV, ValueV)>, int), Error>
    decreases s.len(), 1int, n,
{
    if n <= 0 {
        Ok((Seq::empty(), 0))
    } else {
        match pval(s) {
            Ok((k, a)) => {
                if a < 1 || a > s.len() {
                    Err(Error::InvalidTag)
                } else {
                    match pval(s.skip(a)) {
                        Ok((v, b)) => {
                            if b < 1 || b > s.skip(a).len() {
                                Err(Error::InvalidTag)
                            } else {
                                match pmap(s.skip(a).skip(b), n - 1) {
                                    Ok((ps, m)) => Ok((seq![(k, v)] + ps, a + b + m)),
                                    Err(e) => Err(e),
                                }
                            }
                        },
                        Err(e) => Err(e),
                    }
                }
            },
            Err(e) => Err(e),
        }
    }
}

/// A parsed tree consumes at least one byte and no more than the input.
pub proof fn lemma_pval_bounds(s: Seq<u8>)
    ensures
        match pval(s) {
            Ok((_, n)) => 1 <= n <= s.len(),
            Err(_) => true,
        },
    decreases s.len(), 0int, 0int,
{
    if s.len() >= 1 {
        let c = s[0];
        if c <= 0x7f {
        } else if c <= 0x8f {
            lemma_pmap_bounds(s.skip(1), (c - 0x80) as int);
        } else if c <= 0x9f {
            lemma_pseq_bounds(s.skip(1), (c - 0x90) as int);
        } else if c == 0xdc && s.len() >= 3 {
            lemma_pseq_bounds(s.skip(3), wire::be2_val(s[1], s[2]) as int);
        } else if c == 0xdd && s.len() >= 5 {
            lemma_pseq_bounds(s.skip(5), wire::be4_val(s[1], s[2], s[3], s[4]) as int);
        } else if c == 0xde && s.len() >= 3 {
            lemma_pmap_bounds(s.skip(3), wire::be2_val(s[1], s[2]) as int);
        } else if c == 0xdf && s.len() >= 5 {
            lemma_pmap_bounds(s.skip(5), wire::be4_val(s[1], s[2], s[3], s[4]) as int);
        }
    }
}

/// A parsed row of `n` trees holds exactly `n` trees and consumes no more
/// than the input.
pub proof fn lemma_pseq_bounds(s: Seq<u8>, n: int)
    ensures
        match pseq(s, n) {
            Ok((vs, m)) => 0 <= m <= s.len() && vs.len() == if n <= 0 {
                0
            } else {
                n
            },
            Err(_) => true,
        },
    decreases s.len(), 1int, n,
{
    if n > 0 {
        lemma_pval_bounds(s);
        match pval(s) {
            Ok((v, k)) => {
                if 1 <= k <= s.len() {
                    lemma_pseq_bounds(s.skip(k), n - 1);
                }
            },
            Err(_) => {},
        }
    }
}

/// A parsed row of `n` pairs holds exactly `n` pairs and consumes no more
/// than the input.
pub proof fn lemma_pmap_bounds(s: Seq<u8>, n: int)
    ensures
        match pmap(s, n) {
            Ok((ps, m)) => 0 <= m <= s.len() && ps.len() == if n <= 0 {
                0
            } else {
                n
            },
            Err(_) => true,
        },
    decreases s.len(), 1int, n,
{
    if n > 0 {
        lemma_pval_bounds(s);
        match pval(s) {
            Ok((k, a)) => {
                if 1 <= a <= s.len() {
                    lemma_pval_bounds(s.skip(a));
                    match pval(s.skip(a)) {
                        Ok((v, b)) => {
                            if 1 <= b <= s.skip(a).len() {
                                lemma_pmap_bounds(s.skip(a).skip(b), n - 1);
                            }
                        },
                        Err(_) => {},
                    }
                }
            },
            Err(_) => {},
        }
    }
}

/// The untyped document value: constructed by the parser from a byte source
/// or built programmatically, and immutable once constructed. Its view is
/// the `ValueV` tree it stands for.
#[derive(Debug, PartialEq)]
pub enum Value {
    Nil,
    Bool(bool),
    Array(Vec<Value>),
    Mapping(Vec<(Value, Value)>),
    Int(i64),
    Uint(u64),
    Float(u32),
    Double(u64),
    Raw(Vec<u8>),
}

impl View for Value {
    type V = ValueV;

    open spec fn view(&self) -> ValueV
        decreases self,
    {
        match self {
            Value::Nil => ValueV::Nil,
            Value::Bool(b) => ValueV::Bool(*b),
            Value::Array(vs) => ValueV::Array(views_of(vs@)),
            Value::Mapping(ps) => ValueV::Mapping(pair_views_of(ps@)),
            Value::Int(x) => ValueV::Int(*x),
            Value::Uint(x) => ValueV::Uint(*x),
            Value::Float(x) => ValueV::Float(*x),
            Value::Double(x) => ValueV::Double(*x),
            Value::Raw(b) => ValueV::Raw(b@),
        }
    }
}

/// The views of a row of document values, in order.
pub open spec fn views_of(s: Seq<Value>) -> Seq<ValueV>
    decreases s,
{
    if s.len() == 0 {
        Seq::empty()
    } else {
        seq![s[0]@] + views_of(s.drop_first())
    }
}

/// The views of a row of key/value pairs, in order.
pub open spec fn pair_views_of(s: Seq<(Value, Value)>) -> Seq<(ValueV, ValueV)>
    decreases s,
{
    if s.len() == 0 {
        Seq::empty()
    } else {
        seq![(s[0].0@, s[0].1@)] + pair_views_of(s.drop_first())
    }
}

/// Element-wise reading of `views_of`.
pub proof fn lemma_views_of(s: Seq<Value>)
    ensures
        views_of(s).len() == s.len(),
        forall|i: int| 0 <= i < s.len() ==> views_of(s)[i] == #[trigger] s[i]@,
    decreases s,
{
    if s.len() > 0 {
        lemma_views_of(s.drop_first());
        assert(views_of(s) == seq![s[0]@] + views_of(s.drop_first()));
        assert(views_of(s).len() == s.len());
        assert forall|i: int| 0 <= i < s.len() implies views_of(s)[i] == #[trigger] s[i]@ by {
            if i == 0 {
                assert(views_of(s) == seq![s[0]@] + views_of(s.drop_first()));
                assert((seq![s[0]@] + views_of(s.drop_first()))[0] == seq![s[0]@][0]);
                assert(seq![s[0]@][0] == s[0]@);
            } else {
                assert(views_of(s) == seq![s[0]@] + views_of(s.drop_first()));
                assert((seq![s[0]@] + views_of(s.drop_first()))[i] == views_of(
                    s.drop_first(),
                )[i - 1]);
                assert(s.drop_first()[i - 1] == s[i]);
            }
        }
    }
}

/// Element-wise reading of `pair_views_of`.
pub proof fn lemma_pair_views_of(s: Seq<(Value, Value)>)
    ensures
        pair_views_of(s).len() == s.len(),
        forall|i: int|
            0 <= i < s.len() ==> pair_views_of(s)[i] == (#[trigger] s[i].0@, s[i].1@),
    decreases s,
{
    if s.len() > 0 {
        lemma_pair_views_of(s.drop_first());
        assert(pair_views_of(s) == seq![(s[0].0@, s[0].1@)] + pair_views_of(s.drop_first()));
        assert(pair_views_of(s).len() == s.len());
        assert forall|i: int|
            0 <= i < s.len() implies pair_views_of(s)[i] == (#[trigger] s[i].0@, s[i].1@) by {
            if i == 0 {
                assert(pair_views_of(s) == seq![(s[0].0@, s[0].1@)] + pair_views_of(
                    s.drop_first(),
                ));
                assert((seq![(s[0].0@, s[0].1@)] + pair_views_of(s.drop_first()))[0] == seq![
                    (s[0].0@, s[0].1@),
                ][0]);
            } else {
                assert(pair_views_of(s) == seq![(s[0].0@, s[0].1@)] + pair_views_of(
                    s.drop_first(),
                ));
                assert((seq![(s[0].0@, s[0].1@)] + pair_views_of(s.drop_first()))[i]
                    == pair_views_of(s.drop_first())[i - 1]);
                assert(s.drop_first()[i - 1] == s[i]);
            }
        }
    }
}

/// Splices a finished prefix of trees, and the bytes it used, onto the
/// outcome of parsing the remaining trees.
pub open spec fn join_seq(
    pre: Seq<ValueV>,
    used: int,
    rest: Result<(Seq<ValueV>, int), Error>,
) -> Result<(Seq<ValueV>, int), Error> {
    match rest {
        Ok((ws, m)) => Ok((pre + ws, used + m)),
        Err(e) => Err(e),
    }
}

/// Splices a finished prefix of pairs, and the bytes it used, onto the
/// outcome of parsing the remaining pairs.
pub open spec fn join_map(
    pre: Seq<(ValueV, ValueV)>,
    used: int,
    rest: Result<(Seq<(ValueV, ValueV)>, int), Error>,
) -> Result<(Seq<(ValueV, ValueV)>, int), Error> {
    match rest {
        Ok((ps, m)) => Ok((pre + ps, used + m)),
        Err(e) => Err(e),
    }
}

/// Appending one value appends its view.
pub proof fn lemma_views_of_push(s: Seq<Value>, x: Value)
    ensures
        views_of(s.push(x)) == views_of(s) + seq![x@],
    decreases s,
{
    if s.len() == 0 {
        assert(s.push(x).drop_first() =~= Seq::<Value>::empty());
        assert(views_of(s.push(x)) == seq![s.push(x)[0]@] + views_of(s.push(x).drop_first()));
        assert(views_of(s.push(x)) =~= views_of(s) + seq![x@]);
    } else {
        lemma_views_of_push(s.drop_first(), x);
        assert(s.push(x).drop_first() =~= s.drop_first().push(x));
        assert(views_of(s.push(x)) == seq![s[0]@] + views_of(s.drop_first().push(x)));
        assert(views_of(s.push(x)) =~= views_of(s) + seq![x@]);
    }
}

/// Appending one pair appends its views.
pub proof fn lemma_pair_views_of_push(s: Seq<(Value, Value)>, x: (Value, Value))
    ensures
        pair_views_of(s.push(x)) == pair_views_of(s) + seq![(x.0@, x.1@)],
    decreases s,
{
    if s.len() == 0 {
        assert(s.push(x).drop_first() =~= Seq::<(Value, Value)>::empty());
        assert(pair_views_of(s.push(x)) == seq![(s.push(x)[0].0@, s.push(x)[0].1@)]
            + pair_views_of(s.push(x).drop_first()));
        assert(pair_views_of(s.push(x)) =~= pair_views_of(s) + seq![(x.0@, x.1@)]);
    } else {
        lemma_pair_views_of_push(s.drop_first(), x);
        assert(s.push(x).drop_first() =~= s.drop_first().push(x));
        assert(pair_views_of(s.push(x)) == seq![(s[0].0@, s[0].1@)] + pair_views_of(
            s.drop_first().push(x),
        ));
        assert(pair_views_of(s.push(x)) =~= pair_views_of(s) + seq![(x.0@, x.1@)]);
    }
}

/// Leading bytes that open a sequence or mapping, whose payload is parsed
/// recursively.
pub open spec fn is_compound_tag(c: u8) -> bool {
    (0x80 <= c && c <= 0x9f) || c == 0xdc || c == 0xdd || c == 0xde || c == 0xdf
}

/// Skipping in two steps is skipping once.
pub proof fn lemma_skip_skip(s: Seq<u8>, a: int, b: int)
    requires
        0 <= a,
        0 <= b,
        a + b <= s.len(),
    ensures
        s.skip(a).skip(b) == s.skip(a + b),
{
    assert(s.skip(a).skip(b) =~= s.skip(a + b));
}

/// Appending one tree to a row appends its encoding.
pub proof fn lemma_enc_seq_push(t: Seq<ValueV>, x: ValueV)
    ensures
        enc_seq(t.push(x)) == enc_seq(t) + enc_value(x),
    decreases t,
{
    if t.len() == 0 {
        assert(t.push(x).drop_first() =~= Seq::<ValueV>::empty());
        assert(enc_seq(t.push(x)) == enc_value(x) + enc_seq(Seq::<ValueV>::empty()));
        assert(enc_seq(t.push(x)) =~= enc_seq(t) + enc_value(x));
    } else {
        lemma_enc_seq_push(t.drop_first(), x);
        assert(t.push(x).drop_first() =~= t.drop_first().push(x));
        assert(enc_seq(t.push(x)) == enc_value(t[0]) + enc_seq(t.drop_first().push(x)));
        assert(enc_seq(t.push(x)) =~= enc_seq(t) + enc_value(x));
    }
}

/// Appending one pair to a row appends its two encodings.
pub proof fn lemma_enc_pairs_push(t: Seq<(ValueV, ValueV)>, x: (ValueV, ValueV))
    ensures
        enc_pairs(t.push(x)) == enc_pairs(t) + enc_value(x.0) + enc_value(x.1),
    decreases t,
{
    if t.len() == 0 {
        assert(t.push(x).drop_first() =~= Seq::<(ValueV, ValueV)>::empty());
        assert(enc_pairs(t.push(x)) == enc_value(x.0) + enc_value(x.1) + enc_pairs(
            Seq::<(ValueV, ValueV)>::empty(),
        ));
        assert(enc_pairs(t.push(x)) =~= enc_pairs(t) + enc_value(x.0) + enc_value(x.1));
    } else {
        lemma_enc_pairs_push(t.drop_first(), x);
        assert(t.push(x).drop_first() =~= t.drop_first().push(x));
        assert(enc_pairs(t.push(x)) == enc_value(t[0].0) + enc_value(t[0].1) + enc_pairs(
            t.drop_first().push(x),
        ));
        assert(enc_pairs(t.push(x)) =~= enc_pairs(t) + enc_value(x.0) + enc_value(x.1));
    }
}

impl crate::encode::Encoder {
    /// Writes a whole document tree in its canonical form.
    pub fn encode_value(&mut self, v: &Value)
        requires
            v@.wf(),
        ensures
            final(self)@ == old(self)@ + enc_value(v@),
        decreases v,
    {
        match v {
            Value::Nil => self.emit_nil(),
            Value::Bool(b) => self.emit_bool(*b),
            Value::Int(x) => self._emit_i64(*x),
            Value::Uint(x) => self._emit_u64(*x),
            Value::Float(x) => self.emit_f32_bits(*x),
            Value::Double(x) => self.emit_f64_bits(*x),
            Value::Raw(b) => {
                self._emit_raw(b.as_slice());
            },
            Value::Array(vs) => {
                proof {
                    lemma_views_of(vs@);
                    assert(v@ == ValueV::Array(views_of(vs@)));
                }
                self.encode_values(vs);
            },
            Value::Mapping(ps) => {
                proof {
                    lemma_pair_views_of(ps@);
                    assert(v@ == ValueV::Mapping(pair_views_of(ps@)));
                }
                self.encode_pairs(ps);
            },
        }
    }

    /// Opens a sequence and writes every tree of the row in order.
    pub fn encode_values(&mut self, vs: &Vec<Value>)
        requires
            vs@.len() <= 0xffff_ffff,
            seq_wf(views_of(vs@)),
        ensures
            final(self)@ == old(self)@ + wire::enc_vec_len(vs@.len() as int) + enc_seq(
                views_of(vs@),
            ),
        decreases vs,
    {
        let n = vs.len();
        self._emit_vec_len(n);
        let ghost mid = self@;
        let ghost target = views_of(vs@);
        proof {
            lemma_views_of(vs@);
            assert(target.take(0) =~= Seq::<ValueV>::empty());
            assert(mid + Seq::<u8>::empty() =~= mid);
        }
        let mut i: usize = 0;
        while i < n
            invariant
                n == vs@.len(),
                i <= n,
                target == views_of(vs@),
                target.len() == n,
                seq_wf(target),
                forall|j: int| 0 <= j < vs@.len() ==> target[j] == #[trigger] vs@[j]@,
                self@ == mid + enc_seq(target.take(i as int)),
            decreases n - i,
        {
            proof {
                assert(target[i as int].wf());
            }
            self.encode_value(&vs[i]);
            proof {
                lemma_enc_seq_push(target.take(i as int), target[i as int]);
                assert(target.take(i + 1) =~= target.take(i as int).push(target[i as int]));
                assert(mid + enc_seq(target.take(i as int)) + enc_value(vs@[i as int]@) =~= mid
                    + (enc_seq(target.take(i as int)) + enc_value(target[i as int])));
            }
            i = i + 1;
        }
        proof {
            assert(target.take(n as int) =~= target);
            assert(mid + enc_seq(target) =~= old(self)@ + wire::enc_vec_len(vs@.len() as int)
                + enc_seq(views_of(vs@)));
        }
    }

    /// Opens a mapping and writes every pair of the row in order, each key
    /// directly before its value.
    pub fn encode_pairs(&mut self, ps: &Vec<(Value, Value)>)
        requires
            ps@.len() <= 0xffff_ffff,
            pairs_wf(pair_views_of(ps@)),
        ensures
            final(self)@ == old(self)@ + wire::enc_map_len(ps@.len() as int) + enc_pairs(
                pair_views_of(ps@),
            ),
        decreases ps,
    {
        let n = ps.len();
        self._emit_map_len(n);
        let ghost mid = self@;
        let ghost target = pair_views_of(ps@);
        proof {
            lemma_pair_views_of(ps@);
            assert(target.take(0) =~= Seq::<(ValueV, ValueV)>::empty());
            assert(mid + Seq::<u8>::empty() =~= mid);
        }
        let mut i: usize = 0;
        while i < n
            invariant
                n == ps@.len(),
                i <= n,
                target == pair_views_of(ps@),
                target.len() == n,
                pairs_wf(target),
                forall|j: int|
                    0 <= j < ps@.len() ==> target[j] == (#[trigger] ps@[j].0@, ps@[j].1@),
                self@ == mid + enc_pairs(target.take(i as int)),
            decreases n - i,
        {
            let pair = &ps[i];
            proof {
                assert(target[i as int].0.wf() && target[i as int].1.wf());
            }
            self.encode_value(&pair.0);
            self.encode_value(&pair.1);
            proof {
                lemma_enc_pairs_push(target.take(i as int), target[i as int]);
                assert(target.take(i + 1) =~= target.take(i as int).push(target[i as int]));
                assert(mid + enc_pairs(target.take(i as int)) + enc_value(ps@[i as int].0@)
                    + enc_value(ps@[i as int].1@) =~= mid + (enc_pairs(target.take(i as int))
                    + enc_value(target[i as int].0) + enc_value(target[i as int].1)));
            }
            i = i + 1;
        }
        proof {
            assert(target.take(n as int) =~= target);
            assert(mid + enc_pairs(target) =~= old(self)@ + wire::enc_map_len(ps@.len() as int)
                + enc_pairs(pair_views_of(ps@)));
        }
    }
}

impl crate::decode::Decoder {
    /// Parses one whole document tree from the source, with no advance
    /// knowledge of its shape: exactly the spec-level parser `pval`, run on
    /// the unconsumed bytes.
    /// Parses one whole document tree from the source, with no advance
    /// knowledge of its shape: exactly the spec-level parser `pval`, run on
    /// the unconsumed bytes.
    pub fn parse(&mut self) -> (r: Result<Value, Error>)
        requires
            old(self).wf(),
        ensures
            final(self).wf(),
            final(self).all_bytes() == old(self).all_bytes(),
            old(self).cursor() <= final(self).cursor(),
            match pval(old(self).rest()) {
                Ok((w, n)) => match r {
                    Ok(v) => v@ == w && final(self).cursor() == old(self).cursor() + n,
                    Err(_) => false,
                },
                Err(e) => r == Err::<Value, Error>(e),
            },
        decreases old(self).rest().len(), 2int, 0int,
    {
        match self.peek_byte() {
            None => Err(Error::UnexpectedEndOfInput),
            Some(c) => {
                if (0x80 <= c && c <= 0x9f) || c == 0xdc || c == 0xdd || c == 0xde || c == 0xdf {
                    self.parse_compound()
                } else {
                    self.parse_scalar()
                }
            },
        }
    }

    /// Parses one tree whose leading byte is not an aggregate tag.
    fn parse_scalar(&mut self) -> (r: Result<Value, Error>)
        requires
            old(self).wf(),
            old(self).rest().len() >= 1,
            !is_compound_tag(old(self).rest()[0]),
        ensures
            final(self).wf(),
            final(self).all_bytes() == old(self).all_bytes(),
            old(self).cursor() <= final(self).cursor(),
            match pval(old(self).rest()) {
                Ok((w, n)) => match r {
                    Ok(v) => v@ == w && final(self).cursor() == old(self).cursor() + n,
                    Err(_) => false,
                },
                Err(e) => r == Err::<Value, Error>(e),
            },
    {
        let c = match self.peek_byte() {
            Some(b) => b,
            None => {
                return Err(Error::UnexpectedEndOfInput);
            },
        };
        if (0xa0 <= c && c <= 0xbf) || c == 0xda || c == 0xdb {
            self.parse_raw_value()
        } else if 0xca <= c && c <= 0xd3 {
            self.parse_num_value()
        } else {
            self.parse_atom()
        }
    }

    /// Parses a tree held entirely in its single leading byte, or fails on a
    /// reserved one.
    #[verifier::spinoff_prover]
    fn parse_atom(&mut self) -> (r: Result<Value, Error>)
        requires
            old(self).wf(),
            old(self).rest().len() >= 1,
            !is_compound_tag(old(self).rest()[0]),
            !(0xa0 <= old(self).rest()[0] <= 0xbf),
            !(0xca <= old(self).rest()[0] <= 0xd3),
            old(self).rest()[0] != 0xda,
            old(self).rest()[0] != 0xdb,
        ensures
            final(self).wf(),
            final(self).all_bytes() == old(self).all_bytes(),
            old(self).cursor() <= final(self).cursor(),
            match pval(old(self).rest()) {
                Ok((w, n)) => match r {
                    Ok(v) => v@ == w && final(self).cursor() == old(self).cursor() + n,
                    Err(_) => false,
                },
                Err(e) => r == Err::<Value, Error>(e),
            },
    {
        let c = match self._read_byte() {
            Ok(b) => b,
            Err(e) => {
                return Err(e);
            },
        };
        if c <= 0x7f {
            Ok(Value::Uint(c as u64))
        } else if c == 0xc0 {
            Ok(Value::Nil)
        } else if c == 0xc2 {
            Ok(Value::Bool(false))
        } else if c == 0xc3 {
            Ok(Value::Bool(true))
        } else if 0xe0 <= c {
            Ok(Value::Int((c as i64) - 0x100))
        } else {
            Err(Error::InvalidTag)
        }
    }

    /// Parses a numeric tree: a float or an integer of any explicit width.
    #[verifier::rlimit(100)]
    #[verifier::spinoff_prover]
    fn parse_num_value(&mut self) -> (r: Result<Value, Error>)
        requires
            old(self).wf(),
            old(self).rest().len() >= 1,
            0xca <= old(self).rest()[0] <= 0xd3,
        ensures
            final(self).wf(),
            final(self).all_bytes() == old(self).all_bytes(),
            old(self).cursor() <= final(self).cursor(),
            match pval(old(self).rest()) {
                Ok((w, n)) => match r {
                    Ok(v) => v@ == w && final(self).cursor() == old(self).cursor() + n,
                    Err(_) => false,
                },
                Err(e) => r == Err::<Value, Error>(e),
            },
    {
        let c = match self._read_byte() {
            Ok(b) => b,
            Err(e) => {
                return Err(e);
            },
        };
        if c == 0xca {
            match self.read_be4() {
                Ok(v) => Ok(Value::Float(v as u32)),
                Err(e) => Err(e),
            }
        } else if c == 0xcb {
            match self.read_be8() {
                Ok(v) => Ok(Value::Double(v)),
                Err(e) => Err(e),
            }
        } else if c == 0xcc {
            match self._read_byte() {
                Ok(b) => Ok(Value::Uint(b as u64)),
                Err(e) => Err(e),
            }
        } else if c == 0xcd {
            match self.read_be2() {
                Ok(v) => Ok(Value::Uint(v)),
                Err(e) => Err(e),
            }
        } else if c == 0xce {
            match self.read_be4() {
                Ok(v) => Ok(Value::Uint(v)),
                Err(e) => Err(e),
            }
        } else if c == 0xcf {
            match self.read_be8() {
                Ok(v) => Ok(Value::Uint(v)),
                Err(e) => Err(e),
            }
        } else if c == 0xd0 {
            match self._read_byte() {
                Ok(b) => if b < 0x80 {
                    Ok(Value::Int(b as i64))
                } else {
                    Ok(Value::Int((b as i64) - 0x100))
                },
                Err(e) => Err(e),
            }
        } else if c == 0xd1 {
            match self.read_be2() {
                Ok(w) => if w < 0x8000 {
                    Ok(Value::Int(w as i64))
                } else {
                    Ok(Value::Int((w as i64) - 0x1_0000))
                },
                Err(e) => Err(e),
            }
        } else if c == 0xd2 {
            match self.read_be4() {
                Ok(w) => if w < 0x8000_0000 {
                    Ok(Value::Int(w as i64))
                } else {
                    Ok(Value::Int((w as i64) - 0x1_0000_0000))
                },
                Err(e) => Err(e),
            }
        } else {
            match self.read_be8() {
                Ok(w) => if w < 0x8000_0000_0000_0000 {
                    Ok(Value::Int(w as i64))
                } else {
                    Ok(Value::Int(((w as i128) - 0x1_0000_0000_0000_0000) as i64))
                },
                Err(e) => Err(e),
            }
        }
    }

    /// Parses a raw-bytes tree of any header form.
    #[verifier::rlimit(100)]
    #[verifier::spinoff_prover]
    fn parse_raw_value(&mut self) -> (r: Result<Value, Error>)
        requires
            old(self).wf(),
            old(self).rest().len() >= 1,
            (0xa0 <= old(self).rest()[0] <= 0xbf) || old(self).rest()[0] == 0xda || old(
                self,
            ).rest()[0] == 0xdb,
        ensures
            final(self).wf(),
            final(self).all_bytes() == old(self).all_bytes(),
            old(self).cursor() <= final(self).cursor(),
            match pval(old(self).rest()) {
                Ok((w, n)) => match r {
                    Ok(v) => v@ == w && final(self).cursor() == old(self).cursor() + n,
                    Err(_) => false,
                },
                Err(e) => r == Err::<Value, Error>(e),
            },
    {
        let ghost s = old(self).rest();
        let c = match self._read_byte() {
            Ok(b) => b,
            Err(e) => {
                return Err(e);
            },
        };
        proof {
            assert(s.skip(1) =~= self.rest());
        }
        if c <= 0xbf {
            let len = (c - 0xa0) as usize;
            match self._read_raw(len) {
                Ok(b) => {
                    proof {
                        assert(s.skip(1).subrange(0, len as int) =~= s.subrange(1, 1 + len as int));
                    }
                    Ok(Value::Raw(b))
                },
                Err(e) => Err(e),
            }
        } else if c == 0xda {
            let len = match self.read_be2() {
                Ok(v) => v as usize,
                Err(e) => {
                    return Err(e);
                },
            };
            proof {
                assert(s.skip(3) =~= self.rest());
            }
            match self._read_raw(len) {
                Ok(b) => {
                    proof {
                        assert(s.skip(3).subrange(0, len as int) =~= s.subrange(3, 3 + len as int));
                    }
                    Ok(Value::Raw(b))
                },
                Err(e) => Err(e),
            }
        } else {
            let len = match self.read_be4() {
                Ok(v) => v as usize,
                Err(e) => {
                    return Err(e);
                },
            };
            proof {
                assert(s.skip(5) =~= self.rest());
            }
            match self._read_raw(len) {
                Ok(b) => {
                    proof {
                        assert(s.skip(5).subrange(0, len as int) =~= s.subrange(5, 5 + len as int));
                    }
                    Ok(Value::Raw(b))
                },
                Err(e) => Err(e),
            }
        }
    }

    /// Parses one tree whose leading byte opens a sequence or mapping.
    #[verifier::rlimit(100)]
    #[verifier::spinoff_prover]
    fn parse_compound(&mut self) -> (r: Result<Value, Error>)
        requires
            old(self).wf(),
            old(self).rest().len() >= 1,
            is_compound_tag(old(self).rest()[0]),
        ensures
            final(self).wf(),
            final(self).all_bytes() == old(self).all_bytes(),
            old(self).cursor() <= final(self).cursor(),
            match pval(old(self).rest()) {
                Ok((w, n)) => match r {
                    Ok(v) => v@ == w && final(self).cursor() == old(self).cursor() + n,
                    Err(_) => false,
                },
                Err(e) => r == Err::<Value, Error>(e),
            },
        decreases old(self).rest().len(), 1int, 0int,
    {
        let ghost s = old(self).rest();
        let c = match self._read_byte() {
            Ok(b) => b,
            Err(e) => {
                return Err(e);
            },
        };
        proof {
            assert(s.skip(1) =~= self.rest());
        }
        if c <= 0x8f {
            match self.parse_map((c - 0x80) as usize) {
                Ok(ps) => Ok(Value::Mapping(ps)),
                Err(e) => Err(e),
            }
        } else if c <= 0x9f {
            match self.parse_array((c - 0x90) as usize) {
                Ok(vs) => Ok(Value::Array(vs)),
                Err(e) => Err(e),
            }
        } else if c == 0xdc {
            let len = match self.read_be2() {
                Ok(v) => v as usize,
                Err(e) => {
                    return Err(e);
                },
            };
            proof {
                assert(s.skip(3) =~= self.rest());
            }
            match self.parse_array(len) {
                Ok(vs) => Ok(Value::Array(vs)),
                Err(e) => Err(e),
            }
        } else if c == 0xdd {
            let len = match self.read_be4() {
                Ok(v) => v as usize,
                Err(e) => {
                    return Err(e);
                },
            };
            proof {
                assert(s.skip(5) =~= self.rest());
            }
            match self.parse_array(len) {
                Ok(vs) => Ok(Value::Array(vs)),
                Err(e) => Err(e),
            }
        } else if c == 0xde {
            let len = match self.read_be2() {
                Ok(v) => v as usize,
                Err(e) => {
                    return Err(e);
                },
            };
            proof {
                assert(s.skip(3) =~= self.rest());
            }
            match self.parse_map(len) {
                Ok(ps) => Ok(Value::Mapping(ps)),
                Err(e) => Err(e),
            }
        } else {
            let len = match self.read_be4() {
                Ok(v) => v as usize,
                Err(e) => {
                    return Err(e);
                },
            };
            proof {
                assert(s.skip(5) =~= self.rest());
            }
            match self.parse_map(len) {
                Ok(ps) => Ok(Value::Mapping(ps)),
                Err(e) => Err(e),
            }
        }
    }

    /// Parses a row of `len` document trees.
    pub fn parse_array(&mut self, len: usize) -> (r: Result<Vec<Value>, Error>)
        requires
            old(self).wf(),
        ensures
            final(self).wf(),
            final(self).all_bytes() == old(self).all_bytes(),
            old(self).cursor() <= final(self).cursor(),
            match pseq(old(self).rest(), len as int) {
                Ok((ws, m)) => match r {
                    Ok(vs) => views_of(vs@) == ws && final(self).cursor() == old(self).cursor()
                        + m,
                    Err(_) => false,
                },
                Err(e) => r == Err::<Vec<Value>, Error>(e),
            },
        decreases old(self).rest().len(), 3int, len,
    {
        let ghost s0 = old(self).rest();
        let ghost c0 = old(self).cursor();
        let mut out: Vec<Value> = Vec::new();
        let mut i: usize = 0;
        proof {
            assert(views_of(out@) =~= Seq::<ValueV>::empty());
            match pseq(s0, len as int) {
                Ok((ws, m)) => {
                    assert(Seq::<ValueV>::empty() + ws =~= ws);
                },
                Err(_) => {},
            }
            assert(pseq(s0, len as int) == join_seq(
                views_of(out@),
                self.cursor() - c0,
                pseq(self.rest(), (len - i) as int),
            ));
        }
        while i < len
            invariant
                self.wf(),
                self.all_bytes() == old(self).all_bytes(),
                s0 == old(self).rest(),
                c0 == old(self).cursor(),
                c0 <= self.cursor(),
                i <= len,
                out@.len() == i,
                self.rest().len() == self.all_bytes().len() - self.cursor(),
                s0.len() == self.all_bytes().len() - c0,
                pseq(s0, len as int) == join_seq(
                    views_of(out@),
                    self.cursor() - c0,
                    pseq(self.rest(), (len - i) as int),
                ),
            decreases len - i,
        {
            let ghost rest_i = self.rest();
            let ghost cur_i = self.cursor();
            let ghost pre_i = views_of(out@);
            proof {
                lemma_pval_bounds(rest_i);
            }
            let v = match self.parse() {
                Ok(v) => v,
                Err(e) => {
                    return Err(e);
                },
            };
            proof {
                let k = self.cursor() - cur_i;
                assert(rest_i.skip(k) =~= self.rest());
                lemma_views_of_push(out@, v);
                match pseq(self.rest(), (len - i - 1) as int) {
                    Ok((ws, m)) => {
                        assert(pre_i + (seq![v@] + ws) =~= (pre_i + seq![v@]) + ws);
                    },
                    Err(_) => {},
                }
            }
            out.push(v);
            i = i + 1;
        }
        proof {
            assert(pseq(self.rest(), 0) == Ok::<(Seq<ValueV>, int), Error>((Seq::empty(), 0)));
            assert(views_of(out@) + Seq::<ValueV>::empty() =~= views_of(out@));
        }
        Ok(out)
    }

    /// Parses a row of `len` key/value pairs, key before value, preserving
    /// pair order and keeping duplicate keys.
    pub fn parse_map(&mut self, len: usize) -> (r: Result<Vec<(Value, Value)>, Error>)
        requires
            old(self).wf(),
        ensures
            final(self).wf(),
            final(self).all_bytes() == old(self).all_bytes(),
            old(self).cursor() <= final(self).cursor(),
            match pmap(old(self).rest(), len as int) {
                Ok((ws, m)) => match r {
                    Ok(ps) => pair_views_of(ps@) == ws && final(self).cursor() == old(
                        self,
                    ).cursor() + m,
                    Err(_) => false,
                },
                Err(e) => r == Err::<Vec<(Value, Value)>, Error>(e),
            },
        decreases old(self).rest().len(), 3int, len,
    {
        let ghost s0 = old(self).rest();
        let ghost c0 = old(self).cursor();
        let mut out: Vec<(Value, Value)> = Vec::new();
        let mut i: usize = 0;
        proof {
            assert(pair_views_of(out@) =~= Seq::<(ValueV, ValueV)>::empty());
            match pmap(s0, len as int) {
                Ok((ws, m)) => {
                    assert(Seq::<(ValueV, ValueV)>::empty() + ws =~= ws);
                },
                Err(_) => {},
            }
            assert(pmap(s0, len as int) == join_map(
                pair_views_of(out@),
                self.cursor() - c0,
                pmap(self.rest(), (len - i) as int),
            ));
        }
        while i < len
            invariant
                self.wf(),
                self.all_bytes() == old(self).all_bytes(),
                s0 == old(self).rest(),
                c0 == old(self).cursor(),
                c0 <= self.cursor(),
                i <= len,
                out@.len() == i,
                self.rest().len() == self.all_bytes().len() - self.cursor(),
                s0.len() == self.all_bytes().len() - c0,
                pmap(s0, len as int) == join_map(
                    pair_views_of(out@),
                    self.cursor() - c0,
                    pmap(self.rest(), (len - i) as int),
                ),
            decreases len - i,
        {
            let ghost rest_i = self.rest();
            let ghost cur_i = self.cursor();
            let ghost pre_i = pair_views_of(out@);
            proof {
                lemma_pval_bounds(rest_i);
            }
            let k = match self.parse() {
                Ok(v) => v,
                Err(e) => {
                    return Err(e);
                },
            };
            let ghost rest_k = self.rest();
            let ghost cur_k = self.cursor();
            proof {
                let a = cur_k - cur_i;
                assert(rest_i.skip(a) =~= rest_k);
                lemma_pval_bounds(rest_k);
            }
            let v = match self.parse() {
                Ok(v) => v,
                Err(e) => {
                    return Err(e);
                },
            };
            proof {
                let a = cur_k - cur_i;
                let b = self.cursor() - cur_k;
                assert(rest_i.skip(a).skip(b) =~= self.rest());
                lemma_pair_views_of_push(out@, (k, v));
                match pmap(self.rest(), (len - i - 1) as int) {
                    Ok((ws, m)) => {
                        assert(pre_i + (seq![(k@, v@)] + ws) =~= (pre_i + seq![(k@, v@)]) + ws);
                    },
                    Err(_) => {},
                }
            }
            out.push((k, v));
            i = i + 1;
        }
        proof {
            assert(pmap(self.rest(), 0) == Ok::<(Seq<(ValueV, ValueV)>, int), Error>(
                (Seq::empty(), 0),
            ));
            assert(pair_views_of(out@) + Seq::<(ValueV, ValueV)>::empty() =~= pair_views_of(out@));
        }
        Ok(out)
    }
}

} // verus!
