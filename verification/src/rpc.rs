//! The RPC message envelope: three tagged shapes framed as fixed-arity
//! sequences whose first element is an integer discriminant — 0 for a
//! request, 1 for a response, 2 for a notification. Requests and responses
//! travel as 4-element sequences, notifications as 3-element ones; any other
//! length is an `ArityMismatch`, any other discriminant an `InvalidTag`.

use crate::decode::Decoder;
use crate::encode::Encoder;
use crate::error::Error;
use crate::value::{pseq, seq_wf, views_of, Value, ValueV};
use crate::wire;
use vstd::prelude::*;

verus! {

/// The mathematical form of an RPC message.
pub enum RpcV {
    Request { msgid: u32, method: Seq<char>, params: Seq<ValueV> },
    Response { msgid: u32, error: ValueV, result: ValueV },
    Notification { method: Seq<char>, params: Seq<ValueV> },
}

/// An RPC message: a request carrying an id, a method name and parameters; a
/// response carrying an id, an error and a result; or a notification
/// carrying a method name and parameters.
#[derive(Debug, PartialEq)]
pub enum RpcMessage {
    RpcRequest { msgid: u32, method: String, params: Vec<Value> },
    RpcResponse { msgid: u32, error: Value, result: Value },
    RpcNotification { method: String, params: Vec<Value> },
}

impl View for RpcMessage {
    type V = RpcV;

    open spec fn view(&self) -> RpcV {
        match self {
            RpcMessage::RpcRequest { msgid, method, params } => RpcV::Request {
                msgid: *msgid,
                method: method@,
                params: views_of(params@),
            },
            RpcMessage::RpcResponse { msgid, error, result } => RpcV::Response {
                msgid: *msgid,
                error: error@,
                result: result@,
            },
            RpcMessage::RpcNotification { method, params } => RpcV::Notification {
                method: method@,
                params: views_of(params@),
            },
        }
    }
}

/// The wire form of an RPC message: the arity prefix, the discriminant, then
/// the fields in declared order, each in its canonical encoding.
pub open spec fn rpc_wire(m: RpcV) -> Seq<u8> {
    match m {
        RpcV::Request { msgid, method, params } => wire::enc_vec_len(4) + wire::enc_unsigned(0)
            + wire::enc_unsigned(msgid as u64) + wire::enc_str(method) + wire::enc_vec_len(
            params.len() as int,
        ) + crate::value::enc_seq(params),
        RpcV::Response { msgid, error, result } => wire::enc_vec_len(4) + wire::enc_unsigned(1)
            + wire::enc_unsigned(msgid as u64) + crate::value::enc_value(error)
            + crate::value::enc_value(result),
        RpcV::Notification { method, params } => wire::enc_vec_len(3) + wire::enc_unsigned(2)
            + wire::enc_str(method) + wire::enc_vec_len(params.len() as int)
            + crate::value::enc_seq(params),
    }
}

/// Decodes an RPC message from the front of a byte sequence: the message and
/// the bytes consumed, or the error.
pub open spec fn rpc_dec(s: Seq<u8>) -> Result<(RpcV, int), Error> {
    match wire::dec_vec_len(s) {
        Ok((len, h1)) => match wire::dec_unsigned(s.skip(h1)) {
            Ok((ty, h2)) => {
                if ty == 0 || ty == 1 {
                    if len != 4 {
                        Err(Error::ArityMismatch)
                    } else {
                        match wire::dec_unsigned(s.skip(h1 + h2)) {
                            Ok((mid, h3)) => {
                                if mid > 0xffff_ffff {
                                    Err(Error::NumericOverflow)
                                } else if ty == 0 {
                                    match rpc_dec_request(s.skip(h1 + h2 + h3), mid as u32) {
                                        Ok((m, n)) => Ok((m, h1 + h2 + h3 + n)),
                                        Err(e) => Err(e),
                                    }
                                } else {
                                    match rpc_dec_response(s.skip(h1 + h2 + h3), mid as u32) {
                                        Ok((m, n)) => Ok((m, h1 + h2 + h3 + n)),
                                        Err(e) => Err(e),
                                    }
                                }
                            },
                            Err(e) => Err(e),
                        }
                    }
                } else if ty == 2 {
                    if len != 3 {
                        Err(Error::ArityMismatch)
                    } else {
                        match rpc_dec_notification(s.skip(h1 + h2)) {
                            Ok((m, n)) => Ok((m, h1 + h2 + n)),
                            Err(e) => Err(e),
                        }
                    }
                } else {
                    Err(Error::InvalidTag)
                }
            },
            Err(e) => Err(e),
        },
        Err(e) => Err(e),
    }
}

/// Decodes the method and parameters of a request from the bytes after its
/// head.
pub open spec fn rpc_dec_request(t: Seq<u8>, mid: u32) -> Result<(RpcV, int), Error> {
    match wire::dec_str(t) {
        Ok((meth, h4)) => match wire::dec_elt_len(t.skip(h4)) {
            Ok((cnt, h5)) => match pseq(t.skip(h4 + h5), cnt) {
                Ok((ps, h6)) => Ok(
                    (RpcV::Request { msgid: mid, method: meth, params: ps }, h4 + h5 + h6),
                ),
                Err(e) => Err(e),
            },
            Err(e) => Err(e),
        },
        Err(e) => Err(e),
    }
}

/// Decodes the error and result of a response from the bytes after its head.
pub open spec fn rpc_dec_response(t: Seq<u8>, mid: u32) -> Result<(RpcV, int), Error> {
    match crate::value::pval(t) {
        Ok((err_v, h4)) => match crate::value::pval(t.skip(h4)) {
            Ok((res_v, h5)) => Ok(
                (RpcV::Response { msgid: mid, error: err_v, result: res_v }, h4 + h5),
            ),
            Err(e) => Err(e),
        },
        Err(e) => Err(e),
    }
}

/// Decodes the method and parameters of a notification from the bytes after
/// its head.
pub open spec fn rpc_dec_notification(t: Seq<u8>) -> Result<(RpcV, int), Error> {
    match wire::dec_str(t) {
        Ok((meth, h4)) => match wire::dec_elt_len(t.skip(h4)) {
            Ok((cnt, h5)) => match pseq(t.skip(h4 + h5), cnt) {
                Ok((ps, h6)) => Ok(
                    (RpcV::Notification { method: meth, params: ps }, h4 + h5 + h6),
                ),
                Err(e) => Err(e),
            },
            Err(e) => Err(e),
        },
        Err(e) => Err(e),
    }
}

impl RpcMessage {
    /// Every field of the message fits its wire limits.
    pub open spec fn wf(self) -> bool {
        match self {
            RpcMessage::RpcRequest { msgid, method, params } => vstd::utf8::encode_utf8(
                method@,
            ).len() <= 0xffff_ffff && params@.len() <= 0xffff_ffff && seq_wf(views_of(params@)),
            RpcMessage::RpcResponse { msgid, error, result } => error@.wf() && result@.wf(),
            RpcMessage::RpcNotification { method, params } => vstd::utf8::encode_utf8(
                method@,
            ).len() <= 0xffff_ffff && params@.len() <= 0xffff_ffff && seq_wf(views_of(params@)),
        }
    }

    /// Writes the message in its wire form: the discriminant-led fixed-arity
    /// sequence of its fields.
    /// Writes the message in its wire form: the discriminant-led fixed-arity
    /// sequence of its fields.
    pub fn encode(&self, s: &mut Encoder)
        requires
            self.wf(),
        ensures
            final(s)@ == old(s)@ + rpc_wire(self@),
    {
        match self {
            RpcMessage::RpcRequest { msgid, method, params } => {
                Self::encode_request(s, *msgid, method, params);
            },
            RpcMessage::RpcResponse { msgid, error, result } => {
                Self::encode_response(s, *msgid, error, result);
            },
            RpcMessage::RpcNotification { method, params } => {
                Self::encode_notification(s, method, params);
            },
        }
    }

    /// Writes a request: arity 4, discriminant 0, then id, method and
    /// parameters.
    #[verifier::spinoff_prover]
    fn encode_request(s: &mut Encoder, msgid: u32, method: &String, params: &Vec<Value>)
        requires
            vstd::utf8::encode_utf8(method@).len() <= 0xffff_ffff,
            params@.len() <= 0xffff_ffff,
            seq_wf(views_of(params@)),
        ensures
            final(s)@ == old(s)@ + rpc_wire(
                RpcV::Request { msgid, method: method@, params: views_of(params@) },
            ),
    {
        s.emit_tup(4);
        s.emit_uint(0);
        s.emit_u32(msgid);
        s.emit_owned_str(method.as_str());
        s.encode_values(params);
        proof {
            crate::value::lemma_views_of(params@);
            assert(s@ =~= old(s)@ + rpc_wire(
                RpcV::Request { msgid, method: method@, params: views_of(params@) },
            ));
        }
    }

    /// Writes a response: arity 4, discriminant 1, then id, error and
    /// result.
    #[verifier::spinoff_prover]
    fn encode_response(s: &mut Encoder, msgid: u32, error: &Value, result: &Value)
        requires
            error@.wf(),
            result@.wf(),
        ensures
            final(s)@ == old(s)@ + rpc_wire(
                RpcV::Response { msgid, error: error@, result: result@ },
            ),
    {
        s.emit_tup(4);
        s.emit_uint(1);
        s.emit_u32(msgid);
        s.encode_value(error);
        s.encode_value(result);
        proof {
            assert(s@ =~= old(s)@ + rpc_wire(
                RpcV::Response { msgid, error: error@, result: result@ },
            ));
        }
    }

    /// Writes a notification: arity 3, discriminant 2, then method and
    /// parameters.
    #[verifier::spinoff_prover]
    fn encode_notification(s: &mut Encoder, method: &String, params: &Vec<Value>)
        requires
            vstd::utf8::encode_utf8(method@).len() <= 0xffff_ffff,
            params@.len() <= 0xffff_ffff,
            seq_wf(views_of(params@)),
        ensures
            final(s)@ == old(s)@ + rpc_wire(
                RpcV::Notification { method: method@, params: views_of(params@) },
            ),
    {
        s.emit_tup(3);
        s.emit_uint(2);
        s.emit_owned_str(method.as_str());
        s.encode_values(params);
        proof {
            crate::value::lemma_views_of(params@);
            assert(s@ =~= old(s)@ + rpc_wire(
                RpcV::Notification { method: method@, params: views_of(params@) },
            ));
        }
    }

    /// Reads one message from the decoder: exactly the spec-level `rpc_dec`
    /// run on the unconsumed bytes.
    #[verifier::rlimit(100)]
    #[verifier::spinoff_prover]
    pub fn decode(d: &mut Decoder) -> (r: Result<RpcMessage, Error>)
        requires
            old(d).wf(),
        ensures
            final(d).wf(),
            final(d).all_bytes() == old(d).all_bytes(),
            old(d).cursor() <= final(d).cursor(),
            match rpc_dec(old(d).rest()) {
                Ok((m, n)) => match r {
                    Ok(msg) => msg@ == m && final(d).cursor() == old(d).cursor() + n,
                    Err(_) => false,
                },
                Err(e) => r == Err::<RpcMessage, Error>(e),
            },
    {
        let ghost s = old(d).rest();
        let len = match d._read_vec_len() {
            Ok(n) => n,
            Err(e) => {
                return Err(e);
            },
        };
        proof {
            assert(s.skip(d.cursor() - old(d).cursor()) =~= d.rest());
        }
        let ty = match d._read_unsigned() {
            Ok(t) => t,
            Err(e) => {
                return Err(e);
            },
        };
        proof {
            assert(s.skip(d.cursor() - old(d).cursor()) =~= d.rest());
        }
        if ty == 0 || ty == 1 {
            if len != 4 {
                return Err(Error::ArityMismatch);
            }
            let msgid = match d.read_u32() {
                Ok(m) => m,
                Err(e) => {
                    return Err(e);
                },
            };
            proof {
                assert(s.skip(d.cursor() - old(d).cursor()) =~= d.rest());
            }
            if ty == 0 {
                Self::decode_request_tail(d, msgid)
            } else {
                Self::decode_response_tail(d, msgid)
            }
        } else if ty == 2 {
            if len != 3 {
                return Err(Error::ArityMismatch);
            }
            Self::decode_notification_tail(d)
        } else {
            Err(Error::InvalidTag)
        }
    }

    /// Reads the method and parameters of a request.
    #[verifier::spinoff_prover]
    fn decode_request_tail(d: &mut Decoder, msgid: u32) -> (r: Result<RpcMessage, Error>)
        requires
            old(d).wf(),
        ensures
            final(d).wf(),
            final(d).all_bytes() == old(d).all_bytes(),
            old(d).cursor() <= final(d).cursor(),
            match rpc_dec_request(old(d).rest(), msgid) {
                Ok((m, n)) => match r {
                    Ok(msg) => msg@ == m && final(d).cursor() == old(d).cursor() + n,
                    Err(_) => false,
                },
                Err(e) => r == Err::<RpcMessage, Error>(e),
            },
    {
        let ghost t = old(d).rest();
        let method = match d.read_owned_str() {
            Ok(m) => m,
            Err(e) => {
                return Err(e);
            },
        };
        proof {
            assert(t.skip(d.cursor() - old(d).cursor()) =~= d.rest());
        }
        let cnt = match d.read_owned_vec() {
            Ok(c) => c,
            Err(e) => {
                return Err(e);
            },
        };
        proof {
            assert(t.skip(d.cursor() - old(d).cursor()) =~= d.rest());
        }
        let params = match d.parse_array(cnt) {
            Ok(p) => p,
            Err(e) => {
                return Err(e);
            },
        };
        Ok(RpcMessage::RpcRequest { msgid, method, params })
    }

    /// Reads the error and result of a response.
    #[verifier::spinoff_prover]
    fn decode_response_tail(d: &mut Decoder, msgid: u32) -> (r: Result<RpcMessage, Error>)
        requires
            old(d).wf(),
        ensures
            final(d).wf(),
            final(d).all_bytes() == old(d).all_bytes(),
            old(d).cursor() <= final(d).cursor(),
            match rpc_dec_response(old(d).rest(), msgid) {
                Ok((m, n)) => match r {
                    Ok(msg) => msg@ == m && final(d).cursor() == old(d).cursor() + n,
                    Err(_) => false,
                },
                Err(e) => r == Err::<RpcMessage, Error>(e),
            },
    {
        let ghost t = old(d).rest();
        let error = match d.parse() {
            Ok(v) => v,
            Err(e) => {
                return Err(e);
            },
        };
        proof {
            assert(t.skip(d.cursor() - old(d).cursor()) =~= d.rest());
        }
        let result = match d.parse() {
            Ok(v) => v,
            Err(e) => {
                return Err(e);
            },
        };
        Ok(RpcMessage::RpcResponse { msgid, error, result })
    }

    /// Reads the method and parameters of a notification.
    #[verifier::spinoff_prover]
    fn decode_notification_tail(d: &mut Decoder) -> (r: Result<RpcMessage, Error>)
        requires
            old(d).wf(),
        ensures
            final(d).wf(),
            final(d).all_bytes() == old(d).all_bytes(),
            old(d).cursor() <= final(d).cursor(),
            match rpc_dec_notification(old(d).rest()) {
                Ok((m, n)) => match r {
                    Ok(msg) => msg@ == m && final(d).cursor() == old(d).cursor() + n,
                    Err(_) => false,
                },
                Err(e) => r == Err::<RpcMessage, Error>(e),
            },
    {
        let ghost t = old(d).rest();
        let method = match d.read_owned_str() {
            Ok(m) => m,
            Err(e) => {
                return Err(e);
            },
        };
        proof {
            assert(t.skip(d.cursor() - old(d).cursor()) =~= d.rest());
        }
        let cnt = match d.read_owned_vec() {
            Ok(c) => c,
            Err(e) => {
                return Err(e);
            },
        };
        proof {
            assert(t.skip(d.cursor() - old(d).cursor()) =~= d.rest());
        }
        let params = match d.parse_array(cnt) {
            Ok(p) => p,
            Err(e) => {
                return Err(e);
            },
        };
        Ok(RpcMessage::RpcNotification { method, params })
    }
}

/// One key/value pair of a mapping, encoded as the key directly followed by
/// the value with no framing of its own.
pub struct MapItem<K, V> {
    pub key: K,
    pub val: V,
}

impl<K, V> MapItem<K, V> {
    /// Builds a pair.
    pub fn mk(k: K, v: V) -> (r: MapItem<K, V>)
        ensures
            r.key == k,
            r.val == v,
    {
        MapItem { key: k, val: v }
    }
}

impl MapItem<Value, Value> {
    /// Writes the pair: its key, then its value.
    pub fn encode(&self, s: &mut Encoder)
        requires
            self.key@.wf(),
            self.val@.wf(),
        ensures
            final(s)@ == old(s)@ + crate::value::enc_value(self.key@) + crate::value::enc_value(
                self.val@,
            ),
    {
        self.key.encode_value_to(s);
        self.val.encode_value_to(s);
        proof {
            assert(s@ =~= old(s)@ + crate::value::enc_value(self.key@)
                + crate::value::enc_value(self.val@));
        }
    }
}

impl Value {
    /// Writes this tree through the given encoder.
    pub fn encode_value_to(&self, s: &mut Encoder)
        requires
            self@.wf(),
        ensures
            final(s)@ == old(s)@ + crate::value::enc_value(self@),
    {
        s.encode_value(self)
    }
}

} // verus!
