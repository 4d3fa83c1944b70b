//! A compact, self-describing binary object codec ("pack" format) with a
//! typed encoder/decoder pair, an untyped document model with a recursive
//! parser, and a small RPC message-envelope layer on top.

pub mod cast;
pub mod decode;
pub mod error;
pub mod rpc;
pub mod value;
pub mod encode;
pub mod wire;
