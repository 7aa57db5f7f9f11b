//! A bidirectional transcoder between two database wire protocols and a
//! protocol-independent message model: the RESP2 key-value protocol (frame
//! grammar, streaming decoder, encoder, command classification) and the
//! rows-result rebuild of a tabular binary protocol.

pub mod resp;
pub mod message;
pub mod convert;
pub mod commands;
pub mod classify;
pub mod codec;
pub mod cassandra;
