//! Payload encoding: the two interchangeable encoding strategies, and the
//! errors a terminal emit call can surface.
use vstd::prelude::*;

use socketioxide_core::parser::Parse;

use crate::requests::EncodedValue;
use crate::Driver;

verus! {

/// The upstream error produced when a payload cannot be encoded.
#[verifier::external_type_specification]
#[verifier::external_body]
pub struct ExParserError(socketioxide_core::parser::ParserError);

/// An error that occurred when broadcasting a message.
pub enum EmitError<D: Driver> {
    /// The transport driver failed; its error is handed back unchanged.
    Driver(D::Error),
    /// The payload could not be encoded. Raised before the transport is
    /// contacted, so no partially-sent request exists.
    Parser(socketioxide_core::parser::ParserError),
}

/// The two interchangeable payload encoders. Every producer and every
/// consumer in one cluster must use the same one; the choice is a deployment
/// contract this library cannot check at runtime.
#[derive(Clone, Copy, Debug, PartialEq, Eq, Structural)]
pub enum Parser {
    /// The general-purpose text encoding, the default of all socket.io
    /// systems.
    Common,
    /// The size-optimized binary encoding.
    MsgPack,
}

impl Default for Parser {
    /// The general-purpose text encoder.
    fn default() -> (r: Self)
        ensures
            r == Parser::Common,
    {
        Parser::Common
    }
}

/// Encode a message and its event name with the general-purpose text encoder.
///
/// Relies on `socketioxide_parser_common::CommonParser::encode_value`: on
/// success the payload is a text value, with binary attachments only when the
/// message carried binary data.
#[verifier::external_body]
pub(crate) fn encode_common<T: serde::Serialize + ?Sized>(msg: &T, event: &str) -> (r: Result<
    EncodedValue,
    socketioxide_core::parser::ParserError,
>)
    ensures
        r matches Ok(v) ==> v@ is Str,
{
    match socketioxide_parser_common::CommonParser.encode_value(msg, Some(event)) {
        Ok(socketioxide_core::Value::Str(s, bins)) => Ok(EncodedValue::Str(
            s.as_str().to_owned(),
            bins.map(|b| b.into_iter().map(|x| x.to_vec()).collect()),
        )),
        Ok(socketioxide_core::Value::Bytes(b)) => Ok(EncodedValue::Bytes(b.to_vec())),
        Err(e) => Err(e),
    }
}

/// Encode a message and its event name with the size-optimized binary
/// encoder.
///
/// Relies on `socketioxide_parser_msgpack::MsgPackParser::encode_value`: on
/// success the payload is one binary value.
#[verifier::external_body]
pub(crate) fn encode_msgpack<T: serde::Serialize + ?Sized>(msg: &T, event: &str) -> (r: Result<
    EncodedValue,
    socketioxide_core::parser::ParserError,
>)
    ensures
        r matches Ok(v) ==> v@ is Bytes,
{
    match socketioxide_parser_msgpack::MsgPackParser.encode_value(msg, Some(event)) {
        Ok(socketioxide_core::Value::Str(s, bins)) => Ok(EncodedValue::Str(
            s.as_str().to_owned(),
            bins.map(|b| b.into_iter().map(|x| x.to_vec()).collect()),
        )),
        Ok(socketioxide_core::Value::Bytes(b)) => Ok(EncodedValue::Bytes(b.to_vec())),
        Err(e) => Err(e),
    }
}

} // verus!
