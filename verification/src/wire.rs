//! The wire: JSON text to typed values and back.
//!
//! Decoding reads the text into a document tree and hands the tree to the
//! codec; text that is not JSON is a syntax error, whatever it was meant to
//! be. Encoding asks the codec for the tree and writes it.

use vstd::prelude::*;
use vstd::string::StringSliceAdditionalSpecFns;
use crate::codec::{DecodeError, EncodeError};
use crate::error::{error_json, error_of, Error, ErrorModel};
use crate::id::{id_json, id_of, Id, IdModel};
use crate::json::{JsonModel, JsonValue};
use crate::params::{params_json, params_of, Params, ParamsModel};
use crate::request::{
    call_json, call_of, method_call_json, method_call_of, notification_json, notification_of,
    request_json, request_of, salvaged_request, Call, CallModel, MethodCall, MethodCallModel,
    Notification, NotificationModel, Request, RequestModel,
};
use crate::response::{
    failure_json, failure_of, output_json, output_of, response_json, response_of, success_json,
    success_of, Failure, FailureModel, Output, OutputModel, Response, ResponseModel, Success,
    SuccessModel,
};
use crate::text::{document, parse_bytes, print, text_of};

verus! {

/// The document that a text holds, or the syntax error.
pub open spec fn parsed(bytes: Seq<u8>) -> Result<JsonModel, DecodeError> {
    match document(bytes) {
        Some(v) => Ok(v),
        None => Err(DecodeError::Syntax),
    }
}

/// What a text stands for, given what a document stands for.
pub open spec fn decoded<T>(
    bytes: Seq<u8>,
    of: spec_fn(JsonModel) -> Result<T, DecodeError>,
) -> Result<T, DecodeError> {
    match parsed(bytes) {
        Ok(v) => of(v),
        Err(e) => Err(e),
    }
}

/// The text of a value, given its document.
pub open spec fn encoded(json: Result<JsonModel, EncodeError>) -> Result<Seq<char>, EncodeError> {
    match json {
        Ok(v) => match text_of(v) {
            Some(t) => Ok(t),
            None => Err(EncodeError::Unprintable),
        },
        Err(e) => Err(e),
    }
}

/// Reads the document that a text holds.
pub fn parse(text: &str) -> (r: Result<JsonValue, DecodeError>)
    ensures
        match r {
            Ok(v) => parsed(text.spec_bytes()) == Ok::<JsonModel, DecodeError>(v@),
            Err(e) => parsed(text.spec_bytes()) == Err::<JsonModel, DecodeError>(e),
        },
{
    match parse_bytes(text.as_bytes()) {
        Some(v) => Ok(v),
        None => Err(DecodeError::Syntax),
    }
}

/// Writes a document, or says why it cannot be written.
pub fn write(json: Result<JsonValue, EncodeError>) -> (r: Result<String, EncodeError>)
    ensures
        match r {
            Ok(t) => encoded(
                match json {
                    Ok(v) => Ok(v@),
                    Err(e) => Err(e),
                },
            ) == Ok::<Seq<char>, EncodeError>(t@),
            Err(e) => encoded(
                match json {
                    Ok(v) => Ok(v@),
                    Err(e) => Err(e),
                },
            ) == Err::<Seq<char>, EncodeError>(e),
        },
{
    match json {
        Ok(v) => match print(&v) {
            Some(t) => Ok(t),
            None => Err(EncodeError::Unprintable),
        },
        Err(e) => Err(e),
    }
}

/// Decodes a request: a call or a batch of calls, in either dialect.
pub fn decode_request(text: &str) -> (r: Result<Request, DecodeError>)
    ensures
        match r {
            Ok(q) => decoded(text.spec_bytes(), |v: JsonModel| request_of(v)) == Ok::<
                RequestModel,
                DecodeError,
            >(q@),
            Err(e) => decoded(text.spec_bytes(), |v: JsonModel| request_of(v)) == Err::<
                RequestModel,
                DecodeError,
            >(e),
        },
{
    match parse(text) {
        Ok(v) => Request::from_json(&v),
        Err(e) => Err(e),
    }
}

/// Decodes a request for the sake of answering it: an object or a batch
/// item that is no call becomes the record of an invalid call, which keeps
/// the id that the error response has to carry.
pub fn decode_request_lenient(text: &str) -> (r: Result<Request, DecodeError>)
    ensures
        match r {
            Ok(q) => decoded(text.spec_bytes(), |v: JsonModel| salvaged_request(v)) == Ok::<
                RequestModel,
                DecodeError,
            >(q@),
            Err(e) => decoded(text.spec_bytes(), |v: JsonModel| salvaged_request(v)) == Err::<
                RequestModel,
                DecodeError,
            >(e),
        },
{
    match parse(text) {
        Ok(v) => Request::salvage(&v),
        Err(e) => Err(e),
    }
}

/// Encodes a request.
pub fn encode_request(request: &Request) -> (r: Result<String, EncodeError>)
    ensures
        match r {
            Ok(t) => encoded(request_json(request@)) == Ok::<Seq<char>, EncodeError>(t@),
            Err(e) => encoded(request_json(request@)) == Err::<Seq<char>, EncodeError>(e),
        },
{
    write(request.to_json())
}

/// Decodes a response: an output or a batch of outputs, in either dialect.
pub fn decode_response(text: &str) -> (r: Result<Response, DecodeError>)
    ensures
        match r {
            Ok(q) => decoded(text.spec_bytes(), |v: JsonModel| response_of(v)) == Ok::<
                ResponseModel,
                DecodeError,
            >(q@),
            Err(e) => decoded(text.spec_bytes(), |v: JsonModel| response_of(v)) == Err::<
                ResponseModel,
                DecodeError,
            >(e),
        },
{
    match parse(text) {
        Ok(v) => Response::from_json(&v),
        Err(e) => Err(e),
    }
}

/// Encodes a response.
pub fn encode_response(response: &Response) -> (r: Result<String, EncodeError>)
    ensures
        match r {
            Ok(t) => encoded(response_json(response@)) == Ok::<Seq<char>, EncodeError>(t@),
            Err(e) => encoded(response_json(response@)) == Err::<Seq<char>, EncodeError>(e),
        },
{
    write(response.to_json())
}

impl Id {
    /// Decodes an id.
    pub fn decode(text: &str) -> (r: Result<Id, DecodeError>)
        ensures
            match r {
                Ok(x) => decoded(text.spec_bytes(), |v: JsonModel| id_of(v)) == Ok::<
                    IdModel,
                    DecodeError,
                >(x@),
                Err(e) => decoded(text.spec_bytes(), |v: JsonModel| id_of(v)) == Err::<
                    IdModel,
                    DecodeError,
                >(e),
            },
    {
        match parse(text) {
            Ok(v) => Id::from_json(&v),
            Err(e) => Err(e),
        }
    }

    /// Encodes the id.
    pub fn encode(&self) -> (r: Result<String, EncodeError>)
        ensures
            match r {
                Ok(t) => encoded(Ok(id_json(self@))) == Ok::<Seq<char>, EncodeError>(t@),
                Err(e) => encoded(Ok(id_json(self@))) == Err::<Seq<char>, EncodeError>(e),
            },
    {
        write(Ok(self.to_json()))
    }
}

impl Params {
    /// Decodes parameters.
    pub fn decode(text: &str) -> (r: Result<Params, DecodeError>)
        ensures
            match r {
                Ok(x) => decoded(text.spec_bytes(), |v: JsonModel| params_of(v)) == Ok::<
                    ParamsModel,
                    DecodeError,
                >(x@),
                Err(e) => decoded(text.spec_bytes(), |v: JsonModel| params_of(v)) == Err::<
                    ParamsModel,
                    DecodeError,
                >(e),
            },
    {
        match parse(text) {
            Ok(v) => Params::from_json(&v),
            Err(e) => Err(e),
        }
    }

    /// Encodes the parameters.
    pub fn encode(&self) -> (r: Result<String, EncodeError>)
        ensures
            match r {
                Ok(t) => encoded(Ok(params_json(self@))) == Ok::<Seq<char>, EncodeError>(t@),
                Err(e) => encoded(Ok(params_json(self@))) == Err::<Seq<char>, EncodeError>(e),
            },
    {
        write(Ok(self.to_json()))
    }
}

impl Error {
    /// Decodes an error object.
    pub fn decode(text: &str) -> (r: Result<Error, DecodeError>)
        ensures
            match r {
                Ok(x) => decoded(text.spec_bytes(), |v: JsonModel| error_of(v)) == Ok::<
                    ErrorModel,
                    DecodeError,
                >(x@),
                Err(e) => decoded(text.spec_bytes(), |v: JsonModel| error_of(v)) == Err::<
                    ErrorModel,
                    DecodeError,
                >(e),
            },
    {
        match parse(text) {
            Ok(v) => Error::from_json(&v),
            Err(e) => Err(e),
        }
    }

    /// Encodes the error object.
    pub fn encode(&self) -> (r: Result<String, EncodeError>)
        ensures
            match r {
                Ok(t) => encoded(Ok(error_json(self@))) == Ok::<Seq<char>, EncodeError>(t@),
                Err(e) => encoded(Ok(error_json(self@))) == Err::<Seq<char>, EncodeError>(e),
            },
    {
        write(Ok(self.to_json()))
    }
}

impl MethodCall {
    /// Decodes a method call.
    pub fn decode(text: &str) -> (r: Result<MethodCall, DecodeError>)
        ensures
            match r {
                Ok(x) => decoded(text.spec_bytes(), |v: JsonModel| method_call_of(v)) == Ok::<
                    MethodCallModel,
                    DecodeError,
                >(x@),
                Err(e) => decoded(text.spec_bytes(), |v: JsonModel| method_call_of(v)) == Err::<
                    MethodCallModel,
                    DecodeError,
                >(e),
            },
    {
        match parse(text) {
            Ok(v) => MethodCall::from_json(&v),
            Err(e) => Err(e),
        }
    }

    /// Encodes the method call.
    pub fn encode(&self) -> (r: Result<String, EncodeError>)
        ensures
            match r {
                Ok(t) => encoded(method_call_json(self@)) == Ok::<Seq<char>, EncodeError>(t@),
                Err(e) => encoded(method_call_json(self@)) == Err::<Seq<char>, EncodeError>(e),
            },
    {
        write(self.to_json())
    }
}

impl Notification {
    /// Decodes a notification.
    pub fn decode(text: &str) -> (r: Result<Notification, DecodeError>)
        ensures
            match r {
                Ok(x) => decoded(text.spec_bytes(), |v: JsonModel| notification_of(v)) == Ok::<
                    NotificationModel,
                    DecodeError,
                >(x@),
                Err(e) => decoded(text.spec_bytes(), |v: JsonModel| notification_of(v)) == Err::<
                    NotificationModel,
                    DecodeError,
                >(e),
            },
    {
        match parse(text) {
            Ok(v) => Notification::from_json(&v),
            Err(e) => Err(e),
        }
    }

    /// Encodes the notification.
    pub fn encode(&self) -> (r: Result<String, EncodeError>)
        ensures
            match r {
                Ok(t) => encoded(notification_json(self@)) == Ok::<Seq<char>, EncodeError>(t@),
                Err(e) => encoded(notification_json(self@)) == Err::<Seq<char>, EncodeError>(e),
            },
    {
        write(self.to_json())
    }
}

impl Call {
    /// Decodes a call.
    pub fn decode(text: &str) -> (r: Result<Call, DecodeError>)
        ensures
            match r {
                Ok(x) => decoded(text.spec_bytes(), |v: JsonModel| call_of(v)) == Ok::<
                    CallModel,
                    DecodeError,
                >(x@),
                Err(e) => decoded(text.spec_bytes(), |v: JsonModel| call_of(v)) == Err::<
                    CallModel,
                    DecodeError,
                >(e),
            },
    {
        match parse(text) {
            Ok(v) => Call::from_json(&v),
            Err(e) => Err(e),
        }
    }

    /// Encodes the call.
    pub fn encode(&self) -> (r: Result<String, EncodeError>)
        ensures
            match r {
                Ok(t) => encoded(call_json(self@)) == Ok::<Seq<char>, EncodeError>(t@),
                Err(e) => encoded(call_json(self@)) == Err::<Seq<char>, EncodeError>(e),
            },
    {
        write(self.to_json())
    }
}

impl Request {
    /// Decodes a request.
    pub fn decode(text: &str) -> (r: Result<Request, DecodeError>)
        ensures
            match r {
                Ok(q) => decoded(text.spec_bytes(), |v: JsonModel| request_of(v)) == Ok::<
                    RequestModel,
                    DecodeError,
                >(q@),
                Err(e) => decoded(text.spec_bytes(), |v: JsonModel| request_of(v)) == Err::<
                    RequestModel,
                    DecodeError,
                >(e),
            },
    {
        decode_request(text)
    }

    /// Encodes the request.
    pub fn encode(&self) -> (r: Result<String, EncodeError>)
        ensures
            match r {
                Ok(t) => encoded(request_json(self@)) == Ok::<Seq<char>, EncodeError>(t@),
                Err(e) => encoded(request_json(self@)) == Err::<Seq<char>, EncodeError>(e),
            },
    {
        encode_request(self)
    }
}

impl Success {
    /// Decodes a success.
    pub fn decode(text: &str) -> (r: Result<Success, DecodeError>)
        ensures
            match r {
                Ok(x) => decoded(text.spec_bytes(), |v: JsonModel| success_of(v)) == Ok::<
                    SuccessModel,
                    DecodeError,
                >(x@),
                Err(e) => decoded(text.spec_bytes(), |v: JsonModel| success_of(v)) == Err::<
                    SuccessModel,
                    DecodeError,
                >(e),
            },
    {
        match parse(text) {
            Ok(v) => Success::from_json(&v),
            Err(e) => Err(e),
        }
    }

    /// Encodes the success.
    pub fn encode(&self) -> (r: Result<String, EncodeError>)
        ensures
            match r {
                Ok(t) => encoded(success_json(self@)) == Ok::<Seq<char>, EncodeError>(t@),
                Err(e) => encoded(success_json(self@)) == Err::<Seq<char>, EncodeError>(e),
            },
    {
        write(self.to_json())
    }
}

impl Failure {
    /// Decodes a failure.
    pub fn decode(text: &str) -> (r: Result<Failure, DecodeError>)
        ensures
            match r {
                Ok(x) => decoded(text.spec_bytes(), |v: JsonModel| failure_of(v)) == Ok::<
                    FailureModel,
                    DecodeError,
                >(x@),
                Err(e) => decoded(text.spec_bytes(), |v: JsonModel| failure_of(v)) == Err::<
                    FailureModel,
                    DecodeError,
                >(e),
            },
    {
        match parse(text) {
            Ok(v) => Failure::from_json(&v),
            Err(e) => Err(e),
        }
    }

    /// Encodes the failure.
    pub fn encode(&self) -> (r: Result<String, EncodeError>)
        ensures
            match r {
                Ok(t) => encoded(Ok(failure_json(self@))) == Ok::<Seq<char>, EncodeError>(t@),
                Err(e) => encoded(Ok(failure_json(self@))) == Err::<Seq<char>, EncodeError>(e),
            },
    {
        write(Ok(self.to_json()))
    }
}

impl Output {
    /// Decodes an output.
    pub fn decode(text: &str) -> (r: Result<Output, DecodeError>)
        ensures
            match r {
                Ok(x) => decoded(text.spec_bytes(), |v: JsonModel| output_of(v)) == Ok::<
                    OutputModel,
                    DecodeError,
                >(x@),
                Err(e) => decoded(text.spec_bytes(), |v: JsonModel| output_of(v)) == Err::<
                    OutputModel,
                    DecodeError,
                >(e),
            },
    {
        match parse(text) {
            Ok(v) => Output::from_json(&v),
            Err(e) => Err(e),
        }
    }

    /// Encodes the output.
    pub fn encode(&self) -> (r: Result<String, EncodeError>)
        ensures
            match r {
                Ok(t) => encoded(output_json(self@)) == Ok::<Seq<char>, EncodeError>(t@),
                Err(e) => encoded(output_json(self@)) == Err::<Seq<char>, EncodeError>(e),
            },
    {
        write(self.to_json())
    }
}

impl Response {
    /// Decodes a response.
    pub fn decode(text: &str) -> (r: Result<Response, DecodeError>)
        ensures
            match r {
                Ok(q) => decoded(text.spec_bytes(), |v: JsonModel| response_of(v)) == Ok::<
                    ResponseModel,
                    DecodeError,
                >(q@),
                Err(e) => decoded(text.spec_bytes(), |v: JsonModel| response_of(v)) == Err::<
                    ResponseModel,
                    DecodeError,
                >(e),
            },
    {
        decode_response(text)
    }

    /// Encodes the response.
    pub fn encode(&self) -> (r: Result<String, EncodeError>)
        ensures
            match r {
                Ok(t) => encoded(response_json(self@)) == Ok::<Seq<char>, EncodeError>(t@),
                Err(e) => encoded(response_json(self@)) == Err::<Seq<char>, EncodeError>(e),
            },
    {
        encode_response(self)
    }
}

} // verus!
