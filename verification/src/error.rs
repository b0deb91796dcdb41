//! The error object of a failed call.

use vstd::prelude::*;
use vstd::string::StringExecFns;
use crate::codec::{
    lemma_field_of_name, lemma_scan_empty, lemma_scan_push, option_model, scan, scan_members,
    DecodeError, Field, Schema, SlotsModel,
};
use crate::json::{
    lemma_object_model, members_model, JsonModel, JsonValue, Member, Number, NumberModel,
};

verus! {

/// The code of an error: one of the five that the protocol reserves, or any
/// other, which is the server's or the application's own.
#[derive(Clone, Copy, Debug, PartialEq, Eq, Hash, Structural)]
pub enum ErrorCode {
    /// Invalid JSON was received: -32700.
    ParseError,
    /// The JSON sent is not a valid request object: -32600.
    InvalidRequest,
    /// The method does not exist or is not available: -32601.
    MethodNotFound,
    /// Invalid method parameters: -32602.
    InvalidParams,
    /// Internal JSON-RPC error: -32603.
    InternalError,
    /// Any other code. The protocol keeps -32099 to -32000 for the server.
    ServerError(i64),
}

/// The code that a number names: the reserved variant where it is one of the
/// five reserved numbers, `ServerError` with the number otherwise.
pub open spec fn code_of(code: i64) -> ErrorCode {
    if code == -32700 {
        ErrorCode::ParseError
    } else if code == -32600 {
        ErrorCode::InvalidRequest
    } else if code == -32601 {
        ErrorCode::MethodNotFound
    } else if code == -32602 {
        ErrorCode::InvalidParams
    } else if code == -32603 {
        ErrorCode::InternalError
    } else {
        ErrorCode::ServerError(code)
    }
}

/// Whether a number lies in the range that the protocol keeps for the
/// server's own errors.
pub open spec fn in_server_range(code: i64) -> bool {
    -32099 <= code <= -32000
}

impl ErrorCode {
    /// The number of the code.
    pub open spec fn value(self) -> i64 {
        match self {
            ErrorCode::ParseError => -32700i64,
            ErrorCode::InvalidRequest => -32600i64,
            ErrorCode::MethodNotFound => -32601i64,
            ErrorCode::InvalidParams => -32602i64,
            ErrorCode::InternalError => -32603i64,
            ErrorCode::ServerError(code) => code,
        }
    }

    /// The standard message of the code.
    pub open spec fn description_text(self) -> Seq<char> {
        match self {
            ErrorCode::ParseError => "Parse error"@,
            ErrorCode::InvalidRequest => "Invalid request"@,
            ErrorCode::MethodNotFound => "Method not found"@,
            ErrorCode::InvalidParams => "Invalid params"@,
            ErrorCode::InternalError => "Internal error"@,
            ErrorCode::ServerError(_) => "Server error"@,
        }
    }

    /// The number of the code.
    pub fn code(&self) -> (r: i64)
        ensures
            r == self.value(),
    {
        match self {
            ErrorCode::ParseError => -32700,
            ErrorCode::InvalidRequest => -32600,
            ErrorCode::MethodNotFound => -32601,
            ErrorCode::InvalidParams => -32602,
            ErrorCode::InternalError => -32603,
            ErrorCode::ServerError(code) => *code,
        }
    }

    /// The code that `code` names.
    pub fn from_code(code: i64) -> (r: ErrorCode)
        ensures
            r == code_of(code),
            r.value() == code,
    {
        if code == -32700 {
            ErrorCode::ParseError
        } else if code == -32600 {
            ErrorCode::InvalidRequest
        } else if code == -32601 {
            ErrorCode::MethodNotFound
        } else if code == -32602 {
            ErrorCode::InvalidParams
        } else if code == -32603 {
            ErrorCode::InternalError
        } else {
            ErrorCode::ServerError(code)
        }
    }

    /// Whether the code lies in the range kept for the server's own errors.
    pub fn is_server_error(&self) -> (r: bool)
        ensures
            r == in_server_range(self.value()),
    {
        let code = self.code();
        -32099 <= code && code <= -32000
    }

    /// The standard message of the code.
    pub fn description(&self) -> (r: String)
        ensures
            r@ == self.description_text(),
    {
        match self {
            ErrorCode::ParseError => String::from_str("Parse error"),
            ErrorCode::InvalidRequest => String::from_str("Invalid request"),
            ErrorCode::MethodNotFound => String::from_str("Method not found"),
            ErrorCode::InvalidParams => String::from_str("Invalid params"),
            ErrorCode::InternalError => String::from_str("Internal error"),
            ErrorCode::ServerError(_) => String::from_str("Server error"),
        }
    }
}

/// A code and the number it was made from name the same number, and a
/// number's code made again from its own number is the same code.
pub proof fn lemma_code_round_trip(code: i64)
    ensures
        code_of(code).value() == code,
        code_of(code_of(code).value()) == code_of(code),
{
}

/// The error object of a failed call.
#[derive(Debug, PartialEq, Eq)]
pub struct Error {
    /// What kind of error it is.
    pub code: ErrorCode,
    /// A short description of the error.
    pub message: String,
    /// More about the error, if anything.
    pub data: Option<JsonValue>,
}

/// The mathematical value of an [`Error`]: the code stands by its number.
pub ghost struct ErrorModel {
    pub code: i64,
    pub message: Seq<char>,
    pub data: Option<JsonModel>,
}

impl View for Error {
    type V = ErrorModel;

    open spec fn view(&self) -> ErrorModel {
        ErrorModel {
            code: self.code.value(),
            message: self.message@,
            data: option_model(self.data),
        }
    }
}

/// The code that a scanned `code` member stands for: an integer of the
/// signed 64-bit range.
pub open spec fn code_number(v: JsonModel) -> Option<i64> {
    match v {
        JsonModel::Number(n) => match n.int_value() {
            Some(k) => if i64::MIN <= k <= i64::MAX {
                Some(k as i64)
            } else {
                None
            },
            None => None,
        },
        _ => None,
    }
}

/// The error object that scanned members stand for. `code` and `message`
/// are required, `data` is kept as it stands where it is present.
pub open spec fn error_of_slots(slots: SlotsModel) -> Result<ErrorModel, DecodeError> {
    match slots.code {
        None => Err(DecodeError::MissingField(Field::Code)),
        Some(code) => match code_number(code) {
            None => Err(DecodeError::InvalidErrorShape),
            Some(code) => match slots.message {
                None => Err(DecodeError::MissingField(Field::Message)),
                Some(JsonModel::String(message)) => Ok(
                    ErrorModel { code, message, data: slots.data },
                ),
                Some(_) => Err(DecodeError::InvalidErrorShape),
            },
        },
    }
}

/// The error object that a JSON value stands for: an object with the
/// members `code`, `message` and, if any, `data`, and no other.
pub open spec fn error_of(v: JsonModel) -> Result<ErrorModel, DecodeError> {
    match v {
        JsonModel::Object(members) => match scan(Schema::ErrorObject, members) {
            Err(e) => Err(e),
            Ok(slots) => error_of_slots(slots),
        },
        _ => Err(DecodeError::InvalidErrorShape),
    }
}

/// The members of an error object, in the order in which they are written:
/// `code`, `message`, then `data` where there is any.
pub open spec fn error_members(e: ErrorModel) -> Seq<(Seq<char>, JsonModel)> {
    let head = Seq::empty().push(
        (Field::Code.name(), JsonModel::Number(NumberModel::of_i64(e.code))),
    ).push((Field::Message.name(), JsonModel::String(e.message)));
    match e.data {
        Some(data) => head.push((Field::Data.name(), data)),
        None => head,
    }
}

/// The JSON value of an error object.
pub open spec fn error_json(e: ErrorModel) -> JsonModel {
    JsonModel::Object(error_members(e))
}

/// An error object read back from its own JSON value is the same error
/// object.
pub proof fn lemma_error_round_trip(e: ErrorModel)
    ensures
        error_of(error_json(e)) == Ok::<ErrorModel, DecodeError>(e),
{
    let schema = Schema::ErrorObject;
    let code = (Field::Code.name(), JsonModel::Number(NumberModel::of_i64(e.code)));
    let message = (Field::Message.name(), JsonModel::String(e.message));
    let none = Seq::<(Seq<char>, JsonModel)>::empty();
    lemma_field_of_name(schema, Field::Code);
    lemma_field_of_name(schema, Field::Message);
    lemma_field_of_name(schema, Field::Data);
    lemma_scan_empty(schema);
    lemma_scan_push(schema, none, code.0, code.1);
    lemma_scan_push(schema, none.push(code), message.0, message.1);
    match e.data {
        Some(data) => {
            lemma_scan_push(schema, none.push(code).push(message), Field::Data.name(), data);
        },
        None => {},
    }
}

impl Clone for Error {
    fn clone(&self) -> (r: Self)
        ensures
            r@ == self@,
    {
        let data = match &self.data {
            Some(d) => Some(d.clone()),
            None => None,
        };
        Error { code: self.code, message: self.message.clone(), data }
    }
}

impl Error {
    /// An error of the given code with the code's standard message.
    pub fn new(code: ErrorCode) -> (r: Error)
        ensures
            r@ == (ErrorModel {
                code: code.value(),
                message: code.description_text(),
                data: None,
            }),
            r.code == code,
    {
        Error { code, message: code.description(), data: None }
    }

    /// Invalid JSON was received.
    pub fn parse_error() -> (r: Error)
        ensures
            r@ == (ErrorModel { code: -32700i64, message: "Parse error"@, data: None }),
    {
        Error::new(ErrorCode::ParseError)
    }

    /// The JSON sent is not a valid request object.
    pub fn invalid_request() -> (r: Error)
        ensures
            r@ == (ErrorModel { code: -32600i64, message: "Invalid request"@, data: None }),
    {
        Error::new(ErrorCode::InvalidRequest)
    }

    /// The method does not exist or is not available.
    pub fn method_not_found() -> (r: Error)
        ensures
            r@ == (ErrorModel { code: -32601i64, message: "Method not found"@, data: None }),
    {
        Error::new(ErrorCode::MethodNotFound)
    }

    /// Internal JSON-RPC error.
    pub fn internal_error() -> (r: Error)
        ensures
            r@ == (ErrorModel { code: -32603i64, message: "Internal error"@, data: None }),
    {
        Error::new(ErrorCode::InternalError)
    }

    /// Invalid method parameters, with a message that says what is wrong.
    pub fn invalid_params(message: String) -> (r: Error)
        ensures
            r@ == (ErrorModel { code: -32602i64, message: message@, data: None }),
    {
        Error { code: ErrorCode::InvalidParams, message, data: None }
    }

    /// Invalid method parameters, with a message and the offending value.
    pub fn invalid_params_with_details(message: String, details: JsonValue) -> (r: Error)
        ensures
            r@ == (ErrorModel { code: -32602i64, message: message@, data: Some(details@) }),
    {
        Error { code: ErrorCode::InvalidParams, message, data: Some(details) }
    }

    /// Reads an error object from a JSON value.
    pub fn from_json(v: &JsonValue) -> (r: Result<Error, DecodeError>)
        ensures
            match r {
                Ok(e) => error_of(v@) == Ok::<ErrorModel, DecodeError>(e@),
                Err(e) => error_of(v@) == Err::<ErrorModel, DecodeError>(e),
            },
    {
        match v {
            JsonValue::Object(members) => {
                proof {
                    lemma_object_model(*members);
                }
                match scan_members(Schema::ErrorObject, members) {
                    Err(e) => Err(e),
                    Ok(slots) => {
                        let code = match &slots.code {
                            None => {
                                return Err(DecodeError::MissingField(Field::Code));
                            },
                            Some(JsonValue::Number(n)) => match n.as_i64() {
                                Some(code) => code,
                                None => {
                                    return Err(DecodeError::InvalidErrorShape);
                                },
                            },
                            Some(_) => {
                                return Err(DecodeError::InvalidErrorShape);
                            },
                        };
                        let message = match &slots.message {
                            None => {
                                return Err(DecodeError::MissingField(Field::Message));
                            },
                            Some(JsonValue::String(s)) => s.clone(),
                            Some(_) => {
                                return Err(DecodeError::InvalidErrorShape);
                            },
                        };
                        Ok(Error { code: ErrorCode::from_code(code), message, data: slots.data })
                    },
                }
            },
            _ => Err(DecodeError::InvalidErrorShape),
        }
    }

    /// The JSON value of the error object.
    pub fn to_json(&self) -> (r: JsonValue)
        ensures
            r@ == error_json(self@),
    {
        let mut members: Vec<Member> = Vec::new();
        members.push(
            Member {
                key: Field::Code.key(),
                value: JsonValue::Number(Number::from_i64(self.code.code())),
            },
        );
        members.push(
            Member { key: Field::Message.key(), value: JsonValue::String(self.message.clone()) },
        );
        match &self.data {
            Some(data) => {
                members.push(Member { key: Field::Data.key(), value: data.clone() });
            },
            None => {},
        }
        proof {
            lemma_object_model(members);
            assert(members_model(members@) =~= error_members(self@));
        }
        JsonValue::Object(members)
    }
}

} // verus!
