//! The identifier that ties a response to its call.

use vstd::prelude::*;
use crate::codec::DecodeError;
use crate::json::{JsonModel, JsonValue, Number, NumberModel};

verus! {

/// The identifier of a call: a non-negative integer, a string, or null.
///
/// Null is the id of a response to a call whose own id could not be read; no
/// method call carries it.
#[derive(Debug, PartialEq, Eq, Hash)]
pub enum Id {
    /// Numeric id.
    Num(u64),
    /// String id.
    Str(String),
    /// The id that is known to be unknown.
    Null,
}

/// The mathematical value of an [`Id`].
pub ghost enum IdModel {
    Num(u64),
    Str(Seq<char>),
    Null,
}

impl View for Id {
    type V = IdModel;

    open spec fn view(&self) -> IdModel {
        match *self {
            Id::Num(n) => IdModel::Num(n),
            Id::Str(s) => IdModel::Str(s@),
            Id::Null => IdModel::Null,
        }
    }
}

/// The id that a JSON value stands for. A number is an id only if it is an
/// integer from 0 to the largest unsigned 64-bit integer: a negative number
/// and one with a fraction are not.
pub open spec fn id_of(v: JsonModel) -> Result<IdModel, DecodeError> {
    match v {
        JsonModel::Null => Ok(IdModel::Null),
        JsonModel::String(s) => Ok(IdModel::Str(s)),
        JsonModel::Number(n) => match n.int_value() {
            Some(k) => if 0 <= k <= u64::MAX {
                Ok(IdModel::Num(k as u64))
            } else {
                Err(DecodeError::InvalidIdShape)
            },
            None => Err(DecodeError::InvalidIdShape),
        },
        _ => Err(DecodeError::InvalidIdShape),
    }
}

/// The JSON value of an id.
pub open spec fn id_json(id: IdModel) -> JsonModel {
    match id {
        IdModel::Num(n) => JsonModel::Number(NumberModel::PosInt(n)),
        IdModel::Str(s) => JsonModel::String(s),
        IdModel::Null => JsonModel::Null,
    }
}

/// An id read back from its own JSON value is the same id.
pub proof fn lemma_id_round_trip(id: IdModel)
    ensures
        id_of(id_json(id)) == Ok::<IdModel, DecodeError>(id),
{
}

impl Clone for Id {
    fn clone(&self) -> (r: Self)
        ensures
            r@ == self@,
    {
        match self {
            Id::Num(n) => Id::Num(*n),
            Id::Str(s) => Id::Str(s.clone()),
            Id::Null => Id::Null,
        }
    }
}

impl Default for Id {
    fn default() -> (r: Self)
        ensures
            r@ == IdModel::Null,
    {
        Id::Null
    }
}

impl Id {
    /// Whether the id is null.
    pub fn is_null(&self) -> (r: bool)
        ensures
            r == (self@ == IdModel::Null),
    {
        match self {
            Id::Null => true,
            _ => false,
        }
    }

    /// Reads an id from a JSON value.
    pub fn from_json(v: &JsonValue) -> (r: Result<Id, DecodeError>)
        ensures
            match r {
                Ok(id) => id_of(v@) == Ok::<IdModel, DecodeError>(id@),
                Err(e) => id_of(v@) == Err::<IdModel, DecodeError>(e),
            },
    {
        match v {
            JsonValue::Null => Ok(Id::Null),
            JsonValue::String(s) => Ok(Id::Str(s.clone())),
            JsonValue::Number(n) => match n.as_u64() {
                Some(k) => Ok(Id::Num(k)),
                None => Err(DecodeError::InvalidIdShape),
            },
            _ => Err(DecodeError::InvalidIdShape),
        }
    }

    /// The JSON value of the id.
    pub fn to_json(&self) -> (r: JsonValue)
        ensures
            r@ == id_json(self@),
    {
        match self {
            Id::Num(n) => JsonValue::Number(Number::PosInt(*n)),
            Id::Str(s) => JsonValue::String(s.clone()),
            Id::Null => JsonValue::Null,
        }
    }
}

impl From<u64> for Id {
    fn from(n: u64) -> (r: Id) {
        Id::Num(n)
    }
}

impl vstd::std_specs::convert::FromSpecImpl<u64> for Id {
    open spec fn obeys_from_spec() -> bool {
        true
    }

    open spec fn from_spec(n: u64) -> Id {
        Id::Num(n)
    }
}

impl From<String> for Id {
    fn from(s: String) -> (r: Id) {
        Id::Str(s)
    }
}

impl vstd::std_specs::convert::FromSpecImpl<String> for Id {
    open spec fn obeys_from_spec() -> bool {
        true
    }

    open spec fn from_spec(s: String) -> Id {
        Id::Str(s)
    }
}

} // verus!
