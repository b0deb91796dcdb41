//! The parameters of a call.

use vstd::prelude::*;
use vstd::string::StringExecFns;
use crate::codec::DecodeError;
use crate::error::{Error, ErrorModel};
use crate::json::{
    clone_items, clone_members, items_model, lemma_array_model, lemma_object_model,
    members_model, JsonModel, JsonValue, Member,
};

verus! {

/// The parameters of a call: by position, in an array, or by name, in an
/// object. A call that has none holds no `Params` at all.
///
/// Dialect 1.0 knows parameters by position only.
#[derive(Debug, PartialEq, Eq)]
pub enum Params {
    /// Array of values.
    Array(Vec<JsonValue>),
    /// Values by name, as the members of an object.
    Object(Vec<Member>),
}

/// The mathematical value of [`Params`].
pub ghost enum ParamsModel {
    Array(Seq<JsonModel>),
    Object(Seq<(Seq<char>, JsonModel)>),
}

impl View for Params {
    type V = ParamsModel;

    open spec fn view(&self) -> ParamsModel {
        match *self {
            Params::Array(items) => ParamsModel::Array(items_model(items@)),
            Params::Object(members) => ParamsModel::Object(members_model(members@)),
        }
    }
}

/// The parameters that a JSON value stands for, by its shape: an array gives
/// parameters by position, an object parameters by name, and nothing else is
/// parameters.
pub open spec fn params_of(v: JsonModel) -> Result<ParamsModel, DecodeError> {
    match v {
        JsonModel::Array(items) => Ok(ParamsModel::Array(items)),
        JsonModel::Object(members) => Ok(ParamsModel::Object(members)),
        _ => Err(DecodeError::InvalidParamsShape),
    }
}

/// The JSON value of parameters.
pub open spec fn params_json(p: ParamsModel) -> JsonModel {
    match p {
        ParamsModel::Array(items) => JsonModel::Array(items),
        ParamsModel::Object(members) => JsonModel::Object(members),
    }
}

/// Parameters read back from their own JSON value are the same parameters.
pub proof fn lemma_params_round_trip(p: ParamsModel)
    ensures
        params_of(params_json(p)) == Ok::<ParamsModel, DecodeError>(p),
{
}

/// The message of the error that unexpected parameters give.
pub open spec fn no_params_message() -> Seq<char> {
    "No parameters were expected"@
}

impl Clone for Params {
    fn clone(&self) -> (r: Self)
        ensures
            r@ == self@,
    {
        match self {
            Params::Array(items) => Params::Array(clone_items(items)),
            Params::Object(members) => Params::Object(clone_members(members)),
        }
    }
}

impl Default for Params {
    fn default() -> (r: Self)
        ensures
            r@ == ParamsModel::Array(Seq::empty()),
    {
        let items: Vec<JsonValue> = Vec::new();
        assert(items_model(items@) =~= Seq::empty());
        Params::Array(items)
    }
}

impl Params {
    /// Whether the parameters are given by position.
    pub fn is_array(&self) -> (r: bool)
        ensures
            r == (self@ is Array),
    {
        match self {
            Params::Array(_) => true,
            Params::Object(_) => false,
        }
    }

    /// Whether the parameters are given by name.
    pub fn is_map(&self) -> (r: bool)
        ensures
            r == (self@ is Object),
    {
        match self {
            Params::Array(_) => false,
            Params::Object(_) => true,
        }
    }

    /// Reads parameters from a JSON value.
    pub fn from_json(v: &JsonValue) -> (r: Result<Params, DecodeError>)
        ensures
            match r {
                Ok(p) => params_of(v@) == Ok::<ParamsModel, DecodeError>(p@),
                Err(e) => params_of(v@) == Err::<ParamsModel, DecodeError>(e),
            },
    {
        match v {
            JsonValue::Array(items) => {
                proof {
                    lemma_array_model(*items);
                }
                Ok(Params::Array(clone_items(items)))
            },
            JsonValue::Object(members) => {
                proof {
                    lemma_object_model(*members);
                }
                Ok(Params::Object(clone_members(members)))
            },
            _ => Err(DecodeError::InvalidParamsShape),
        }
    }

    /// The JSON value of the parameters.
    pub fn to_json(&self) -> (r: JsonValue)
        ensures
            r@ == params_json(self@),
    {
        match self {
            Params::Array(items) => {
                let copy = clone_items(items);
                proof {
                    lemma_array_model(copy);
                }
                JsonValue::Array(copy)
            },
            Params::Object(members) => {
                let copy = clone_members(members);
                proof {
                    lemma_object_model(copy);
                }
                JsonValue::Object(copy)
            },
        }
    }

    /// The parameters as a JSON value.
    pub fn into_json(self) -> (r: JsonValue)
        ensures
            r@ == params_json(self@),
    {
        match self {
            Params::Array(items) => {
                proof {
                    lemma_array_model(items);
                }
                JsonValue::Array(items)
            },
            Params::Object(members) => {
                proof {
                    lemma_object_model(members);
                }
                JsonValue::Object(members)
            },
        }
    }

    /// Succeeds if there are no parameters in the sense of dialect 1.0,
    /// where a call always has parameters and "none" is the empty array.
    /// Otherwise the error says so and holds the parameters.
    pub fn expect_no_params_v1(self) -> (r: Result<(), Error>)
        ensures
            match r {
                Ok(_) => self@ == ParamsModel::Array(Seq::empty()),
                Err(e) => self@ != ParamsModel::Array(Seq::empty()) && e@ == (ErrorModel {
                    code: -32602i64,
                    message: no_params_message(),
                    data: Some(params_json(self@)),
                }),
            },
    {
        let none = match &self {
            Params::Array(items) => items.len() == 0,
            Params::Object(_) => false,
        };
        if none {
            assert(self@->Array_0 =~= Seq::empty());
            Ok(())
        } else {
            assert(self@ is Array ==> self@->Array_0.len() > 0);
            Err(
                Error::invalid_params_with_details(
                    String::from_str("No parameters were expected"),
                    self.into_json(),
                ),
            )
        }
    }

    /// Succeeds if there are no parameters: if they are absent, or an empty
    /// array. Otherwise the error says so and holds the parameters.
    pub fn expect_no_params(params: Option<Params>) -> (r: Result<(), Error>)
        ensures
            match r {
                Ok(_) => params matches Some(p) ==> p@ == ParamsModel::Array(Seq::empty()),
                Err(e) => params matches Some(p) && p@ != ParamsModel::Array(Seq::empty()) && e@
                    == (ErrorModel {
                    code: -32602i64,
                    message: no_params_message(),
                    data: Some(params_json(p@)),
                }),
            },
    {
        match params {
            None => Ok(()),
            Some(p) => p.expect_no_params_v1(),
        }
    }
}

impl From<Params> for JsonValue {
    fn from(params: Params) -> (r: JsonValue) {
        match params {
            Params::Array(items) => JsonValue::Array(items),
            Params::Object(members) => JsonValue::Object(members),
        }
    }
}

impl vstd::std_specs::convert::FromSpecImpl<Params> for JsonValue {
    open spec fn obeys_from_spec() -> bool {
        true
    }

    open spec fn from_spec(params: Params) -> JsonValue {
        match params {
            Params::Array(items) => JsonValue::Array(items),
            Params::Object(members) => JsonValue::Object(members),
        }
    }
}

} // verus!
