//! The protocol version tag.

use vstd::prelude::*;
use vstd::string::StringExecFns;
use crate::codec::DecodeError;
use crate::json::{JsonModel, JsonValue};

verus! {

/// The version that a `jsonrpc` member names. A value of dialect 1.0 has no
/// such member, so it holds no `Version` at all.
#[allow(non_camel_case_types)]
#[derive(Clone, Copy, Debug, PartialEq, Eq, Hash, Structural)]
pub enum Version {
    /// JSON-RPC 2.0, written `"2.0"`.
    V2_0,
}

/// One of the two rule sets of the wire format.
#[derive(Clone, Copy, Debug, PartialEq, Eq, Hash, Structural)]
pub enum Dialect {
    /// JSON-RPC 1.0: no `jsonrpc` member.
    V1,
    /// JSON-RPC 2.0: the member `"jsonrpc":"2.0"`.
    V2,
}

/// The dialect of a value with the given version tag.
pub open spec fn dialect_of(tag: Option<Version>) -> Dialect {
    match tag {
        None => Dialect::V1,
        Some(_) => Dialect::V2,
    }
}

impl Dialect {
    /// The dialect of a value with the given version tag.
    pub fn of(tag: Option<Version>) -> (r: Dialect)
        ensures
            r == dialect_of(tag),
    {
        match tag {
            None => Dialect::V1,
            Some(_) => Dialect::V2,
        }
    }

    /// The version tag that values of the dialect carry.
    pub fn tag(self) -> (r: Option<Version>)
        ensures
            dialect_of(r) == self,
            r == match self {
                Dialect::V1 => None,
                Dialect::V2 => Some(Version::V2_0),
            },
    {
        match self {
            Dialect::V1 => None,
            Dialect::V2 => Some(Version::V2_0),
        }
    }
}

/// The only text that a `jsonrpc` member may hold.
pub open spec fn version_text() -> Seq<char> {
    "2.0"@
}

/// The version tag that the `jsonrpc` place of a scanned object stands for:
/// none where the member is absent, 2.0 where it is the string `"2.0"`.
/// Anything else belongs to neither dialect.
pub open spec fn version_of(slot: Option<JsonModel>) -> Result<Option<Version>, DecodeError> {
    match slot {
        None => Ok(None),
        Some(JsonModel::String(s)) => if s == version_text() {
            Ok(Some(Version::V2_0))
        } else {
            Err(DecodeError::IncompatibleDialect)
        },
        Some(_) => Err(DecodeError::IncompatibleDialect),
    }
}

/// The value of the `jsonrpc` member of a 2.0 object.
pub open spec fn version_json() -> JsonModel {
    JsonModel::String(version_text())
}

/// There is one version.
pub proof fn lemma_one_version(v: Version)
    ensures
        v == Version::V2_0,
{
    match v {
        Version::V2_0 => {},
    }
}

impl Version {
    /// The text of the version.
    pub fn as_str(&self) -> (r: &'static str)
        ensures
            r@ == version_text(),
    {
        "2.0"
    }

    /// The value of the `jsonrpc` member that names this version.
    pub fn to_json(&self) -> (r: JsonValue)
        ensures
            r@ == version_json(),
    {
        JsonValue::String(String::from_str(self.as_str()))
    }

    /// Reads the `jsonrpc` place of a scanned object.
    pub fn from_slot(slot: &Option<JsonValue>) -> (r: Result<Option<Version>, DecodeError>)
        ensures
            r == version_of(crate::codec::option_model(*slot)),
    {
        match slot {
            None => Ok(None),
            Some(JsonValue::String(s)) => {
                let expected = String::from_str("2.0");
                if s.eq(&expected) {
                    Ok(Some(Version::V2_0))
                } else {
                    Err(DecodeError::IncompatibleDialect)
                }
            },
            Some(_) => Err(DecodeError::IncompatibleDialect),
        }
    }
}

} // verus!
