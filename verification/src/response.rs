//! Responses: successes and failures, alone or in a batch, in both dialects.
//!
//! What a JSON object is, is decided from the set of its fields. Every
//! response has an id, which may be null.
//!
//! | `jsonrpc` | `result`         | `error`      | the object is   |
//! |-----------|------------------|--------------|-----------------|
//! | `"2.0"`   | any value        | absent       | a 2.0 success   |
//! | `"2.0"`   | absent           | error object | a 2.0 failure   |
//! | absent    | any but null     | null         | a 1.0 success   |
//! | absent    | null             | error object | a 1.0 failure   |
//!
//! and every other combination belongs to neither dialect.

use vstd::prelude::*;
use crate::codec::{scan, scan_members, DecodeError, EncodeError, Field, Schema, SlotsModel};
use crate::error::{error_json, error_of, Error, ErrorCode, ErrorModel};
use crate::id::{id_json, Id, IdModel};
use crate::json::{
    items_model, lemma_array_model, lemma_object_model, members_model, JsonModel, JsonValue,
    Member,
};
use crate::request::option_id_of;
use crate::version::{dialect_of, version_json, version_of, Dialect, Version};

verus! {

/// A response to a call that succeeded.
#[derive(Debug, PartialEq, Eq)]
pub struct Success {
    /// The version tag: none in dialect 1.0.
    pub jsonrpc: Option<Version>,
    /// What the call returned. In dialect 1.0 it is not null.
    pub result: JsonValue,
    /// The id of the call that is answered.
    pub id: Id,
}

/// A response to a call that failed.
#[derive(Debug, PartialEq, Eq)]
pub struct Failure {
    /// The version tag: none in dialect 1.0.
    pub jsonrpc: Option<Version>,
    /// Why the call failed.
    pub error: Error,
    /// The id of the call that is answered, null where it is not known.
    pub id: Id,
}

/// A single response.
#[derive(Debug, PartialEq, Eq)]
pub enum Output {
    /// Success response output.
    Success(Success),
    /// Failure response output.
    Failure(Failure),
}

/// A response: one output, or a batch of outputs in their order.
#[derive(Debug, PartialEq, Eq)]
pub enum Response {
    /// Single response.
    Single(Output),
    /// Response to a batch request.
    Batch(Vec<Output>),
}

/// The mathematical value of a [`Success`].
pub ghost struct SuccessModel {
    pub jsonrpc: Option<Version>,
    pub result: JsonModel,
    pub id: IdModel,
}

/// The mathematical value of a [`Failure`].
pub ghost struct FailureModel {
    pub jsonrpc: Option<Version>,
    pub error: ErrorModel,
    pub id: IdModel,
}

/// The mathematical value of an [`Output`].
pub ghost enum OutputModel {
    Success(SuccessModel),
    Failure(FailureModel),
}

/// The mathematical value of a [`Response`].
pub ghost enum ResponseModel {
    Single(OutputModel),
    Batch(Seq<OutputModel>),
}

impl View for Success {
    type V = SuccessModel;

    open spec fn view(&self) -> SuccessModel {
        SuccessModel { jsonrpc: self.jsonrpc, result: self.result@, id: self.id@ }
    }
}

impl View for Failure {
    type V = FailureModel;

    open spec fn view(&self) -> FailureModel {
        FailureModel { jsonrpc: self.jsonrpc, error: self.error@, id: self.id@ }
    }
}

impl View for Output {
    type V = OutputModel;

    open spec fn view(&self) -> OutputModel {
        match *self {
            Output::Success(s) => OutputModel::Success(s@),
            Output::Failure(f) => OutputModel::Failure(f@),
        }
    }
}

/// The models of a run of outputs, one for one.
pub open spec fn outputs_model(outputs: Seq<Output>) -> Seq<OutputModel> {
    Seq::new(outputs.len(), |i: int| outputs[i]@)
}

impl View for Response {
    type V = ResponseModel;

    open spec fn view(&self) -> ResponseModel {
        match *self {
            Response::Single(o) => ResponseModel::Single(o@),
            Response::Batch(outputs) => ResponseModel::Batch(outputs_model(outputs@)),
        }
    }
}

impl SuccessModel {
    /// Whether the success obeys its dialect: in dialect 1.0 its result is
    /// not null, since there a null result marks a failure.
    pub open spec fn well_formed(self) -> bool {
        self.jsonrpc is None ==> !(self.result is Null)
    }
}

impl OutputModel {
    /// Whether the output obeys its dialect. Every failure does.
    pub open spec fn well_formed(self) -> bool {
        match self {
            OutputModel::Success(s) => s.well_formed(),
            OutputModel::Failure(_) => true,
        }
    }
}

/// Whether every one of some outputs is well formed.
pub open spec fn outputs_well_formed(outputs: Seq<OutputModel>) -> bool {
    forall|i: int| 0 <= i < outputs.len() ==> (#[trigger] outputs[i]).well_formed()
}

impl ResponseModel {
    /// Whether every output of the response is well formed.
    pub open spec fn well_formed(self) -> bool {
        match self {
            ResponseModel::Single(o) => o.well_formed(),
            ResponseModel::Batch(outputs) => outputs_well_formed(outputs),
        }
    }
}

/// What stands under a scanned `error` member: nothing where the member is
/// absent, `Some(None)` where it is the explicit null, and the error object
/// otherwise.
pub open spec fn option_error_of(slot: Option<JsonModel>) -> Result<
    Option<Option<ErrorModel>>,
    DecodeError,
> {
    match slot {
        None => Ok(None),
        Some(JsonModel::Null) => Ok(Some(None)),
        Some(v) => match error_of(v) {
            Ok(e) => Ok(Some(Some(e))),
            Err(e) => Err(e),
        },
    }
}

/// What the members of a response object hold, each read by its own shape.
pub ghost struct OutputParts {
    pub version: Option<Version>,
    pub result: Option<JsonModel>,
    pub error: Option<Option<ErrorModel>>,
    pub id: Option<IdModel>,
}

/// Reads the scanned members of a response by their shapes, in the order
/// `jsonrpc`, `error`, `id`; the first that has the wrong shape gives the
/// error. A result has every shape.
pub open spec fn output_parts(slots: SlotsModel) -> Result<OutputParts, DecodeError> {
    match version_of(slots.jsonrpc) {
        Err(e) => Err(e),
        Ok(version) => match option_error_of(slots.error) {
            Err(e) => Err(e),
            Ok(error) => match option_id_of(slots.id) {
                Err(e) => Err(e),
                Ok(id) => Ok(OutputParts { version, result: slots.result, error, id }),
            },
        },
    }
}

/// What a response holds before its id is looked at: a result or an error.
pub ghost enum Outcome {
    Result(JsonModel),
    Error(ErrorModel),
}

/// The dialect rules for `result` and `error`. In 2.0 exactly one of the
/// two members is present. In 1.0 both are present, and exactly one of them
/// is null.
pub open spec fn outcome_of(parts: OutputParts) -> Result<Outcome, DecodeError> {
    match parts.version {
        Some(_) => match (parts.result, parts.error) {
            (Some(result), None) => Ok(Outcome::Result(result)),
            (None, Some(Some(error))) => Ok(Outcome::Error(error)),
            _ => Err(DecodeError::IncompatibleDialect),
        },
        None => match (parts.result, parts.error) {
            (Some(JsonModel::Null), Some(Some(error))) => Ok(Outcome::Error(error)),
            (Some(JsonModel::Null), Some(None)) => Err(DecodeError::IncompatibleDialect),
            (Some(result), Some(None)) => Ok(Outcome::Result(result)),
            _ => Err(DecodeError::IncompatibleDialect),
        },
    }
}

/// The response that scanned members stand for: the dialect rules first,
/// then the id, which every response needs.
pub open spec fn output_of_parts(parts: OutputParts) -> Result<OutputModel, DecodeError> {
    match outcome_of(parts) {
        Err(e) => Err(e),
        Ok(outcome) => match parts.id {
            None => Err(DecodeError::MissingField(Field::Id)),
            Some(id) => match outcome {
                Outcome::Result(result) => Ok(
                    OutputModel::Success(SuccessModel { jsonrpc: parts.version, result, id }),
                ),
                Outcome::Error(error) => Ok(
                    OutputModel::Failure(FailureModel { jsonrpc: parts.version, error, id }),
                ),
            },
        },
    }
}

/// The response that scanned members stand for.
pub open spec fn output_of_slots(slots: SlotsModel) -> Result<OutputModel, DecodeError> {
    match output_parts(slots) {
        Err(e) => Err(e),
        Ok(parts) => output_of_parts(parts),
    }
}

/// The response that a JSON value stands for: the value must be an object,
/// its members are scanned once against the closed schema of a response,
/// each is read by its shape, and the dialect rules decide.
pub open spec fn output_of(v: JsonModel) -> Result<OutputModel, DecodeError> {
    match v {
        JsonModel::Object(members) => match scan(Schema::Output, members) {
            Err(e) => Err(e),
            Ok(slots) => output_of_slots(slots),
        },
        _ => Err(DecodeError::InvalidResponseShape),
    }
}

/// The success that a JSON value stands for. A failure is none.
pub open spec fn success_of(v: JsonModel) -> Result<SuccessModel, DecodeError> {
    match output_of(v) {
        Err(e) => Err(e),
        Ok(OutputModel::Success(s)) => Ok(s),
        Ok(OutputModel::Failure(_)) => Err(DecodeError::IncompatibleDialect),
    }
}

/// The failure that a JSON value stands for. A success is none.
pub open spec fn failure_of(v: JsonModel) -> Result<FailureModel, DecodeError> {
    match output_of(v) {
        Err(e) => Err(e),
        Ok(OutputModel::Failure(f)) => Ok(f),
        Ok(OutputModel::Success(_)) => Err(DecodeError::IncompatibleDialect),
    }
}

/// The outputs that a run of JSON values stands for, or the error of the
/// first value that is no output.
pub open spec fn outputs_of(items: Seq<JsonModel>) -> Result<Seq<OutputModel>, DecodeError>
    decreases items.len(),
{
    if items.len() == 0 {
        Ok(Seq::empty())
    } else {
        match outputs_of(items.drop_last()) {
            Err(e) => Err(e),
            Ok(outputs) => match output_of(items.last()) {
                Err(e) => Err(e),
                Ok(output) => Ok(outputs.push(output)),
            },
        }
    }
}

/// The response that a JSON value stands for: an object is a single output,
/// an array a batch, empty or not, and nothing else is a response.
pub open spec fn response_of(v: JsonModel) -> Result<ResponseModel, DecodeError> {
    match v {
        JsonModel::Object(_) => match output_of(v) {
            Err(e) => Err(e),
            Ok(output) => Ok(ResponseModel::Single(output)),
        },
        JsonModel::Array(items) => match outputs_of(items) {
            Err(e) => Err(e),
            Ok(outputs) => Ok(ResponseModel::Batch(outputs)),
        },
        _ => Err(DecodeError::InvalidResponseShape),
    }
}

/// The members of a success. Dialect 2.0 writes `jsonrpc`, `result`, `id`;
/// 1.0 writes `result`, `error` as null, `id`, and has no way to write a
/// result that is null itself.
pub open spec fn success_members(s: SuccessModel) -> Result<
    Seq<(Seq<char>, JsonModel)>,
    EncodeError,
> {
    let result = (Field::Result.name(), s.result);
    let id = (Field::Id.name(), id_json(s.id));
    match s.jsonrpc {
        Some(_) => Ok(
            Seq::empty().push((Field::Jsonrpc.name(), version_json())).push(result).push(id),
        ),
        None => if s.result is Null {
            Err(EncodeError::IncompatibleDialect)
        } else {
            Ok(Seq::empty().push(result).push((Field::Error.name(), JsonModel::Null)).push(id))
        },
    }
}

/// The members of a failure. Dialect 2.0 writes `jsonrpc`, `error`, `id`;
/// 1.0 writes `error`, `result` as null, `id`.
pub open spec fn failure_members(f: FailureModel) -> Seq<(Seq<char>, JsonModel)> {
    let error = (Field::Error.name(), error_json(f.error));
    let id = (Field::Id.name(), id_json(f.id));
    match f.jsonrpc {
        Some(_) => Seq::empty().push((Field::Jsonrpc.name(), version_json())).push(error).push(
            id,
        ),
        None => Seq::empty().push(error).push((Field::Result.name(), JsonModel::Null)).push(id),
    }
}

/// The JSON value of a success.
pub open spec fn success_json(s: SuccessModel) -> Result<JsonModel, EncodeError> {
    match success_members(s) {
        Ok(members) => Ok(JsonModel::Object(members)),
        Err(e) => Err(e),
    }
}

/// The JSON value of a failure. Every failure has one.
pub open spec fn failure_json(f: FailureModel) -> JsonModel {
    JsonModel::Object(failure_members(f))
}

/// The JSON value of an output.
pub open spec fn output_json(o: OutputModel) -> Result<JsonModel, EncodeError> {
    match o {
        OutputModel::Success(s) => success_json(s),
        OutputModel::Failure(f) => Ok(failure_json(f)),
    }
}

/// The JSON values of a run of outputs, or the error of the first that has
/// none.
pub open spec fn outputs_json(outputs: Seq<OutputModel>) -> Result<Seq<JsonModel>, EncodeError>
    decreases outputs.len(),
{
    if outputs.len() == 0 {
        Ok(Seq::empty())
    } else {
        match outputs_json(outputs.drop_last()) {
            Err(e) => Err(e),
            Ok(items) => match output_json(outputs.last()) {
                Err(e) => Err(e),
                Ok(item) => Ok(items.push(item)),
            },
        }
    }
}

/// The JSON value of a response: an object for a single output, an array of
/// objects in their order for a batch.
pub open spec fn response_json(r: ResponseModel) -> Result<JsonModel, EncodeError> {
    match r {
        ResponseModel::Single(o) => output_json(o),
        ResponseModel::Batch(outputs) => match outputs_json(outputs) {
            Err(e) => Err(e),
            Ok(items) => Ok(JsonModel::Array(items)),
        },
    }
}

/// The output made from what a call returned: a success from `Ok`, a failure
/// from `Err`.
pub open spec fn output_from(
    jsonrpc: Option<Version>,
    result: Result<JsonModel, ErrorModel>,
    id: IdModel,
) -> OutputModel {
    match result {
        Ok(result) => OutputModel::Success(SuccessModel { jsonrpc, result, id }),
        Err(error) => OutputModel::Failure(FailureModel { jsonrpc, error, id }),
    }
}

/// The outputs of one value more are the outputs of the values before it
/// and the output of that value.
pub proof fn lemma_outputs_of_step(items: Seq<JsonModel>, n: int)
    requires
        0 <= n < items.len(),
    ensures
        outputs_of(items.take(n + 1)) == match outputs_of(items.take(n)) {
            Err(e) => Err(e),
            Ok(outputs) => match output_of(items[n]) {
                Err(e) => Err(e),
                Ok(output) => Ok(outputs.push(output)),
            },
        },
{
    assert(items.take(n + 1).drop_last() =~= items.take(n));
}

/// An error met in a prefix of the values is the error of them all.
pub proof fn lemma_outputs_of_prefix_error(items: Seq<JsonModel>, n: int)
    requires
        0 <= n <= items.len(),
        outputs_of(items.take(n)) is Err,
    ensures
        outputs_of(items) == outputs_of(items.take(n)),
    decreases items.len() - n,
{
    if n == items.len() {
        assert(items.take(n) =~= items);
    } else {
        assert(items.drop_last().take(n) =~= items.take(n));
        lemma_outputs_of_prefix_error(items.drop_last(), n);
    }
}

/// The JSON values of one output more are those of the outputs before it
/// and that of the output.
pub proof fn lemma_outputs_json_step(outputs: Seq<OutputModel>, n: int)
    requires
        0 <= n < outputs.len(),
    ensures
        outputs_json(outputs.take(n + 1)) == match outputs_json(outputs.take(n)) {
            Err(e) => Err(e),
            Ok(items) => match output_json(outputs[n]) {
                Err(e) => Err(e),
                Ok(item) => Ok(items.push(item)),
            },
        },
{
    assert(outputs.take(n + 1).drop_last() =~= outputs.take(n));
}

/// An error met in a prefix of the outputs is the error of them all.
pub proof fn lemma_outputs_json_prefix_error(outputs: Seq<OutputModel>, n: int)
    requires
        0 <= n <= outputs.len(),
        outputs_json(outputs.take(n)) is Err,
    ensures
        outputs_json(outputs) == outputs_json(outputs.take(n)),
    decreases outputs.len() - n,
{
    if n == outputs.len() {
        assert(outputs.take(n) =~= outputs);
    } else {
        assert(outputs.drop_last().take(n) =~= outputs.take(n));
        lemma_outputs_json_prefix_error(outputs.drop_last(), n);
    }
}

impl Clone for Success {
    fn clone(&self) -> (r: Self)
        ensures
            r@ == self@,
    {
        Success { jsonrpc: self.jsonrpc, result: self.result.clone(), id: self.id.clone() }
    }
}

impl Clone for Failure {
    fn clone(&self) -> (r: Self)
        ensures
            r@ == self@,
    {
        Failure { jsonrpc: self.jsonrpc, error: self.error.clone(), id: self.id.clone() }
    }
}

impl Clone for Output {
    fn clone(&self) -> (r: Self)
        ensures
            r@ == self@,
    {
        match self {
            Output::Success(s) => Output::Success(s.clone()),
            Output::Failure(f) => Output::Failure(f.clone()),
        }
    }
}

impl Clone for Response {
    fn clone(&self) -> (r: Self)
        ensures
            r@ == self@,
    {
        match self {
            Response::Single(o) => Response::Single(o.clone()),
            Response::Batch(outputs) => {
                let mut out: Vec<Output> = Vec::new();
                let mut i: usize = 0;
                while i < outputs.len()
                    invariant
                        i <= outputs.len(),
                        out@.len() == i,
                        forall|k: int| 0 <= k < i ==> out@[k]@ == outputs@[k]@,
                    decreases outputs.len() - i,
                {
                    out.push(outputs[i].clone());
                    i = i + 1;
                }
                assert(outputs_model(out@) =~= outputs_model(outputs@));
                Response::Batch(out)
            },
        }
    }
}

/// The three members of a response, in their order.
fn three_members(first: Member, second: Member, third: Member) -> (r: Vec<Member>)
    ensures
        members_model(r@) == Seq::empty().push(first@).push(second@).push(third@),
{
    let mut r: Vec<Member> = Vec::new();
    let ghost a = first@;
    let ghost b = second@;
    let ghost c = third@;
    r.push(first);
    r.push(second);
    r.push(third);
    assert(members_model(r@) =~= Seq::empty().push(a).push(b).push(c));
    r
}

impl Success {
    /// A success of the given dialect.
    pub fn new(jsonrpc: Option<Version>, result: JsonValue, id: Id) -> (r: Success)
        ensures
            r@ == (SuccessModel { jsonrpc, result: result@, id: id@ }),
    {
        Success { jsonrpc, result, id }
    }

    /// A success of dialect 1.0.
    pub fn new_v1(result: JsonValue, id: Id) -> (r: Success)
        ensures
            r@ == (SuccessModel { jsonrpc: None, result: result@, id: id@ }),
    {
        Success::new(None, result, id)
    }

    /// A success of dialect 2.0.
    pub fn new_v2(result: JsonValue, id: Id) -> (r: Success)
        ensures
            r@ == (SuccessModel { jsonrpc: Some(Version::V2_0), result: result@, id: id@ }),
    {
        Success::new(Some(Version::V2_0), result, id)
    }

    /// Reads a success from a JSON value.
    pub fn from_json(v: &JsonValue) -> (r: Result<Success, DecodeError>)
        ensures
            match r {
                Ok(s) => success_of(v@) == Ok::<SuccessModel, DecodeError>(s@),
                Err(e) => success_of(v@) == Err::<SuccessModel, DecodeError>(e),
            },
    {
        match Output::from_json(v) {
            Err(e) => Err(e),
            Ok(Output::Success(s)) => Ok(s),
            Ok(Output::Failure(_)) => Err(DecodeError::IncompatibleDialect),
        }
    }

    /// The JSON value of the success, as its dialect writes it.
    pub fn to_json(&self) -> (r: Result<JsonValue, EncodeError>)
        ensures
            match r {
                Ok(j) => success_json(self@) == Ok::<JsonModel, EncodeError>(j@),
                Err(e) => success_json(self@) == Err::<JsonModel, EncodeError>(e),
            },
    {
        let result = Member { key: Field::Result.key(), value: self.result.clone() };
        let id = Member { key: Field::Id.key(), value: self.id.to_json() };
        let members = match &self.jsonrpc {
            Some(version) => three_members(
                Member { key: Field::Jsonrpc.key(), value: version.to_json() },
                result,
                id,
            ),
            None => {
                if self.result.is_null() {
                    return Err(EncodeError::IncompatibleDialect);
                }
                three_members(
                    result,
                    Member { key: Field::Error.key(), value: JsonValue::Null },
                    id,
                )
            },
        };
        proof {
            lemma_object_model(members);
        }
        Ok(JsonValue::Object(members))
    }
}

impl Failure {
    /// A failure of the given dialect.
    pub fn new(jsonrpc: Option<Version>, error: Error, id: Id) -> (r: Failure)
        ensures
            r@ == (FailureModel { jsonrpc, error: error@, id: id@ }),
    {
        Failure { jsonrpc, error, id }
    }

    /// A failure of dialect 1.0.
    pub fn new_v1(error: Error, id: Id) -> (r: Failure)
        ensures
            r@ == (FailureModel { jsonrpc: None, error: error@, id: id@ }),
    {
        Failure::new(None, error, id)
    }

    /// A failure of dialect 2.0.
    pub fn new_v2(error: Error, id: Id) -> (r: Failure)
        ensures
            r@ == (FailureModel { jsonrpc: Some(Version::V2_0), error: error@, id: id@ }),
    {
        Failure::new(Some(Version::V2_0), error, id)
    }

    /// Reads a failure from a JSON value.
    pub fn from_json(v: &JsonValue) -> (r: Result<Failure, DecodeError>)
        ensures
            match r {
                Ok(f) => failure_of(v@) == Ok::<FailureModel, DecodeError>(f@),
                Err(e) => failure_of(v@) == Err::<FailureModel, DecodeError>(e),
            },
    {
        match Output::from_json(v) {
            Err(e) => Err(e),
            Ok(Output::Failure(f)) => Ok(f),
            Ok(Output::Success(_)) => Err(DecodeError::IncompatibleDialect),
        }
    }

    /// The JSON value of the failure, as its dialect writes it.
    pub fn to_json(&self) -> (r: JsonValue)
        ensures
            r@ == failure_json(self@),
    {
        let error = Member { key: Field::Error.key(), value: self.error.to_json() };
        let id = Member { key: Field::Id.key(), value: self.id.to_json() };
        let members = match &self.jsonrpc {
            Some(version) => three_members(
                Member { key: Field::Jsonrpc.key(), value: version.to_json() },
                error,
                id,
            ),
            None => three_members(
                error,
                Member { key: Field::Result.key(), value: JsonValue::Null },
                id,
            ),
        };
        proof {
            lemma_object_model(members);
        }
        JsonValue::Object(members)
    }
}

/// The model of what a call returned.
pub open spec fn result_model(result: Result<JsonValue, Error>) -> Result<JsonModel, ErrorModel> {
    match result {
        Ok(v) => Ok(v@),
        Err(e) => Err(e@),
    }
}

impl Output {
    /// Whether the output obeys its dialect, so that it can be sent.
    pub fn is_well_formed(&self) -> (r: bool)
        ensures
            r == self@.well_formed(),
    {
        match self {
            Output::Success(s) => s.jsonrpc.is_some() || !s.result.is_null(),
            Output::Failure(_) => true,
        }
    }

    /// The output of the given dialect made from what a call returned.
    pub fn new(jsonrpc: Option<Version>, result: Result<JsonValue, Error>, id: Id) -> (r: Output)
        ensures
            r@ == output_from(jsonrpc, result_model(result), id@),
    {
        match result {
            Ok(result) => Output::Success(Success::new(jsonrpc, result, id)),
            Err(error) => Output::Failure(Failure::new(jsonrpc, error, id)),
        }
    }

    /// A success of the given dialect.
    pub fn success(jsonrpc: Option<Version>, result: JsonValue, id: Id) -> (r: Output)
        ensures
            r@ == OutputModel::Success(SuccessModel { jsonrpc, result: result@, id: id@ }),
    {
        Output::Success(Success::new(jsonrpc, result, id))
    }

    /// A failure of the given dialect.
    pub fn failure(jsonrpc: Option<Version>, error: Error, id: Id) -> (r: Output)
        ensures
            r@ == OutputModel::Failure(FailureModel { jsonrpc, error: error@, id: id@ }),
    {
        Output::Failure(Failure::new(jsonrpc, error, id))
    }

    /// The failure that answers a request which could not be read as a
    /// call.
    pub fn invalid_request(jsonrpc: Option<Version>, id: Id) -> (r: Output)
        ensures
            r@ == OutputModel::Failure(
                FailureModel {
                    jsonrpc,
                    error: ErrorModel {
                        code: -32600i64,
                        message: "Invalid request"@,
                        data: None,
                    },
                    id: id@,
                },
            ),
    {
        Output::Failure(Failure::new(jsonrpc, Error::new(ErrorCode::InvalidRequest), id))
    }

    /// The dialect of the output.
    pub fn dialect(&self) -> (r: Dialect)
        ensures
            r == dialect_of(
                match self@ {
                    OutputModel::Success(s) => s.jsonrpc,
                    OutputModel::Failure(f) => f.jsonrpc,
                },
            ),
    {
        Dialect::of(self.version())
    }

    /// The version tag of the output.
    pub fn version(&self) -> (r: Option<Version>)
        ensures
            r == match self@ {
                OutputModel::Success(s) => s.jsonrpc,
                OutputModel::Failure(f) => f.jsonrpc,
            },
    {
        match self {
            Output::Success(s) => s.jsonrpc,
            Output::Failure(f) => f.jsonrpc,
        }
    }

    /// The id of the call that is answered.
    pub fn id(&self) -> (r: Id)
        ensures
            r@ == match self@ {
                OutputModel::Success(s) => s.id,
                OutputModel::Failure(f) => f.id,
            },
    {
        match self {
            Output::Success(s) => s.id.clone(),
            Output::Failure(f) => f.id.clone(),
        }
    }

    /// What the call returned: `Ok` of a success, `Err` of a failure.
    pub fn into_result(self) -> (r: Result<JsonValue, Error>)
        ensures
            result_model(r) == match self@ {
                OutputModel::Success(s) => Ok::<JsonModel, ErrorModel>(s.result),
                OutputModel::Failure(f) => Err::<JsonModel, ErrorModel>(f.error),
            },
    {
        match self {
            Output::Success(s) => Ok(s.result),
            Output::Failure(f) => Err(f.error),
        }
    }

    /// Reads an output from a JSON value.
    pub fn from_json(v: &JsonValue) -> (r: Result<Output, DecodeError>)
        ensures
            match r {
                Ok(o) => output_of(v@) == Ok::<OutputModel, DecodeError>(o@),
                Err(e) => output_of(v@) == Err::<OutputModel, DecodeError>(e),
            },
    {
        let members = match v {
            JsonValue::Object(members) => members,
            _ => {
                return Err(DecodeError::InvalidResponseShape);
            },
        };
        proof {
            lemma_object_model(*members);
        }
        let slots = match scan_members(Schema::Output, members) {
            Ok(slots) => slots,
            Err(e) => {
                return Err(e);
            },
        };
        let version = match Version::from_slot(&slots.jsonrpc) {
            Ok(version) => version,
            Err(e) => {
                return Err(e);
            },
        };
        let error: Option<Option<Error>> = match &slots.error {
            None => None,
            Some(JsonValue::Null) => Some(None),
            Some(e) => match Error::from_json(e) {
                Ok(e) => Some(Some(e)),
                Err(e) => {
                    return Err(e);
                },
            },
        };
        let id = match &slots.id {
            None => None,
            Some(id) => match Id::from_json(id) {
                Ok(id) => Some(id),
                Err(e) => {
                    return Err(e);
                },
            },
        };
        let outcome: Result<JsonValue, Error> = if version.is_some() {
            match (slots.result, error) {
                (Some(result), None) => Ok(result),
                (None, Some(Some(error))) => Err(error),
                _ => {
                    return Err(DecodeError::IncompatibleDialect);
                },
            }
        } else {
            match (slots.result, error) {
                (Some(result), Some(error)) => {
                    let null = result.is_null();
                    match error {
                        Some(error) => if null {
                            Err(error)
                        } else {
                            return Err(DecodeError::IncompatibleDialect);
                        },
                        None => if null {
                            return Err(DecodeError::IncompatibleDialect);
                        } else {
                            Ok(result)
                        },
                    }
                },
                _ => {
                    return Err(DecodeError::IncompatibleDialect);
                },
            }
        };
        match id {
            None => Err(DecodeError::MissingField(Field::Id)),
            Some(id) => Ok(Output::new(version, outcome, id)),
        }
    }

    /// The JSON value of the output.
    pub fn to_json(&self) -> (r: Result<JsonValue, EncodeError>)
        ensures
            match r {
                Ok(j) => output_json(self@) == Ok::<JsonModel, EncodeError>(j@),
                Err(e) => output_json(self@) == Err::<JsonModel, EncodeError>(e),
            },
    {
        match self {
            Output::Success(s) => s.to_json(),
            Output::Failure(f) => Ok(f.to_json()),
        }
    }
}

impl Response {
    /// Whether every output of the response obeys its dialect, so that the
    /// response can be sent.
    pub fn is_well_formed(&self) -> (r: bool)
        ensures
            r == self@.well_formed(),
    {
        match self {
            Response::Single(output) => output.is_well_formed(),
            Response::Batch(outputs) => {
                let mut i: usize = 0;
                while i < outputs.len()
                    invariant
                        i <= outputs.len(),
                        self@ == ResponseModel::Batch(outputs_model(outputs@)),
                        forall|k: int| 0 <= k < i ==> (#[trigger] outputs@[k])@.well_formed(),
                    decreases outputs.len() - i,
                {
                    if !outputs[i].is_well_formed() {
                        proof {
                            let all = outputs_model(outputs@);
                            assert(all[i as int] == outputs@[i as int]@);
                            assert(0 <= i < all.len() && !all[i as int].well_formed());
                            assert(!outputs_well_formed(all));
                        }
                        return false;
                    }
                    i = i + 1;
                }
                assert forall|k: int| 0 <= k < outputs_model(outputs@).len() implies (
                #[trigger] outputs_model(outputs@)[k]).well_formed() by {
                    assert(outputs_model(outputs@)[k] == outputs@[k]@);
                }
                assert(outputs_well_formed(outputs_model(outputs@)));
                true
            },
        }
    }

    /// Reads a response from a JSON value. A batch is read whole or not at
    /// all: the first item that is no output fails it.
    pub fn from_json(v: &JsonValue) -> (r: Result<Response, DecodeError>)
        ensures
            match r {
                Ok(q) => response_of(v@) == Ok::<ResponseModel, DecodeError>(q@),
                Err(e) => response_of(v@) == Err::<ResponseModel, DecodeError>(e),
            },
    {
        match v {
            JsonValue::Object(_) => match Output::from_json(v) {
                Ok(output) => Ok(Response::Single(output)),
                Err(e) => Err(e),
            },
            JsonValue::Array(items) => {
                proof {
                    lemma_array_model(*items);
                }
                let ghost all = items_model(items@);
                let mut outputs: Vec<Output> = Vec::new();
                let mut i: usize = 0;
                assert(all.take(0) =~= Seq::empty());
                assert(outputs_model(outputs@) =~= Seq::empty());
                while i < items.len()
                    invariant
                        i <= items.len(),
                        all == items_model(items@),
                        v@ == JsonModel::Array(all),
                        outputs_of(all.take(i as int)) == Ok::<Seq<OutputModel>, DecodeError>(
                            outputs_model(outputs@),
                        ),
                    decreases items.len() - i,
                {
                    proof {
                        lemma_outputs_of_step(all, i as int);
                        assert(all[i as int] == items@[i as int]@);
                    }
                    match Output::from_json(&items[i]) {
                        Err(e) => {
                            proof {
                                lemma_outputs_of_prefix_error(all, i + 1);
                            }
                            return Err(e);
                        },
                        Ok(output) => {
                            let ghost before = outputs_model(outputs@);
                            outputs.push(output);
                            assert(outputs_model(outputs@) =~= before.push(output@));
                        },
                    }
                    i = i + 1;
                }
                assert(all.take(i as int) =~= all);
                Ok(Response::Batch(outputs))
            },
            _ => Err(DecodeError::InvalidResponseShape),
        }
    }

    /// The JSON value of the response.
    pub fn to_json(&self) -> (r: Result<JsonValue, EncodeError>)
        ensures
            match r {
                Ok(j) => response_json(self@) == Ok::<JsonModel, EncodeError>(j@),
                Err(e) => response_json(self@) == Err::<JsonModel, EncodeError>(e),
            },
    {
        match self {
            Response::Single(output) => output.to_json(),
            Response::Batch(outputs) => {
                let ghost all = outputs_model(outputs@);
                let mut items: Vec<JsonValue> = Vec::new();
                let mut i: usize = 0;
                assert(all.take(0) =~= Seq::empty());
                assert(items_model(items@) =~= Seq::empty());
                while i < outputs.len()
                    invariant
                        i <= outputs.len(),
                        all == outputs_model(outputs@),
                        self@ == ResponseModel::Batch(all),
                        outputs_json(all.take(i as int)) == Ok::<Seq<JsonModel>, EncodeError>(
                            items_model(items@),
                        ),
                    decreases outputs.len() - i,
                {
                    proof {
                        lemma_outputs_json_step(all, i as int);
                        assert(all[i as int] == outputs@[i as int]@);
                    }
                    match outputs[i].to_json() {
                        Err(e) => {
                            proof {
                                lemma_outputs_json_prefix_error(all, i + 1);
                            }
                            return Err(e);
                        },
                        Ok(item) => {
                            let ghost before = items_model(items@);
                            items.push(item);
                            assert(items_model(items@) =~= before.push(item@));
                        },
                    }
                    i = i + 1;
                }
                assert(all.take(i as int) =~= all);
                proof {
                    lemma_array_model(items);
                }
                Ok(JsonValue::Array(items))
            },
        }
    }
}

impl From<Success> for Response {
    fn from(success: Success) -> (r: Response) {
        Response::Single(Output::Success(success))
    }
}

impl vstd::std_specs::convert::FromSpecImpl<Success> for Response {
    open spec fn obeys_from_spec() -> bool {
        true
    }

    open spec fn from_spec(success: Success) -> Response {
        Response::Single(Output::Success(success))
    }
}

impl From<Failure> for Response {
    fn from(failure: Failure) -> (r: Response) {
        Response::Single(Output::Failure(failure))
    }
}

impl vstd::std_specs::convert::FromSpecImpl<Failure> for Response {
    open spec fn obeys_from_spec() -> bool {
        true
    }

    open spec fn from_spec(failure: Failure) -> Response {
        Response::Single(Output::Failure(failure))
    }
}

impl From<Output> for Result<JsonValue, Error> {
    fn from(output: Output) -> (r: Result<JsonValue, Error>) {
        match output {
            Output::Success(s) => Ok(s.result),
            Output::Failure(f) => Err(f.error),
        }
    }
}

impl vstd::std_specs::convert::FromSpecImpl<Output> for Result<JsonValue, Error> {
    open spec fn obeys_from_spec() -> bool {
        true
    }

    open spec fn from_spec(output: Output) -> Result<JsonValue, Error> {
        match output {
            Output::Success(s) => Ok(s.result),
            Output::Failure(f) => Err(f.error),
        }
    }
}

} // verus!
