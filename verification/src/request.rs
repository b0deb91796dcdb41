//! Calls: method calls and notifications, alone or in a batch, in both
//! dialects.
//!
//! What a JSON object is, is decided from the set of its fields. Every call
//! has a method, a string that is not empty.
//!
//! | `jsonrpc` | `params`              | `id`            | the object is       |
//! |-----------|-----------------------|-----------------|---------------------|
//! | `"2.0"`   | absent, array, object | absent          | a 2.0 notification  |
//! | `"2.0"`   | absent, array, object | number, string  | a 2.0 method call   |
//! | absent    | array                 | null            | a 1.0 notification  |
//! | absent    | array                 | number, string  | a 1.0 method call   |
//!
//! and every other combination belongs to neither dialect.

use vstd::prelude::*;
use vstd::string::StringExecFns;
use crate::codec::{scan, scan_members, DecodeError, EncodeError, Field, Schema, SlotsModel};
use crate::id::{id_json, id_of, Id, IdModel};
use crate::json::{
    items_model, lemma_array_model, lemma_object_model, members_model, JsonModel, JsonValue,
    Member,
};
use crate::params::{params_json, params_of, Params, ParamsModel};
use crate::version::{dialect_of, version_json, version_of, Dialect, Version};

verus! {

/// A call that asks for a response.
#[derive(Debug, PartialEq, Eq)]
pub struct MethodCall {
    /// The version tag: none in dialect 1.0.
    pub jsonrpc: Option<Version>,
    /// The name of the method to be invoked.
    pub method: String,
    /// The parameters. Dialect 1.0 requires them, as an array.
    pub params: Option<Params>,
    /// The identifier of the call. It is never null.
    pub id: Id,
}

/// A call that asks for no response.
#[derive(Debug, PartialEq, Eq)]
pub struct Notification {
    /// The version tag: none in dialect 1.0.
    pub jsonrpc: Option<Version>,
    /// The name of the method to be invoked.
    pub method: String,
    /// The parameters. Dialect 1.0 requires them, as an array.
    pub params: Option<Params>,
}

/// A single call.
#[derive(Debug, PartialEq, Eq)]
pub enum Call {
    /// Call method.
    MethodCall(MethodCall),
    /// Fire notification.
    Notification(Notification),
    /// What is left of an object that is no call: the id that a response to
    /// it has to carry. It is never sent.
    Invalid {
        /// The id of the call, null where it could not be read.
        id: Id,
    },
}

/// A request: one call, or a batch of calls in their order.
#[derive(Debug, PartialEq, Eq)]
pub enum Request {
    /// Single call.
    Single(Call),
    /// Batch of calls.
    Batch(Vec<Call>),
}

/// The mathematical value of a [`MethodCall`].
pub ghost struct MethodCallModel {
    pub jsonrpc: Option<Version>,
    pub method: Seq<char>,
    pub params: Option<ParamsModel>,
    pub id: IdModel,
}

/// The mathematical value of a [`Notification`].
pub ghost struct NotificationModel {
    pub jsonrpc: Option<Version>,
    pub method: Seq<char>,
    pub params: Option<ParamsModel>,
}

/// The mathematical value of a [`Call`].
pub ghost enum CallModel {
    MethodCall(MethodCallModel),
    Notification(NotificationModel),
    Invalid { id: IdModel },
}

/// The mathematical value of a [`Request`].
pub ghost enum RequestModel {
    Single(CallModel),
    Batch(Seq<CallModel>),
}

/// The model of parameters that may be absent.
pub open spec fn option_params_model(p: Option<Params>) -> Option<ParamsModel> {
    match p {
        Some(p) => Some(p@),
        None => None,
    }
}

impl View for MethodCall {
    type V = MethodCallModel;

    open spec fn view(&self) -> MethodCallModel {
        MethodCallModel {
            jsonrpc: self.jsonrpc,
            method: self.method@,
            params: option_params_model(self.params),
            id: self.id@,
        }
    }
}

impl View for Notification {
    type V = NotificationModel;

    open spec fn view(&self) -> NotificationModel {
        NotificationModel {
            jsonrpc: self.jsonrpc,
            method: self.method@,
            params: option_params_model(self.params),
        }
    }
}

impl View for Call {
    type V = CallModel;

    open spec fn view(&self) -> CallModel {
        match *self {
            Call::MethodCall(m) => CallModel::MethodCall(m@),
            Call::Notification(n) => CallModel::Notification(n@),
            Call::Invalid { id } => CallModel::Invalid { id: id@ },
        }
    }
}

/// The models of a run of calls, one for one.
pub open spec fn calls_model(calls: Seq<Call>) -> Seq<CallModel> {
    Seq::new(calls.len(), |i: int| calls[i]@)
}

impl View for Request {
    type V = RequestModel;

    open spec fn view(&self) -> RequestModel {
        match *self {
            Request::Single(c) => RequestModel::Single(c@),
            Request::Batch(calls) => RequestModel::Batch(calls_model(calls@)),
        }
    }
}

impl MethodCallModel {
    /// Whether the method call obeys its dialect: its method has a name,
    /// its id is not null, and in dialect 1.0 it has parameters, in an array.
    pub open spec fn well_formed(self) -> bool {
        &&& self.method.len() > 0
        &&& !(self.id is Null)
        &&& self.jsonrpc is None ==> self.params is Some && self.params->Some_0 is Array
    }
}

impl NotificationModel {
    /// Whether the notification obeys its dialect: its method has a name,
    /// and in dialect 1.0 it has parameters, in an array.
    pub open spec fn well_formed(self) -> bool {
        &&& self.method.len() > 0
        &&& self.jsonrpc is None ==> self.params is Some && self.params->Some_0 is Array
    }
}

impl CallModel {
    /// Whether the call is a method call or a notification that obeys its
    /// dialect. The record of an invalid call is not well formed.
    pub open spec fn well_formed(self) -> bool {
        match self {
            CallModel::MethodCall(m) => m.well_formed(),
            CallModel::Notification(n) => n.well_formed(),
            CallModel::Invalid { .. } => false,
        }
    }
}

/// Whether every one of some calls is well formed.
pub open spec fn calls_well_formed(calls: Seq<CallModel>) -> bool {
    forall|i: int| 0 <= i < calls.len() ==> (#[trigger] calls[i]).well_formed()
}

impl RequestModel {
    /// Whether every call of the request is well formed.
    pub open spec fn well_formed(self) -> bool {
        match self {
            RequestModel::Single(c) => c.well_formed(),
            RequestModel::Batch(calls) => calls_well_formed(calls),
        }
    }
}

/// What the members of a call object hold, each read by its own shape.
pub ghost struct CallParts {
    pub version: Option<Version>,
    pub method: Option<Seq<char>>,
    pub params: Option<ParamsModel>,
    pub id: Option<IdModel>,
}

/// The method name under a scanned `method` member: a string that is not
/// empty.
pub open spec fn method_of(slot: Option<JsonModel>) -> Result<Option<Seq<char>>, DecodeError> {
    match slot {
        None => Ok(None),
        Some(JsonModel::String(s)) => if s.len() > 0 {
            Ok(Some(s))
        } else {
            Err(DecodeError::InvalidMethodShape)
        },
        Some(_) => Err(DecodeError::InvalidMethodShape),
    }
}

/// The parameters under a scanned `params` member.
pub open spec fn option_params_of(slot: Option<JsonModel>) -> Result<
    Option<ParamsModel>,
    DecodeError,
> {
    match slot {
        None => Ok(None),
        Some(v) => match params_of(v) {
            Ok(p) => Ok(Some(p)),
            Err(e) => Err(e),
        },
    }
}

/// The id under a scanned `id` member.
pub open spec fn option_id_of(slot: Option<JsonModel>) -> Result<Option<IdModel>, DecodeError> {
    match slot {
        None => Ok(None),
        Some(v) => match id_of(v) {
            Ok(id) => Ok(Some(id)),
            Err(e) => Err(e),
        },
    }
}

/// Reads the scanned members of a call by their shapes, in the order
/// `jsonrpc`, `method`, `params`, `id`; the first that has the wrong shape
/// gives the error.
pub open spec fn call_parts(slots: SlotsModel) -> Result<CallParts, DecodeError> {
    match version_of(slots.jsonrpc) {
        Err(e) => Err(e),
        Ok(version) => match method_of(slots.method) {
            Err(e) => Err(e),
            Ok(method) => match option_params_of(slots.params) {
                Err(e) => Err(e),
                Ok(params) => match option_id_of(slots.id) {
                    Err(e) => Err(e),
                    Ok(id) => Ok(CallParts { version, method, params, id }),
                },
            },
        },
    }
}

/// The dialect rules. A call needs a method. In 2.0 it is a notification
/// without an `id` member and a method call with an id that is not null. In
/// 1.0 the parameters must be an array, and it is a notification with the id
/// null and a method call with any other id.
pub open spec fn call_of_parts(parts: CallParts) -> Result<CallModel, DecodeError> {
    match parts.method {
        None => Err(DecodeError::MissingField(Field::Method)),
        Some(method) => match parts.version {
            Some(version) => match parts.id {
                None => Ok(
                    CallModel::Notification(
                        NotificationModel {
                            jsonrpc: Some(version),
                            method,
                            params: parts.params,
                        },
                    ),
                ),
                Some(IdModel::Null) => Err(DecodeError::IncompatibleDialect),
                Some(id) => Ok(
                    CallModel::MethodCall(
                        MethodCallModel {
                            jsonrpc: Some(version),
                            method,
                            params: parts.params,
                            id,
                        },
                    ),
                ),
            },
            None => match parts.params {
                Some(ParamsModel::Array(_)) => match parts.id {
                    None => Err(DecodeError::IncompatibleDialect),
                    Some(IdModel::Null) => Ok(
                        CallModel::Notification(
                            NotificationModel { jsonrpc: None, method, params: parts.params },
                        ),
                    ),
                    Some(id) => Ok(
                        CallModel::MethodCall(
                            MethodCallModel { jsonrpc: None, method, params: parts.params, id },
                        ),
                    ),
                },
                _ => Err(DecodeError::IncompatibleDialect),
            },
        },
    }
}

/// The call that scanned members stand for.
pub open spec fn call_of_slots(slots: SlotsModel) -> Result<CallModel, DecodeError> {
    match call_parts(slots) {
        Err(e) => Err(e),
        Ok(parts) => call_of_parts(parts),
    }
}

/// The call that a JSON value stands for: the value must be an object, its
/// members are scanned once against the closed schema of a call, each is
/// read by its shape, and the dialect rules decide.
pub open spec fn call_of(v: JsonModel) -> Result<CallModel, DecodeError> {
    match v {
        JsonModel::Object(members) => match scan(Schema::Call, members) {
            Err(e) => Err(e),
            Ok(slots) => call_of_slots(slots),
        },
        _ => Err(DecodeError::InvalidRequestShape),
    }
}

/// The method call that a JSON value stands for. A notification is none:
/// in 2.0 it lacks the id, in 1.0 its id is null.
pub open spec fn method_call_of(v: JsonModel) -> Result<MethodCallModel, DecodeError> {
    match call_of(v) {
        Err(e) => Err(e),
        Ok(CallModel::MethodCall(m)) => Ok(m),
        Ok(CallModel::Notification(n)) => if n.jsonrpc is Some {
            Err(DecodeError::MissingField(Field::Id))
        } else {
            Err(DecodeError::IncompatibleDialect)
        },
        Ok(CallModel::Invalid { .. }) => Err(DecodeError::IncompatibleDialect),
    }
}

/// The notification that a JSON value stands for. A method call is none.
pub open spec fn notification_of(v: JsonModel) -> Result<NotificationModel, DecodeError> {
    match call_of(v) {
        Err(e) => Err(e),
        Ok(CallModel::Notification(n)) => Ok(n),
        Ok(_) => Err(DecodeError::IncompatibleDialect),
    }
}

/// The calls that a run of JSON values stands for, or the error of the first
/// value that is no call.
pub open spec fn calls_of(items: Seq<JsonModel>) -> Result<Seq<CallModel>, DecodeError>
    decreases items.len(),
{
    if items.len() == 0 {
        Ok(Seq::empty())
    } else {
        match calls_of(items.drop_last()) {
            Err(e) => Err(e),
            Ok(calls) => match call_of(items.last()) {
                Err(e) => Err(e),
                Ok(call) => Ok(calls.push(call)),
            },
        }
    }
}

/// The request that a JSON value stands for: an object is a single call, an
/// array a batch, empty or not, and nothing else is a request.
pub open spec fn request_of(v: JsonModel) -> Result<RequestModel, DecodeError> {
    match v {
        JsonModel::Object(_) => match call_of(v) {
            Err(e) => Err(e),
            Ok(call) => Ok(RequestModel::Single(call)),
        },
        JsonModel::Array(items) => match calls_of(items) {
            Err(e) => Err(e),
            Ok(calls) => Ok(RequestModel::Batch(calls)),
        },
        _ => Err(DecodeError::InvalidRequestShape),
    }
}

/// The value under the first member of the given key, if there is one.
pub open spec fn first_value(members: Seq<(Seq<char>, JsonModel)>, key: Seq<char>) -> Option<
    JsonModel,
>
    decreases members.len(),
{
    if members.len() == 0 {
        None
    } else if members[0].0 == key {
        Some(members[0].1)
    } else {
        first_value(members.drop_first(), key)
    }
}

/// The id that can be saved from a value that is no call: that of the first
/// `id` member of an object, if it has the shape of an id, and null in
/// every other case.
pub open spec fn salvaged_id(v: JsonModel) -> IdModel {
    match v {
        JsonModel::Object(members) => match first_value(members, Field::Id.name()) {
            Some(id) => match id_of(id) {
                Ok(id) => id,
                Err(_) => IdModel::Null,
            },
            None => IdModel::Null,
        },
        _ => IdModel::Null,
    }
}

/// The call that a JSON value stands for, or, where it stands for none, the
/// record of its id.
pub open spec fn salvaged_call(v: JsonModel) -> CallModel {
    match call_of(v) {
        Ok(call) => call,
        Err(_) => CallModel::Invalid { id: salvaged_id(v) },
    }
}

/// The request that a JSON value stands for, with a record in place of each
/// object or batch item that is no call. Only a value that is neither an
/// object nor an array is still an error.
pub open spec fn salvaged_request(v: JsonModel) -> Result<RequestModel, DecodeError> {
    match v {
        JsonModel::Object(_) => Ok(RequestModel::Single(salvaged_call(v))),
        JsonModel::Array(items) => Ok(
            RequestModel::Batch(Seq::new(items.len(), |i: int| salvaged_call(items[i]))),
        ),
        _ => Err(DecodeError::InvalidRequestShape),
    }
}

/// `members` with the `params` member behind them, where there are
/// parameters.
pub open spec fn with_params(members: Seq<(Seq<char>, JsonModel)>, params: Option<ParamsModel>)
    -> Seq<(Seq<char>, JsonModel)> {
    match params {
        Some(p) => members.push((Field::Params.name(), params_json(p))),
        None => members,
    }
}

/// The members of a method call, in the order `jsonrpc`, `method`, `params`,
/// `id`. Dialect 1.0 writes no `jsonrpc` and needs parameters in an array;
/// 2.0 leaves absent parameters out. No method call has an empty method or
/// the id null.
pub open spec fn method_call_members(m: MethodCallModel) -> Result<
    Seq<(Seq<char>, JsonModel)>,
    EncodeError,
> {
    if m.method.len() == 0 {
        Err(EncodeError::EmptyMethod)
    } else {
        method_call_members_named(m)
    }
}

/// The members of a method call whose method has a name.
pub open spec fn method_call_members_named(m: MethodCallModel) -> Result<
    Seq<(Seq<char>, JsonModel)>,
    EncodeError,
> {
    let method = (Field::Method.name(), JsonModel::String(m.method));
    let id = (Field::Id.name(), id_json(m.id));
    match m.jsonrpc {
        Some(_) => if m.id is Null {
            Err(EncodeError::IncompatibleDialect)
        } else {
            Ok(
                with_params(
                    Seq::empty().push((Field::Jsonrpc.name(), version_json())).push(method),
                    m.params,
                ).push(id),
            )
        },
        None => match m.params {
            None => Err(EncodeError::MissingField(Field::Params)),
            Some(ParamsModel::Object(_)) => Err(EncodeError::IncompatibleDialect),
            Some(ParamsModel::Array(_)) => if m.id is Null {
                Err(EncodeError::IncompatibleDialect)
            } else {
                Ok(with_params(Seq::empty().push(method), m.params).push(id))
            },
        },
    }
}

/// The members of a notification, in the order `jsonrpc`, `method`,
/// `params`, `id`. Dialect 2.0 writes no `id`; 1.0 writes it as null, and
/// needs parameters in an array. No notification has an empty method.
pub open spec fn notification_members(n: NotificationModel) -> Result<
    Seq<(Seq<char>, JsonModel)>,
    EncodeError,
> {
    if n.method.len() == 0 {
        Err(EncodeError::EmptyMethod)
    } else {
        notification_members_named(n)
    }
}

/// The members of a notification whose method has a name.
pub open spec fn notification_members_named(n: NotificationModel) -> Result<
    Seq<(Seq<char>, JsonModel)>,
    EncodeError,
> {
    let method = (Field::Method.name(), JsonModel::String(n.method));
    match n.jsonrpc {
        Some(_) => Ok(
            with_params(
                Seq::empty().push((Field::Jsonrpc.name(), version_json())).push(method),
                n.params,
            ),
        ),
        None => match n.params {
            Some(ParamsModel::Array(_)) => Ok(
                with_params(Seq::empty().push(method), n.params).push(
                    (Field::Id.name(), JsonModel::Null),
                ),
            ),
            _ => Err(EncodeError::IncompatibleDialect),
        },
    }
}

/// The JSON value of a method call.
pub open spec fn method_call_json(m: MethodCallModel) -> Result<JsonModel, EncodeError> {
    match method_call_members(m) {
        Ok(members) => Ok(JsonModel::Object(members)),
        Err(e) => Err(e),
    }
}

/// The JSON value of a notification.
pub open spec fn notification_json(n: NotificationModel) -> Result<JsonModel, EncodeError> {
    match notification_members(n) {
        Ok(members) => Ok(JsonModel::Object(members)),
        Err(e) => Err(e),
    }
}

/// The JSON value of a call. The record of an invalid call has none.
pub open spec fn call_json(c: CallModel) -> Result<JsonModel, EncodeError> {
    match c {
        CallModel::MethodCall(m) => method_call_json(m),
        CallModel::Notification(n) => notification_json(n),
        CallModel::Invalid { .. } => Err(EncodeError::InvalidCall),
    }
}

/// The JSON values of a run of calls, or the error of the first that has
/// none.
pub open spec fn calls_json(calls: Seq<CallModel>) -> Result<Seq<JsonModel>, EncodeError>
    decreases calls.len(),
{
    if calls.len() == 0 {
        Ok(Seq::empty())
    } else {
        match calls_json(calls.drop_last()) {
            Err(e) => Err(e),
            Ok(items) => match call_json(calls.last()) {
                Err(e) => Err(e),
                Ok(item) => Ok(items.push(item)),
            },
        }
    }
}

/// The JSON value of a request: an object for a single call, an array of
/// objects in their order for a batch.
pub open spec fn request_json(r: RequestModel) -> Result<JsonModel, EncodeError> {
    match r {
        RequestModel::Single(c) => call_json(c),
        RequestModel::Batch(calls) => match calls_json(calls) {
            Err(e) => Err(e),
            Ok(items) => Ok(JsonModel::Array(items)),
        },
    }
}

/// The calls of one value more are the calls of the values before it and
/// the call of that value.
pub proof fn lemma_calls_of_step(items: Seq<JsonModel>, n: int)
    requires
        0 <= n < items.len(),
    ensures
        calls_of(items.take(n + 1)) == match calls_of(items.take(n)) {
            Err(e) => Err(e),
            Ok(calls) => match call_of(items[n]) {
                Err(e) => Err(e),
                Ok(call) => Ok(calls.push(call)),
            },
        },
{
    assert(items.take(n + 1).drop_last() =~= items.take(n));
}

/// An error met in a prefix of the values is the error of them all.
pub proof fn lemma_calls_of_prefix_error(items: Seq<JsonModel>, n: int)
    requires
        0 <= n <= items.len(),
        calls_of(items.take(n)) is Err,
    ensures
        calls_of(items) == calls_of(items.take(n)),
    decreases items.len() - n,
{
    if n == items.len() {
        assert(items.take(n) =~= items);
    } else {
        assert(items.drop_last().take(n) =~= items.take(n));
        lemma_calls_of_prefix_error(items.drop_last(), n);
    }
}

/// The JSON values of one call more are those of the calls before it and
/// that of the call.
pub proof fn lemma_calls_json_step(calls: Seq<CallModel>, n: int)
    requires
        0 <= n < calls.len(),
    ensures
        calls_json(calls.take(n + 1)) == match calls_json(calls.take(n)) {
            Err(e) => Err(e),
            Ok(items) => match call_json(calls[n]) {
                Err(e) => Err(e),
                Ok(item) => Ok(items.push(item)),
            },
        },
{
    assert(calls.take(n + 1).drop_last() =~= calls.take(n));
}

/// An error met in a prefix of the calls is the error of them all.
pub proof fn lemma_calls_json_prefix_error(calls: Seq<CallModel>, n: int)
    requires
        0 <= n <= calls.len(),
        calls_json(calls.take(n)) is Err,
    ensures
        calls_json(calls) == calls_json(calls.take(n)),
    decreases calls.len() - n,
{
    if n == calls.len() {
        assert(calls.take(n) =~= calls);
    } else {
        assert(calls.drop_last().take(n) =~= calls.take(n));
        lemma_calls_json_prefix_error(calls.drop_last(), n);
    }
}

/// A copy of parameters that may be absent.
pub fn clone_params(p: &Option<Params>) -> (r: Option<Params>)
    ensures
        option_params_model(r) == option_params_model(*p),
{
    match p {
        Some(p) => Some(p.clone()),
        None => None,
    }
}

impl Clone for MethodCall {
    fn clone(&self) -> (r: Self)
        ensures
            r@ == self@,
    {
        MethodCall {
            jsonrpc: self.jsonrpc,
            method: self.method.clone(),
            params: clone_params(&self.params),
            id: self.id.clone(),
        }
    }
}

impl Clone for Notification {
    fn clone(&self) -> (r: Self)
        ensures
            r@ == self@,
    {
        Notification {
            jsonrpc: self.jsonrpc,
            method: self.method.clone(),
            params: clone_params(&self.params),
        }
    }
}

impl Clone for Call {
    fn clone(&self) -> (r: Self)
        ensures
            r@ == self@,
    {
        match self {
            Call::MethodCall(m) => Call::MethodCall(m.clone()),
            Call::Notification(n) => Call::Notification(n.clone()),
            Call::Invalid { id } => Call::Invalid { id: id.clone() },
        }
    }
}

impl Clone for Request {
    fn clone(&self) -> (r: Self)
        ensures
            r@ == self@,
    {
        match self {
            Request::Single(c) => Request::Single(c.clone()),
            Request::Batch(calls) => {
                let mut out: Vec<Call> = Vec::new();
                let mut i: usize = 0;
                while i < calls.len()
                    invariant
                        i <= calls.len(),
                        out@.len() == i,
                        forall|k: int| 0 <= k < i ==> out@[k]@ == calls@[k]@,
                    decreases calls.len() - i,
                {
                    out.push(calls[i].clone());
                    i = i + 1;
                }
                assert(calls_model(out@) =~= calls_model(calls@));
                Request::Batch(out)
            },
        }
    }
}

/// The members of a call up to its parameters: `jsonrpc` in 2.0, `method`,
/// and `params` where there are any.
fn call_head(jsonrpc: &Option<Version>, method: &String, params: &Option<Params>) -> (r: Vec<
    Member,
>)
    ensures
        members_model(r@) == with_params(
            if jsonrpc is Some {
                Seq::empty().push((Field::Jsonrpc.name(), version_json())).push(
                    (Field::Method.name(), JsonModel::String(method@)),
                )
            } else {
                Seq::empty().push((Field::Method.name(), JsonModel::String(method@)))
            },
            option_params_model(*params),
        ),
{
    let mut members: Vec<Member> = Vec::new();
    match jsonrpc {
        Some(version) => {
            members.push(Member { key: Field::Jsonrpc.key(), value: version.to_json() });
        },
        None => {},
    }
    members.push(Member { key: Field::Method.key(), value: JsonValue::String(method.clone()) });
    match params {
        Some(p) => {
            members.push(Member { key: Field::Params.key(), value: p.to_json() });
        },
        None => {},
    }
    assert(members_model(members@) =~= with_params(
        if jsonrpc is Some {
            Seq::empty().push((Field::Jsonrpc.name(), version_json())).push(
                (Field::Method.name(), JsonModel::String(method@)),
            )
        } else {
            Seq::empty().push((Field::Method.name(), JsonModel::String(method@)))
        },
        option_params_model(*params),
    ));
    members
}

/// `members` with one more behind them.
fn with_member(members: Vec<Member>, key: String, value: JsonValue) -> (r: Vec<Member>)
    ensures
        members_model(r@) == members_model(members@).push((key@, value@)),
{
    let mut r = members;
    r.push(Member { key, value });
    assert(members_model(r@) =~= members_model(members@).push((key@, value@)));
    r
}

impl MethodCall {
    /// A method call of dialect 1.0, whose parameters are an array.
    pub fn new_v1(method: &str, params: Params, id: Id) -> (r: MethodCall)
        requires
            params@ is Array,
        ensures
            r@ == (MethodCallModel {
                jsonrpc: None,
                method: method@,
                params: Some(params@),
                id: id@,
            }),
    {
        MethodCall { jsonrpc: None, method: String::from_str(method), params: Some(params), id }
    }

    /// A method call of dialect 2.0.
    pub fn new_v2(method: &str, params: Option<Params>, id: Id) -> (r: MethodCall)
        ensures
            r@ == (MethodCallModel {
                jsonrpc: Some(Version::V2_0),
                method: method@,
                params: option_params_model(params),
                id: id@,
            }),
    {
        MethodCall {
            jsonrpc: Some(Version::V2_0),
            method: String::from_str(method),
            params,
            id,
        }
    }

    /// The dialect of the method call.
    pub fn dialect(&self) -> (r: Dialect)
        ensures
            r == dialect_of(self@.jsonrpc),
    {
        Dialect::of(self.jsonrpc)
    }

    /// Reads a method call from a JSON value.
    pub fn from_json(v: &JsonValue) -> (r: Result<MethodCall, DecodeError>)
        ensures
            match r {
                Ok(m) => method_call_of(v@) == Ok::<MethodCallModel, DecodeError>(m@),
                Err(e) => method_call_of(v@) == Err::<MethodCallModel, DecodeError>(e),
            },
    {
        match Call::from_json(v) {
            Err(e) => Err(e),
            Ok(Call::MethodCall(m)) => Ok(m),
            Ok(Call::Notification(n)) => if n.jsonrpc.is_some() {
                Err(DecodeError::MissingField(Field::Id))
            } else {
                Err(DecodeError::IncompatibleDialect)
            },
            Ok(Call::Invalid { .. }) => Err(DecodeError::IncompatibleDialect),
        }
    }

    /// The JSON value of the method call, as its dialect writes it.
    pub fn to_json(&self) -> (r: Result<JsonValue, EncodeError>)
        ensures
            match r {
                Ok(j) => method_call_json(self@) == Ok::<JsonModel, EncodeError>(j@),
                Err(e) => method_call_json(self@) == Err::<JsonModel, EncodeError>(e),
            },
    {
        if self.method.as_str().is_empty() {
            return Err(EncodeError::EmptyMethod);
        }
        if self.jsonrpc.is_none() {
            match &self.params {
                None => {
                    return Err(EncodeError::MissingField(Field::Params));
                },
                Some(Params::Object(_)) => {
                    return Err(EncodeError::IncompatibleDialect);
                },
                Some(Params::Array(_)) => {},
            }
        }
        if self.id.is_null() {
            return Err(EncodeError::IncompatibleDialect);
        }
        let head = call_head(&self.jsonrpc, &self.method, &self.params);
        let members = with_member(head, Field::Id.key(), self.id.to_json());
        proof {
            lemma_object_model(members);
        }
        Ok(JsonValue::Object(members))
    }
}

impl Notification {
    /// A notification of dialect 1.0, whose parameters are an array.
    pub fn new_v1(method: &str, params: Params) -> (r: Notification)
        requires
            params@ is Array,
        ensures
            r@ == (NotificationModel { jsonrpc: None, method: method@, params: Some(params@) }),
    {
        Notification { jsonrpc: None, method: String::from_str(method), params: Some(params) }
    }

    /// A notification of dialect 2.0.
    pub fn new_v2(method: &str, params: Option<Params>) -> (r: Notification)
        ensures
            r@ == (NotificationModel {
                jsonrpc: Some(Version::V2_0),
                method: method@,
                params: option_params_model(params),
            }),
    {
        Notification { jsonrpc: Some(Version::V2_0), method: String::from_str(method), params }
    }

    /// The dialect of the notification.
    pub fn dialect(&self) -> (r: Dialect)
        ensures
            r == dialect_of(self@.jsonrpc),
    {
        Dialect::of(self.jsonrpc)
    }

    /// Reads a notification from a JSON value.
    pub fn from_json(v: &JsonValue) -> (r: Result<Notification, DecodeError>)
        ensures
            match r {
                Ok(n) => notification_of(v@) == Ok::<NotificationModel, DecodeError>(n@),
                Err(e) => notification_of(v@) == Err::<NotificationModel, DecodeError>(e),
            },
    {
        match Call::from_json(v) {
            Err(e) => Err(e),
            Ok(Call::Notification(n)) => Ok(n),
            Ok(_) => Err(DecodeError::IncompatibleDialect),
        }
    }

    /// The JSON value of the notification, as its dialect writes it.
    pub fn to_json(&self) -> (r: Result<JsonValue, EncodeError>)
        ensures
            match r {
                Ok(j) => notification_json(self@) == Ok::<JsonModel, EncodeError>(j@),
                Err(e) => notification_json(self@) == Err::<JsonModel, EncodeError>(e),
            },
    {
        if self.method.as_str().is_empty() {
            return Err(EncodeError::EmptyMethod);
        }
        if self.jsonrpc.is_none() {
            match &self.params {
                Some(Params::Array(_)) => {},
                _ => {
                    return Err(EncodeError::IncompatibleDialect);
                },
            }
        }
        let head = call_head(&self.jsonrpc, &self.method, &self.params);
        let members = if self.jsonrpc.is_none() {
            with_member(head, Field::Id.key(), JsonValue::Null)
        } else {
            head
        };
        proof {
            lemma_object_model(members);
        }
        Ok(JsonValue::Object(members))
    }
}

impl Call {
    /// Whether the call obeys its dialect, so that it can be sent.
    pub fn is_well_formed(&self) -> (r: bool)
        ensures
            r == self@.well_formed(),
    {
        match self {
            Call::MethodCall(m) => !m.method.as_str().is_empty() && !m.id.is_null() && (
            m.jsonrpc.is_some() || match &m.params {
                Some(p) => p.is_array(),
                None => false,
            }),
            Call::Notification(n) => !n.method.as_str().is_empty() && (n.jsonrpc.is_some()
                || match &n.params {
                Some(p) => p.is_array(),
                None => false,
            }),
            Call::Invalid { .. } => false,
        }
    }

    /// The method of the call. The record of an invalid call has none.
    pub fn method(&self) -> (r: Option<&str>)
        ensures
            match self@ {
                CallModel::MethodCall(m) => r matches Some(s) && s@ == m.method,
                CallModel::Notification(n) => r matches Some(s) && s@ == n.method,
                CallModel::Invalid { .. } => r is None,
            },
    {
        match self {
            Call::MethodCall(m) => Some(m.method.as_str()),
            Call::Notification(n) => Some(n.method.as_str()),
            Call::Invalid { .. } => None,
        }
    }

    /// The parameters of the call, if it has any.
    pub fn params(&self) -> (r: Option<&Params>)
        ensures
            match self@ {
                CallModel::MethodCall(m) => match r {
                    Some(p) => m.params == Some(p@),
                    None => m.params is None,
                },
                CallModel::Notification(n) => match r {
                    Some(p) => n.params == Some(p@),
                    None => n.params is None,
                },
                CallModel::Invalid { .. } => r is None,
            },
    {
        match self {
            Call::MethodCall(m) => m.params.as_ref(),
            Call::Notification(n) => n.params.as_ref(),
            Call::Invalid { .. } => None,
        }
    }

    /// The id of the call: that of a method call, that of the record of an
    /// invalid call, and none for a notification.
    pub fn id(&self) -> (r: Option<Id>)
        ensures
            match self@ {
                CallModel::MethodCall(m) => r matches Some(id) && id@ == m.id,
                CallModel::Notification(_) => r is None,
                CallModel::Invalid { id } => r matches Some(i) && i@ == id,
            },
    {
        match self {
            Call::MethodCall(m) => Some(m.id.clone()),
            Call::Notification(_) => None,
            Call::Invalid { id } => Some(id.clone()),
        }
    }

    /// Reads a call from a JSON value: a method call or a notification,
    /// never the record of an invalid call.
    pub fn from_json(v: &JsonValue) -> (r: Result<Call, DecodeError>)
        ensures
            match r {
                Ok(c) => call_of(v@) == Ok::<CallModel, DecodeError>(c@) && !(c@ is Invalid),
                Err(e) => call_of(v@) == Err::<CallModel, DecodeError>(e),
            },
    {
        let members = match v {
            JsonValue::Object(members) => members,
            _ => {
                return Err(DecodeError::InvalidRequestShape);
            },
        };
        proof {
            lemma_object_model(*members);
        }
        let slots = match scan_members(Schema::Call, members) {
            Ok(slots) => slots,
            Err(e) => {
                return Err(e);
            },
        };
        let version = match Version::from_slot(&slots.jsonrpc) {
            Ok(version) => version,
            Err(e) => {
                return Err(e);
            },
        };
        let method = match &slots.method {
            None => None,
            Some(JsonValue::String(s)) => {
                if s.as_str().is_empty() {
                    return Err(DecodeError::InvalidMethodShape);
                }
                Some(s.clone())
            },
            Some(_) => {
                return Err(DecodeError::InvalidMethodShape);
            },
        };
        let params = match &slots.params {
            None => None,
            Some(p) => match Params::from_json(p) {
                Ok(p) => Some(p),
                Err(e) => {
                    return Err(e);
                },
            },
        };
        let id = match &slots.id {
            None => None,
            Some(id) => match Id::from_json(id) {
                Ok(id) => Some(id),
                Err(e) => {
                    return Err(e);
                },
            },
        };
        let method = match method {
            Some(method) => method,
            None => {
                return Err(DecodeError::MissingField(Field::Method));
            },
        };
        if version.is_none() {
            match &params {
                Some(Params::Array(_)) => {},
                _ => {
                    return Err(DecodeError::IncompatibleDialect);
                },
            }
        }
        match id {
            None => if version.is_some() {
                Ok(Call::Notification(Notification { jsonrpc: version, method, params }))
            } else {
                Err(DecodeError::IncompatibleDialect)
            },
            Some(Id::Null) => if version.is_some() {
                Err(DecodeError::IncompatibleDialect)
            } else {
                Ok(Call::Notification(Notification { jsonrpc: version, method, params }))
            },
            Some(id) => Ok(Call::MethodCall(MethodCall { jsonrpc: version, method, params, id })),
        }
    }

    /// The JSON value of the call. The record of an invalid call is never
    /// written.
    pub fn to_json(&self) -> (r: Result<JsonValue, EncodeError>)
        ensures
            match r {
                Ok(j) => call_json(self@) == Ok::<JsonModel, EncodeError>(j@),
                Err(e) => call_json(self@) == Err::<JsonModel, EncodeError>(e),
            },
    {
        match self {
            Call::MethodCall(m) => m.to_json(),
            Call::Notification(n) => n.to_json(),
            Call::Invalid { .. } => Err(EncodeError::InvalidCall),
        }
    }

    /// Reads a call from a JSON value and, where the value is no call, keeps
    /// the id that a response to it has to carry.
    pub fn salvage(v: &JsonValue) -> (r: Call)
        ensures
            r@ == salvaged_call(v@),
    {
        match Call::from_json(v) {
            Ok(call) => call,
            Err(_) => Call::Invalid { id: salvage_id(v) },
        }
    }
}

/// The id that can be saved from a value that is no call.
pub fn salvage_id(v: &JsonValue) -> (r: Id)
    ensures
        r@ == salvaged_id(v@),
{
    match v {
        JsonValue::Object(members) => {
            proof {
                lemma_object_model(*members);
            }
            let ghost all = members_model(members@);
            let key = Field::Id.key();
            let mut i: usize = 0;
            assert(all.skip(0) =~= all);
            while i < members.len()
                invariant
                    i <= members.len(),
                    all == members_model(members@),
                    key@ == Field::Id.name(),
                    v@ == JsonModel::Object(all),
                    first_value(all, key@) == first_value(all.skip(i as int), key@),
                decreases members.len() - i,
            {
                assert(all.skip(i as int)[0] == all[i as int]);
                assert(all[i as int] == members@[i as int]@);
                assert(all.skip(i as int).drop_first() =~= all.skip(i + 1));
                if members[i].key.eq(&key) {
                    return match Id::from_json(&members[i].value) {
                        Ok(id) => id,
                        Err(_) => Id::Null,
                    };
                }
                i = i + 1;
            }
            Id::Null
        },
        _ => Id::Null,
    }
}

impl Request {
    /// Whether every call of the request obeys its dialect, so that the
    /// request can be sent.
    pub fn is_well_formed(&self) -> (r: bool)
        ensures
            r == self@.well_formed(),
    {
        match self {
            Request::Single(call) => call.is_well_formed(),
            Request::Batch(calls) => {
                let mut i: usize = 0;
                while i < calls.len()
                    invariant
                        i <= calls.len(),
                        self@ == RequestModel::Batch(calls_model(calls@)),
                        forall|k: int| 0 <= k < i ==> (#[trigger] calls@[k])@.well_formed(),
                    decreases calls.len() - i,
                {
                    if !calls[i].is_well_formed() {
                        proof {
                            let all = calls_model(calls@);
                            assert(all[i as int] == calls@[i as int]@);
                            assert(0 <= i < all.len() && !all[i as int].well_formed());
                            assert(!calls_well_formed(all));
                        }
                        return false;
                    }
                    i = i + 1;
                }
                assert forall|k: int| 0 <= k < calls_model(calls@).len() implies (
                #[trigger] calls_model(calls@)[k]).well_formed() by {
                    assert(calls_model(calls@)[k] == calls@[k]@);
                }
                assert(calls_well_formed(calls_model(calls@)));
                true
            },
        }
    }

    /// Reads a request from a JSON value. A batch is read whole or not at
    /// all: the first item that is no call fails it.
    pub fn from_json(v: &JsonValue) -> (r: Result<Request, DecodeError>)
        ensures
            match r {
                Ok(q) => request_of(v@) == Ok::<RequestModel, DecodeError>(q@),
                Err(e) => request_of(v@) == Err::<RequestModel, DecodeError>(e),
            },
    {
        match v {
            JsonValue::Object(_) => match Call::from_json(v) {
                Ok(call) => Ok(Request::Single(call)),
                Err(e) => Err(e),
            },
            JsonValue::Array(items) => {
                proof {
                    lemma_array_model(*items);
                }
                let ghost all = items_model(items@);
                let mut calls: Vec<Call> = Vec::new();
                let mut i: usize = 0;
                assert(all.take(0) =~= Seq::empty());
                assert(calls_model(calls@) =~= Seq::empty());
                while i < items.len()
                    invariant
                        i <= items.len(),
                        all == items_model(items@),
                        v@ == JsonModel::Array(all),
                        calls_of(all.take(i as int)) == Ok::<Seq<CallModel>, DecodeError>(
                            calls_model(calls@),
                        ),
                    decreases items.len() - i,
                {
                    proof {
                        lemma_calls_of_step(all, i as int);
                        assert(all[i as int] == items@[i as int]@);
                    }
                    match Call::from_json(&items[i]) {
                        Err(e) => {
                            proof {
                                lemma_calls_of_prefix_error(all, i + 1);
                            }
                            return Err(e);
                        },
                        Ok(call) => {
                            let ghost before = calls_model(calls@);
                            calls.push(call);
                            assert(calls_model(calls@) =~= before.push(call@));
                        },
                    }
                    i = i + 1;
                }
                assert(all.take(i as int) =~= all);
                Ok(Request::Batch(calls))
            },
            _ => Err(DecodeError::InvalidRequestShape),
        }
    }

    /// The JSON value of the request.
    pub fn to_json(&self) -> (r: Result<JsonValue, EncodeError>)
        ensures
            match r {
                Ok(j) => request_json(self@) == Ok::<JsonModel, EncodeError>(j@),
                Err(e) => request_json(self@) == Err::<JsonModel, EncodeError>(e),
            },
    {
        match self {
            Request::Single(call) => call.to_json(),
            Request::Batch(calls) => {
                let ghost all = calls_model(calls@);
                let mut items: Vec<JsonValue> = Vec::new();
                let mut i: usize = 0;
                assert(all.take(0) =~= Seq::empty());
                assert(items_model(items@) =~= Seq::empty());
                while i < calls.len()
                    invariant
                        i <= calls.len(),
                        all == calls_model(calls@),
                        self@ == RequestModel::Batch(all),
                        calls_json(all.take(i as int)) == Ok::<Seq<JsonModel>, EncodeError>(
                            items_model(items@),
                        ),
                    decreases calls.len() - i,
                {
                    proof {
                        lemma_calls_json_step(all, i as int);
                        assert(all[i as int] == calls@[i as int]@);
                    }
                    match calls[i].to_json() {
                        Err(e) => {
                            proof {
                                lemma_calls_json_prefix_error(all, i + 1);
                            }
                            return Err(e);
                        },
                        Ok(item) => {
                            let ghost before = items_model(items@);
                            items.push(item);
                            assert(items_model(items@) =~= before.push(item@));
                        },
                    }
                    i = i + 1;
                }
                assert(all.take(i as int) =~= all);
                proof {
                    lemma_array_model(items);
                }
                Ok(JsonValue::Array(items))
            },
        }
    }

    /// Reads a request from a JSON value and puts a record in the place of
    /// each object or batch item that is no call, so that every call can be
    /// answered.
    pub fn salvage(v: &JsonValue) -> (r: Result<Request, DecodeError>)
        ensures
            match r {
                Ok(q) => salvaged_request(v@) == Ok::<RequestModel, DecodeError>(q@),
                Err(e) => salvaged_request(v@) == Err::<RequestModel, DecodeError>(e),
            },
    {
        match v {
            JsonValue::Object(_) => Ok(Request::Single(Call::salvage(v))),
            JsonValue::Array(items) => {
                proof {
                    lemma_array_model(*items);
                }
                let mut calls: Vec<Call> = Vec::new();
                let mut i: usize = 0;
                while i < items.len()
                    invariant
                        i <= items.len(),
                        calls@.len() == i,
                        forall|k: int| 0 <= k < i ==> calls@[k]@ == salvaged_call(items@[k]@),
                    decreases items.len() - i,
                {
                    calls.push(Call::salvage(&items[i]));
                    i = i + 1;
                }
                assert(calls_model(calls@) =~= Seq::new(
                    items_model(items@).len(),
                    |i: int| salvaged_call(items_model(items@)[i]),
                ));
                Ok(Request::Batch(calls))
            },
            _ => Err(DecodeError::InvalidRequestShape),
        }
    }
}

impl From<MethodCall> for Call {
    fn from(call: MethodCall) -> (r: Call) {
        Call::MethodCall(call)
    }
}

impl vstd::std_specs::convert::FromSpecImpl<MethodCall> for Call {
    open spec fn obeys_from_spec() -> bool {
        true
    }

    open spec fn from_spec(call: MethodCall) -> Call {
        Call::MethodCall(call)
    }
}

impl From<Notification> for Call {
    fn from(notification: Notification) -> (r: Call) {
        Call::Notification(notification)
    }
}

impl vstd::std_specs::convert::FromSpecImpl<Notification> for Call {
    open spec fn obeys_from_spec() -> bool {
        true
    }

    open spec fn from_spec(notification: Notification) -> Call {
        Call::Notification(notification)
    }
}

} // verus!
