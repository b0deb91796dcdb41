//! What holds of the codec as a whole, proved from the definitions of the
//! other modules.

use vstd::prelude::*;
use crate::codec::{
    lemma_field_of_name, lemma_scan_absent, lemma_scan_duplicate, lemma_scan_empty,
    lemma_scan_present, lemma_scan_push, lemma_scan_unknown, scan, DecodeError, EncodeError,
    Field, Schema, SlotsModel,
};
use crate::error::{error_json, error_of, lemma_error_round_trip};
use crate::id::{id_json, lemma_id_round_trip, IdModel};
use crate::json::JsonModel;
use crate::params::{lemma_params_round_trip, params_json, ParamsModel};
use crate::request::{
    call_json, call_of, calls_json, calls_of, calls_well_formed, method_call_json,
    method_call_of, notification_json, notification_of, request_json, request_of, with_params,
    CallModel, MethodCallModel, NotificationModel, RequestModel,
};
use crate::response::{
    failure_json, failure_of, output_json, output_of, outputs_json, outputs_of,
    outputs_well_formed, response_json, response_of, success_json, success_of, FailureModel,
    OutputModel, ResponseModel, SuccessModel,
};
use crate::text::document;
use crate::version::{lemma_one_version, version_json};
use crate::wire::decoded;

verus! {

/// The scan of the members that a call is written with: the head (`jsonrpc`
/// and `method`, or `method` alone), then the parameters where there are
/// any.
proof fn lemma_scan_call_head(tagged: bool, method: Seq<char>, params: Option<ParamsModel>)
    ensures
        scan(
            Schema::Call,
            with_params(
                if tagged {
                    Seq::empty().push((Field::Jsonrpc.name(), version_json())).push(
                        (Field::Method.name(), JsonModel::String(method)),
                    )
                } else {
                    Seq::empty().push((Field::Method.name(), JsonModel::String(method)))
                },
                params,
            ),
        ) == Ok::<SlotsModel, DecodeError>(
            SlotsModel {
                jsonrpc: if tagged {
                    Some(version_json())
                } else {
                    None
                },
                method: Some(JsonModel::String(method)),
                params: match params {
                    Some(p) => Some(params_json(p)),
                    None => None,
                },
                ..SlotsModel::empty()
            },
        ),
{
    let schema = Schema::Call;
    let none = Seq::<(Seq<char>, JsonModel)>::empty();
    let tag = (Field::Jsonrpc.name(), version_json());
    let name = (Field::Method.name(), JsonModel::String(method));
    lemma_field_of_name(schema, Field::Jsonrpc);
    lemma_field_of_name(schema, Field::Method);
    lemma_field_of_name(schema, Field::Params);
    lemma_scan_empty(schema);
    let head = if tagged {
        lemma_scan_push(schema, none, tag.0, tag.1);
        lemma_scan_push(schema, none.push(tag), name.0, name.1);
        none.push(tag).push(name)
    } else {
        lemma_scan_push(schema, none, name.0, name.1);
        none.push(name)
    };
    match params {
        Some(p) => {
            lemma_scan_push(schema, head, Field::Params.name(), params_json(p));
        },
        None => {},
    }
}

/// Round trip of a method call: the JSON value of a method call, read as a
/// call, is that method call again. This holds of every method call that
/// has a JSON value, in both dialects.
pub proof fn lemma_method_call_round_trip(m: MethodCallModel)
    requires
        method_call_json(m) is Ok,
    ensures
        call_of(method_call_json(m)->Ok_0) == Ok::<CallModel, DecodeError>(
            CallModel::MethodCall(m),
        ),
        method_call_of(method_call_json(m)->Ok_0) == Ok::<MethodCallModel, DecodeError>(m),
{
    let schema = Schema::Call;
    lemma_field_of_name(schema, Field::Id);
    lemma_id_round_trip(m.id);
    if m.params is Some {
        lemma_params_round_trip(m.params->Some_0);
    }
    lemma_scan_call_head(m.jsonrpc is Some, m.method, m.params);
    let head = with_params(
        if m.jsonrpc is Some {
            Seq::empty().push((Field::Jsonrpc.name(), version_json())).push(
                (Field::Method.name(), JsonModel::String(m.method)),
            )
        } else {
            Seq::empty().push((Field::Method.name(), JsonModel::String(m.method)))
        },
        m.params,
    );
    lemma_scan_push(schema, head, Field::Id.name(), id_json(m.id));
    if m.jsonrpc is Some {
        lemma_one_version(m.jsonrpc->Some_0);
    }
}

/// Round trip of a notification: the JSON value of a notification, read as
/// a call, is that notification again. This holds of every notification
/// that has a JSON value, in both dialects.
pub proof fn lemma_notification_round_trip(n: NotificationModel)
    requires
        notification_json(n) is Ok,
    ensures
        call_of(notification_json(n)->Ok_0) == Ok::<CallModel, DecodeError>(
            CallModel::Notification(n),
        ),
        notification_of(notification_json(n)->Ok_0) == Ok::<NotificationModel, DecodeError>(n),
{
    let schema = Schema::Call;
    lemma_field_of_name(schema, Field::Id);
    if n.params is Some {
        lemma_params_round_trip(n.params->Some_0);
    }
    lemma_scan_call_head(n.jsonrpc is Some, n.method, n.params);
    if n.jsonrpc is Some {
        lemma_one_version(n.jsonrpc->Some_0);
    }
    if n.jsonrpc is None {
        let head = with_params(
            Seq::empty().push((Field::Method.name(), JsonModel::String(n.method))),
            n.params,
        );
        lemma_scan_push(schema, head, Field::Id.name(), JsonModel::Null);
    }
}

/// Round trip of a call: the JSON value of a call, read back, is that call
/// again.
pub proof fn lemma_call_round_trip(c: CallModel)
    requires
        call_json(c) is Ok,
    ensures
        call_of(call_json(c)->Ok_0) == Ok::<CallModel, DecodeError>(c),
{
    match c {
        CallModel::MethodCall(m) => lemma_method_call_round_trip(m),
        CallModel::Notification(n) => lemma_notification_round_trip(n),
        CallModel::Invalid { .. } => {},
    }
}

/// Round trip of a run of calls, in their order.
pub proof fn lemma_calls_round_trip(calls: Seq<CallModel>)
    requires
        calls_json(calls) is Ok,
    ensures
        calls_json(calls)->Ok_0.len() == calls.len(),
        calls_of(calls_json(calls)->Ok_0) == Ok::<Seq<CallModel>, DecodeError>(calls),
    decreases calls.len(),
{
    if calls.len() > 0 {
        lemma_calls_round_trip(calls.drop_last());
        lemma_call_round_trip(calls.last());
        let items = calls_json(calls.drop_last())->Ok_0;
        let item = call_json(calls.last())->Ok_0;
        assert(items.push(item).drop_last() =~= items);
        assert(items.push(item).last() == item);
        assert(calls.drop_last().push(calls.last()) =~= calls);
        assert(calls_json(calls)->Ok_0 == items.push(item));
    } else {
        assert(calls =~= Seq::empty());
    }
}

/// Round trip of a request: the JSON value of a request, read back, is that
/// request again, a batch with its calls in their order.
pub proof fn lemma_request_round_trip(r: RequestModel)
    requires
        request_json(r) is Ok,
    ensures
        request_of(request_json(r)->Ok_0) == Ok::<RequestModel, DecodeError>(r),
{
    match r {
        RequestModel::Single(c) => {
            lemma_call_round_trip(c);
        },
        RequestModel::Batch(calls) => {
            lemma_calls_round_trip(calls);
        },
    }
}

/// Round trip of a success: the JSON value of a success, read as an output,
/// is that success again. This holds of every success that has a JSON
/// value, in both dialects.
pub proof fn lemma_success_round_trip(s: SuccessModel)
    requires
        success_json(s) is Ok,
    ensures
        output_of(success_json(s)->Ok_0) == Ok::<OutputModel, DecodeError>(
            OutputModel::Success(s),
        ),
        success_of(success_json(s)->Ok_0) == Ok::<SuccessModel, DecodeError>(s),
{
    let schema = Schema::Output;
    let none = Seq::<(Seq<char>, JsonModel)>::empty();
    let tag = (Field::Jsonrpc.name(), version_json());
    let result = (Field::Result.name(), s.result);
    let error = (Field::Error.name(), JsonModel::Null);
    let id = (Field::Id.name(), id_json(s.id));
    lemma_field_of_name(schema, Field::Jsonrpc);
    lemma_field_of_name(schema, Field::Result);
    lemma_field_of_name(schema, Field::Error);
    lemma_field_of_name(schema, Field::Id);
    lemma_id_round_trip(s.id);
    lemma_scan_empty(schema);
    if s.jsonrpc is Some {
        lemma_one_version(s.jsonrpc->Some_0);
        lemma_scan_push(schema, none, tag.0, tag.1);
        lemma_scan_push(schema, none.push(tag), result.0, result.1);
        lemma_scan_push(schema, none.push(tag).push(result), id.0, id.1);
    } else {
        lemma_scan_push(schema, none, result.0, result.1);
        lemma_scan_push(schema, none.push(result), error.0, error.1);
        lemma_scan_push(schema, none.push(result).push(error), id.0, id.1);
    }
}

/// Round trip of a failure: the JSON value of a failure, read as an output,
/// is that failure again. This holds of every failure, in both dialects.
pub proof fn lemma_failure_round_trip(f: FailureModel)
    ensures
        output_of(failure_json(f)) == Ok::<OutputModel, DecodeError>(OutputModel::Failure(f)),
        failure_of(failure_json(f)) == Ok::<FailureModel, DecodeError>(f),
{
    let schema = Schema::Output;
    let none = Seq::<(Seq<char>, JsonModel)>::empty();
    let tag = (Field::Jsonrpc.name(), version_json());
    let result = (Field::Result.name(), JsonModel::Null);
    let error = (Field::Error.name(), error_json(f.error));
    let id = (Field::Id.name(), id_json(f.id));
    lemma_field_of_name(schema, Field::Jsonrpc);
    lemma_field_of_name(schema, Field::Result);
    lemma_field_of_name(schema, Field::Error);
    lemma_field_of_name(schema, Field::Id);
    lemma_id_round_trip(f.id);
    lemma_error_round_trip(f.error);
    lemma_scan_empty(schema);
    if f.jsonrpc is Some {
        lemma_one_version(f.jsonrpc->Some_0);
        lemma_scan_push(schema, none, tag.0, tag.1);
        lemma_scan_push(schema, none.push(tag), error.0, error.1);
        lemma_scan_push(schema, none.push(tag).push(error), id.0, id.1);
    } else {
        lemma_scan_push(schema, none, error.0, error.1);
        lemma_scan_push(schema, none.push(error), result.0, result.1);
        lemma_scan_push(schema, none.push(error).push(result), id.0, id.1);
    }
}

/// Round trip of an output: the JSON value of an output, read back, is that
/// output again.
pub proof fn lemma_output_round_trip(o: OutputModel)
    requires
        output_json(o) is Ok,
    ensures
        output_of(output_json(o)->Ok_0) == Ok::<OutputModel, DecodeError>(o),
{
    match o {
        OutputModel::Success(s) => lemma_success_round_trip(s),
        OutputModel::Failure(f) => lemma_failure_round_trip(f),
    }
}

/// Round trip of a run of outputs, in their order.
pub proof fn lemma_outputs_round_trip(outputs: Seq<OutputModel>)
    requires
        outputs_json(outputs) is Ok,
    ensures
        outputs_json(outputs)->Ok_0.len() == outputs.len(),
        outputs_of(outputs_json(outputs)->Ok_0) == Ok::<Seq<OutputModel>, DecodeError>(outputs),
    decreases outputs.len(),
{
    if outputs.len() > 0 {
        lemma_outputs_round_trip(outputs.drop_last());
        lemma_output_round_trip(outputs.last());
        let items = outputs_json(outputs.drop_last())->Ok_0;
        let item = output_json(outputs.last())->Ok_0;
        assert(items.push(item).drop_last() =~= items);
        assert(items.push(item).last() == item);
        assert(outputs.drop_last().push(outputs.last()) =~= outputs);
        assert(outputs_json(outputs)->Ok_0 == items.push(item));
    } else {
        assert(outputs =~= Seq::empty());
    }
}

/// Round trip of a response: the JSON value of a response, read back, is
/// that response again, a batch with its outputs in their order.
pub proof fn lemma_response_round_trip(r: ResponseModel)
    requires
        response_json(r) is Ok,
    ensures
        response_of(response_json(r)->Ok_0) == Ok::<ResponseModel, DecodeError>(r),
{
    match r {
        ResponseModel::Single(o) => {
            lemma_output_round_trip(o);
        },
        ResponseModel::Batch(outputs) => {
            lemma_outputs_round_trip(outputs);
        },
    }
}

/// Id preservation: a method call that went through its JSON value has the
/// id that it had, and so has a response.
pub proof fn lemma_id_preserved(m: MethodCallModel, o: OutputModel)
    ensures
        method_call_json(m) is Ok ==> method_call_of(method_call_json(m)->Ok_0) is Ok
            && method_call_of(method_call_json(m)->Ok_0)->Ok_0.id == m.id,
        output_json(o) is Ok ==> output_of(output_json(o)->Ok_0) is Ok && output_id(
            output_of(output_json(o)->Ok_0)->Ok_0,
        ) == output_id(o),
{
    if method_call_json(m) is Ok {
        lemma_method_call_round_trip(m);
    }
    if output_json(o) is Ok {
        lemma_output_round_trip(o);
    }
}

/// The id of an output.
pub open spec fn output_id(o: OutputModel) -> IdModel {
    match o {
        OutputModel::Success(s) => s.id,
        OutputModel::Failure(f) => f.id,
    }
}

/// Dialect exclusivity, writing: a method call and a notification of
/// dialect 1.0 whose parameters are given by name have no JSON value, and
/// where the method has a name the error is that of the dialect.
pub proof fn lemma_v1_named_params_not_written(m: MethodCallModel, n: NotificationModel)
    ensures
        m.jsonrpc is None && m.params is Some && m.params->Some_0 is Object ==> method_call_json(
            m,
        ) is Err && (m.method.len() > 0 ==> method_call_json(m) == Err::<JsonModel, EncodeError>(
            EncodeError::IncompatibleDialect,
        )),
        n.jsonrpc is None && n.params is Some && n.params->Some_0 is Object ==> notification_json(
            n,
        ) is Err && (n.method.len() > 0 ==> notification_json(n) == Err::<JsonModel, EncodeError>(
            EncodeError::IncompatibleDialect,
        )),
{
}

/// Dialect exclusivity, reading: an object without a `jsonrpc` member whose
/// `params` member is an object is no call, whatever else it holds.
pub proof fn lemma_v1_named_params_not_read(members: Seq<(Seq<char>, JsonModel)>, i: int)
    requires
        0 <= i < members.len(),
        members[i].0 == Field::Params.name(),
        members[i].1 is Object,
        forall|k: int| 0 <= k < members.len() ==> (#[trigger] members[k]).0
            != Field::Jsonrpc.name(),
    ensures
        call_of(JsonModel::Object(members)) is Err,
        method_call_of(JsonModel::Object(members)) is Err,
        notification_of(JsonModel::Object(members)) is Err,
{
    let schema = Schema::Call;
    if scan(schema, members) is Ok {
        lemma_field_of_name(schema, Field::Params);
        lemma_scan_present(schema, members, i, Field::Params);
        assert forall|k: int| 0 <= k < members.len() implies schema.field(
            #[trigger] members[k].0,
        ) != Some(Field::Jsonrpc) by {
            if schema.field(members[k].0) == Some(Field::Jsonrpc) {
                assert(members[k].0 == Field::Jsonrpc.name());
            }
        }
        lemma_scan_absent(schema, members, Field::Jsonrpc);
    }
}

/// A repeated key is rejected: an object in which two members have the same
/// key is no call, no response and no error object.
pub proof fn lemma_repeated_key_rejected(members: Seq<(Seq<char>, JsonModel)>, i: int, j: int)
    requires
        0 <= i < j < members.len(),
        members[i].0 == members[j].0,
    ensures
        call_of(JsonModel::Object(members)) is Err,
        output_of(JsonModel::Object(members)) is Err,
        error_of(JsonModel::Object(members)) is Err,
        request_of(JsonModel::Object(members)) is Err,
        response_of(JsonModel::Object(members)) is Err,
{
    lemma_scan_duplicate(Schema::Call, members, i, j);
    lemma_scan_duplicate(Schema::Output, members, i, j);
    lemma_scan_duplicate(Schema::ErrorObject, members, i, j);
}

/// An unknown key is rejected: an object with a member whose key is none of
/// `jsonrpc`, `method`, `params`, `id` is no call, and one with a member
/// whose key is none of `jsonrpc`, `result`, `error`, `id` is no response.
pub proof fn lemma_unknown_key_rejected(members: Seq<(Seq<char>, JsonModel)>, i: int)
    requires
        0 <= i < members.len(),
    ensures
        Schema::Call.field(members[i].0) is None ==> call_of(JsonModel::Object(members)) is Err
            && request_of(JsonModel::Object(members)) is Err,
        Schema::Output.field(members[i].0) is None ==> output_of(JsonModel::Object(members))
            is Err && response_of(JsonModel::Object(members)) is Err,
        Schema::ErrorObject.field(members[i].0) is None ==> error_of(JsonModel::Object(members))
            is Err,
{
    if Schema::Call.field(members[i].0) is None {
        lemma_scan_unknown(Schema::Call, members, i);
    }
    if Schema::Output.field(members[i].0) is None {
        lemma_scan_unknown(Schema::Output, members, i);
    }
    if Schema::ErrorObject.field(members[i].0) is None {
        lemma_scan_unknown(Schema::ErrorObject, members, i);
    }
}

/// Exactly one of `result` and `error`, first half: a response object that
/// holds both a `result` member and an `error` member, neither of them null,
/// is no response, in either dialect.
pub proof fn lemma_result_and_error_rejected(
    members: Seq<(Seq<char>, JsonModel)>,
    i: int,
    j: int,
)
    requires
        0 <= i < members.len(),
        0 <= j < members.len(),
        members[i].0 == Field::Result.name(),
        members[j].0 == Field::Error.name(),
        !(members[i].1 is Null),
        !(members[j].1 is Null),
    ensures
        output_of(JsonModel::Object(members)) is Err,
{
    let schema = Schema::Output;
    if scan(schema, members) is Ok {
        lemma_field_of_name(schema, Field::Result);
        lemma_field_of_name(schema, Field::Error);
        lemma_scan_present(schema, members, i, Field::Result);
        lemma_scan_present(schema, members, j, Field::Error);
    }
}

/// Exactly one of `result` and `error`, second half: a response object that
/// holds neither a `result` member nor an `error` member is no response, in
/// either dialect.
pub proof fn lemma_neither_result_nor_error_rejected(members: Seq<(Seq<char>, JsonModel)>)
    requires
        forall|k: int| 0 <= k < members.len() ==> (#[trigger] members[k]).0
            != Field::Result.name(),
        forall|k: int| 0 <= k < members.len() ==> (#[trigger] members[k]).0
            != Field::Error.name(),
    ensures
        output_of(JsonModel::Object(members)) is Err,
{
    let schema = Schema::Output;
    if scan(schema, members) is Ok {
        assert forall|k: int| 0 <= k < members.len() implies schema.field(
            #[trigger] members[k].0,
        ) != Some(Field::Result) by {
            if schema.field(members[k].0) == Some(Field::Result) {
                assert(members[k].0 == Field::Result.name());
            }
        }
        assert forall|k: int| 0 <= k < members.len() implies schema.field(
            #[trigger] members[k].0,
        ) != Some(Field::Error) by {
            if schema.field(members[k].0) == Some(Field::Error) {
                assert(members[k].0 == Field::Error.name());
            }
        }
        lemma_scan_absent(schema, members, Field::Result);
        lemma_scan_absent(schema, members, Field::Error);
    }
}

/// Reading a call never gives the record of an invalid call: that record
/// comes from salvaging alone.
pub proof fn lemma_decoded_call_is_valid(v: JsonModel)
    ensures
        call_of(v) matches Ok(c) ==> !(c is Invalid),
{
}

/// A call has a JSON value exactly if it is well formed.
pub proof fn lemma_call_written_iff_well_formed(c: CallModel)
    ensures
        call_json(c) is Ok <==> c.well_formed(),
{
}

/// A run of calls has JSON values exactly if each of them is well formed.
pub proof fn lemma_calls_written_iff_well_formed(calls: Seq<CallModel>)
    ensures
        calls_json(calls) is Ok <==> calls_well_formed(calls),
    decreases calls.len(),
{
    if calls.len() > 0 {
        lemma_calls_written_iff_well_formed(calls.drop_last());
        lemma_call_written_iff_well_formed(calls.last());
        if calls_json(calls) is Ok {
            assert forall|i: int| 0 <= i < calls.len() implies (
            #[trigger] calls[i]).well_formed() by {
                if i < calls.len() - 1 {
                    assert(calls.drop_last()[i] == calls[i]);
                }
            }
        } else {
            if calls_well_formed(calls) {
                assert forall|i: int| 0 <= i < calls.drop_last().len() implies (
                #[trigger] calls.drop_last()[i]).well_formed() by {
                    assert(calls.drop_last()[i] == calls[i]);
                }
                assert(calls.last() == calls[calls.len() - 1]);
            }
        }
    }
}

/// A request has a JSON value exactly if it is well formed.
pub proof fn lemma_request_written_iff_well_formed(r: RequestModel)
    ensures
        request_json(r) is Ok <==> r.well_formed(),
{
    match r {
        RequestModel::Single(c) => lemma_call_written_iff_well_formed(c),
        RequestModel::Batch(calls) => lemma_calls_written_iff_well_formed(calls),
    }
}

/// What is read as a call is well formed.
pub proof fn lemma_read_call_is_well_formed(v: JsonModel)
    ensures
        call_of(v) matches Ok(c) ==> c.well_formed(),
{
}

/// What is read as a run of calls is well formed, call by call.
pub proof fn lemma_read_calls_are_well_formed(items: Seq<JsonModel>)
    ensures
        calls_of(items) matches Ok(calls) ==> calls.len() == items.len() && calls_well_formed(
            calls,
        ),
    decreases items.len(),
{
    if items.len() > 0 {
        lemma_read_calls_are_well_formed(items.drop_last());
        lemma_read_call_is_well_formed(items.last());
    }
}

/// What is read as a request is well formed.
pub proof fn lemma_read_request_is_well_formed(v: JsonModel)
    ensures
        request_of(v) matches Ok(r) ==> r.well_formed(),
{
    lemma_read_call_is_well_formed(v);
    match v {
        JsonModel::Array(items) => lemma_read_calls_are_well_formed(items),
        _ => {},
    }
}

/// An output has a JSON value exactly if it is well formed.
pub proof fn lemma_output_written_iff_well_formed(o: OutputModel)
    ensures
        output_json(o) is Ok <==> o.well_formed(),
{
}

/// A run of outputs has JSON values exactly if each of them is well formed.
pub proof fn lemma_outputs_written_iff_well_formed(outputs: Seq<OutputModel>)
    ensures
        outputs_json(outputs) is Ok <==> outputs_well_formed(outputs),
    decreases outputs.len(),
{
    if outputs.len() > 0 {
        lemma_outputs_written_iff_well_formed(outputs.drop_last());
        lemma_output_written_iff_well_formed(outputs.last());
        if outputs_json(outputs) is Ok {
            assert forall|i: int| 0 <= i < outputs.len() implies (
            #[trigger] outputs[i]).well_formed() by {
                if i < outputs.len() - 1 {
                    assert(outputs.drop_last()[i] == outputs[i]);
                }
            }
        } else {
            if outputs_well_formed(outputs) {
                assert forall|i: int| 0 <= i < outputs.drop_last().len() implies (
                #[trigger] outputs.drop_last()[i]).well_formed() by {
                    assert(outputs.drop_last()[i] == outputs[i]);
                }
                assert(outputs.last() == outputs[outputs.len() - 1]);
            }
        }
    }
}

/// A response has a JSON value exactly if it is well formed.
pub proof fn lemma_response_written_iff_well_formed(r: ResponseModel)
    ensures
        response_json(r) is Ok <==> r.well_formed(),
{
    match r {
        ResponseModel::Single(o) => lemma_output_written_iff_well_formed(o),
        ResponseModel::Batch(outputs) => lemma_outputs_written_iff_well_formed(outputs),
    }
}

/// What is read as an output is well formed.
pub proof fn lemma_read_output_is_well_formed(v: JsonModel)
    ensures
        output_of(v) matches Ok(o) ==> o.well_formed(),
{
}

/// What is read as a run of outputs is well formed, output by output.
pub proof fn lemma_read_outputs_are_well_formed(items: Seq<JsonModel>)
    ensures
        outputs_of(items) matches Ok(outputs) ==> outputs.len() == items.len()
            && outputs_well_formed(outputs),
    decreases items.len(),
{
    if items.len() > 0 {
        lemma_read_outputs_are_well_formed(items.drop_last());
        lemma_read_output_is_well_formed(items.last());
    }
}

/// What is read as a response is well formed.
pub proof fn lemma_read_response_is_well_formed(v: JsonModel)
    ensures
        response_of(v) matches Ok(r) ==> r.well_formed(),
{
    lemma_read_output_is_well_formed(v);
    match v {
        JsonModel::Array(items) => lemma_read_outputs_are_well_formed(items),
        _ => {},
    }
}

/// A batch is read in its order: the call at each place is what the value
/// at that place stands for.
pub proof fn lemma_calls_are_read_in_order(items: Seq<JsonModel>, i: int)
    requires
        calls_of(items) is Ok,
        0 <= i < items.len(),
    ensures
        calls_of(items)->Ok_0.len() == items.len(),
        call_of(items[i]) == Ok::<CallModel, DecodeError>(calls_of(items)->Ok_0[i]),
    decreases items.len(),
{
    lemma_read_calls_are_well_formed(items);
    if i < items.len() - 1 {
        lemma_read_calls_are_well_formed(items.drop_last());
        lemma_calls_are_read_in_order(items.drop_last(), i);
    }
}

/// A batch is written in its order: the value at each place is that of the
/// call at that place.
pub proof fn lemma_calls_are_written_in_order(calls: Seq<CallModel>, i: int)
    requires
        calls_json(calls) is Ok,
        0 <= i < calls.len(),
    ensures
        calls_json(calls)->Ok_0.len() == calls.len(),
        call_json(calls[i]) == Ok::<JsonModel, EncodeError>(calls_json(calls)->Ok_0[i]),
    decreases calls.len(),
{
    lemma_calls_round_trip(calls);
    if i < calls.len() - 1 {
        lemma_calls_round_trip(calls.drop_last());
        lemma_calls_are_written_in_order(calls.drop_last(), i);
    }
}

/// A batch of outputs is read in its order.
pub proof fn lemma_outputs_are_read_in_order(items: Seq<JsonModel>, i: int)
    requires
        outputs_of(items) is Ok,
        0 <= i < items.len(),
    ensures
        outputs_of(items)->Ok_0.len() == items.len(),
        output_of(items[i]) == Ok::<OutputModel, DecodeError>(outputs_of(items)->Ok_0[i]),
    decreases items.len(),
{
    lemma_read_outputs_are_well_formed(items);
    if i < items.len() - 1 {
        lemma_read_outputs_are_well_formed(items.drop_last());
        lemma_outputs_are_read_in_order(items.drop_last(), i);
    }
}

/// A batch of outputs is written in its order.
pub proof fn lemma_outputs_are_written_in_order(outputs: Seq<OutputModel>, i: int)
    requires
        outputs_json(outputs) is Ok,
        0 <= i < outputs.len(),
    ensures
        outputs_json(outputs)->Ok_0.len() == outputs.len(),
        output_json(outputs[i]) == Ok::<JsonModel, EncodeError>(outputs_json(outputs)->Ok_0[i]),
    decreases outputs.len(),
{
    lemma_outputs_round_trip(outputs);
    if i < outputs.len() - 1 {
        lemma_outputs_round_trip(outputs.drop_last());
        lemma_outputs_are_written_in_order(outputs.drop_last(), i);
    }
}

/// A text is decoded as its document is: where the text holds the document
/// that a request or a response was written as, decoding the text gives
/// that request or response again.
pub proof fn lemma_text_of_a_written_value(bytes: Seq<u8>, q: RequestModel, r: ResponseModel)
    ensures
        request_json(q) is Ok && document(bytes) == Some(request_json(q)->Ok_0) ==> decoded(
            bytes,
            |v: JsonModel| request_of(v),
        ) == Ok::<RequestModel, DecodeError>(q),
        response_json(r) is Ok && document(bytes) == Some(response_json(r)->Ok_0) ==> decoded(
            bytes,
            |v: JsonModel| response_of(v),
        ) == Ok::<ResponseModel, DecodeError>(r),
{
    if request_json(q) is Ok {
        lemma_request_round_trip(q);
    }
    if response_json(r) is Ok {
        lemma_response_round_trip(r);
    }
}

/// A text whose document is an object with a repeated key, or with a key
/// outside the schema, is decoded neither as a request nor as a response.
pub proof fn lemma_text_with_bad_key_rejected(
    bytes: Seq<u8>,
    members: Seq<(Seq<char>, JsonModel)>,
    i: int,
    j: int,
)
    requires
        document(bytes) == Some(JsonModel::Object(members)),
        0 <= i < members.len(),
        0 <= j < members.len(),
    ensures
        i != j && members[i].0 == members[j].0 ==> decoded(bytes, |v: JsonModel| request_of(v))
            is Err && decoded(bytes, |v: JsonModel| response_of(v)) is Err,
        Schema::Call.field(members[i].0) is None ==> decoded(
            bytes,
            |v: JsonModel| request_of(v),
        ) is Err,
        Schema::Output.field(members[i].0) is None ==> decoded(
            bytes,
            |v: JsonModel| response_of(v),
        ) is Err,
{
    if i != j && members[i].0 == members[j].0 {
        if i < j {
            lemma_repeated_key_rejected(members, i, j);
        } else {
            lemma_repeated_key_rejected(members, j, i);
        }
    }
    lemma_unknown_key_rejected(members, i);
}

} // verus!
