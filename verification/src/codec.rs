//! What the request and the response codec share: the names of the fields,
//! the closed schemas, the single scan over an object's members, and the
//! errors of decoding and encoding.

use vstd::prelude::*;
use vstd::string::StringExecFns;
use crate::json::{members_model, JsonModel, JsonValue, Member};

verus! {

/// A field of a call, of a response or of an error object.
#[derive(Clone, Copy, Debug, PartialEq, Eq, Hash, Structural)]
pub enum Field {
    Jsonrpc,
    Method,
    Params,
    Id,
    Result,
    Error,
    Code,
    Message,
    Data,
}

/// The set of fields that one kind of object may hold. Every schema is
/// closed: a key outside it is an error, never skipped.
#[derive(Clone, Copy, Debug, PartialEq, Eq, Hash, Structural)]
pub enum Schema {
    /// `jsonrpc`, `method`, `params`, `id`.
    Call,
    /// `jsonrpc`, `result`, `error`, `id`.
    Output,
    /// `code`, `message`, `data`.
    ErrorObject,
}

/// Why a JSON document is not the value that was asked for.
#[derive(Clone, Copy, Debug, PartialEq, Eq, Hash, Structural)]
pub enum DecodeError {
    /// The text is not JSON.
    Syntax,
    /// An object holds a key outside its schema.
    UnknownField,
    /// An object holds the same field twice.
    DuplicateField(Field),
    /// A field that both dialects require is absent.
    MissingField(Field),
    /// `id` is neither a non-negative integer, a string nor null.
    InvalidIdShape,
    /// `params` is neither an array nor an object.
    InvalidParamsShape,
    /// `method` is not a string, or it is the empty string.
    InvalidMethodShape,
    /// `error` is not an error object, or one of its members has the wrong
    /// shape.
    InvalidErrorShape,
    /// The fields match the rules of neither dialect.
    IncompatibleDialect,
    /// A request is neither an object nor an array.
    InvalidRequestShape,
    /// A response is neither an object nor an array.
    InvalidResponseShape,
}

/// Why a value has no JSON form.
#[derive(Clone, Copy, Debug, PartialEq, Eq, Hash, Structural)]
pub enum EncodeError {
    /// The value breaks the rules of its own dialect.
    IncompatibleDialect,
    /// A field that the value's dialect requires is absent.
    MissingField(Field),
    /// The name of the method is empty.
    EmptyMethod,
    /// The value is the record of a call that could not be decoded.
    InvalidCall,
    /// A number or a string in the value has no JSON text.
    Unprintable,
}

impl Field {
    /// The key under which the field stands in an object.
    pub open spec fn name(self) -> Seq<char> {
        match self {
            Field::Jsonrpc => "jsonrpc"@,
            Field::Method => "method"@,
            Field::Params => "params"@,
            Field::Id => "id"@,
            Field::Result => "result"@,
            Field::Error => "error"@,
            Field::Code => "code"@,
            Field::Message => "message"@,
            Field::Data => "data"@,
        }
    }

    /// The key under which the field stands in an object.
    pub fn key(self) -> (r: String)
        ensures
            r@ == self.name(),
    {
        match self {
            Field::Jsonrpc => String::from_str("jsonrpc"),
            Field::Method => String::from_str("method"),
            Field::Params => String::from_str("params"),
            Field::Id => String::from_str("id"),
            Field::Result => String::from_str("result"),
            Field::Error => String::from_str("error"),
            Field::Code => String::from_str("code"),
            Field::Message => String::from_str("message"),
            Field::Data => String::from_str("data"),
        }
    }
}

/// No two fields share a key.
pub proof fn lemma_names_differ(f: Field, g: Field)
    ensures
        f.name() == g.name() <==> f == g,
{
    reveal_strlit("jsonrpc");
    reveal_strlit("method");
    reveal_strlit("params");
    reveal_strlit("id");
    reveal_strlit("result");
    reveal_strlit("error");
    reveal_strlit("code");
    reveal_strlit("message");
    reveal_strlit("data");
    if f != g && f.name().len() == g.name().len() {
        assert(f.name()[0] != g.name()[0]);
    }
}

impl Schema {
    /// Whether the schema holds the field.
    pub open spec fn allows(self, f: Field) -> bool {
        match self {
            Schema::Call => f == Field::Jsonrpc || f == Field::Method || f == Field::Params || f
                == Field::Id,
            Schema::Output => f == Field::Jsonrpc || f == Field::Result || f == Field::Error || f
                == Field::Id,
            Schema::ErrorObject => f == Field::Code || f == Field::Message || f == Field::Data,
        }
    }

    /// The field of the schema that a key names, if it names one.
    pub open spec fn field(self, key: Seq<char>) -> Option<Field> {
        if exists|f: Field| self.allows(f) && f.name() == key {
            Some(choose|f: Field| self.allows(f) && f.name() == key)
        } else {
            None
        }
    }

    /// Whether the schema holds the field.
    pub fn holds(self, f: Field) -> (r: bool)
        ensures
            r == self.allows(f),
    {
        match self {
            Schema::Call => match f {
                Field::Jsonrpc | Field::Method | Field::Params | Field::Id => true,
                _ => false,
            },
            Schema::Output => match f {
                Field::Jsonrpc | Field::Result | Field::Error | Field::Id => true,
                _ => false,
            },
            Schema::ErrorObject => match f {
                Field::Code | Field::Message | Field::Data => true,
                _ => false,
            },
        }
    }

    /// Whether `key` names the field `f` of the schema.
    pub fn names(self, f: Field, key: &String) -> (r: bool)
        ensures
            r == (self.allows(f) && f.name() == key@),
            r ==> self.field(key@) == Some(f),
    {
        if self.holds(f) {
            let name = f.key();
            let same = key.eq(&name);
            proof {
                if same {
                    lemma_field_unique(self, f, key@);
                }
            }
            same
        } else {
            false
        }
    }

    /// The field of the schema that `key` names, if it names one.
    pub fn field_of(self, key: &String) -> (r: Option<Field>)
        ensures
            r == self.field(key@),
    {
        if self.names(Field::Jsonrpc, key) {
            Some(Field::Jsonrpc)
        } else if self.names(Field::Method, key) {
            Some(Field::Method)
        } else if self.names(Field::Params, key) {
            Some(Field::Params)
        } else if self.names(Field::Id, key) {
            Some(Field::Id)
        } else if self.names(Field::Result, key) {
            Some(Field::Result)
        } else if self.names(Field::Error, key) {
            Some(Field::Error)
        } else if self.names(Field::Code, key) {
            Some(Field::Code)
        } else if self.names(Field::Message, key) {
            Some(Field::Message)
        } else if self.names(Field::Data, key) {
            Some(Field::Data)
        } else {
            assert forall|f: Field| !(self.allows(f) && f.name() == key@) by {
                match f {
                    Field::Jsonrpc => {},
                    Field::Method => {},
                    Field::Params => {},
                    Field::Id => {},
                    Field::Result => {},
                    Field::Error => {},
                    Field::Code => {},
                    Field::Message => {},
                    Field::Data => {},
                }
            }
            None
        }
    }
}

/// A key names at most one field of a schema.
pub proof fn lemma_field_unique(schema: Schema, f: Field, key: Seq<char>)
    requires
        schema.allows(f),
        f.name() == key,
    ensures
        schema.field(key) == Some(f),
{
    let g = choose|g: Field| schema.allows(g) && g.name() == key;
    lemma_names_differ(f, g);
}

/// The field of a schema that its own key names is that field.
pub proof fn lemma_field_of_name(schema: Schema, f: Field)
    requires
        schema.allows(f),
    ensures
        schema.field(f.name()) == Some(f),
{
    lemma_field_unique(schema, f, f.name());
}

/// The values found under the fields of an object, one place for each field.
#[derive(Debug)]
pub struct Slots {
    pub jsonrpc: Option<JsonValue>,
    pub method: Option<JsonValue>,
    pub params: Option<JsonValue>,
    pub id: Option<JsonValue>,
    pub result: Option<JsonValue>,
    pub error: Option<JsonValue>,
    pub code: Option<JsonValue>,
    pub message: Option<JsonValue>,
    pub data: Option<JsonValue>,
}

/// The mathematical value of [`Slots`].
pub ghost struct SlotsModel {
    pub jsonrpc: Option<JsonModel>,
    pub method: Option<JsonModel>,
    pub params: Option<JsonModel>,
    pub id: Option<JsonModel>,
    pub result: Option<JsonModel>,
    pub error: Option<JsonModel>,
    pub code: Option<JsonModel>,
    pub message: Option<JsonModel>,
    pub data: Option<JsonModel>,
}

/// The model of a tree that may be absent.
pub open spec fn option_model(v: Option<JsonValue>) -> Option<JsonModel> {
    match v {
        Some(v) => Some(v@),
        None => None,
    }
}

impl View for Slots {
    type V = SlotsModel;

    open spec fn view(&self) -> SlotsModel {
        SlotsModel {
            jsonrpc: option_model(self.jsonrpc),
            method: option_model(self.method),
            params: option_model(self.params),
            id: option_model(self.id),
            result: option_model(self.result),
            error: option_model(self.error),
            code: option_model(self.code),
            message: option_model(self.message),
            data: option_model(self.data),
        }
    }
}

impl SlotsModel {
    /// The slots before any member was read.
    pub open spec fn empty() -> SlotsModel {
        SlotsModel {
            jsonrpc: None,
            method: None,
            params: None,
            id: None,
            result: None,
            error: None,
            code: None,
            message: None,
            data: None,
        }
    }

    /// What was found under a field.
    pub open spec fn get(self, f: Field) -> Option<JsonModel> {
        match f {
            Field::Jsonrpc => self.jsonrpc,
            Field::Method => self.method,
            Field::Params => self.params,
            Field::Id => self.id,
            Field::Result => self.result,
            Field::Error => self.error,
            Field::Code => self.code,
            Field::Message => self.message,
            Field::Data => self.data,
        }
    }

    /// The slots with one more field filled.
    pub open spec fn set(self, f: Field, v: JsonModel) -> SlotsModel {
        match f {
            Field::Jsonrpc => SlotsModel { jsonrpc: Some(v), ..self },
            Field::Method => SlotsModel { method: Some(v), ..self },
            Field::Params => SlotsModel { params: Some(v), ..self },
            Field::Id => SlotsModel { id: Some(v), ..self },
            Field::Result => SlotsModel { result: Some(v), ..self },
            Field::Error => SlotsModel { error: Some(v), ..self },
            Field::Code => SlotsModel { code: Some(v), ..self },
            Field::Message => SlotsModel { message: Some(v), ..self },
            Field::Data => SlotsModel { data: Some(v), ..self },
        }
    }
}

/// One step of the scan: the member `key: value` read after `slots` were
/// filled. A key outside the schema and a field met twice are both errors.
pub open spec fn place(schema: Schema, slots: SlotsModel, key: Seq<char>, value: JsonModel)
    -> Result<SlotsModel, DecodeError> {
    match schema.field(key) {
        None => Err(DecodeError::UnknownField),
        Some(f) => if slots.get(f) is Some {
            Err(DecodeError::DuplicateField(f))
        } else {
            Ok(slots.set(f, value))
        },
    }
}

/// The scan of an object's members, first to last: the slots that they
/// fill, or the error of the first member that cannot be placed.
pub open spec fn scan(schema: Schema, members: Seq<(Seq<char>, JsonModel)>) -> Result<
    SlotsModel,
    DecodeError,
>
    decreases members.len(),
{
    if members.len() == 0 {
        Ok(SlotsModel::empty())
    } else {
        match scan(schema, members.drop_last()) {
            Err(e) => Err(e),
            Ok(slots) => place(schema, slots, members.last().0, members.last().1),
        }
    }
}

/// An error met in a prefix of the members is the error of the whole scan.
pub proof fn lemma_scan_prefix_error(
    schema: Schema,
    members: Seq<(Seq<char>, JsonModel)>,
    n: int,
)
    requires
        0 <= n <= members.len(),
        scan(schema, members.take(n)) is Err,
    ensures
        scan(schema, members) == scan(schema, members.take(n)),
    decreases members.len() - n,
{
    if n == members.len() {
        assert(members.take(n) =~= members);
    } else {
        assert(members.drop_last().take(n) =~= members.take(n));
        lemma_scan_prefix_error(schema, members.drop_last(), n);
    }
}

/// The scan of one member more is one step from the scan of the members
/// before it.
pub proof fn lemma_scan_step(schema: Schema, members: Seq<(Seq<char>, JsonModel)>, n: int)
    requires
        0 <= n < members.len(),
    ensures
        scan(schema, members.take(n + 1)) == match scan(schema, members.take(n)) {
            Err(e) => Err(e),
            Ok(slots) => place(schema, slots, members[n].0, members[n].1),
        },
{
    assert(members.take(n + 1).drop_last() =~= members.take(n));
}

impl Slots {
    /// Slots with nothing in them.
    pub fn new() -> (r: Slots)
        ensures
            r@ == SlotsModel::empty(),
    {
        Slots {
            jsonrpc: None,
            method: None,
            params: None,
            id: None,
            result: None,
            error: None,
            code: None,
            message: None,
            data: None,
        }
    }

    /// Whether a value stands under the field.
    pub fn has(&self, f: Field) -> (r: bool)
        ensures
            r == (self@.get(f) is Some),
    {
        match f {
            Field::Jsonrpc => self.jsonrpc.is_some(),
            Field::Method => self.method.is_some(),
            Field::Params => self.params.is_some(),
            Field::Id => self.id.is_some(),
            Field::Result => self.result.is_some(),
            Field::Error => self.error.is_some(),
            Field::Code => self.code.is_some(),
            Field::Message => self.message.is_some(),
            Field::Data => self.data.is_some(),
        }
    }

    /// The slots with `value` under the field `f`, whatever stood there.
    pub fn with(self, f: Field, value: JsonValue) -> (r: Slots)
        ensures
            r@ == self@.set(f, value@),
    {
        let mut r = self;
        match f {
            Field::Jsonrpc => r.jsonrpc = Some(value),
            Field::Method => r.method = Some(value),
            Field::Params => r.params = Some(value),
            Field::Id => r.id = Some(value),
            Field::Result => r.result = Some(value),
            Field::Error => r.error = Some(value),
            Field::Code => r.code = Some(value),
            Field::Message => r.message = Some(value),
            Field::Data => r.data = Some(value),
        }
        r
    }
}

/// Scans the members of an object once, first to last, against a closed
/// schema.
pub fn scan_members(schema: Schema, members: &Vec<Member>) -> (r: Result<Slots, DecodeError>)
    ensures
        match r {
            Ok(slots) => scan(schema, members_model(members@)) == Ok::<SlotsModel, DecodeError>(
                slots@,
            ),
            Err(e) => scan(schema, members_model(members@)) == Err::<SlotsModel, DecodeError>(e),
        },
{
    let ghost all = members_model(members@);
    let mut slots = Slots::new();
    let mut i: usize = 0;
    assert(all.take(0) =~= Seq::empty());
    while i < members.len()
        invariant
            i <= members.len(),
            all == members_model(members@),
            scan(schema, all.take(i as int)) == Ok::<SlotsModel, DecodeError>(slots@),
        decreases members.len() - i,
    {
        proof {
            lemma_scan_step(schema, all, i as int);
        }
        match schema.field_of(&members[i].key) {
            None => {
                proof {
                    lemma_scan_prefix_error(schema, all, i + 1);
                }
                return Err(DecodeError::UnknownField);
            },
            Some(f) => {
                if slots.has(f) {
                    proof {
                        lemma_scan_prefix_error(schema, all, i + 1);
                    }
                    return Err(DecodeError::DuplicateField(f));
                }
                slots = slots.with(f, members[i].value.clone());
            },
        }
        i = i + 1;
    }
    assert(all.take(i as int) =~= all);
    Ok(slots)
}

/// After a scan that succeeded, the key of every member names a field of
/// the schema, and that field is filled.
pub proof fn lemma_scan_fills(schema: Schema, members: Seq<(Seq<char>, JsonModel)>, i: int)
    requires
        0 <= i < members.len(),
        scan(schema, members) is Ok,
    ensures
        schema.field(members[i].0) is Some,
        scan(schema, members)->Ok_0.get(schema.field(members[i].0)->Some_0) is Some,
    decreases members.len(),
{
    if i < members.len() - 1 {
        lemma_scan_fills(schema, members.drop_last(), i);
    }
}

/// A key outside the schema fails the scan, wherever it stands.
pub proof fn lemma_scan_unknown(schema: Schema, members: Seq<(Seq<char>, JsonModel)>, i: int)
    requires
        0 <= i < members.len(),
        schema.field(members[i].0) is None,
    ensures
        scan(schema, members) is Err,
{
    if scan(schema, members) is Ok {
        lemma_scan_fills(schema, members, i);
    }
}

/// A key that stands twice fails the scan, wherever the two stand.
pub proof fn lemma_scan_duplicate(
    schema: Schema,
    members: Seq<(Seq<char>, JsonModel)>,
    i: int,
    j: int,
)
    requires
        0 <= i < j < members.len(),
        members[i].0 == members[j].0,
    ensures
        scan(schema, members) is Err,
{
    lemma_scan_step(schema, members, j);
    if scan(schema, members.take(j)) is Ok {
        lemma_scan_fills(schema, members.take(j), i);
    }
    lemma_scan_prefix_error(schema, members, j + 1);
}

/// The scan of no member fills nothing.
pub proof fn lemma_scan_empty(schema: Schema)
    ensures
        scan(schema, Seq::empty()) == Ok::<SlotsModel, DecodeError>(SlotsModel::empty()),
{
}

/// The scan of members with one more behind them is one step from the scan
/// of the members.
pub proof fn lemma_scan_push(
    schema: Schema,
    members: Seq<(Seq<char>, JsonModel)>,
    key: Seq<char>,
    value: JsonModel,
)
    ensures
        scan(schema, members.push((key, value))) == match scan(schema, members) {
            Err(e) => Err(e),
            Ok(slots) => place(schema, slots, key, value),
        },
{
    assert(members.push((key, value)).drop_last() =~= members);
}

/// After a scan that succeeded, a field holds the value of the member that
/// names it.
pub proof fn lemma_scan_present(
    schema: Schema,
    members: Seq<(Seq<char>, JsonModel)>,
    i: int,
    f: Field,
)
    requires
        0 <= i < members.len(),
        scan(schema, members) is Ok,
        schema.field(members[i].0) == Some(f),
    ensures
        scan(schema, members)->Ok_0.get(f) == Some(members[i].1),
    decreases members.len(),
{
    if i < members.len() - 1 {
        lemma_scan_present(schema, members.drop_last(), i, f);
    }
}

/// After a scan that succeeded, a field that no member names is empty.
pub proof fn lemma_scan_absent(schema: Schema, members: Seq<(Seq<char>, JsonModel)>, f: Field)
    requires
        scan(schema, members) is Ok,
        forall|i: int| 0 <= i < members.len() ==> schema.field(#[trigger] members[i].0) != Some(f),
    ensures
        scan(schema, members)->Ok_0.get(f) is None,
    decreases members.len(),
{
    if members.len() > 0 {
        assert forall|i: int| 0 <= i < members.drop_last().len() implies schema.field(
            #[trigger] members.drop_last()[i].0,
        ) != Some(f) by {
            assert(members.drop_last()[i] == members[i]);
        }
        lemma_scan_absent(schema, members.drop_last(), f);
        assert(schema.field(members[members.len() - 1].0) != Some(f));
    }
}

} // verus!
