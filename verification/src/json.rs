//! The JSON document tree that the codec reads and writes.
//!
//! An object keeps its members in document order and may hold the same key
//! twice: whether a key is repeated is for the codec to judge, so the tree
//! has to be able to say it.

use vstd::prelude::*;

verus! {

/// A JSON number: an integer that fits a machine word, or any other number
/// kept as its decimal text.
#[derive(Debug, PartialEq, Eq, Hash)]
pub enum Number {
    /// A non-negative integer.
    PosInt(u64),
    /// A negative integer.
    NegInt(i64),
    /// A number with a fraction or an exponent, as decimal text.
    Float(String),
}

/// The mathematical value of a [`Number`].
pub ghost enum NumberModel {
    PosInt(u64),
    NegInt(i64),
    Float(Seq<char>),
}

impl View for Number {
    type V = NumberModel;

    open spec fn view(&self) -> NumberModel {
        match *self {
            Number::PosInt(n) => NumberModel::PosInt(n),
            Number::NegInt(n) => NumberModel::NegInt(n),
            Number::Float(text) => NumberModel::Float(text@),
        }
    }
}

impl NumberModel {
    /// The integer that the number stands for, if it is one.
    pub open spec fn int_value(self) -> Option<int> {
        match self {
            NumberModel::PosInt(n) => Some(n as int),
            NumberModel::NegInt(n) => Some(n as int),
            NumberModel::Float(_) => None,
        }
    }

    /// The number that stands for an integer of the signed 64-bit range.
    pub open spec fn of_i64(n: i64) -> NumberModel {
        if n >= 0 {
            NumberModel::PosInt(n as u64)
        } else {
            NumberModel::NegInt(n)
        }
    }
}

impl Clone for Number {
    fn clone(&self) -> (r: Self)
        ensures
            r@ == self@,
    {
        match self {
            Number::PosInt(n) => Number::PosInt(*n),
            Number::NegInt(n) => Number::NegInt(*n),
            Number::Float(text) => Number::Float(text.clone()),
        }
    }
}

impl Number {
    /// The number as an unsigned 64-bit integer, if it is one.
    pub fn as_u64(&self) -> (r: Option<u64>)
        ensures
            r == match self@.int_value() {
                Some(n) => if 0 <= n <= u64::MAX {
                    Some(n as u64)
                } else {
                    None
                },
                None => None,
            },
    {
        match self {
            Number::PosInt(n) => Some(*n),
            Number::NegInt(n) => if *n >= 0 {
                Some(*n as u64)
            } else {
                None
            },
            Number::Float(_) => None,
        }
    }

    /// The number as a signed 64-bit integer, if it is one.
    pub fn as_i64(&self) -> (r: Option<i64>)
        ensures
            r == match self@.int_value() {
                Some(n) => if i64::MIN <= n <= i64::MAX {
                    Some(n as i64)
                } else {
                    None
                },
                None => None,
            },
    {
        match self {
            Number::PosInt(n) => if *n <= 0x7fff_ffff_ffff_ffff {
                Some(*n as i64)
            } else {
                None
            },
            Number::NegInt(n) => Some(*n),
            Number::Float(_) => None,
        }
    }

    /// The number that stands for `n`: negative integers and the others are
    /// kept apart, as a parser tells them apart.
    pub fn from_i64(n: i64) -> (r: Number)
        ensures
            r@ == NumberModel::of_i64(n),
    {
        if n >= 0 {
            Number::PosInt(n as u64)
        } else {
            Number::NegInt(n)
        }
    }
}

/// One member of a JSON object.
#[derive(Debug, PartialEq, Eq, Hash)]
pub struct Member {
    pub key: String,
    pub value: JsonValue,
}

/// A JSON document tree. An object keeps its members in document order.
#[derive(Debug, PartialEq, Eq, Hash)]
pub enum JsonValue {
    Null,
    Bool(bool),
    Number(Number),
    String(String),
    Array(Vec<JsonValue>),
    Object(Vec<Member>),
}

/// The mathematical value of a JSON document tree.
pub ghost enum JsonModel {
    Null,
    Bool(bool),
    Number(NumberModel),
    String(Seq<char>),
    Array(Seq<JsonModel>),
    Object(Seq<(Seq<char>, JsonModel)>),
}

/// The model of one tree.
pub open spec fn model_of(v: JsonValue) -> JsonModel
    decreases v,
{
    match v {
        JsonValue::Null => JsonModel::Null,
        JsonValue::Bool(b) => JsonModel::Bool(b),
        JsonValue::Number(n) => JsonModel::Number(n@),
        JsonValue::String(s) => JsonModel::String(s@),
        JsonValue::Array(items) => JsonModel::Array(
            Seq::new(
                items@.len(),
                |i: int|
                    if 0 <= i < items@.len() {
                        model_of(items@[i])
                    } else {
                        JsonModel::Null
                    },
            ),
        ),
        JsonValue::Object(members) => JsonModel::Object(
            Seq::new(
                members@.len(),
                |i: int|
                    if 0 <= i < members@.len() {
                        (members@[i].key@, model_of(members@[i].value))
                    } else {
                        (Seq::empty(), JsonModel::Null)
                    },
            ),
        ),
    }
}

impl View for JsonValue {
    type V = JsonModel;

    open spec fn view(&self) -> JsonModel {
        model_of(*self)
    }
}

impl View for Member {
    type V = (Seq<char>, JsonModel);

    open spec fn view(&self) -> (Seq<char>, JsonModel) {
        (self.key@, self.value@)
    }
}

/// The models of a run of trees, one for one.
pub open spec fn items_model(items: Seq<JsonValue>) -> Seq<JsonModel> {
    Seq::new(items.len(), |i: int| items[i]@)
}

/// The models of a run of members, one for one.
pub open spec fn members_model(members: Seq<Member>) -> Seq<(Seq<char>, JsonModel)> {
    Seq::new(members.len(), |i: int| members[i]@)
}

/// An array's model holds the models of its items.
pub proof fn lemma_array_model(items: Vec<JsonValue>)
    ensures
        JsonValue::Array(items)@ == JsonModel::Array(items_model(items@)),
{
    assert(JsonValue::Array(items)@->Array_0 =~= items_model(items@));
}

/// An object's model holds the models of its members.
pub proof fn lemma_object_model(members: Vec<Member>)
    ensures
        JsonValue::Object(members)@ == JsonModel::Object(members_model(members@)),
{
    assert(JsonValue::Object(members)@->Object_0 =~= members_model(members@));
}

impl Clone for JsonValue {
    fn clone(&self) -> (r: Self)
        ensures
            r@ == self@,
        decreases self,
    {
        match self {
            JsonValue::Null => JsonValue::Null,
            JsonValue::Bool(b) => JsonValue::Bool(*b),
            JsonValue::Number(n) => JsonValue::Number(n.clone()),
            JsonValue::String(s) => JsonValue::String(s.clone()),
            JsonValue::Array(items) => {
                let mut out: Vec<JsonValue> = Vec::new();
                let mut i: usize = 0;
                while i < items.len()
                    invariant
                        i <= items.len(),
                        out@.len() == i,
                        forall|k: int| 0 <= k < i ==> out@[k]@ == items@[k]@,
                        self == JsonValue::Array(*items),
                    decreases items.len() - i,
                {
                    proof {
                        vstd::std_specs::vec::axiom_vec_index_decreases(*items, i as int);
                        assert(decreases_to!(*self => self->Array_0));
                    }
                    let item = items[i].clone();
                    out.push(item);
                    i = i + 1;
                }
                proof {
                    lemma_array_model(out);
                    lemma_array_model(*items);
                    assert(items_model(out@) =~= items_model(items@));
                }
                JsonValue::Array(out)
            },
            JsonValue::Object(members) => {
                let mut out: Vec<Member> = Vec::new();
                let mut i: usize = 0;
                while i < members.len()
                    invariant
                        i <= members.len(),
                        out@.len() == i,
                        forall|k: int| 0 <= k < i ==> out@[k]@ == members@[k]@,
                        self == JsonValue::Object(*members),
                    decreases members.len() - i,
                {
                    proof {
                        vstd::std_specs::vec::axiom_vec_index_decreases(*members, i as int);
                        assert(decreases_to!(*self => self->Object_0));
                    }
                    let key = members[i].key.clone();
                    let value = members[i].value.clone();
                    out.push(Member { key, value });
                    i = i + 1;
                }
                proof {
                    lemma_object_model(out);
                    lemma_object_model(*members);
                    assert(members_model(out@) =~= members_model(members@));
                }
                JsonValue::Object(out)
            },
        }
    }
}

impl Clone for Member {
    fn clone(&self) -> (r: Self)
        ensures
            r@ == self@,
    {
        Member { key: self.key.clone(), value: self.value.clone() }
    }
}

/// A copy of a run of trees.
pub fn clone_items(items: &Vec<JsonValue>) -> (r: Vec<JsonValue>)
    ensures
        items_model(r@) == items_model(items@),
{
    let mut out: Vec<JsonValue> = Vec::new();
    let mut i: usize = 0;
    while i < items.len()
        invariant
            i <= items.len(),
            out@.len() == i,
            forall|k: int| 0 <= k < i ==> out@[k]@ == items@[k]@,
        decreases items.len() - i,
    {
        out.push(items[i].clone());
        i = i + 1;
    }
    assert(items_model(out@) =~= items_model(items@));
    out
}

/// A copy of a run of members.
pub fn clone_members(members: &Vec<Member>) -> (r: Vec<Member>)
    ensures
        members_model(r@) == members_model(members@),
{
    let mut out: Vec<Member> = Vec::new();
    let mut i: usize = 0;
    while i < members.len()
        invariant
            i <= members.len(),
            out@.len() == i,
            forall|k: int| 0 <= k < i ==> out@[k]@ == members@[k]@,
        decreases members.len() - i,
    {
        out.push(members[i].clone());
        i = i + 1;
    }
    assert(members_model(out@) =~= members_model(members@));
    out
}

impl JsonValue {
    /// Whether the tree is the JSON `null`.
    pub fn is_null(&self) -> (r: bool)
        ensures
            r == (self@ == JsonModel::Null),
    {
        match self {
            JsonValue::Null => true,
            _ => false,
        }
    }
}

} // verus!
