//! JSON text: how a document tree is written, and how text is framed into
//! a tree.
//!
//! Writing is the library's own: brackets, braces, commas and colons around
//! the members in their order, without whitespace. Strings and numbers are
//! written by `serde_json`.
//!
//! Reading frames the outer levels of a document, which are the ones that
//! the codec judges: a top-level array, and an object at the top or directly
//! in that array, whose members are kept in document order, repeated keys
//! included. Each key and each member's value is read by `serde_json`.

use vstd::prelude::*;
use vstd::slice::slice_subrange;
use vstd::string::StringExecFns;
use crate::json::{
    items_model, lemma_array_model, lemma_object_model, members_model, JsonModel, JsonValue,
    Member,
};
use crate::outside::{
    json_prefix, number_text, print_number, print_string, read_value, string_text,
};

verus! {

/// The text of the first `n` of some values, with commas between them.
pub open spec fn joined_items(items: Seq<JsonModel>, n: nat) -> Option<Seq<char>>
    decreases items, n,
{
    if n == 0 {
        Some(Seq::empty())
    } else if n > items.len() {
        None
    } else {
        match joined_items(items, (n - 1) as nat) {
            None => None,
            Some(before) => match text_of(items[n - 1]) {
                None => None,
                Some(item) => Some(
                    if n == 1 {
                        item
                    } else {
                        before + ","@ + item
                    },
                ),
            },
        }
    }
}

/// The text of the first `n` of some members, each as its key, a colon and
/// its value, with commas between them.
pub open spec fn joined_members(members: Seq<(Seq<char>, JsonModel)>, n: nat) -> Option<
    Seq<char>,
>
    decreases members, n,
{
    if n == 0 {
        Some(Seq::empty())
    } else if n > members.len() {
        None
    } else {
        match joined_members(members, (n - 1) as nat) {
            None => None,
            Some(before) => match string_text(members[n - 1].0) {
                None => None,
                Some(key) => match text_of(members[n - 1].1) {
                    None => None,
                    Some(value) => Some(
                        if n == 1 {
                            key + ":"@ + value
                        } else {
                            before + ","@ + key + ":"@ + value
                        },
                    ),
                },
            },
        }
    }
}

/// The JSON text of a document tree, without whitespace; nothing where a
/// string or a number in it has no text.
pub open spec fn text_of(v: JsonModel) -> Option<Seq<char>>
    decreases v, 0nat,
{
    match v {
        JsonModel::Null => Some("null"@),
        JsonModel::Bool(b) => Some(
            if b {
                "true"@
            } else {
                "false"@
            },
        ),
        JsonModel::Number(n) => number_text(n),
        JsonModel::String(s) => string_text(s),
        JsonModel::Array(items) => match joined_items(items, items.len()) {
            None => None,
            Some(inner) => Some("["@ + inner + "]"@),
        },
        JsonModel::Object(members) => match joined_members(members, members.len()) {
            None => None,
            Some(inner) => Some("{"@ + inner + "}"@),
        },
    }
}

/// Where the first `k` values have no text, no longer run of them has.
pub proof fn lemma_joined_items_none(items: Seq<JsonModel>, k: nat, n: nat)
    requires
        k <= n,
        joined_items(items, k) is None,
    ensures
        joined_items(items, n) is None,
    decreases n,
{
    if k < n && n <= items.len() {
        lemma_joined_items_none(items, k, (n - 1) as nat);
    }
}

/// Where the first `k` members have no text, no longer run of them has.
pub proof fn lemma_joined_members_none(members: Seq<(Seq<char>, JsonModel)>, k: nat, n: nat)
    requires
        k <= n,
        joined_members(members, k) is None,
    ensures
        joined_members(members, n) is None,
    decreases n,
{
    if k < n && n <= members.len() {
        lemma_joined_members_none(members, k, (n - 1) as nat);
    }
}

/// Writes the JSON text of a tree behind what `out` holds. Where the tree
/// has no text the result is `false`, and `out` holds what was written up
/// to the string or number that has none.
fn write_value(v: &JsonValue, out: &mut String) -> (ok: bool)
    ensures
        match text_of(v@) {
            Some(t) => ok && final(out)@ == old(out)@ + t,
            None => !ok,
        },
    decreases v,
{
    let ghost start = out@;
    match v {
        JsonValue::Null => {
            out.append("null");
            true
        },
        JsonValue::Bool(b) => {
            if *b {
                out.append("true");
            } else {
                out.append("false");
            }
            true
        },
        JsonValue::Number(n) => match print_number(n) {
            Some(t) => {
                out.append(t.as_str());
                true
            },
            None => false,
        },
        JsonValue::String(s) => match print_string(s.as_str()) {
            Some(t) => {
                out.append(t.as_str());
                true
            },
            None => false,
        },
        JsonValue::Array(items) => {
            proof {
                lemma_array_model(*items);
            }
            let ghost all = items_model(items@);
            out.append("[");
            let mut i: usize = 0;
            assert(out@ =~= start + "["@ + Seq::empty());
            while i < items.len()
                invariant
                    i <= items.len(),
                    all == items_model(items@),
                    v@ == JsonModel::Array(all),
                    *v == JsonValue::Array(*items),
                    joined_items(all, i as nat) is Some,
                    out@ == start + "["@ + joined_items(all, i as nat)->Some_0,
                decreases items.len() - i,
            {
                let ghost before = joined_items(all, i as nat)->Some_0;
                if i > 0 {
                    out.append(",");
                }
                let ghost middle = out@;
                proof {
                    vstd::std_specs::vec::axiom_vec_index_decreases(*items, i as int);
                    assert(decreases_to!(*v => v->Array_0));
                    assert(all[i as int] == items@[i as int]@);
                }
                let ok = write_value(&items[i], out);
                if !ok {
                    proof {
                        lemma_joined_items_none(all, (i + 1) as nat, all.len());
                    }
                    return false;
                }
                proof {
                    let item = text_of(all[i as int])->Some_0;
                    if i == 0 {
                        assert(before =~= Seq::empty());
                        assert(out@ =~= start + "["@ + item);
                    } else {
                        assert(out@ =~= start + "["@ + (before + ","@ + item));
                    }
                }
                i = i + 1;
            }
            let ghost inner = joined_items(all, all.len())->Some_0;
            out.append("]");
            assert(out@ =~= start + ("["@ + inner + "]"@));
            true
        },
        JsonValue::Object(members) => {
            proof {
                lemma_object_model(*members);
            }
            let ghost all = members_model(members@);
            out.append("{");
            let mut i: usize = 0;
            assert(out@ =~= start + "{"@ + Seq::empty());
            while i < members.len()
                invariant
                    i <= members.len(),
                    all == members_model(members@),
                    v@ == JsonModel::Object(all),
                    *v == JsonValue::Object(*members),
                    joined_members(all, i as nat) is Some,
                    out@ == start + "{"@ + joined_members(all, i as nat)->Some_0,
                decreases members.len() - i,
            {
                let ghost before = joined_members(all, i as nat)->Some_0;
                proof {
                    assert(all[i as int] == members@[i as int]@);
                }
                let key = match print_string(members[i].key.as_str()) {
                    Some(key) => key,
                    None => {
                        proof {
                            lemma_joined_members_none(all, (i + 1) as nat, all.len());
                        }
                        return false;
                    },
                };
                if i > 0 {
                    out.append(",");
                }
                out.append(key.as_str());
                out.append(":");
                proof {
                    vstd::std_specs::vec::axiom_vec_index_decreases(*members, i as int);
                    assert(decreases_to!(*v => v->Object_0));
                }
                let ok = write_value(&members[i].value, out);
                if !ok {
                    proof {
                        lemma_joined_members_none(all, (i + 1) as nat, all.len());
                    }
                    return false;
                }
                proof {
                    let value = text_of(all[i as int].1)->Some_0;
                    if i == 0 {
                        assert(before =~= Seq::empty());
                        assert(out@ =~= start + "{"@ + (key@ + ":"@ + value));
                    } else {
                        assert(out@ =~= start + "{"@ + (before + ","@ + key@ + ":"@ + value));
                    }
                }
                i = i + 1;
            }
            let ghost inner = joined_members(all, all.len())->Some_0;
            out.append("}");
            assert(out@ =~= start + ("{"@ + inner + "}"@));
            true
        },
    }
}

/// The JSON text of a tree, without whitespace.
pub fn print(v: &JsonValue) -> (r: Option<String>)
    ensures
        match r {
            Some(t) => text_of(v@) == Some(t@),
            None => text_of(v@) is None,
        },
{
    let mut out = String::new();
    if write_value(v, &mut out) {
        assert(out@ =~= text_of(v@)->Some_0);
        Some(out)
    } else {
        None
    }
}

/// `,`
pub const COMMA: u8 = 0x2c;

/// `:`
pub const COLON: u8 = 0x3a;

/// `[`
pub const OPEN_BRACKET: u8 = 0x5b;

/// `]`
pub const CLOSE_BRACKET: u8 = 0x5d;

/// `{`
pub const OPEN_BRACE: u8 = 0x7b;

/// `}`
pub const CLOSE_BRACE: u8 = 0x7d;

/// Whether a byte is JSON whitespace: space, line feed, carriage return or
/// tab.
pub open spec fn is_space(b: u8) -> bool {
    b == 0x20 || b == 0x0a || b == 0x0d || b == 0x09
}

/// The first position from `pos` on that holds no whitespace, or the end.
pub open spec fn skip_spaces(bytes: Seq<u8>, pos: int) -> int
    decreases bytes.len() - pos,
{
    if 0 <= pos < bytes.len() && is_space(bytes[pos]) {
        skip_spaces(bytes, pos + 1)
    } else {
        pos
    }
}

/// Whether the byte at `pos` is `b`.
pub open spec fn byte_is(bytes: Seq<u8>, pos: int, b: u8) -> bool {
    0 <= pos < bytes.len() && bytes[pos] == b
}

/// The JSON value that `serde_json` reads from `pos` on, and the position
/// behind it. A value takes at least one byte and ends within the text.
pub open spec fn value_at(bytes: Seq<u8>, pos: int) -> Option<(JsonModel, int)> {
    if 0 <= pos <= bytes.len() {
        match json_prefix(bytes.subrange(pos, bytes.len() as int)) {
            Some((v, n)) => if 0 < n && pos + n <= bytes.len() {
                Some((v, pos + n))
            } else {
                None
            },
            None => None,
        }
    } else {
        None
    }
}

/// The member that starts at `pos`, a string, a colon and a value, and the
/// position of what follows it.
pub open spec fn member_at(bytes: Seq<u8>, pos: int) -> Option<((Seq<char>, JsonModel), int)> {
    match value_at(bytes, pos) {
        Some((JsonModel::String(key), behind_key)) => {
            let colon = skip_spaces(bytes, behind_key);
            if byte_is(bytes, colon, COLON) {
                match value_at(bytes, colon + 1) {
                    Some((value, behind)) => Some(((key, value), skip_spaces(bytes, behind))),
                    None => None,
                }
            } else {
                None
            }
        },
        _ => None,
    }
}

/// The members from `pos` to the closing brace, in document order, and the
/// position behind that brace.
pub open spec fn members_at(bytes: Seq<u8>, pos: int) -> Option<
    (Seq<(Seq<char>, JsonModel)>, int),
>
    decreases bytes.len() - pos,
    via members_at_decreases
{
    match member_at(bytes, pos) {
        None => None,
        Some((member, next)) => if byte_is(bytes, next, COMMA) {
            match members_at(bytes, next + 1) {
                Some((rest, end)) => Some((seq![member] + rest, end)),
                None => None,
            }
        } else if byte_is(bytes, next, CLOSE_BRACE) {
            Some((seq![member], next + 1))
        } else {
            None
        },
    }
}

#[via_fn]
proof fn members_at_decreases(bytes: Seq<u8>, pos: int) {
    lemma_member_at_advances(bytes, pos);
}

/// The object whose opening brace stands at `pos`, and the position behind
/// its closing brace.
pub open spec fn object_at(bytes: Seq<u8>, pos: int) -> Option<(JsonModel, int)> {
    let first = skip_spaces(bytes, pos + 1);
    if byte_is(bytes, first, CLOSE_BRACE) {
        Some((JsonModel::Object(Seq::empty()), first + 1))
    } else {
        match members_at(bytes, first) {
            Some((members, end)) => Some((JsonModel::Object(members), end)),
            None => None,
        }
    }
}

/// The item of a top-level array that starts at `pos`, and the position of
/// what follows it. An object is framed; anything else is read whole.
pub open spec fn element_at(bytes: Seq<u8>, pos: int) -> Option<(JsonModel, int)> {
    let start = skip_spaces(bytes, pos);
    let found = if byte_is(bytes, start, OPEN_BRACE) {
        object_at(bytes, start)
    } else {
        value_at(bytes, start)
    };
    match found {
        Some((v, behind)) => Some((v, skip_spaces(bytes, behind))),
        None => None,
    }
}

/// The items from `pos` to the closing bracket, in document order, and the
/// position behind that bracket.
pub open spec fn elements_at(bytes: Seq<u8>, pos: int) -> Option<(Seq<JsonModel>, int)>
    decreases bytes.len() - pos,
    via elements_at_decreases
{
    match element_at(bytes, pos) {
        None => None,
        Some((item, next)) => if byte_is(bytes, next, COMMA) {
            match elements_at(bytes, next + 1) {
                Some((rest, end)) => Some((seq![item] + rest, end)),
                None => None,
            }
        } else if byte_is(bytes, next, CLOSE_BRACKET) {
            Some((seq![item], next + 1))
        } else {
            None
        },
    }
}

#[via_fn]
proof fn elements_at_decreases(bytes: Seq<u8>, pos: int) {
    lemma_element_at_advances(bytes, pos);
}

/// The array whose opening bracket stands at `pos`, and the position behind
/// its closing bracket.
pub open spec fn array_at(bytes: Seq<u8>, pos: int) -> Option<(JsonModel, int)> {
    let first = skip_spaces(bytes, pos + 1);
    if byte_is(bytes, first, CLOSE_BRACKET) {
        Some((JsonModel::Array(Seq::empty()), first + 1))
    } else {
        match elements_at(bytes, first) {
            Some((items, end)) => Some((JsonModel::Array(items), end)),
            None => None,
        }
    }
}

/// The document that a text holds: one JSON value with nothing but
/// whitespace around it. Nothing where the text is not JSON.
pub open spec fn document(bytes: Seq<u8>) -> Option<JsonModel> {
    let start = skip_spaces(bytes, 0);
    let found = if byte_is(bytes, start, OPEN_BRACE) {
        object_at(bytes, start)
    } else if byte_is(bytes, start, OPEN_BRACKET) {
        array_at(bytes, start)
    } else {
        value_at(bytes, start)
    };
    match found {
        Some((v, behind)) => if skip_spaces(bytes, behind) == bytes.len() {
            Some(v)
        } else {
            None
        },
        None => None,
    }
}

/// Skipping whitespace moves forward, and not past the end.
pub proof fn lemma_skip_spaces_bounds(bytes: Seq<u8>, pos: int)
    requires
        0 <= pos <= bytes.len(),
    ensures
        pos <= skip_spaces(bytes, pos) <= bytes.len(),
    decreases bytes.len() - pos,
{
    if pos < bytes.len() && is_space(bytes[pos]) {
        lemma_skip_spaces_bounds(bytes, pos + 1);
    }
}

/// A member ends behind where it starts, within the text.
pub proof fn lemma_member_at_advances(bytes: Seq<u8>, pos: int)
    ensures
        member_at(bytes, pos) matches Some((_, next)) ==> 0 <= pos < next <= bytes.len(),
{
    match value_at(bytes, pos) {
        Some((JsonModel::String(_), behind_key)) => {
            lemma_skip_spaces_bounds(bytes, behind_key);
            let colon = skip_spaces(bytes, behind_key);
            if byte_is(bytes, colon, COLON) {
                match value_at(bytes, colon + 1) {
                    Some((_, behind)) => {
                        lemma_skip_spaces_bounds(bytes, behind);
                    },
                    None => {},
                }
            }
        },
        _ => {},
    }
}

/// The members of an object end behind where they start, within the text.
pub proof fn lemma_members_at_advances(bytes: Seq<u8>, pos: int)
    ensures
        members_at(bytes, pos) matches Some((_, end)) ==> 0 <= pos < end <= bytes.len(),
    decreases bytes.len() - pos,
{
    lemma_member_at_advances(bytes, pos);
    match member_at(bytes, pos) {
        Some((_, next)) => {
            if byte_is(bytes, next, COMMA) {
                lemma_members_at_advances(bytes, next + 1);
            }
        },
        None => {},
    }
}

/// An object ends behind where it starts, within the text.
pub proof fn lemma_object_at_advances(bytes: Seq<u8>, pos: int)
    requires
        byte_is(bytes, pos, OPEN_BRACE),
    ensures
        object_at(bytes, pos) matches Some((_, end)) ==> pos < end <= bytes.len(),
{
    lemma_skip_spaces_bounds(bytes, pos + 1);
    lemma_members_at_advances(bytes, skip_spaces(bytes, pos + 1));
}

/// An item ends behind where it starts, within the text.
pub proof fn lemma_element_at_advances(bytes: Seq<u8>, pos: int)
    ensures
        element_at(bytes, pos) matches Some((_, next)) ==> 0 <= pos < next <= bytes.len(),
{
    if 0 <= pos <= bytes.len() {
        lemma_skip_spaces_bounds(bytes, pos);
    }
    let start = skip_spaces(bytes, pos);
    if byte_is(bytes, start, OPEN_BRACE) {
        lemma_object_at_advances(bytes, start);
        match object_at(bytes, start) {
            Some((_, behind)) => lemma_skip_spaces_bounds(bytes, behind),
            None => {},
        }
    } else {
        match value_at(bytes, start) {
            Some((_, behind)) => lemma_skip_spaces_bounds(bytes, behind),
            None => {},
        }
    }
}

/// What was found so far, and then what is found from here on.
pub open spec fn prepended<T>(before: Seq<T>, found: Option<(Seq<T>, int)>) -> Option<
    (Seq<T>, int),
> {
    match found {
        Some((rest, end)) => Some((before + rest, end)),
        None => None,
    }
}

/// The first position from `pos` on that holds no whitespace, or the end.
pub fn skip_whitespace(bytes: &[u8], pos: usize) -> (r: usize)
    requires
        pos <= bytes@.len(),
    ensures
        r == skip_spaces(bytes@, pos as int),
        pos <= r <= bytes@.len(),
{
    let mut cur = pos;
    while cur < bytes.len() && (bytes[cur] == 0x20 || bytes[cur] == 0x0a || bytes[cur] == 0x0d
        || bytes[cur] == 0x09)
        invariant
            pos <= cur <= bytes@.len(),
            skip_spaces(bytes@, pos as int) == skip_spaces(bytes@, cur as int),
        decreases bytes@.len() - cur,
    {
        cur = cur + 1;
    }
    cur
}

/// Whether the byte at `pos` is `b`.
fn is_byte(bytes: &[u8], pos: usize, b: u8) -> (r: bool)
    ensures
        r == byte_is(bytes@, pos as int, b),
        bytes@.len() <= usize::MAX,
{
    pos < bytes.len() && bytes[pos] == b
}

/// Reads the JSON value that starts at `pos`.
fn read_value_at(bytes: &[u8], pos: usize) -> (r: Option<(JsonValue, usize)>)
    requires
        pos <= bytes@.len(),
    ensures
        match r {
            Some((v, end)) => value_at(bytes@, pos as int) == Some((v@, end as int)) && pos < end
                <= bytes@.len(),
            None => value_at(bytes@, pos as int) is None,
        },
{
    let rest = slice_subrange(bytes, pos, bytes.len());
    match read_value(rest) {
        Some((v, n)) => if 0 < n && n <= bytes.len() - pos {
            Some((v, pos + n))
        } else {
            None
        },
        None => None,
    }
}

/// Reads the member that starts at `pos`.
fn read_member(bytes: &[u8], pos: usize) -> (r: Option<(Member, usize)>)
    requires
        pos <= bytes@.len(),
    ensures
        match r {
            Some((m, next)) => member_at(bytes@, pos as int) == Some((m@, next as int)) && pos
                < next <= bytes@.len(),
            None => member_at(bytes@, pos as int) is None,
        },
{
    let (key, behind_key) = match read_value_at(bytes, pos) {
        Some((JsonValue::String(key), behind_key)) => (key, behind_key),
        _ => {
            return None;
        },
    };
    let colon = skip_whitespace(bytes, behind_key);
    if !is_byte(bytes, colon, COLON) {
        return None;
    }
    match read_value_at(bytes, colon + 1) {
        Some((value, behind)) => Some((Member { key, value }, skip_whitespace(bytes, behind))),
        None => None,
    }
}

/// Reads the members from `pos` to the closing brace.
fn read_members(bytes: &[u8], pos: usize) -> (r: Option<(Vec<Member>, usize)>)
    requires
        pos <= bytes@.len(),
    ensures
        match r {
            Some((m, end)) => members_at(bytes@, pos as int) == Some(
                (members_model(m@), end as int),
            ) && pos < end <= bytes@.len(),
            None => members_at(bytes@, pos as int) is None,
        },
{
    let mut found: Vec<Member> = Vec::new();
    let mut cur = pos;
    assert(members_model(found@) + members_at(bytes@, cur as int)->Some_0.0
        =~= members_at(bytes@, cur as int)->Some_0.0);
    loop
        invariant
            pos <= cur <= bytes@.len(),
            members_at(bytes@, pos as int) == prepended(
                members_model(found@),
                members_at(bytes@, cur as int),
            ),
        decreases bytes@.len() - cur,
    {
        let ghost before = members_model(found@);
        match read_member(bytes, cur) {
            None => {
                return None;
            },
            Some((member, next)) => {
                if is_byte(bytes, next, COMMA) {
                    found.push(member);
                    proof {
                        assert(members_model(found@) =~= before.push(member@));
                        let later = members_at(bytes@, next + 1);
                        if later is Some {
                            assert(before + (seq![member@] + later->Some_0.0) =~= before.push(
                                member@,
                            ) + later->Some_0.0);
                        }
                    }
                    cur = next + 1;
                } else if is_byte(bytes, next, CLOSE_BRACE) {
                    found.push(member);
                    proof {
                        assert(members_model(found@) =~= before + seq![member@]);
                    }
                    return Some((found, next + 1));
                } else {
                    return None;
                }
            },
        }
    }
}

/// Reads the object whose opening brace stands at `pos`.
fn read_object(bytes: &[u8], pos: usize) -> (r: Option<(JsonValue, usize)>)
    requires
        byte_is(bytes@, pos as int, OPEN_BRACE),
        bytes@.len() <= usize::MAX,
    ensures
        match r {
            Some((v, end)) => object_at(bytes@, pos as int) == Some((v@, end as int)) && pos < end
                <= bytes@.len(),
            None => object_at(bytes@, pos as int) is None,
        },
{
    let first = skip_whitespace(bytes, pos + 1);
    if is_byte(bytes, first, CLOSE_BRACE) {
        let members: Vec<Member> = Vec::new();
        proof {
            lemma_object_model(members);
            assert(members_model(members@) =~= Seq::empty());
        }
        Some((JsonValue::Object(members), first + 1))
    } else {
        match read_members(bytes, first) {
            Some((members, end)) => {
                proof {
                    lemma_object_model(members);
                }
                Some((JsonValue::Object(members), end))
            },
            None => None,
        }
    }
}

/// Reads the item of a top-level array that starts at `pos`.
fn read_element(bytes: &[u8], pos: usize) -> (r: Option<(JsonValue, usize)>)
    requires
        pos <= bytes@.len(),
    ensures
        match r {
            Some((v, next)) => element_at(bytes@, pos as int) == Some((v@, next as int)) && pos
                < next <= bytes@.len(),
            None => element_at(bytes@, pos as int) is None,
        },
{
    let start = skip_whitespace(bytes, pos);
    let found = if is_byte(bytes, start, OPEN_BRACE) {
        read_object(bytes, start)
    } else {
        read_value_at(bytes, start)
    };
    match found {
        Some((v, behind)) => Some((v, skip_whitespace(bytes, behind))),
        None => None,
    }
}

/// Reads the items from `pos` to the closing bracket.
fn read_elements(bytes: &[u8], pos: usize) -> (r: Option<(Vec<JsonValue>, usize)>)
    requires
        pos <= bytes@.len(),
    ensures
        match r {
            Some((items, end)) => elements_at(bytes@, pos as int) == Some(
                (items_model(items@), end as int),
            ) && pos < end <= bytes@.len(),
            None => elements_at(bytes@, pos as int) is None,
        },
{
    let mut found: Vec<JsonValue> = Vec::new();
    let mut cur = pos;
    assert(items_model(found@) + elements_at(bytes@, cur as int)->Some_0.0 =~= elements_at(
        bytes@,
        cur as int,
    )->Some_0.0);
    loop
        invariant
            pos <= cur <= bytes@.len(),
            elements_at(bytes@, pos as int) == prepended(
                items_model(found@),
                elements_at(bytes@, cur as int),
            ),
        decreases bytes@.len() - cur,
    {
        let ghost before = items_model(found@);
        match read_element(bytes, cur) {
            None => {
                return None;
            },
            Some((item, next)) => {
                if is_byte(bytes, next, COMMA) {
                    found.push(item);
                    proof {
                        assert(items_model(found@) =~= before.push(item@));
                        let later = elements_at(bytes@, next + 1);
                        if later is Some {
                            assert(before + (seq![item@] + later->Some_0.0) =~= before.push(item@)
                                + later->Some_0.0);
                        }
                    }
                    cur = next + 1;
                } else if is_byte(bytes, next, CLOSE_BRACKET) {
                    found.push(item);
                    proof {
                        assert(items_model(found@) =~= before + seq![item@]);
                    }
                    return Some((found, next + 1));
                } else {
                    return None;
                }
            },
        }
    }
}

/// Reads the array whose opening bracket stands at `pos`.
fn read_array(bytes: &[u8], pos: usize) -> (r: Option<(JsonValue, usize)>)
    requires
        byte_is(bytes@, pos as int, OPEN_BRACKET),
        bytes@.len() <= usize::MAX,
    ensures
        match r {
            Some((v, end)) => array_at(bytes@, pos as int) == Some((v@, end as int)) && pos < end
                <= bytes@.len(),
            None => array_at(bytes@, pos as int) is None,
        },
{
    let first = skip_whitespace(bytes, pos + 1);
    if is_byte(bytes, first, CLOSE_BRACKET) {
        let items: Vec<JsonValue> = Vec::new();
        proof {
            lemma_array_model(items);
            assert(items_model(items@) =~= Seq::empty());
        }
        Some((JsonValue::Array(items), first + 1))
    } else {
        match read_elements(bytes, first) {
            Some((items, end)) => {
                proof {
                    lemma_array_model(items);
                }
                Some((JsonValue::Array(items), end))
            },
            None => None,
        }
    }
}

/// Reads the document that a text holds.
pub fn parse_bytes(bytes: &[u8]) -> (r: Option<JsonValue>)
    ensures
        match r {
            Some(v) => document(bytes@) == Some(v@),
            None => document(bytes@) is None,
        },
{
    let start = skip_whitespace(bytes, 0);
    let found = if is_byte(bytes, start, OPEN_BRACE) {
        read_object(bytes, start)
    } else if is_byte(bytes, start, OPEN_BRACKET) {
        read_array(bytes, start)
    } else {
        read_value_at(bytes, start)
    };
    match found {
        Some((v, behind)) => if skip_whitespace(bytes, behind) == bytes.len() {
            Some(v)
        } else {
            None
        },
        None => None,
    }
}

} // verus!
