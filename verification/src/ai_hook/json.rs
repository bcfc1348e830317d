//! JSON documents as plain values.

use vstd::prelude::*;

use crate::text;

verus! {

/// A JSON document. Numbers keep their text; the keys of an object are in
/// order.
pub enum Json {
    Null,
    Bool(bool),
    Number(String),
    Str(String),
    Array(Vec<Json>),
    Object(Vec<(String, Json)>),
}

/// A JSON document, as a value.
pub enum Doc {
    Null,
    Bool(bool),
    Number(Seq<char>),
    Str(Seq<char>),
    Array(Seq<Doc>),
    Object(Seq<(Seq<char>, Doc)>),
}

impl Json {
    pub open spec fn value(self) -> Doc
        decreases self,
    {
        match self {
            Json::Null => Doc::Null,
            Json::Bool(b) => Doc::Bool(b),
            Json::Number(s) => Doc::Number(s@),
            Json::Str(s) => Doc::Str(s@),
            Json::Array(v) => Doc::Array(
                Seq::new(
                    v@.len(),
                    |i: int|
                        if 0 <= i < v@.len() {
                            v@[i].value()
                        } else {
                            Doc::Null
                        },
                ),
            ),
            Json::Object(v) => Doc::Object(
                Seq::new(
                    v@.len(),
                    |i: int|
                        if 0 <= i < v@.len() {
                            (v@[i].0@, v@[i].1.value())
                        } else {
                            (Seq::empty(), Doc::Null)
                        },
                ),
            ),
        }
    }
}

/// The values of a list of documents.
pub open spec fn values(v: Seq<Json>) -> Seq<Doc> {
    v.map_values(|j: Json| j.value())
}

pub open spec fn pair_value(p: (String, Json)) -> (Seq<char>, Doc) {
    (p.0@, p.1.value())
}

/// The keys and values of an object.
pub open spec fn pairs(v: Seq<(String, Json)>) -> Seq<(Seq<char>, Doc)> {
    v.map_values(|p: (String, Json)| pair_value(p))
}

/// The value of a list is the list of its values.
pub proof fn lemma_array_value(v: Vec<Json>)
    ensures
        Json::Array(v).value() == Doc::Array(values(v@)),
{
    match Json::Array(v).value() {
        Doc::Array(s) => {
            assert(s =~= values(v@));
        },
        _ => {},
    }
}

/// The value of an object is the list of its keys and values.
pub proof fn lemma_object_value(v: Vec<(String, Json)>)
    ensures
        Json::Object(v).value() == Doc::Object(pairs(v@)),
{
    match Json::Object(v).value() {
        Doc::Object(s) => {
            assert(s =~= pairs(v@));
        },
        _ => {},
    }
}

/// Where `key` stands among the keys of an object, from `i` on.
pub open spec fn key_from(pairs: Seq<(Seq<char>, Doc)>, key: Seq<char>, i: int) -> Option<int>
    decreases pairs.len() - i,
{
    if i < 0 || i >= pairs.len() {
        None
    } else if pairs[i].0 == key {
        Some(i)
    } else {
        key_from(pairs, key, i + 1)
    }
}

/// Where `key` stands among the keys of an object.
pub open spec fn key_at(pairs: Seq<(Seq<char>, Doc)>, key: Seq<char>) -> Option<int> {
    key_from(pairs, key, 0)
}

/// The value under `key`, if the document is an object that has it.
pub open spec fn get(doc: Doc, key: Seq<char>) -> Option<Doc> {
    match doc {
        Doc::Object(pairs) => match key_at(pairs, key) {
            Some(i) => Some(pairs[i].1),
            None => None,
        },
        _ => None,
    }
}

/// Where a new key goes among the keys of an object, from `i` on: in front of
/// the first one that sorts behind it.
pub open spec fn slot_from(pairs: Seq<(Seq<char>, Doc)>, key: Seq<char>, i: int) -> int
    decreases pairs.len() - i,
{
    if i < 0 || i >= pairs.len() {
        pairs.len() as int
    } else if text::lex_lt(key, pairs[i].0) {
        i
    } else {
        slot_from(pairs, key, i + 1)
    }
}

/// Where a new key goes among the keys of an object.
pub open spec fn slot_of(pairs: Seq<(Seq<char>, Doc)>, key: Seq<char>) -> int {
    slot_from(pairs, key, 0)
}

proof fn lemma_slot(pairs: Seq<(Seq<char>, Doc)>, key: Seq<char>, i: int)
    requires
        0 <= i <= pairs.len(),
    ensures
        i <= slot_from(pairs, key, i) <= pairs.len(),
        forall|j: int|
            i <= j < slot_from(pairs, key, i) ==> !text::lex_lt(key, (#[trigger] pairs[j]).0),
        slot_from(pairs, key, i) < pairs.len() ==> text::lex_lt(
            key,
            pairs[slot_from(pairs, key, i)].0,
        ),
    decreases pairs.len() - i,
{
    if i < pairs.len() && !text::lex_lt(key, pairs[i].0) {
        lemma_slot(pairs, key, i + 1);
    }
}

/// `pairs` with `value` under `key`: in the place of the old value, or where the
/// key sorts.
pub open spec fn put(pairs: Seq<(Seq<char>, Doc)>, key: Seq<char>, value: Doc) -> Seq<
    (Seq<char>, Doc),
> {
    match key_at(pairs, key) {
        Some(i) => pairs.update(i, (key, value)),
        None => pairs.insert(slot_of(pairs, key), (key, value)),
    }
}

/// `key_from` names the first place of a key.
pub proof fn lemma_key_from(pairs: Seq<(Seq<char>, Doc)>, key: Seq<char>, i: int)
    requires
        0 <= i,
    ensures
        match key_from(pairs, key, i) {
            Some(k) => i <= k < pairs.len() && pairs[k].0 == key && forall|j: int|
                i <= j < k ==> (#[trigger] pairs[j]).0 != key,
            None => forall|j: int| i <= j < pairs.len() ==> (#[trigger] pairs[j]).0 != key,
        },
    decreases pairs.len() - i,
{
    if i < pairs.len() && pairs[i].0 != key {
        lemma_key_from(pairs, key, i + 1);
    }
}

/// The first place of a key is the one that `key_from` names.
pub proof fn lemma_key_found(pairs: Seq<(Seq<char>, Doc)>, key: Seq<char>, i: int, k: int)
    requires
        0 <= i <= k < pairs.len(),
        pairs[k].0 == key,
        forall|j: int| i <= j < k ==> (#[trigger] pairs[j]).0 != key,
    ensures
        key_from(pairs, key, i) == Some(k),
    decreases k - i,
{
    if i < k {
        assert(pairs[i].0 != key);
        lemma_key_found(pairs, key, i + 1, k);
    }
}

/// What was put under a key is found there, the other keys keep their values,
/// and putting what is there already changes nothing.
pub proof fn lemma_put(pairs: Seq<(Seq<char>, Doc)>, key: Seq<char>, value: Doc, other: Seq<char>)
    ensures
        get(Doc::Object(put(pairs, key, value)), key) == Some(value),
        other != key ==> get(Doc::Object(put(pairs, key, value)), other) == get(
            Doc::Object(pairs),
            other,
        ),
        put(pairs, key, value) == pairs <==> get(Doc::Object(pairs), key) == Some(value),
        put(put(pairs, key, value), key, value) == put(pairs, key, value),
{
    let new = put(pairs, key, value);
    lemma_key_from(pairs, key, 0);
    lemma_key_from(pairs, other, 0);
    let slot = slot_of(pairs, key);
    lemma_slot(pairs, key, 0);
    match key_at(pairs, key) {
        Some(i) => {
            lemma_key_found(new, key, 0, i);
            assert(new.update(i, (key, value)) =~= new);
            assert(new[i] == (key, value));
            if pairs[i].1 == value {
                assert(new =~= pairs);
            }
        },
        None => {
            assert(new[slot] == (key, value));
            assert forall|j: int| 0 <= j < slot implies (#[trigger] new[j]).0 != key by {
                assert(new[j] == pairs[j]);
            }
            lemma_key_found(new, key, 0, slot);
            assert(new.update(slot, (key, value)) =~= new);
            assert(new.len() != pairs.len());
        },
    }
    if other != key {
        match key_at(pairs, other) {
            Some(k) => {
                let at = if key_at(pairs, key) is None && slot <= k {
                    k + 1
                } else {
                    k
                };
                assert(new[at] == pairs[k]);
                assert forall|j: int| 0 <= j < at implies (#[trigger] new[j]).0 != other by {
                    if key_at(pairs, key) is None && j > slot {
                        assert(new[j] == pairs[j - 1]);
                    } else if !(key_at(pairs, key) is None && j == slot) {
                        assert(pairs[j].0 != other);
                    }
                }
                lemma_key_found(new, other, 0, at);
            },
            None => {
                lemma_key_from(new, other, 0);
                if let Some(k) = key_at(new, other) {
                    if key_at(pairs, key) is None && k > slot {
                        assert(new[k] == pairs[k - 1]);
                    } else if k < pairs.len() {
                        assert(pairs[k].0 == other);
                    }
                }
            },
        }
    }
}

/// `serde_json::Value`.
#[verifier::external_type_specification]
#[verifier::external_body]
pub struct ExValue(serde_json::Value);

/// A parsed `serde_json::Value` as a document: variant by variant, a number as
/// its text, the keys of an object in the order in which the map is walked.
/// Nothing is said of it here; [`read_json`] hands its result on.
#[verifier::external_body]
fn json_of(value: serde_json::Value) -> Json {
    match value {
        serde_json::Value::Null => Json::Null,
        serde_json::Value::Bool(b) => Json::Bool(b),
        serde_json::Value::Number(n) => Json::Number(n.to_string()),
        serde_json::Value::String(s) => Json::Str(s),
        serde_json::Value::Array(items) => Json::Array(items.into_iter().map(json_of).collect()),
        serde_json::Value::Object(map) => {
            Json::Object(map.into_iter().map(|(key, item)| (key, json_of(item))).collect())
        },
    }
}

/// A document as a `serde_json::Value`: variant by variant, a number from its
/// text. Nothing is said of it here; [`write_json`] takes it.
#[verifier::external_body]
fn value_of(doc: &Json) -> serde_json::Value {
    match doc {
        Json::Null => serde_json::Value::Null,
        Json::Bool(b) => serde_json::Value::Bool(*b),
        Json::Number(n) => n.parse().map_or(serde_json::Value::Null, serde_json::Value::Number),
        Json::Str(s) => serde_json::Value::String(s.clone()),
        Json::Array(items) => serde_json::Value::Array(items.iter().map(value_of).collect()),
        Json::Object(pairs) => {
            pairs.iter().map(|(key, item)| (key.clone(), value_of(item))).collect()
        },
    }
}

/// The document that a text holds, where it is JSON.
pub uninterp spec fn json_doc(raw: Seq<char>) -> Option<Doc>;

pub open spec fn optional_doc(doc: Option<Json>) -> Option<Doc> {
    match doc {
        Some(doc) => Some(doc.value()),
        None => None,
    }
}

/// `serde_json::from_str`: the document in `raw`, where it is JSON.
#[verifier::external_body]
pub(crate) fn read_json(raw: &str) -> (r: Option<Json>)
    ensures
        optional_doc(r) == json_doc(raw@),
{
    serde_json::from_str::<serde_json::Value>(raw).ok().map(json_of)
}

/// The indented text of a document.
pub uninterp spec fn json_pretty(doc: Doc) -> Seq<char>;

/// Whether a number is a whole one that a machine word holds, in its usual
/// notation.
pub open spec fn is_whole(number: Seq<char>) -> bool {
    (exists|n: u64| number == #[trigger] text::digits_of(n as nat)) || (exists|n: u64|
        0 < n < 0x8000_0000_0000_0000 && number == seq!['-'] + #[trigger] text::digits_of(
            n as nat,
        ))
}

/// Whether the keys of an object are distinct and sorted.
pub open spec fn keys_ascend(pairs: Seq<(Seq<char>, Doc)>) -> bool {
    forall|i: int, j: int|
        0 <= i < j < pairs.len() ==> text::lex_lt((#[trigger] pairs[i]).0, (#[trigger] pairs[j]).0)
}

/// Whether a document is nested at most `depth` deep, with sorted keys and whole
/// numbers only.
pub open spec fn is_settled(doc: Doc, depth: nat) -> bool
    decreases depth,
{
    match doc {
        Doc::Number(t) => is_whole(t),
        Doc::Array(items) => depth > 0 && forall|i: int|
            0 <= i < items.len() ==> is_settled(#[trigger] items[i], (depth - 1) as nat),
        Doc::Object(pairs) => depth > 0 && keys_ascend(pairs) && forall|i: int|
            0 <= i < pairs.len() ==> is_settled((#[trigger] pairs[i]).1, (depth - 1) as nat),
        _ => true,
    }
}

/// `serde_json::to_string_pretty`: the document as indented text. It does not
/// fail on a `serde_json::Value`. A document with sorted keys and whole numbers
/// that is nested at most 127 deep reads back; of other documents nothing is said,
/// as maps sort their keys and fractions may be read with a rounding error.
#[verifier::external_body]
pub(crate) fn write_json(doc: &Json) -> (r: String)
    ensures
        r@ == json_pretty(doc.value()),
        is_settled(doc.value(), 127) ==> json_doc(r@) == Some(doc.value()),
{
    serde_json::to_string_pretty(&value_of(doc)).unwrap_or_default()
}

/// What becomes of a settings file.
pub enum JsonEdit {
    /// The text is not JSON, and left alone.
    Invalid,
    /// The document has an unexpected shape, and is left alone.
    Refused,
    /// There is nothing to change.
    Keep,
    /// The file has to be written with this text.
    Write(String),
}

/// Whether what is written reads back, where that is promised.
pub open spec fn reads_back(r: JsonEdit, after: Option<Doc>) -> bool {
    match (r, after) {
        (JsonEdit::Write(text), Some(new)) => is_settled(new, 127) ==> json_doc(text@) == Some(new),
        _ => true,
    }
}

/// Whether a file is dealt with as it has to be, where `before` is the document
/// in it and `after` what has to become of it, if its shape is expected.
pub open spec fn is_edit(r: JsonEdit, before: Option<Doc>, after: Option<Doc>) -> bool {
    match (before, after) {
        (None, _) => r is Invalid,
        (Some(_), None) => r is Refused,
        (Some(doc), Some(new)) => if new == doc {
            r is Keep
        } else {
            r matches JsonEdit::Write(text) && text@ == json_pretty(new)
        },
    }
}

/// What stands under a key of a settled object is settled.
pub proof fn lemma_settled_get(doc: Doc, key: Seq<char>, depth: nat)
    requires
        is_settled(doc, depth),
        get(doc, key) is Some,
    ensures
        depth > 0,
        is_settled(get(doc, key)->0, (depth - 1) as nat),
{
    let pairs = doc->Object_0;
    lemma_key_from(pairs, key, 0);
    let i = key_at(pairs, key)->0;
    assert(is_settled(pairs[i].1, (depth - 1) as nat));
}

/// A settled value put into a settled object leaves it settled.
pub proof fn lemma_settled_put(
    pairs: Seq<(Seq<char>, Doc)>,
    key: Seq<char>,
    value: Doc,
    depth: nat,
)
    requires
        is_settled(Doc::Object(pairs), depth),
        depth > 0,
        is_settled(value, (depth - 1) as nat),
    ensures
        is_settled(Doc::Object(put(pairs, key, value)), depth),
{
    let new = put(pairs, key, value);
    let slot = slot_of(pairs, key);
    lemma_key_from(pairs, key, 0);
    lemma_slot(pairs, key, 0);
    match key_at(pairs, key) {
        Some(k) => {
            assert forall|i: int| 0 <= i < new.len() implies is_settled(
                (#[trigger] new[i]).1,
                (depth - 1) as nat,
            ) by {
                assert(is_settled(pairs[i].1, (depth - 1) as nat));
            }
            assert forall|i: int, j: int| 0 <= i < j < new.len() implies text::lex_lt(
                (#[trigger] new[i]).0,
                (#[trigger] new[j]).0,
            ) by {
                assert(text::lex_lt(pairs[i].0, pairs[j].0));
            }
        },
        None => {
            assert forall|i: int| 0 <= i < new.len() implies is_settled(
                (#[trigger] new[i]).1,
                (depth - 1) as nat,
            ) by {
                if i < slot {
                    assert(new[i] == pairs[i]);
                } else if i > slot {
                    assert(new[i] == pairs[i - 1]);
                }
            }
            assert forall|i: int, j: int| 0 <= i < j < new.len() implies text::lex_lt(
                (#[trigger] new[i]).0,
                (#[trigger] new[j]).0,
            ) by {
                let a = if i < slot {
                    i
                } else {
                    i - 1
                };
                let b = if j < slot {
                    j
                } else {
                    j - 1
                };
                if i != slot {
                    assert(new[i] == pairs[a]);
                }
                if j != slot {
                    assert(new[j] == pairs[b]);
                }
                if i != slot && j != slot {
                    assert(text::lex_lt(pairs[a].0, pairs[b].0));
                } else if j == slot {
                    text::lemma_lex_total(pairs[a].0, key);
                    assert(pairs[a].0 != key);
                } else {
                    // Behind the slot stands what sorts behind the key.
                    text::lemma_lex_total(key, pairs[b].0);
                    assert(pairs[b].0 != key);
                    if slot < b {
                        assert(text::lex_lt(pairs[slot].0, pairs[b].0));
                        text::lemma_lex_total(key, pairs[slot].0);
                        text::lemma_lex_total(pairs[slot].0, pairs[b].0);
                        text::lemma_lex_transitive(key, pairs[slot].0, pairs[b].0);
                    }
                }
            }
        },
    }
}

/// Puts a value under a key that is not there yet.
pub(crate) fn insert_key(v: &mut Vec<(String, Json)>, key: &str, value: Json)
    requires
        key_at(pairs(old(v)@), key@) is None,
    ensures
        pairs(final(v)@) == put(pairs(old(v)@), key@, value.value()),
        final(v)@.len() == old(v)@.len() + 1,
{
    let k = text::chars_of(key);
    let mut i: usize = 0;
    while i < v.len()
        invariant_except_break
            slot_of(pairs(v@), key@) == slot_from(pairs(v@), key@, i as int),
        invariant
            i <= v@.len(),
            k@ == key@,
            v@ == old(v)@,
        ensures
            slot_of(pairs(v@), key@) == i,
        decreases v@.len() - i,
    {
        assert(pairs(v@)[i as int].0 == v@[i as int].0@);
        if text::lex_less(k.as_slice(), text::chars_of(v[i].0.as_str()).as_slice()) {
            break;
        }
        i += 1;
    }
    let ghost before = pairs(v@);
    v.insert(i, (key.to_owned(), value));
    assert(pairs(v@) =~= before.insert(i as int, (key@, value.value())));
}

/// Where `key` stands in an object.
pub(crate) fn find_key(v: &Vec<(String, Json)>, key: &str) -> (r: Option<usize>)
    ensures
        match r {
            Some(i) => i < v@.len() && key_at(pairs(v@), key@) == Some(i as int),
            None => key_at(pairs(v@), key@) is None,
        },
{
    let mut i: usize = 0;
    while i < v.len()
        invariant
            i <= v@.len(),
            key_at(pairs(v@), key@) == key_from(pairs(v@), key@, i as int),
        decreases v@.len() - i,
    {
        assert(pairs(v@)[i as int].0 == v@[i as int].0@);
        if text::str_eq(v[i].0.as_str(), key) {
            return Some(i);
        }
        i += 1;
    }
    None
}

/// Replaces the value at `i`, which stands under `key`.
pub(crate) fn replace_at(v: &mut Vec<(String, Json)>, i: usize, value: Json)
    requires
        i < old(v)@.len(),
    ensures
        pairs(final(v)@) == pairs(old(v)@).update(i as int, (old(v)@[i as int].0@, value.value())),
{
    let (key, _old) = v.remove(i);
    v.insert(i, (key, value));
    assert(pairs(v@) =~= pairs(old(v)@).update(i as int, (old(v)@[i as int].0@, value.value())));
}

} // verus!
