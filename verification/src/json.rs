//! JSON documents as the message codec reads and writes them.
//!
//! The text form of a document is `serde_json`'s. This module holds the tree
//! that the codec works on and the calls that turn text into a tree and back.

use vstd::prelude::*;

verus! {

/// A JSON document. A number is kept as its decimal text: no message holds one.
#[derive(Debug)]
pub enum Json {
    Null,
    Bool(bool),
    Number(String),
    Str(String),
    Array(Vec<Json>),
    Object(Vec<Member>),
}

/// One member of an object: a key and the document under it.
#[derive(Debug)]
pub struct Member {
    pub key: String,
    pub value: Json,
}

/// The mathematical value of a [`Json`] document.
#[verifier::ext_equal]
pub ghost enum JsonView {
    Null,
    Bool(bool),
    Number(Seq<char>),
    Str(Seq<char>),
    Array(Seq<JsonView>),
    Object(Seq<(Seq<char>, JsonView)>),
}

/// The members whose keys are `keys` and whose documents are `values`, place
/// by place.
pub open spec fn pair_up(keys: Seq<Seq<char>>, values: Seq<JsonView>) -> Seq<(Seq<char>, JsonView)> {
    Seq::new(keys.len(), |i: int| (keys[i], values[i]))
}

impl View for Json {
    type V = JsonView;

    open spec fn view(&self) -> JsonView
        decreases self,
    {
        match self {
            Json::Null => JsonView::Null,
            Json::Bool(b) => JsonView::Bool(*b),
            Json::Number(n) => JsonView::Number(n@),
            Json::Str(s) => JsonView::Str(s@),
            Json::Array(items) => JsonView::Array(
                Seq::new(
                    items.len() as nat,
                    |i: int|
                        if 0 <= i < items.len() {
                            items[i]@
                        } else {
                            JsonView::Null
                        },
                ),
            ),
            Json::Object(members) => JsonView::Object(
                pair_up(
                    Seq::new(members.len() as nat, |i: int| members[i].key@),
                    Seq::new(
                        members.len() as nat,
                        |i: int|
                            if 0 <= i < members.len() {
                                members[i].value@
                            } else {
                                JsonView::Null
                            },
                    ),
                ),
            ),
        }
    }
}

/// `serde_json::Value`, the tree that `serde_json` reads and writes. Nothing
/// is said of what is inside: it is turned into a [`Json`] at once.
#[verifier::external_type_specification]
#[verifier::external_body]
pub struct ExValue(serde_json::Value);

/// `serde_json::Error`, which says why a text is no JSON document. Nothing
/// is said of what is inside.
#[verifier::external_type_specification]
#[verifier::external_body]
pub struct ExError(serde_json::Error);

/// Whether no number occurs in a document.
pub open spec fn number_free(doc: JsonView) -> bool
    decreases doc,
{
    match doc {
        JsonView::Number(_) => false,
        JsonView::Array(items) => forall|i: int| 0 <= i < items.len() ==> number_free(#[trigger] items[i]),
        JsonView::Object(members) => forall|i: int|
            0 <= i < members.len() ==> number_free((#[trigger] members[i]).1),
        _ => true,
    }
}

/// The document that `serde_json::from_str` reads from a text, if it reads
/// one. The members of an object stand in the order of the text; of members
/// with the same key the last one counts, at the place of the first.
pub uninterp spec fn json_parse(text: Seq<char>) -> Option<JsonView>;

/// The compact text that `serde_json::to_string` writes for a document.
pub uninterp spec fn json_text(doc: JsonView) -> Seq<char>;

/// The half of [`parse_json`] that moves a `serde_json::Value` into a
/// [`Json`], variant by variant. A number is moved as the text that its
/// `Display` gives.
#[verifier::external_body]
fn json_of_value(value: serde_json::Value) -> Json {
    match value {
        serde_json::Value::Null => Json::Null,
        serde_json::Value::Bool(b) => Json::Bool(b),
        serde_json::Value::Number(n) => Json::Number(n.to_string()),
        serde_json::Value::String(s) => Json::Str(s),
        serde_json::Value::Array(items) => Json::Array(items.into_iter().map(json_of_value).collect()),
        serde_json::Value::Object(members) => Json::Object(
            members.into_iter().map(|(key, v)| Member { key, value: json_of_value(v) }).collect(),
        ),
    }
}

/// `serde_json::from_str` at `serde_json::Value`: the document read from
/// `text`, or the error where `text` is no JSON document. What is read
/// depends on the text alone.
#[verifier::external_body]
pub(crate) fn parse_json(text: &str) -> (r: Result<Json, serde_json::Error>)
    ensures
        r matches Ok(doc) ==> json_parse(text@) == Some(doc@),
        r is Err ==> json_parse(text@) is None,
{
    serde_json::from_str::<serde_json::Value>(text).map(json_of_value)
}

/// The half of [`print_json`] that moves a [`Json`] into a
/// `serde_json::Value`, variant by variant. A number is kept as text here and
/// has no `Value`: a document that holds one is not moved.
#[verifier::external_body]
fn value_of_json(doc: &Json) -> Option<serde_json::Value> {
    Some(match doc {
        Json::Null => serde_json::Value::Null,
        Json::Bool(b) => serde_json::Value::Bool(*b),
        Json::Number(_) => return None,
        Json::Str(s) => serde_json::Value::String(s.clone()),
        Json::Array(items) => serde_json::Value::Array(
            items.iter().map(value_of_json).collect::<Option<_>>()?,
        ),
        Json::Object(members) => serde_json::Value::Object(
            members.iter().map(|m| Some((m.key.clone(), value_of_json(&m.value)?))).collect::<Option<_>>()?,
        ),
    })
}

/// `serde_json::to_string` at `serde_json::Value`: the compact text of a
/// document. What is written depends on the document alone. Writing fails
/// only where a value refuses to be written or a key is no text; a `Value`
/// does neither, so a document without numbers always has its text.
#[verifier::external_body]
pub(crate) fn print_json(doc: &Json) -> (r: Option<String>)
    ensures
        r matches Some(text) ==> text@ == json_text(doc@),
        number_free(doc@) ==> r is Some,
{
    value_of_json(doc).and_then(|value| serde_json::to_string(&value).ok())
}

/// The value of each item, in order.
pub open spec fn items_view(items: Seq<Json>) -> Seq<JsonView> {
    Seq::new(items.len(), |i: int| items[i]@)
}

/// The value of each member, in order.
pub open spec fn members_view(members: Seq<Member>) -> Seq<(Seq<char>, JsonView)> {
    Seq::new(members.len(), |i: int| (members[i].key@, members[i].value@))
}

/// The value of an array is the array of its items' values.
pub proof fn lemma_array_view(items: Vec<Json>)
    ensures
        Json::Array(items)@ == JsonView::Array(items_view(items@)),
{
    assert(Json::Array(items)@->Array_0 =~= items_view(items@));
}

/// The value of an object is the object of its members' values.
pub proof fn lemma_object_view(members: Vec<Member>)
    ensures
        Json::Object(members)@ == JsonView::Object(members_view(members@)),
{
    assert(Json::Object(members)@->Object_0 =~= members_view(members@));
}

/// The value of the first member at or after `from` whose key is `key`.
pub open spec fn find_from(members: Seq<(Seq<char>, JsonView)>, key: Seq<char>, from: int) -> Option<
    JsonView,
>
    decreases members.len() - from,
{
    if from < 0 || from >= members.len() {
        None
    } else if members[from].0 == key {
        Some(members[from].1)
    } else {
        find_from(members, key, from + 1)
    }
}

/// The value of the first member whose key is `key`.
pub open spec fn find(members: Seq<(Seq<char>, JsonView)>, key: Seq<char>) -> Option<JsonView> {
    find_from(members, key, 0)
}

/// Whether a document stands for "nothing": `null`, or an object without
/// members.
pub open spec fn is_unit(doc: JsonView) -> bool {
    doc matches JsonView::Null || (doc matches JsonView::Object(members) && members.len() == 0)
}

/// Whether two texts are the same.
pub fn same_text(a: &str, b: &str) -> (same: bool)
    ensures
        same == (a@ == b@),
{
    let a = a.to_owned();
    let b = b.to_owned();
    a == b
}

impl Json {
    /// The document that is the text `text`.
    pub fn text(text: &str) -> (doc: Json)
        ensures
            doc@ == JsonView::Str(text@),
    {
        Json::Str(text.to_owned())
    }

    /// The document that is `text`, or `null` where there is none.
    pub fn optional(text: &Option<String>) -> (doc: Json)
        ensures
            doc@ == match text {
                Some(text) => JsonView::Str(text@),
                None => JsonView::Null,
            },
    {
        match text {
            Some(text) => Json::Str(text.clone()),
            None => Json::Null,
        }
    }

    /// The array of `items`.
    pub fn array(items: Vec<Json>) -> (doc: Json)
        ensures
            doc@ == JsonView::Array(items_view(items@)),
    {
        proof {
            lemma_array_view(items);
        }
        Json::Array(items)
    }

    /// The object of `members`.
    pub fn object(members: Vec<Member>) -> (doc: Json)
        ensures
            doc@ == JsonView::Object(members_view(members@)),
    {
        proof {
            lemma_object_view(members);
        }
        Json::Object(members)
    }

    /// Whether the document stands for "nothing".
    pub fn stands_for_nothing(&self) -> (unit: bool)
        ensures
            unit == is_unit(self@),
    {
        match self {
            Json::Null => true,
            Json::Object(members) => {
                proof {
                    lemma_object_view(*members);
                }
                members.len() == 0
            },
            _ => false,
        }
    }
}

/// The first member of `members` whose key is `key`.
pub fn find_member<'a>(members: &'a Vec<Member>, key: &str) -> (found: Option<&'a Json>)
    ensures
        match found {
            Some(value) => find(members_view(members@), key@) == Some(value@),
            None => find(members_view(members@), key@).is_none(),
        },
{
    let mut i: usize = 0;
    while i < members.len()
        invariant
            i <= members.len(),
            find(members_view(members@), key@) == find_from(members_view(members@), key@, i as int),
        decreases members.len() - i,
    {
        if same_text(members[i].key.as_str(), key) {
            return Some(&members[i].value);
        }
        i = i + 1;
    }
    None
}

} // verus!
