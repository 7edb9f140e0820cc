//! JSON values, as far as the engine reads them.
//!
//! Replies arrive as text. `serde_json` parses them; what comes out is copied
//! into `Json`, a tree of plain values that the decoders of this library walk.

use serde_json::Error as ParseError;
use serde_json::Value as Document;
use vstd::prelude::*;

use crate::views::views;

verus! {

/// A JSON value.
#[derive(Debug, PartialEq, Eq)]
pub enum Json {
    Null,
    Bool(bool),
    /// A number. Only unsigned integers are read; any other number is `None`.
    Number(Option<u64>),
    Text(String),
    Array(Vec<Json>),
    Object(Vec<Member>),
}

/// One entry of a JSON object.
#[derive(Debug, PartialEq, Eq)]
pub struct Member {
    pub key: String,
    pub value: Json,
}

/// The mathematical content of a `Json`.
pub enum JsonView {
    Null,
    Bool(bool),
    Number(Option<u64>),
    Text(Seq<char>),
    Array(Seq<JsonView>),
    Object(Seq<(Seq<char>, JsonView)>),
}

impl View for Json {
    type V = JsonView;

    open spec fn view(&self) -> JsonView
        decreases self,
    {
        match self {
            Json::Null => JsonView::Null,
            Json::Bool(b) => JsonView::Bool(*b),
            Json::Number(n) => JsonView::Number(*n),
            Json::Text(s) => JsonView::Text(s@),
            Json::Array(items) => JsonView::Array(views_of(items@)),
            Json::Object(members) => JsonView::Object(entries_of(members@)),
        }
    }
}

/// The contents of the elements of an array, in order.
pub open spec fn views_of(items: Seq<Json>) -> Seq<JsonView>
    decreases items,
{
    if items.len() == 0 {
        Seq::empty()
    } else {
        views_of(items.drop_last()).push(items.last()@)
    }
}

/// The contents of the entries of an object, in order.
pub open spec fn entries_of(members: Seq<Member>) -> Seq<(Seq<char>, JsonView)>
    decreases members,
{
    if members.len() == 0 {
        Seq::empty()
    } else {
        entries_of(members.drop_last()).push((members.last().key@, members.last().value@))
    }
}

/// The content of an array holds the content of each element at its place.
pub proof fn views_of_elements(items: Seq<Json>)
    ensures
        views_of(items).len() == items.len(),
        forall|k: int| 0 <= k < items.len() ==> views_of(items)[k] == #[trigger] items[k]@,
    decreases items.len(),
{
    reveal_with_fuel(views_of, 2);
    if items.len() > 0 {
        let front = items.drop_last();
        views_of_elements(front);
        assert forall|k: int| 0 <= k < items.len() implies views_of(items)[k]
            == #[trigger] items[k]@ by {
            if k < front.len() {
                assert(front[k] == items[k]);
            }
        }
    }
}

/// The content of an object holds key and content of each entry at its place.
pub proof fn entries_of_members(members: Seq<Member>)
    ensures
        entries_of(members).len() == members.len(),
        forall|k: int|
            0 <= k < members.len() ==> entries_of(members)[k] == (
                #[trigger] members[k].key@,
                members[k].value@,
            ),
    decreases members.len(),
{
    reveal_with_fuel(entries_of, 2);
    if members.len() > 0 {
        let front = members.drop_last();
        entries_of_members(front);
        assert forall|k: int| 0 <= k < members.len() implies entries_of(members)[k] == (
            #[trigger] members[k].key@,
            members[k].value@,
        ) by {
            if k < front.len() {
                assert(front[k] == members[k]);
            }
        }
    }
}

/// The value of the first entry with the given key.
pub open spec fn find_member(members: Seq<(Seq<char>, JsonView)>, key: Seq<char>) -> Option<
    JsonView,
>
    decreases members.len(),
{
    if members.len() == 0 {
        None
    } else if members[0].0 == key {
        Some(members[0].1)
    } else {
        find_member(members.drop_first(), key)
    }
}

impl JsonView {
    /// The value under `key`, if this is an object that has the key.
    pub open spec fn member(self, key: Seq<char>) -> Option<JsonView> {
        match self {
            JsonView::Object(members) => find_member(members, key),
            _ => None,
        }
    }

    /// The text, if this is a string.
    pub open spec fn text(self) -> Option<Seq<char>> {
        match self {
            JsonView::Text(s) => Some(s),
            _ => None,
        }
    }

    /// The number, if this is an unsigned integer.
    pub open spec fn unsigned(self) -> Option<u64> {
        match self {
            JsonView::Number(n) => n,
            _ => None,
        }
    }

    /// The truth value, if this is one.
    pub open spec fn boolean(self) -> Option<bool> {
        match self {
            JsonView::Bool(b) => Some(b),
            _ => None,
        }
    }

    /// The elements, if this is an array.
    pub open spec fn items(self) -> Option<Seq<JsonView>> {
        match self {
            JsonView::Array(items) => Some(items),
            _ => None,
        }
    }
}

impl Json {
    /// Looks up a key of an object. Any other value has no keys.
    pub fn get(&self, key: &str) -> (r: Option<&Json>)
        ensures
            match r {
                Some(j) => self@.member(key@) == Some(j@),
                None => self@.member(key@) is None,
            },
    {
        match self {
            Json::Object(members) => {
                let wanted = key.to_string();
                let ghost all = self@->Object_0;
                proof {
                    entries_of_members(members@);
                    assert(all.skip(0) =~= all);
                }
                let mut i: usize = 0;
                while i < members.len()
                    invariant
                        i <= members.len(),
                        wanted@ == key@,
                        all.len() == members.len(),
                        forall|k: int|
                            0 <= k < members.len() ==> all[k] == (
                                #[trigger] members@[k].key@,
                                members@[k].value@,
                            ),
                        self@.member(key@) == find_member(all, key@),
                        find_member(all, key@) == find_member(all.skip(i as int), key@),
                    decreases members.len() - i,
                {
                    proof {
                        assert(all.skip(i as int)[0] == all[i as int]);
                        assert(all.skip(i as int).drop_first() =~= all.skip(i + 1));
                    }
                    if members[i].key == wanted {
                        return Some(&members[i].value);
                    }
                    i = i + 1;
                }
                None
            },
            _ => None,
        }
    }

    /// The text of a string.
    pub fn as_str(&self) -> (r: Option<&str>)
        ensures
            match r {
                Some(s) => self@.text() == Some(s@),
                None => self@.text() is None,
            },
    {
        match self {
            Json::Text(s) => Some(s.as_str()),
            _ => None,
        }
    }

    /// The value of an unsigned integer.
    pub fn as_u64(&self) -> (r: Option<u64>)
        ensures
            r == self@.unsigned(),
    {
        match self {
            Json::Number(n) => *n,
            _ => None,
        }
    }

    /// The value of `true` or `false`.
    pub fn as_bool(&self) -> (r: Option<bool>)
        ensures
            r == self@.boolean(),
    {
        match self {
            Json::Bool(b) => Some(*b),
            _ => None,
        }
    }

    /// The elements of an array.
    pub fn as_array(&self) -> (r: Option<&Vec<Json>>)
        ensures
            match r {
                Some(items) => self@.items() == Some(views(items@)),
                None => self@.items() is None,
            },
    {
        match self {
            Json::Array(items) => {
                proof {
                    views_of_elements(items@);
                    assert(views_of(items@) =~= views(items@));
                }
                Some(items)
            },
            _ => None,
        }
    }

    /// Takes the value under a key out of an object.
    pub fn take(self, key: &str) -> (r: Option<Json>)
        ensures
            match r {
                Some(j) => self@.member(key@) == Some(j@),
                None => self@.member(key@) is None,
            },
    {
        match self {
            Json::Object(members) => {
                let mut members = members;
                let wanted = key.to_string();
                let ghost all = self@->Object_0;
                proof {
                    entries_of_members(members@);
                    assert(all.skip(0) =~= all);
                }
                let mut i: usize = 0;
                while i < members.len()
                    invariant
                        i <= members.len(),
                        wanted@ == key@,
                        all.len() == members.len(),
                        forall|k: int|
                            0 <= k < members.len() ==> all[k] == (
                                #[trigger] members@[k].key@,
                                members@[k].value@,
                            ),
                        self@.member(key@) == find_member(all, key@),
                        find_member(all, key@) == find_member(all.skip(i as int), key@),
                    decreases members.len() - i,
                {
                    proof {
                        assert(all.skip(i as int)[0] == all[i as int]);
                        assert(all.skip(i as int).drop_first() =~= all.skip(i + 1));
                    }
                    if members[i].key == wanted {
                        let found = members.swap_remove(i);
                        return Some(found.value);
                    }
                    i = i + 1;
                }
                None
            },
            _ => None,
        }
    }
}

/// What `serde_json` makes of a text: the value that it stands for, or
/// nothing where the text is not JSON.
pub uninterp spec fn parsed_json(text: Seq<char>) -> Option<JsonView>;

/// `serde_json::Value`: a parsed document. Verified code never looks into
/// one; it is copied into a `Json` where it comes from the parser.
#[verifier::external_type_specification]
#[verifier::external_body]
pub struct ExDocument(Document);

/// `serde_json::Error`: why a text could not be parsed. It is carried out
/// of the parser and dropped.
#[verifier::external_type_specification]
#[verifier::external_body]
pub struct ExParseError(ParseError);

/// Calls `serde_json::from_str` for a document and copies what it returns.
/// The contract claims only that the outcome is a function of the text: the
/// same text gives the same value, or fails, every time.
#[verifier::external_body]
fn from_str(text: &str) -> (r: Result<Json, ParseError>)
    ensures
        match r {
            Ok(j) => parsed_json(text@) == Some(j@),
            Err(_) => parsed_json(text@) is None,
        },
{
    match serde_json::from_str::<Document>(text) {
        Ok(value) => Ok(copy_of(&value)),
        Err(e) => Err(e),
    }
}

/// Copies a document of `serde_json` into a `Json`, variant by variant. A
/// number keeps what `serde_json::Number::as_u64` gives for it. Nothing is
/// claimed of the copy here.
#[verifier::external_body]
fn copy_of(value: &Document) -> Json {
    match value {
        Document::Null => Json::Null,
        Document::Bool(b) => Json::Bool(*b),
        Document::Number(n) => Json::Number(n.as_u64()),
        Document::String(s) => Json::Text(s.clone()),
        Document::Array(a) => Json::Array(a.iter().map(copy_of).collect()),
        Document::Object(o) => Json::Object(
            o.iter().map(|(k, v)| Member { key: k.clone(), value: copy_of(v) }).collect(),
        ),
    }
}

impl Json {
    /// Parses a text as JSON. A text that is no JSON value gives `None`.
    pub fn parse(text: &str) -> (r: Option<Json>)
        ensures
            match r {
                Some(j) => parsed_json(text@) == Some(j@),
                None => parsed_json(text@) is None,
            },
    {
        match from_str(text) {
            Ok(j) => Some(j),
            Err(_) => None,
        }
    }
}

} // verus!
