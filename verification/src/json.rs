//! A structured-data tree: the shape in which remote responses are examined.

use crate::text::{chars_of, parse_digits, texts, unsigned_value};
use vstd::prelude::*;

verus! {

/// The mathematical value of a [`Json`] tree.
pub enum JsonModel {
    Null,
    Bool(bool),
    /// A number, as its decimal text.
    Number(Seq<char>),
    Text(Seq<char>),
    Array(Seq<JsonModel>),
    /// The members of an object, in order, each a name and a value.
    Object(Seq<(Seq<char>, JsonModel)>),
}

/// The value of the first member called `name` among `members`, if any.
pub open spec fn find_member(members: Seq<(Seq<char>, JsonModel)>, name: Seq<char>) -> Option<
    JsonModel,
>
    decreases members.len(),
{
    if members.len() == 0 {
        None
    } else if members[0].0 == name {
        Some(members[0].1)
    } else {
        find_member(members.skip(1), name)
    }
}

impl JsonModel {
    /// The member called `name` of an object; nothing for any other value.
    pub open spec fn member(self, name: Seq<char>) -> Option<JsonModel> {
        match self {
            JsonModel::Object(members) => find_member(members, name),
            _ => None,
        }
    }

    /// The element at `index` of an array; nothing for any other value.
    pub open spec fn item(self, index: int) -> Option<JsonModel> {
        match self {
            JsonModel::Array(items) => if 0 <= index < items.len() {
                Some(items[index])
            } else {
                None
            },
            _ => None,
        }
    }

    /// The characters of a text value; nothing for any other value.
    pub open spec fn text(self) -> Option<Seq<char>> {
        match self {
            JsonModel::Text(s) => Some(s),
            _ => None,
        }
    }

    /// The value of a number written in decimal digits alone that fits 64
    /// bits; nothing for any other number and any other value.
    pub open spec fn unsigned(self) -> Option<nat> {
        match self {
            JsonModel::Number(digits) => unsigned_value(digits, u64::MAX as nat),
            _ => None,
        }
    }

    /// The names of an object's members, in order; empty for any other value.
    pub open spec fn member_names(self) -> Seq<Seq<char>> {
        match self {
            JsonModel::Object(members) => Seq::new(members.len(), |i: int| members[i].0),
            _ => Seq::empty(),
        }
    }
}

/// One member of an object.
#[derive(Debug, PartialEq, Eq)]
pub struct Member {
    pub name: String,
    pub value: Json,
}

/// A structured-data value.
#[derive(Debug, PartialEq, Eq)]
pub enum Json {
    Null,
    Bool(bool),
    /// A number, kept as its decimal text.
    Number(String),
    Text(String),
    Array(Vec<Json>),
    Object(Vec<Member>),
}

/// The values of a run of trees, in order.
pub open spec fn items_model(items: Seq<Json>) -> Seq<JsonModel>
    decreases items,
{
    if items.len() == 0 {
        Seq::empty()
    } else {
        items_model(items.drop_last()).push(tree_model(items.last()))
    }
}

/// The names and values of a run of members, in order.
pub open spec fn members_model(members: Seq<Member>) -> Seq<(Seq<char>, JsonModel)>
    decreases members,
{
    if members.len() == 0 {
        Seq::empty()
    } else {
        members_model(members.drop_last()).push(
            (members.last().name@, tree_model(members.last().value)),
        )
    }
}

/// The value of one tree.
pub open spec fn tree_model(tree: Json) -> JsonModel
    decreases tree,
{
    match tree {
        Json::Null => JsonModel::Null,
        Json::Bool(b) => JsonModel::Bool(b),
        Json::Number(n) => JsonModel::Number(n@),
        Json::Text(s) => JsonModel::Text(s@),
        Json::Array(items) => JsonModel::Array(items_model(items@)),
        Json::Object(members) => JsonModel::Object(members_model(members@)),
    }
}

impl View for Json {
    type V = JsonModel;

    open spec fn view(&self) -> JsonModel {
        tree_model(*self)
    }
}

/// The model of a run of trees has one value for each tree.
pub proof fn lemma_items_model(items: Seq<Json>)
    ensures
        items_model(items).len() == items.len(),
        forall|i: int| 0 <= i < items.len() ==> #[trigger] items_model(items)[i] == items[i]@,
    decreases items.len(),
{
    if items.len() > 0 {
        lemma_items_model(items.drop_last());
    }
}

/// The model of a run of members has one pair for each member.
pub proof fn lemma_members_model(members: Seq<Member>)
    ensures
        members_model(members).len() == members.len(),
        forall|i: int|
            0 <= i < members.len() ==> #[trigger] members_model(members)[i] == (
                members[i].name@,
                members[i].value@,
            ),
    decreases members.len(),
{
    if members.len() > 0 {
        lemma_members_model(members.drop_last());
    }
}

impl Json {
    /// The member called `name`, when this is an object that has one.
    pub fn get(&self, name: &str) -> (r: Option<&Json>)
        ensures
            match r {
                Some(j) => self@.member(name@) == Some(j@),
                None => self@.member(name@) is None,
            },
    {
        match self {
            Json::Object(members) => {
                let wanted = name.to_owned();
                let ghost all = members_model(members@);
                proof {
                    lemma_members_model(members@);
                    assert(all.skip(0) =~= all);
                }
                let mut i: usize = 0;
                while i < members.len()
                    invariant
                        i <= members.len(),
                        wanted@ == name@,
                        self@ == JsonModel::Object(all),
                        all.len() == members.len(),
                        forall|k: int|
                            0 <= k < members.len() ==> #[trigger] all[k] == (
                                members@[k].name@,
                                members@[k].value@,
                            ),
                        find_member(all, name@) == find_member(all.skip(i as int), name@),
                    decreases members.len() - i,
                {
                    if members[i].name == wanted {
                        return Some(&members[i].value);
                    }
                    assert(all.skip(i as int).skip(1) =~= all.skip(i as int + 1));
                    i += 1;
                }
                None
            },
            _ => None,
        }
    }

    /// The characters of a text value.
    pub fn as_str(&self) -> (r: Option<&str>)
        ensures
            match r {
                Some(s) => self@.text() == Some(s@),
                None => self@.text() is None,
            },
    {
        match self {
            Json::Text(s) => Some(s.as_str()),
            _ => None,
        }
    }

    /// The value of a number that is a non-negative integer of 64 bits.
    pub fn as_u64(&self) -> (r: Option<u64>)
        ensures
            match r {
                Some(n) => self@.unsigned() == Some(n as nat),
                None => self@.unsigned() is None,
            },
    {
        match self {
            Json::Number(digits) => {
                let chars = chars_of(digits.as_str());
                proof {
                    assert(chars@.skip(0) =~= chars@);
                }
                parse_digits(&chars, 0, u64::MAX)
            },
            _ => None,
        }
    }

    /// The names of an object's members, in order.
    pub fn member_names(&self) -> (r: Vec<String>)
        ensures
            texts(r@) == self@.member_names(),
    {
        let mut names: Vec<String> = Vec::new();
        match self {
            Json::Object(members) => {
                proof {
                    lemma_members_model(members@);
                }
                let mut i: usize = 0;
                while i < members.len()
                    invariant
                        i <= members.len(),
                        names.len() == i,
                        forall|k: int| 0 <= k < i ==> names@[k]@ == members@[k].name@,
                    decreases members.len() - i,
                {
                    names.push(members[i].name.clone());
                    i += 1;
                }
                assert(texts(names@) =~= self@.member_names());
            },
            _ => {
                assert(texts(names@) =~= self@.member_names());
            },
        }
        names
    }

    /// The element at `index` of an array.
    pub fn at(&self, index: usize) -> (r: Option<&Json>)
        ensures
            match r {
                Some(j) => self@.item(index as int) == Some(j@),
                None => self@.item(index as int) is None,
            },
    {
        match self {
            Json::Array(items) => {
                proof {
                    lemma_items_model(items@);
                }
                if index < items.len() {
                    Some(&items[index])
                } else {
                    None
                }
            },
            _ => None,
        }
    }
}

/// The document type of the `serde_json` crate.
#[verifier::external_type_specification]
#[verifier::external_body]
pub struct ExValue(serde_json::Value);

/// The error type of the `serde_json` crate.
#[verifier::external_type_specification]
#[verifier::external_body]
pub struct ExParseError(serde_json::Error);

/// The tree that a `serde_json` document holds.
pub uninterp spec fn document_model(document: serde_json::Value) -> JsonModel;

/// What `serde_json` reads out of a text: a tree, or nothing when the text
/// is not well-formed.
pub uninterp spec fn parsed_text(text: Seq<char>) -> Option<JsonModel>;

/// Calls `serde_json::from_str` for a `serde_json::Value`. The outcome depends
/// on the text alone: a document where the text is well-formed, an error
/// where it is not.
#[verifier::external_body]
fn read_document(text: &str) -> (r: Result<serde_json::Value, serde_json::Error>)
    ensures
        match r {
            Ok(document) => parsed_text(text@) == Some(document_model(document)),
            Err(_) => parsed_text(text@) is None,
        },
{
    serde_json::from_str::<serde_json::Value>(text)
}

/// Copies a `serde_json::Value` into a tree of this library, variant by
/// variant; a number is carried over as the text that `serde_json` prints
/// for it, and an object's members in the order in which its map yields them.
#[verifier::external_body]
fn lift_document(document: &serde_json::Value) -> (tree: Json)
    ensures
        tree@ == document_model(*document),
{
    match document {
        serde_json::Value::Null => Json::Null,
        serde_json::Value::Bool(b) => Json::Bool(*b),
        serde_json::Value::Number(n) => Json::Number(n.to_string()),
        serde_json::Value::String(s) => Json::Text(s.clone()),
        serde_json::Value::Array(a) => Json::Array(a.iter().map(lift_document).collect()),
        serde_json::Value::Object(o) => Json::Object(
            o.iter().map(|(k, v)| Member { name: k.clone(), value: lift_document(v) }).collect(),
        ),
    }
}

/// Reads a text as a structured document.
pub fn parse(text: &str) -> (r: Option<Json>)
    ensures
        match r {
            Some(tree) => parsed_text(text@) == Some(tree@),
            None => parsed_text(text@) is None,
        },
{
    match read_document(text) {
        Ok(document) => Some(lift_document(&document)),
        Err(_) => None,
    }
}

} // verus!
