//! A JSON document as a tree of plain values.
//!
//! The tree is what the translation functions of this crate read and write.
//! Text becomes a tree, and a tree becomes text, through `serde_json`.

use self::JsonNumber::{Negative, Real, Unsigned};
use serde_json::Value;
use vstd::prelude::*;

verus! {

/// A JSON number, kept in the form in which the document gave it.
#[derive(Debug, PartialEq, Eq)]
pub enum JsonNumber {
    /// A whole number that is not negative.
    Unsigned(u64),
    /// A whole number below zero.
    Negative(i64),
    /// Any other number, as its decimal text (`"1699612567.763"`, `"1e-7"`).
    Real(String),
}

/// The mathematical value of a [`JsonNumber`].
pub enum NumberView {
    Unsigned(u64),
    Negative(i64),
    Real(Seq<char>),
}

impl View for JsonNumber {
    type V = NumberView;

    open spec fn view(&self) -> NumberView {
        match self {
            JsonNumber::Unsigned(u) => NumberView::Unsigned(*u),
            JsonNumber::Negative(i) => NumberView::Negative(*i),
            JsonNumber::Real(text) => NumberView::Real(text@),
        }
    }
}

impl JsonNumber {
    /// A copy with the same value.
    pub fn duplicate(&self) -> (out: JsonNumber)
        ensures
            out@ == self@,
    {
        match self {
            JsonNumber::Unsigned(u) => JsonNumber::Unsigned(*u),
            JsonNumber::Negative(i) => JsonNumber::Negative(*i),
            JsonNumber::Real(text) => JsonNumber::Real(text.clone()),
        }
    }
}

/// A JSON value. An object is the list of its members in document order;
/// where a key occurs more than once, the last member with that key counts.
#[derive(Debug, PartialEq, Eq)]
pub enum Json {
    Null,
    Bool(bool),
    Number(JsonNumber),
    Text(String),
    Array(Vec<Json>),
    Object(Vec<(String, Json)>),
}

/// The mathematical value of a [`Json`] tree.
pub enum JsonView {
    Null,
    Bool(bool),
    Number(NumberView),
    Text(Seq<char>),
    Array(Seq<JsonView>),
    Object(Seq<(Seq<char>, JsonView)>),
}

impl View for Json {
    type V = JsonView;

    open spec fn view(&self) -> JsonView
        decreases self,
    {
        match self {
            Json::Null => JsonView::Null,
            Json::Bool(b) => JsonView::Bool(*b),
            Json::Number(n) => JsonView::Number(n@),
            Json::Text(s) => JsonView::Text(s@),
            Json::Array(items) => JsonView::Array(items_view(items@)),
            Json::Object(members) => JsonView::Object(members_view(members@)),
        }
    }
}

/// The values of the items of an array, in order.
pub open spec fn items_view(items: Seq<Json>) -> Seq<JsonView>
    decreases items,
{
    if items.len() == 0 {
        Seq::empty()
    } else {
        items_view(items.drop_last()).push(items.last()@)
    }
}

/// The keys and values of the members of an object, in order.
pub open spec fn members_view(members: Seq<(String, Json)>) -> Seq<(Seq<char>, JsonView)>
    decreases members,
{
    if members.len() == 0 {
        Seq::empty()
    } else {
        members_view(members.drop_last()).push((members.last().0@, members.last().1@))
    }
}

/// `items_view` keeps the length and takes the view of each item.
pub proof fn lemma_items_view(items: Seq<Json>)
    ensures
        items_view(items).len() == items.len(),
        forall|i: int| 0 <= i < items.len() ==> (#[trigger] items_view(items)[i]) == items[i]@,
    decreases items.len(),
{
    if items.len() > 0 {
        lemma_items_view(items.drop_last());
        assert(items_view(items) == items_view(items.drop_last()).push(items.last()@));
    } else {
        assert(items_view(items) == Seq::<JsonView>::empty());
    }
}

/// `members_view` keeps the length and takes the view of each member.
pub proof fn lemma_members_view(members: Seq<(String, Json)>)
    ensures
        members_view(members).len() == members.len(),
        forall|i: int|
            0 <= i < members.len() ==> (#[trigger] members_view(members)[i]) == (
                members[i].0@,
                members[i].1@,
            ),
    decreases members.len(),
{
    if members.len() > 0 {
        lemma_members_view(members.drop_last());
        assert(members_view(members) == members_view(members.drop_last()).push(
            (members.last().0@, members.last().1@),
        ));
    } else {
        assert(members_view(members) == Seq::<(Seq<char>, JsonView)>::empty());
    }
}

/// The value of the last member of `members` whose key is `key`.
pub open spec fn member(members: Seq<(Seq<char>, JsonView)>, key: Seq<char>) -> Option<JsonView>
    decreases members.len(),
{
    if members.len() == 0 {
        None
    } else if members.last().0 == key {
        Some(members.last().1)
    } else {
        member(members.drop_last(), key)
    }
}

/// A member that no later member shadows is the one that is found.
pub proof fn lemma_member_found(members: Seq<(Seq<char>, JsonView)>, i: int, key: Seq<char>)
    requires
        0 <= i < members.len(),
        members[i].0 == key,
        forall|k: int| i < k < members.len() ==> (#[trigger] members[k]).0 != key,
    ensures
        member(members, key) == Some(members[i].1),
    decreases members.len(),
{
    if i < members.len() - 1 {
        assert(members.last() == members[members.len() - 1]);
        lemma_member_found(members.drop_last(), i, key);
    }
}

/// No key occurs twice among `members`.
pub open spec fn distinct_keys(members: Seq<(Seq<char>, JsonView)>) -> bool {
    forall|i: int, j: int|
        0 <= i < j < members.len() ==> (#[trigger] members[i]).0 != (#[trigger] members[j]).0
}

/// Every member of `a` is a member of `b`.
pub open spec fn members_among(
    a: Seq<(Seq<char>, JsonView)>,
    b: Seq<(Seq<char>, JsonView)>,
) -> bool {
    forall|i: int| 0 <= i < a.len() ==> exists|j: int| 0 <= j < b.len() && b[j] == #[trigger] a[i]
}

/// Two lists hold the same members, in whatever order.
pub open spec fn same_members(
    a: Seq<(Seq<char>, JsonView)>,
    b: Seq<(Seq<char>, JsonView)>,
) -> bool {
    members_among(a, b) && members_among(b, a)
}

/// What is found under a key is a member with that key.
pub proof fn lemma_member_is_among(members: Seq<(Seq<char>, JsonView)>, key: Seq<char>)
    requires
        member(members, key) is Some,
    ensures
        exists|i: int|
            0 <= i < members.len() && #[trigger] members[i] == (key, member(members, key)->Some_0),
    decreases members.len(),
{
    if members.len() > 0 {
        if members.last().0 == key {
            assert(members[members.len() - 1] == (key, member(members, key)->Some_0));
        } else {
            lemma_member_is_among(members.drop_last(), key);
            let i = choose|i: int|
                0 <= i < members.drop_last().len() && #[trigger] members.drop_last()[i] == (
                    key,
                    member(members, key)->Some_0,
                );
            assert(members[i] == members.drop_last()[i]);
        }
    }
}

/// The order of the members of an object carries no meaning: where no key
/// occurs twice, two lists of the same members give the same value for
/// every key.
pub proof fn lemma_member_order(
    a: Seq<(Seq<char>, JsonView)>,
    b: Seq<(Seq<char>, JsonView)>,
    key: Seq<char>,
)
    requires
        distinct_keys(a),
        distinct_keys(b),
        same_members(a, b),
    ensures
        member(a, key) == member(b, key),
{
    if member(a, key) is Some {
        lemma_member_is_among(a, key);
        let i = choose|i: int|
            0 <= i < a.len() && #[trigger] a[i] == (key, member(a, key)->Some_0);
        let j = choose|j: int| 0 <= j < b.len() && b[j] == a[i];
        lemma_member_found(b, j, key);
    } else if member(b, key) is Some {
        lemma_member_is_among(b, key);
        let j = choose|j: int|
            0 <= j < b.len() && #[trigger] b[j] == (key, member(b, key)->Some_0);
        let i = choose|i: int| 0 <= i < a.len() && a[i] == b[j];
        lemma_member_found(a, i, key);
    }
}

impl JsonView {
    /// The member `key` of an object; `None` for a missing key and for a
    /// value that is no object.
    pub open spec fn get(self, key: Seq<char>) -> Option<JsonView> {
        match self {
            JsonView::Object(members) => member(members, key),
            _ => None,
        }
    }
}

impl Json {
    /// A copy of the whole tree.
    #[verifier::loop_isolation(false)]
    pub fn duplicate(&self) -> (out: Json)
        ensures
            out@ == self@,
        decreases self,
    {
        match self {
            Json::Null => Json::Null,
            Json::Bool(b) => Json::Bool(*b),
            Json::Number(n) => Json::Number(n.duplicate()),
            Json::Text(s) => Json::Text(s.clone()),
            Json::Array(items) => {
                let mut copy: Vec<Json> = Vec::new();
                let mut i: usize = 0;
                while i < items.len()
                    invariant
                        i <= items.len(),
                        copy.len() == i,
                        forall|k: int| 0 <= k < i ==> (#[trigger] copy[k])@ == items[k]@,
                    decreases items.len() - i,
                {
                    copy.push(items[i].duplicate());
                    i += 1;
                }
                let out = Json::Array(copy);
                proof {
                    lemma_items_view(copy@);
                    lemma_items_view(items@);
                }
                assert(out@->Array_0 =~= self@->Array_0);
                out
            },
            Json::Object(members) => {
                let mut copy: Vec<(String, Json)> = Vec::new();
                let mut i: usize = 0;
                while i < members.len()
                    invariant
                        i <= members.len(),
                        copy.len() == i,
                        forall|k: int|
                            0 <= k < i ==> (#[trigger] copy[k]).0@ == members[k].0@ && copy[k].1@
                                == members[k].1@,
                    decreases members.len() - i,
                {
                    copy.push((members[i].0.clone(), members[i].1.duplicate()));
                    i += 1;
                }
                let out = Json::Object(copy);
                proof {
                    lemma_members_view(copy@);
                    lemma_members_view(members@);
                }
                assert(out@->Object_0 =~= self@->Object_0);
                out
            },
        }
    }

    /// The member `key` of an object: the last one with that key.
    #[verifier::loop_isolation(false)]
    pub fn get(&self, key: &str) -> (out: Option<&Json>)
        ensures
            match out {
                Some(found) => self@.get(key@) == Some(found@),
                None => self@.get(key@) is None,
            },
    {
        match self {
            Json::Object(members) => {
                let wanted = key.to_owned();
                let ghost all = self@->Object_0;
                proof {
                    lemma_members_view(members@);
                    assert(all.take(all.len() as int) =~= all);
                }
                let mut i: usize = members.len();
                while i > 0
                    invariant
                        i <= members.len(),
                        all.len() == members.len(),
                        member(all, key@) == member(all.take(i as int), key@),
                    decreases i,
                {
                    i -= 1;
                    assert(all.take(i + 1).last() == all[i as int]);
                    assert(all.take(i + 1).drop_last() =~= all.take(i as int));
                    if members[i].0 == wanted {
                        return Some(&members[i].1);
                    }
                }
                assert(all.take(0).len() == 0);
                None
            },
            _ => None,
        }
    }
}

#[verifier::external_type_specification]
#[verifier::external_body]
pub struct ExValue(serde_json::Value);

/// The tree that a `serde_json::Value` holds: variant by variant, the
/// members of an object in the order in which the value holds them, a
/// number as a `u64` where it is one, else as an `i64` where it is one,
/// else as its decimal text.
pub uninterp spec fn value_tree(value: serde_json::Value) -> JsonView;

/// What `serde_json::from_str` makes of a text: the tree of the value that
/// it returns, or the message of its error.
pub uninterp spec fn text_tree(text: Seq<char>) -> Result<JsonView, Seq<char>>;

/// The tree of the `serde_json::Value` that is built from a tree: an object
/// then holds each key once, with the value of its last member, and the
/// keys in the order of `serde_json`. `None` where the tree holds a number
/// whose decimal text is no number to `serde_json`.
pub uninterp spec fn built_tree(tree: JsonView) -> Option<JsonView>;

/// What `serde_json::to_string` writes for a value that holds this tree.
pub uninterp spec fn written_tree(tree: JsonView) -> Seq<char>;

/// The JSON text of a tree: what is written for the value that is built
/// from it.
pub open spec fn tree_text(tree: JsonView) -> Option<Seq<char>> {
    match built_tree(tree) {
        Some(built) => Some(written_tree(built)),
        None => None,
    }
}

/// Calls `serde_json::from_str` for a `serde_json::Value`. The tree of the
/// value that it returns, or the message of its error, is named by
/// `text_tree`.
#[verifier::external_body]
fn outside_parse(text: &str) -> (out: Result<Value, String>)
    ensures
        match out {
            Ok(value) => text_tree(text@) == Ok::<JsonView, Seq<char>>(value_tree(value)),
            Err(message) => text_tree(text@) == Err::<JsonView, Seq<char>>(message@),
        },
{
    match serde_json::from_str::<Value>(text) {
        Ok(value) => Ok(value),
        Err(e) => Err(e.to_string()),
    }
}

/// Converts a `serde_json::Value` into the tree that it holds, variant by
/// variant.
#[verifier::external_body]
fn tree_from_outside(v: &Value) -> (out: Json)
    ensures
        out@ == value_tree(*v),
{
    match v {
        Value::Null => Json::Null,
        Value::Bool(b) => Json::Bool(*b),
        Value::String(s) => Json::Text(s.clone()),
        Value::Array(a) => Json::Array(a.iter().map(tree_from_outside).collect()),
        Value::Object(o) => Json::Object(
            o.iter().map(|(k, v)| (k.clone(), tree_from_outside(v))).collect(),
        ),
        Value::Number(n) => Json::Number(match (n.as_u64(), n.as_i64()) {
            (Some(u), _) => Unsigned(u),
            (None, Some(i)) => Negative(i),
            (None, None) => Real(n.to_string()),
        }),
    }
}

/// Builds a `serde_json::Value` from a tree, variant by variant; a number
/// that is given as decimal text is read by `serde_json`. The tree of the
/// value is named by `built_tree`.
#[verifier::external_body]
fn tree_to_outside(j: &Json) -> (out: Option<Value>)
    ensures
        match out {
            Some(value) => built_tree(j@) == Some(value_tree(value)),
            None => built_tree(j@) is None,
        },
{
    Some(match j {
        Json::Null => Value::Null,
        Json::Bool(b) => Value::Bool(*b),
        Json::Number(Unsigned(u)) => Value::from(*u),
        Json::Number(Negative(i)) => Value::from(*i),
        Json::Number(Real(text)) => Value::Number(text.parse().ok()?),
        Json::Text(s) => Value::String(s.clone()),
        Json::Array(a) => Value::Array(a.iter().map(tree_to_outside).collect::<Option<_>>()?),
        Json::Object(o) => Value::Object(
            o.iter().map(|(k, v)| Some((k.clone(), tree_to_outside(v)?))).collect::<Option<_>>()?
        ),
    })
}

/// Calls `serde_json::to_string` on a value. The text is named by
/// `written_tree`.
#[verifier::external_body]
fn outside_print(value: &Value) -> (out: String)
    ensures
        out@ == written_tree(value_tree(*value)),
{
    serde_json::to_string(value).unwrap_or_default()
}

impl Json {
    /// Reads a JSON text.
    pub fn from_text(text: &str) -> (out: Result<Json, String>)
        ensures
            match out {
                Ok(tree) => text_tree(text@) == Ok::<JsonView, Seq<char>>(tree@),
                Err(message) => text_tree(text@) == Err::<JsonView, Seq<char>>(message@),
            },
    {
        match outside_parse(text) {
            Ok(value) => Ok(tree_from_outside(&value)),
            Err(message) => Err(message),
        }
    }

    /// Writes the tree as JSON text; `None` where it holds a number whose
    /// decimal text is no number.
    pub fn to_text(&self) -> (out: Option<String>)
        ensures
            match out {
                Some(text) => tree_text(self@) == Some(text@),
                None => tree_text(self@) is None,
            },
    {
        match tree_to_outside(self) {
            Some(value) => Some(outside_print(&value)),
            None => None,
        }
    }
}

} // verus!
