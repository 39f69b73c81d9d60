//! JSON values as the session sees them.
//!
//! Reading and writing JSON text is `serde_json`'s work. This module gives a
//! `serde_json::Value` a mathematical model, [`JsonTree`], and states over
//! that model what each call into `serde_json` hands back. Those statements
//! are taken on trust; everything else here is proved from them.
//!
//! `serde_json` is built with `preserve_order`: an object keeps its members
//! in the order in which they were put in.

use vstd::prelude::*;

verus! {

/// The mathematical content of a JSON value.
pub enum JsonTree {
    Null,
    Bool(bool),
    /// A number. Its magnitude is never read here.
    Number,
    Text(Seq<char>),
    List(Seq<JsonTree>),
    /// The members of an object, in the order the object holds them.
    Record(Seq<(Seq<char>, JsonTree)>),
}

/// `serde_json::Value`, opaque here: its content is read through [`peek`].
#[verifier::external_type_specification]
#[verifier::external_body]
pub struct ExValue(serde_json::Value);

/// `serde_json::Error`, carried and never looked into.
#[verifier::external_type_specification]
#[verifier::external_body]
pub struct ExError(serde_json::Error);

/// What a `serde_json::Value` holds: its variant and, below it, what its
/// items or members hold, members in the order of the value's map.
pub uninterp spec fn json_tree(v: serde_json::Value) -> JsonTree;

/// What `serde_json::from_str` reads from a text as a `Value`: `None` where it reports an error.
pub uninterp spec fn json_parsed(text: Seq<char>) -> Option<JsonTree>;

/// What `serde_json::to_string` writes for a `Value` that holds `tree`.
pub uninterp spec fn json_text(tree: JsonTree) -> Seq<char>;

/// One level of a JSON value: its variant, and references to what lies below.
pub enum Shape<'a> {
    Null,
    Bool(bool),
    Number,
    Text(&'a str),
    List(&'a Vec<serde_json::Value>),
    Record(Vec<(&'a String, &'a serde_json::Value)>),
}

/// The trees of a sequence of values.
pub open spec fn trees(items: Seq<serde_json::Value>) -> Seq<JsonTree> {
    Seq::new(items.len(), |i: int| json_tree(items[i]))
}

/// The trees of a sequence of named values.
pub open spec fn member_trees(members: Seq<(String, serde_json::Value)>) -> Seq<
    (Seq<char>, JsonTree),
> {
    Seq::new(members.len(), |i: int| (members[i].0@, json_tree(members[i].1)))
}

impl<'a> Shape<'a> {
    pub open spec fn tree(self) -> JsonTree {
        match self {
            Shape::Null => JsonTree::Null,
            Shape::Bool(b) => JsonTree::Bool(b),
            Shape::Number => JsonTree::Number,
            Shape::Text(t) => JsonTree::Text(t@),
            Shape::List(items) => JsonTree::List(trees(items@)),
            Shape::Record(members) => JsonTree::Record(
                Seq::new(members@.len(), |i: int| (members@[i].0@, json_tree(*members@[i].1))),
            ),
        }
    }
}

/// Calls `serde_json::from_str` for a `Value`. Trusted: whether it succeeds,
/// and what the value holds, depend on the text alone.
#[verifier::external_body]
pub(crate) fn parse_value(text: &str) -> (r: Result<serde_json::Value, serde_json::Error>)
    ensures
        r is Ok <==> json_parsed(text@) is Some,
        r matches Ok(v) ==> json_parsed(text@) == Some(json_tree(v)),
{
    serde_json::from_str::<serde_json::Value>(text)
}

/// Tells the variants of a `serde_json::Value` apart and hands out what the
/// variant holds: a string as it is, the items of an array, the members of
/// an object as `serde_json::Map::iter` walks them. Trusted: that is what
/// the value holds. A number's magnitude is left behind.
#[verifier::external_body]
pub(crate) fn peek<'a>(v: &'a serde_json::Value) -> (s: Shape<'a>)
    ensures
        s.tree() == json_tree(*v),
{
    match v {
        serde_json::Value::Null => Shape::Null,
        serde_json::Value::Bool(b) => Shape::Bool(*b),
        serde_json::Value::Number(_) => Shape::Number,
        serde_json::Value::String(t) => Shape::Text(t.as_str()),
        serde_json::Value::Array(items) => Shape::List(items),
        serde_json::Value::Object(members) => Shape::Record(members.iter().collect()),
    }
}

/// Whether no two members share a name.
pub open spec fn distinct_keys(members: Seq<(Seq<char>, JsonTree)>) -> bool {
    forall|i: int, j: int|
        0 <= i < j < members.len() ==> (#[trigger] members[i]).0 != (#[trigger] members[j]).0
}

/// A tree made of text alone, at most two levels deep: a text, a list of
/// texts, or an object whose members are such and are named apart.
pub open spec fn flat(tree: JsonTree) -> bool {
    match tree {
        JsonTree::Text(_) => true,
        JsonTree::List(items) => forall|i: int| 0 <= i < items.len() ==> #[trigger] items[i] is Text,
        JsonTree::Record(members) => {
            &&& distinct_keys(members)
            &&& forall|i: int|
                0 <= i < members.len() ==> match (#[trigger] members[i]).1 {
                    JsonTree::Text(_) => true,
                    JsonTree::List(items) => forall|k: int|
                        0 <= k < items.len() ==> #[trigger] items[k] is Text,
                    _ => false,
                }
        },
        _ => false,
    }
}

/// Makes a `serde_json::Value::String`. Trusted: it holds the text given.
#[verifier::external_body]
pub(crate) fn text_value(text: String) -> (v: serde_json::Value)
    ensures
        json_tree(v) == JsonTree::Text(text@),
{
    serde_json::Value::String(text)
}

/// Makes a `serde_json::Value::Array`. Trusted: it holds the items given, in order.
#[verifier::external_body]
pub(crate) fn list_value(items: Vec<serde_json::Value>) -> (v: serde_json::Value)
    ensures
        json_tree(v) == JsonTree::List(trees(items@)),
{
    serde_json::Value::Array(items)
}

/// Makes a `serde_json::Value::Object` of a `serde_json::Map` collected from
/// the members. Trusted: where no name comes twice, the map holds the
/// members given, in the order given.
#[verifier::external_body]
pub(crate) fn record_value(members: Vec<(String, serde_json::Value)>) -> (v: serde_json::Value)
    requires
        distinct_keys(member_trees(members@)),
    ensures
        json_tree(v) == JsonTree::Record(member_trees(members@)),
{
    serde_json::Value::Object(members.into_iter().collect())
}

/// Calls `serde_json::to_string` on a `Value`. Trusted, of a value that is
/// [`flat`]: the call succeeds; the text depends on what the value holds
/// alone; and `serde_json::from_str` reads that text back as a value that
/// holds the same.
#[verifier::external_body]
pub(crate) fn print_value(v: &serde_json::Value) -> (r: Result<String, serde_json::Error>)
    requires
        flat(json_tree(*v)),
    ensures
        r is Ok,
        r matches Ok(text) ==> text@ == json_text(json_tree(*v)),
        r matches Ok(text) ==> json_parsed(text@) == Some(json_tree(*v)),
{
    serde_json::to_string(v)
}

/// The first member named `key`, if there is one.
pub open spec fn lookup(members: Seq<(Seq<char>, JsonTree)>, key: Seq<char>) -> Option<JsonTree>
    decreases members.len(),
{
    if members.len() == 0 {
        None
    } else if members[0].0 == key {
        Some(members[0].1)
    } else {
        lookup(members.drop_first(), key)
    }
}

/// The member of an object that `key` names: the first one, had it several.
pub fn find_member<'a>(members: &Vec<(&'a String, &'a serde_json::Value)>, key: &str) -> (r: Option<
    &'a serde_json::Value,
>)
    ensures
        match r {
            Some(v) => lookup(Shape::Record(*members).tree()->Record_0, key@) == Some(json_tree(*v)),
            None => lookup(Shape::Record(*members).tree()->Record_0, key@) is None,
        },
{
    let ghost all = Shape::Record(*members).tree()->Record_0;
    let wanted = key.to_owned();
    let mut i: usize = 0;
    assert(all.skip(0) =~= all);
    while i < members.len()
        invariant
            i <= members.len(),
            all == Shape::Record(*members).tree()->Record_0,
            all.len() == members.len(),
            lookup(all, key@) == lookup(all.skip(i as int), key@),
            wanted@ == key@,
        decreases members.len() - i,
    {
        let ghost rest = all.skip(i as int);
        assert(rest[0] == all[i as int]);
        assert(rest.drop_first() =~= all.skip(i + 1));
        if *members[i].0 == wanted {
            return Some(members[i].1);
        }
        i += 1;
    }
    None
}

/// A member that is absent or `null` counts as not given.
pub open spec fn given(member: Option<JsonTree>) -> Option<JsonTree> {
    match member {
        Some(JsonTree::Null) => None,
        other => other,
    }
}

/// The member that `key` names, unless it is `null`.
pub fn find_given<'a>(members: &Vec<(&'a String, &'a serde_json::Value)>, key: &str) -> (r: Option<
    &'a serde_json::Value,
>)
    ensures
        match r {
            Some(v) => given(lookup(Shape::Record(*members).tree()->Record_0, key@)) == Some(
                json_tree(*v),
            ),
            None => given(lookup(Shape::Record(*members).tree()->Record_0, key@)) is None,
        },
{
    match find_member(members, key) {
        Some(v) => match peek(v) {
            Shape::Null => None,
            _ => Some(v),
        },
        None => None,
    }
}

/// The texts of a sequence of strings.
pub open spec fn texts(items: Seq<String>) -> Seq<Seq<char>> {
    Seq::new(items.len(), |i: int| items[i]@)
}

/// The texts that a list holds, where it holds nothing else.
pub open spec fn text_items(items: Seq<JsonTree>) -> Option<Seq<Seq<char>>> {
    if forall|i: int| 0 <= i < items.len() ==> #[trigger] items[i] is Text {
        Some(Seq::new(items.len(), |i: int| items[i]->Text_0))
    } else {
        None
    }
}

/// Copies the strings out of a list of values; `None` where one of them is no string.
pub fn read_texts(items: &Vec<serde_json::Value>) -> (r: Option<Vec<String>>)
    ensures
        match r {
            Some(out) => text_items(trees(items@)) == Some(texts(out@)),
            None => text_items(trees(items@)) is None,
        },
{
    let mut out: Vec<String> = Vec::new();
    let mut i: usize = 0;
    while i < items.len()
        invariant
            i <= items.len(),
            out.len() == i,
            forall|k: int| 0 <= k < i ==> #[trigger] trees(items@)[k] == JsonTree::Text(out@[k]@),
        decreases items.len() - i,
    {
        match peek(&items[i]) {
            Shape::Text(t) => {
                out.push(t.to_owned());
            },
            _ => {
                assert(!(trees(items@)[i as int] is Text));
                return None;
            },
        }
        i += 1;
    }
    assert(text_items(trees(items@))->Some_0 =~= texts(out@));
    Some(out)
}

/// Whether two strings hold the same text.
pub fn same_text(a: &str, b: &str) -> (same: bool)
    ensures
        same == (a@ == b@),
{
    a.to_owned() == b.to_owned()
}

} // verus!
