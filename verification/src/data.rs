//! The data that a page is rendered with: a tree of texts, numbers, flags,
//! lists and objects.

use crate::text::strings;
use vstd::prelude::*;

verus! {

/// A tree of data as a plain value.
pub enum Tree {
    Null,
    Flag(bool),
    Number(int),
    Text(Seq<char>),
    List(Seq<Tree>),
    /// The fields of an object, each a name and a value, in the order in
    /// which they were added.
    Object(Seq<Entry>),
}

/// A field of an object as a plain value: a name and a value.
pub struct Entry {
    pub name: Seq<char>,
    pub value: Tree,
}

/// A tree of data.
#[derive(Debug)]
pub enum Data {
    Null,
    Flag(bool),
    Int(i64),
    Count(u64),
    Text(String),
    List(Vec<Data>),
    Object(Vec<Field>),
}

/// A field of an object: a name and a value.
#[derive(Debug)]
pub struct Field {
    pub name: String,
    pub value: Data,
}

impl View for Data {
    type V = Tree;

    open spec fn view(&self) -> Tree
        decreases self,
    {
        match self {
            Data::Null => Tree::Null,
            Data::Flag(b) => Tree::Flag(*b),
            Data::Int(n) => Tree::Number(*n as int),
            Data::Count(n) => Tree::Number(*n as int),
            Data::Text(s) => Tree::Text(s@),
            Data::List(items) => Tree::List(
                Seq::new(
                    items@.len(),
                    |i: int|
                        if 0 <= i < items@.len() {
                            items@[i].view()
                        } else {
                            Tree::Null
                        },
                ),
            ),
            Data::Object(fields) => Tree::Object(
                Seq::new(
                    fields@.len(),
                    |i: int|
                        if 0 <= i < fields@.len() {
                            Entry { name: fields@[i].name@, value: fields@[i].value.view() }
                        } else {
                            Entry { name: Seq::empty(), value: Tree::Null }
                        },
                ),
            ),
        }
    }
}

/// The trees of a list of data.
pub open spec fn trees(items: Seq<Data>) -> Seq<Tree> {
    Seq::new(items.len(), |i: int| items[i]@)
}

/// The fields of a list of named data.
pub open spec fn named_trees(fields: Seq<Field>) -> Seq<Entry> {
    Seq::new(fields.len(), |i: int| Entry { name: fields[i].name@, value: fields[i].value@ })
}

/// A list of texts as a tree.
pub open spec fn text_list(items: Seq<Seq<char>>) -> Tree {
    Tree::List(Seq::new(items.len(), |i: int| Tree::Text(items[i])))
}

pub proof fn lemma_list_view(items: Vec<Data>)
    ensures
        Data::List(items)@ == Tree::List(trees(items@)),
{
    assert(Data::List(items)@->List_0 =~= trees(items@));
}

pub proof fn lemma_object_view(fields: Vec<Field>)
    ensures
        Data::Object(fields)@ == Tree::Object(named_trees(fields@)),
{
    assert(Data::Object(fields)@->Object_0 =~= named_trees(fields@));
}

impl Data {
    /// A text.
    pub fn text(s: &str) -> (r: Data)
        ensures
            r@ == Tree::Text(s@),
    {
        Data::Text(s.to_owned())
    }

    /// A number that counts something.
    pub fn count(n: usize) -> (r: Data)
        ensures
            r@ == Tree::Number(n as int),
    {
        Data::Count(n as u64)
    }

    /// A list of texts.
    pub fn texts(items: &Vec<String>) -> (r: Data)
        ensures
            r@ == text_list(strings(items@)),
    {
        let mut list = ListBuilder::new();
        let mut i: usize = 0;
        while i < items.len()
            invariant
                i <= items@.len(),
                list@ == Seq::new(i as nat, |k: int| Tree::Text(items@[k]@)),
            decreases items@.len() - i,
        {
            list.push(Data::text(items[i].as_str()));
            assert(list@ =~= Seq::new((i + 1) as nat, |k: int| Tree::Text(items@[k]@)));
            i += 1;
        }
        assert(list@ =~= text_list(strings(items@))->List_0);
        list.finish()
    }

    /// A copy of the tree.
    pub fn duplicate(&self) -> (r: Data)
        ensures
            r@ == self@,
        decreases self,
    {
        match self {
            Data::Null => Data::Null,
            Data::Flag(b) => Data::Flag(*b),
            Data::Int(n) => Data::Int(*n),
            Data::Count(n) => Data::Count(*n),
            Data::Text(s) => Data::Text(s.clone()),
            Data::List(items) => {
                let mut copy: Vec<Data> = Vec::new();
                let mut i: usize = 0;
                while i < items.len()
                    invariant
                        i <= items@.len(),
                        copy@.len() == i,
                        self matches Data::List(l) && l == *items,
                        forall|k: int| 0 <= k < i ==> (#[trigger] copy@[k])@ == items@[k]@,
                    decreases items@.len() - i,
                {
                    let item = items[i].duplicate();
                    copy.push(item);
                    i += 1;
                }
                proof {
                    lemma_list_view(copy);
                    lemma_list_view(*items);
                    assert(trees(copy@) =~= trees(items@));
                }
                Data::List(copy)
            },
            Data::Object(fields) => {
                let mut copy: Vec<Field> = Vec::new();
                let mut i: usize = 0;
                while i < fields.len()
                    invariant
                        i <= fields@.len(),
                        copy@.len() == i,
                        self matches Data::Object(l) && l == *fields,
                        forall|k: int|
                            0 <= k < i ==> (#[trigger] copy@[k]).name@ == fields@[k].name@
                                && copy@[k].value@ == fields@[k].value@,
                    decreases fields@.len() - i,
                {
                    let value = fields[i].value.duplicate();
                    copy.push(Field { name: fields[i].name.clone(), value });
                    i += 1;
                }
                proof {
                    lemma_object_view(copy);
                    lemma_object_view(*fields);
                    assert(named_trees(copy@) =~= named_trees(fields@));
                }
                Data::Object(copy)
            },
        }
    }
}

/// A list of data that is being put together.
pub struct ListBuilder {
    items: Vec<Data>,
}

impl View for ListBuilder {
    type V = Seq<Tree>;

    closed spec fn view(&self) -> Seq<Tree> {
        trees(self.items@)
    }
}

impl ListBuilder {
    /// An empty list.
    pub fn new() -> (r: ListBuilder)
        ensures
            r@ == Seq::<Tree>::empty(),
    {
        let r = ListBuilder { items: Vec::new() };
        assert(r@ =~= Seq::<Tree>::empty());
        r
    }

    /// Adds `item` at the end.
    pub fn push(&mut self, item: Data)
        ensures
            final(self)@ == old(self)@.push(item@),
    {
        self.items.push(item);
        assert(self@ =~= old(self)@.push(item@));
    }

    /// The list as data.
    pub fn finish(self) -> (r: Data)
        ensures
            r@ == Tree::List(self@),
    {
        proof {
            lemma_list_view(self.items);
        }
        Data::List(self.items)
    }
}

/// An object that is being put together.
pub struct ObjectBuilder {
    fields: Vec<Field>,
}

impl View for ObjectBuilder {
    type V = Seq<Entry>;

    closed spec fn view(&self) -> Seq<Entry> {
        named_trees(self.fields@)
    }
}

impl ObjectBuilder {
    /// An object without fields.
    pub fn new() -> (r: ObjectBuilder)
        ensures
            r@ == Seq::<Entry>::empty(),
    {
        let r = ObjectBuilder { fields: Vec::new() };
        assert(r@ =~= Seq::<Entry>::empty());
        r
    }

    /// Adds the field `name` with `value` at the end.
    pub fn field(&mut self, name: &str, value: Data)
        ensures
            final(self)@ == old(self)@.push(Entry { name: name@, value: value@ }),
    {
        self.fields.push(Field { name: name.to_owned(), value });
        assert(self@ =~= old(self)@.push(Entry { name: name@, value: value@ }));
    }

    /// Adds the field `name` with a text at the end.
    pub fn text(&mut self, name: &str, value: &str)
        ensures
            final(self)@ == old(self)@.push(Entry { name: name@, value: Tree::Text(value@) }),
    {
        self.field(name, Data::text(value));
    }

    /// The object as data.
    pub fn finish(self) -> (r: Data)
        ensures
            r@ == Tree::Object(self@),
    {
        proof {
            lemma_object_view(self.fields);
        }
        Data::Object(self.fields)
    }
}

/// `serde_json::Value`: the form in which the template engine takes data.
#[verifier::external_type_specification]
#[verifier::external_body]
pub struct ExJsonValue(serde_json::Value);

/// The JSON value that stands for a tree: `null`, a boolean, an integer, a
/// string, an array of the items' values, or an object that maps each
/// field's name to its value (of two fields with one name, the later).
pub uninterp spec fn json_value(tree: Tree) -> serde_json::Value;

/// The JSON values that stand for a list of trees.
pub open spec fn json_values(trees: Seq<Tree>) -> Seq<serde_json::Value> {
    Seq::new(trees.len(), |i: int| json_value(trees[i]))
}

/// A name and a JSON value, on the way into an object.
pub struct Member {
    pub name: String,
    pub value: serde_json::Value,
}

/// The names and JSON values that stand for a list of fields.
pub open spec fn json_members(entries: Seq<Entry>) -> Seq<(Seq<char>, serde_json::Value)> {
    Seq::new(entries.len(), |i: int| (entries[i].name, json_value(entries[i].value)))
}

/// The names and values of a list of members.
pub open spec fn member_views(members: Seq<Member>) -> Seq<(Seq<char>, serde_json::Value)> {
    Seq::new(members.len(), |i: int| (members[i].name@, members[i].value))
}

/// `serde_json::Value::Null` stands for the empty tree.
#[verifier::external_body]
fn json_null() -> (value: serde_json::Value)
    ensures
        value == json_value(Tree::Null),
{
    serde_json::Value::Null
}

/// `serde_json::Value::Bool` stands for a flag.
#[verifier::external_body]
fn json_flag(b: bool) -> (value: serde_json::Value)
    ensures
        value == json_value(Tree::Flag(b)),
{
    serde_json::Value::Bool(b)
}

/// `serde_json::Value::from` on an `i64` gives the number.
#[verifier::external_body]
fn json_int(n: i64) -> (value: serde_json::Value)
    ensures
        value == json_value(Tree::Number(n as int)),
{
    serde_json::Value::from(n)
}

/// `serde_json::Value::from` on a `u64` gives the number.
#[verifier::external_body]
fn json_count(n: u64) -> (value: serde_json::Value)
    ensures
        value == json_value(Tree::Number(n as int)),
{
    serde_json::Value::from(n)
}

/// `serde_json::Value::String` stands for a text.
#[verifier::external_body]
fn json_text(s: &str) -> (value: serde_json::Value)
    ensures
        value == json_value(Tree::Text(s@)),
{
    serde_json::Value::String(s.to_owned())
}

/// `serde_json::Value::Array`: the array of values that stand for trees
/// stands for the list of those trees.
#[verifier::external_body]
fn json_array(items: Vec<serde_json::Value>) -> (value: serde_json::Value)
    ensures
        forall|trees: Seq<Tree>| #[trigger] json_values(trees) == items@ ==> value == json_value(Tree::List(trees)),
{
    serde_json::Value::Array(items)
}

/// `serde_json::Value::Object`, of the map that `serde_json::Map` collects
/// from names and values: the object of values that stand for the trees of
/// fields stands for the object of those fields.
#[verifier::external_body]
fn json_object(members: Vec<Member>) -> (value: serde_json::Value)
    ensures
        forall|entries: Seq<Entry>| #[trigger] json_members(entries) == member_views(members@) ==> value == json_value(Tree::Object(entries)),
{
    serde_json::Value::Object(members.into_iter().map(|m| (m.name, m.value)).collect())
}

/// The JSON value that stands for `data`.
pub fn to_json(data: &Data) -> (value: serde_json::Value)
    ensures
        value == json_value(data@),
    decreases data,
{
    match data {
        Data::Null => json_null(),
        Data::Flag(b) => json_flag(*b),
        Data::Int(n) => json_int(*n),
        Data::Count(n) => json_count(*n),
        Data::Text(s) => json_text(s.as_str()),
        Data::List(items) => {
            let mut values: Vec<serde_json::Value> = Vec::new();
            let mut i: usize = 0;
            while i < items.len()
                invariant
                    i <= items@.len(),
                    values@.len() == i,
                    data matches Data::List(l) && l == *items,
                    forall|k: int| 0 <= k < i ==> #[trigger] values@[k] == json_value(items@[k]@),
                decreases items@.len() - i,
            {
                let value = to_json(&items[i]);
                values.push(value);
                i += 1;
            }
            proof {
                lemma_list_view(*items);
                assert(json_values(trees(items@)) =~= values@);
            }
            json_array(values)
        },
        Data::Object(fields) => {
            let mut members: Vec<Member> = Vec::new();
            let mut i: usize = 0;
            while i < fields.len()
                invariant
                    i <= fields@.len(),
                    members@.len() == i,
                    data matches Data::Object(l) && l == *fields,
                    forall|k: int|
                        0 <= k < i ==> (#[trigger] members@[k]).name@ == fields@[k].name@
                            && members@[k].value == json_value(fields@[k].value@),
                decreases fields@.len() - i,
            {
                let value = to_json(&fields[i].value);
                members.push(Member { name: fields[i].name.clone(), value });
                i += 1;
            }
            proof {
                lemma_object_view(*fields);
                assert(json_members(named_trees(fields@)) =~= member_views(members@));
            }
            json_object(members)
        },
    }
}

} // verus!
