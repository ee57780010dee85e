//! JSON documents as trees.
//!
//! `serde_json` reads and writes the text; the trees are this crate's own, so
//! that the functions which build and inspect documents can be verified.

use crate::text::same_text;
use vstd::prelude::*;

verus! {

/// A JSON document held in memory.
///
/// A number that is not an integer is kept as `Real` without its value:
/// nothing in this crate reads one.
#[derive(Debug)]
pub enum Json {
    Null,
    Bool(bool),
    Unsigned(u64),
    Signed(i64),
    Real,
    Text(String),
    Array(Vec<Json>),
    Object(Vec<(String, Json)>),
}

/// The mathematical value of a JSON document.
///
/// An object is a map: the order of its members does not matter, and a name
/// occurs once. `Integer` is a number that `serde_json` holds as an integer,
/// from `i64::MIN` to `u64::MAX`. `Real` stands for every other number: which
/// number it is, is not part of this value.
pub enum JsonTree {
    Null,
    Bool(bool),
    Integer(int),
    Real,
    Text(Seq<char>),
    Array(Seq<JsonTree>),
    Object(Map<Seq<char>, JsonTree>),
}

/// The object that results from adding `members` one after the other to an
/// empty object, a later member replacing an earlier one of the same name.
pub open spec fn object_of(members: Seq<(Seq<char>, JsonTree)>) -> Map<Seq<char>, JsonTree>
    decreases members.len(),
{
    if members.len() == 0 {
        Map::empty()
    } else {
        object_of(members.drop_last()).insert(members.last().0, members.last().1)
    }
}

impl Json {
    /// The documents of the items, where this is an array.
    pub open spec fn item_views(&self) -> Seq<JsonTree>
        decreases self, 0int,
    {
        match self {
            Json::Array(items) => Seq::new(
                items@.len(),
                |i: int|
                    if 0 <= i < items@.len() {
                        items@[i].view()
                    } else {
                        JsonTree::Null
                    },
            ),
            _ => Seq::empty(),
        }
    }

    /// The names and documents of the members, where this is an object.
    pub open spec fn member_views(&self) -> Seq<(Seq<char>, JsonTree)>
        decreases self, 0int,
    {
        match self {
            Json::Object(members) => Seq::new(
                members@.len(),
                |i: int|
                    if 0 <= i < members@.len() {
                        (members@[i].0@, members@[i].1.view())
                    } else {
                        (Seq::empty(), JsonTree::Null)
                    },
            ),
            _ => Seq::empty(),
        }
    }
}

impl View for Json {
    type V = JsonTree;

    open spec fn view(&self) -> JsonTree
        decreases self, 1int,
    {
        match self {
            Json::Null => JsonTree::Null,
            Json::Bool(b) => JsonTree::Bool(*b),
            Json::Unsigned(n) => JsonTree::Integer(*n as int),
            Json::Signed(n) => JsonTree::Integer(*n as int),
            Json::Real => JsonTree::Real,
            Json::Text(s) => JsonTree::Text(s@),
            Json::Array(_) => JsonTree::Array(self.item_views()),
            Json::Object(_) => JsonTree::Object(object_of(self.member_views())),
        }
    }
}

/// `serde_json`'s document type, carried through as it is.
#[verifier::external_type_specification]
#[verifier::external_body]
pub struct ExValue(serde_json::Value);

/// `serde_json`'s error type, carried through as it is.
#[verifier::external_type_specification]
#[verifier::external_body]
pub struct ExJsonError(serde_json::Error);

/// `serde_json`'s object type, carried through as it is.
#[verifier::external_type_specification]
#[verifier::external_body]
#[verifier::reject_recursive_types(K)]
#[verifier::reject_recursive_types(V)]
pub struct ExMap<K, V>(serde_json::Map<K, V>);

/// The document that a `serde_json::Value` holds.
pub uninterp spec fn value_tree(v: serde_json::Value) -> JsonTree;

/// The members that a `serde_json::Map` holds, each with its document.
pub uninterp spec fn map_members(m: serde_json::Map<String, serde_json::Value>) -> Map<
    Seq<char>,
    JsonTree,
>;

/// The document that `serde_json::from_slice` reads from `bytes`, if it
/// accepts them.
pub uninterp spec fn bytes_tree(bytes: Seq<u8>) -> Option<JsonTree>;

/// The text that `serde_json::to_string_pretty` writes for a document.
pub uninterp spec fn pretty_text(tree: JsonTree) -> Seq<char>;

/// The text that `serde_json::to_string` writes for a document.
pub uninterp spec fn compact_text(tree: JsonTree) -> Seq<char>;

/// The top level of a `serde_json::Value`: its kind, and what it holds
/// directly.
pub enum Shape {
    Null,
    Bool(bool),
    Unsigned(u64),
    Signed(i64),
    Real,
    Text(String),
    Array(Vec<serde_json::Value>),
    Object(serde_json::Map<String, serde_json::Value>),
}

/// The documents of the items of an array.
pub open spec fn item_trees(items: Seq<serde_json::Value>) -> Seq<JsonTree> {
    Seq::new(items.len(), |i: int| value_tree(items[i]))
}

/// The names and documents of the members of an object.
pub open spec fn member_trees(members: Seq<(String, serde_json::Value)>) -> Seq<
    (Seq<char>, JsonTree),
> {
    Seq::new(members.len(), |i: int| (members[i].0@, value_tree(members[i].1)))
}

/// The document that a shape describes.
pub open spec fn shape_tree(s: Shape) -> JsonTree {
    match s {
        Shape::Null => JsonTree::Null,
        Shape::Bool(b) => JsonTree::Bool(b),
        Shape::Unsigned(n) => JsonTree::Integer(n as int),
        Shape::Signed(n) => JsonTree::Integer(n as int),
        Shape::Real => JsonTree::Real,
        Shape::Text(t) => JsonTree::Text(t@),
        Shape::Array(items) => JsonTree::Array(item_trees(items@)),
        Shape::Object(members) => JsonTree::Object(map_members(members)),
    }
}

/// Whether no name occurs twice among the members.
pub open spec fn distinct_names<V>(members: Seq<(Seq<char>, V)>) -> bool {
    forall|i: int, j: int|
        0 <= i < j < members.len() ==> (#[trigger] members[i]).0 != (#[trigger] members[j]).0
}

/// An object has the names of its members and no others, and finitely many.
pub proof fn lemma_object_of_names(members: Seq<(Seq<char>, JsonTree)>)
    ensures
        object_of(members).dom().finite(),
        forall|name: Seq<char>|
            object_of(members).contains_key(name) <==> exists|i: int|
                0 <= i < members.len() && (#[trigger] members[i]).0 == name,
    decreases members.len(),
{
    if members.len() > 0 {
        let front = members.drop_last();
        lemma_object_of_names(front);
        assert forall|name: Seq<char>|
            object_of(members).contains_key(name) <==> exists|i: int|
                0 <= i < members.len() && (#[trigger] members[i]).0 == name by {
            if object_of(members).contains_key(name) {
                if name == members.last().0 {
                    assert(members[members.len() - 1].0 == name);
                } else {
                    let i = choose|i: int| 0 <= i < front.len() && (#[trigger] front[i]).0 == name;
                    assert(members[i].0 == name);
                }
            }
            if exists|i: int| 0 <= i < members.len() && (#[trigger] members[i]).0 == name {
                let i = choose|i: int| 0 <= i < members.len() && (#[trigger] members[i]).0 == name;
                if i < members.len() - 1 {
                    assert(front[i].0 == name);
                }
            }
        }
    }
}

/// Where no name occurs twice, an object holds each member under its name.
pub proof fn lemma_object_of_member(members: Seq<(Seq<char>, JsonTree)>, k: int)
    requires
        distinct_names(members),
        0 <= k < members.len(),
    ensures
        object_of(members).contains_key(members[k].0),
        object_of(members)[members[k].0] == members[k].1,
    decreases members.len(),
{
    let front = members.drop_last();
    if k < members.len() - 1 {
        assert(distinct_names(front)) by {
            assert forall|i: int, j: int| 0 <= i < j < front.len() implies (#[trigger] front[i]).0
                != (#[trigger] front[j]).0 by {
                assert(members[i].0 != members[j].0);
            }
        }
        lemma_object_of_member(front, k);
        assert(front[k] == members[k]);
        assert(members[k].0 != members[members.len() - 1].0);
    }
}

/// An object holds under a name the last member of that name.
pub proof fn lemma_object_of_last(members: Seq<(Seq<char>, JsonTree)>, k: int)
    requires
        0 <= k < members.len(),
        forall|i: int| k < i < members.len() ==> (#[trigger] members[i]).0 != members[k].0,
    ensures
        object_of(members).contains_key(members[k].0),
        object_of(members)[members[k].0] == members[k].1,
    decreases members.len(),
{
    let front = members.drop_last();
    if k < members.len() - 1 {
        assert(members[members.len() - 1].0 != members[k].0);
        assert(front[k] == members[k]);
        assert forall|i: int| k < i < front.len() implies (#[trigger] front[i]).0 != front[k].0 by {
            assert(members[i].0 != members[k].0);
        }
        lemma_object_of_last(front, k);
    }
}

/// Reads a document with `serde_json::from_slice`.
///
/// The result is `Ok` exactly where `serde_json` accepts the bytes, and the
/// value then holds the document that it read.
#[verifier::external_body]
fn read_value(bytes: &[u8]) -> (r: Result<serde_json::Value, serde_json::Error>)
    ensures
        match r {
            Ok(v) => bytes_tree(bytes@) == Some(value_tree(v)),
            Err(_) => bytes_tree(bytes@) is None,
        },
{
    serde_json::from_slice::<serde_json::Value>(bytes)
}

/// Takes a `serde_json::Value` apart, one level deep.
///
/// A number is `Unsigned` where `as_u64` gives it, `Signed` where only
/// `as_i64` does, and `Real` otherwise.
#[verifier::external_body]
fn open_value(v: serde_json::Value) -> (s: Shape)
    ensures
        shape_tree(s) == value_tree(v),
{
    match v {
        serde_json::Value::Null => Shape::Null,
        serde_json::Value::Bool(b) => Shape::Bool(b),
        serde_json::Value::Number(n) => match (n.as_u64(), n.as_i64()) {
            (Some(u), _) => Shape::Unsigned(u),
            (None, Some(i)) => Shape::Signed(i),
            (None, None) => Shape::Real,
        },
        serde_json::Value::String(t) => Shape::Text(t),
        serde_json::Value::Array(items) => Shape::Array(items),
        serde_json::Value::Object(map) => Shape::Object(map),
    }
}

/// Builds a `serde_json::Value` from its top level. An unsigned or signed
/// number goes through `Value::from`. A `Real` holds no number to build from
/// and is left out.
#[verifier::external_body]
fn close_value(s: Shape) -> (v: serde_json::Value)
    requires
        !(s is Real),
    ensures
        value_tree(v) == shape_tree(s),
{
    match s {
        Shape::Null | Shape::Real => serde_json::Value::Null,
        Shape::Bool(b) => serde_json::Value::Bool(b),
        Shape::Unsigned(n) => serde_json::Value::from(n),
        Shape::Signed(n) => serde_json::Value::from(n),
        Shape::Text(t) => serde_json::Value::String(t),
        Shape::Array(items) => serde_json::Value::Array(items),
        Shape::Object(members) => serde_json::Value::Object(members),
    }
}

/// An empty object, from `serde_json::Map::new`.
#[verifier::external_body]
fn new_map() -> (object: serde_json::Map<String, serde_json::Value>)
    ensures
        map_members(object) == object_of(Seq::empty()),
{
    serde_json::Map::new()
}

/// Puts a member into an object with `serde_json::Map::insert`, which
/// replaces the value of a member of the same name.
#[verifier::external_body]
fn map_insert(
    object: &mut serde_json::Map<String, serde_json::Value>,
    name: String,
    value: serde_json::Value,
)
    ensures
        map_members(*final(object)) == map_members(*old(object)).insert(name@, value_tree(value)),
{
    object.insert(name, value);
}

/// The members of an object, as `serde_json::Map`'s iterator hands them out:
/// each member once.
#[verifier::external_body]
fn map_entries(object: serde_json::Map<String, serde_json::Value>) -> (members: Vec<
    (String, serde_json::Value),
>)
    ensures
        distinct_names(member_trees(members@)),
        object_of(member_trees(members@)) == map_members(object),
{
    object.into_iter().collect()
}

/// Whether every number in the document has its value.
pub open spec fn holds_no_real(tree: JsonTree) -> bool
    decreases tree,
{
    match tree {
        JsonTree::Real => false,
        JsonTree::Array(items) => forall|i: int|
            0 <= i < items.len() ==> holds_no_real(#[trigger] items[i]),
        JsonTree::Object(members) => forall|name: Seq<char>|
            members.contains_key(name) ==> holds_no_real(#[trigger] members[name]),
        _ => true,
    }
}

/// Writes a document with `serde_json::to_string_pretty`.
///
/// The call succeeds, and the text depends on the document that the value
/// holds and on nothing else. `serde_json` names two ways in which writing
/// can fail, a `Serialize` impl that fails and a map whose keys are not
/// strings; a `Value` has neither, and the text is written into memory. A
/// document with a number that is not an integer is left out: its text
/// depends on the number, which the document does not hold.
#[verifier::external_body]
fn write_pretty(v: &serde_json::Value) -> (r: Result<String, serde_json::Error>)
    requires
        holds_no_real(value_tree(*v)),
    ensures
        r is Ok,
        r matches Ok(text) ==> text@ == pretty_text(value_tree(*v)),
{
    serde_json::to_string_pretty(v)
}

/// Writes a document with `serde_json::to_string`.
///
/// The call succeeds, and the text depends on the document that the value
/// holds and on nothing else, for the reasons given for the indented text. A
/// document with a number that is not an integer is left out, as there.
#[verifier::external_body]
fn write_compact(v: &serde_json::Value) -> (r: Result<String, serde_json::Error>)
    requires
        holds_no_real(value_tree(*v)),
    ensures
        r is Ok,
        r matches Ok(text) ==> text@ == compact_text(value_tree(*v)),
{
    serde_json::to_string(v)
}

/// The message of a `serde_json::Error`, as its `Display` writes it.
#[verifier::external_body]
fn error_message(e: &serde_json::Error) -> String {
    format!("{}", e)
}

/// Why a document could not be read or written.
#[derive(Debug)]
pub struct JsonError {
    /// What `serde_json` reported, or what this crate found.
    pub message: String,
}

impl Json {
    /// Whether every number in the document has its value: whether no `Real`
    /// occurs in it.
    pub open spec fn is_exact(&self) -> bool
        decreases self,
    {
        match self {
            Json::Real => false,
            Json::Array(items) => forall|i: int|
                0 <= i < items@.len() ==> (#[trigger] items@[i]).is_exact(),
            Json::Object(members) => forall|i: int|
                0 <= i < members@.len() ==> (#[trigger] members@[i]).1.is_exact(),
            _ => true,
        }
    }
}

/// Converts what `serde_json` read into a tree.
pub fn tree_of_value(v: serde_json::Value) -> (j: Json)
    ensures
        j@ == value_tree(v),
    decreases value_tree(v),
{
    match open_value(v) {
        Shape::Null => Json::Null,
        Shape::Bool(b) => Json::Bool(b),
        Shape::Unsigned(n) => Json::Unsigned(n),
        Shape::Signed(n) => Json::Signed(n),
        Shape::Real => Json::Real,
        Shape::Text(t) => Json::Text(t),
        Shape::Array(items) => {
            let ghost trees = item_trees(items@);
            let mut out: Vec<Json> = Vec::new();
            for item in it: items
                invariant
                    it.seq() == items@,
                    trees == item_trees(items@),
                    value_tree(v) == JsonTree::Array(trees),
                    out@.len() == it.index(),
                    forall|k: int| 0 <= k < out@.len() ==> (#[trigger] out@[k])@ == trees[k],
            {
                proof {
                    assert(value_tree(item) == trees[it.index() as int]);
                    vstd::seq::axiom_seq_index_decreases(trees, it.index() as int);
                    assert(value_tree(v)->Array_0 == trees);
                }
                out.push(tree_of_value(item));
            }
            let j = Json::Array(out);
            assert(j@ == value_tree(v)) by {
                assert(j.item_views() =~= trees);
            }
            j
        },
        Shape::Object(map) => {
            let members = map_entries(map);
            let ghost trees = member_trees(members@);
            let mut out: Vec<(String, Json)> = Vec::new();
            proof {
                lemma_object_of_names(trees);
            }
            for member in it: members
                invariant
                    it.seq() == members@,
                    trees == member_trees(members@),
                    distinct_names(trees),
                    object_of(trees).dom().finite(),
                    value_tree(v) == JsonTree::Object(object_of(trees)),
                    out@.len() == it.index(),
                    forall|k: int|
                        0 <= k < out@.len() ==> (#[trigger] out@[k]).0@ == trees[k].0
                            && out@[k].1@ == trees[k].1,
            {
                let (name, value) = member;
                proof {
                    let k = it.index() as int;
                    assert(trees[k] == (name@, value_tree(value)));
                    lemma_object_of_member(trees, k);
                    vstd::map::axiom_map_index_decreases_finite(object_of(trees), name@);
                    assert(value_tree(v)->Object_0 == object_of(trees));
                }
                out.push((name, tree_of_value(value)));
            }
            let j = Json::Object(out);
            assert(j@ == value_tree(v)) by {
                assert(j.member_views() =~= trees);
            }
            j
        },
    }
}

/// Every value of an object is the value of one of its members.
pub proof fn lemma_object_of_values(members: Seq<(Seq<char>, JsonTree)>, name: Seq<char>)
    requires
        object_of(members).contains_key(name),
    ensures
        exists|i: int|
            0 <= i < members.len() && (#[trigger] members[i]) == (name, object_of(members)[name]),
    decreases members.len(),
{
    if members.len() > 0 {
        let front = members.drop_last();
        if members.last().0 == name {
            assert(members[members.len() - 1] == (name, object_of(members)[name]));
        } else {
            lemma_object_of_values(front, name);
            let i = choose|i: int|
                0 <= i < front.len() && (#[trigger] front[i]) == (name, object_of(front)[name]);
            assert(members[i] == (name, object_of(members)[name]));
        }
    }
}

/// A tree without a `Real` stands for a document without one.
pub proof fn lemma_exact_tree(j: Json)
    requires
        j.is_exact(),
    ensures
        holds_no_real(j@),
    decreases j,
{
    match j {
        Json::Array(items) => {
            let trees = j.item_views();
            assert forall|i: int| 0 <= i < trees.len() implies holds_no_real(#[trigger] trees[i]) by {
                assert(items@[i].is_exact());
                lemma_exact_tree(items@[i]);
                assert(trees[i] == items@[i]@);
            }
            assert(j@ == JsonTree::Array(trees));
        },
        Json::Object(members) => {
            let views = j.member_views();
            assert forall|name: Seq<char>| object_of(views).contains_key(name) implies holds_no_real(
                #[trigger] object_of(views)[name],
            ) by {
                lemma_object_of_values(views, name);
                let i = choose|i: int|
                    0 <= i < views.len() && (#[trigger] views[i]) == (name, object_of(views)[name]);
                assert(members@[i].1.is_exact());
                lemma_exact_tree(members@[i].1);
            }
        },
        _ => {},
    }
}

/// Converts a tree into what `serde_json` writes, unless a `Real` occurs in
/// it.
pub fn value_of_tree(j: &Json) -> (r: Option<serde_json::Value>)
    ensures
        r is Some <==> j.is_exact(),
        r matches Some(v) ==> value_tree(v) == j@,
    decreases j,
{
    match j {
        Json::Null => Some(close_value(Shape::Null)),
        Json::Bool(b) => Some(close_value(Shape::Bool(*b))),
        Json::Unsigned(n) => Some(close_value(Shape::Unsigned(*n))),
        Json::Signed(n) => Some(close_value(Shape::Signed(*n))),
        Json::Real => None,
        Json::Text(t) => Some(close_value(Shape::Text(t.clone()))),
        Json::Array(items) => {
            let mut values: Vec<serde_json::Value> = Vec::new();
            let mut i: usize = 0;
            while i < items.len()
                invariant
                    i <= items@.len(),
                    values@.len() == i,
                    forall|k: int| 0 <= k < i ==> (#[trigger] items@[k]).is_exact(),
                    forall|k: int| 0 <= k < i ==> value_tree(#[trigger] values@[k]) == items@[k]@,
                    j == Json::Array(*items),
                decreases items@.len() - i,
            {
                match value_of_tree(&items[i]) {
                    Some(v) => values.push(v),
                    None => {
                        return None;
                    },
                }
                i += 1;
            }
            let v = close_value(Shape::Array(values));
            assert(value_tree(v) == j@) by {
                assert(item_trees(values@) =~= j.item_views());
            }
            Some(v)
        },
        Json::Object(members) => {
            let ghost views = j.member_views();
            let mut map = new_map();
            let mut i: usize = 0;
            while i < members.len()
                invariant
                    i <= members@.len(),
                    j == Json::Object(*members),
                    views == j.member_views(),
                    forall|k: int| 0 <= k < i ==> (#[trigger] members@[k]).1.is_exact(),
                    map_members(map) == object_of(views.take(i as int)),
                decreases members@.len() - i,
            {
                proof {
                    assert(views.take(i + 1).drop_last() =~= views.take(i as int));
                    assert(views.take(i + 1).last() == (members@[i as int].0@, members@[i as int].1@));
                }
                match value_of_tree(&members[i].1) {
                    Some(v) => map_insert(&mut map, members[i].0.clone(), v),
                    None => {
                        return None;
                    },
                }
                i += 1;
            }
            assert(views.take(i as int) =~= views);
            Some(close_value(Shape::Object(map)))
        },
    }
}

/// What reading came to: the tree of the value that `serde_json` read, or
/// its error with the message.
pub fn tree_or_error(read: Result<serde_json::Value, serde_json::Error>) -> (r: Result<
    Json,
    JsonError,
>)
    ensures
        match (read, r) {
            (Ok(v), Ok(j)) => j@ == value_tree(v),
            (Err(_), Err(_)) => true,
            _ => false,
        },
{
    match read {
        Ok(v) => Ok(tree_of_value(v)),
        Err(e) => Err(JsonError { message: error_message(&e) }),
    }
}

/// What writing came to: the text that `serde_json` wrote, or its error with
/// the message.
pub fn text_or_error(written: Result<String, serde_json::Error>) -> (r: Result<String, JsonError>)
    ensures
        match (written, r) {
            (Ok(text), Ok(kept)) => kept@ == text@,
            (Err(_), Err(_)) => true,
            _ => false,
        },
{
    match written {
        Ok(text) => Ok(text),
        Err(e) => Err(JsonError { message: error_message(&e) }),
    }
}

impl Json {
    /// Reads a document from the bytes of a JSON text.
    ///
    /// `serde_json` decides whether the bytes are a document, and which.
    pub fn parse(bytes: &[u8]) -> (r: Result<Json, JsonError>)
        ensures
            match r {
                Ok(j) => bytes_tree(bytes@) == Some(j@),
                Err(_) => bytes_tree(bytes@) is None,
            },
    {
        tree_or_error(read_value(bytes))
    }

    /// Writes the document as indented text.
    ///
    /// A document that holds a `Real` is refused. Any other is written, and
    /// the result is the text that `serde_json` writes for it.
    pub fn to_pretty_text(&self) -> (r: Result<String, JsonError>)
        ensures
            match r {
                Ok(text) => self.is_exact() && text@ == pretty_text(self@),
                Err(_) => !self.is_exact(),
            },
    {
        match value_of_tree(self) {
            None => Err(JsonError { message: "a number without a value cannot be written".to_owned() }),
            Some(v) => {
                proof {
                    lemma_exact_tree(*self);
                }
                text_or_error(write_pretty(&v))
            },
        }
    }

    /// Writes the document as text on one line.
    ///
    /// A document that holds a `Real` is refused. Any other is written, and
    /// the result is the text that `serde_json` writes for it.
    pub fn to_compact_text(&self) -> (r: Result<String, JsonError>)
        ensures
            match r {
                Ok(text) => self.is_exact() && text@ == compact_text(self@),
                Err(_) => !self.is_exact(),
            },
    {
        match value_of_tree(self) {
            None => Err(JsonError { message: "a number without a value cannot be written".to_owned() }),
            Some(v) => {
                proof {
                    lemma_exact_tree(*self);
                }
                text_or_error(write_compact(&v))
            },
        }
    }

    /// The member of an object under `name`, if this is an object that has one.
    pub fn get<'a>(&'a self, name: &str) -> (r: Option<&'a Json>)
        ensures
            r is Some <==> (self@ is Object && self@->Object_0.contains_key(name@)),
            r matches Some(j) ==> j@ == self@->Object_0[name@],
    {
        match self {
            Json::Object(members) => {
                proof {
                    lemma_object_of_names(self.member_views());
                }
                let mut i: usize = members.len();
                while i > 0
                    invariant
                        i <= members@.len(),
                        self == Json::Object(*members),
                        forall|k: int| i <= k < members@.len() ==> (#[trigger] members@[k]).0@ != name@,
                    decreases i,
                {
                    i -= 1;
                    if same_text(members[i].0.as_str(), name) {
                        proof {
                            let views = self.member_views();
                            assert forall|k: int| i < k < views.len() implies (#[trigger] views[k]).0
                                != views[i as int].0 by {
                                assert(members@[k].0@ != name@);
                            }
                            lemma_object_of_last(views, i as int);
                        }
                        return Some(&members[i].1);
                    }
                }
                proof {
                    let views = self.member_views();
                    assert forall|k: int| 0 <= k < views.len() implies (#[trigger] views[k]).0
                        != name@ by {
                        assert(members@[k].0@ != name@);
                    }
                }
                None
            },
            _ => None,
        }
    }

    /// The text, if this is a string.
    pub fn as_str(&self) -> (r: Option<&str>)
        ensures
            r is Some <==> self@ is Text,
            r matches Some(t) ==> t@ == self@->Text_0,
    {
        match self {
            Json::Text(t) => Some(t.as_str()),
            _ => None,
        }
    }

    /// The number, if this is an integer from 0 to `u64::MAX`.
    pub fn as_u64(&self) -> (r: Option<u64>)
        ensures
            r is Some <==> (self@ is Integer && 0 <= self@->Integer_0 <= u64::MAX),
            r matches Some(n) ==> n == self@->Integer_0,
    {
        match self {
            Json::Unsigned(n) => Some(*n),
            Json::Signed(n) => if *n >= 0 {
                Some(*n as u64)
            } else {
                None
            },
            _ => None,
        }
    }
}

} // verus!
