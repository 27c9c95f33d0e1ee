//! JSON: the values, the trees that the bridge builds and reads, and their text form, which is
//! `serde_json`'s.
use vstd::prelude::*;

use crate::text::same_text;

verus! {

/// `serde_json`'s number. The bridge never looks inside one: it carries it along.
#[verifier::external_type_specification]
#[verifier::external_body]
pub struct ExNumber(serde_json::Number);

/// `serde_json`'s tree. Nothing is known of it but what `contents` names.
#[verifier::external_type_specification]
#[verifier::external_body]
pub struct ExValue(serde_json::Value);

/// A JSON value. An object is a map: the order in which its members were written is no part of
/// the value.
pub enum JsonView {
    Null,
    Bool(bool),
    Number(serde_json::Number),
    String(Seq<char>),
    Array(Seq<JsonView>),
    Object(Map<Seq<char>, JsonView>),
}

/// The member of an object with the name `name`; nothing of any other value.
pub open spec fn member(value: JsonView, name: Seq<char>) -> Option<JsonView> {
    match value {
        JsonView::Object(members) => if members.contains_key(name) {
            Some(members[name])
        } else {
            None
        },
        _ => None,
    }
}

/// The element of an array at `index`; nothing of any other value.
pub open spec fn element(value: JsonView, index: nat) -> Option<JsonView> {
    match value {
        JsonView::Array(items) => if index < items.len() {
            Some(items[index as int])
        } else {
            None
        },
        _ => None,
    }
}

/// The characters of a string; nothing of any other value.
pub open spec fn string_of(value: JsonView) -> Option<Seq<char>> {
    match value {
        JsonView::String(text) => Some(text),
        _ => None,
    }
}

/// The value of an optional tree.
pub open spec fn json_of(json: Option<Json>) -> Option<JsonView> {
    match json {
        Some(json) => Some(json@),
        None => None,
    }
}

/// A JSON tree.
#[derive(Debug)]
pub enum Json {
    Null,
    Bool(bool),
    Number(serde_json::Number),
    String(String),
    Array(Vec<Json>),
    Object(JsonObject),
}

/// The members of a JSON object. No name occurs twice.
#[derive(Debug)]
pub struct JsonObject {
    members: Vec<(String, Json)>,
}

/// Whether some member has the name `name`.
spec fn has_member(members: Seq<(String, Json)>, name: Seq<char>) -> bool {
    exists|i: int| 0 <= i < members.len() && #[trigger] members[i].0@ == name
}

/// The position of a member with the name `name`.
spec fn member_at(members: Seq<(String, Json)>, name: Seq<char>) -> int {
    choose|i: int| 0 <= i < members.len() && #[trigger] members[i].0@ == name
}

/// Whether no name occurs twice.
spec fn names_differ(members: Seq<(String, Json)>) -> bool {
    forall|i: int, j: int|
        0 <= i < j < members.len() ==> #[trigger] members[i].0@ != #[trigger] members[j].0@
}

/// The value that a tree stands for.
pub closed spec fn json_view(json: Json) -> JsonView
    decreases json,
{
    match json {
        Json::Null => JsonView::Null,
        Json::Bool(b) => JsonView::Bool(b),
        Json::Number(n) => JsonView::Number(n),
        Json::String(s) => JsonView::String(s@),
        Json::Array(items) => JsonView::Array(
            Seq::new(
                items@.len(),
                |i: int| if 0 <= i < items@.len() { json_view(items@[i]) } else { JsonView::Null },
            ),
        ),
        Json::Object(object) => JsonView::Object(
            Map::new(
                |name: Seq<char>| has_member(object.members@, name),
                |name: Seq<char>|
                    {
                        let i = member_at(object.members@, name);
                        if 0 <= i < object.members@.len() {
                            json_view(object.members@[i].1)
                        } else {
                            JsonView::Null
                        }
                    },
            ),
        ),
    }
}

impl View for Json {
    type V = JsonView;

    open spec fn view(&self) -> JsonView {
        json_view(*self)
    }
}

impl View for JsonObject {
    type V = Map<Seq<char>, JsonView>;

    closed spec fn view(&self) -> Map<Seq<char>, JsonView> {
        json_view(Json::Object(*self))->Object_0
    }
}

/// What a tree stands for, read off its root.
pub broadcast proof fn lemma_json_view(json: Json)
    ensures
        #[trigger] json_view(json) == (match json {
            Json::Null => JsonView::Null,
            Json::Bool(b) => JsonView::Bool(b),
            Json::Number(n) => JsonView::Number(n),
            Json::String(s) => JsonView::String(s@),
            Json::Array(items) => JsonView::Array(
                Seq::new(items@.len(), |i: int| items@[i]@),
            ),
            Json::Object(object) => JsonView::Object(object@),
        }),
{
    if let Json::Array(items) = json {
        assert(json_view(json)->Array_0 =~= Seq::new(items@.len(), |i: int| items@[i]@));
    }
}

/// The value at a name is that of the one member which has it.
proof fn lemma_member_value(object: JsonObject, i: int)
    requires
        names_differ(object.members@),
        0 <= i < object.members@.len(),
    ensures
        object@.contains_key(object.members@[i].0@),
        object@[object.members@[i].0@] == object.members@[i].1@,
{
    let name = object.members@[i].0@;
    assert(has_member(object.members@, name));
    let at = member_at(object.members@, name);
    assert(object.members@[at].0@ == name);
    assert(at == i);
}

/// A name at which there is a value belongs to a member.
proof fn lemma_value_member(object: JsonObject, name: Seq<char>) -> (i: int)
    requires
        object@.contains_key(name),
    ensures
        0 <= i < object.members@.len(),
        object.members@[i].0@ == name,
{
    assert(has_member(object.members@, name));
    member_at(object.members@, name)
}

/// An object is told by its members.
proof fn lemma_members_tell(object: JsonObject, view: Map<Seq<char>, JsonView>)
    requires
        names_differ(object.members@),
        forall|i: int|
            0 <= i < object.members@.len() ==> view.contains_key(
                #[trigger] object.members@[i].0@,
            ) && view[object.members@[i].0@] == object.members@[i].1@,
        forall|name: Seq<char>| #[trigger]
            view.contains_key(name) ==> has_member(object.members@, name),
    ensures
        object@ == view,
{
    assert forall|name: Seq<char>| object@.contains_key(name) == view.contains_key(name) by {
        if object@.contains_key(name) {
            let i = lemma_value_member(object, name);
        }
        if view.contains_key(name) {
            let i = member_at(object.members@, name);
            assert(object.members@[i].0@ == name);
            lemma_member_value(object, i);
        }
    }
    assert forall|name: Seq<char>| object@.contains_key(name) implies object@[name]
        == view[name] by {
        let i = lemma_value_member(object, name);
        lemma_member_value(object, i);
    }
    assert(object@ =~= view);
}

/// The trees inside an array are smaller than it.
proof fn lemma_items_smaller(json: Json, i: int)
    requires
        json is Array,
        0 <= i < json->Array_0@.len(),
    ensures
        decreases_to!(json => json->Array_0@[i]),
{
    assert(decreases_to!(json => json->Array_0));
    assert(decreases_to!(json->Array_0 => json->Array_0@[i]));
}

/// The trees inside an object are smaller than it.
proof fn lemma_members_smaller(json: Json, i: int)
    requires
        json is Object,
        0 <= i < json->Object_0.members@.len(),
    ensures
        decreases_to!(json => json->Object_0.members@[i].1),
{
    let object = json->Object_0;
    assert(decreases_to!(json => object));
    assert(decreases_to!(object => object.members));
    assert(decreases_to!(object.members => object.members@[i]));
    assert(decreases_to!(object.members@[i] => object.members@[i].1));
}

/// The position of the member with the name `name`, where there is one.
fn position(members: &Vec<(String, Json)>, name: &str) -> (at: Option<usize>)
    ensures
        match at {
            Some(i) => i < members@.len() && members@[i as int].0@ == name@,
            None => !has_member(members@, name@),
        },
{
    let mut i: usize = 0;
    while i < members.len()
        invariant
            i <= members@.len(),
            forall|k: int| 0 <= k < i ==> #[trigger] members@[k].0@ != name@,
        decreases members@.len() - i,
    {
        if same_text(members[i].0.as_str(), name) {
            return Some(i);
        }
        i = i + 1;
    }
    None
}

impl JsonObject {
    #[verifier::type_invariant]
    spec fn well_formed(self) -> bool {
        names_differ(self.members@)
    }

    /// The object without members.
    pub fn new() -> (object: JsonObject)
        ensures
            object@ == Map::<Seq<char>, JsonView>::empty(),
    {
        let object = JsonObject { members: Vec::new() };
        proof {
            lemma_members_tell(object, Map::empty());
        }
        object
    }

    /// The value at `name`, where there is one.
    pub fn get(&self, name: &str) -> (value: Option<&Json>)
        ensures
            match value {
                Some(json) => self@.contains_key(name@) && self@[name@] == json@,
                None => !self@.contains_key(name@),
            },
    {
        proof {
            use_type_invariant(self);
        }
        match position(&self.members, name) {
            Some(i) => {
                proof {
                    lemma_member_value(*self, i as int);
                }
                Some(&self.members[i].1)
            },
            None => {
                proof {
                    if self@.contains_key(name@) {
                        let i = lemma_value_member(*self, name@);
                    }
                }
                None
            },
        }
    }

    /// Takes out the member with the name `name` and gives its value, where there is one.
    pub fn remove(&mut self, name: &str) -> (value: Option<Json>)
        ensures
            final(self)@ == old(self)@.remove(name@),
            match value {
                Some(json) => old(self)@.contains_key(name@) && old(self)@[name@] == json@,
                None => !old(self)@.contains_key(name@),
            },
    {
        proof {
            use_type_invariant(&*self);
        }
        let ghost before = *self;
        let mut members: Vec<(String, Json)> = Vec::new();
        std::mem::swap(&mut members, &mut self.members);
        match position(&members, name) {
            Some(i) => {
                let ghost all = members@;
                let taken = members.remove(i);
                self.members = members;
                proof {
                    lemma_member_value(before, i as int);
                    let after = *self;
                    let view = before@.remove(name@);
                    assert forall|k: int| 0 <= k < after.members@.len() implies view.contains_key(
                        #[trigger] after.members@[k].0@,
                    ) && view[after.members@[k].0@] == after.members@[k].1@ by {
                        let source = if k < i { k } else { k + 1 };
                        assert(after.members@[k] == all[source]);
                        lemma_member_value(before, source);
                    }
                    assert forall|key: Seq<char>| #[trigger] view.contains_key(key) implies has_member(
                        after.members@,
                        key,
                    ) by {
                        let source = lemma_value_member(before, key);
                        let k = if source < i { source } else { source - 1 };
                        assert(after.members@[k] == all[source]);
                    }
                    lemma_members_tell(after, view);
                }
                Some(taken.1)
            },
            None => {
                self.members = members;
                proof {
                    assert(*self == before);
                    if before@.contains_key(name@) {
                        let i = lemma_value_member(before, name@);
                    }
                    assert(before@.remove(name@) =~= before@);
                }
                None
            },
        }
    }

    /// Puts `value` at `name`, in place of the value that is there.
    pub fn insert(&mut self, name: String, value: Json)
        ensures
            final(self)@ == old(self)@.insert(name@, value@),
    {
        let ghost initial = self@;
        let displaced = self.remove(name.as_str());
        proof {
            use_type_invariant(&*self);
        }
        let ghost before = *self;
        let mut members: Vec<(String, Json)> = Vec::new();
        std::mem::swap(&mut members, &mut self.members);
        let ghost entry = (name, value);
        members.push((name, value));
        proof {
            assert forall|i: int| 0 <= i < before.members@.len() implies #[trigger]
                before.members@[i].0@ != entry.0@ by {
                lemma_member_value(before, i);
            }
        }
        self.members = members;
        proof {
            let after = *self;
            let view = initial.insert(entry.0@, entry.1@);
            assert forall|k: int| 0 <= k < after.members@.len() implies view.contains_key(
                #[trigger] after.members@[k].0@,
            ) && view[after.members@[k].0@] == after.members@[k].1@ by {
                if k < before.members@.len() {
                    assert(after.members@[k] == before.members@[k]);
                    lemma_member_value(before, k);
                }
            }
            assert forall|key: Seq<char>| #[trigger] view.contains_key(key) implies has_member(
                after.members@,
                key,
            ) by {
                if key == entry.0@ {
                    assert(after.members@[before.members@.len() as int].0@ == key);
                } else {
                    assert(before@.contains_key(key));
                    let source = lemma_value_member(before, key);
                    assert(after.members@[source] == before.members@[source]);
                }
            }
            lemma_members_tell(after, view);
        }
    }
}

/// What a `serde_json` tree holds.
pub uninterp spec fn contents(value: serde_json::Value) -> JsonView;

/// The value that `serde_json` reads from a text, where the text is JSON.
pub uninterp spec fn json_parsed(text: Seq<u8>) -> Option<JsonView>;

/// The text that `serde_json` writes for a value.
pub uninterp spec fn json_text(value: JsonView) -> Seq<u8>;

/// `serde_json::Number`'s copy is the same number.
pub assume_specification[ <serde_json::Number as Clone>::clone ](number: &serde_json::Number) -> (r:
    serde_json::Number)
    ensures
        r == *number,
;

/// The root of a `serde_json` tree, with the trees below it.
enum Node {
    Null,
    Bool(bool),
    Number(serde_json::Number),
    String(String),
    Array(Vec<serde_json::Value>),
    Object(Vec<(String, serde_json::Value)>),
}

/// Whether no name occurs twice among the members of the root.
spec fn node_names_differ(node: Node) -> bool {
    node matches Node::Object(members) ==> forall|i: int, j: int|
        0 <= i < j < members@.len() ==> #[trigger] members@[i].0@ != #[trigger] members@[j].0@
}

/// Whether the members of an object, each once, are `members`.
spec fn lists(members: Seq<(String, serde_json::Value)>, view: Map<Seq<char>, JsonView>) -> bool {
    &&& view.dom().finite()
    &&& forall|i: int|
        0 <= i < members.len() ==> view.contains_key(#[trigger] members[i].0@)
            && view[members[i].0@] == contents(members[i].1)
    &&& forall|name: Seq<char>| #[trigger]
        view.contains_key(name) ==> exists|i: int|
            0 <= i < members.len() && #[trigger] members[i].0@ == name
}

/// Whether `node` is the root of a tree that holds `view`.
spec fn is_root(node: Node, view: JsonView) -> bool {
    match node {
        Node::Null => view == JsonView::Null,
        Node::Bool(b) => view == JsonView::Bool(b),
        Node::Number(n) => view == JsonView::Number(n),
        Node::String(s) => view == JsonView::String(s@),
        Node::Array(items) => view == JsonView::Array(
            Seq::new(items@.len(), |i: int| contents(items@[i])),
        ),
        Node::Object(members) => view is Object && lists(members@, view->Object_0),
    }
}

/// Tells the variants of `serde_json::Value` apart and hands out what each holds; a map hands out
/// its entries, and no key of a map occurs twice.
#[verifier::external_body]
fn open_value(value: serde_json::Value) -> (node: Node)
    ensures
        is_root(node, contents(value)),
        node_names_differ(node),
{
    match value {
        serde_json::Value::Null => Node::Null,
        serde_json::Value::Bool(b) => Node::Bool(b),
        serde_json::Value::Number(n) => Node::Number(n),
        serde_json::Value::String(s) => Node::String(s),
        serde_json::Value::Array(items) => Node::Array(items),
        serde_json::Value::Object(members) => Node::Object(members.into_iter().collect()),
    }
}

/// Builds the variant of `serde_json::Value` that `node` stands for; a map is collected from its
/// entries, of which it keeps every one because no two have the same key.
#[verifier::external_body]
fn close_value(node: Node) -> (value: serde_json::Value)
    requires
        node_names_differ(node),
    ensures
        is_root(node, contents(value)),
{
    match node {
        Node::Null => serde_json::Value::Null,
        Node::Bool(b) => serde_json::Value::Bool(b),
        Node::Number(n) => serde_json::Value::Number(n),
        Node::String(s) => serde_json::Value::String(s),
        Node::Array(items) => serde_json::Value::Array(items),
        Node::Object(members) => serde_json::Value::Object(members.into_iter().collect()),
    }
}

/// Whether a number is held as a floating-point number, not as an integer.
pub uninterp spec fn is_float(number: serde_json::Number) -> bool;

/// `serde_json::Number::is_f64` tells whether a number is held as a floating-point number. Any
/// other is held as an integer.
pub assume_specification[ serde_json::Number::is_f64 ](number: &serde_json::Number) -> (r: bool)
    ensures
        r == is_float(*number),
;

/// Whether a value nests no deeper than `depth` and holds no number but integers.
pub open spec fn is_plain(value: JsonView, depth: nat) -> bool
    decreases depth,
{
    match value {
        JsonView::Null | JsonView::Bool(_) | JsonView::String(_) => true,
        JsonView::Number(number) => !is_float(number),
        JsonView::Array(items) => depth > 0 && forall|i: int|
            0 <= i < items.len() ==> is_plain(#[trigger] items[i], (depth - 1) as nat),
        JsonView::Object(members) => depth > 0 && forall|name: Seq<char>| #[trigger]
            members.contains_key(name) ==> is_plain(members[name], (depth - 1) as nat),
    }
}

/// `serde_json::from_slice` reads a tree from JSON text and fails on any other text.
#[verifier::external_body]
fn read_value(text: &[u8]) -> (value: Option<serde_json::Value>)
    ensures
        match value {
            Some(value) => json_parsed(text@) == Some(contents(value)),
            None => json_parsed(text@) is None,
        },
{
    serde_json::from_slice(text).ok()
}

/// `serde_json::to_vec` writes the text of a tree. Where the tree holds no number but integers and
/// stays within the depth that the reader accepts, the reader gets the same value back. (Of a tree
/// with floating-point numbers that is left unsaid: one can come back as its neighbour.)
#[verifier::external_body]
fn write_value(value: &serde_json::Value) -> (text: Vec<u8>)
    ensures
        text@ == json_text(contents(*value)),
        is_plain(contents(*value), 127) ==> json_parsed(text@) == Some(contents(*value)),
{
    serde_json::to_vec(value).unwrap_or_default()
}

impl Json {
    /// The tree that a `serde_json` tree holds.
    pub fn from_value(value: serde_json::Value) -> (json: Json)
        ensures
            json@ == contents(value),
        decreases contents(value),
    {
        let ghost view = contents(value);
        match open_value(value) {
            Node::Null => Json::Null,
            Node::Bool(b) => Json::Bool(b),
            Node::Number(n) => Json::Number(n),
            Node::String(s) => Json::String(s),
            Node::Array(values) => {
                let mut items: Vec<Json> = Vec::new();
                for item in it: values
                    invariant
                        it.seq() == values@,
                        view == contents(value),
                        view == JsonView::Array(Seq::new(values@.len(), |i: int| contents(values@[i]))),
                        items@.len() == it.index(),
                        forall|i: int| 0 <= i < items@.len() ==> items@[i]@ == contents(values@[i]),
                {
                    proof {
                        let i = it.index() as int;
                        assert(view->Array_0[i] == contents(item));
                        assert(decreases_to!(view => view->Array_0[i]));
                    }
                    items.push(Json::from_value(item));
                }
                let json = Json::Array(items);
                proof {
                    lemma_json_view(json);
                    assert(json@->Array_0 =~= view->Array_0);
                }
                json
            },
            Node::Object(values) => {
                let mut members: Vec<(String, Json)> = Vec::new();
                for entry in it: values
                    invariant
                        it.seq() == values@,
                        view == contents(value),
                        view is Object,
                        lists(values@, view->Object_0),
                        members@.len() == it.index(),
                        forall|i: int| 0 <= i < members@.len() ==> {
                            &&& (#[trigger] members@[i]).0@ == values@[i].0@
                            &&& members@[i].1@ == contents(values@[i].1)
                        },
                {
                    proof {
                        let i = it.index() as int;
                        assert(values@[i] == entry);
                        assert(view->Object_0.contains_key(values@[i].0@));
                        assert(decreases_to!(view => view->Object_0[values@[i].0@]));
                    }
                    let (name, item) = entry;
                    members.push((name, Json::from_value(item)));
                }
                proof {
                    assert forall|i: int, j: int| 0 <= i < j < members@.len() implies #[trigger]
                        members@[i].0@ != #[trigger] members@[j].0@ by {
                        assert(values@[i].0@ != values@[j].0@);
                    }
                }
                let object = JsonObject { members };
                proof {
                    assert forall|name: Seq<char>| #[trigger] view->Object_0.contains_key(
                        name,
                    ) implies has_member(object.members@, name) by {
                        let i = choose|i: int|
                            0 <= i < values@.len() && #[trigger] values@[i].0@ == name;
                        assert(object.members@[i].0@ == name);
                    }
                    lemma_members_tell(object, view->Object_0);
                    lemma_json_view(Json::Object(object));
                }
                Json::Object(object)
            },
        }
    }

    /// The `serde_json` tree that holds this one.
    pub fn into_value(self) -> (value: serde_json::Value)
        ensures
            contents(value) == self@,
        decreases self,
    {
        let ghost view = self@;
        proof {
            lemma_json_view(self);
        }
        match self {
            Json::Null => close_value(Node::Null),
            Json::Bool(b) => close_value(Node::Bool(b)),
            Json::Number(n) => close_value(Node::Number(n)),
            Json::String(s) => close_value(Node::String(s)),
            Json::Array(items) => {
                let mut values: Vec<serde_json::Value> = Vec::new();
                for item in it: items
                    invariant
                        it.seq() == items@,
                        self == Json::Array(items),
                        values@.len() == it.index(),
                        forall|i: int| 0 <= i < values@.len() ==> contents(values@[i]) == items@[i]@,
                {
                    proof {
                        let i = it.index() as int;
                        assert(items@[i] == item);
                        lemma_items_smaller(self, i);
                    }
                    values.push(item.into_value());
                }
                proof {
                    assert(view->Array_0 =~= Seq::new(values@.len(), |i: int| contents(values@[i])));
                }
                close_value(Node::Array(values))
            },
            Json::Object(object) => {
                proof {
                    use_type_invariant(&object);
                }
                let members = object.members;
                let mut values: Vec<(String, serde_json::Value)> = Vec::new();
                for entry in it: members
                    invariant
                        it.seq() == members@,
                        members == object.members,
                        self == Json::Object(object),
                        names_differ(object.members@),
                        values@.len() == it.index(),
                        forall|i: int| 0 <= i < values@.len() ==> {
                            &&& (#[trigger] values@[i]).0@ == members@[i].0@
                            &&& contents(values@[i].1) == members@[i].1@
                        },
                {
                    proof {
                        let i = it.index() as int;
                        assert(members@[i] == entry);
                        lemma_members_smaller(self, i);
                    }
                    let (name, item) = entry;
                    values.push((name, item.into_value()));
                }
                let node = Node::Object(values);
                proof {
                    assert forall|i: int, j: int| 0 <= i < j < values@.len() implies #[trigger]
                        values@[i].0@ != #[trigger] values@[j].0@ by {
                        assert(members@[i].0@ != members@[j].0@);
                    }
                }
                let value = close_value(node);
                proof {
                    let held = contents(value)->Object_0;
                    assert forall|i: int| 0 <= i < object.members@.len() implies held.contains_key(
                        #[trigger] object.members@[i].0@,
                    ) && held[object.members@[i].0@] == object.members@[i].1@ by {
                        assert(values@[i].0@ == members@[i].0@);
                    }
                    assert forall|name: Seq<char>| #[trigger] held.contains_key(
                        name,
                    ) implies has_member(object.members@, name) by {
                        let i = choose|i: int|
                            0 <= i < values@.len() && #[trigger] values@[i].0@ == name;
                        assert(object.members@[i].0@ == name);
                    }
                    lemma_members_tell(object, held);
                }
                value
            },
        }
    }

    /// The tree whose text is `text`, where that is JSON.
    pub fn parse(text: &[u8]) -> (json: Option<Json>)
        ensures
            json_of(json) == json_parsed(text@),
    {
        match read_value(text) {
            Some(value) => Some(Json::from_value(value)),
            None => None,
        }
    }

    /// The text of the tree.
    pub fn to_text(&self) -> (text: Vec<u8>)
        ensures
            text@ == json_text(self@),
            is_plain(self@, 127) ==> json_parsed(text@) == Some(self@),
    {
        write_value(&self.clone().into_value())
    }

    /// Whether the text of the tree is sure to be read back as the same value.
    pub fn reads_back(&self) -> (yes: bool)
        ensures
            yes == is_plain(self@, 127),
    {
        self.is_plain_within(127)
    }

    /// Whether the tree nests no deeper than `depth` and holds no number but integers.
    fn is_plain_within(&self, depth: usize) -> (yes: bool)
        ensures
            yes == is_plain(self@, depth as nat),
        decreases depth,
    {
        broadcast use lemma_json_view;
        match self {
            Json::Null | Json::Bool(_) | Json::String(_) => true,
            Json::Number(number) => !number.is_f64(),
            Json::Array(items) => {
                if depth == 0 {
                    return false;
                }
                let ghost view = self@->Array_0;
                let mut i: usize = 0;
                while i < items.len()
                    invariant
                        depth > 0,
                        i <= items@.len(),
                        self@ == JsonView::Array(view),
                        view == Seq::new(items@.len(), |k: int| items@[k]@),
                        forall|k: int| 0 <= k < i ==> is_plain(
                            #[trigger] view[k],
                            (depth - 1) as nat,
                        ),
                    decreases items@.len() - i,
                {
                    if !items[i].is_plain_within(depth - 1) {
                        assert(!is_plain(self@->Array_0[i as int], (depth as nat - 1) as nat));
                        return false;
                    }
                    i = i + 1;
                }
                true
            },
            Json::Object(object) => {
                if depth == 0 {
                    return false;
                }
                proof {
                    use_type_invariant(object);
                }
                let members = &object.members;
                let mut i: usize = 0;
                while i < members.len()
                    invariant
                        depth > 0,
                        i <= members@.len(),
                        self@ == JsonView::Object(object@),
                        *members == object.members,
                        names_differ(members@),
                        forall|k: int| 0 <= k < i ==> is_plain(
                            (#[trigger] members@[k]).1@,
                            (depth - 1) as nat,
                        ),
                    decreases members@.len() - i,
                {
                    if !members[i].1.is_plain_within(depth - 1) {
                        proof {
                            lemma_member_value(*object, i as int);
                        }
                        return false;
                    }
                    i = i + 1;
                }
                proof {
                    assert forall|name: Seq<char>| #[trigger] object@.contains_key(
                        name,
                    ) implies is_plain(object@[name], (depth - 1) as nat) by {
                        let k = lemma_value_member(*object, name);
                        lemma_member_value(*object, k);
                        assert(is_plain(members@[k].1@, (depth - 1) as nat));
                    }
                }
                true
            },
        }
    }

    /// The member of an object with the name `name`.
    pub fn get(&self, name: &str) -> (value: Option<&Json>)
        ensures
            match value {
                Some(json) => member(self@, name@) == Some(json@),
                None => member(self@, name@) is None,
            },
    {
        broadcast use lemma_json_view;
        match self {
            Json::Object(object) => object.get(name),
            _ => None,
        }
    }

    /// The element of an array at `index`.
    pub fn at(&self, index: usize) -> (value: Option<&Json>)
        ensures
            match value {
                Some(json) => element(self@, index as nat) == Some(json@) && index < usize::MAX,
                None => element(self@, index as nat) is None,
            },
    {
        broadcast use lemma_json_view;
        match self {
            Json::Array(items) => if index < items.len() {
                Some(&items[index])
            } else {
                None
            },
            _ => None,
        }
    }

    /// The characters of a string.
    pub fn as_str(&self) -> (text: Option<&str>)
        ensures
            match text {
                Some(text) => string_of(self@) == Some(text@),
                None => string_of(self@) is None,
            },
    {
        broadcast use lemma_json_view;
        match self {
            Json::String(text) => Some(text.as_str()),
            _ => None,
        }
    }

    /// The tree that is a string.
    pub fn string(text: &str) -> (json: Json)
        ensures
            json@ == JsonView::String(text@),
    {
        broadcast use lemma_json_view;
        Json::String(text.to_owned())
    }
}

impl Clone for Json {
    fn clone(&self) -> (copy: Json)
        ensures
            copy@ == self@,
        decreases self,
    {
        broadcast use lemma_json_view;
        match self {
            Json::Null => Json::Null,
            Json::Bool(b) => Json::Bool(*b),
            Json::Number(n) => Json::Number(n.clone()),
            Json::String(s) => Json::String(s.clone()),
            Json::Array(items) => {
                let mut copies: Vec<Json> = Vec::new();
                let mut i: usize = 0;
                while i < items.len()
                    invariant
                        i <= items@.len(),
                        copies@.len() == i,
                        *self == Json::Array(*items),
                        forall|k: int| 0 <= k < i ==> copies@[k]@ == items@[k]@,
                    decreases items@.len() - i,
                {
                    proof {
                        lemma_items_smaller(*self, i as int);
                    }
                    copies.push(items[i].clone());
                    i = i + 1;
                }
                let copy = Json::Array(copies);
                proof {
                    assert(copy@->Array_0 =~= self@->Array_0);
                }
                copy
            },
            Json::Object(object) => {
                proof {
                    use_type_invariant(object);
                }
                let members = &object.members;
                let mut copies: Vec<(String, Json)> = Vec::new();
                let mut i: usize = 0;
                while i < members.len()
                    invariant
                        i <= members@.len(),
                        copies@.len() == i,
                        *members == object.members,
                        names_differ(members@),
                        *self == Json::Object(*object),
                        forall|k: int| 0 <= k < i ==> {
                            &&& (#[trigger] copies@[k]).0@ == members@[k].0@
                            &&& copies@[k].1@ == members@[k].1@
                        },
                    decreases members@.len() - i,
                {
                    proof {
                        lemma_members_smaller(*self, i as int);
                    }
                    copies.push((members[i].0.clone(), members[i].1.clone()));
                    i = i + 1;
                }
                proof {
                    assert forall|i: int, j: int| 0 <= i < j < copies@.len() implies #[trigger]
                        copies@[i].0@ != #[trigger] copies@[j].0@ by {
                        assert(members@[i].0@ != members@[j].0@);
                    }
                }
                let copy = JsonObject { members: copies };
                proof {
                    assert forall|k: int| 0 <= k < copy.members@.len() implies object@.contains_key(
                        #[trigger] copy.members@[k].0@,
                    ) && object@[copy.members@[k].0@] == copy.members@[k].1@ by {
                        lemma_member_value(*object, k);
                    }
                    assert forall|name: Seq<char>| #[trigger] object@.contains_key(
                        name,
                    ) implies has_member(copy.members@, name) by {
                        let k = lemma_value_member(*object, name);
                        assert(copy.members@[k].0@ == name);
                    }
                    lemma_members_tell(copy, object@);
                }
                Json::Object(copy)
            },
        }
    }
}

/// An object has at a name what was put there last, and nothing where that was taken away; what is
/// done at one name does not touch another. Nothing but an object has members.
pub proof fn law_members_are_what_was_put_there(
    members: Map<Seq<char>, JsonView>,
    name: Seq<char>,
    other: Seq<char>,
    value: JsonView,
)
    ensures
        member(JsonView::Object(members.insert(name, value)), name) == Some(value),
        member(JsonView::Object(members.remove(name)), name) is None,
        member(JsonView::Object(Map::empty()), name) is None,
        name != other ==> member(JsonView::Object(members.insert(name, value)), other) == member(
            JsonView::Object(members),
            other,
        ),
        !(value is Object) ==> member(value, name) is None,
{
}

/// An array has at each of its positions what stands there, and nothing beyond. Nothing but an
/// array has elements.
pub proof fn law_elements_stand_at_their_positions(
    before: Seq<JsonView>,
    value: JsonView,
    after: Seq<JsonView>,
    beyond: nat,
)
    ensures
        element(JsonView::Array(before.push(value) + after), before.len()) == Some(value),
        beyond >= before.len() ==> element(JsonView::Array(before), beyond) is None,
        !(value is Array) ==> element(value, beyond) is None,
{
}

/// A string is its characters, and nothing else is a string.
pub proof fn law_only_strings_are_text(value: JsonView, text: Seq<char>)
    ensures
        string_of(value) == Some(text) <==> value == JsonView::String(text),
        !(value is String) ==> string_of(value) is None,
{
}

/// What is plain: a value that is no number, array or object; an integer; an array or object of
/// values that are plain one level below.
pub proof fn law_plain_values(
    items: Seq<JsonView>,
    members: Map<Seq<char>, JsonView>,
    number: serde_json::Number,
    text: Seq<char>,
    flag: bool,
    depth: nat,
)
    ensures
        is_plain(JsonView::Null, depth),
        is_plain(JsonView::Bool(flag), depth),
        is_plain(JsonView::String(text), depth),
        is_plain(JsonView::Number(number), depth) <==> !is_float(number),
        !is_plain(JsonView::Array(items), 0),
        !is_plain(JsonView::Object(members), 0),
        depth > 0 ==> (is_plain(JsonView::Array(items), depth) <==> forall|i: int|
            0 <= i < items.len() ==> is_plain(#[trigger] items[i], (depth - 1) as nat)),
        depth > 0 ==> (is_plain(JsonView::Object(members), depth) <==> forall|name: Seq<char>|
            #[trigger]
            members.contains_key(name) ==> is_plain(members[name], (depth - 1) as nat)),
{
    if depth > 0 {
        let array = JsonView::Array(items);
        if is_plain(array, depth) {
            assert forall|i: int| 0 <= i < items.len() implies is_plain(
                #[trigger] items[i],
                (depth - 1) as nat,
            ) by {
                assert(array->Array_0[i] == items[i]);
            }
        }
        if forall|i: int|
            0 <= i < items.len() ==> is_plain(#[trigger] items[i], (depth - 1) as nat) {
            assert forall|i: int| 0 <= i < array->Array_0.len() implies is_plain(
                #[trigger] array->Array_0[i],
                (depth - 1) as nat,
            ) by {
                assert(is_plain(items[i], (depth - 1) as nat));
            }
            assert(is_plain(array, depth));
        }
        let object = JsonView::Object(members);
        if is_plain(object, depth) {
            assert forall|name: Seq<char>| #[trigger] members.contains_key(name) implies is_plain(
                members[name],
                (depth - 1) as nat,
            ) by {
                assert(object->Object_0.contains_key(name));
            }
        }
    }
}

} // verus!
