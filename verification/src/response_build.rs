//! Assembly of a JSON object from named values.
//!
//! A name may be dotted: `data.taskRef` puts the value into an object at `data`. Each value stands
//! at its place as it was given. Earlier fields win: a later field whose place is taken, or lies
//! inside a value that an earlier field has placed, is left out and reported.
use vstd::prelude::*;

use crate::json::{lemma_json_view, member, Json, JsonObject, JsonView};
use crate::select::{resolve_tokens, select_view, without_payload};
use crate::text::{
    first_of, lemma_first_of, lemma_is_first_of, same_text, split_on, split_text, texts_of, trimmed,
};

verus! {

/// A value and the dotted name of its place.
pub struct BuiltField {
    pub name: String,
    pub value: Json,
}

/// The assembled object, and the names of the fields that it has no place for.
pub struct Assembled {
    pub object: Json,
    pub collisions: Vec<String>,
}

/// What stands at `path` in `value`, member by member.
pub open spec fn lookup(value: JsonView, path: Seq<Seq<char>>) -> Option<JsonView>
    decreases path.len(),
{
    if path.len() == 0 {
        Some(value)
    } else {
        match member(value, path[0]) {
            Some(next) => lookup(next, path.skip(1)),
            None => None,
        }
    }
}

/// `object` with `value` put at `path`, inside objects that are made where there are none.
pub open spec fn put(
    object: Map<Seq<char>, JsonView>,
    path: Seq<Seq<char>>,
    value: JsonView,
) -> Map<Seq<char>, JsonView>
    decreases path.len(),
{
    if path.len() == 0 {
        object
    } else if path.len() == 1 {
        object.insert(path[0], value)
    } else {
        let inner = match member(JsonView::Object(object), path[0]) {
            Some(JsonView::Object(members)) => members,
            _ => Map::empty(),
        };
        object.insert(path[0], JsonView::Object(put(inner, path.skip(1), value)))
    }
}

/// An object under assembly: the paths of the values that have been placed in it, and the names
/// left out so far.
pub struct Assembly {
    pub object: Map<Seq<char>, JsonView>,
    pub leaves: Set<Seq<Seq<char>>>,
    pub collisions: Seq<Seq<char>>,
}

/// Whether a value has been placed at `path`, or at a place that `path` leads through.
pub open spec fn is_covered(leaves: Set<Seq<Seq<char>>>, path: Seq<Seq<char>>) -> bool {
    exists|k: int| 0 < k <= path.len() && #[trigger] leaves.contains(path.take(k))
}

impl Assembly {
    /// Nothing assembled yet.
    pub open spec fn empty() -> Assembly {
        Assembly { object: Map::empty(), leaves: Set::empty(), collisions: Seq::empty() }
    }

    /// Whether there is a place for a field of that name: no part of the name is empty, its path
    /// leads through no value that has been placed, and nothing stands at its end.
    pub open spec fn has_place(self, name: Seq<char>) -> bool {
        let path = split_on(name, '.');
        &&& forall|i: int| 0 <= i < path.len() ==> #[trigger] path[i].len() > 0
        &&& !is_covered(self.leaves, path)
        &&& lookup(JsonView::Object(self.object), path) is None
    }

    /// The assembly with one more field: in its place, or reported.
    pub open spec fn with_field(self, name: Seq<char>, value: JsonView) -> Assembly {
        let path = split_on(name, '.');
        if self.has_place(name) {
            Assembly {
                object: put(self.object, path, value),
                leaves: self.leaves.insert(path),
                collisions: self.collisions,
            }
        } else {
            Assembly { collisions: self.collisions.push(name), ..self }
        }
    }
}

/// The assembly of a list of fields, one after the other.
pub open spec fn assemble_view(fields: Seq<(Seq<char>, JsonView)>) -> Assembly
    decreases fields.len(),
{
    if fields.len() == 0 {
        Assembly::empty()
    } else {
        let (name, value) = fields.last();
        assemble_view(fields.drop_last()).with_field(name, value)
    }
}

/// The names and values of a list of fields.
pub open spec fn fields_of(fields: Seq<BuiltField>) -> Seq<(Seq<char>, JsonView)> {
    Seq::new(fields.len(), |i: int| (fields[i].name@, fields[i].value@))
}

/// Puts `value` at the place given by the parts from `from` on.
fn put_at(object: &mut JsonObject, parts: &Vec<String>, from: usize, value: Json)
    requires
        from < parts@.len(),
    ensures
        final(object)@ == put(old(object)@, texts_of(parts@).skip(from as int), value@),
    decreases parts@.len() - from,
{
    broadcast use lemma_json_view;
    let ghost before = object@;
    let ghost path = texts_of(parts@).skip(from as int);
    let ghost inserted = value@;
    let name = parts[from].clone();
    assert(path[0] == name@);
    if parts.len() - from == 1 {
        object.insert(name, value);
        return;
    }
    assert(path.skip(1) =~= texts_of(parts@).skip(from + 1));
    let mut inner = match object.remove(name.as_str()) {
        Some(Json::Object(inner)) => inner,
        _ => JsonObject::new(),
    };
    put_at(&mut inner, parts, from + 1, value);
    object.insert(name, Json::Object(inner));
    assert(object@ =~= put(before, path, inserted));
}

/// Whether something stands at the place given by the parts from `from` on.
fn stands_at(value: &Json, parts: &Vec<String>, from: usize) -> (yes: bool)
    requires
        from <= parts@.len(),
    ensures
        yes == (lookup(value@, texts_of(parts@).skip(from as int)) is Some),
    decreases parts@.len() - from,
{
    let ghost path = texts_of(parts@).skip(from as int);
    if from == parts.len() {
        return true;
    }
    assert(path[0] == parts@[from as int]@);
    assert(path.skip(1) =~= texts_of(parts@).skip(from + 1));
    match value.get(parts[from].as_str()) {
        Some(next) => stands_at(next, parts, from + 1),
        None => false,
    }
}

/// Whether some part of a name is empty.
fn has_empty_part(parts: &Vec<String>) -> (yes: bool)
    ensures
        yes == !(forall|i: int|
            0 <= i < texts_of(parts@).len() ==> #[trigger] texts_of(parts@)[i].len() > 0),
{
    let mut i: usize = 0;
    while i < parts.len()
        invariant
            i <= parts@.len(),
            forall|k: int| 0 <= k < i ==> #[trigger] texts_of(parts@)[k].len() > 0,
        decreases parts@.len() - i,
    {
        if parts[i].as_str().is_empty() {
            assert(texts_of(parts@)[i as int].len() == 0);
            return true;
        }
        i = i + 1;
    }
    false
}

/// Whether the path `parts` leads through the path `leaf`.
fn leads_through(parts: &Vec<String>, leaf: &Vec<String>) -> (yes: bool)
    ensures
        yes == (leaf@.len() <= parts@.len() && texts_of(parts@).take(leaf@.len() as int)
            == texts_of(leaf@)),
{
    if leaf.len() > parts.len() {
        return false;
    }
    let mut i: usize = 0;
    while i < leaf.len()
        invariant
            i <= leaf@.len() <= parts@.len(),
            forall|k: int| 0 <= k < i ==> parts@[k]@ == leaf@[k]@,
        decreases leaf@.len() - i,
    {
        if !same_text(parts[i].as_str(), leaf[i].as_str()) {
            assert(texts_of(parts@).take(leaf@.len() as int)[i as int] != texts_of(
                leaf@,
            )[i as int]);
            return false;
        }
        i = i + 1;
    }
    assert(texts_of(parts@).take(leaf@.len() as int) =~= texts_of(leaf@));
    true
}

/// Whether `placed` lists the paths in `leaves`.
spec fn lists_leaves(placed: Seq<Vec<String>>, leaves: Set<Seq<Seq<char>>>) -> bool {
    &&& forall|i: int|
        0 <= i < placed.len() ==> placed[i]@.len() > 0 && leaves.contains(
            texts_of((#[trigger] placed[i])@),
        )
    &&& forall|path: Seq<Seq<char>>| #[trigger]
        leaves.contains(path) ==> exists|i: int|
            0 <= i < placed.len() && texts_of((#[trigger] placed[i])@) == path
}

/// Whether the path `parts` leads through one of the placed paths.
fn covered_by(
    placed: &Vec<Vec<String>>,
    parts: &Vec<String>,
    leaves: Ghost<Set<Seq<Seq<char>>>>,
) -> (yes: bool)
    requires
        lists_leaves(placed@, leaves@),
    ensures
        yes == is_covered(leaves@, texts_of(parts@)),
{
    let ghost path = texts_of(parts@);
    let mut i: usize = 0;
    while i < placed.len()
        invariant
            i <= placed@.len(),
            path == texts_of(parts@),
            lists_leaves(placed@, leaves@),
            forall|j: int|
                0 <= j < i ==> !(placed@[j]@.len() <= parts@.len() && path.take(
                    placed@[j]@.len() as int,
                ) == texts_of((#[trigger] placed@[j])@)),
        decreases placed@.len() - i,
    {
        if leads_through(parts, &placed[i]) {
            assert(leaves@.contains(path.take(placed@[i as int]@.len() as int)));
            return true;
        }
        i = i + 1;
    }
    proof {
        if is_covered(leaves@, path) {
            let k = choose|k: int| 0 < k <= path.len() && #[trigger] leaves@.contains(path.take(k));
            let j = choose|j: int|
                0 <= j < placed@.len() && texts_of((#[trigger] placed@[j])@) == path.take(k);
            assert(texts_of(placed@[j]@).len() == k);
            assert(false);
        }
    }
    false
}

/// Assembles the fields, in their order, into one object.
pub fn assemble(fields: Vec<BuiltField>) -> (assembled: Assembled)
    ensures
        assembled.object@ == JsonView::Object(assemble_view(fields_of(fields@)).object),
        texts_of(assembled.collisions@) == assemble_view(fields_of(fields@)).collisions,
{
    broadcast use lemma_json_view;
    let ghost all = fields_of(fields@);
    let mut root = Json::Object(JsonObject::new());
    let mut placed: Vec<Vec<String>> = Vec::new();
    let mut collisions: Vec<String> = Vec::new();
    assert(all.take(0) =~= Seq::empty());
    assert(texts_of(collisions@) =~= Seq::empty());
    for field in it: fields
        invariant
            it.seq() == fields@,
            all == fields_of(fields@),
            root@ == JsonView::Object(assemble_view(all.take(it.index() as int)).object),
            lists_leaves(placed@, assemble_view(all.take(it.index() as int)).leaves),
            texts_of(collisions@) == assemble_view(all.take(it.index() as int)).collisions,
    {
        broadcast use lemma_json_view;
        let ghost at = it.index() as int;
        let ghost now = assemble_view(all.take(at));
        let ghost before = collisions@;
        let ghost listed = placed@;
        proof {
            assert(all.take(at + 1).drop_last() =~= all.take(at));
            assert(all.take(at + 1).last() == (field.name@, field.value@));
        }
        let parts = split_text(field.name.as_str(), '.');
        assert(texts_of(parts@).skip(0) =~= texts_of(parts@));
        assert(parts@.len() == texts_of(parts@).len());
        if has_empty_part(&parts) || covered_by(&placed, &parts, Ghost(now.leaves)) || stands_at(
            &root,
            &parts,
            0,
        ) {
            collisions.push(field.name);
            assert(texts_of(collisions@) =~= texts_of(before).push(field.name@));
        } else {
            let mut object = match root {
                Json::Object(object) => object,
                _ => JsonObject::new(),
            };
            put_at(&mut object, &parts, 0, field.value);
            root = Json::Object(object);
            placed.push(parts);
            proof {
                let path = texts_of(parts@);
                assert forall|other: Seq<Seq<char>>| #[trigger]
                    now.leaves.insert(path).contains(other) implies exists|i: int|
                    0 <= i < placed@.len() && texts_of((#[trigger] placed@[i])@) == other by {
                    if other == path {
                        assert(placed@[listed.len() as int] == parts);
                    } else {
                        let i = choose|i: int|
                            0 <= i < listed.len() && texts_of((#[trigger] listed[i])@) == other;
                        assert(placed@[i] == listed[i]);
                    }
                }
            }
        }
    }
    assert(all.take(all.len() as int) =~= all);
    Assembled { object: root, collisions }
}

/// A value that was put at a path stands there, as it was given.
pub proof fn law_placed_value_is_found(
    object: Map<Seq<char>, JsonView>,
    path: Seq<Seq<char>>,
    value: JsonView,
)
    requires
        path.len() > 0,
    ensures
        lookup(JsonView::Object(put(object, path, value)), path) == Some(value),
    decreases path.len(),
{
    if path.len() == 1 {
        assert(lookup(value, path.skip(1)) == Some(value));
    } else {
        let inner = match member(JsonView::Object(object), path[0]) {
            Some(JsonView::Object(members)) => members,
            _ => Map::empty(),
        };
        law_placed_value_is_found(inner, path.skip(1), value);
    }
}

/// Whether `path` leads through `start`, or ends there.
pub open spec fn continues(path: Seq<Seq<char>>, start: Seq<Seq<char>>) -> bool {
    start.len() <= path.len() && path.take(start.len() as int) == start
}

/// Putting a value at a path leaves every place alone that lies neither on the path nor behind its
/// end.
pub proof fn law_putting_leaves_the_rest_alone(
    object: Map<Seq<char>, JsonView>,
    path: Seq<Seq<char>>,
    value: JsonView,
    other: Seq<Seq<char>>,
)
    requires
        !continues(path, other),
        !continues(other, path),
    ensures
        lookup(JsonView::Object(put(object, path, value)), other) == lookup(
            JsonView::Object(object),
            other,
        ),
    decreases path.len(),
{
    assert(other.take(0) =~= Seq::empty());
    assert(path.take(0) =~= Seq::empty());
    assert(path.len() > 0) by {
        if path.len() == 0 {
            assert(path =~= Seq::empty());
        }
    }
    assert(other.len() > 0) by {
        if other.len() == 0 {
            assert(other =~= Seq::empty());
        }
    }
    if other[0] == path[0] {
        lemma_continues_behind(path, other);
        lemma_continues_behind(other, path);
        assert(path.len() > 1) by {
            if path.len() == 1 {
                assert(path.skip(1) =~= Seq::empty());
                assert(other.skip(1).take(0) =~= Seq::empty());
            }
        }
        assert(other.len() > 1) by {
            if other.len() == 1 {
                assert(other.skip(1) =~= Seq::empty());
                assert(path.skip(1).take(0) =~= Seq::empty());
            }
        }
        let inner = match member(JsonView::Object(object), path[0]) {
            Some(JsonView::Object(members)) => members,
            _ => Map::empty(),
        };
        law_putting_leaves_the_rest_alone(inner, path.skip(1), value, other.skip(1));
        match member(JsonView::Object(object), path[0]) {
            Some(JsonView::Object(_)) => {},
            Some(scalar) => {
                assert(lookup(scalar, other.skip(1)) is None);
            },
            None => {},
        }
    }
}

/// Two paths with the same first part continue each other where what follows does.
proof fn lemma_continues_behind(path: Seq<Seq<char>>, start: Seq<Seq<char>>)
    requires
        path.len() > 0,
        start.len() > 0,
        path[0] == start[0],
    ensures
        continues(path.skip(1), start.skip(1)) ==> continues(path, start),
{
    if continues(path.skip(1), start.skip(1)) {
        assert forall|i: int| 0 <= i < start.len() implies path[i] == start[i] by {
            if i > 0 {
                assert(path.skip(1).take(start.len() - 1)[i - 1] == start.skip(1)[i - 1]);
            }
        }
        assert(path.take(start.len() as int) =~= start);
    }
}

/// On the way to a place stand objects.
proof fn lemma_objects_on_the_way(
    object: Map<Seq<char>, JsonView>,
    path: Seq<Seq<char>>,
    value: JsonView,
    other: Seq<Seq<char>>,
)
    requires
        continues(path, other),
        other.len() < path.len(),
    ensures
        lookup(JsonView::Object(put(object, path, value)), other) is Some,
        lookup(JsonView::Object(put(object, path, value)), other)->0 is Object,
    decreases path.len(),
{
    if other.len() > 0 {
        assert(other[0] == path.take(other.len() as int)[0]);
        assert(path.skip(1).take(other.len() - 1) =~= other.skip(1)) by {
            assert(path.take(other.len() as int).skip(1) =~= path.skip(1).take(other.len() - 1));
        }
        let inner = match member(JsonView::Object(object), path[0]) {
            Some(JsonView::Object(members)) => members,
            _ => Map::empty(),
        };
        lemma_objects_on_the_way(inner, path.skip(1), value, other.skip(1));
    }
}

/// Where something stands, something stands at every place on the way.
proof fn lemma_found_on_the_way(value: JsonView, path: Seq<Seq<char>>, start: Seq<Seq<char>>)
    requires
        continues(path, start),
        lookup(value, path) is Some,
    ensures
        lookup(value, start) is Some,
    decreases path.len(),
{
    if start.len() > 0 {
        assert(start[0] == path.take(start.len() as int)[0]);
        assert(path.skip(1).take(start.len() - 1) =~= start.skip(1)) by {
            assert(path.take(start.len() as int).skip(1) =~= path.skip(1).take(start.len() - 1));
        }
        lemma_found_on_the_way(member(value, path[0])->0, path.skip(1), start.skip(1));
    }
}

/// What is covered stays covered behind.
proof fn lemma_covered_behind(
    leaves: Set<Seq<Seq<char>>>,
    path: Seq<Seq<char>>,
    start: Seq<Seq<char>>,
)
    requires
        continues(path, start),
        is_covered(leaves, start),
    ensures
        is_covered(leaves, path),
{
    let k = choose|k: int| 0 < k <= start.len() && #[trigger] leaves.contains(start.take(k));
    assert(path.take(k) =~= start.take(k)) by {
        assert(path.take(start.len() as int).take(k) =~= path.take(k));
    }
}

/// Whether `path` lies on the way to one of the placed values.
pub open spec fn is_on_the_way(leaves: Set<Seq<Seq<char>>>, path: Seq<Seq<char>>) -> bool {
    exists|leaf: Seq<Seq<char>>| #[trigger] leaves.contains(leaf) && continues(leaf, path)
}

/// Whether everything that stands outside the placed values is an object, and, below the root, made
/// on the way to one of them.
pub open spec fn is_sound(assembly: Assembly) -> bool {
    forall|path: Seq<Seq<char>>|
        (#[trigger] lookup(JsonView::Object(assembly.object), path)) is Some && !is_covered(
            assembly.leaves,
            path,
        ) ==> {
            &&& lookup(JsonView::Object(assembly.object), path)->0 is Object
            &&& path.len() > 0 ==> is_on_the_way(assembly.leaves, path)
        }
}

/// One more field leaves in place what stands in an assembly: a value that an earlier field has
/// placed, and everything inside it, unchanged, an object on the way to one as an object.
pub proof fn law_field_keeps_what_is_there(
    assembly: Assembly,
    name: Seq<char>,
    value: JsonView,
    other: Seq<Seq<char>>,
)
    requires
        is_sound(assembly),
        lookup(JsonView::Object(assembly.object), other) is Some,
    ensures
        ({
            let before = lookup(JsonView::Object(assembly.object), other)->0;
            let after = lookup(JsonView::Object(assembly.with_field(name, value).object), other);
            if is_covered(assembly.leaves, other) {
                after == Some(before) && is_covered(
                    assembly.with_field(name, value).leaves,
                    other,
                )
            } else {
                after is Some && after->0 is Object
            }
        }),
{
    let path = split_on(name, '.');
    let next = assembly.with_field(name, value);
    if assembly.has_place(name) {
        if continues(other, path) {
            lemma_found_on_the_way(JsonView::Object(assembly.object), other, path);
        }
        if continues(path, other) {
            if is_covered(assembly.leaves, other) {
                lemma_covered_behind(assembly.leaves, path, other);
            }
            if other.len() == path.len() {
                assert(path.take(other.len() as int) =~= path);
            }
            lemma_objects_on_the_way(assembly.object, path, value, other);
        } else {
            law_putting_leaves_the_rest_alone(assembly.object, path, value, other);
        }
        if is_covered(assembly.leaves, other) {
            let k = choose|k: int|
                0 < k <= other.len() && #[trigger] assembly.leaves.contains(other.take(k));
            assert(next.leaves.contains(other.take(k)));
        }
    }
}

/// One more field leaves an assembly sound.
proof fn lemma_field_keeps_sound(assembly: Assembly, name: Seq<char>, value: JsonView)
    requires
        is_sound(assembly),
    ensures
        is_sound(assembly.with_field(name, value)),
{
    let path = split_on(name, '.');
    let next = assembly.with_field(name, value);
    if assembly.has_place(name) {
        assert forall|other: Seq<Seq<char>>|
            (#[trigger] lookup(JsonView::Object(next.object), other)) is Some && !is_covered(
                next.leaves,
                other,
            ) implies {
            &&& lookup(JsonView::Object(next.object), other)->0 is Object
            &&& other.len() > 0 ==> is_on_the_way(next.leaves, other)
        } by {
            if is_covered(assembly.leaves, other) {
                let k = choose|k: int|
                    0 < k <= other.len() && #[trigger] assembly.leaves.contains(other.take(k));
                assert(next.leaves.contains(other.take(k)));
            }
            if continues(other, path) {
                lemma_split_is_not_empty(name);
                assert(next.leaves.contains(other.take(path.len() as int)));
            } else if continues(path, other) {
                if other.len() == path.len() {
                    assert(path.take(other.len() as int) =~= path);
                    assert(other.take(path.len() as int) =~= other);
                }
                lemma_objects_on_the_way(assembly.object, path, value, other);
                assert(next.leaves.contains(path));
            } else {
                law_putting_leaves_the_rest_alone(assembly.object, path, value, other);
                if other.len() > 0 {
                    let leaf = choose|leaf: Seq<Seq<char>>| #[trigger]
                        assembly.leaves.contains(leaf) && continues(leaf, other);
                    assert(next.leaves.contains(leaf));
                }
            }
        }
    }
}

/// A name has at least one part.
proof fn lemma_split_is_not_empty(name: Seq<char>)
    ensures
        split_on(name, '.').len() > 0,
{
}

/// In every assembly, what stands outside the placed values is an object that was made on the way
/// to one of them: nothing else is added.
pub proof fn law_assemblies_are_sound(fields: Seq<(Seq<char>, JsonView)>)
    ensures
        is_sound(assemble_view(fields)),
    decreases fields.len(),
{
    if fields.len() > 0 {
        law_assemblies_are_sound(fields.drop_last());
        lemma_field_keeps_sound(
            assemble_view(fields.drop_last()),
            fields.last().0,
            fields.last().1,
        );
    } else {
        let empty = JsonView::Object(Map::<Seq<char>, JsonView>::empty());
        assert forall|path: Seq<Seq<char>>| (#[trigger] lookup(empty, path)) is Some implies lookup(
            empty,
            path,
        )->0 is Object && path.len() == 0 by {}
    }
}

/// Whether the field at `i` finds a place when its turn comes.
pub open spec fn is_placed(fields: Seq<(Seq<char>, JsonView)>, i: int) -> bool {
    assemble_view(fields.take(i)).has_place(fields[i].0)
}

/// Fields that come later leave in place what the first `count` fields have assembled: a placed
/// value, and everything inside it, unchanged, an object on the way to one as an object.
pub proof fn law_assembly_only_grows(
    fields: Seq<(Seq<char>, JsonView)>,
    count: int,
    path: Seq<Seq<char>>,
)
    requires
        0 <= count <= fields.len(),
        lookup(JsonView::Object(assemble_view(fields.take(count)).object), path) is Some,
    ensures
        ({
            let assembly = assemble_view(fields.take(count));
            let before = lookup(JsonView::Object(assembly.object), path)->0;
            let after = lookup(JsonView::Object(assemble_view(fields).object), path);
            if is_covered(assembly.leaves, path) {
                after == Some(before)
            } else {
                before is Object && after is Some && after->0 is Object
            }
        }),
    decreases fields.len() - count,
{
    let assembly = assemble_view(fields.take(count));
    law_assemblies_are_sound(fields.take(count));
    if count == fields.len() {
        assert(fields.take(count) =~= fields);
    } else {
        let next = fields.take(count + 1);
        assert(next.drop_last() =~= fields.take(count));
        let (name, value) = fields[count];
        assert(next.last() == fields[count]);
        law_field_keeps_what_is_there(assembly, name, value, path);
        law_assembly_only_grows(fields, count + 1, path);
    }
}

/// Earlier fields win, and no field is lost silently: a field that finds a place stands there in
/// the assembled object, with the very value that it was given, whatever comes after it; a field
/// that does not is reported.
pub proof fn law_earlier_fields_win(fields: Seq<(Seq<char>, JsonView)>, i: int)
    requires
        0 <= i < fields.len(),
    ensures
        ({
            let (name, value) = fields[i];
            let found = lookup(
                JsonView::Object(assemble_view(fields).object),
                split_on(name, '.'),
            );
            if is_placed(fields, i) {
                found == Some(value)
            } else {
                assemble_view(fields).collisions.contains(name)
            }
        }),
{
    let (name, value) = fields[i];
    let path = split_on(name, '.');
    let upto = fields.take(i + 1);
    assert(upto.drop_last() =~= fields.take(i));
    assert(upto.last() == fields[i]);
    if is_placed(fields, i) {
        lemma_split_is_not_empty(name);
        law_placed_value_is_found(assemble_view(fields.take(i)).object, path, value);
        assert(path.take(path.len() as int) =~= path);
        assert(assemble_view(upto).leaves.contains(path.take(path.len() as int)));
        law_assembly_only_grows(fields, i + 1, path);
    } else {
        assert(assemble_view(upto).collisions.last() == name);
        lemma_collisions_stay(fields, i + 1);
        let at = assemble_view(upto).collisions.len() - 1;
        assert(assemble_view(fields).collisions[at] == name);
    }
}

/// A field whose name continues that of a placed field, or begins it, collides with it, whatever
/// value was placed.
pub proof fn law_nested_names_collide(fields: Seq<(Seq<char>, JsonView)>, i: int, j: int)
    requires
        0 <= i < j < fields.len(),
        is_placed(fields, i),
        continues(split_on(fields[j].0, '.'), split_on(fields[i].0, '.')) || continues(
            split_on(fields[i].0, '.'),
            split_on(fields[j].0, '.'),
        ),
    ensures
        !is_placed(fields, j),
        assemble_view(fields).collisions.contains(fields[j].0),
{
    let path = split_on(fields[i].0, '.');
    let other = split_on(fields[j].0, '.');
    let now = assemble_view(fields.take(j));
    assert(fields.take(j).take(i) =~= fields.take(i));
    assert(is_placed(fields.take(j), i));
    law_earlier_fields_win(fields.take(j), i);
    if continues(path, other) {
        lemma_found_on_the_way(JsonView::Object(now.object), path, other);
    } else {
        lemma_split_is_not_empty(fields[i].0);
        lemma_leaves_stay(fields.take(j), i + 1, path);
        let upto = fields.take(j).take(i + 1);
        assert(upto.drop_last() =~= fields.take(i));
        assert(upto.last() == fields[i]);
        assert(now.leaves.contains(other.take(path.len() as int)));
    }
    law_earlier_fields_win(fields, j);
}

/// A placed value stays placed.
proof fn lemma_leaves_stay(
    fields: Seq<(Seq<char>, JsonView)>,
    count: int,
    path: Seq<Seq<char>>,
)
    requires
        0 <= count <= fields.len(),
    ensures
        assemble_view(fields.take(count)).leaves.contains(path) ==> assemble_view(
            fields,
        ).leaves.contains(path),
    decreases fields.len() - count,
{
    if count == fields.len() {
        assert(fields.take(count) =~= fields);
    } else {
        assert(fields.take(count + 1).drop_last() =~= fields.take(count));
        lemma_leaves_stay(fields, count + 1, path);
    }
}

/// What has been reported stays reported.
proof fn lemma_collisions_stay(fields: Seq<(Seq<char>, JsonView)>, count: int)
    requires
        0 <= count <= fields.len(),
    ensures
        ({
            let before = assemble_view(fields.take(count)).collisions;
            let after = assemble_view(fields).collisions;
            before.len() <= after.len() && forall|k: int|
                0 <= k < before.len() ==> after[k] == #[trigger] before[k]
        }),
    decreases fields.len() - count,
{
    if count == fields.len() {
        assert(fields.take(count) =~= fields);
    } else {
        assert(fields.take(count + 1).drop_last() =~= fields.take(count));
        lemma_collisions_stay(fields, count + 1);
        let before = assemble_view(fields.take(count)).collisions;
        let next = assemble_view(fields.take(count + 1)).collisions;
        let after = assemble_view(fields).collisions;
        assert forall|k: int| 0 <= k < before.len() implies after[k] == #[trigger] before[k] by {
            assert(next[k] == before[k]);
        }
    }
}

/// How many of the first `count` fields find their place free.
pub open spec fn placed_count(fields: Seq<(Seq<char>, JsonView)>, count: int) -> nat
    decreases count,
{
    if count <= 0 {
        0
    } else {
        placed_count(fields, count - 1) + (if is_placed(fields, count - 1) {
            1nat
        } else {
            0
        })
    }
}

/// Every field is either placed or reported, and none is both: the two counts add up.
pub proof fn law_every_field_is_accounted_for(fields: Seq<(Seq<char>, JsonView)>)
    ensures
        placed_count(fields, fields.len() as int) + assemble_view(fields).collisions.len()
            == fields.len(),
{
    lemma_accounted_for(fields, fields.len() as int);
    assert(fields.take(fields.len() as int) =~= fields);
}

proof fn lemma_accounted_for(fields: Seq<(Seq<char>, JsonView)>, count: int)
    requires
        0 <= count <= fields.len(),
    ensures
        placed_count(fields, count) + assemble_view(fields.take(count)).collisions.len() == count,
        assemble_view(fields.take(count)).collisions == skipped_names(fields, count),
    decreases count,
{
    if count > 0 {
        lemma_accounted_for(fields, count - 1);
        assert(fields.take(count).drop_last() =~= fields.take(count - 1));
        assert(fields.take(count).last() == fields[count - 1]);
    }
}

/// The names of those among the first `count` fields that find no place, in their order.
pub open spec fn skipped_names(fields: Seq<(Seq<char>, JsonView)>, count: int) -> Seq<Seq<char>>
    decreases count,
{
    if count <= 0 {
        Seq::empty()
    } else if is_placed(fields, count - 1) {
        skipped_names(fields, count - 1)
    } else {
        skipped_names(fields, count - 1).push(fields[count - 1].0)
    }
}

/// What is reported are the names of the fields that find no place, each of them, in the order of
/// the fields.
pub proof fn law_skipped_fields_are_reported_in_order(fields: Seq<(Seq<char>, JsonView)>)
    ensures
        assemble_view(fields).collisions == skipped_names(fields, fields.len() as int),
{
    lemma_accounted_for(fields, fields.len() as int);
    assert(fields.take(fields.len() as int) =~= fields);
}

/// The placed values are those of the fields that find a place, and no others.
pub proof fn law_leaves_are_the_placed_fields(
    fields: Seq<(Seq<char>, JsonView)>,
    path: Seq<Seq<char>>,
)
    ensures
        assemble_view(fields).leaves.contains(path) <==> exists|i: int|
            0 <= i < fields.len() && #[trigger] is_placed(fields, i) && split_on(fields[i].0, '.')
                == path,
    decreases fields.len(),
{
    if fields.len() > 0 {
        let before = fields.drop_last();
        let last = fields.len() - 1;
        law_leaves_are_the_placed_fields(before, path);
        assert(fields.take(last) =~= before);
        assert forall|i: int| 0 <= i < last implies is_placed(before, i) == #[trigger] is_placed(
            fields,
            i,
        ) by {
            assert(before.take(i) =~= fields.take(i));
        }
        if assemble_view(before).leaves.contains(path) {
            let i = choose|i: int|
                0 <= i < before.len() && #[trigger] is_placed(before, i) && split_on(
                    before[i].0,
                    '.',
                ) == path;
            assert(is_placed(fields, i));
        }
        if is_placed(fields, last) && split_on(fields[last].0, '.') == path {
            assert(assemble_view(fields).leaves.contains(path));
        }
        if exists|i: int|
            0 <= i < fields.len() && #[trigger] is_placed(fields, i) && split_on(fields[i].0, '.')
                == path {
            let i = choose|i: int|
                0 <= i < fields.len() && #[trigger] is_placed(fields, i) && split_on(
                    fields[i].0,
                    '.',
                ) == path;
            if i < last {
                assert(is_placed(before, i));
            }
        } else if assemble_view(fields).leaves.contains(path) && !assemble_view(
            before,
        ).leaves.contains(path) {
            assert(is_placed(fields, last));
        }
    }
}

/// Names that selectors read as they stand: no brackets, no white space at the ends, and no
/// leading `payload`.
pub open spec fn is_plain_name(name: Seq<char>) -> bool {
    &&& forall|i: int| 0 <= i < name.len() ==> #[trigger] name[i] != '['
    &&& without_payload(trimmed(name)) == name
}

/// A path without brackets selects what `lookup` finds under its parts.
proof fn lemma_select_is_lookup(value: JsonView, tokens: Seq<Seq<char>>)
    requires
        forall|i: int|
            0 <= i < tokens.len() ==> (#[trigger] tokens[i]).len() > 0 && first_of(tokens[i], '[')
                == tokens[i].len(),
    ensures
        resolve_tokens(value, tokens) == lookup(value, tokens),
    decreases tokens.len(),
{
    if tokens.len() > 0 {
        let token = tokens[0];
        assert(token.take(token.len() as int) =~= token);
        assert(token.skip(token.len() as int) =~= Seq::empty());
        if let Some(next) = member(value, token) {
            lemma_select_is_lookup(next, tokens.skip(1));
        }
    }
}

/// The parts of a text without `bracket` do not hold it either.
proof fn lemma_parts_lack(s: Seq<char>, c: char, bracket: char)
    requires
        forall|i: int| 0 <= i < s.len() ==> #[trigger] s[i] != bracket,
    ensures
        forall|i: int|
            0 <= i < split_on(s, c).len() ==> first_of(#[trigger] split_on(s, c)[i], bracket)
                == split_on(s, c)[i].len(),
    decreases s.len(),
{
    lemma_first_of(s, c);
    let at = first_of(s, c);
    if at < s.len() {
        lemma_parts_lack(s.skip(at + 1), c, bracket);
        lemma_is_first_of(s.take(at), bracket, at);
        assert forall|i: int| 0 <= i < split_on(s, c).len() implies first_of(
            #[trigger] split_on(s, c)[i],
            bracket,
        ) == split_on(s, c)[i].len() by {
            if i > 0 {
                assert(split_on(s, c)[i] == split_on(s.skip(at + 1), c)[i - 1]);
            }
        }
    } else {
        lemma_is_first_of(s, bracket, s.len() as int);
    }
}

/// The two halves of response shaping agree: a selector equal to a field's name selects, in the
/// assembled object, what that field has put there.
pub proof fn law_name_selects_its_field(fields: Seq<(Seq<char>, JsonView)>, i: int)
    requires
        0 <= i < fields.len(),
        is_placed(fields, i),
        is_plain_name(fields[i].0),
    ensures
        select_view(JsonView::Object(assemble_view(fields).object), fields[i].0) == Some(
            fields[i].1,
        ),
{
    let (name, value) = fields[i];
    law_earlier_fields_win(fields, i);
    lemma_parts_lack(name, '.', '[');
    let tokens = split_on(name, '.');
    if name.len() == 0 {
        assert(tokens[0].len() == 0);
    }
    lemma_select_is_lookup(JsonView::Object(assemble_view(fields).object), tokens);
}

/// A place is found step by step: behind a path stands the member of what stands at the path.
pub proof fn law_places_are_found_step_by_step(
    value: JsonView,
    path: Seq<Seq<char>>,
    name: Seq<char>,
)
    ensures
        lookup(value, Seq::empty()) == Some(value),
        lookup(value, path.push(name)) == match lookup(value, path) {
            Some(found) => member(found, name),
            None => None,
        },
    decreases path.len(),
{
    let long = path.push(name);
    if path.len() == 0 {
        assert(long.skip(1) =~= Seq::empty());
        if let Some(found) = member(value, name) {
            assert(lookup(found, Seq::empty()) == Some(found));
        }
    } else {
        assert(long[0] == path[0]);
        assert(long.skip(1) =~= path.skip(1).push(name));
        if let Some(next) = member(value, path[0]) {
            law_places_are_found_step_by_step(next, path.skip(1), name);
        }
    }
}

/// The fields are taken as they are, one for one.
pub proof fn law_fields_are_taken_one_for_one(fields: Seq<BuiltField>, i: int)
    requires
        0 <= i < fields.len(),
    ensures
        fields_of(fields).len() == fields.len(),
        fields_of(fields)[i].0 == fields[i].name@,
        fields_of(fields)[i].1 == fields[i].value@,
{
}

/// Whether two names clash: the parts of one begin with all the parts of the other.
pub open spec fn names_clash(a: Seq<char>, b: Seq<char>) -> bool {
    continues(split_on(a, '.'), split_on(b, '.')) || continues(split_on(b, '.'), split_on(a, '.'))
}

/// Whether no part of a name is empty.
pub open spec fn is_proper_name(name: Seq<char>) -> bool {
    forall|k: int|
        0 <= k < split_on(name, '.').len() ==> (#[trigger] split_on(name, '.')[k]).len() > 0
}

/// A field finds a place exactly where no part of its name is empty, and its name clashes with none
/// of the fields that have found one before it: how long the name is, and what the values are, does
/// not matter.
pub proof fn law_field_is_placed_unless_names_clash(fields: Seq<(Seq<char>, JsonView)>, i: int)
    requires
        0 <= i < fields.len(),
    ensures
        is_placed(fields, i) <==> is_proper_name(fields[i].0) && forall|j: int|
            0 <= j < i && #[trigger] is_placed(fields, j) ==> !names_clash(
                fields[i].0,
                fields[j].0,
            ),
{
    let name = fields[i].0;
    let path = split_on(name, '.');
    let before = fields.take(i);
    let now = assemble_view(before);
    assert forall|j: int| 0 <= j < i implies is_placed(before, j) == #[trigger] is_placed(
        fields,
        j,
    ) by {
        assert(before.take(j) =~= fields.take(j));
    }
    if is_placed(fields, i) {
        assert forall|j: int| 0 <= j < i && #[trigger] is_placed(fields, j) implies !names_clash(
            name,
            fields[j].0,
        ) by {
            if names_clash(name, fields[j].0) {
                law_nested_names_collide(fields, j, i);
            }
        }
    } else if is_proper_name(name) && forall|j: int|
        0 <= j < i && #[trigger] is_placed(fields, j) ==> !names_clash(name, fields[j].0) {
        lemma_split_is_not_empty(name);
        law_assemblies_are_sound(before);
        let leaf = if is_covered(now.leaves, path) {
            let k = choose|k: int| 0 < k <= path.len() && #[trigger] now.leaves.contains(
                path.take(k),
            );
            path.take(k)
        } else {
            choose|leaf: Seq<Seq<char>>| #[trigger]
                now.leaves.contains(leaf) && continues(leaf, path)
        };
        assert(now.leaves.contains(leaf));
        assert(continues(path, leaf) || continues(leaf, path));
        law_leaves_are_the_placed_fields(before, leaf);
        let j = choose|j: int|
            0 <= j < before.len() && #[trigger] is_placed(before, j) && split_on(before[j].0, '.')
                == leaf;
        assert(is_placed(fields, j));
        assert(names_clash(name, fields[j].0));
    }
}

/// A field whose name is proper and clashes with none before it stands in the object, under its
/// name, with the very value that it was given, whatever comes after it.
pub proof fn law_field_that_clashes_with_none_is_in_the_object(
    fields: Seq<(Seq<char>, JsonView)>,
    i: int,
)
    requires
        0 <= i < fields.len(),
        is_proper_name(fields[i].0),
        forall|j: int|
            0 <= j < i ==> !names_clash(fields[i].0, (#[trigger] fields[j]).0),
    ensures
        lookup(
            JsonView::Object(assemble_view(fields).object),
            split_on(fields[i].0, '.'),
        ) == Some(fields[i].1),
{
    assert forall|j: int| 0 <= j < i && #[trigger] is_placed(fields, j) implies !names_clash(
        fields[i].0,
        fields[j].0,
    ) by {
        let other = fields[j];
    }
    law_field_is_placed_unless_names_clash(fields, i);
    law_earlier_fields_win(fields, i);
}

/// One path continues another exactly where it is that one with something behind it.
pub proof fn law_path_continues_what_it_begins_with(path: Seq<Seq<char>>, start: Seq<Seq<char>>)
    ensures
        continues(path, start) <==> exists|rest: Seq<Seq<char>>| path == #[trigger] (start + rest),
{
    if continues(path, start) {
        assert(path =~= start + path.skip(start.len() as int));
    }
    if exists|rest: Seq<Seq<char>>| path == #[trigger] (start + rest) {
        let rest = choose|rest: Seq<Seq<char>>| path == #[trigger] (start + rest);
        assert(path.take(start.len() as int) =~= start);
    }
}

/// A path is covered exactly where it continues one of the leaves, which has a part at least.
pub proof fn law_covered_paths_continue_a_leaf(leaves: Set<Seq<Seq<char>>>, path: Seq<Seq<char>>)
    ensures
        is_covered(leaves, path) <==> exists|leaf: Seq<Seq<char>>|
            #[trigger] leaves.contains(leaf) && leaf.len() > 0 && continues(path, leaf),
{
    if is_covered(leaves, path) {
        let k = choose|k: int| 0 < k <= path.len() && #[trigger] leaves.contains(path.take(k));
        let leaf = path.take(k);
        assert(path.take(leaf.len() as int) =~= leaf);
        assert(leaves.contains(leaf) && leaf.len() > 0 && continues(path, leaf));
    }
    if exists|leaf: Seq<Seq<char>>|
        #[trigger] leaves.contains(leaf) && leaf.len() > 0 && continues(path, leaf) {
        let leaf = choose|leaf: Seq<Seq<char>>|
            #[trigger] leaves.contains(leaf) && leaf.len() > 0 && continues(path, leaf);
        assert(leaves.contains(path.take(leaf.len() as int)));
    }
}

/// What a call assembles: under the name of each field that is proper, and clashes with none
/// before it, stands its value as it was given. A field with an empty part in its name, and one
/// that clashes with a field that stands in the object, is reported.
pub proof fn law_call_places_every_field_it_can(
    fields: Vec<BuiltField>,
    assembled: Assembled,
    i: int,
)
    requires
        call_ensures(assemble, (fields,), assembled),
        0 <= i < fields@.len(),
    ensures
        is_proper_name(fields@[i].name@) && (forall|j: int|
            0 <= j < i ==> !names_clash(fields@[i].name@, (#[trigger] fields@[j]).name@))
            ==> lookup(assembled.object@, split_on(fields@[i].name@, '.')) == Some(
            fields@[i].value@,
        ),
        !is_proper_name(fields@[i].name@) ==> texts_of(assembled.collisions@).contains(
            fields@[i].name@,
        ),
        lookup(assembled.object@, split_on(fields@[i].name@, '.')) != Some(fields@[i].value@)
            ==> texts_of(assembled.collisions@).contains(fields@[i].name@),
{
    let given = fields_of(fields@);
    law_earlier_fields_win(given, i);
    law_field_is_placed_unless_names_clash(given, i);
    if is_proper_name(fields@[i].name@) && (forall|j: int|
        0 <= j < i ==> !names_clash(fields@[i].name@, (#[trigger] fields@[j]).name@)) {
        assert forall|j: int| 0 <= j < i implies !names_clash(
            given[i].0,
            (#[trigger] given[j]).0,
        ) by {
            let field = fields@[j];
        }
        law_field_that_clashes_with_none_is_in_the_object(given, i);
    }
}

} // verus!
