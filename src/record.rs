//! Renaming one field of one JSON record, the field addressed by a path of keys.
use vstd::prelude::*;

use crate::json::{
    from_object, into_object, map_entries, map_get, map_insert, map_remove, object_entries,
    value_as_object,
};
use crate::pointer::string_views;

verus! {

/// Every segment of `path` names a member, and every member before the last
/// is itself an object: the path leads to a field of `v`.
pub open spec fn resolves(v: serde_json::Value, path: Seq<Seq<char>>) -> bool
    decreases path.len(),
{
    path.len() > 0 && match object_entries(v) {
        Some(e) => e.contains_key(path[0]) && (path.len() == 1 || resolves(
            e[path[0]],
            path.drop_first(),
        )),
        None => false,
    }
}

/// `r` is `v` with the field at the end of `path` moved under the name
/// `target` within the same object; every other member, at every level, is
/// kept as it was.
pub open spec fn renamed(
    v: serde_json::Value,
    path: Seq<Seq<char>>,
    target: Seq<char>,
    r: serde_json::Value,
) -> bool
    decreases path.len(),
{
    path.len() > 0 && match (object_entries(v), object_entries(r)) {
        (Some(e), Some(er)) => if path.len() == 1 {
            er == e.remove(path[0]).insert(target, e[path[0]])
        } else {
            &&& e.contains_key(path[0])
            &&& er == e.insert(path[0], er[path[0]])
            &&& renamed(e[path[0]], path.drop_first(), target, er[path[0]])
        },
        _ => false,
    }
}

/// What renaming leaves of one record: renamed where the path leads to a
/// field, the record itself where it does not.
pub open spec fn rename_result(
    v: serde_json::Value,
    path: Seq<Seq<char>>,
    target: Seq<char>,
    r: serde_json::Value,
) -> bool {
    if resolves(v, path) {
        renamed(v, path, target, r)
    } else {
        r == v
    }
}

fn resolves_from(v: &serde_json::Value, path: &Vec<String>, i: usize) -> (r: bool)
    requires
        i <= path.len(),
    ensures
        r == resolves(*v, string_views(path@).skip(i as int)),
    decreases path.len() - i,
{
    let ghost p = string_views(path@).skip(i as int);
    if i >= path.len() {
        return false;
    }
    assert(p[0] == path@[i as int]@);
    assert(p.drop_first() =~= string_views(path@).skip(i + 1));
    match value_as_object(v) {
        None => false,
        Some(m) => match map_get(m, path[i].as_str()) {
            None => false,
            Some(child) => {
                if i + 1 == path.len() {
                    true
                } else {
                    resolves_from(child, path, i + 1)
                }
            },
        },
    }
}

fn rename_from(v: serde_json::Value, path: &Vec<String>, i: usize, target: &str) -> (r:
    serde_json::Value)
    requires
        i < path.len(),
        resolves(v, string_views(path@).skip(i as int)),
    ensures
        renamed(v, string_views(path@).skip(i as int), target@, r),
    decreases path.len() - i,
{
    let ghost p = string_views(path@).skip(i as int);
    assert(p[0] == path@[i as int]@);
    assert(p.drop_first() =~= string_views(path@).skip(i + 1));
    match into_object(v) {
        Err(w) => w,
        Ok(mut m) => {
            let ghost e = map_entries(m);
            match map_remove(&mut m, path[i].as_str()) {
                None => from_object(m),
                Some(child) => {
                    if i + 1 == path.len() {
                        map_insert(&mut m, target.to_owned(), child);
                    } else {
                        let inner = rename_from(child, path, i + 1, target);
                        map_insert(&mut m, path[i].clone(), inner);
                        assert(map_entries(m) =~= e.insert(p[0], map_entries(m)[p[0]]));
                    }
                    from_object(m)
                },
            }
        },
    }
}

/// Renames the field that `path` leads to (root first) into `target`, in the
/// object that holds it. Returns the record and whether it changed. Where the
/// path does not lead to a field (a key is missing, or a value on the way is
/// not an object) the record comes back untouched, and that is no error.
pub fn rename(json: serde_json::Value, path: &Vec<String>, target: &str) -> (r: (
    serde_json::Value,
    bool,
))
    ensures
        r.1 == resolves(json, string_views(path@)),
        rename_result(json, string_views(path@), target@, r.0),
{
    assert(string_views(path@).skip(0) =~= string_views(path@));
    if resolves_from(&json, path, 0) {
        (rename_from(json, path, 0, target), true)
    } else {
        (json, false)
    }
}

/// Renaming a top-level field `source` (a one-key path) of an object that
/// holds it into another name `target`: `target` then holds the field's
/// value, `source` is gone, and every other member is kept as it was.
pub proof fn lemma_top_level_rename(
    v: serde_json::Value,
    source: Seq<char>,
    target: Seq<char>,
    r: serde_json::Value,
)
    requires
        object_entries(v) is Some,
        object_entries(v)->Some_0.contains_key(source),
        source != target,
        rename_result(v, seq![source], target, r),
    ensures
        object_entries(r) is Some,
        object_entries(r)->Some_0.contains_key(target),
        object_entries(r)->Some_0[target] == object_entries(v)->Some_0[source],
        !object_entries(r)->Some_0.contains_key(source),
        forall|k: Seq<char>|
            k != source && k != target ==> (object_entries(r)->Some_0.contains_key(k)
                == object_entries(v)->Some_0.contains_key(k)),
        forall|k: Seq<char>|
            k != source && k != target && #[trigger] object_entries(v)->Some_0.contains_key(k)
                ==> object_entries(r)->Some_0[k] == object_entries(v)->Some_0[k],
{
    assert(resolves(v, seq![source]));
}

/// Renaming along a path of two or more keys that leads to a field changes
/// nothing at the root but the member on the path: the root keeps the same
/// keys, every sibling keeps its value, and the member on the path is an
/// object renamed along the rest of the path.
pub proof fn lemma_nested_rename_keeps_siblings(
    v: serde_json::Value,
    path: Seq<Seq<char>>,
    target: Seq<char>,
    r: serde_json::Value,
)
    requires
        path.len() >= 2,
        resolves(v, path),
        rename_result(v, path, target, r),
    ensures
        object_entries(v) is Some,
        object_entries(r) is Some,
        object_entries(r)->Some_0.dom() == object_entries(v)->Some_0.dom(),
        forall|k: Seq<char>|
            k != path[0] && #[trigger] object_entries(v)->Some_0.contains_key(k)
                ==> object_entries(r)->Some_0[k] == object_entries(v)->Some_0[k],
        renamed(
            object_entries(v)->Some_0[path[0]],
            path.drop_first(),
            target,
            object_entries(r)->Some_0[path[0]],
        ),
{
    let e = object_entries(v)->Some_0;
    let er = object_entries(r)->Some_0;
    assert(er.dom() =~= e.dom());
}

/// Renaming a field into its own name loses nothing: the object keeps the
/// same members with the same values.
pub proof fn lemma_rename_to_same_name(v: serde_json::Value, name: Seq<char>, r: serde_json::Value)
    requires
        rename_result(v, seq![name], name, r),
    ensures
        object_entries(r) == object_entries(v),
{
    if resolves(v, seq![name]) {
        let e = object_entries(v)->Some_0;
        assert(e.remove(name).insert(name, e[name]) =~= e);
    }
}

} // verus!
