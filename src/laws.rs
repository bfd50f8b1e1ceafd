//! Properties that relate several functions of the library.
use vstd::prelude::*;

use crate::json_generator::{full_tree, generated, key_ok};
use crate::json_type::MAX_LEAF_STRING_LEN;
use crate::json_value::{is_container, is_scalar, number_eq, occurs, JsonNumber, JsonValue};

verus! {

/// Breadth-first and depth-first search decide the same question: for
/// every document and every target, whatever answer one of them gives,
/// the other gives the same.
pub proof fn lemma_bfs_agrees_with_dfs(
    doc: &JsonValue,
    target: &JsonValue,
    found_bfs: bool,
    found_dfs: bool,
)
    requires
        call_ensures(crate::breadth_first_search::run, (doc, target), found_bfs),
        call_ensures(crate::depth_first_search::run, (doc, target), found_dfs),
    ensures
        found_bfs == found_dfs,
{
}


/// Every root-to-leaf path of `v` has exactly `h` edges, a leaf being a
/// scalar or a container without children; so the height of `v` is `h`.
pub open spec fn every_path_has(v: JsonValue, h: nat) -> bool
    decreases v,
{
    match v {
        JsonValue::Array(items) => if items.len() == 0 {
            h == 0
        } else {
            h > 0 && forall|i: int|
                0 <= i < items.len() ==> every_path_has(#[trigger] items[i], (h - 1) as nat)
        },
        JsonValue::Object(entries) => if entries.len() == 0 {
            h == 0
        } else {
            h > 0 && forall|i: int|
                0 <= i < entries.len() ==> every_path_has((#[trigger] entries[i]).1, (h - 1) as nat)
        },
        _ => h == 0,
    }
}

/// Every string anywhere in `v` has at most `MAX_LEAF_STRING_LEN`
/// characters.
pub open spec fn strings_short(v: JsonValue) -> bool
    decreases v,
{
    match v {
        JsonValue::String(s) => s@.len() <= MAX_LEAF_STRING_LEN,
        JsonValue::Array(items) => forall|i: int|
            0 <= i < items.len() ==> strings_short(#[trigger] items[i]),
        JsonValue::Object(entries) => forall|i: int|
            0 <= i < entries.len() ==> strings_short((#[trigger] entries[i]).1),
        _ => true,
    }
}

/// A tree generated with depth 0 is a single empty container.
pub proof fn lemma_depth_zero_is_empty(v: JsonValue, pool: Seq<char>, len: nat, n: nat, nums: spec_fn(JsonNumber) -> bool)
    requires
        generated(v, pool, len, 0, n, nums),
    ensures
        is_container(v),
        v->Object_0@.len() == 0,
{
}

/// A tree generated with depth 1 and fan-out `n` has only scalar children
/// under its object root, at most `n` of them (exactly `n` unless a key
/// was drawn twice, and at least one when `n > 0`), with distinct keys of
/// the configured length drawn from the configured pool.
pub proof fn lemma_depth_one_children(v: JsonValue, pool: Seq<char>, len: nat, n: nat, nums: spec_fn(JsonNumber) -> bool)
    requires
        generated(v, pool, len, 1, n, nums),
    ensures
        v is Object,
        v->Object_0@.len() <= n,
        n > 0 ==> v->Object_0@.len() > 0,
        forall|i: int|
            0 <= i < v->Object_0@.len() ==> is_scalar((#[trigger] v->Object_0@[i]).1) && key_ok(
                v->Object_0@[i].0@,
                pool,
                len,
            ),
{
    let entries = v->Object_0;
    assert forall|i: int| 0 <= i < entries@.len() implies is_scalar(
        (#[trigger] entries@[i]).1,
    ) by {
        assert(full_tree(entries@[i].1, 0, n, pool, len, nums));
    }
}

/// In a full tree of height `h` and fan-out `n > 0`, every root-to-leaf
/// path has exactly `h` edges.
pub proof fn lemma_full_tree_height(v: JsonValue, h: nat, n: nat, pool: Seq<char>, len: nat, nums: spec_fn(JsonNumber) -> bool)
    requires
        full_tree(v, h, n, pool, len, nums),
        n > 0,
    ensures
        every_path_has(v, h),
    decreases v,
{
    if h > 0 {
        match v {
            JsonValue::Array(items) => {
                assert forall|i: int| 0 <= i < items.len() implies every_path_has(
                    #[trigger] items[i],
                    (h - 1) as nat,
                ) by {
                    assert(decreases_to!(v => v->Array_0));
                    assert(decreases_to!(items => items[i]));
                    lemma_full_tree_height(items[i], (h - 1) as nat, n, pool, len, nums);
                }
            },
            JsonValue::Object(entries) => {
                assert forall|i: int| 0 <= i < entries.len() implies every_path_has(
                    (#[trigger] entries[i]).1,
                    (h - 1) as nat,
                ) by {
                    assert(decreases_to!(v => v->Object_0));
                    assert(decreases_to!(entries => entries[i]));
                    assert(decreases_to!(entries[i] => entries[i].1));
                    lemma_full_tree_height(entries[i].1, (h - 1) as nat, n, pool, len, nums);
                }
            },
            _ => {},
        }
    }
}

/// A tree generated with depth `depth >= 1` and fan-out `n > 0` has height
/// exactly `depth`: every root-to-leaf path has `depth` edges. (Its levels
/// above the last hold only containers and the last only scalars: that is
/// `full_tree`.)
pub proof fn lemma_generated_height(v: JsonValue, pool: Seq<char>, len: nat, depth: nat, n: nat, nums: spec_fn(JsonNumber) -> bool)
    requires
        generated(v, pool, len, depth, n, nums),
        depth >= 1,
        n > 0,
    ensures
        full_tree(v, depth, n, pool, len, nums),
        every_path_has(v, depth),
{
    lemma_full_tree_height(v, depth, n, pool, len, nums);
}

/// Every string in a full tree has at most `MAX_LEAF_STRING_LEN`
/// characters.
pub proof fn lemma_full_tree_strings_short(
    v: JsonValue,
    h: nat,
    n: nat,
    pool: Seq<char>,
    len: nat, nums: spec_fn(JsonNumber) -> bool
)
    requires
        full_tree(v, h, n, pool, len, nums),
    ensures
        strings_short(v),
    decreases v,
{
    if h > 0 {
        match v {
            JsonValue::Array(items) => {
                assert forall|i: int| 0 <= i < items.len() implies strings_short(
                    #[trigger] items[i],
                ) by {
                    assert(decreases_to!(v => v->Array_0));
                    assert(decreases_to!(items => items[i]));
                    lemma_full_tree_strings_short(items[i], (h - 1) as nat, n, pool, len, nums);
                }
            },
            JsonValue::Object(entries) => {
                assert forall|i: int| 0 <= i < entries.len() implies strings_short(
                    (#[trigger] entries[i]).1,
                ) by {
                    assert(decreases_to!(v => v->Object_0));
                    assert(decreases_to!(entries => entries[i]));
                    assert(decreases_to!(entries[i] => entries[i].1));
                    lemma_full_tree_strings_short(entries[i].1, (h - 1) as nat, n, pool, len, nums);
                }
            },
            _ => {},
        }
    }
}

/// Every string leaf of a generated tree has at most
/// `MAX_LEAF_STRING_LEN` characters.
pub proof fn lemma_generated_strings_short(
    v: JsonValue,
    pool: Seq<char>,
    len: nat,
    depth: nat,
    n: nat, nums: spec_fn(JsonNumber) -> bool
)
    requires
        generated(v, pool, len, depth, n, nums),
    ensures
        strings_short(v),
{
    if depth > 0 {
        lemma_full_tree_strings_short(v, depth, n, pool, len, nums);
    }
}

/// A number that equals no number leaf of a full tree does not occur in
/// it: keys and the other scalars can only match strings, booleans or null.
pub proof fn lemma_full_tree_absent_number(
    v: JsonValue,
    h: nat,
    n: nat,
    pool: Seq<char>,
    len: nat,
    nums: spec_fn(JsonNumber) -> bool,
    x: JsonNumber,
)
    requires
        full_tree(v, h, n, pool, len, nums),
        forall|y: JsonNumber| #[trigger] nums(y) ==> !number_eq(y, x),
    ensures
        !occurs(v, JsonValue::Number(x)),
    decreases v,
{
    if h > 0 {
        match v {
            JsonValue::Array(items) => {
                assert forall|i: int| 0 <= i < items.len() implies !occurs(
                    #[trigger] items[i],
                    JsonValue::Number(x),
                ) by {
                    assert(decreases_to!(v => v->Array_0));
                    assert(decreases_to!(items => items[i]));
                    lemma_full_tree_absent_number(items[i], (h - 1) as nat, n, pool, len, nums, x);
                }
            },
            JsonValue::Object(entries) => {
                assert forall|i: int| 0 <= i < entries.len() implies !occurs(
                    (#[trigger] entries[i]).1,
                    JsonValue::Number(x),
                ) by {
                    assert(decreases_to!(v => v->Object_0));
                    assert(decreases_to!(entries => entries[i]));
                    assert(decreases_to!(entries[i] => entries[i].1));
                    lemma_full_tree_absent_number(entries[i].1, (h - 1) as nat, n, pool, len, nums, x);
                }
            },
            _ => {},
        }
    }
}

/// A number that equals none of the numbers the source can return does not
/// occur in a generated tree; so both searches report it absent.
pub proof fn lemma_generated_absent_number(
    v: JsonValue,
    pool: Seq<char>,
    len: nat,
    depth: nat,
    n: nat,
    nums: spec_fn(JsonNumber) -> bool,
    x: JsonNumber,
)
    requires
        generated(v, pool, len, depth, n, nums),
        forall|y: JsonNumber| #[trigger] nums(y) ==> !number_eq(y, x),
    ensures
        !occurs(v, JsonValue::Number(x)),
{
    if depth > 0 {
        lemma_full_tree_absent_number(v, depth, n, pool, len, nums, x);
    }
}

} // verus!
