//! Depth-first search for a value in a structured document.
use vstd::prelude::*;

use crate::json_value::{key_equals, occurs, scalar_equals, JsonValue};

verus! {

/// Walks the document depth first, children in order, and reports whether
/// `value_to_find` occurs as a scalar node's value or as an object key.
pub fn run(root: &JsonValue, value_to_find: &JsonValue) -> (r: bool)
    ensures
        r == occurs(*root, *value_to_find),
    decreases root,
{
    match root {
        JsonValue::Array(array) => {
            let mut i: usize = 0;
            while i < array.len()
                invariant
                    i <= array.len(),
                    *root == JsonValue::Array(*array),
                    forall|j: int| 0 <= j < i ==> !occurs(#[trigger] array[j], *value_to_find),
                decreases array.len() - i,
            {
                proof {
                    assert(decreases_to!(*root => array[i as int])) by {
                        let rv = *root;
                        assert(decreases_to!(rv => rv->Array_0));
                        assert(decreases_to!(*array => array[i as int]));
                    }
                }
                if run(&array[i], value_to_find) {
                    assert(occurs(*root, *value_to_find)) by {
                        let rv = *root;
                        assert(rv->Array_0[i as int] == array[i as int]);
                    }
                    return true;
                }
                i += 1;
            }
            false
        },
        JsonValue::Object(map) => {
            let mut i: usize = 0;
            while i < map.len()
                invariant
                    i <= map.len(),
                    *root == JsonValue::Object(*map),
                    forall|j: int|
                        0 <= j < i ==> !(json_value_key_hit(#[trigger] map[j], *value_to_find)),
                decreases map.len() - i,
            {
                let entry = &map[i];
                proof {
                    assert(decreases_to!(*root => map[i as int].1)) by {
                        let rv = *root;
                        assert(decreases_to!(rv => rv->Object_0));
                        assert(decreases_to!(*map => map[i as int]));
                        assert(decreases_to!(map[i as int] => map[i as int].1));
                    }
                }
                if key_equals(&entry.0, value_to_find) || run(&entry.1, value_to_find) {
                    assert(occurs(*root, *value_to_find)) by {
                        let rv = *root;
                        assert(rv->Object_0[i as int] == map[i as int]);
                    }
                    return true;
                }
                i += 1;
            }
            false
        },
        other => scalar_equals(other, value_to_find),
    }
}

spec fn json_value_key_hit(e: (String, JsonValue), t: JsonValue) -> bool {
    crate::json_value::key_matches(e.0@, t) || occurs(e.1, t)
}

} // verus!
