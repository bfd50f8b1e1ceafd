//! Breadth-first search for a value in a structured document.
use vstd::prelude::*;

use crate::json_value::{key_equals, key_matches, occurs, scalar_equals, JsonValue};

verus! {

/// Every root-to-leaf path of `v` has at most `h` edges.
spec fn within(v: JsonValue, h: nat) -> bool
    decreases v,
{
    match v {
        JsonValue::Array(items) => h > 0 && forall|i: int|
            0 <= i < items.len() ==> within(#[trigger] items[i], (h - 1) as nat),
        JsonValue::Object(entries) => h > 0 && forall|i: int|
            0 <= i < entries.len() ==> within((#[trigger] entries[i]).1, (h - 1) as nat),
        _ => true,
    }
}

spec fn children_len(v: JsonValue) -> nat {
    match v {
        JsonValue::Array(items) => items@.len(),
        JsonValue::Object(entries) => entries@.len(),
        _ => 0,
    }
}

/// The child at position `i` of a container.
spec fn child_at(v: JsonValue, i: int) -> JsonValue {
    match v {
        JsonValue::Array(items) => items[i],
        JsonValue::Object(entries) => entries[i].1,
        _ => v,
    }
}

proof fn lemma_within_mono(v: JsonValue, h: nat, g: nat)
    requires
        within(v, h),
        h <= g,
    ensures
        within(v, g),
    decreases v,
{
    match v {
        JsonValue::Array(items) => {
            assert forall|i: int| 0 <= i < items.len() implies within(
                #[trigger] items[i],
                (g - 1) as nat,
            ) by {
                assert(decreases_to!(v => v->Array_0));
                assert(decreases_to!(items => items[i]));
                lemma_within_mono(items[i], (h - 1) as nat, (g - 1) as nat);
            }
        },
        JsonValue::Object(entries) => {
            assert forall|i: int| 0 <= i < entries.len() implies within(
                (#[trigger] entries[i]).1,
                (g - 1) as nat,
            ) by {
                assert(decreases_to!(v => v->Object_0));
                assert(decreases_to!(entries => entries[i]));
                assert(decreases_to!(entries[i] => entries[i].1));
                lemma_within_mono(entries[i].1, (h - 1) as nat, (g - 1) as nat);
            }
        },
        _ => {},
    }
}

/// A bound on the height of the first `k` children of `v`.
proof fn children_bound(v: JsonValue, k: nat) -> (h: nat)
    requires
        k <= children_len(v),
    ensures
        forall|i: int| 0 <= i < k ==> within(#[trigger] child_at(v, i), h),
    decreases v, k,
{
    if k == 0 {
        0
    } else {
        let rest = children_bound(v, (k - 1) as nat);
        let c = child_at(v, k - 1);
        match v {
            JsonValue::Array(items) => {
                assert(decreases_to!(v => v->Array_0));
                assert(decreases_to!(items => items[k - 1]));
            },
            JsonValue::Object(entries) => {
                assert(decreases_to!(v => v->Object_0));
                assert(decreases_to!(entries => entries[k - 1]));
                assert(decreases_to!(entries[k - 1] => entries[k - 1].1));
            },
            _ => {},
        }
        let last = height_bound(c);
        let h = if rest <= last {
            last
        } else {
            rest
        };
        assert forall|i: int| 0 <= i < k implies within(#[trigger] child_at(v, i), h) by {
            if i < k - 1 {
                lemma_within_mono(child_at(v, i), rest, h);
            } else {
                lemma_within_mono(c, last, h);
            }
        }
        h
    }
}

/// A bound on the height of `v`.
proof fn height_bound(v: JsonValue) -> (h: nat)
    ensures
        within(v, h),
    decreases v, children_len(v) + 1,
{
    match v {
        JsonValue::Array(items) => {
            let b = children_bound(v, children_len(v));
            assert forall|i: int| 0 <= i < items.len() implies within(
                #[trigger] items[i],
                b,
            ) by {
                assert(child_at(v, i) == items[i]);
            }
            b + 1
        },
        JsonValue::Object(entries) => {
            let b = children_bound(v, children_len(v));
            assert forall|i: int| 0 <= i < entries.len() implies within(
                (#[trigger] entries[i]).1,
                b,
            ) by {
                assert(child_at(v, i) == entries[i].1);
            }
            b + 1
        },
        _ => 0,
    }
}


/// Some node of `s` from position `lo` on holds the target.
spec fn any_occurs(s: Seq<&JsonValue>, lo: int, t: JsonValue) -> bool {
    exists|j: int| lo <= j < s.len() && occurs(*#[trigger] s[j], t)
}

proof fn lemma_any_push(s: Seq<&JsonValue>, x: &JsonValue, t: JsonValue)
    ensures
        any_occurs(s.push(x), 0, t) == (any_occurs(s, 0, t) || occurs(*x, t)),
{
    if any_occurs(s, 0, t) {
        let j = choose|j: int| 0 <= j < s.len() && occurs(*#[trigger] s[j], t);
        assert(s.push(x)[j] == s[j]);
    }
    if occurs(*x, t) {
        assert(s.push(x)[s.len() as int] == x);
    }
    if any_occurs(s.push(x), 0, t) {
        let j = choose|j: int| 0 <= j < s.push(x).len() && occurs(*#[trigger] s.push(x)[j], t);
        if j < s.len() {
            assert(s.push(x)[j] == s[j]);
        }
    }
}

proof fn lemma_any_step(s: Seq<&JsonValue>, i: int, t: JsonValue)
    requires
        0 <= i < s.len(),
    ensures
        any_occurs(s, i, t) == (occurs(*s[i], t) || any_occurs(s, i + 1, t)),
{
}

/// Walks the document level by level, in the order of a first-in first-out
/// queue seeded with the root, and reports whether `value_to_find` occurs as
/// a scalar node's value or as an object key.
pub fn run(root: &JsonValue, value_to_find: &JsonValue) -> (r: bool)
    ensures
        r == occurs(*root, *value_to_find),
{
    let ghost t = *value_to_find;
    let mut level: Vec<&JsonValue> = Vec::new();
    level.push(root);
    let ghost mut bound: nat = height_bound(*root);
    proof {
        assert(level@[0] == root);
        assert(occurs(*root, t) == any_occurs(level@, 0, t));
    }
    while level.len() > 0
        invariant
            t == *value_to_find,
            occurs(*root, t) == any_occurs(level@, 0, t),
            forall|j: int| 0 <= j < level.len() ==> within(*#[trigger] level@[j], bound),
        decreases (if level.len() > 0 {
            bound + 1
        } else {
            0
        }),
    {
        let mut next: Vec<&JsonValue> = Vec::new();
        let mut i: usize = 0;
        while i < level.len()
            invariant
                t == *value_to_find,
                i <= level.len(),
                occurs(*root, t) == (any_occurs(level@, i as int, t) || any_occurs(next@, 0, t)),
                forall|j: int| 0 <= j < level.len() ==> within(*#[trigger] level@[j], bound),
                next.len() > 0 ==> bound > 0,
                forall|k: int| 0 <= k < next.len() ==> within(*#[trigger] next@[k], (bound - 1) as nat),
            decreases level.len() - i,
        {
            let node: &JsonValue = level[i];
            proof {
                lemma_any_step(level@, i as int, t);
            }
            match node {
                JsonValue::Array(items) => {
                    let ghost next0 = next@;
                    let mut c: usize = 0;
                    while c < items.len()
                        invariant
                            t == *value_to_find,
                            c <= items.len(),
                            i < level.len(),
                            node == level@[i as int],
                            occurs(*root, t) == (any_occurs(level@, i as int, t) || any_occurs(next0, 0, t)),
                            any_occurs(level@, i as int, t) == (occurs(*node, t) || any_occurs(level@, i + 1, t)),
                            forall|j: int| 0 <= j < level.len() ==> within(*#[trigger] level@[j], bound),
                            *node == JsonValue::Array(*items),
                            within(*node, bound),
                            any_occurs(next@, 0, t) == (any_occurs(next0, 0, t) || exists|c2: int|
                                0 <= c2 < c && occurs(#[trigger] items[c2], t)),
                            next.len() > 0 ==> bound > 0,
                forall|k: int| 0 <= k < next.len() ==> within(*#[trigger] next@[k], (bound - 1) as nat),
                        decreases items.len() - c,
                    {
                        proof {
                            lemma_any_push(next@, &items[c as int], t);
                            let nv = *node;
                            assert(nv->Array_0[c as int] == items[c as int]);
                            assert(within(items[c as int], (bound - 1) as nat));
                        }
                        next.push(&items[c]);
                        c += 1;
                    }
                    proof {
                        let nv = *node;
                        assert(nv->Array_0 == *items);
                        assert(occurs(*node, t) == exists|c2: int|
                            0 <= c2 < items.len() && occurs(#[trigger] items[c2], t));
                    }
                },
                JsonValue::Object(entries) => {
                    let ghost next0 = next@;
                    let mut c: usize = 0;
                    while c < entries.len()
                        invariant
                            t == *value_to_find,
                            c <= entries.len(),
                            i < level.len(),
                            node == level@[i as int],
                            occurs(*root, t) == (any_occurs(level@, i as int, t) || any_occurs(next0, 0, t)),
                            any_occurs(level@, i as int, t) == (occurs(*node, t) || any_occurs(level@, i + 1, t)),
                            forall|j: int| 0 <= j < level.len() ==> within(*#[trigger] level@[j], bound),
                            *node == JsonValue::Object(*entries),
                            within(*node, bound),
                            forall|c2: int|
                                0 <= c2 < c ==> !key_matches((#[trigger] entries[c2]).0@, t),
                            any_occurs(next@, 0, t) == (any_occurs(next0, 0, t) || exists|c2: int|
                                0 <= c2 < c && occurs((#[trigger] entries[c2]).1, t)),
                            next.len() > 0 ==> bound > 0,
                forall|k: int| 0 <= k < next.len() ==> within(*#[trigger] next@[k], (bound - 1) as nat),
                        decreases entries.len() - c,
                    {
                        let entry = &entries[c];
                        if key_equals(&entry.0, value_to_find) {
                            proof {
                                let nv = *node;
                                assert(nv->Object_0[c as int] == entries[c as int]);
                                assert(occurs(*node, t));
                            }
                            return true;
                        }
                        proof {
                            lemma_any_push(next@, &entry.1, t);
                            let nv = *node;
                            assert(nv->Object_0[c as int] == entries[c as int]);
                            assert(within(entries[c as int].1, (bound - 1) as nat));
                        }
                        next.push(&entry.1);
                        c += 1;
                    }
                    proof {
                        let nv = *node;
                        assert(nv->Object_0 == *entries);
                        assert(occurs(*node, t) == exists|c2: int|
                            0 <= c2 < entries.len() && occurs((#[trigger] entries[c2]).1, t));
                    }
                },
                _ => {
                    if scalar_equals(node, value_to_find) {
                        assert(occurs(*node, t));
                        return true;
                    }
                },
            }
            i += 1;
        }
        level = next;
        proof {
            if bound > 0 {
                bound = (bound - 1) as nat;
            }
        }
    }
    false
}

} // verus!
