use json_bench::breadth_first_search;
use json_bench::depth_first_search;
use json_bench::json_generator::{GenerateError, Generator};
use json_bench::json_type::{get_random_leaf_json, get_random_none_leaf_json, leaf_of, none_leaf_of, MAX_LEAF_STRING_LEN};
use json_bench::json_value::{JsonNumber, JsonValue};

fn number() -> JsonNumber {
    JsonNumber::from_bits(1.25f64.to_bits())
}

fn is_scalar(v: &JsonValue) -> bool {
    !matches!(v, JsonValue::Array(_) | JsonValue::Object(_))
}

fn children(v: &JsonValue) -> Vec<&JsonValue> {
    match v {
        JsonValue::Array(items) => items.iter().collect(),
        JsonValue::Object(entries) => entries.iter().map(|e| &e.1).collect(),
        _ => vec![],
    }
}

/// Checks the full-tree shape of height `h` and returns the number of nodes.
fn check_full(v: &JsonValue, h: usize, n: usize, pool: &str, len: usize) -> usize {
    if h == 0 {
        assert!(is_scalar(v), "expected a scalar, got {:?}", v);
        if let JsonValue::String(s) = v {
            assert!(s.chars().count() <= MAX_LEAF_STRING_LEN);
            assert!(s.chars().all(|c| c.is_ascii_alphabetic()));
        }
        return 1;
    }
    match v {
        JsonValue::Array(items) => assert_eq!(items.len(), n),
        JsonValue::Object(entries) => {
            assert!(entries.len() <= n);
            if n > 0 {
                assert!(!entries.is_empty());
            }
            for (i, (k, _)) in entries.iter().enumerate() {
                assert_eq!(k.chars().count(), len);
                assert!(k.chars().all(|c| pool.contains(c)));
                for (k2, _) in entries.iter().skip(i + 1) {
                    assert_ne!(k, k2);
                }
            }
        }
        _ => panic!("expected a container, got {:?}", v),
    }
    1 + children(v).into_iter().map(|c| check_full(c, h - 1, n, pool, len)).sum::<usize>()
}

fn height(v: &JsonValue) -> usize {
    children(v).into_iter().map(|c| 1 + height(c)).max().unwrap_or(0)
}

#[test]
fn depth_zero_is_an_empty_object() {
    let doc = Generator::generate_json("ab", 2, 0, 5, &number).unwrap();
    assert!(matches!(&doc, JsonValue::Object(e) if e.is_empty()));
}

#[test]
fn depth_one_has_scalar_children() {
    let pool = "AaBbCcDdEeFfGgHhIiJjKkLlMmNnOoPpQqRrSsTtUuVvWwXxYyZz!@#$%&";
    let doc = Generator::generate_json(pool, 10, 1, 4, &number).unwrap();
    match &doc {
        JsonValue::Object(entries) => {
            // with 58^10 possible keys a collision among four draws is negligible
            assert_eq!(entries.len(), 4);
            for (k, v) in entries {
                assert_eq!(k.chars().count(), 10);
                assert!(k.chars().all(|c| pool.contains(c)));
                assert!(is_scalar(v));
            }
        }
        other => panic!("root is not an object: {:?}", other),
    }
}

#[test]
fn deeper_trees_have_full_shape() {
    for depth in 2..=4u8 {
        let doc = Generator::generate_json("xyz", 3, depth, 3, &number).unwrap();
        assert!(matches!(doc, JsonValue::Object(_)));
        check_full(&doc, depth as usize, 3, "xyz", 3);
        assert_eq!(height(&doc), depth as usize);
    }
}

#[test]
fn scenario_pool_ab_depth_two() {
    let doc = Generator::generate_json("ab", 2, 2, 2, &number).unwrap();
    let nodes = check_full(&doc, 2, 2, "ab", 2);
    // a root with up to two containers (keys from "ab" may collide), each
    // with up to two scalars
    assert!((4..=7).contains(&nodes));
    let root_children = children(&doc);
    assert!(!root_children.is_empty() && root_children.len() <= 2);
    for c in root_children {
        assert!(matches!(c, JsonValue::Array(_) | JsonValue::Object(_)));
        for leaf in children(c) {
            assert!(depth_first_search::run(&doc, leaf) || matches!(leaf, JsonValue::Number(n) if f64::from_bits(n.bits).is_nan()));
            assert!(breadth_first_search::run(&doc, leaf));
        }
    }
}

#[test]
fn fan_out_zero_gives_an_empty_root() {
    let doc = Generator::generate_json("ab", 2, 3, 0, &number).unwrap();
    assert!(matches!(&doc, JsonValue::Object(e) if e.is_empty()));
}

#[test]
fn empty_pool_with_letters_is_rejected() {
    assert_eq!(Generator::generate_json("", 1, 0, 2, &number).unwrap_err(), GenerateError::InvalidPool);
    assert_eq!(Generator::generate_json("", 3, 3, 2, &number).unwrap_err(), GenerateError::InvalidPool);
}

#[test]
fn empty_pool_without_letters_is_accepted() {
    let doc = Generator::generate_json("", 0, 2, 2, &number).unwrap();
    match &doc {
        JsonValue::Object(entries) => {
            // every key is empty, so all draws collapse into one entry
            assert_eq!(entries.len(), 1);
            assert_eq!(entries[0].0, "");
        }
        other => panic!("root is not an object: {:?}", other),
    }
    check_full(&doc, 2, 2, "", 0);
}

#[test]
fn single_character_pool_collapses_keys() {
    let doc = Generator::generate_json("q", 2, 1, 5, &number).unwrap();
    match &doc {
        JsonValue::Object(entries) => {
            assert_eq!(entries.len(), 1);
            assert_eq!(entries[0].0, "qq");
        }
        other => panic!("root is not an object: {:?}", other),
    }
}

#[test]
fn generated_tree_never_holds_an_absent_number() {
    let doc = Generator::generate_json("ab", 4, 4, 3, &number).unwrap();
    let absent = JsonValue::Number(JsonNumber::from_bits(2_000_000_000f64.to_bits()));
    assert!(!depth_first_search::run(&doc, &absent));
    assert!(!breadth_first_search::run(&doc, &absent));
}

#[test]
fn numbers_come_from_the_source() {
    let doc = Generator::generate_json("ab", 1, 3, 4, &number).unwrap();
    let mut stack = vec![&doc];
    while let Some(v) = stack.pop() {
        if let JsonValue::Number(n) = v {
            assert!(n.equals(&number()));
        }
        stack.extend(children(v));
    }
}

#[test]
fn generated_object_keys_are_found() {
    let doc = Generator::generate_json("abcdef", 6, 2, 3, &number).unwrap();
    if let JsonValue::Object(entries) = &doc {
        for (k, _) in entries {
            let target = JsonValue::String(k.clone());
            assert!(depth_first_search::run(&doc, &target));
            assert!(breadth_first_search::run(&doc, &target));
        }
    } else {
        panic!("root is not an object");
    }
}

#[test]
fn random_scalars_are_scalars_with_short_strings() {
    for _ in 0..200 {
        let v = get_random_leaf_json(&number);
        assert!(is_scalar(&v));
        if let JsonValue::String(s) = &v {
            assert!(s.chars().count() <= 32);
            assert!(s.chars().all(|c| c.is_ascii_alphabetic()));
        }
    }
}

#[test]
fn random_containers_are_empty() {
    let mut arrays = 0;
    for _ in 0..200 {
        match get_random_none_leaf_json() {
            JsonValue::Array(items) => {
                assert!(items.is_empty());
                arrays += 1;
            }
            JsonValue::Object(entries) => assert!(entries.is_empty()),
            other => panic!("not a container: {:?}", other),
        }
    }
    assert!(arrays > 0 && arrays < 200);
}

#[test]
fn leaf_of_gives_the_drawn_scalar() {
    let n = JsonNumber::from_bits(7.5f64.to_bits());
    assert!(matches!(leaf_of(0, true, n, &vec![]), JsonValue::Null));
    assert!(matches!(leaf_of(1, true, n, &vec![]), JsonValue::Bool(true)));
    assert!(matches!(leaf_of(1, false, n, &vec![]), JsonValue::Bool(false)));
    assert!(matches!(leaf_of(2, true, n, &vec![]), JsonValue::Number(m) if m.bits == 7.5f64.to_bits()));
    match leaf_of(3, true, n, &vec![0, 1, 51, 2, 26]) {
        JsonValue::String(s) => assert_eq!(s, "AazBN"),
        other => panic!("not a string: {:?}", other),
    }
    match leaf_of(3, true, n, &vec![]) {
        JsonValue::String(s) => assert_eq!(s, ""),
        other => panic!("not a string: {:?}", other),
    }
}

#[test]
fn none_leaf_of_follows_the_coin() {
    assert!(matches!(none_leaf_of(true), JsonValue::Array(items) if items.is_empty()));
    assert!(matches!(none_leaf_of(false), JsonValue::Object(entries) if entries.is_empty()));
}
