use json_bench::breadth_first_search;
use json_bench::depth_first_search::run;
use json_bench::json_value::{JsonNumber, JsonValue};

fn s(text: &str) -> JsonValue {
    JsonValue::String(text.to_string())
}

fn pos_int(n: u64) -> JsonValue {
    float(n as f64)
}

fn float(x: f64) -> JsonValue {
    JsonValue::Number(JsonNumber::from_bits(x.to_bits()))
}

fn obj(entries: Vec<(&str, JsonValue)>) -> JsonValue {
    JsonValue::Object(entries.into_iter().map(|(k, v)| (k.to_string(), v)).collect())
}

fn messy_json() -> JsonValue {
    obj(vec![
        (
            "a",
            obj(vec![
                ("b", JsonValue::Array(vec![pos_int(0), float(0.5), s("shimi")])),
                ("c", JsonValue::Array(vec![JsonValue::Null])),
            ]),
        ),
        (
            "d",
            JsonValue::Array(vec![
                JsonValue::Array(vec![pos_int(1), s("hey")]),
                JsonValue::Array(vec![s("lol"), s("lol")]),
            ]),
        ),
        (
            "e",
            obj(vec![
                ("f", obj(vec![("g", pos_int(2))])),
                ("h", JsonValue::Array(vec![pos_int(3), JsonValue::Bool(true)])),
            ]),
        ),
    ])
}

fn expect_to_find(value_to_find: JsonValue) {
    let doc = messy_json();
    assert!(run(&doc, &value_to_find), "Expected to find: {:?}", value_to_find)
}

#[test]
fn should_find() {
    for letter in 'a'..='h' {
        expect_to_find(JsonValue::String(letter.to_string()))
    }

    for number in 0..=3 {
        expect_to_find(pos_int(number))
    }

    expect_to_find(JsonValue::Bool(true));
    expect_to_find(float(0.5));
    expect_to_find(s("shimi"));
    expect_to_find(s("hey"));
    expect_to_find(s("lol"));
}

#[test]
#[should_panic]
fn should_not_find_1() {
    expect_to_find(JsonValue::Bool(false));
}

#[test]
#[should_panic]
fn should_not_find_2() {
    expect_to_find(pos_int(4));
}

#[test]
#[should_panic]
fn should_not_find_3() {
    expect_to_find(float(1.5));
}

#[test]
#[should_panic]
fn should_not_find_4() {
    expect_to_find(s("i"));
}

#[test]
#[should_panic]
fn should_not_find_5() {
    expect_to_find(s("Hello"));
}

#[test]
fn bfs_and_dfs_agree_on_messy_document() {
    let doc = messy_json();
    let targets = vec![
        s("a"),
        s("h"),
        s("i"),
        pos_int(0),
        pos_int(3),
        pos_int(4),
        float(0.5),
        float(1.5),
        JsonValue::Bool(true),
        JsonValue::Bool(false),
        JsonValue::Null,
        s("lol"),
        s("Hello"),
        JsonValue::Array(vec![]),
    ];
    for t in targets.iter() {
        assert_eq!(breadth_first_search::run(&doc, t), run(&doc, t), "target {:?}", t);
    }
}

#[test]
fn bfs_finds_planted_values_and_keys() {
    let doc = messy_json();
    assert!(breadth_first_search::run(&doc, &s("shimi")));
    assert!(breadth_first_search::run(&doc, &JsonValue::Null));
    assert!(breadth_first_search::run(&doc, &s("g")));
    assert!(!breadth_first_search::run(&doc, &s("Hello")));
    assert!(!breadth_first_search::run(&doc, &pos_int(2_000_000_000)));
    assert!(!run(&doc, &pos_int(2_000_000_000)));
}

#[test]
fn known_document_scenario() {
    let doc = obj(vec![("aa", obj(vec![("bb", pos_int(5)), ("cc", s("x"))]))]);
    assert!(run(&doc, &pos_int(5)));
    assert!(run(&doc, &s("bb")));
    assert!(!run(&doc, &pos_int(6)));
    assert!(breadth_first_search::run(&doc, &pos_int(5)));
    assert!(breadth_first_search::run(&doc, &s("bb")));
    assert!(!breadth_first_search::run(&doc, &pos_int(6)));
}

#[test]
fn key_match_only_as_key() {
    // "k" is a key and never a value.
    let doc = JsonValue::Array(vec![obj(vec![("k", pos_int(1))])]);
    assert!(run(&doc, &s("k")));
    assert!(breadth_first_search::run(&doc, &s("k")));
    // a key is not matched by a non-string target
    assert!(!run(&doc, &JsonValue::Null));
}

#[test]
fn containers_never_match_a_target() {
    let doc = JsonValue::Array(vec![JsonValue::Array(vec![])]);
    assert!(!run(&doc, &JsonValue::Array(vec![])));
    assert!(!breadth_first_search::run(&doc, &JsonValue::Array(vec![])));
}

#[test]
fn float_equality_follows_ieee() {
    let doc = JsonValue::Array(vec![float(0.0), float(f64::NAN)]);
    assert!(run(&doc, &float(-0.0)));
    assert!(breadth_first_search::run(&doc, &float(-0.0)));
    assert!(!run(&doc, &float(f64::NAN)));
    assert!(!breadth_first_search::run(&doc, &float(f64::NAN)));
    // numbers compare by value: 1 and 1.0 are the same number
    assert!(run(&JsonValue::Array(vec![pos_int(1)]), &float(1.0)));
    assert!(breadth_first_search::run(&JsonValue::Array(vec![pos_int(1)]), &float(1.0)));
    assert!(run(&JsonValue::Array(vec![float(-3.0)]), &float(-3.0)));
    assert!(!run(&JsonValue::Array(vec![float(-3.0)]), &float(3.0)));
}

#[test]
fn scalar_root_and_empty_containers() {
    assert!(run(&pos_int(7), &pos_int(7)));
    assert!(breadth_first_search::run(&pos_int(7), &pos_int(7)));
    assert!(!run(&JsonValue::Object(vec![]), &JsonValue::Null));
    assert!(!breadth_first_search::run(&JsonValue::Array(vec![]), &JsonValue::Null));
}

#[test]
fn deep_document_is_searched_without_overflow() {
    let mut doc = s("bottom");
    for _ in 0..255 {
        doc = JsonValue::Array(vec![doc]);
    }
    assert!(breadth_first_search::run(&doc, &s("bottom")));
    assert!(run(&doc, &s("bottom")));
    assert!(!breadth_first_search::run(&doc, &s("top")));
}
