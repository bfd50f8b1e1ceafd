//! Random choice of node types: containers for inner levels, scalars for
//! the last level.
use vstd::prelude::*;
use vstd::string::StrSliceExecFns;

use crate::json_value::{JsonNumber, JsonValue};
use crate::randomizer;

verus! {

/// The longest string a random scalar holds.
pub const MAX_LEAF_STRING_LEN: usize = 32;

/// The number of letters a random string draws from.
pub const ALPHABET_LEN: usize = 52;

/// The number of scalar kinds: null, boolean, number, string.
pub const LEAF_KINDS: usize = 4;

/// The letters a random string draws from: upper- and lower-case Latin.
pub open spec fn leaf_alphabet() -> Seq<char> {
    "AaBbCcDdEeFfGgHhIiJjKkLlMmNnOoPpQqRrSsTtUuVvWwXxYyZz"@
}

enum ValueNonLeafType {
    Array,
    Object,
}

#[derive(Clone, Copy)]
enum ValueLeafType {
    Null,
    Bool,
    Number,
    String,
}

/// What a generated scalar satisfies: it is a scalar, and a string holds at
/// most `MAX_LEAF_STRING_LEN` characters, each from `leaf_alphabet()`.
pub open spec fn leaf_ok(v: JsonValue) -> bool {
    match v {
        JsonValue::String(s) => s@.len() <= MAX_LEAF_STRING_LEN && forall|i: int|
            0 <= i < s@.len() ==> leaf_alphabet().contains(#[trigger] s@[i]),
        JsonValue::Array(_) | JsonValue::Object(_) => false,
        _ => true,
    }
}

/// The container type for a coin flip: `true` gives an array.
fn get_random_none_leaf_json_type(is_array: bool) -> (r: ValueNonLeafType)
    ensures
        is_array ==> r is Array,
        !is_array ==> r is Object,
{
    if is_array {
        ValueNonLeafType::Array
    } else {
        ValueNonLeafType::Object
    }
}

/// The empty container for a coin flip: `true` gives an array, `false` an
/// object.
pub fn none_leaf_of(is_array: bool) -> (r: JsonValue)
    ensures
        is_array ==> (r matches JsonValue::Array(items) && items@.len() == 0),
        !is_array ==> (r matches JsonValue::Object(entries) && entries@.len() == 0),
{
    match get_random_none_leaf_json_type(is_array) {
        ValueNonLeafType::Array => JsonValue::Array(Vec::new()),
        ValueNonLeafType::Object => JsonValue::Object(Vec::new()),
    }
}

/// An empty container, an array or an object with equal chance.
pub fn get_random_none_leaf_json() -> (r: JsonValue)
    ensures
        match r {
            JsonValue::Array(items) => items@.len() == 0,
            JsonValue::Object(entries) => entries@.len() == 0,
            _ => false,
        },
{
    none_leaf_of(randomizer::random_bool())
}

/// The scalar kind at position `kind` of null, boolean, number, string.
fn get_random_leaf_json_type(kind: usize) -> (r: ValueLeafType)
    requires
        kind < LEAF_KINDS,
    ensures
        kind == 0 ==> r is Null,
        kind == 1 ==> r is Bool,
        kind == 2 ==> r is Number,
        kind == 3 ==> r is String,
{
    if kind == 0 {
        ValueLeafType::Null
    } else if kind == 1 {
        ValueLeafType::Bool
    } else if kind == 2 {
        ValueLeafType::Number
    } else {
        ValueLeafType::String
    }
}

/// The scalar for the given draws: kind 0 is null, 1 the boolean `flag`,
/// 2 the number `number`, 3 the string whose `i`-th character is letter
/// `letters[i]` of `leaf_alphabet()`.
pub fn leaf_of(kind: usize, flag: bool, number: JsonNumber, letters: &Vec<usize>) -> (r: JsonValue)
    requires
        kind < LEAF_KINDS,
        letters@.len() <= MAX_LEAF_STRING_LEN,
        forall|i: int| 0 <= i < letters@.len() ==> #[trigger] letters@[i] < ALPHABET_LEN,
    ensures
        kind == 0 ==> r is Null,
        kind == 1 ==> r == JsonValue::Bool(flag),
        kind == 2 ==> r == JsonValue::Number(number),
        kind == 3 ==> (r matches JsonValue::String(s) && s@.len() == letters@.len() && forall|i: int|
            0 <= i < letters@.len() ==> #[trigger] s@[i] == leaf_alphabet()[letters@[i] as int]),
        leaf_ok(r),
{
    match get_random_leaf_json_type(kind) {
        ValueLeafType::Null => JsonValue::Null,
        ValueLeafType::Bool => JsonValue::Bool(flag),
        ValueLeafType::Number => JsonValue::Number(number),
        ValueLeafType::String => {
            let alphabet = "AaBbCcDdEeFfGgHhIiJjKkLlMmNnOoPpQqRrSsTtUuVvWwXxYyZz";
            proof {
                reveal_strlit("AaBbCcDdEeFfGgHhIiJjKkLlMmNnOoPpQqRrSsTtUuVvWwXxYyZz");
            }
            assert(alphabet@ == leaf_alphabet());
            let mut string_builder = String::new();
            let mut count: usize = 0;
            while count < letters.len()
                invariant
                    count <= letters@.len(),
                    letters@.len() <= MAX_LEAF_STRING_LEN,
                    forall|i: int| 0 <= i < letters@.len() ==> #[trigger] letters@[i] < ALPHABET_LEN,
                    alphabet@ == leaf_alphabet(),
                    alphabet@.len() == ALPHABET_LEN,
                    string_builder@.len() == count,
                    forall|i: int|
                        0 <= i < count ==> #[trigger] string_builder@[i] == leaf_alphabet()[letters@[i] as int],
                decreases letters.len() - count,
            {
                string_builder.push(alphabet.get_char(letters[count]));
                count += 1;
            }
            assert forall|i: int| 0 <= i < string_builder@.len() implies leaf_alphabet().contains(
                #[trigger] string_builder@[i],
            ) by {
                assert(leaf_alphabet()[letters@[i] as int] == string_builder@[i]);
            }
            JsonValue::String(string_builder)
        },
    }
}

/// A random scalar: null, a boolean, a number or a string, each with equal
/// chance. A number is whatever `draw_number` returns; a string has a
/// random length from 0 to `MAX_LEAF_STRING_LEN` and random letters of
/// `leaf_alphabet()`.
pub fn get_random_leaf_json<F: Fn() -> JsonNumber>(draw_number: &F) -> (r: JsonValue)
    requires
        call_requires(*draw_number, ()),
    ensures
        leaf_ok(r),
        r matches JsonValue::Number(n) ==> call_ensures(*draw_number, (), n),
{
    let kind = randomizer::get_random_number_in_range(0, LEAF_KINDS);
    let flag = if kind == 1 {
        randomizer::random_bool()
    } else {
        false
    };
    let number = if kind == 2 {
        draw_number()
    } else {
        JsonNumber::from_bits(0)
    };
    let mut letters: Vec<usize> = Vec::new();
    if kind == 3 {
        let number_of_letters = randomizer::get_random_number_in_range(0, MAX_LEAF_STRING_LEN + 1);
        let mut count: usize = 0;
        while count < number_of_letters
            invariant
                count <= number_of_letters,
                number_of_letters <= MAX_LEAF_STRING_LEN,
                letters@.len() == count,
                forall|i: int| 0 <= i < letters@.len() ==> #[trigger] letters@[i] < ALPHABET_LEN,
            decreases number_of_letters - count,
        {
            letters.push(randomizer::get_random_number_in_range(0, ALPHABET_LEN));
            count += 1;
        }
    }
    leaf_of(kind, flag, number, &letters)
}

} // verus!
