//! Generation of a full tree of fixed depth and fan-out, built level by
//! level without recursion.
//!
//! The first pass walks the levels top down and decides, for every inner
//! node, whether it is an array or an object and which keys an object gets.
//! The second pass walks the levels bottom up: the last level receives
//! random scalars, and each level above takes its children, in order, from
//! the finished level below it.
use std::collections::VecDeque;

use vstd::prelude::*;
use vstd::string::StrSliceExecFns;

use crate::json_type::{get_random_leaf_json, get_random_none_leaf_json, leaf_ok};
use crate::json_value::{JsonNumber, JsonValue};
use crate::randomizer;

verus! {

/// Why a tree cannot be generated.
#[derive(Debug, PartialEq, Eq, Structural, Clone, Copy)]
pub enum GenerateError {
    /// Keys of non-zero length were asked for, from an empty character pool.
    InvalidPool,
}

/// The parameters of one generated tree.
#[derive(Debug)]
pub struct Generator {
    charachters_poll: Vec<char>,
    number_of_letters: usize,
    depth: u8,
    number_of_children: u8,
}

/// A key of `len` characters, each taken from `pool`.
pub open spec fn key_ok(k: Seq<char>, pool: Seq<char>, len: nat) -> bool {
    k.len() == len && forall|i: int| 0 <= i < k.len() ==> pool.contains(#[trigger] k[i])
}

/// `v` is a full tree of height `h`: every node above the last level is a
/// container whose children are again full trees of one level less, an
/// array with exactly `n` children, an object with at most `n` (and at least
/// one when `n > 0`: keys drawn twice collapse into one entry) whose keys
/// are distinct and drawn from `pool` with `len` characters; the last level
/// holds generated scalars, each number satisfying `nums`.
pub open spec fn full_tree(v: JsonValue, h: nat, n: nat, pool: Seq<char>, len: nat, nums: spec_fn(JsonNumber) -> bool) -> bool
    decreases v,
{
    if h == 0 {
        leaf_ok(v) && (v matches JsonValue::Number(x) ==> nums(x))
    } else {
        match v {
            JsonValue::Array(items) => items.len() == n && forall|i: int|
                0 <= i < items.len() ==> full_tree(#[trigger] items[i], (h - 1) as nat, n, pool, len, nums),
            JsonValue::Object(entries) => {
                &&& entries.len() <= n
                &&& n > 0 ==> entries.len() > 0
                &&& forall|i: int|
                    0 <= i < entries.len() ==> key_ok((#[trigger] entries[i]).0@, pool, len)
                        && full_tree(entries[i].1, (h - 1) as nat, n, pool, len, nums)
                &&& forall|i: int, j: int|
                    0 <= i < entries.len() && 0 <= j < entries.len() && i != j ==> (
                    #[trigger] entries[i]).0@ != (#[trigger] entries[j]).0@
            },
            _ => false,
        }
    }
}

/// What `Generator::generate_json` returns for these parameters: an object
/// root, empty for depth 0, else a full tree of height `depth` whose
/// numbers satisfy `nums`.
pub open spec fn generated(v: JsonValue, pool: Seq<char>, len: nat, depth: nat, n: nat, nums: spec_fn(JsonNumber) -> bool) -> bool {
    &&& v is Object
    &&& depth == 0 ==> v->Object_0@.len() == 0
    &&& depth > 0 ==> full_tree(v, depth, n, pool, len, nums)
}

/// An inner node whose type (and, for an object, whose keys) is decided
/// and whose children are not made yet.
struct Shell {
    node: JsonValue,
    keys: Vec<String>,
}

spec fn shell_count(s: Shell, n: nat) -> nat {
    if s.node is Array {
        n
    } else {
        s.keys@.len()
    }
}

spec fn keys_ok(keys: Seq<String>, n: nat, pool: Seq<char>, len: nat) -> bool {
    &&& keys.len() <= n
    &&& n > 0 ==> keys.len() > 0
    &&& forall|i: int| 0 <= i < keys.len() ==> key_ok((#[trigger] keys[i])@, pool, len)
    &&& forall|i: int, j: int|
        0 <= i < keys.len() && 0 <= j < keys.len() && i != j ==> (#[trigger] keys[i])@ != (
        #[trigger] keys[j])@
}

spec fn shell_ok(s: Shell, n: nat, pool: Seq<char>, len: nat) -> bool {
    match s.node {
        JsonValue::Array(items) => items@.len() == 0,
        JsonValue::Object(entries) => entries@.len() == 0 && keys_ok(s.keys@, n, pool, len),
        _ => false,
    }
}

spec fn level_ok(s: Seq<Shell>, n: nat, pool: Seq<char>, len: nat) -> bool {
    forall|k: int| 0 <= k < s.len() ==> shell_ok(#[trigger] s[k], n, pool, len)
}

/// The number of children that the shells of `s` take together.
spec fn total_count(s: Seq<Shell>, n: nat) -> nat
    decreases s.len(),
{
    if s.len() == 0 {
        0
    } else {
        shell_count(s[0], n) + total_count(s.subrange(1, s.len() as int), n)
    }
}

proof fn lemma_total_step(s: Seq<Shell>, j: int, n: nat)
    requires
        0 <= j < s.len(),
    ensures
        total_count(s.subrange(j, s.len() as int), n) == shell_count(s[j], n) + total_count(
            s.subrange(j + 1, s.len() as int),
            n,
        ),
{
    let t = s.subrange(j, s.len() as int);
    assert(t.subrange(1, t.len() as int) =~= s.subrange(j + 1, s.len() as int));
    assert(t[0] == s[j]);
}

/// Each level's shells are well formed, and each level has as many shells
/// as the level above it has children.
spec fn levels_ok(levels: Seq<Vec<Shell>>, n: nat, pool: Seq<char>, len: nat) -> bool {
    &&& forall|j: int| 0 <= j < levels.len() ==> level_ok((#[trigger] levels[j])@, n, pool, len)
    &&& forall|j: int|
        0 <= j < levels.len() - 1 ==> (#[trigger] levels[j + 1])@.len() == total_count(
            levels[j]@,
            n,
        )
}

/// Whether some key of `keys` equals `name`.
fn contains_key(keys: &Vec<String>, name: &String) -> (r: bool)
    ensures
        r == exists|i: int| 0 <= i < keys@.len() && (#[trigger] keys@[i])@ == name@,
{
    let mut i: usize = 0;
    while i < keys.len()
        invariant
            i <= keys@.len(),
            forall|k: int| 0 <= k < i ==> (#[trigger] keys@[k])@ != name@,
        decreases keys.len() - i,
    {
        if keys[i].eq(name) {
            return true;
        }
        i += 1;
    }
    false
}

/// The number of children a shell takes.
fn shell_len(shell: &Shell, number_of_children: usize) -> (r: usize)
    ensures
        r == shell_count(*shell, number_of_children as nat),
{
    match &shell.node {
        JsonValue::Array(_) => number_of_children,
        _ => shell.keys.len(),
    }
}

impl Generator {
    pub closed spec fn pool(&self) -> Seq<char> {
        self.charachters_poll@
    }

    pub closed spec fn key_len(&self) -> nat {
        self.number_of_letters as nat
    }

    pub closed spec fn fan_out(&self) -> nat {
        self.number_of_children as nat
    }

    pub closed spec fn levels(&self) -> nat {
        self.depth as nat
    }

    /// Keys can be drawn: none of them needs a character, or the pool has one.
    pub closed spec fn can_name(&self) -> bool {
        self.number_of_letters == 0 || self.charachters_poll@.len() > 0
    }

    fn new(charachters_poll: &str, number_of_letters: u8, depth: u8, number_of_children: u8) -> (r:
        Generator)
        ensures
            r.pool() == charachters_poll@,
            r.key_len() == number_of_letters,
            r.levels() == depth,
            r.fan_out() == number_of_children,
    {
        let pool_len = charachters_poll.unicode_len();
        let mut chars: Vec<char> = Vec::new();
        let mut i: usize = 0;
        while i < pool_len
            invariant
                i <= pool_len,
                pool_len == charachters_poll@.len(),
                chars@ == charachters_poll@.subrange(0, i as int),
            decreases pool_len - i,
        {
            chars.push(charachters_poll.get_char(i));
            i += 1;
            assert(chars@ =~= charachters_poll@.subrange(0, i as int));
        }
        assert(chars@ =~= charachters_poll@);
        Generator {
            charachters_poll: chars,
            number_of_letters: number_of_letters as usize,
            depth,
            number_of_children,
        }
    }

    fn get_random_node_character(&self) -> (r: &char)
        requires
            self.pool().len() > 0,
        ensures
            self.pool().contains(*r),
    {
        randomizer::get_random_value_from_array(self.charachters_poll.as_slice())
    }

    /// A fresh random key: `number_of_letters` characters from the pool.
    fn get_random_node_name(&self) -> (r: String)
        requires
            self.can_name(),
        ensures
            key_ok(r@, self.pool(), self.key_len()),
    {
        let mut string_builder = String::new();
        let mut count: usize = 0;
        while count < self.number_of_letters
            invariant
                self.can_name(),
                count <= self.number_of_letters,
                string_builder@.len() == count,
                forall|i: int|
                    0 <= i < count ==> self.pool().contains(#[trigger] string_builder@[i]),
            decreases self.number_of_letters - count,
        {
            let c = *self.get_random_node_character();
            string_builder.push(c);
            count += 1;
        }
        string_builder
    }

    /// The keys of a new object: `number_of_children` random keys, where a
    /// key drawn again collapses into the entry that already has it.
    fn get_random_node_names(&self) -> (keys: Vec<String>)
        requires
            self.can_name(),
        ensures
            keys_ok(keys@, self.fan_out(), self.pool(), self.key_len()),
    {
        let mut keys: Vec<String> = Vec::new();
        let mut count: u8 = 0;
        while count < self.number_of_children
            invariant
                self.can_name(),
                count <= self.number_of_children,
                keys@.len() <= count,
                count > 0 ==> keys@.len() > 0,
                forall|i: int|
                    0 <= i < keys@.len() ==> key_ok(
                        (#[trigger] keys@[i])@,
                        self.pool(),
                        self.key_len(),
                    ),
                forall|i: int, j: int|
                    0 <= i < keys@.len() && 0 <= j < keys@.len() && i != j ==> (
                    #[trigger] keys@[i])@ != (#[trigger] keys@[j])@,
            decreases self.number_of_children - count,
        {
            let name = self.get_random_node_name();
            if !contains_key(&keys, &name) {
                keys.push(name);
            }
            count += 1;
        }
        keys
    }

    /// A new inner node of random type, with its keys if it is an object.
    fn new_shell(&self) -> (s: Shell)
        requires
            self.can_name(),
        ensures
            shell_ok(s, self.fan_out(), self.pool(), self.key_len()),
    {
        let node = get_random_none_leaf_json();
        let keys = match &node {
            JsonValue::Object(_) => self.get_random_node_names(),
            _ => Vec::new(),
        };
        Shell { node, keys }
    }

    /// The shells of the level below `above`, one for each child that the
    /// shells of `above` take, in order.
    fn plan_next_level(&self, above: &Vec<Shell>) -> (below: Vec<Shell>)
        requires
            self.can_name(),
        ensures
            below@.len() == total_count(above@, self.fan_out()),
            level_ok(below@, self.fan_out(), self.pool(), self.key_len()),
    {
        let ghost n = self.fan_out();
        let mut below: Vec<Shell> = Vec::new();
        let mut j: usize = 0;
        assert(above@.subrange(0, above@.len() as int) =~= above@);
        while j < above.len()
            invariant
                self.can_name(),
                n == self.fan_out(),
                j <= above@.len(),
                below@.len() + total_count(above@.subrange(j as int, above@.len() as int), n)
                    == total_count(above@, n),
                level_ok(below@, n, self.pool(), self.key_len()),
            decreases above.len() - j,
        {
            proof {
                lemma_total_step(above@, j as int, n);
            }
            let count = shell_len(&above[j], self.number_of_children as usize);
            let mut c: usize = 0;
            let ghost start = below@.len();
            while c < count
                invariant
                    self.can_name(),
                    c <= count,
                    below@.len() == start + c,
                    level_ok(below@, n, self.pool(), self.key_len()),
                    n == self.fan_out(),
                decreases count - c,
            {
                let shell = self.new_shell();
                below.push(shell);
                c += 1;
            }
            j += 1;
        }
        assert(above@.subrange(above@.len() as int, above@.len() as int) =~= Seq::<Shell>::empty());
        below
    }

    /// The shells of every level from the root (level 0, a single object)
    /// down to the last inner level, `depth - 1`.
    fn plan_levels(&self) -> (levels: Vec<Vec<Shell>>)
        requires
            self.can_name(),
            self.levels() >= 1,
        ensures
            levels@.len() == self.levels(),
            levels@[0]@.len() == 1,
            levels@[0]@[0].node is Object,
            levels_ok(levels@, self.fan_out(), self.pool(), self.key_len()),
    {
        let root = Shell { node: JsonValue::Object(Vec::new()), keys: self.get_random_node_names() };
        let mut root_level: Vec<Shell> = Vec::new();
        root_level.push(root);
        let mut levels: Vec<Vec<Shell>> = Vec::new();
        levels.push(root_level);
        let mut level: u8 = 1;
        while level < self.depth
            invariant
                self.can_name(),
                1 <= level <= self.depth,
                levels@.len() == level,
                levels@[0]@.len() == 1,
                levels@[0]@[0].node is Object,
                levels_ok(levels@, self.fan_out(), self.pool(), self.key_len()),
            decreases self.depth - level,
        {
            let below = self.plan_next_level(&levels[levels.len() - 1]);
            let ghost old_levels = levels@;
            levels.push(below);
            assert(levels@[levels@.len() - 2] == old_levels[old_levels.len() - 1]);
            assert forall|j: int| 0 <= j < levels@.len() - 1 implies (#[trigger] levels@[j
                + 1])@.len() == total_count(levels@[j]@, self.fan_out()) by {
                if j < levels@.len() - 2 {
                    assert(levels@[j + 1] == old_levels[j + 1]);
                    assert(levels@[j] == old_levels[j]);
                }
            }
            assert forall|j: int| 0 <= j < levels@.len() implies level_ok(
                (#[trigger] levels@[j])@,
                self.fan_out(),
                self.pool(),
                self.key_len(),
            ) by {
                if j < levels@.len() - 1 {
                    assert(levels@[j] == old_levels[j]);
                }
            }
            level += 1;
        }
        levels
    }

    /// A node of the last inner level: the shell's container filled with
    /// random scalars.
    fn fill_leaf_node<F: Fn() -> JsonNumber>(
        &self,
        shell: &Shell,
        draw_number: &F,
        nums: Ghost<spec_fn(JsonNumber) -> bool>,
    ) -> (v: JsonValue)
        requires
            forall|x: JsonNumber| call_ensures(*draw_number, (), x) ==> #[trigger] nums@(x),
            shell_ok(*shell, self.fan_out(), self.pool(), self.key_len()),
            call_requires(*draw_number, ()),
        ensures
            full_tree(v, 1, self.fan_out(), self.pool(), self.key_len(), nums@),
            v is Object <==> shell.node is Object,
    {
        match &shell.node {
            JsonValue::Array(_) => {
                let mut items: Vec<JsonValue> = Vec::new();
                let mut c: u8 = 0;
                while c < self.number_of_children
                    invariant
                        call_requires(*draw_number, ()),
                        c <= self.number_of_children,
                        items@.len() == c,
                        forall|x: JsonNumber| call_ensures(*draw_number, (), x) ==> #[trigger] nums@(x),
                        forall|i: int| 0 <= i < items@.len() ==> leaf_ok(#[trigger] items@[i]),
                        forall|i: int|
                            0 <= i < items@.len() ==> (#[trigger] items@[i] matches JsonValue::Number(
                                x,
                            ) ==> nums@(x)),
                    decreases self.number_of_children - c,
                {
                    items.push(get_random_leaf_json(draw_number));
                    c += 1;
                }
                assert forall|i: int| 0 <= i < items@.len() implies full_tree(
                    #[trigger] items@[i],
                    0,
                    self.fan_out(),
                    self.pool(),
                    self.key_len(), nums@
                ) by {
                    assert(leaf_ok(items@[i]));
                }
                JsonValue::Array(items)
            },
            _ => {
                let mut entries: Vec<(String, JsonValue)> = Vec::new();
                let mut c: usize = 0;
                while c < shell.keys.len()
                    invariant
                        call_requires(*draw_number, ()),
                        c <= shell.keys@.len(),
                        entries@.len() == c,
                        forall|i: int|
                            0 <= i < entries@.len() ==> (#[trigger] entries@[i]).0@
                                == shell.keys@[i]@ && leaf_ok(entries@[i].1) && (entries@[i].1 matches JsonValue::Number(
                                x,
                            ) ==> nums@(x)),
                        forall|x: JsonNumber| call_ensures(*draw_number, (), x) ==> #[trigger] nums@(x),
                    decreases shell.keys.len() - c,
                {
                    let key = shell.keys[c].clone();
                    entries.push((key, get_random_leaf_json(draw_number)));
                    c += 1;
                }
                assert forall|i: int| 0 <= i < entries@.len() implies key_ok(
                    (#[trigger] entries@[i]).0@,
                    self.pool(),
                    self.key_len(),
                ) && full_tree(entries@[i].1, 0, self.fan_out(), self.pool(), self.key_len(), nums@) by {
                    assert(entries@[i].0@ == shell.keys@[i]@);
                    assert(leaf_ok(entries@[i].1));
                }
                assert forall|i: int, j: int|
                    0 <= i < entries@.len() && 0 <= j < entries@.len() && i != j implies (
                    #[trigger] entries@[i]).0@ != (#[trigger] entries@[j]).0@ by {
                    assert(entries@[i].0@ == shell.keys@[i]@);
                    assert(entries@[j].0@ == shell.keys@[j]@);
                }
                JsonValue::Object(entries)
            },
        }
    }

    /// A node of an inner level above the last: the shell's container
    /// filled with the next finished nodes of the level below, taken from
    /// the front of `below`.
    fn fill_node(
        &self,
        shell: &Shell,
        below: &mut VecDeque<JsonValue>,
        h: Ghost<nat>,
        nums: Ghost<spec_fn(JsonNumber) -> bool>,
    ) -> (v: JsonValue)
        requires
            shell_ok(*shell, self.fan_out(), self.pool(), self.key_len()),
            old(below)@.len() >= shell_count(*shell, self.fan_out()),
            forall|k: int|
                0 <= k < old(below)@.len() ==> full_tree(
                    #[trigger] old(below)@[k],
                    h@,
                    self.fan_out(),
                    self.pool(),
                    self.key_len(), nums@
                ),
        ensures
            final(below)@ == old(below)@.subrange(
                shell_count(*shell, self.fan_out()) as int,
                old(below)@.len() as int,
            ),
            full_tree(v, h@ + 1, self.fan_out(), self.pool(), self.key_len(), nums@),
            v is Object <==> shell.node is Object,
    {
        let ghost start = below@;
        match &shell.node {
            JsonValue::Array(_) => {
                let mut items: Vec<JsonValue> = Vec::new();
                let mut c: u8 = 0;
                while c < self.number_of_children
                    invariant
                        c <= self.number_of_children,
                        start.len() >= self.number_of_children,
                        items@.len() == c,
                        below@ == start.subrange(c as int, start.len() as int),
                        forall|k: int|
                            0 <= k < start.len() ==> full_tree(
                                #[trigger] start[k],
                                h@,
                                self.fan_out(),
                                self.pool(),
                                self.key_len(), nums@
                            ),
                        forall|i: int|
                            0 <= i < items@.len() ==> #[trigger] items@[i] == start[i],
                    decreases self.number_of_children - c,
                {
                    let child = match below.pop_front() {
                        Some(child) => child,
                        None => JsonValue::Null,
                    };
                    items.push(child);
                    c += 1;
                }
                let v = JsonValue::Array(items);
                assert forall|i: int| 0 <= i < items@.len() implies full_tree(
                    #[trigger] items@[i],
                    h@,
                    self.fan_out(),
                    self.pool(),
                    self.key_len(), nums@
                ) by {
                    assert(items@[i] == start[i]);
                }
                v
            },
            _ => {
                let mut entries: Vec<(String, JsonValue)> = Vec::new();
                let mut c: usize = 0;
                while c < shell.keys.len()
                    invariant
                        c <= shell.keys@.len(),
                        start.len() >= shell.keys@.len(),
                        entries@.len() == c,
                        below@ == start.subrange(c as int, start.len() as int),
                        forall|k: int|
                            0 <= k < start.len() ==> full_tree(
                                #[trigger] start[k],
                                h@,
                                self.fan_out(),
                                self.pool(),
                                self.key_len(), nums@
                            ),
                        forall|i: int|
                            0 <= i < entries@.len() ==> (#[trigger] entries@[i]).0@
                                == shell.keys@[i]@ && entries@[i].1 == start[i],
                    decreases shell.keys.len() - c,
                {
                    let key = shell.keys[c].clone();
                    let child = match below.pop_front() {
                        Some(child) => child,
                        None => JsonValue::Null,
                    };
                    entries.push((key, child));
                    c += 1;
                }
                let v = JsonValue::Object(entries);
                assert forall|i: int| 0 <= i < entries@.len() implies full_tree(
                    (#[trigger] entries@[i]).1,
                    h@,
                    self.fan_out(),
                    self.pool(),
                    self.key_len(), nums@
                ) by {
                    assert(entries@[i].1 == start[i]);
                }
                v
            },
        }
    }

    /// The finished last inner level: each shell filled with scalars.
    fn fill_leaf_level<F: Fn() -> JsonNumber>(
        &self,
        shells: &Vec<Shell>,
        draw_number: &F,
        nums: Ghost<spec_fn(JsonNumber) -> bool>,
    ) -> (out: VecDeque<JsonValue>)
        requires
            forall|x: JsonNumber| call_ensures(*draw_number, (), x) ==> #[trigger] nums@(x),
            level_ok(shells@, self.fan_out(), self.pool(), self.key_len()),
            call_requires(*draw_number, ()),
        ensures
            out@.len() == shells@.len(),
            forall|k: int|
                0 <= k < out@.len() ==> full_tree(
                    #[trigger] out@[k],
                    1,
                    self.fan_out(),
                    self.pool(),
                    self.key_len(), nums@
                ) && (out@[k] is Object <==> shells@[k].node is Object),
    {
        let mut out: VecDeque<JsonValue> = VecDeque::new();
        let mut j: usize = 0;
        while j < shells.len()
            invariant
                forall|x: JsonNumber| call_ensures(*draw_number, (), x) ==> #[trigger] nums@(x),
                call_requires(*draw_number, ()),
                j <= shells@.len(),
                out@.len() == j,
                level_ok(shells@, self.fan_out(), self.pool(), self.key_len()),
                forall|k: int|
                    0 <= k < out@.len() ==> full_tree(
                        #[trigger] out@[k],
                        1,
                        self.fan_out(),
                        self.pool(),
                        self.key_len(), nums@
                    ) && (out@[k] is Object <==> shells@[k].node is Object),
            decreases shells.len() - j,
        {
            let node = self.fill_leaf_node(&shells[j], draw_number, nums);
            out.push_back(node);
            j += 1;
        }
        out
    }

    /// The finished level of `shells`, built from `below`, the finished
    /// level under it.
    fn fill_level(
        &self,
        shells: &Vec<Shell>,
        below: VecDeque<JsonValue>,
        h: Ghost<nat>,
        nums: Ghost<spec_fn(JsonNumber) -> bool>,
    ) -> (out: VecDeque<JsonValue>)
        requires
            level_ok(shells@, self.fan_out(), self.pool(), self.key_len()),
            below@.len() == total_count(shells@, self.fan_out()),
            forall|k: int|
                0 <= k < below@.len() ==> full_tree(
                    #[trigger] below@[k],
                    h@,
                    self.fan_out(),
                    self.pool(),
                    self.key_len(), nums@
                ),
        ensures
            out@.len() == shells@.len(),
            forall|k: int|
                0 <= k < out@.len() ==> full_tree(
                    #[trigger] out@[k],
                    h@ + 1,
                    self.fan_out(),
                    self.pool(),
                    self.key_len(), nums@
                ) && (out@[k] is Object <==> shells@[k].node is Object),
    {
        let ghost n = self.fan_out();
        let mut below = below;
        let mut out: VecDeque<JsonValue> = VecDeque::new();
        let mut j: usize = 0;
        assert(shells@.subrange(0, shells@.len() as int) =~= shells@);
        while j < shells.len()
            invariant
                n == self.fan_out(),
                j <= shells@.len(),
                out@.len() == j,
                level_ok(shells@, n, self.pool(), self.key_len()),
                below@.len() == total_count(shells@.subrange(j as int, shells@.len() as int), n),
                forall|k: int|
                    0 <= k < below@.len() ==> full_tree(
                        #[trigger] below@[k],
                        h@,
                        n,
                        self.pool(),
                        self.key_len(), nums@
                    ),
                forall|k: int|
                    0 <= k < out@.len() ==> full_tree(
                        #[trigger] out@[k],
                        h@ + 1,
                        n,
                        self.pool(),
                        self.key_len(), nums@
                    ) && (out@[k] is Object <==> shells@[k].node is Object),
            decreases shells.len() - j,
        {
            proof {
                lemma_total_step(shells@, j as int, n);
            }
            let ghost before = below@;
            let node = self.fill_node(&shells[j], &mut below, h, nums);
            assert forall|k: int| 0 <= k < below@.len() implies full_tree(
                #[trigger] below@[k],
                h@,
                n,
                self.pool(),
                self.key_len(), nums@
            ) by {
                assert(below@[k] == before[k + shell_count(shells@[j as int], n)]);
            }
            out.push_back(node);
            j += 1;
        }
        out
    }

    /// Builds the whole tree: an empty object for depth 0, else a full tree
    /// of height `depth` under an object root.
    fn generate_full_tree<F: Fn() -> JsonNumber>(&self, draw_number: &F) -> (r: JsonValue)
        requires
            self.can_name(),
            call_requires(*draw_number, ()),
        ensures
            generated(
                r,
                self.pool(),
                self.key_len(),
                self.levels(),
                self.fan_out(),
                |x: JsonNumber| call_ensures(*draw_number, (), x),
            ),
    {
        if self.depth == 0 {
            return JsonValue::Object(Vec::new());
        }
        let ghost n = self.fan_out();
        let ghost nums = |x: JsonNumber| call_ensures(*draw_number, (), x);
        let mut levels = self.plan_levels();
        let ghost planned = levels@;
        let last = match levels.pop() {
            Some(last) => last,
            None => Vec::new(),
        };
        assert(last == planned[planned.len() - 1]);
        let mut done = self.fill_leaf_level(&last, draw_number, Ghost(nums));
        let ghost mut h: nat = 1;
        while levels.len() > 0
            invariant
                n == self.fan_out(),
                levels@ == planned.subrange(0, levels@.len() as int),
                planned.len() == self.levels(),
                h + levels@.len() == self.levels(),
                h >= 1,
                planned[0]@.len() == 1,
                planned[0]@[0].node is Object,
                levels_ok(planned, n, self.pool(), self.key_len()),
                done@.len() == planned[levels@.len() as int]@.len(),
                forall|k: int|
                    0 <= k < done@.len() ==> (#[trigger] done@[k] is Object
                        <==> planned[levels@.len() as int]@[k].node is Object),
                forall|k: int|
                    0 <= k < done@.len() ==> full_tree(
                        #[trigger] done@[k],
                        h,
                        n,
                        self.pool(),
                        self.key_len(), nums
                    ),
            decreases levels.len(),
        {
            let shells = match levels.pop() {
                Some(shells) => shells,
                None => Vec::new(),
            };
            let ghost i = levels@.len() as int;
            assert(shells == planned[i]);
            assert(planned[i + 1]@.len() == total_count(planned[i]@, n));
            done = self.fill_level(&shells, done, Ghost(h), Ghost(nums));
            proof {
                h = h + 1;
            }
        }
        match done.pop_front() {
            Some(root) => root,
            None => JsonValue::Object(Vec::new()),
        }
    }

    /// Generates a tree of `depth` levels under an object root, in which
    /// every container above the last level holds `number_of_children`
    /// children (an object fewer when a key is drawn twice: the later entry
    /// replaces the earlier one). Object keys have `number_of_letters`
    /// characters from `charachters_poll`; numbers come from
    /// `draw_number`. Fails when keys need characters and the pool is
    /// empty.
    pub fn generate_json<F: Fn() -> JsonNumber>(
        charachters_poll: &str,
        number_of_letters: u8,
        depth: u8,
        number_of_children: u8,
        draw_number: &F,
    ) -> (r: Result<JsonValue, GenerateError>)
        requires
            call_requires(*draw_number, ()),
        ensures
            r is Err <==> (charachters_poll@.len() == 0 && number_of_letters > 0),
            r matches Err(e) ==> e == GenerateError::InvalidPool,
            r matches Ok(v) ==> generated(
                v,
                charachters_poll@,
                number_of_letters as nat,
                depth as nat,
                number_of_children as nat,
                |x: JsonNumber| call_ensures(*draw_number, (), x),
            ),
    {
        let generator = Generator::new(charachters_poll, number_of_letters, depth, number_of_children);
        if generator.charachters_poll.len() == 0 && number_of_letters > 0 {
            return Err(GenerateError::InvalidPool);
        }
        Ok(generator.generate_full_tree(draw_number))
    }
}

} // verus!
