//! JSON documents as the protocol carries them: metadata, inputs, configs
//! and outputs.

use vstd::prelude::*;
use vstd::string::*;
use crate::text::{chars_of, text_eq, text_string};

verus! {

broadcast use vstd::std_specs::vec::group_vec_axioms;

/// A JSON document.
#[derive(Debug, PartialEq)]
pub enum JsonValue {
    Null,
    Bool(bool),
    /// A number, held as its JSON text (for example `42`, `-3` or `0.7`).
    Number(String),
    Str(String),
    Array(Vec<JsonValue>),
    /// The members of an object, in order.
    Object(Vec<(String, JsonValue)>),
}

/// The mathematical value of a JSON document.
pub enum JsonV {
    Null,
    Bool(bool),
    Number(Seq<char>),
    Str(Seq<char>),
    Array(Seq<JsonV>),
    Object(Seq<(Seq<char>, JsonV)>),
}

/// The value that a JSON document denotes.
pub open spec fn json_view(v: JsonValue) -> JsonV
    decreases v, 1int,
{
    match v {
        JsonValue::Null => JsonV::Null,
        JsonValue::Bool(b) => JsonV::Bool(b),
        JsonValue::Number(n) => JsonV::Number(n@),
        JsonValue::Str(s) => JsonV::Str(s@),
        JsonValue::Array(a) => {
            proof {
                assert(decreases_to!(a => a@));
            }
            JsonV::Array(json_seq_view(a@))
        },
        JsonValue::Object(o) => {
            proof {
                assert(decreases_to!(o => o@));
            }
            JsonV::Object(json_members_view(o@))
        },
    }
}

/// The values of a sequence of JSON documents.
pub open spec fn json_seq_view(s: Seq<JsonValue>) -> Seq<JsonV>
    decreases s, 0int,
{
    if s.len() == 0 {
        Seq::empty()
    } else {
        proof {
            assert(decreases_to!(s => s[s.len() - 1]));
        }
        json_seq_view(s.drop_last()).push(json_view(s[s.len() - 1]))
    }
}

/// The value of each document of a sequence, position by position.
pub broadcast proof fn lemma_json_seq_view(s: Seq<JsonValue>)
    ensures
        #[trigger] json_seq_view(s).len() == s.len(),
        forall|i: int| 0 <= i < s.len() ==> #[trigger] json_seq_view(s)[i] == json_view(s[i]),
    decreases s.len(),
{
    if s.len() > 0 {
        lemma_json_seq_view(s.drop_last());
    }
}

/// The value of each member of a sequence, position by position.
pub broadcast proof fn lemma_json_members_view(s: Seq<(String, JsonValue)>)
    ensures
        #[trigger] json_members_view(s).len() == s.len(),
        forall|i: int|
            0 <= i < s.len() ==> #[trigger] json_members_view(s)[i] == (s[i].0@, json_view(s[i].1)),
    decreases s.len(),
{
    if s.len() > 0 {
        lemma_json_members_view(s.drop_last());
    }
}

/// The values of a sequence of object members.
pub open spec fn json_members_view(s: Seq<(String, JsonValue)>) -> Seq<(Seq<char>, JsonV)>
    decreases s, 0int,
{
    if s.len() == 0 {
        Seq::empty()
    } else {
        proof {
            assert(decreases_to!(s => s[s.len() - 1]));
            assert(decreases_to!(s[s.len() - 1] => s[s.len() - 1].1));
        }
        json_members_view(s.drop_last()).push((s[s.len() - 1].0@, json_view(s[s.len() - 1].1)))
    }
}

impl View for JsonValue {
    type V = JsonV;

    open spec fn view(&self) -> JsonV {
        json_view(*self)
    }
}

impl DeepView for JsonValue {
    type V = JsonV;

    open spec fn deep_view(&self) -> JsonV {
        json_view(*self)
    }
}

/// The value of the first member named `key` among `members`.
pub open spec fn member_get(members: Seq<(Seq<char>, JsonV)>, key: Seq<char>) -> Option<JsonV>
    decreases members.len(),
{
    if members.len() == 0 {
        None
    } else if members[0].0 == key {
        Some(members[0].1)
    } else {
        member_get(members.drop_first(), key)
    }
}

/// `members` with the member `key` set to `value`: an existing member keeps
/// its place, a new one goes last.
pub open spec fn member_set(
    members: Seq<(Seq<char>, JsonV)>,
    key: Seq<char>,
    value: JsonV,
) -> Seq<(Seq<char>, JsonV)>
    decreases members.len(),
{
    if members.len() == 0 {
        seq![(key, value)]
    } else if members[0].0 == key {
        members.update(0, (key, value))
    } else {
        seq![members[0]] + member_set(members.drop_first(), key, value)
    }
}

/// `members` with each member of `patch` set in turn.
pub open spec fn members_merge(
    members: Seq<(Seq<char>, JsonV)>,
    patch: Seq<(Seq<char>, JsonV)>,
) -> Seq<(Seq<char>, JsonV)>
    decreases patch.len(),
{
    if patch.len() == 0 {
        members
    } else {
        members_merge(
            member_set(members, patch[0].0, patch[0].1),
            patch.drop_first(),
        )
    }
}

impl JsonV {
    /// The member `key` of an object; nothing for any other value.
    pub open spec fn field(self, key: Seq<char>) -> Option<JsonV> {
        match self {
            JsonV::Object(m) => member_get(m, key),
            _ => None,
        }
    }

    /// The text of a string value.
    pub open spec fn str_of(self) -> Option<Seq<char>> {
        match self {
            JsonV::Str(s) => Some(s),
            _ => None,
        }
    }

    /// The items of an array value.
    pub open spec fn array_of(self) -> Option<Seq<JsonV>> {
        match self {
            JsonV::Array(a) => Some(a),
            _ => None,
        }
    }

    /// The value of a number written as a non-negative integer that fits
    /// in 64 bits.
    pub open spec fn u64_of(self) -> Option<u64> {
        match self {
            JsonV::Number(t) => if all_digits(t) && digits_value(t) <= u64::MAX {
                Some(digits_value(t) as u64)
            } else {
                None
            },
            _ => None,
        }
    }
}

/// `c` is an ASCII decimal digit.
pub open spec fn is_digit(c: char) -> bool {
    '0' <= c && c <= '9'
}

/// `t` is a non-empty run of decimal digits.
pub open spec fn all_digits(t: Seq<char>) -> bool {
    t.len() > 0 && forall|i: int| 0 <= i < t.len() ==> is_digit(#[trigger] t[i])
}

/// The number that a run of decimal digits denotes.
pub open spec fn digits_value(t: Seq<char>) -> nat
    decreases t.len(),
{
    if t.len() == 0 {
        0
    } else {
        digits_value(t.drop_last()) * 10 + ((t.last() as u32) - ('0' as u32)) as nat
    }
}

/// A deep copy of a JSON document.
pub fn copy_json(v: &JsonValue) -> (r: JsonValue)
    ensures
        r@ == v@,
    decreases v,
{
    broadcast use lemma_json_seq_view, lemma_json_members_view;

    match v {
        JsonValue::Null => JsonValue::Null,
        JsonValue::Bool(b) => JsonValue::Bool(*b),
        JsonValue::Number(n) => JsonValue::Number(n.clone()),
        JsonValue::Str(s) => JsonValue::Str(s.clone()),
        JsonValue::Array(a) => {
            let mut out: Vec<JsonValue> = Vec::new();
            let mut i: usize = 0;
            while i < a.len()
                invariant
                    *v == JsonValue::Array(*a),
                    i <= a.len(),
                    out@.len() == i,
                    forall|j: int| 0 <= j < i ==> json_view(#[trigger] out@[j]) == json_view(a@[j]),
                decreases a.len() - i,
            {
                proof {
                    assert(decreases_to!(*v => (*v)->Array_0));
                    assert(decreases_to!(*a => a@[i as int]));
                }
                let x = copy_json(&a[i]);
                out.push(x);
                i = i + 1;
            }
            let r = JsonValue::Array(out);
            proof {
                lemma_json_seq_view(out@);
                lemma_json_seq_view(a@);
                assert(json_seq_view(out@) =~= json_seq_view(a@));
            }
            r
        },
        JsonValue::Object(o) => {
            let mut out: Vec<(String, JsonValue)> = Vec::new();
            let mut i: usize = 0;
            while i < o.len()
                invariant
                    *v == JsonValue::Object(*o),
                    i <= o.len(),
                    out@.len() == i,
                    forall|j: int|
                        0 <= j < i ==> (#[trigger] out@[j]).0@ == o@[j].0@ && json_view(out@[j].1)
                            == json_view(o@[j].1),
                decreases o.len() - i,
            {
                proof {
                    assert(decreases_to!(*v => (*v)->Object_0));
                    assert(decreases_to!(*o => o@[i as int]));
                    assert(decreases_to!(o@[i as int] => o@[i as int].1));
                }
                let x = copy_json(&o[i].1);
                out.push((o[i].0.clone(), x));
                i = i + 1;
            }
            let r = JsonValue::Object(out);
            proof {
                lemma_json_members_view(out@);
                lemma_json_members_view(o@);
                assert(json_members_view(out@) =~= json_members_view(o@));
            }
            r
        },
    }
}

impl Clone for JsonValue {
    fn clone(&self) -> (r: Self)
        ensures
            r@ == self@,
    {
        copy_json(self)
    }
}

/// Whether two JSON documents are the same value.
pub fn json_equal(a: &JsonValue, b: &JsonValue) -> (r: bool)
    ensures
        r == (a@ == b@),
    decreases a,
{
    broadcast use lemma_json_seq_view, lemma_json_members_view;

    match (a, b) {
        (JsonValue::Null, JsonValue::Null) => true,
        (JsonValue::Bool(x), JsonValue::Bool(y)) => *x == *y,
        (JsonValue::Number(x), JsonValue::Number(y)) => text_eq(x.as_str(), y.as_str()),
        (JsonValue::Str(x), JsonValue::Str(y)) => text_eq(x.as_str(), y.as_str()),
        (JsonValue::Array(xs), JsonValue::Array(ys)) => {
            if xs.len() != ys.len() {
                proof {
                    lemma_json_seq_view(xs@);
                    lemma_json_seq_view(ys@);
                }
                return false;
            }
            let mut i: usize = 0;
            while i < xs.len()
                invariant
                    *a == JsonValue::Array(*xs),
                    *b == JsonValue::Array(*ys),
                    xs.len() == ys.len(),
                    i <= xs.len(),
                    forall|j: int| 0 <= j < i ==> json_view(#[trigger] xs@[j]) == json_view(ys@[j]),
                decreases xs.len() - i,
            {
                proof {
                    assert(decreases_to!(*a => (*a)->Array_0));
                    assert(decreases_to!(*xs => xs@[i as int]));
                }
                if !json_equal(&xs[i], &ys[i]) {
                    proof {
                        lemma_json_seq_view(xs@);
                        lemma_json_seq_view(ys@);
                        if a@ == b@ {
                            assert(json_seq_view(xs@)[i as int] == json_seq_view(ys@)[i as int]);
                        }
                    }
                    return false;
                }
                i = i + 1;
            }
            proof {
                lemma_json_seq_view(xs@);
                lemma_json_seq_view(ys@);
                assert(json_seq_view(xs@) =~= json_seq_view(ys@));
            }
            true
        },
        (JsonValue::Object(xs), JsonValue::Object(ys)) => {
            if xs.len() != ys.len() {
                proof {
                    lemma_json_members_view(xs@);
                    lemma_json_members_view(ys@);
                }
                return false;
            }
            let mut i: usize = 0;
            while i < xs.len()
                invariant
                    *a == JsonValue::Object(*xs),
                    *b == JsonValue::Object(*ys),
                    xs.len() == ys.len(),
                    i <= xs.len(),
                    forall|j: int|
                        0 <= j < i ==> (#[trigger] xs@[j]).0@ == ys@[j].0@ && json_view(xs@[j].1) == json_view(
                            ys@[j].1,
                        ),
                decreases xs.len() - i,
            {
                proof {
                    assert(decreases_to!(*a => (*a)->Object_0));
                    assert(decreases_to!(*xs => xs@[i as int]));
                    assert(decreases_to!(xs@[i as int] => xs@[i as int].1));
                }
                let same = text_eq(xs[i].0.as_str(), ys[i].0.as_str()) && json_equal(&xs[i].1, &ys[i].1);
                if !same {
                    proof {
                        lemma_json_members_view(xs@);
                        lemma_json_members_view(ys@);
                        if a@ == b@ {
                            assert(json_members_view(xs@)[i as int] == json_members_view(ys@)[i as int]);
                        }
                    }
                    return false;
                }
                i = i + 1;
            }
            proof {
                lemma_json_members_view(xs@);
                lemma_json_members_view(ys@);
                assert(json_members_view(xs@) =~= json_members_view(ys@));
            }
            true
        },
        _ => false,
    }
}

/// `md` holds every member of the object `want`: each key of `want` reads in
/// `md` as the value that `want` gives it. A filter that is not an object
/// names no member and asks nothing.
pub open spec fn holds_members(md: JsonV, want: JsonV) -> bool {
    match want {
        JsonV::Object(w) => forall|i: int| 0 <= i < w.len() ==> md.field(#[trigger] w[i].0) == Some(w[i].1),
        _ => true,
    }
}

/// Whether `md` holds every member of `want`.
pub fn members_held(md: &JsonValue, want: &JsonValue) -> (r: bool)
    ensures
        r == holds_members(md@, want@),
{
    broadcast use lemma_json_members_view;

    match want {
        JsonValue::Object(w) => {
            let ghost wv = json_members_view(w@);
            let mut i: usize = 0;
            while i < w.len()
                invariant
                    *want == JsonValue::Object(*w),
                    wv == json_members_view(w@),
                    wv.len() == w.len(),
                    i <= w.len(),
                    forall|j: int| 0 <= j < i ==> md@.field(#[trigger] wv[j].0) == Some(wv[j].1),
                decreases w.len() - i,
            {
                proof {
                    lemma_json_members_view(w@);
                }
                assert(wv[i as int] == (w@[i as int].0@, w@[i as int].1@));
                let ok = match md.get(w[i].0.as_str()) {
                    Some(x) => json_equal(x, &w[i].1),
                    None => false,
                };
                if !ok {
                    assert(want@ == JsonV::Object(wv));
                    assert(md@.field(wv[i as int].0) != Some(wv[i as int].1));
                    return false;
                }
                i = i + 1;
            }
            assert(want@ == JsonV::Object(wv));
            true
        },
        _ => true,
    }
}

/// A copy of an optional JSON document.
pub fn copy_json_opt(v: &Option<JsonValue>) -> (r: Option<JsonValue>)
    ensures
        r.deep_view() == v.deep_view(),
{
    match v {
        Some(x) => Some(copy_json(x)),
        None => None,
    }
}

/// A string value holding `s`.
pub fn json_str(s: &str) -> (r: JsonValue)
    ensures
        r@ == JsonV::Str(s@),
{
    JsonValue::Str(text_string(s))
}

/// The empty object.
pub fn empty_object() -> (r: JsonValue)
    ensures
        r@ == JsonV::Object(Seq::empty()),
{
    broadcast use lemma_json_seq_view, lemma_json_members_view;

    let r = JsonValue::Object(Vec::new());
    assert(r@->Object_0 =~= Seq::<(Seq<char>, JsonV)>::empty());
    r
}

/// An object with a single member.
pub fn object1(k: &str, v: JsonValue) -> (r: JsonValue)
    ensures
        r@ == JsonV::Object(seq![(k@, v@)]),
{
    broadcast use lemma_json_seq_view, lemma_json_members_view;

    let mut m: Vec<(String, JsonValue)> = Vec::new();
    m.push((text_string(k), v));
    let ghost mv = m@;
    let r = JsonValue::Object(m);
    assert(r@ == JsonV::Object(json_members_view(mv)));
    assert(json_members_view(mv).len() == 1);
    assert(json_members_view(mv)[0] == (k@, v@));
    assert(r@->Object_0 =~= seq![(k@, v@)]);
    r
}

/// An object of two members.
pub fn object2(k1: &str, v1: JsonValue, k2: &str, v2: JsonValue) -> (r: JsonValue)
    ensures
        r@ == JsonV::Object(seq![(k1@, v1@), (k2@, v2@)]),
{
    broadcast use lemma_json_members_view;

    let mut m: Vec<(String, JsonValue)> = Vec::new();
    m.push((text_string(k1), v1));
    m.push((text_string(k2), v2));
    let ghost mv = m@;
    let r = JsonValue::Object(m);
    assert(r@ == JsonV::Object(json_members_view(mv)));
    assert(r@->Object_0 =~= seq![(k1@, v1@), (k2@, v2@)]);
    r
}

impl JsonValue {
    /// The member `key` of an object, as `serde_json`'s `Value::get` with a
    /// string key gives it.
    pub fn get(&self, key: &str) -> (r: Option<&JsonValue>)
        ensures
            match r {
                Some(x) => self@.field(key@) == Some(x@),
                None => self@.field(key@) is None,
            },
    {
        broadcast use lemma_json_seq_view, lemma_json_members_view;

        match self {
            JsonValue::Object(o) => {
                let ghost ms = json_members_view(o@);
                assert(self@ == JsonV::Object(ms));
                assert(ms.skip(0) =~= ms);
                let mut i: usize = 0;
                while i < o.len()
                    invariant
                        ms == json_members_view(o@),
                        self@ == JsonV::Object(ms),
                        ms.len() == o.len(),
                        i <= o.len(),
                        member_get(ms, key@) == member_get(ms.skip(i as int), key@),
                    decreases o.len() - i,
                {
                    proof {
                        lemma_json_members_view(o@);
                    }
                    assert(ms.skip(i as int)[0] == ms[i as int]);
                    assert(ms[i as int] == (o@[i as int].0@, json_view(o@[i as int].1)));
                    if text_eq(o[i].0.as_str(), key) {
                        return Some(&o[i].1);
                    }
                    assert(ms.skip(i as int).drop_first() =~= ms.skip(i + 1));
                    i = i + 1;
                }
                None
            },
            _ => None,
        }
    }

    /// The text of a string value.
    pub fn as_str(&self) -> (r: Option<&str>)
        ensures
            match r {
                Some(s) => self@.str_of() == Some(s@),
                None => self@.str_of() is None,
            },
    {
        match self {
            JsonValue::Str(s) => Some(s.as_str()),
            _ => None,
        }
    }

    /// The items of an array value.
    pub fn as_array(&self) -> (r: Option<&Vec<JsonValue>>)
        ensures
            match r {
                Some(a) => self@.array_of() == Some(json_seq_view(a@)),
                None => self@.array_of() is None,
            },
    {
        broadcast use lemma_json_seq_view, lemma_json_members_view;

        match self {
            JsonValue::Array(a) => Some(a),
            _ => None,
        }
    }

    /// The value of a non-negative integer number that fits in 64 bits.
    pub fn as_u64(&self) -> (r: Option<u64>)
        ensures
            r == self@.u64_of(),
    {
        match self {
            JsonValue::Number(t) => {
                let cs = chars_of(t.as_str());
                if cs.len() == 0 {
                    return None;
                }
                let mut acc: u64 = 0;
                let mut i: usize = 0;
                while i < cs.len()
                    invariant
                        *self == JsonValue::Number(*t),
                        cs@ == t@,
                        i <= cs.len(),
                        forall|k: int| 0 <= k < i ==> is_digit(#[trigger] cs@[k]),
                        acc as nat == digits_value(cs@.subrange(0, i as int)),
                    decreases cs.len() - i,
                {
                    let c = cs[i];
                    if !('0' <= c && c <= '9') {
                        assert(!is_digit(t@[i as int]));
                        assert(!all_digits(t@));
                        return None;
                    }
                    let d: u64 = (c as u32 - '0' as u32) as u64;
                    assert(cs@.subrange(0, i + 1).drop_last() =~= cs@.subrange(0, i as int));
                    if acc > (u64::MAX - d) / 10 {
                        proof {
                            assert(acc * 10 + d > u64::MAX) by (nonlinear_arith)
                                requires
                                    acc > (u64::MAX - d) / 10,
                                    d <= 9,
                            ;
                            assert(digits_value(cs@.subrange(0, i + 1)) == acc * 10 + d);
                            if all_digits(t@) {
                                lemma_digits_value_prefix_le(cs@, i + 1);
                            }
                        }
                        return None;
                    }
                    acc = acc * 10 + d;
                    i = i + 1;
                }
                assert(cs@.subrange(0, cs@.len() as int) =~= cs@);
                Some(acc)
            },
            _ => None,
        }
    }
}

/// A longer run of digits denotes at least as much as any of its prefixes.
proof fn lemma_digits_value_prefix_le(t: Seq<char>, n: int)
    requires
        0 <= n <= t.len(),
        forall|i: int| 0 <= i < t.len() ==> is_digit(#[trigger] t[i]),
    ensures
        digits_value(t.subrange(0, n)) <= digits_value(t),
    decreases t.len() - n,
{
    if n < t.len() {
        lemma_digits_value_prefix_le(t, n + 1);
        assert(t.subrange(0, n + 1).drop_last() =~= t.subrange(0, n));
    } else {
        assert(t.subrange(0, n) =~= t);
    }
}

/// Sets the member `key` of the object members `m`: an existing member keeps
/// its place, a new one goes last (as `serde_json::Map::insert`).
pub fn members_set(m: &mut Vec<(String, JsonValue)>, key: String, value: JsonValue)
    ensures
        members_view(*final(m)) == member_set(members_view(*old(m)), key@, value@),
{
    let ghost m0 = members_view(*m);
    let mut i: usize = 0;
    let mut found: bool = false;
    while i < m.len()
        invariant
            members_view(*m) == m0,
            i <= m.len(),
            forall|k: int| 0 <= k < i ==> (#[trigger] m0[k]).0 != key@,
            found ==> i < m.len() && m0[i as int].0 == key@,
        ensures
            found ==> i < m.len() && m0[i as int].0 == key@,
            !found ==> i == m.len(),
            forall|k: int| 0 <= k < i ==> (#[trigger] m0[k]).0 != key@,
        decreases m.len() - i,
    {
        if text_eq(m[i].0.as_str(), key.as_str()) {
            found = true;
            break;
        }
        i = i + 1;
    }
    if found {
        proof {
            lemma_member_set_at(m0, key@, value@, i as int);
        }
        m.set(i, (key, value));
        assert(members_view(*m) =~= m0.update(i as int, (key@, value@)));
    } else {
        proof {
            lemma_member_set_absent(m0, key@, value@);
        }
        m.push((key, value));
        assert(members_view(*m) =~= m0.push((key@, value@)));
    }
}

/// The members of an object, as values.
pub open spec fn members_view(m: Vec<(String, JsonValue)>) -> Seq<(Seq<char>, JsonV)> {
    Seq::new(m.len() as nat, |i: int| (m@[i].0@, m@[i].1@))
}

pub proof fn lemma_member_set_at(m: Seq<(Seq<char>, JsonV)>, key: Seq<char>, value: JsonV, i: int)
    requires
        0 <= i < m.len(),
        m[i].0 == key,
        forall|k: int| 0 <= k < i ==> (#[trigger] m[k]).0 != key,
    ensures
        member_set(m, key, value) == m.update(i, (key, value)),
    decreases i,
{
    if i > 0 {
        lemma_member_set_at(m.drop_first(), key, value, i - 1);
        assert(m =~= seq![m[0]] + m.drop_first());
        assert(seq![m[0]] + m.drop_first().update(i - 1, (key, value)) =~= m.update(i, (key, value)));
    }
}

pub proof fn lemma_member_set_absent(m: Seq<(Seq<char>, JsonV)>, key: Seq<char>, value: JsonV)
    requires
        forall|k: int| 0 <= k < m.len() ==> (#[trigger] m[k]).0 != key,
    ensures
        member_set(m, key, value) == m.push((key, value)),
    decreases m.len(),
{
    if m.len() > 0 {
        assert(m[0].0 != key);
        assert forall|k: int| 0 <= k < m.drop_first().len() implies (#[trigger] m.drop_first()[k]).0 != key by {
            assert(m.drop_first()[k] == m[k + 1]);
        }
        lemma_member_set_absent(m.drop_first(), key, value);
        assert(seq![m[0]] + m.drop_first().push((key, value)) =~= m.push((key, value)));
    } else {
        assert(seq![(key, value)] =~= m.push((key, value)));
    }
}

/// Merges the members of the object `patch` into the object `target`, member
/// by member; when either is not an object, `target` stays as it is.
pub fn merge_objects(target: &mut JsonValue, patch: JsonValue)
    ensures
        *final(target) == *old(target) || (old(target)@ is Object && patch@ is Object),
        (old(target)@ is Object && patch@ is Object) ==> final(target)@ == JsonV::Object(
            members_merge(old(target)@->Object_0, patch@->Object_0),
        ),
{
    broadcast use lemma_json_seq_view, lemma_json_members_view;

    match target {
        JsonValue::Object(t) => match patch {
            JsonValue::Object(p) => {
                let ghost t0 = members_view(*t);
                let ghost p0 = members_view(p);
                assert(json_members_view(t@) =~= t0);
                assert(json_members_view(p@) =~= p0);
                let mut p = p;
                while p.len() > 0
                    invariant
                        members_merge(t0, p0) == members_merge(members_view(*t), members_view(p)),
                    decreases p.len(),
                {
                    let ghost before = members_view(p);
                    let (k, v) = p.remove(0);
                    assert(before[0] == (k@, v@));
                    assert(before.drop_first() =~= members_view(p));
                    members_set(t, k, v);
                }
                assert(members_view(p) =~= Seq::<(Seq<char>, JsonV)>::empty());
                assert(members_merge(members_view(*t), members_view(p)) == members_view(*t));
                assert(json_members_view(t@) =~= members_view(*t));
            },
            _ => {},
        },
        _ => {},
    }
}

/// The text that `serde_json` writes for a JSON value (`Value::to_string`).
pub uninterp spec fn json_text(v: JsonV) -> Seq<char>;

/// `serde_json`'s dynamic JSON value, carried through as an opaque value.
#[verifier::external_type_specification]
#[verifier::external_body]
pub struct ExSerdeValue(serde_json::Value);

impl From<&JsonValue> for serde_json::Value {
    /// Builds the `serde_json` value with the same structure; a number whose
    /// text `serde_json` cannot read becomes `null`.
    #[verifier::external_body]
    fn from(v: &JsonValue) -> Self {
        match v {
            JsonValue::Null => serde_json::Value::Null,
            JsonValue::Bool(b) => serde_json::Value::Bool(*b),
            JsonValue::Number(n) => n.parse().map(serde_json::Value::Number).unwrap_or(serde_json::Value::Null),
            JsonValue::Str(s) => serde_json::Value::String(s.clone()),
            JsonValue::Array(a) => serde_json::Value::Array(a.iter().map(serde_json::Value::from).collect()),
            JsonValue::Object(o) => serde_json::Value::Object(o.iter().map(|(k, x)| (k.clone(), serde_json::Value::from(x))).collect()),
        }
    }
}

impl From<&serde_json::Value> for JsonValue {
    /// Builds the document with the same structure as the `serde_json` value;
    /// a number is held as the text that `serde_json` writes for it.
    #[verifier::external_body]
    fn from(v: &serde_json::Value) -> Self {
        match v {
            serde_json::Value::Null => JsonValue::Null,
            serde_json::Value::Bool(b) => JsonValue::Bool(*b),
            serde_json::Value::Number(n) => JsonValue::Number(n.to_string()),
            serde_json::Value::String(s) => JsonValue::Str(s.clone()),
            serde_json::Value::Array(a) => JsonValue::Array(a.iter().map(JsonValue::from).collect()),
            serde_json::Value::Object(o) => JsonValue::Object(o.iter().map(|(k, x)| (k.clone(), JsonValue::from(x))).collect()),
        }
    }
}

/// The document that `serde_json` reads from a text (`from_str` into a
/// `Value`), `None` where the text is not JSON.
pub uninterp spec fn json_parse(text: Seq<char>) -> Option<JsonV>;

/// Calls `serde_json::from_str::<Value>` on `text` and takes the value it
/// reads as a document of the library. The contract names the result, a
/// function of the text alone, and states nothing more about it.
#[verifier::external_body]
pub(crate) fn parse_json(text: &str) -> (r: Option<JsonValue>)
    ensures
        r.deep_view() == json_parse(text@),
{
    serde_json::from_str::<serde_json::Value>(text).ok().map(|v| JsonValue::from(&v))
}

/// Calls `serde_json::Value::to_string` (its `Display`, compact form) on the
/// value that `v` denotes. The contract names the text and states nothing
/// more about it.
#[verifier::external_body]
pub(crate) fn json_to_string(v: &JsonValue) -> (s: String)
    ensures
        s@ == json_text(v@),
{
    serde_json::Value::from(v).to_string()
}

} // verus!
