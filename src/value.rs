use vstd::prelude::*;

verus! {

broadcast use vstd::std_specs::vec::group_vec_axioms, vstd::seq::group_seq_axioms;

/// The data a template is rendered against.
#[derive(Debug)]
pub enum Json {
    Null,
    Bool(bool),
    Number(i64),
    Str(String),
    Array(Vec<Json>),
    Object(Vec<(String, Json)>),
}

/// The mathematical model of a `Json` value.
pub enum JsonV {
    Null,
    Bool(bool),
    Number(int),
    Str(Seq<char>),
    Array(Seq<JsonV>),
    Object(Seq<(Seq<char>, JsonV)>),
}

/// The model of a value: strings as character sequences, vectors as sequences.
pub open spec fn json_view(v: Json) -> JsonV
    decreases v,
{
    match v {
        Json::Null => JsonV::Null,
        Json::Bool(b) => JsonV::Bool(b),
        Json::Number(n) => JsonV::Number(n as int),
        Json::Str(s) => JsonV::Str(s@),
        Json::Array(a) => JsonV::Array(
            Seq::new(
                a@.len(),
                |i: int|
                    if 0 <= i < a@.len() {
                        json_view(a@[i])
                    } else {
                        JsonV::Null
                    },
            ),
        ),
        Json::Object(e) => JsonV::Object(
            Seq::new(
                e@.len(),
                |i: int|
                    if 0 <= i < e@.len() {
                        (e@[i].0@, json_view(e@[i].1))
                    } else {
                        (Seq::empty(), JsonV::Null)
                    },
            ),
        ),
    }
}

impl View for Json {
    type V = JsonV;

    open spec fn view(&self) -> JsonV {
        json_view(*self)
    }
}

/// Whether a value selects the main branch of a control-flow directive.
/// A zero number is falsy only when `zero_is_falsy` is asked for.
pub open spec fn truthy(v: JsonV, zero_is_falsy: bool) -> bool {
    match v {
        JsonV::Null => false,
        JsonV::Bool(b) => b,
        JsonV::Number(n) => !(zero_is_falsy && n == 0),
        JsonV::Str(s) => s.len() > 0,
        JsonV::Array(a) => a.len() > 0,
        JsonV::Object(e) => e.len() > 0,
    }
}

/// The value under the first entry whose key is `k`.
pub open spec fn obj_get(entries: Seq<(Seq<char>, JsonV)>, k: Seq<char>) -> Option<JsonV>
    decreases entries.len(),
{
    if entries.len() == 0 {
        None
    } else if entries[0].0 == k {
        Some(entries[0].1)
    } else {
        obj_get(entries.drop_first(), k)
    }
}

pub open spec fn is_digit(c: char) -> bool {
    '0' <= c <= '9'
}

/// The number a string of decimal digits stands for.
pub open spec fn digits_value(s: Seq<char>) -> nat
    decreases s.len(),
{
    if s.len() == 0 {
        0
    } else {
        digits_value(s.drop_last()) * 10 + ((s.last() as nat) - ('0' as nat)) as nat
    }
}

/// The longest digit string read as an array position.
pub const MAX_INDEX_DIGITS: usize = 18;

/// A path segment read as an array position: one to eighteen decimal digits
/// whose value fits a `usize`.
pub open spec fn parse_index(s: Seq<char>) -> Option<nat> {
    if 0 < s.len() <= MAX_INDEX_DIGITS && (forall|i: int| 0 <= i < s.len() ==> is_digit(#[trigger] s[i]))
        && digits_value(s) <= usize::MAX {
        Some(digits_value(s))
    } else {
        None
    }
}

/// One step into a value: an object by key, an array by position.
pub open spec fn child(v: JsonV, seg: Seq<char>) -> Option<JsonV> {
    match v {
        JsonV::Object(e) => obj_get(e, seg),
        JsonV::Array(a) => match parse_index(seg) {
            Some(i) => if i < a.len() {
                Some(a[i as int])
            } else {
                None
            },
            None => None,
        },
        _ => None,
    }
}

/// The value reached by walking `path` from `v`, or `None` where a step misses.
pub open spec fn value_at(v: JsonV, path: Seq<Seq<char>>) -> Option<JsonV>
    decreases path.len(),
{
    if path.len() == 0 {
        Some(v)
    } else {
        match child(v, path[0]) {
            Some(c) => value_at(c, path.drop_first()),
            None => None,
        }
    }
}

pub open spec fn digit_char(d: nat) -> char {
    if d < 10 {
        ((d + ('0' as nat)) as u8) as char
    } else {
        '0'
    }
}

/// The decimal text of a natural number.
pub open spec fn nat_text(n: nat) -> Seq<char>
    decreases n,
{
    if n < 10 {
        seq![digit_char(n)]
    } else {
        nat_text(n / 10).push(digit_char(n % 10))
    }
}

/// The decimal text of an integer, with a leading `-` when negative.
pub open spec fn int_text(n: int) -> Seq<char> {
    if n < 0 {
        seq!['-'] + nat_text((-n) as nat)
    } else {
        nat_text(n as nat)
    }
}

/// The text an expression writes for a value: strings as they are, numbers in
/// decimal, booleans as words, and nothing for null, arrays and objects.
pub open spec fn render_text(v: JsonV) -> Seq<char> {
    match v {
        JsonV::Str(s) => s,
        JsonV::Number(n) => int_text(n),
        JsonV::Bool(b) => if b {
            seq!['t', 'r', 'u', 'e']
        } else {
            seq!['f', 'a', 'l', 's', 'e']
        },
        _ => Seq::empty(),
    }
}

/// Relies on String::push: appends one character at the end.
#[verifier::external_body]
pub(crate) fn push_char(s: &mut String, c: char)
    ensures
        final(s)@ == old(s)@.push(c),
{
    s.push(c)
}

pub(crate) fn push_str(s: &mut String, t: &str)
    ensures
        final(s)@ == old(s)@ + t@,
{
    let n = t.unicode_len();
    let mut i: usize = 0;
    while i < n
        invariant
            n == t@.len(),
            i <= n,
            s@ == old(s)@ + t@.subrange(0, i as int),
        decreases n - i,
    {
        let c = t.get_char(i);
        push_char(s, c);
        i = i + 1;
        assert(t@.subrange(0, i as int) == t@.subrange(0, i - 1).push(c));
    }
    assert(t@.subrange(0, n as int) == t@);
}

pub(crate) fn push_nat(out: &mut String, n: u64)
    ensures
        final(out)@ == old(out)@ + nat_text(n as nat),
    decreases n,
{
    if n >= 10 {
        push_nat(out, n / 10);
    }
    let d = (n % 10) as u8;
    let c = (d + 48u8) as char;
    assert(c == digit_char((n % 10) as nat));
    push_char(out, c);
    proof {
        if n < 10 {
            assert(old(out)@ + nat_text(n as nat) == old(out)@.push(c));
        } else {
            assert(old(out)@ + nat_text(n as nat) == (old(out)@ + nat_text((n / 10) as nat)).push(c));
        }
    }
}

pub(crate) fn push_int(out: &mut String, n: i64)
    ensures
        final(out)@ == old(out)@ + int_text(n as int),
{
    if n < 0 {
        push_char(out, '-');
        let m: u64 = (0i128 - n as i128) as u64;
        push_nat(out, m);
        assert(old(out)@ + int_text(n as int) == old(out)@.push('-') + nat_text(m as nat));
    } else {
        push_nat(out, n as u64);
    }
}

pub open spec fn pow10(n: nat) -> nat
    decreases n,
{
    if n == 0 {
        1
    } else {
        10 * pow10((n - 1) as nat)
    }
}

proof fn lemma_pow10_mono(a: nat, b: nat)
    requires
        a <= b,
    ensures
        pow10(a) <= pow10(b),
    decreases b,
{
    if a < b {
        lemma_pow10_mono(a, (b - 1) as nat);
    }
}

proof fn lemma_pow10_18()
    ensures
        pow10(18) == 1000000000000000000,
{
    reveal_with_fuel(pow10, 19);
}

/// Reads a path segment as an array position.
pub fn parse_index_exec(seg: &String) -> (r: Option<usize>)
    ensures
        match r {
            Some(i) => parse_index(seg@) == Some(i as nat),
            None => parse_index(seg@) is None,
        },
{
    let s = seg.as_str();
    let n = s.unicode_len();
    if n == 0 || n > MAX_INDEX_DIGITS {
        return None;
    }
    let mut acc: u64 = 0;
    let mut i: usize = 0;
    while i < n
        invariant
            n == seg@.len(),
            s@ == seg@,
            0 < n <= MAX_INDEX_DIGITS,
            i <= n,
            acc as nat == digits_value(seg@.subrange(0, i as int)),
            acc < pow10(i as nat),
            forall|j: int| 0 <= j < i ==> is_digit(#[trigger] seg@[j]),
        decreases n - i,
    {
        let c = s.get_char(i);
        if !('0' <= c && c <= '9') {
            return None;
        }
        proof {
            lemma_pow10_mono((i + 1) as nat, 18);
            lemma_pow10_18();
            let p = pow10(i as nat);
            assert(pow10((i + 1) as nat) == 10 * p);
            assert(acc * 10 + 9 < 10 * p) by (nonlinear_arith)
                requires acc < p;
            let sub = seg@.subrange(0, i + 1);
            assert(sub.drop_last() == seg@.subrange(0, i as int));
        }
        acc = acc * 10 + ((c as u32) - 48) as u64;
        i = i + 1;
    }
    assert(seg@.subrange(0, n as int) == seg@);
    if acc > usize::MAX as u64 {
        return None;
    }
    Some(acc as usize)
}

impl Json {
    /// A copy of the value that owns all of its parts.
    pub fn deep_copy(&self) -> (r: Json)
        ensures
            r@ == self@,
        decreases self@,
    {
        match self {
            Json::Null => Json::Null,
            Json::Bool(b) => Json::Bool(*b),
            Json::Number(n) => Json::Number(*n),
            Json::Str(s) => Json::Str(s.clone()),
            Json::Array(a) => {
                let mut v: Vec<Json> = Vec::new();
                let mut i: usize = 0;
                while i < a.len()
                    invariant
                        *self == Json::Array(*a),
                        i <= a@.len(),
                        v@.len() == i,
                        forall|j: int| 0 <= j < i ==> (#[trigger] v@[j])@ == a@[j]@,
                    decreases a@.len() - i,
                {
                    proof {
                        let ghost sv = match self@ {
                            JsonV::Array(x) => x,
                            _ => Seq::empty(),
                        };
                        assert(sv[i as int] == a@[i as int]@);
                        assert(decreases_to!(self@ => sv));
                        assert(decreases_to!(sv => sv[i as int]));
                    }
                    let c = a[i].deep_copy();
                    v.push(c);
                    i = i + 1;
                }
                let r = Json::Array(v);
                assert(r@ == self@) by {
                    if let JsonV::Array(x) = r@ {
                        if let JsonV::Array(y) = self@ {
                            assert(x =~= y);
                        }
                    }
                }
                r
            },
            Json::Object(e) => {
                let mut v: Vec<(String, Json)> = Vec::new();
                let mut i: usize = 0;
                while i < e.len()
                    invariant
                        *self == Json::Object(*e),
                        i <= e@.len(),
                        v@.len() == i,
                        forall|j: int| 0 <= j < i ==> (#[trigger] v@[j]).0@ == e@[j].0@ && v@[j].1@ == e@[j].1@,
                    decreases e@.len() - i,
                {
                    proof {
                        let ghost sv = match self@ {
                            JsonV::Object(x) => x,
                            _ => Seq::empty(),
                        };
                        assert(sv[i as int].1 == e@[i as int].1@);
                        assert(decreases_to!(self@ => sv));
                        assert(decreases_to!(sv => sv[i as int]));
                        assert(decreases_to!(sv[i as int] => sv[i as int].1));
                    }
                    let c = e[i].1.deep_copy();
                    v.push((e[i].0.clone(), c));
                    i = i + 1;
                }
                let r = Json::Object(v);
                assert(r@ == self@) by {
                    if let JsonV::Object(x) = r@ {
                        if let JsonV::Object(y) = self@ {
                            assert(x =~= y);
                        }
                    }
                }
                r
            },
        }
    }

    /// One step into the value; see `child`.
    pub fn get_child(&self, seg: &String) -> (r: Option<&Json>)
        ensures
            match r {
                Some(c) => child(self@, seg@) == Some(c@),
                None => child(self@, seg@) is None,
            },
    {
        match self {
            Json::Object(e) => {
                assert(*self == Json::Object(*e));
                let ghost ev = match self@ {
                    JsonV::Object(x) => x,
                    _ => Seq::empty(),
                };
                let mut i: usize = 0;
                assert(ev.subrange(0, ev.len() as int) == ev);
                while i < e.len()
                    invariant
                        *self == Json::Object(*e),
                        self@ == JsonV::Object(ev),
                        i <= e@.len(),
                        ev.len() == e@.len(),
                        forall|j: int| 0 <= j < e@.len() ==> #[trigger] ev[j] == (e@[j].0@, e@[j].1@),
                        obj_get(ev, seg@) == obj_get(ev.subrange(i as int, ev.len() as int), seg@),
                    decreases e@.len() - i,
                {
                    let ghost rest = ev.subrange(i as int, ev.len() as int);
                    assert(rest[0] == ev[i as int]);
                    if e[i].0 == *seg {
                        assert(ev[i as int] == (e@[i as int].0@, e@[i as int].1@));
                        assert(obj_get(rest, seg@) == Some(rest[0].1));
                        assert(self@ == JsonV::Object(ev));
                        return Some(&e[i].1);
                    }
                    assert(rest.drop_first() == ev.subrange(i + 1, ev.len() as int));
                    i = i + 1;
                }
                None
            },
            Json::Array(a) => {
                match parse_index_exec(seg) {
                    Some(i) => if i < a.len() {
                        Some(&a[i])
                    } else {
                        None
                    },
                    None => None,
                }
            },
            _ => None,
        }
    }

    /// Walks a path from this value; see `value_at`.
    pub fn value_at_path(&self, path: &Vec<String>) -> (r: Option<&Json>)
        ensures
            match r {
                Some(c) => value_at(self@, path@.map_values(|s: String| s@)) == Some(c@),
                None => value_at(self@, path@.map_values(|s: String| s@)) is None,
            },
    {
        let ghost pv = path@.map_values(|s: String| s@);
        let mut cur: &Json = self;
        let mut i: usize = 0;
        assert(pv.subrange(0, pv.len() as int) == pv);
        while i < path.len()
            invariant
                i <= path@.len(),
                pv == path@.map_values(|s: String| s@),
                value_at(self@, pv) == value_at(cur@, pv.subrange(i as int, pv.len() as int)),
            decreases path@.len() - i,
        {
            let ghost rest = pv.subrange(i as int, pv.len() as int);
            assert(rest[0] == path@[i as int]@);
            assert(rest.drop_first() == pv.subrange(i + 1, pv.len() as int));
            match cur.get_child(&path[i]) {
                Some(c) => {
                    cur = c;
                },
                None => {
                    return None;
                },
            }
            i = i + 1;
        }
        assert(pv.subrange(i as int, pv.len() as int).len() == 0);
        Some(cur)
    }

    /// Writes the text of the value; see `render_text`.
    pub fn render_into(&self, out: &mut String)
        ensures
            final(out)@ == old(out)@ + render_text(self@),
    {
        match self {
            Json::Str(s) => push_str(out, s.as_str()),
            Json::Number(n) => push_int(out, *n),
            Json::Bool(b) => if *b {
                push_str(out, "true");
                proof { reveal_strlit("true"); }
                assert(old(out)@ + render_text(self@) == old(out)@ + "true"@);
            } else {
                push_str(out, "false");
                proof { reveal_strlit("false"); }
                assert(old(out)@ + render_text(self@) == old(out)@ + "false"@);
            },
            _ => {
                assert(old(out)@ + render_text(self@) == old(out)@);
            },
        }
    }

    /// Whether the value selects the main branch; see `truthy`.
    pub fn is_truthy(&self, zero_is_falsy: bool) -> (r: bool)
        ensures
            r == truthy(self@, zero_is_falsy),
    {
        match self {
            Json::Null => false,
            Json::Bool(b) => *b,
            Json::Number(n) => !(zero_is_falsy && *n == 0),
            Json::Str(s) => s.unicode_len() > 0,
            Json::Array(a) => a.len() > 0,
            Json::Object(e) => e.len() > 0,
        }
    }
}

} // verus!
