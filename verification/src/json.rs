use vstd::prelude::*;

use crate::numbers::{all_digits, dec_val, digit_val, is_digit};

verus! {

broadcast use vstd::std_specs::vec::group_vec_axioms, vstd::seq::group_seq_axioms;

/// A JSON value as the remote API exchanges it. Numbers keep their lexeme.
pub enum Json {
    Null,
    Bool(bool),
    Num(Vec<char>),
    Str(Vec<char>),
    Arr(Vec<Json>),
    Obj(Vec<(Vec<char>, Json)>),
}

/// The mathematical shape of a JSON value.
#[verifier::ext_equal]
pub enum JsonSpec {
    Null,
    Bool(bool),
    Num(Seq<char>),
    Str(Seq<char>),
    Arr(Seq<JsonSpec>),
    Obj(Seq<(Seq<char>, JsonSpec)>),
}

/// The shape of a value, fields and items viewed recursively.
pub open spec fn jview(j: Json) -> JsonSpec
    decreases j, 0int,
{
    match j {
        Json::Null => JsonSpec::Null,
        Json::Bool(b) => JsonSpec::Bool(b),
        Json::Num(v) => JsonSpec::Num(v@),
        Json::Str(v) => JsonSpec::Str(v@),
        Json::Arr(items) => JsonSpec::Arr(jviews(items)),
        Json::Obj(fields) => JsonSpec::Obj(jmviews(fields)),
    }
}

/// The shapes of the items of an array's backing vector.
pub open spec fn jviews(items: Vec<Json>) -> Seq<JsonSpec>
    decreases items, 1int,
{
    Seq::new(items@.len(), |i: int| jview_item(items, i))
}

/// The shapes of the members of an object's backing vector.
pub open spec fn jmviews(fields: Vec<(Vec<char>, Json)>) -> Seq<(Seq<char>, JsonSpec)>
    decreases fields, 1int,
{
    Seq::new(fields@.len(), |i: int| (fields@[i].0@, jview_member(fields, i)))
}

/// The shape of the `i`-th item of an array's backing vector.
pub open spec fn jview_item(items: Vec<Json>, i: int) -> JsonSpec
    decreases items, 0int,
{
    if 0 <= i < items.len() {
        jview(items[i])
    } else {
        JsonSpec::Null
    }
}

/// The shape of the value of the `i`-th member of an object's backing
/// vector.
pub open spec fn jview_member(fields: Vec<(Vec<char>, Json)>, i: int) -> JsonSpec
    decreases fields, 0int,
{
    if 0 <= i < fields.len() {
        jview(fields[i].1)
    } else {
        JsonSpec::Null
    }
}

/// JSON insignificant whitespace.
pub open spec fn is_ws(c: char) -> bool {
    c == ' ' || c == '\n' || c == '\r' || c == '\t'
}

/// The first position at or after `i` that holds no whitespace.
pub open spec fn sp_ws(s: Seq<char>, i: int) -> int
    decreases s.len() - i,
{
    if 0 <= i < s.len() && is_ws(s[i]) {
        sp_ws(s, i + 1)
    } else {
        i
    }
}

/// The value of a hexadecimal digit character; sixteen for any other.
pub open spec fn hex_val(c: char) -> int {
    if digit_val(c) < 10 {
        digit_val(c)
    } else if c == 'a' || c == 'A' {
        10
    } else if c == 'b' || c == 'B' {
        11
    } else if c == 'c' || c == 'C' {
        12
    } else if c == 'd' || c == 'D' {
        13
    } else if c == 'e' || c == 'E' {
        14
    } else if c == 'f' || c == 'F' {
        15
    } else {
        16
    }
}

/// Whether four hexadecimal digits stand at `k`.
pub open spec fn hex4_ok(s: Seq<char>, k: int) -> bool {
    &&& 0 <= k
    &&& k + 4 <= s.len()
    &&& hex_val(s[k]) < 16
    &&& hex_val(s[k + 1]) < 16
    &&& hex_val(s[k + 2]) < 16
    &&& hex_val(s[k + 3]) < 16
}

/// The value of the four hexadecimal digits at `k`.
pub open spec fn hex4_val(s: Seq<char>, k: int) -> int {
    hex_val(s[k]) * 4096 + hex_val(s[k + 1]) * 256 + hex_val(s[k + 2]) * 16 + hex_val(s[k + 3])
}

/// One escape sequence starting at `e`, just after the backslash: the
/// character it denotes and the position after the sequence. A `\u` escape
/// carrying a high surrogate must be followed at once by a low-surrogate
/// `\u` escape; the pair denotes one supplementary character.
pub open spec fn sp_escape(s: Seq<char>, e: int) -> Option<(char, int)> {
    if !(0 <= e < s.len()) {
        None
    } else {
        let c = s[e];
        if c == '"' {
            Some(('"', e + 1))
        } else if c == '\\' {
            Some(('\\', e + 1))
        } else if c == '/' {
            Some(('/', e + 1))
        } else if c == 'b' {
            Some(('\u{0008}', e + 1))
        } else if c == 'f' {
            Some(('\u{000C}', e + 1))
        } else if c == 'n' {
            Some(('\n', e + 1))
        } else if c == 'r' {
            Some(('\r', e + 1))
        } else if c == 't' {
            Some(('\t', e + 1))
        } else if c == 'u' {
            if hex4_ok(s, e + 1) {
                let code = hex4_val(s, e + 1);
                if 0xD800 <= code < 0xDC00 {
                    if e + 11 <= s.len() && s[e + 5] == '\\' && s[e + 6] == 'u' && hex4_ok(
                        s,
                        e + 7,
                    ) {
                        let low = hex4_val(s, e + 7);
                        if 0xDC00 <= low < 0xE000 {
                            let cp = 0x10000 + (code - 0xD800) * 0x400 + (low - 0xDC00);
                            Some(((cp as u32) as char, e + 11))
                        } else {
                            None
                        }
                    } else {
                        None
                    }
                } else if 0xDC00 <= code < 0xE000 {
                    None
                } else {
                    Some(((code as u32) as char, e + 5))
                }
            } else {
                None
            }
        } else {
            None
        }
    }
}

/// A string body starting at `i`, just after the opening quote: the decoded
/// characters and the position after the closing quote. Raw control
/// characters are refused, as JSON refuses them.
pub open spec fn sp_string(s: Seq<char>, i: int) -> Option<(Seq<char>, int)>
    decreases s.len() - i,
{
    if !(0 <= i < s.len()) {
        None
    } else if s[i] == '"' {
        Some((Seq::empty(), i + 1))
    } else if s[i] == '\\' {
        match sp_escape(s, i + 1) {
            None => None,
            Some((c, j)) => if i < j <= s.len() {
                match sp_string(s, j) {
                    None => None,
                    Some((rest, k)) => Some((seq![c] + rest, k)),
                }
            } else {
                None
            },
        }
    } else if (s[i] as u32) < 32 {
        None
    } else {
        match sp_string(s, i + 1) {
            None => None,
            Some((rest, k)) => Some((seq![s[i]] + rest, k)),
        }
    }
}

/// The first position at or after `i` that holds no decimal digit.
pub open spec fn sp_digits(s: Seq<char>, i: int) -> int
    decreases s.len() - i,
{
    if 0 <= i < s.len() && is_digit(s[i]) {
        sp_digits(s, i + 1)
    } else {
        i
    }
}

/// A number starting at `i`: its lexeme and the position after it, by the
/// JSON grammar (optional minus, integer part without leading zero,
/// optional fraction, optional exponent).
pub open spec fn sp_number(s: Seq<char>, i: int) -> Option<(Seq<char>, int)> {
    let j0 = if 0 <= i < s.len() && s[i] == '-' {
        i + 1
    } else {
        i
    };
    if !(0 <= j0 < s.len() && is_digit(s[j0])) {
        None
    } else {
        let j1 = if s[j0] == '0' {
            j0 + 1
        } else {
            sp_digits(s, j0)
        };
        let j2 = if j1 < s.len() && s[j1] == '.' {
            sp_digits(s, j1 + 1)
        } else {
            j1
        };
        if j1 < s.len() && s[j1] == '.' && j2 == j1 + 1 {
            None
        } else {
            let j3 = if j2 < s.len() && (s[j2] == 'e' || s[j2] == 'E') {
                let j2s = if j2 + 1 < s.len() && (s[j2 + 1] == '+' || s[j2 + 1] == '-') {
                    j2 + 2
                } else {
                    j2 + 1
                };
                sp_digits(s, j2s)
            } else {
                j2
            };
            if j2 < s.len() && (s[j2] == 'e' || s[j2] == 'E') && j3 == (if j2 + 1 < s.len() && (s[j2
                + 1] == '+' || s[j2 + 1] == '-') {
                j2 + 2
            } else {
                j2 + 1
            }) {
                None
            } else {
                Some((s.subrange(i, j3), j3))
            }
        }
    }
}

/// Whether the word `w` stands at `i`.
pub open spec fn has_at(s: Seq<char>, i: int, w: Seq<char>) -> bool {
    0 <= i && i + w.len() <= s.len() && s.subrange(i, i + w.len() as int) == w
}

pub open spec fn null_chars() -> Seq<char> {
    seq!['n', 'u', 'l', 'l']
}

pub open spec fn true_chars() -> Seq<char> {
    seq!['t', 'r', 'u', 'e']
}

pub open spec fn false_chars() -> Seq<char> {
    seq!['f', 'a', 'l', 's', 'e']
}

/// One value starting at `i`, leading whitespace skipped: the value and the
/// position after it. The fuel bounds the recursion; the parser hands in
/// ample fuel for any input of accepted length.
pub open spec fn sp_value(s: Seq<char>, i: int, fuel: nat) -> Option<(JsonSpec, int)>
    decreases fuel,
{
    if fuel == 0 {
        None
    } else {
        let j = sp_ws(s, i);
        if !(0 <= j < s.len()) {
            None
        } else if s[j] == 'n' {
            if has_at(s, j, null_chars()) {
                Some((JsonSpec::Null, j + 4))
            } else {
                None
            }
        } else if s[j] == 't' {
            if has_at(s, j, true_chars()) {
                Some((JsonSpec::Bool(true), j + 4))
            } else {
                None
            }
        } else if s[j] == 'f' {
            if has_at(s, j, false_chars()) {
                Some((JsonSpec::Bool(false), j + 5))
            } else {
                None
            }
        } else if s[j] == '"' {
            match sp_string(s, j + 1) {
                None => None,
                Some((body, k)) => Some((JsonSpec::Str(body), k)),
            }
        } else if s[j] == '[' {
            let k = sp_ws(s, j + 1);
            if 0 <= k < s.len() && s[k] == ']' {
                Some((JsonSpec::Arr(Seq::empty()), k + 1))
            } else {
                match sp_items(s, j + 1, (fuel - 1) as nat) {
                    None => None,
                    Some((items, m)) => Some((JsonSpec::Arr(items), m)),
                }
            }
        } else if s[j] == '{' {
            let k = sp_ws(s, j + 1);
            if 0 <= k < s.len() && s[k] == '}' {
                Some((JsonSpec::Obj(Seq::empty()), k + 1))
            } else {
                match sp_members(s, j + 1, (fuel - 1) as nat) {
                    None => None,
                    Some((fields, m)) => Some((JsonSpec::Obj(fields), m)),
                }
            }
        } else {
            match sp_number(s, j) {
                None => None,
                Some((lex, m)) => Some((JsonSpec::Num(lex), m)),
            }
        }
    }
}

/// The items of a non-empty array from `i`, up to and including the closing
/// bracket.
pub open spec fn sp_items(s: Seq<char>, i: int, fuel: nat) -> Option<(Seq<JsonSpec>, int)>
    decreases fuel,
{
    if fuel == 0 {
        None
    } else {
        match sp_value(s, i, (fuel - 1) as nat) {
            None => None,
            Some((v, j)) => {
                let k = sp_ws(s, j);
                if 0 <= k < s.len() && s[k] == ',' {
                    match sp_items(s, k + 1, (fuel - 1) as nat) {
                        None => None,
                        Some((rest, m)) => Some((seq![v] + rest, m)),
                    }
                } else if 0 <= k < s.len() && s[k] == ']' {
                    Some((seq![v], k + 1))
                } else {
                    None
                }
            },
        }
    }
}

/// The members of a non-empty object from `i`, up to and including the
/// closing brace.
pub open spec fn sp_members(s: Seq<char>, i: int, fuel: nat) -> Option<
    (Seq<(Seq<char>, JsonSpec)>, int),
>
    decreases fuel,
{
    if fuel == 0 {
        None
    } else {
        let j = sp_ws(s, i);
        if !(0 <= j < s.len() && s[j] == '"') {
            None
        } else {
            match sp_string(s, j + 1) {
                None => None,
                Some((key, k)) => {
                    let c = sp_ws(s, k);
                    if !(0 <= c < s.len() && s[c] == ':') {
                        None
                    } else {
                        match sp_value(s, c + 1, (fuel - 1) as nat) {
                            None => None,
                            Some((v, m)) => {
                                let e = sp_ws(s, m);
                                if 0 <= e < s.len() && s[e] == ',' {
                                    match sp_members(s, e + 1, (fuel - 1) as nat) {
                                        None => None,
                                        Some((rest, z)) => Some((seq![(key, v)] + rest, z)),
                                    }
                                } else if 0 <= e < s.len() && s[e] == '}' {
                                    Some((seq![(key, v)], e + 1))
                                } else {
                                    None
                                }
                            },
                        }
                    }
                },
            }
        }
    }
}

/// The longest text the parser accepts.
pub const MAX_JSON_LEN: usize = 0x10000000;

/// The fuel that amply covers any accepted text.
pub open spec fn parse_fuel(n: nat) -> nat {
    2 * n + 4
}

/// What the text denotes: the one JSON value it holds, surrounded only by
/// whitespace, or nothing when it is malformed or over the accepted length.
pub open spec fn json_parse_spec(s: Seq<char>) -> Option<JsonSpec> {
    if s.len() > MAX_JSON_LEN {
        None
    } else {
        match sp_value(s, 0, parse_fuel(s.len())) {
            None => None,
            Some((v, j)) => if sp_ws(s, j) == s.len() {
                Some(v)
            } else {
                None
            },
        }
    }
}

fn skip_ws(s: &Vec<char>, i: usize) -> (j: usize)
    requires
        i <= s@.len(),
    ensures
        j == sp_ws(s@, i as int),
        i <= j <= s@.len(),
{
    let mut j = i;
    while j < s.len() && (s[j] == ' ' || s[j] == '\n' || s[j] == '\r' || s[j] == '\t')
        invariant
            i <= j <= s@.len(),
            sp_ws(s@, i as int) == sp_ws(s@, j as int),
        decreases s@.len() - j,
    {
        j += 1;
    }
    j
}

fn digit_of(c: char) -> (d: u64)
    ensures
        d == digit_val(c),
{
    if c == '0' {
        0
    } else if c == '1' {
        1
    } else if c == '2' {
        2
    } else if c == '3' {
        3
    } else if c == '4' {
        4
    } else if c == '5' {
        5
    } else if c == '6' {
        6
    } else if c == '7' {
        7
    } else if c == '8' {
        8
    } else if c == '9' {
        9
    } else {
        10
    }
}

fn hex_of(c: char) -> (h: u32)
    ensures
        h == hex_val(c),
{
    let d = digit_of(c);
    if d < 10 {
        d as u32
    } else if c == 'a' || c == 'A' {
        10
    } else if c == 'b' || c == 'B' {
        11
    } else if c == 'c' || c == 'C' {
        12
    } else if c == 'd' || c == 'D' {
        13
    } else if c == 'e' || c == 'E' {
        14
    } else if c == 'f' || c == 'F' {
        15
    } else {
        16
    }
}

fn parse_hex4(s: &Vec<char>, k: usize) -> (r: Option<u32>)
    requires
        k <= s@.len(),
    ensures
        r matches Some(v) ==> hex4_ok(s@, k as int) && v == hex4_val(s@, k as int) && v < 0x10000,
        r is None ==> !hex4_ok(s@, k as int),
{
    if s.len() - k < 4 {
        return None;
    }
    let h0 = hex_of(s[k]);
    let h1 = hex_of(s[k + 1]);
    let h2 = hex_of(s[k + 2]);
    let h3 = hex_of(s[k + 3]);
    if h0 > 15 || h1 > 15 || h2 > 15 || h3 > 15 {
        return None;
    }
    Some(h0 * 4096 + h1 * 256 + h2 * 16 + h3)
}

fn parse_escape(s: &Vec<char>, e: usize) -> (r: Option<(char, usize)>)
    requires
        e <= s@.len(),
    ensures
        r matches Some(p) ==> sp_escape(s@, e as int) == Some((p.0, p.1 as int)) && e < p.1
            <= s@.len(),
        r is None ==> sp_escape(s@, e as int) is None,
{
    broadcast use vstd::utf8::char_u32_cast;

    if e >= s.len() {
        return None;
    }
    let c = s[e];
    if c == '"' {
        Some(('"', e + 1))
    } else if c == '\\' {
        Some(('\\', e + 1))
    } else if c == '/' {
        Some(('/', e + 1))
    } else if c == 'b' {
        Some(('\u{0008}', e + 1))
    } else if c == 'f' {
        Some(('\u{000C}', e + 1))
    } else if c == 'n' {
        Some(('\n', e + 1))
    } else if c == 'r' {
        Some(('\r', e + 1))
    } else if c == 't' {
        Some(('\t', e + 1))
    } else if c == 'u' {
        match parse_hex4(s, e + 1) {
            None => None,
            Some(code) => {
                if 0xD800 <= code && code < 0xDC00 {
                    if s.len() - e >= 11 && s[e + 5] == '\\' && s[e + 6] == 'u' {
                        match parse_hex4(s, e + 7) {
                            None => None,
                            Some(low) => {
                                if 0xDC00 <= low && low < 0xE000 {
                                    let cp: u32 = 0x10000 + (code - 0xD800) * 0x400 + (low
                                        - 0xDC00);
                                    match crate::text::char_from_u32(cp) {
                                        Some(ch) => {
                                            proof {
                                                vstd::utf8::char_u32_cast(ch, cp);
                                            }
                                            Some((ch, e + 11))
                                        },
                                        None => {
                                            proof {
                                                assert(false);
                                            }
                                            None
                                        },
                                    }
                                } else {
                                    None
                                }
                            },
                        }
                    } else {
                        None
                    }
                } else if 0xDC00 <= code && code < 0xE000 {
                    None
                } else {
                    match crate::text::char_from_u32(code) {
                        Some(ch) => {
                            proof {
                                vstd::utf8::char_u32_cast(ch, code);
                            }
                            Some((ch, e + 5))
                        },
                        None => {
                            proof {
                                assert(false);
                            }
                            None
                        },
                    }
                }
            },
        }
    } else {
        None
    }
}

fn parse_string_body(s: &Vec<char>, i: usize) -> (r: Option<(Vec<char>, usize)>)
    requires
        i <= s@.len(),
    ensures
        r matches Some(p) ==> sp_string(s@, i as int) == Some((p.0@, p.1 as int)) && i < p.1
            <= s@.len(),
        r is None ==> sp_string(s@, i as int) is None,
    decreases s@.len() - i,
{
    if i >= s.len() {
        return None;
    }
    let c = s[i];
    if c == '"' {
        let out: Vec<char> = Vec::new();
        proof {
            assert(out@ =~= Seq::<char>::empty());
        }
        Some((out, i + 1))
    } else if c == '\\' {
        match parse_escape(s, i + 1) {
            None => None,
            Some((ec, j)) => match parse_string_body(s, j) {
                None => None,
                Some((rest, k)) => {
                    let mut out = rest;
                    out.insert(0, ec);
                    proof {
                        assert(out@ =~= seq![ec] + out@.subrange(1, out@.len() as int));
                    }
                    Some((out, k))
                },
            },
        }
    } else if (c as u32) < 32 {
        None
    } else {
        match parse_string_body(s, i + 1) {
            None => None,
            Some((rest, k)) => {
                let mut out = rest;
                out.insert(0, c);
                proof {
                    assert(out@ =~= seq![c] + out@.subrange(1, out@.len() as int));
                }
                Some((out, k))
            },
        }
    }
}

fn scan_digits(s: &Vec<char>, i: usize) -> (j: usize)
    requires
        i <= s@.len(),
    ensures
        j == sp_digits(s@, i as int),
        i <= j <= s@.len(),
{
    let mut j = i;
    while j < s.len() && digit_of(s[j]) < 10
        invariant
            i <= j <= s@.len(),
            sp_digits(s@, i as int) == sp_digits(s@, j as int),
        decreases s@.len() - j,
    {
        j += 1;
    }
    j
}

fn copy_range(s: &Vec<char>, a: usize, b: usize) -> (out: Vec<char>)
    requires
        a <= b <= s@.len(),
    ensures
        out@ == s@.subrange(a as int, b as int),
{
    let mut out: Vec<char> = Vec::new();
    let mut i = a;
    while i < b
        invariant
            a <= i <= b <= s@.len(),
            out@ =~= s@.subrange(a as int, i as int),
        decreases b - i,
    {
        out.push(s[i]);
        proof {
            assert(out@ =~= s@.subrange(a as int, i + 1));
        }
        i += 1;
    }
    proof {
        assert(out@ =~= s@.subrange(a as int, b as int));
    }
    out
}

fn parse_number(s: &Vec<char>, i: usize) -> (r: Option<(Vec<char>, usize)>)
    requires
        i <= s@.len(),
    ensures
        r matches Some(p) ==> sp_number(s@, i as int) == Some((p.0@, p.1 as int)) && i <= p.1
            <= s@.len(),
        r is None ==> sp_number(s@, i as int) is None,
{
    let j0: usize = if i < s.len() && s[i] == '-' {
        i + 1
    } else {
        i
    };
    if !(j0 < s.len() && digit_of(s[j0]) < 10) {
        return None;
    }
    let j1: usize = if s[j0] == '0' {
        j0 + 1
    } else {
        scan_digits(s, j0)
    };
    let j2: usize = if j1 < s.len() && s[j1] == '.' {
        scan_digits(s, j1 + 1)
    } else {
        j1
    };
    if j1 < s.len() && s[j1] == '.' && j2 == j1 + 1 {
        return None;
    }
    let has_exp = j2 < s.len() && (s[j2] == 'e' || s[j2] == 'E');
    let mut j3: usize = j2;
    if has_exp {
        let j2s: usize = if j2 + 1 < s.len() && (s[j2 + 1] == '+' || s[j2 + 1] == '-') {
            j2 + 2
        } else {
            j2 + 1
        };
        j3 = scan_digits(s, j2s);
        if j3 == j2s {
            return None;
        }
    }
    Some((copy_range(s, i, j3), j3))
}

fn parse_value(s: &Vec<char>, i: usize, fuel: u64) -> (r: Option<(Json, usize)>)
    requires
        i <= s@.len(),
    ensures
        r matches Some(p) ==> sp_value(s@, i as int, fuel as nat) == Some((jview(p.0), p.1 as int))
            && p.1 <= s@.len(),
        r is None ==> sp_value(s@, i as int, fuel as nat) is None,
    decreases fuel,
{
    if fuel == 0 {
        return None;
    }
    let j = skip_ws(s, i);
    if j >= s.len() {
        return None;
    }
    let c = s[j];
    if c == 'n' {
        if s.len() - j >= 4 && s[j + 1] == 'u' && s[j + 2] == 'l' && s[j + 3] == 'l' {
            proof {
                assert(s@.subrange(j as int, j + 4) =~= null_chars());
            }
            Some((Json::Null, j + 4))
        } else {
            proof {
                assert(!has_at(s@, j as int, null_chars()));
            }
            None
        }
    } else if c == 't' {
        if s.len() - j >= 4 && s[j + 1] == 'r' && s[j + 2] == 'u' && s[j + 3] == 'e' {
            proof {
                assert(s@.subrange(j as int, j + 4) =~= true_chars());
            }
            Some((Json::Bool(true), j + 4))
        } else {
            proof {
                assert(!has_at(s@, j as int, true_chars()));
            }
            None
        }
    } else if c == 'f' {
        if s.len() - j >= 5 && s[j + 1] == 'a' && s[j + 2] == 'l' && s[j + 3] == 's' && s[j + 4]
            == 'e' {
            proof {
                assert(s@.subrange(j as int, j + 5) =~= false_chars());
            }
            Some((Json::Bool(false), j + 5))
        } else {
            proof {
                assert(!has_at(s@, j as int, false_chars()));
            }
            None
        }
    } else if c == '"' {
        match parse_string_body(s, j + 1) {
            None => None,
            Some((body, k)) => Some((Json::Str(body), k)),
        }
    } else if c == '[' {
        let k = skip_ws(s, j + 1);
        if k < s.len() && s[k] == ']' {
            let items: Vec<Json> = Vec::new();
            proof {
                assert(jviews(items) =~= Seq::<JsonSpec>::empty());
            }
            Some((Json::Arr(items), k + 1))
        } else {
            match parse_items(s, j + 1, fuel - 1) {
                None => None,
                Some((items, m)) => Some((Json::Arr(items), m)),
            }
        }
    } else if c == '{' {
        let k = skip_ws(s, j + 1);
        if k < s.len() && s[k] == '}' {
            let fields: Vec<(Vec<char>, Json)> = Vec::new();
            proof {
                assert(jmviews(fields) =~= Seq::<(Seq<char>, JsonSpec)>::empty());
            }
            Some((Json::Obj(fields), k + 1))
        } else {
            match parse_members(s, j + 1, fuel - 1) {
                None => None,
                Some((fields, m)) => Some((Json::Obj(fields), m)),
            }
        }
    } else {
        match parse_number(s, j) {
            None => None,
            Some((lex, m)) => Some((Json::Num(lex), m)),
        }
    }
}

fn parse_items(s: &Vec<char>, i: usize, fuel: u64) -> (r: Option<(Vec<Json>, usize)>)
    requires
        i <= s@.len(),
    ensures
        r matches Some(p) ==> sp_items(s@, i as int, fuel as nat) == Some((jviews(p.0), p.1 as int))
            && p.1 <= s@.len(),
        r is None ==> sp_items(s@, i as int, fuel as nat) is None,
    decreases fuel,
{
    if fuel == 0 {
        return None;
    }
    match parse_value(s, i, fuel - 1) {
        None => None,
        Some((v, j)) => {
            let k = skip_ws(s, j);
            if k < s.len() && s[k] == ',' {
                match parse_items(s, k + 1, fuel - 1) {
                    None => None,
                    Some((rest, m)) => {
                        let ghost old_rest = rest;
                        let ghost vv = v;
                        let mut out = rest;
                        out.insert(0, v);
                        proof {
                            assert(jviews(out) =~= seq![jview(vv)] + jviews(old_rest));
                        }
                        Some((out, m))
                    },
                }
            } else if k < s.len() && s[k] == ']' {
                let ghost vv = v;
                let mut out: Vec<Json> = Vec::new();
                out.push(v);
                proof {
                    assert(jviews(out) =~= seq![jview(vv)]);
                }
                Some((out, k + 1))
            } else {
                None
            }
        },
    }
}

fn parse_members(s: &Vec<char>, i: usize, fuel: u64) -> (r: Option<(Vec<(Vec<char>, Json)>, usize)>)
    requires
        i <= s@.len(),
    ensures
        r matches Some(p) ==> sp_members(s@, i as int, fuel as nat) == Some(
            (jmviews(p.0), p.1 as int),
        ) && p.1 <= s@.len(),
        r is None ==> sp_members(s@, i as int, fuel as nat) is None,
    decreases fuel,
{
    if fuel == 0 {
        return None;
    }
    let j = skip_ws(s, i);
    if !(j < s.len() && s[j] == '"') {
        return None;
    }
    match parse_string_body(s, j + 1) {
        None => None,
        Some((key, k)) => {
            let c = skip_ws(s, k);
            if !(c < s.len() && s[c] == ':') {
                return None;
            }
            match parse_value(s, c + 1, fuel - 1) {
                None => None,
                Some((v, m)) => {
                    let e = skip_ws(s, m);
                    if e < s.len() && s[e] == ',' {
                        match parse_members(s, e + 1, fuel - 1) {
                            None => None,
                            Some((rest, z)) => {
                                let ghost old_rest = rest;
                                let ghost kk = key;
                                let ghost vv = v;
                                let mut out = rest;
                                out.insert(0, (key, v));
                                proof {
                                    assert(jmviews(out) =~= seq![(kk@, jview(vv))] + jmviews(
                                        old_rest,
                                    ));
                                }
                                Some((out, z))
                            },
                        }
                    } else if e < s.len() && s[e] == '}' {
                        let ghost kk = key;
                        let ghost vv = v;
                        let mut out: Vec<(Vec<char>, Json)> = Vec::new();
                        out.push((key, v));
                        proof {
                            assert(jmviews(out) =~= seq![(kk@, jview(vv))]);
                        }
                        Some((out, e + 1))
                    } else {
                        None
                    }
                },
            }
        },
    }
}

/// The value of the first member of `fields` whose key is `key`.
pub open spec fn jfield_lookup(fields: Seq<(Seq<char>, JsonSpec)>, key: Seq<char>) -> Option<
    JsonSpec,
>
    decreases fields.len(),
{
    if fields.len() == 0 {
        None
    } else if fields.first().0 == key {
        Some(fields.first().1)
    } else {
        jfield_lookup(fields.drop_first(), key)
    }
}

/// The value under `key` when `v` is an object that has such a member.
pub open spec fn jlookup(v: JsonSpec, key: Seq<char>) -> Option<JsonSpec> {
    match v {
        JsonSpec::Obj(fields) => jfield_lookup(fields, key),
        _ => None,
    }
}

/// The member of the object under the given key, first match.
pub fn obj_get<'a>(j: &'a Json, key: &Vec<char>) -> (r: Option<&'a Json>)
    ensures
        r matches Some(v) ==> jlookup(jview(*j), key@) == Some(jview(*v)),
        r is None ==> jlookup(jview(*j), key@) is None,
{
    match j {
        Json::Obj(fields) => {
            proof {
                assert(jmviews(*fields).skip(0) =~= jmviews(*fields));
            }
            let mut i: usize = 0;
            while i < fields.len()
                invariant
                    i <= fields@.len(),
                    jview(*j) == JsonSpec::Obj(jmviews(*fields)),
                    jfield_lookup(jmviews(*fields), key@) == jfield_lookup(
                        jmviews(*fields).skip(i as int),
                        key@,
                    ),
                decreases fields@.len() - i,
            {
                if crate::text::chars_eq(&fields[i].0, key) {
                    proof {
                        let fv = jmviews(*fields);
                        assert(fv.skip(i as int).first() == fv[i as int]);
                        assert(fv[i as int] == (
                            fields@[i as int].0@,
                            jview_member(*fields, i as int),
                        ));
                        assert(jfield_lookup(fv.skip(i as int), key@) == Some(
                            jview_member(*fields, i as int),
                        ));
                        assert(jview_member(*fields, i as int) == jview(fields@[i as int].1));
                        assert(jlookup(jview(*j), key@) == jfield_lookup(fv, key@));
                    }
                    return Some(&fields[i].1);
                }
                proof {
                    let fv = jmviews(*fields);
                    assert(fv.skip(i as int).first() == fv[i as int]);
                    assert(fv[i as int] == (fields@[i as int].0@, jview_member(*fields, i as int)));
                    assert(fv.skip(i as int).drop_first() =~= fv.skip(i + 1));
                }
                i += 1;
            }
            proof {
                assert(jmviews(*fields).skip(i as int) =~= Seq::<(Seq<char>, JsonSpec)>::empty());
            }
            None
        },
        _ => None,
    }
}

/// The characters of a string value.
pub fn as_str<'a>(j: &'a Json) -> (r: Option<&'a Vec<char>>)
    ensures
        r matches Some(v) ==> jview(*j) == JsonSpec::Str(v@),
        r is None ==> !(jview(*j) is Str),
{
    match j {
        Json::Str(v) => Some(v),
        _ => None,
    }
}

/// The items of an array value.
pub fn as_arr<'a>(j: &'a Json) -> (r: Option<&'a Vec<Json>>)
    ensures
        r matches Some(items) ==> jview(*j) == JsonSpec::Arr(jviews(*items)) && jviews(
            *items,
        ).len() == items@.len(),
        r is None ==> !(jview(*j) is Arr),
{
    match j {
        Json::Arr(items) => Some(items),
        _ => None,
    }
}

/// Whether the value is an object without members, the shape the lookup
/// endpoint answers when it knows nothing.
pub fn is_empty_object(j: &Json) -> (r: bool)
    ensures
        r == (jview(*j) matches JsonSpec::Obj(fields) && fields.len() == 0),
{
    match j {
        Json::Obj(fields) => fields.len() == 0,
        _ => false,
    }
}

/// The number a value denotes when it is a plain unsigned integer that fits
/// in a `u64`: a `Num` whose whole lexeme is decimal digits.
pub fn as_u64(j: &Json) -> (r: Option<u64>)
    ensures
        r matches Some(n) ==> (jview(*j) matches JsonSpec::Num(lex) && lex.len() > 0 && all_digits(
            lex,
        ) && n == dec_val(lex)),
        r is None ==> (jview(*j) matches JsonSpec::Num(lex) ==> (lex.len() == 0 || !all_digits(lex)
            || dec_val(lex) > u64::MAX)),
{
    match j {
        Json::Num(lex) => crate::numbers::parse_dec(lex),
        _ => None,
    }
}

/// The escape sequence the emitter writes for one character: the short
/// escapes of JSON, `\u00..` for the other control characters, and the
/// character itself for everything else.
pub open spec fn esc_char(c: char) -> Seq<char> {
    if c == '"' {
        seq!['\\', '"']
    } else if c == '\\' {
        seq!['\\', '\\']
    } else if c == '\n' {
        seq!['\\', 'n']
    } else if c == '\r' {
        seq!['\\', 'r']
    } else if c == '\t' {
        seq!['\\', 't']
    } else if (c as u32) < 32 {
        seq!['\\', 'u', '0', '0', hex_digit_char((c as u32) as int / 16), hex_digit_char(
            (c as u32) as int % 16,
        )]
    } else {
        seq![c]
    }
}

/// The lowercase hexadecimal digit character of a value below sixteen.
pub open spec fn hex_digit_char(d: int) -> char {
    if d < 10 {
        crate::numbers::dec_digit(d)
    } else if d == 10 {
        'a'
    } else if d == 11 {
        'b'
    } else if d == 12 {
        'c'
    } else if d == 13 {
        'd'
    } else if d == 14 {
        'e'
    } else {
        'f'
    }
}

/// The escaped text of a string's characters.
pub open spec fn esc_chars(s: Seq<char>) -> Seq<char>
    decreases s.len(),
{
    if s.len() == 0 {
        Seq::empty()
    } else {
        esc_chars(s.drop_last()) + esc_char(s.last())
    }
}

/// A string literal as the emitter writes it: quoted and escaped.
pub open spec fn quoted(s: Seq<char>) -> Seq<char> {
    seq!['"'] + esc_chars(s) + seq!['"']
}

fn hex_digit_of(d: u32) -> (c: char)
    requires
        d < 16,
    ensures
        c == hex_digit_char(d as int),
{
    if d == 0 {
        '0'
    } else if d == 1 {
        '1'
    } else if d == 2 {
        '2'
    } else if d == 3 {
        '3'
    } else if d == 4 {
        '4'
    } else if d == 5 {
        '5'
    } else if d == 6 {
        '6'
    } else if d == 7 {
        '7'
    } else if d == 8 {
        '8'
    } else if d == 9 {
        '9'
    } else if d == 10 {
        'a'
    } else if d == 11 {
        'b'
    } else if d == 12 {
        'c'
    } else if d == 13 {
        'd'
    } else if d == 14 {
        'e'
    } else {
        'f'
    }
}

/// Appends one character's escape sequence.
fn push_escaped(out: &mut Vec<char>, c: char)
    ensures
        final(out)@ == old(out)@ + esc_char(c),
{
    if c == '"' {
        out.push('\\');
        out.push('"');
    } else if c == '\\' {
        out.push('\\');
        out.push('\\');
    } else if c == '\n' {
        out.push('\\');
        out.push('n');
    } else if c == '\r' {
        out.push('\\');
        out.push('r');
    } else if c == '\t' {
        out.push('\\');
        out.push('t');
    } else if (c as u32) < 32 {
        out.push('\\');
        out.push('u');
        out.push('0');
        out.push('0');
        out.push(hex_digit_of((c as u32) / 16));
        out.push(hex_digit_of((c as u32) % 16));
    } else {
        out.push(c);
    }
    proof {
        assert(out@ =~= old(out)@ + esc_char(c));
    }
}

/// Appends a string literal: quote, the characters escaped, quote.
pub fn push_quoted(out: &mut Vec<char>, s: &Vec<char>)
    ensures
        final(out)@ == old(out)@ + quoted(s@),
{
    out.push('"');
    let mut i: usize = 0;
    while i < s.len()
        invariant
            i <= s@.len(),
            out@ =~= old(out)@ + seq!['"'] + esc_chars(s@.take(i as int)),
        decreases s@.len() - i,
    {
        push_escaped(out, s[i]);
        proof {
            assert(s@.take(i + 1).drop_last() =~= s@.take(i as int));
            assert(s@.take(i + 1).last() == s@[i as int]);
        }
        i += 1;
    }
    out.push('"');
    proof {
        assert(s@.take(s@.len() as int) =~= s@);
        assert(out@ =~= old(out)@ + quoted(s@));
    }
}

/// Reads the one JSON value that the text holds. The result is exactly what
/// the grammar assigns to the text: a malformed or over-long text yields
/// nothing.
pub fn json_parse(s: &Vec<char>) -> (r: Option<Json>)
    ensures
        r matches Some(v) ==> json_parse_spec(s@) == Some(jview(v)),
        r is None ==> json_parse_spec(s@) is None,
{
    if s.len() > MAX_JSON_LEN {
        return None;
    }
    let fuel: u64 = 2 * (s.len() as u64) + 4;
    match parse_value(s, 0, fuel) {
        None => None,
        Some((v, j)) => {
            let k = skip_ws(s, j);
            if k == s.len() {
                Some(v)
            } else {
                None
            }
        },
    }
}

} // verus!
