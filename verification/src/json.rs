//! Lexical layer of the generation-chunk wire format: whitespace, JSON
//! strings with escapes, JSON numbers, and skipping over well-formed values
//! whose content the library does not read.
//!
//! Every `spec_*` function is the grammar itself, written over `Seq<char>`
//! and an index; each executable function returns exactly what its spec
//! counterpart denotes.

use vstd::prelude::*;

verus! {

/// Nesting allowed inside a member value that the library skips unread.
pub const SKIP_DEPTH: u32 = 64;

pub open spec fn is_json_ws(c: char) -> bool {
    c == ' ' || c == '\t' || c == '\n' || c == '\r'
}

pub open spec fn is_json_digit(c: char) -> bool {
    '0' <= c && c <= '9'
}

pub open spec fn digit_val(c: char) -> int {
    (c as u32) as int - ('0' as u32) as int
}

/// Whether `c` is JSON whitespace.
fn is_ws_char(c: char) -> (r: bool)
    ensures
        r == is_json_ws(c),
{
    c == ' ' || c == '\t' || c == '\n' || c == '\r'
}

/// Whether `c` is a decimal digit.
fn is_digit_char(c: char) -> (r: bool)
    ensures
        r == is_json_digit(c),
{
    '0' <= c && c <= '9'
}

/// The first index at or after `i` holding no whitespace.
pub open spec fn spec_skip_ws(s: Seq<char>, i: int) -> int
    decreases s.len() - i,
    when 0 <= i <= s.len()
{
    if i < s.len() && is_json_ws(s[i]) {
        spec_skip_ws(s, i + 1)
    } else {
        i
    }
}

pub fn skip_ws(chars: &Vec<char>, i: usize) -> (r: usize)
    requires
        i <= chars.len(),
    ensures
        r == spec_skip_ws(chars@, i as int),
        i <= r <= chars.len(),
{
    let mut k: usize = i;
    while k < chars.len() && is_ws_char(chars[k])
        invariant
            i <= k <= chars.len(),
            spec_skip_ws(chars@, i as int) == spec_skip_ws(chars@, k as int),
        decreases chars.len() - k,
    {
        k = k + 1;
    }
    k
}

/// The first index at or after `i` holding no decimal digit.
pub open spec fn spec_skip_digits(s: Seq<char>, i: int) -> int
    decreases s.len() - i,
    when 0 <= i <= s.len()
{
    if i < s.len() && is_json_digit(s[i]) {
        spec_skip_digits(s, i + 1)
    } else {
        i
    }
}

pub fn skip_digits(chars: &Vec<char>, i: usize) -> (r: usize)
    requires
        i <= chars.len(),
    ensures
        r == spec_skip_digits(chars@, i as int),
        i <= r <= chars.len(),
        i < chars.len() && is_json_digit(chars@[i as int]) ==> i < r,
{
    let mut k: usize = i;
    while k < chars.len() && is_digit_char(chars[k])
        invariant
            i <= k <= chars.len(),
            spec_skip_digits(chars@, i as int) == spec_skip_digits(chars@, k as int),
        decreases chars.len() - k,
    {
        k = k + 1;
    }
    k
}

/// The value of the four hex digits at `i`, when all four are hex digits.
pub open spec fn spec_hex_val(c: char) -> Option<int> {
    if '0' <= c && c <= '9' {
        Some((c as u32) as int - ('0' as u32) as int)
    } else if 'a' <= c && c <= 'f' {
        Some((c as u32) as int - ('a' as u32) as int + 10)
    } else if 'A' <= c && c <= 'F' {
        Some((c as u32) as int - ('A' as u32) as int + 10)
    } else {
        None
    }
}

pub open spec fn spec_hex4(s: Seq<char>, i: int) -> Option<int> {
    if 0 <= i && i + 4 <= s.len() {
        match (spec_hex_val(s[i]), spec_hex_val(s[i + 1]), spec_hex_val(s[i + 2]), spec_hex_val(
            s[i + 3],
        )) {
            (Some(a), Some(b), Some(c), Some(d)) => Some(a * 4096 + b * 256 + c * 16 + d),
            _ => None,
        }
    } else {
        None
    }
}

fn hex_val(c: char) -> (r: Option<u32>)
    ensures
        r matches Some(v) ==> spec_hex_val(c) == Some(v as int),
        r is None ==> spec_hex_val(c) is None,
{
    if '0' <= c && c <= '9' {
        Some(c as u32 - '0' as u32)
    } else if 'a' <= c && c <= 'f' {
        Some(c as u32 - 'a' as u32 + 10)
    } else if 'A' <= c && c <= 'F' {
        Some(c as u32 - 'A' as u32 + 10)
    } else {
        None
    }
}

fn hex4(chars: &Vec<char>, i: usize) -> (r: Option<u32>)
    ensures
        r matches Some(v) ==> spec_hex4(chars@, i as int) == Some(v as int) && v < 0x10000,
        r is None ==> spec_hex4(chars@, i as int) is None,
{
    if !(i < chars.len() && chars.len() - i >= 4) {
        return None;
    }
    let a = hex_val(chars[i]);
    let b = hex_val(chars[i + 1]);
    let c = hex_val(chars[i + 2]);
    let d = hex_val(chars[i + 3]);
    match (a, b, c, d) {
        (Some(a), Some(b), Some(c), Some(d)) => Some(a * 4096 + b * 256 + c * 16 + d),
        _ => None,
    }
}

/// The scalar that a UTF-16 surrogate pair denotes.
pub open spec fn spec_surrogate_scalar(hi: int, lo: int) -> int {
    0x10000 + (hi - 0xD800) * 0x400 + (lo - 0xDC00)
}

/// The characters named by the escaped body of a JSON string, starting just
/// past the opening quote, together with the index just past the closing
/// quote. `acc` carries the characters read so far.
pub open spec fn spec_string_rest(s: Seq<char>, i: int, acc: Seq<char>) -> Option<(Seq<char>, int)>
    decreases s.len() - i,
    when 0 <= i <= s.len()
{
    if i >= s.len() {
        None
    } else {
        let c = s[i];
        if c == '"' {
            Some((acc, i + 1))
        } else if c == '\\' {
            if i + 2 > s.len() {
                None
            } else {
                let e = s[i + 1];
                if e == '"' {
                    spec_string_rest(s, i + 2, acc.push('"'))
                } else if e == '\\' {
                    spec_string_rest(s, i + 2, acc.push('\\'))
                } else if e == '/' {
                    spec_string_rest(s, i + 2, acc.push('/'))
                } else if e == 'b' {
                    spec_string_rest(s, i + 2, acc.push('\u{0008}'))
                } else if e == 'f' {
                    spec_string_rest(s, i + 2, acc.push('\u{000C}'))
                } else if e == 'n' {
                    spec_string_rest(s, i + 2, acc.push('\n'))
                } else if e == 'r' {
                    spec_string_rest(s, i + 2, acc.push('\r'))
                } else if e == 't' {
                    spec_string_rest(s, i + 2, acc.push('\t'))
                } else if e == 'u' {
                    match spec_hex4(s, i + 2) {
                        None => None,
                        Some(v) => {
                            if 0xD800 <= v && v < 0xDC00 {
                                if i + 12 > s.len() {
                                    None
                                } else if s[i + 6] == '\\' && s[i + 7] == 'u' {
                                    match spec_hex4(s, i + 8) {
                                        None => None,
                                        Some(w) => {
                                            if 0xDC00 <= w && w < 0xE000 {
                                                spec_string_rest(
                                                    s,
                                                    i + 12,
                                                    acc.push(
                                                        (spec_surrogate_scalar(v, w) as u32) as char,
                                                    ),
                                                )
                                            } else {
                                                None
                                            }
                                        },
                                    }
                                } else {
                                    None
                                }
                            } else if 0xDC00 <= v && v < 0xE000 {
                                None
                            } else {
                                spec_string_rest(s, i + 6, acc.push((v as u32) as char))
                            }
                        },
                    }
                } else {
                    None
                }
            }
        } else if (c as u32) < 0x20 {
            None
        } else {
            spec_string_rest(s, i + 1, acc.push(c))
        }
    }
}

/// A JSON string starting at `i`: its characters after unescaping, and the
/// index just past the closing quote.
pub open spec fn spec_parse_string(s: Seq<char>, i: int) -> Option<(Seq<char>, int)> {
    if 0 <= i && i < s.len() && s[i] == '"' {
        spec_string_rest(s, i + 1, Seq::empty())
    } else {
        None
    }
}

/// One step of reading a string body at `k`: the closing quote, one
/// (possibly escaped) character, or a malformed rest.
enum StringStep {
    Close,
    Out(char, usize),
    Bad,
}

/// Reads one step of a JSON string body at `k`, whatever characters have
/// come before.
#[verifier::rlimit(50)]
fn string_step(chars: &Vec<char>, k: usize) -> (r: StringStep)
    requires
        k < chars.len(),
    ensures
        r is Close ==> chars@[k as int] == '"' && forall|acc: Seq<char>|
            #[trigger] spec_string_rest(chars@, k as int, acc) == Some((acc, k as int + 1)),
        r matches StringStep::Out(c, k2) ==> k < k2 <= chars.len() && forall|acc: Seq<char>|
            #[trigger] spec_string_rest(chars@, k as int, acc) == spec_string_rest(
                chars@,
                k2 as int,
                acc.push(c),
            ),
        r is Bad ==> forall|acc: Seq<char>|
            #[trigger] spec_string_rest(chars@, k as int, acc) is None,
{
    let c = chars[k];
    if c == '"' {
        StringStep::Close
    } else if c == '\\' {
        if chars.len() - k < 2 {
            return StringStep::Bad;
        }
        let e = chars[k + 1];
        if e == '"' {
            StringStep::Out('"', k + 2)
        } else if e == '\\' {
            StringStep::Out('\\', k + 2)
        } else if e == '/' {
            StringStep::Out('/', k + 2)
        } else if e == 'b' {
            StringStep::Out('\u{0008}', k + 2)
        } else if e == 'f' {
            StringStep::Out('\u{000C}', k + 2)
        } else if e == 'n' {
            StringStep::Out('\n', k + 2)
        } else if e == 'r' {
            StringStep::Out('\r', k + 2)
        } else if e == 't' {
            StringStep::Out('\t', k + 2)
        } else if e == 'u' {
            match hex4(chars, k + 2) {
                None => StringStep::Bad,
                Some(v) => {
                    if 0xD800 <= v && v < 0xDC00 {
                        if chars.len() - k < 12 {
                            return StringStep::Bad;
                        }
                        if !(chars[k + 6] == '\\' && chars[k + 7] == 'u') {
                            return StringStep::Bad;
                        }
                        match hex4(chars, k + 8) {
                            None => StringStep::Bad,
                            Some(w) => {
                                if !(0xDC00 <= w && w < 0xE000) {
                                    return StringStep::Bad;
                                }
                                let scalar: u32 = 0x10000 + (v - 0xD800) * 0x400 + (w - 0xDC00);
                                match char::from_u32(scalar) {
                                    Some(g) => StringStep::Out(g, k + 12),
                                    None => {
                                        proof {
                                            assert(false);
                                        }
                                        StringStep::Bad
                                    },
                                }
                            },
                        }
                    } else if 0xDC00 <= v && v < 0xE000 {
                        StringStep::Bad
                    } else {
                        match char::from_u32(v) {
                            Some(g) => StringStep::Out(g, k + 6),
                            None => {
                                proof {
                                    assert(false);
                                }
                                StringStep::Bad
                            },
                        }
                    }
                },
            }
        } else {
            StringStep::Bad
        }
    } else if (c as u32) < 0x20 {
        StringStep::Bad
    } else {
        StringStep::Out(c, k + 1)
    }
}

/// Reads a JSON string starting at `i`, returning its unescaped characters
/// and the index just past the closing quote.
pub fn parse_string(chars: &Vec<char>, i: usize) -> (r: Option<(Vec<char>, usize)>)
    ensures
        r matches Some(p) ==> spec_parse_string(chars@, i as int) == Some((p.0@, p.1 as int)) && i
            < p.1 <= chars.len(),
        r is None ==> spec_parse_string(chars@, i as int) is None,
{
    if !(i < chars.len() && chars[i] == '"') {
        return None;
    }
    let mut acc: Vec<char> = Vec::new();
    let mut k: usize = i + 1;
    loop
        invariant
            i + 1 <= k <= chars.len(),
            chars@[i as int] == '"',
            spec_string_rest(chars@, i as int + 1, Seq::empty()) == spec_string_rest(
                chars@,
                k as int,
                acc@,
            ),
        decreases chars.len() - k,
    {
        if k >= chars.len() {
            return None;
        }
        match string_step(chars, k) {
            StringStep::Close => {
                return Some((acc, k + 1));
            },
            StringStep::Out(c, k2) => {
                acc.push(c);
                k = k2;
            },
            StringStep::Bad => {
                return None;
            },
        }
    }
}

/// The value of an unsigned decimal run starting at `i` with the digits of
/// `acc` already read, and the index of the first non-digit.
pub open spec fn spec_digits(s: Seq<char>, i: int, acc: nat) -> (nat, int)
    decreases s.len() - i,
    when 0 <= i <= s.len()
{
    if i < s.len() && is_json_digit(s[i]) {
        spec_digits(s, i + 1, (acc * 10 + digit_val(s[i])) as nat)
    } else {
        (acc, i)
    }
}

pub proof fn lemma_digits_grow(s: Seq<char>, i: int, acc: nat)
    requires
        0 <= i <= s.len(),
    ensures
        spec_digits(s, i, acc).0 >= acc,
        i <= spec_digits(s, i, acc).1 <= s.len(),
    decreases s.len() - i,
{
    if i < s.len() && is_json_digit(s[i]) {
        lemma_digits_grow(s, i + 1, (acc * 10 + digit_val(s[i])) as nat);
    }
}

/// A non-negative JSON integer that fits in a `u64`: its value and the index
/// of the first character past its digits. A leading zero ends the number at
/// once, as the JSON grammar demands.
pub open spec fn spec_parse_u64(s: Seq<char>, i: int) -> Option<(u64, int)> {
    if !(0 <= i && i < s.len() && is_json_digit(s[i])) {
        None
    } else if s[i] == '0' {
        Some((0u64, i + 1))
    } else {
        let r = spec_digits(s, i, 0);
        if r.0 > u64::MAX {
            None
        } else {
            Some((r.0 as u64, r.1))
        }
    }
}

/// Reads a non-negative decimal `u64` starting at `i`.
pub fn parse_u64_lit(chars: &Vec<char>, i: usize) -> (r: Option<(u64, usize)>)
    ensures
        r matches Some(p) ==> spec_parse_u64(chars@, i as int) == Some((p.0, p.1 as int)) && i < p.1
            <= chars.len(),
        r is None ==> spec_parse_u64(chars@, i as int) is None,
{
    if !(i < chars.len() && '0' <= chars[i] && chars[i] <= '9') {
        return None;
    }
    if chars[i] == '0' {
        return Some((0, i + 1));
    }
    let mut acc: u64 = 0;
    let mut k: usize = i;
    while k < chars.len() && is_digit_char(chars[k])
        invariant
            i <= k <= chars.len(),
            i < chars.len(),
            is_json_digit(chars@[i as int]),
            chars@[i as int] != '0',
            spec_digits(chars@, i as int, 0) == spec_digits(chars@, k as int, acc as nat),
        decreases chars.len() - k,
    {
        let d: u64 = (chars[k] as u32 - '0' as u32) as u64;
        if acc > (u64::MAX - d) / 10 {
            proof {
                let s = chars@;
                let ki = k as int;
                assert(digit_val(s[ki]) == d as int);
                assert(acc * 10 + d > u64::MAX) by {
                    let q = (u64::MAX - d) / 10;
                    assert(u64::MAX - d == q * 10 + (u64::MAX - d) % 10);
                    assert(acc >= q + 1);
                    assert(acc * 10 >= (q + 1) * 10) by (nonlinear_arith)
                        requires
                            acc >= q + 1,
                    ;
                };
                assert(spec_digits(s, ki, acc as nat) == spec_digits(
                    s,
                    ki + 1,
                    (acc * 10 + digit_val(s[ki])) as nat,
                ));
                lemma_digits_grow(s, ki + 1, (acc * 10 + digit_val(s[ki])) as nat);
                assert(spec_digits(s, ki + 1, (acc * 10 + digit_val(s[ki])) as nat).0 >= acc * 10
                    + d);
                assert(spec_digits(s, i as int, 0).0 > u64::MAX);
                assert(is_json_digit(s[i as int]));
                assert(s[i as int] != '0');
                assert(spec_parse_u64(s, i as int) is None);
            }
            return None;
        }
        acc = acc * 10 + d;
        k = k + 1;
    }
    proof {
        lemma_digits_grow(chars@, k as int, acc as nat);
    }
    Some((acc, k))
}

/// The index just past a full JSON number starting at `i`.
pub open spec fn spec_skip_number(s: Seq<char>, i: int) -> Option<int> {
    if !(0 <= i <= s.len()) {
        None
    } else {
        let i1 = if i < s.len() && s[i] == '-' {
            i + 1
        } else {
            i
        };
        if !(i1 < s.len() && is_json_digit(s[i1])) {
            None
        } else {
            let i2 = if s[i1] == '0' {
                i1 + 1
            } else {
                spec_skip_digits(s, i1)
            };
            let after_frac = if i2 < s.len() && s[i2] == '.' {
                if i2 + 1 < s.len() && is_json_digit(s[i2 + 1]) {
                    Some(spec_skip_digits(s, i2 + 1))
                } else {
                    None
                }
            } else {
                Some(i2)
            };
            match after_frac {
                None => None,
                Some(i3) => {
                    if i3 < s.len() && (s[i3] == 'e' || s[i3] == 'E') {
                        let i4 = if i3 + 1 < s.len() && (s[i3 + 1] == '+' || s[i3 + 1] == '-') {
                            i3 + 2
                        } else {
                            i3 + 1
                        };
                        if i4 < s.len() && is_json_digit(s[i4]) {
                            Some(spec_skip_digits(s, i4))
                        } else {
                            None
                        }
                    } else {
                        Some(i3)
                    }
                },
            }
        }
    }
}

/// Steps past a full JSON number starting at `i`.
#[verifier::rlimit(50)]
fn skip_number(chars: &Vec<char>, i: usize) -> (r: Option<usize>)
    requires
        i <= chars.len(),
    ensures
        r matches Some(j) ==> spec_skip_number(chars@, i as int) == Some(j as int) && i < j
            <= chars.len(),
        r is None ==> spec_skip_number(chars@, i as int) is None,
{
    let i1: usize = if i < chars.len() && chars[i] == '-' {
        i + 1
    } else {
        i
    };
    if !(i1 < chars.len() && '0' <= chars[i1] && chars[i1] <= '9') {
        return None;
    }
    let i2: usize = if chars[i1] == '0' {
        i1 + 1
    } else {
        skip_digits(chars, i1)
    };
    let i3: usize;
    if i2 < chars.len() && chars[i2] == '.' {
        if i2 + 1 < chars.len() && '0' <= chars[i2 + 1] && chars[i2 + 1] <= '9' {
            i3 = skip_digits(chars, i2 + 1);
        } else {
            return None;
        }
    } else {
        i3 = i2;
    }
    if i3 < chars.len() && (chars[i3] == 'e' || chars[i3] == 'E') {
        let i4: usize = if i3 + 1 < chars.len() && (chars[i3 + 1] == '+' || chars[i3 + 1] == '-') {
            i3 + 2
        } else {
            i3 + 1
        };
        if i4 < chars.len() && '0' <= chars[i4] && chars[i4] <= '9' {
            Some(skip_digits(chars, i4))
        } else {
            None
        }
    } else {
        Some(i3)
    }
}

/// Whether the four characters of `lit` stand at `i` (used for `true`,
/// `false` and `null` literals via explicit characters).
pub open spec fn spec_lit_at(s: Seq<char>, i: int, lit: Seq<char>) -> bool {
    &&& 0 <= i
    &&& i + lit.len() <= s.len()
    &&& forall|t: int| 0 <= t < lit.len() ==> s[i + t] == lit[t]
}

/// The index just past one well-formed JSON value starting at `i`, reading
/// none of its content; nesting is bounded by `depth`.
pub open spec fn spec_skip_value(s: Seq<char>, i: int, depth: nat) -> Option<int>
    decreases depth, s.len() - i, 0int,
    when 0 <= i <= s.len()
{
    if i >= s.len() {
        None
    } else {
        let c = s[i];
        if c == '"' {
            match spec_parse_string(s, i) {
                None => None,
                Some(p) => Some(p.1),
            }
        } else if c == '-' || is_json_digit(c) {
            spec_skip_number(s, i)
        } else if c == 't' {
            if i + 4 <= s.len() && s[i + 1] == 'r' && s[i + 2] == 'u' && s[i + 3] == 'e' {
                Some(i + 4)
            } else {
                None
            }
        } else if c == 'f' {
            if i + 5 <= s.len() && s[i + 1] == 'a' && s[i + 2] == 'l' && s[i + 3] == 's' && s[i + 4]
                == 'e' {
                Some(i + 5)
            } else {
                None
            }
        } else if c == 'n' {
            if i + 4 <= s.len() && s[i + 1] == 'u' && s[i + 2] == 'l' && s[i + 3] == 'l' {
                Some(i + 4)
            } else {
                None
            }
        } else if c == '[' {
            if depth == 0 {
                None
            } else {
                let j = spec_skip_ws(s, i + 1);
                if i < j && j <= s.len() {
                    spec_skip_items(s, j, (depth - 1) as nat)
                } else {
                    None
                }
            }
        } else if c == '{' {
            if depth == 0 {
                None
            } else {
                let j = spec_skip_ws(s, i + 1);
                if i < j && j <= s.len() {
                    spec_skip_members(s, j, (depth - 1) as nat)
                } else {
                    None
                }
            }
        } else {
            None
        }
    }
}

/// Steps past the items of an array, `i` standing at an item or at `]`.
pub open spec fn spec_skip_items(s: Seq<char>, i: int, depth: nat) -> Option<int>
    decreases depth, s.len() - i, 1int,
    when 0 <= i <= s.len()
{
    if i >= s.len() {
        None
    } else if s[i] == ']' {
        Some(i + 1)
    } else {
        match spec_skip_value(s, i, depth) {
            None => None,
            Some(j) => {
                if !(i < j && j <= s.len()) {
                    None
                } else {
                    let k = spec_skip_ws(s, j);
                    if k < s.len() && s[k] == ',' {
                        let m = spec_skip_ws(s, k + 1);
                        if i < m && m < s.len() && s[m] != ']' {
                            spec_skip_items(s, m, depth)
                        } else {
                            None
                        }
                    } else if k < s.len() && s[k] == ']' {
                        Some(k + 1)
                    } else {
                        None
                    }
                }
            },
        }
    }
}

/// Steps past the members of an object, `i` standing at a key or at `}`.
pub open spec fn spec_skip_members(s: Seq<char>, i: int, depth: nat) -> Option<int>
    decreases depth, s.len() - i, 1int,
    when 0 <= i <= s.len()
{
    if i >= s.len() {
        None
    } else if s[i] == '}' {
        Some(i + 1)
    } else {
        match spec_parse_string(s, i) {
            None => None,
            Some(key) => {
                if !(i < key.1 && key.1 <= s.len()) {
                    None
                } else {
                    let k = spec_skip_ws(s, key.1);
                    if !(k < s.len() && s[k] == ':') {
                        None
                    } else {
                        let m = spec_skip_ws(s, k + 1);
                        if !(i < m && m <= s.len()) {
                            None
                        } else {
                            match spec_skip_value(s, m, depth) {
                                None => None,
                                Some(p) => {
                                    if !(i < p && p <= s.len()) {
                                        None
                                    } else {
                                        let q = spec_skip_ws(s, p);
                                        if q < s.len() && s[q] == ',' {
                                            let r = spec_skip_ws(s, q + 1);
                                            if i < r && r < s.len() && s[r] != '}' {
                                                spec_skip_members(s, r, depth)
                                            } else {
                                                None
                                            }
                                        } else if q < s.len() && s[q] == '}' {
                                            Some(q + 1)
                                        } else {
                                            None
                                        }
                                    }
                                },
                            }
                        }
                    }
                }
            },
        }
    }
}

/// Steps past one well-formed JSON value starting at `i`.
pub fn skip_value(chars: &Vec<char>, i: usize, depth: u32) -> (r: Option<usize>)
    requires
        i <= chars.len(),
    ensures
        r matches Some(j) ==> spec_skip_value(chars@, i as int, depth as nat) == Some(j as int) && i
            < j <= chars.len(),
        r is None ==> spec_skip_value(chars@, i as int, depth as nat) is None,
    decreases depth, chars.len() - i, 0int,
{
    if i >= chars.len() {
        return None;
    }
    let c = chars[i];
    if c == '"' {
        match parse_string(chars, i) {
            None => None,
            Some(p) => Some(p.1),
        }
    } else if c == '-' || ('0' <= c && c <= '9') {
        skip_number(chars, i)
    } else if c == 't' {
        if chars.len() - i >= 4 && chars[i + 1] == 'r' && chars[i + 2] == 'u' && chars[i + 3]
            == 'e' {
            Some(i + 4)
        } else {
            None
        }
    } else if c == 'f' {
        if chars.len() - i >= 5 && chars[i + 1] == 'a' && chars[i + 2] == 'l' && chars[i + 3] == 's'
            && chars[i + 4] == 'e' {
            Some(i + 5)
        } else {
            None
        }
    } else if c == 'n' {
        if chars.len() - i >= 4 && chars[i + 1] == 'u' && chars[i + 2] == 'l' && chars[i + 3]
            == 'l' {
            Some(i + 4)
        } else {
            None
        }
    } else if c == '[' {
        if depth == 0 {
            None
        } else {
            let j = skip_ws(chars, i + 1);
            skip_items(chars, j, depth - 1)
        }
    } else if c == '{' {
        if depth == 0 {
            None
        } else {
            let j = skip_ws(chars, i + 1);
            skip_members(chars, j, depth - 1)
        }
    } else {
        None
    }
}

/// Steps past the items of an array, `i` standing at an item or at `]`.
fn skip_items(chars: &Vec<char>, i: usize, depth: u32) -> (r: Option<usize>)
    requires
        i <= chars.len(),
    ensures
        r matches Some(j) ==> spec_skip_items(chars@, i as int, depth as nat) == Some(j as int)
            && i < j <= chars.len(),
        r is None ==> spec_skip_items(chars@, i as int, depth as nat) is None,
    decreases depth, chars.len() - i, 1int,
{
    if i >= chars.len() {
        return None;
    }
    if chars[i] == ']' {
        return Some(i + 1);
    }
    match skip_value(chars, i, depth) {
        None => None,
        Some(j) => {
            let k = skip_ws(chars, j);
            if k < chars.len() && chars[k] == ',' {
                let m = skip_ws(chars, k + 1);
                if m < chars.len() && chars[m] != ']' {
                    skip_items(chars, m, depth)
                } else {
                    None
                }
            } else if k < chars.len() && chars[k] == ']' {
                Some(k + 1)
            } else {
                None
            }
        },
    }
}

/// Steps past the members of an object, `i` standing at a key or at `}`.
fn skip_members(chars: &Vec<char>, i: usize, depth: u32) -> (r: Option<usize>)
    requires
        i <= chars.len(),
    ensures
        r matches Some(j) ==> spec_skip_members(chars@, i as int, depth as nat) == Some(j as int)
            && i < j <= chars.len(),
        r is None ==> spec_skip_members(chars@, i as int, depth as nat) is None,
    decreases depth, chars.len() - i, 1int,
{
    if i >= chars.len() {
        return None;
    }
    if chars[i] == '}' {
        return Some(i + 1);
    }
    match parse_string(chars, i) {
        None => None,
        Some(key) => {
            let k = skip_ws(chars, key.1);
            if !(k < chars.len() && chars[k] == ':') {
                return None;
            }
            let m = skip_ws(chars, k + 1);
            match skip_value(chars, m, depth) {
                None => None,
                Some(p) => {
                    let q = skip_ws(chars, p);
                    if q < chars.len() && chars[q] == ',' {
                        let r = skip_ws(chars, q + 1);
                        if r < chars.len() && chars[r] != '}' {
                            skip_members(chars, r, depth)
                        } else {
                            None
                        }
                    } else if q < chars.len() && chars[q] == '}' {
                        Some(q + 1)
                    } else {
                        None
                    }
                },
            }
        },
    }
}

} // verus!
