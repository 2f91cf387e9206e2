//! The generation-chunk grammar: one JSON object of the documented shape
//! `{id, object, created, model, choices: [{index, delta: {role?, content},
//! logprobs?, finish_reason?}]}`, with unknown members skipped, member order
//! free, and a duplicate known member refused.
//!
//! `spec_parse_chunk` is the grammar; `parse_chunk` returns exactly what it
//! denotes.

use vstd::prelude::*;

use crate::chat::{MessageChunk, MessageChunkView, TextChoice, TextChoiceView, TextDelta,
    TextDeltaView};
use crate::json::{parse_string, parse_u64_lit, skip_value, skip_ws, spec_parse_string,
    spec_parse_u64, spec_skip_value, spec_skip_ws, SKIP_DEPTH};
use crate::unicode::{chars_eq_str, chars_to_string};

verus! {

/// A string value that may also be `null`: the parsed characters (or `None`
/// for `null`) and the index just past the value.
pub open spec fn spec_parse_opt_string(s: Seq<char>, i: int) -> Option<(Option<Seq<char>>, int)> {
    if 0 <= i && i + 4 <= s.len() && s[i] == 'n' && s[i + 1] == 'u' && s[i + 2] == 'l' && s[i + 3]
        == 'l' {
        Some((None, i + 4))
    } else {
        match spec_parse_string(s, i) {
            None => None,
            Some(p) => Some((Some(p.0), p.1)),
        }
    }
}

/// Reads a string value that may also be `null`.
fn parse_opt_string(chars: &Vec<char>, i: usize) -> (r: Option<(Option<Vec<char>>, usize)>)
    ensures
        r matches Some(p) ==> spec_parse_opt_string(chars@, i as int) == Some(
            (p.0.deep_view(), p.1 as int),
        ) && i < p.1 <= chars.len(),
        r is None ==> spec_parse_opt_string(chars@, i as int) is None,
{
    if i < chars.len() && chars.len() - i >= 4 && chars[i] == 'n' && chars[i + 1] == 'u' && chars[i
        + 2] == 'l' && chars[i + 3] == 'l' {
        Some((None, i + 4))
    } else {
        match parse_string(chars, i) {
            None => None,
            Some(p) => Some((Some(p.0), p.1)),
        }
    }
}

/// What has been read so far of a delta object.
#[verifier::ext_equal]
pub struct DeltaAccView {
    pub role: Option<Option<Seq<char>>>,
    pub content: Option<Seq<char>>,
}

struct DeltaAcc {
    role: Option<Option<Vec<char>>>,
    content: Option<Vec<char>>,
}

impl View for DeltaAcc {
    type V = DeltaAccView;

    closed spec fn view(&self) -> DeltaAccView {
        DeltaAccView { role: self.role.deep_view(), content: self.content.deep_view() }
    }
}

/// One member value of a delta object, dispatched on the member's key.
pub open spec fn spec_delta_value(s: Seq<char>, m: int, key: Seq<char>, acc: DeltaAccView) -> Option<
    (DeltaAccView, int),
> {
    if key == "role"@ {
        if acc.role is Some {
            None
        } else {
            match spec_parse_opt_string(s, m) {
                None => None,
                Some(p) => Some(((DeltaAccView { role: Some(p.0), ..acc }), p.1)),
            }
        }
    } else if key == "content"@ {
        if acc.content is Some {
            None
        } else {
            match spec_parse_string(s, m) {
                None => None,
                Some(p) => Some(((DeltaAccView { content: Some(p.0), ..acc }), p.1)),
            }
        }
    } else {
        match spec_skip_value(s, m, SKIP_DEPTH as nat) {
            None => None,
            Some(p) => Some((acc, p)),
        }
    }
}

/// The members of a delta object, `i` standing at a key or at `}`.
pub open spec fn spec_delta_members(s: Seq<char>, i: int, acc: DeltaAccView) -> Option<
    (DeltaAccView, int),
>
    decreases s.len() - i,
    when 0 <= i <= s.len()
{
    if i >= s.len() {
        None
    } else if s[i] == '}' {
        Some((acc, i + 1))
    } else {
        match spec_parse_string(s, i) {
            None => None,
            Some(key) => {
                if !(i < key.1 && key.1 <= s.len()) {
                    None
                } else {
                    let k = spec_skip_ws(s, key.1);
                    if !(k < s.len() && s[k] == ':') {
                        None
                    } else {
                        let m = spec_skip_ws(s, k + 1);
                        if !(i < m && m <= s.len()) {
                            None
                        } else {
                            match spec_delta_value(s, m, key.0, acc) {
                                None => None,
                                Some(pv) => {
                                    if !(i < pv.1 && pv.1 <= s.len()) {
                                        None
                                    } else {
                                        let q = spec_skip_ws(s, pv.1);
                                        if q < s.len() && s[q] == ',' {
                                            let r = spec_skip_ws(s, q + 1);
                                            if i < r && r < s.len() && s[r] != '}' {
                                                spec_delta_members(s, r, pv.0)
                                            } else {
                                                None
                                            }
                                        } else if q < s.len() && s[q] == '}' {
                                            Some((pv.0, q + 1))
                                        } else {
                                            None
                                        }
                                    }
                                },
                            }
                        }
                    }
                }
            },
        }
    }
}

/// Reads the members of a delta object.
#[verifier::rlimit(100)]
fn delta_members(chars: &Vec<char>, i: usize, acc: DeltaAcc) -> (r: Option<(DeltaAcc, usize)>)
    requires
        i <= chars.len(),
    ensures
        r matches Some(p) ==> spec_delta_members(chars@, i as int, acc@) == Some(
            (p.0@, p.1 as int),
        ) && i < p.1 <= chars.len(),
        r is None ==> spec_delta_members(chars@, i as int, acc@) is None,
    decreases chars.len() - i,
{
    if i >= chars.len() {
        return None;
    }
    if chars[i] == '}' {
        return Some((acc, i + 1));
    }
    match parse_string(chars, i) {
        None => None,
        Some((key, j)) => {
            let k = skip_ws(chars, j);
            if !(k < chars.len() && chars[k] == ':') {
                return None;
            }
            let m = skip_ws(chars, k + 1);
            let stepped: Option<(DeltaAcc, usize)> = if chars_eq_str(&key, "role") {
                if acc.role.is_some() {
                    None
                } else {
                    match parse_opt_string(chars, m) {
                        None => None,
                        Some((v, p)) => Some((DeltaAcc { role: Some(v), content: acc.content }, p)),
                    }
                }
            } else if chars_eq_str(&key, "content") {
                if acc.content.is_some() {
                    None
                } else {
                    match parse_string(chars, m) {
                        None => None,
                        Some((v, p)) => Some((DeltaAcc { role: acc.role, content: Some(v) }, p)),
                    }
                }
            } else {
                match skip_value(chars, m, SKIP_DEPTH) {
                    None => None,
                    Some(p) => Some((acc, p)),
                }
            };
            match stepped {
                None => {
                    proof {
                        assert(spec_delta_value(chars@, m as int, key@, acc@) is None);
                    }
                    None
                },
                Some((acc2, p)) => {
                    proof {
                        assert(spec_delta_value(chars@, m as int, key@, acc@) matches Some(pv)
                            && pv.0 =~= acc2@ && pv.1 == p as int);
                    }
                    let q = skip_ws(chars, p);
                    if q < chars.len() && chars[q] == ',' {
                        let r = skip_ws(chars, q + 1);
                        if r < chars.len() && chars[r] != '}' {
                            delta_members(chars, r, acc2)
                        } else {
                            None
                        }
                    } else if q < chars.len() && chars[q] == '}' {
                        Some((acc2, q + 1))
                    } else {
                        None
                    }
                },
            }
        },
    }
}

/// A whole delta object starting at `i`: role (when given and non-null) and
/// the required content.
pub open spec fn spec_parse_delta(s: Seq<char>, i: int) -> Option<(TextDeltaView, int)> {
    if !(0 <= i && i < s.len() && s[i] == '{') {
        None
    } else {
        let j = spec_skip_ws(s, i + 1);
        if !(i < j && j <= s.len()) {
            None
        } else {
            match spec_delta_members(s, j, (DeltaAccView { role: None, content: None })) {
                None => None,
                Some(p) => match p.0.content {
                    None => None,
                    Some(content) => Some(
                        (
                            TextDeltaView {
                                role: (match p.0.role {
                                    None => None,
                                    Some(r) => r,
                                }),
                                content,
                            },
                            p.1,
                        ),
                    ),
                },
            }
        }
    }
}

/// Reads a whole delta object starting at `i`.
fn parse_delta(chars: &Vec<char>, i: usize) -> (r: Option<(TextDelta, usize)>)
    ensures
        r matches Some(p) ==> spec_parse_delta(chars@, i as int) == Some((p.0@, p.1 as int)) && i
            < p.1 <= chars.len(),
        r is None ==> spec_parse_delta(chars@, i as int) is None,
{
    if !(i < chars.len() && chars[i] == '{') {
        return None;
    }
    let j = skip_ws(chars, i + 1);
    match delta_members(chars, j, DeltaAcc { role: None, content: None }) {
        None => None,
        Some((acc, p)) => match acc.content {
            None => None,
            Some(content) => {
                let role: Option<String> = match acc.role {
                    Some(Some(rv)) => Some(chars_to_string(&rv)),
                    _ => None,
                };
                let delta = TextDelta { role, content: chars_to_string(&content) };
                Some((delta, p))
            },
        },
    }
}

/// What has been read so far of a choice object.
#[verifier::ext_equal]
pub struct ChoiceAccView {
    pub index: Option<u64>,
    pub delta: Option<TextDeltaView>,
    pub logprobs: Option<Option<Seq<char>>>,
    pub finish_reason: Option<Option<Seq<char>>>,
}

struct ChoiceAcc {
    index: Option<u64>,
    delta: Option<TextDelta>,
    logprobs: Option<Option<Vec<char>>>,
    finish_reason: Option<Option<Vec<char>>>,
}

impl View for ChoiceAcc {
    type V = ChoiceAccView;

    closed spec fn view(&self) -> ChoiceAccView {
        ChoiceAccView {
            index: self.index,
            delta: (match self.delta {
                Some(d) => Some(d@),
                None => None,
            }),
            logprobs: self.logprobs.deep_view(),
            finish_reason: self.finish_reason.deep_view(),
        }
    }
}

/// One member value of a choice object, dispatched on the member's key.
pub open spec fn spec_choice_value(
    s: Seq<char>,
    m: int,
    key: Seq<char>,
    acc: ChoiceAccView,
) -> Option<(ChoiceAccView, int)> {
    if key == "index"@ {
        if acc.index is Some {
            None
        } else {
            match spec_parse_u64(s, m) {
                None => None,
                Some(p) => Some(((ChoiceAccView { index: Some(p.0), ..acc }), p.1)),
            }
        }
    } else if key == "delta"@ {
        if acc.delta is Some {
            None
        } else {
            match spec_parse_delta(s, m) {
                None => None,
                Some(p) => Some(((ChoiceAccView { delta: Some(p.0), ..acc }), p.1)),
            }
        }
    } else if key == "logprobs"@ {
        if acc.logprobs is Some {
            None
        } else {
            match spec_parse_opt_string(s, m) {
                None => None,
                Some(p) => Some(((ChoiceAccView { logprobs: Some(p.0), ..acc }), p.1)),
            }
        }
    } else if key == "finish_reason"@ {
        if acc.finish_reason is Some {
            None
        } else {
            match spec_parse_opt_string(s, m) {
                None => None,
                Some(p) => Some(((ChoiceAccView { finish_reason: Some(p.0), ..acc }), p.1)),
            }
        }
    } else {
        match spec_skip_value(s, m, SKIP_DEPTH as nat) {
            None => None,
            Some(p) => Some((acc, p)),
        }
    }
}

/// The members of a choice object, `i` standing at a key or at `}`.
pub open spec fn spec_choice_members(s: Seq<char>, i: int, acc: ChoiceAccView) -> Option<
    (ChoiceAccView, int),
>
    decreases s.len() - i,
    when 0 <= i <= s.len()
{
    if i >= s.len() {
        None
    } else if s[i] == '}' {
        Some((acc, i + 1))
    } else {
        match spec_parse_string(s, i) {
            None => None,
            Some(key) => {
                if !(i < key.1 && key.1 <= s.len()) {
                    None
                } else {
                    let k = spec_skip_ws(s, key.1);
                    if !(k < s.len() && s[k] == ':') {
                        None
                    } else {
                        let m = spec_skip_ws(s, k + 1);
                        if !(i < m && m <= s.len()) {
                            None
                        } else {
                            match spec_choice_value(s, m, key.0, acc) {
                                None => None,
                                Some(pv) => {
                                    if !(i < pv.1 && pv.1 <= s.len()) {
                                        None
                                    } else {
                                        let q = spec_skip_ws(s, pv.1);
                                        if q < s.len() && s[q] == ',' {
                                            let r = spec_skip_ws(s, q + 1);
                                            if i < r && r < s.len() && s[r] != '}' {
                                                spec_choice_members(s, r, pv.0)
                                            } else {
                                                None
                                            }
                                        } else if q < s.len() && s[q] == '}' {
                                            Some((pv.0, q + 1))
                                        } else {
                                            None
                                        }
                                    }
                                },
                            }
                        }
                    }
                }
            },
        }
    }
}

/// Reads the members of a choice object.
#[verifier::rlimit(100)]
fn choice_members(chars: &Vec<char>, i: usize, acc: ChoiceAcc) -> (r: Option<(ChoiceAcc, usize)>)
    requires
        i <= chars.len(),
    ensures
        r matches Some(p) ==> spec_choice_members(chars@, i as int, acc@) == Some(
            (p.0@, p.1 as int),
        ) && i < p.1 <= chars.len(),
        r is None ==> spec_choice_members(chars@, i as int, acc@) is None,
    decreases chars.len() - i,
{
    if i >= chars.len() {
        return None;
    }
    if chars[i] == '}' {
        return Some((acc, i + 1));
    }
    match parse_string(chars, i) {
        None => None,
        Some((key, j)) => {
            let k = skip_ws(chars, j);
            if !(k < chars.len() && chars[k] == ':') {
                return None;
            }
            let m = skip_ws(chars, k + 1);
            let stepped: Option<(ChoiceAcc, usize)> = if chars_eq_str(&key, "index") {
                if acc.index.is_some() {
                    None
                } else {
                    match parse_u64_lit(chars, m) {
                        None => None,
                        Some((v, p)) => Some(
                            (
                                ChoiceAcc {
                                    index: Some(v),
                                    delta: acc.delta,
                                    logprobs: acc.logprobs,
                                    finish_reason: acc.finish_reason,
                                },
                                p,
                            ),
                        ),
                    }
                }
            } else if chars_eq_str(&key, "delta") {
                if acc.delta.is_some() {
                    None
                } else {
                    match parse_delta(chars, m) {
                        None => None,
                        Some((v, p)) => Some(
                            (
                                ChoiceAcc {
                                    index: acc.index,
                                    delta: Some(v),
                                    logprobs: acc.logprobs,
                                    finish_reason: acc.finish_reason,
                                },
                                p,
                            ),
                        ),
                    }
                }
            } else if chars_eq_str(&key, "logprobs") {
                if acc.logprobs.is_some() {
                    None
                } else {
                    match parse_opt_string(chars, m) {
                        None => None,
                        Some((v, p)) => Some(
                            (
                                ChoiceAcc {
                                    index: acc.index,
                                    delta: acc.delta,
                                    logprobs: Some(v),
                                    finish_reason: acc.finish_reason,
                                },
                                p,
                            ),
                        ),
                    }
                }
            } else if chars_eq_str(&key, "finish_reason") {
                if acc.finish_reason.is_some() {
                    None
                } else {
                    match parse_opt_string(chars, m) {
                        None => None,
                        Some((v, p)) => Some(
                            (
                                ChoiceAcc {
                                    index: acc.index,
                                    delta: acc.delta,
                                    logprobs: acc.logprobs,
                                    finish_reason: Some(v),
                                },
                                p,
                            ),
                        ),
                    }
                }
            } else {
                match skip_value(chars, m, SKIP_DEPTH) {
                    None => None,
                    Some(p) => Some((acc, p)),
                }
            };
            match stepped {
                None => {
                    proof {
                        assert(spec_choice_value(chars@, m as int, key@, acc@) is None);
                    }
                    None
                },
                Some((acc2, p)) => {
                    proof {
                        assert(spec_choice_value(chars@, m as int, key@, acc@) matches Some(pv)
                            && pv.0 =~= acc2@ && pv.1 == p as int);
                    }
                    let q = skip_ws(chars, p);
                    if q < chars.len() && chars[q] == ',' {
                        let r = skip_ws(chars, q + 1);
                        if r < chars.len() && chars[r] != '}' {
                            choice_members(chars, r, acc2)
                        } else {
                            None
                        }
                    } else if q < chars.len() && chars[q] == '}' {
                        Some((acc2, q + 1))
                    } else {
                        None
                    }
                },
            }
        },
    }
}

/// A whole choice object starting at `i`: the required index and delta, and
/// the optional logprobs and finish reason.
pub open spec fn spec_parse_choice(s: Seq<char>, i: int) -> Option<(TextChoiceView, int)> {
    if !(0 <= i && i < s.len() && s[i] == '{') {
        None
    } else {
        let j = spec_skip_ws(s, i + 1);
        if !(i < j && j <= s.len()) {
            None
        } else {
            let empty = ChoiceAccView { index: None, delta: None, logprobs: None, finish_reason: None };
            match spec_choice_members(s, j, empty) {
                None => None,
                Some(p) => match (p.0.index, p.0.delta) {
                    (Some(index), Some(delta)) => Some(
                        (
                            TextChoiceView {
                                index,
                                delta,
                                logprobs: (match p.0.logprobs {
                                    None => None,
                                    Some(l) => l,
                                }),
                                finish_reason: (match p.0.finish_reason {
                                    None => None,
                                    Some(f) => f,
                                }),
                            },
                            p.1,
                        ),
                    ),
                    _ => None,
                },
            }
        }
    }
}

/// Reads a whole choice object starting at `i`.
fn parse_choice(chars: &Vec<char>, i: usize) -> (r: Option<(TextChoice, usize)>)
    ensures
        r matches Some(p) ==> spec_parse_choice(chars@, i as int) == Some((p.0@, p.1 as int)) && i
            < p.1 <= chars.len(),
        r is None ==> spec_parse_choice(chars@, i as int) is None,
{
    if !(i < chars.len() && chars[i] == '{') {
        return None;
    }
    let j = skip_ws(chars, i + 1);
    let empty = ChoiceAcc { index: None, delta: None, logprobs: None, finish_reason: None };
    match choice_members(chars, j, empty) {
        None => None,
        Some((acc, p)) => match (acc.index, acc.delta) {
            (Some(index), Some(delta)) => {
                let logprobs: Option<String> = match acc.logprobs {
                    Some(Some(lv)) => Some(chars_to_string(&lv)),
                    _ => None,
                };
                let finish_reason: Option<String> = match acc.finish_reason {
                    Some(Some(fv)) => Some(chars_to_string(&fv)),
                    _ => None,
                };
                Some((TextChoice { index, delta, logprobs, finish_reason }, p))
            },
            _ => None,
        },
    }
}

/// The items of the choices array, `i` standing at an item or at `]`.
pub open spec fn spec_choice_items(s: Seq<char>, i: int, acc: Seq<TextChoiceView>) -> Option<
    (Seq<TextChoiceView>, int),
>
    decreases s.len() - i,
    when 0 <= i <= s.len()
{
    if i >= s.len() {
        None
    } else if s[i] == ']' {
        Some((acc, i + 1))
    } else {
        match spec_parse_choice(s, i) {
            None => None,
            Some(pc) => {
                if !(i < pc.1 && pc.1 <= s.len()) {
                    None
                } else {
                    let q = spec_skip_ws(s, pc.1);
                    if q < s.len() && s[q] == ',' {
                        let r = spec_skip_ws(s, q + 1);
                        if i < r && r < s.len() && s[r] != ']' {
                            spec_choice_items(s, r, acc.push(pc.0))
                        } else {
                            None
                        }
                    } else if q < s.len() && s[q] == ']' {
                        Some((acc.push(pc.0), q + 1))
                    } else {
                        None
                    }
                }
            },
        }
    }
}

/// Reads the items of the choices array.
fn choice_items(chars: &Vec<char>, i: usize, acc: Vec<TextChoice>) -> (r: Option<
    (Vec<TextChoice>, usize),
>)
    requires
        i <= chars.len(),
    ensures
        r matches Some(p) ==> spec_choice_items(
            chars@,
            i as int,
            acc@.map_values(|c: TextChoice| c@),
        ) == Some((p.0@.map_values(|c: TextChoice| c@), p.1 as int)) && i < p.1 <= chars.len(),
        r is None ==> spec_choice_items(chars@, i as int, acc@.map_values(|c: TextChoice| c@))
            is None,
    decreases chars.len() - i,
{
    if i >= chars.len() {
        return None;
    }
    if chars[i] == ']' {
        return Some((acc, i + 1));
    }
    match parse_choice(chars, i) {
        None => None,
        Some((c, p)) => {
            let q = skip_ws(chars, p);
            if q < chars.len() && chars[q] == ',' {
                let r = skip_ws(chars, q + 1);
                if !(r < chars.len() && chars[r] != ']') {
                    return None;
                }
                let mut acc2 = acc;
                acc2.push(c);
                proof {
                    assert(acc2@.map_values(|c: TextChoice| c@) =~= acc@.map_values(
                        |c: TextChoice| c@,
                    ).push(c@));
                }
                choice_items(chars, r, acc2)
            } else if q < chars.len() && chars[q] == ']' {
                let mut acc2 = acc;
                acc2.push(c);
                proof {
                    assert(acc2@.map_values(|c: TextChoice| c@) =~= acc@.map_values(
                        |c: TextChoice| c@,
                    ).push(c@));
                }
                Some((acc2, q + 1))
            } else {
                None
            }
        },
    }
}

/// The choices array starting at `i`.
pub open spec fn spec_parse_choices(s: Seq<char>, i: int) -> Option<(Seq<TextChoiceView>, int)> {
    if !(0 <= i && i < s.len() && s[i] == '[') {
        None
    } else {
        let j = spec_skip_ws(s, i + 1);
        if i < j && j <= s.len() {
            spec_choice_items(s, j, Seq::empty())
        } else {
            None
        }
    }
}

/// Reads the choices array starting at `i`.
fn parse_choices(chars: &Vec<char>, i: usize) -> (r: Option<(Vec<TextChoice>, usize)>)
    ensures
        r matches Some(p) ==> spec_parse_choices(chars@, i as int) == Some(
            (p.0@.map_values(|c: TextChoice| c@), p.1 as int),
        ) && i < p.1 <= chars.len(),
        r is None ==> spec_parse_choices(chars@, i as int) is None,
{
    if !(i < chars.len() && chars[i] == '[') {
        return None;
    }
    let j = skip_ws(chars, i + 1);
    let acc: Vec<TextChoice> = Vec::new();
    proof {
        assert(acc@.map_values(|c: TextChoice| c@) =~= Seq::<TextChoiceView>::empty());
    }
    choice_items(chars, j, acc)
}

/// What has been read so far of a chunk object.
#[verifier::ext_equal]
pub struct ChunkAccView {
    pub id: Option<Seq<char>>,
    pub object: Option<Seq<char>>,
    pub created: Option<u64>,
    pub model: Option<Seq<char>>,
    pub choices: Option<Seq<TextChoiceView>>,
}

struct ChunkAcc {
    id: Option<Vec<char>>,
    object: Option<Vec<char>>,
    created: Option<u64>,
    model: Option<Vec<char>>,
    choices: Option<Vec<TextChoice>>,
}

impl View for ChunkAcc {
    type V = ChunkAccView;

    closed spec fn view(&self) -> ChunkAccView {
        ChunkAccView {
            id: self.id.deep_view(),
            object: self.object.deep_view(),
            created: self.created,
            model: self.model.deep_view(),
            choices: (match self.choices {
                Some(v) => Some(v@.map_values(|c: TextChoice| c@)),
                None => None,
            }),
        }
    }
}

/// One member value of a chunk object, dispatched on the member's key.
pub open spec fn spec_chunk_value(s: Seq<char>, m: int, key: Seq<char>, acc: ChunkAccView) -> Option<
    (ChunkAccView, int),
> {
    if key == "id"@ {
        if acc.id is Some {
            None
        } else {
            match spec_parse_string(s, m) {
                None => None,
                Some(p) => Some(((ChunkAccView { id: Some(p.0), ..acc }), p.1)),
            }
        }
    } else if key == "object"@ {
        if acc.object is Some {
            None
        } else {
            match spec_parse_string(s, m) {
                None => None,
                Some(p) => Some(((ChunkAccView { object: Some(p.0), ..acc }), p.1)),
            }
        }
    } else if key == "created"@ {
        if acc.created is Some {
            None
        } else {
            match spec_parse_u64(s, m) {
                None => None,
                Some(p) => Some(((ChunkAccView { created: Some(p.0), ..acc }), p.1)),
            }
        }
    } else if key == "model"@ {
        if acc.model is Some {
            None
        } else {
            match spec_parse_string(s, m) {
                None => None,
                Some(p) => Some(((ChunkAccView { model: Some(p.0), ..acc }), p.1)),
            }
        }
    } else if key == "choices"@ {
        if acc.choices is Some {
            None
        } else {
            match spec_parse_choices(s, m) {
                None => None,
                Some(p) => Some(((ChunkAccView { choices: Some(p.0), ..acc }), p.1)),
            }
        }
    } else {
        match spec_skip_value(s, m, SKIP_DEPTH as nat) {
            None => None,
            Some(p) => Some((acc, p)),
        }
    }
}

/// The members of a chunk object, `i` standing at a key or at `}`.
pub open spec fn spec_chunk_members(s: Seq<char>, i: int, acc: ChunkAccView) -> Option<
    (ChunkAccView, int),
>
    decreases s.len() - i,
    when 0 <= i <= s.len()
{
    if i >= s.len() {
        None
    } else if s[i] == '}' {
        Some((acc, i + 1))
    } else {
        match spec_parse_string(s, i) {
            None => None,
            Some(key) => {
                if !(i < key.1 && key.1 <= s.len()) {
                    None
                } else {
                    let k = spec_skip_ws(s, key.1);
                    if !(k < s.len() && s[k] == ':') {
                        None
                    } else {
                        let m = spec_skip_ws(s, k + 1);
                        if !(i < m && m <= s.len()) {
                            None
                        } else {
                            match spec_chunk_value(s, m, key.0, acc) {
                                None => None,
                                Some(pv) => {
                                    if !(i < pv.1 && pv.1 <= s.len()) {
                                        None
                                    } else {
                                        let q = spec_skip_ws(s, pv.1);
                                        if q < s.len() && s[q] == ',' {
                                            let r = spec_skip_ws(s, q + 1);
                                            if i < r && r < s.len() && s[r] != '}' {
                                                spec_chunk_members(s, r, pv.0)
                                            } else {
                                                None
                                            }
                                        } else if q < s.len() && s[q] == '}' {
                                            Some((pv.0, q + 1))
                                        } else {
                                            None
                                        }
                                    }
                                },
                            }
                        }
                    }
                }
            },
        }
    }
}

/// Reads the members of a chunk object.
#[verifier::rlimit(100)]
fn chunk_members(chars: &Vec<char>, i: usize, acc: ChunkAcc) -> (r: Option<(ChunkAcc, usize)>)
    requires
        i <= chars.len(),
    ensures
        r matches Some(p) ==> spec_chunk_members(chars@, i as int, acc@) == Some(
            (p.0@, p.1 as int),
        ) && i < p.1 <= chars.len(),
        r is None ==> spec_chunk_members(chars@, i as int, acc@) is None,
    decreases chars.len() - i,
{
    if i >= chars.len() {
        return None;
    }
    if chars[i] == '}' {
        return Some((acc, i + 1));
    }
    match parse_string(chars, i) {
        None => None,
        Some((key, j)) => {
            let k = skip_ws(chars, j);
            if !(k < chars.len() && chars[k] == ':') {
                return None;
            }
            let m = skip_ws(chars, k + 1);
            let stepped: Option<(ChunkAcc, usize)> = if chars_eq_str(&key, "id") {
                if acc.id.is_some() {
                    None
                } else {
                    match parse_string(chars, m) {
                        None => None,
                        Some((v, p)) => Some(
                            (
                                ChunkAcc {
                                    id: Some(v),
                                    object: acc.object,
                                    created: acc.created,
                                    model: acc.model,
                                    choices: acc.choices,
                                },
                                p,
                            ),
                        ),
                    }
                }
            } else if chars_eq_str(&key, "object") {
                if acc.object.is_some() {
                    None
                } else {
                    match parse_string(chars, m) {
                        None => None,
                        Some((v, p)) => Some(
                            (
                                ChunkAcc {
                                    id: acc.id,
                                    object: Some(v),
                                    created: acc.created,
                                    model: acc.model,
                                    choices: acc.choices,
                                },
                                p,
                            ),
                        ),
                    }
                }
            } else if chars_eq_str(&key, "created") {
                if acc.created.is_some() {
                    None
                } else {
                    match parse_u64_lit(chars, m) {
                        None => None,
                        Some((v, p)) => Some(
                            (
                                ChunkAcc {
                                    id: acc.id,
                                    object: acc.object,
                                    created: Some(v),
                                    model: acc.model,
                                    choices: acc.choices,
                                },
                                p,
                            ),
                        ),
                    }
                }
            } else if chars_eq_str(&key, "model") {
                if acc.model.is_some() {
                    None
                } else {
                    match parse_string(chars, m) {
                        None => None,
                        Some((v, p)) => Some(
                            (
                                ChunkAcc {
                                    id: acc.id,
                                    object: acc.object,
                                    created: acc.created,
                                    model: Some(v),
                                    choices: acc.choices,
                                },
                                p,
                            ),
                        ),
                    }
                }
            } else if chars_eq_str(&key, "choices") {
                if acc.choices.is_some() {
                    None
                } else {
                    match parse_choices(chars, m) {
                        None => None,
                        Some((v, p)) => Some(
                            (
                                ChunkAcc {
                                    id: acc.id,
                                    object: acc.object,
                                    created: acc.created,
                                    model: acc.model,
                                    choices: Some(v),
                                },
                                p,
                            ),
                        ),
                    }
                }
            } else {
                match skip_value(chars, m, SKIP_DEPTH) {
                    None => None,
                    Some(p) => Some((acc, p)),
                }
            };
            match stepped {
                None => {
                    proof {
                        assert(spec_chunk_value(chars@, m as int, key@, acc@) is None);
                    }
                    None
                },
                Some((acc2, p)) => {
                    proof {
                        assert(spec_chunk_value(chars@, m as int, key@, acc@) matches Some(pv)
                            && pv.0 =~= acc2@ && pv.1 == p as int);
                    }
                    let q = skip_ws(chars, p);
                    if q < chars.len() && chars[q] == ',' {
                        let r = skip_ws(chars, q + 1);
                        if r < chars.len() && chars[r] != '}' {
                            chunk_members(chars, r, acc2)
                        } else {
                            None
                        }
                    } else if q < chars.len() && chars[q] == '}' {
                        Some((acc2, q + 1))
                    } else {
                        None
                    }
                },
            }
        },
    }
}

/// A whole chunk: the payload characters must hold exactly one chunk object,
/// with nothing but whitespace after it, and every one of id, object,
/// created, model and choices present.
pub open spec fn spec_parse_chunk(s: Seq<char>) -> Option<MessageChunkView> {
    let i = spec_skip_ws(s, 0);
    if !(0 <= i && i < s.len() && s[i] == '{') {
        None
    } else {
        let j = spec_skip_ws(s, i + 1);
        if !(i < j && j <= s.len()) {
            None
        } else {
            let empty = ChunkAccView {
                id: None,
                object: None,
                created: None,
                model: None,
                choices: None,
            };
            match spec_chunk_members(s, j, empty) {
                None => None,
                Some(p) => {
                    if !(spec_skip_ws(s, p.1) == s.len()) {
                        None
                    } else {
                        match (p.0.id, p.0.object, p.0.created, p.0.model, p.0.choices) {
                            (Some(id), Some(object), Some(created), Some(model), Some(choices)) =>
                                Some(
                                (MessageChunkView { id, object, created, model, choices }),
                            ),
                            _ => None,
                        }
                    }
                },
            }
        }
    }
}

/// Reads the payload of one data line as a generation chunk.
pub fn parse_chunk(chars: &Vec<char>) -> (r: Option<MessageChunk>)
    ensures
        r matches Some(c) ==> spec_parse_chunk(chars@) == Some(c@),
        r is None ==> spec_parse_chunk(chars@) is None,
{
    let i = skip_ws(chars, 0);
    if !(i < chars.len() && chars[i] == '{') {
        return None;
    }
    let j = skip_ws(chars, i + 1);
    let empty = ChunkAcc { id: None, object: None, created: None, model: None, choices: None };
    match chunk_members(chars, j, empty) {
        None => None,
        Some((acc, p)) => {
            let t = skip_ws(chars, p);
            if !(t == chars.len()) {
                return None;
            }
            match (acc.id, acc.object, acc.created, acc.model, acc.choices) {
                (Some(id), Some(object), Some(created), Some(model), Some(choices)) => {
                    let chunk = MessageChunk {
                        id: chars_to_string(&id),
                        object: chars_to_string(&object),
                        created,
                        model: chars_to_string(&model),
                        choices,
                    };
                    Some(chunk)
                },
                _ => None,
            }
        },
    }
}

} // verus!
