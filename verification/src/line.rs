//! Classification of one raw line of a generation response: an empty
//! keep-alive to skip, the done sentinel that ends the sequence, or a
//! data-prefixed chunk payload.
//!
//! A line is matched against the sentinel before the event prefix is
//! stripped, since the sentinel line need not carry the prefix; the match is
//! ASCII-case-insensitive containment of `data: [done]`.

use vstd::prelude::*;

use crate::chat::{MessageChunk, MessageChunkView};
use crate::error::HampterError;
use crate::parse::{parse_chunk, spec_parse_chunk};
use crate::unicode::str_to_chars;

verus! {

/// The length of the event prefix (`data: `) before a chunk payload.
pub const PREFIX_LEN: usize = 6;

/// ASCII lower-casing of one character; anything outside `A`..`Z` is kept.
pub open spec fn ascii_lower(c: char) -> char {
    if 'A' <= c && c <= 'Z' {
        ((c as u32) + 32) as char
    } else {
        c
    }
}

/// Whether the done sentinel stands at position `k` of the line, compared
/// ASCII-case-insensitively.
pub open spec fn spec_sentinel_at(line: Seq<char>, k: int) -> bool {
    &&& 0 <= k
    &&& k + 12 <= line.len()
    &&& forall|t: int| 0 <= t < 12 ==> ascii_lower(line[k + t]) == ("data: [done]"@)[t]
}

/// Whether the line contains the done sentinel anywhere.
pub open spec fn spec_has_sentinel(line: Seq<char>) -> bool {
    exists|k: int| spec_sentinel_at(line, k)
}

/// ASCII lower-casing of one character.
fn lower_char(c: char) -> (r: char)
    ensures
        r == ascii_lower(c),
{
    if 'A' <= c && c <= 'Z' {
        match char::from_u32((c as u32) + 32) {
            Some(l) => l,
            None => {
                proof {
                    assert(false);
                }
                c
            },
        }
    } else {
        c
    }
}

/// Whether the done sentinel stands anywhere in the line.
fn has_sentinel(chars: &Vec<char>) -> (r: bool)
    ensures
        r == spec_has_sentinel(chars@),
{
    let sentinel = "data: [done]";
    proof {
        reveal_strlit("data: [done]");
    }
    if chars.len() < 12 {
        proof {
            assert forall|k: int| !spec_sentinel_at(chars@, k) by {}
        }
        return false;
    }
    let last_start = chars.len() - 12;
    let mut k: usize = 0;
    while k <= last_start
        invariant
            last_start == chars@.len() - 12,
            chars@.len() >= 12,
            chars@.len() <= usize::MAX,
            0 <= k <= last_start + 1,
            sentinel@ == "data: [done]"@,
            sentinel@.len() == 12,
            forall|k2: int| 0 <= k2 < k ==> !spec_sentinel_at(chars@, k2),
        decreases last_start - k + 1,
    {
        let mut t: usize = 0;
        let mut matched = true;
        while t < 12 && matched
            invariant
                0 <= t <= 12,
                k + 12 <= chars@.len(),
                chars@.len() <= usize::MAX,
                sentinel@ == "data: [done]"@,
                sentinel@.len() == 12,
                matched ==> forall|t2: int|
                    0 <= t2 < t ==> ascii_lower(chars@[k + t2]) == ("data: [done]"@)[t2],
                !matched ==> !spec_sentinel_at(chars@, k as int),
            decreases 12 - t + (if matched {
                1int
            } else {
                0int
            }),
        {
            let c = lower_char(chars[k + t]);
            let s = sentinel.get_char(t);
            if c != s {
                matched = false;
            } else {
                t = t + 1;
            }
        }
        if matched {
            proof {
                assert(spec_sentinel_at(chars@, k as int));
            }
            return true;
        }
        k = k + 1;
    }
    proof {
        assert forall|k2: int| !spec_sentinel_at(chars@, k2) by {
            if 0 <= k2 <= chars@.len() - 12 {
                assert(k2 < k);
            }
        }
    }
    false
}

/// What one raw line means to the decoder.
pub enum LineClass {
    /// An empty keep-alive line; it yields nothing and ends nothing.
    Skip,
    /// A line holding the done sentinel; the sequence ends here.
    Done,
    /// A data line whose payload parsed as a chunk.
    Chunk(MessageChunkView),
    /// A line too short for the event prefix, or an unparsable payload.
    Bad,
}

/// The meaning of one raw line: empty lines are skipped, the sentinel is
/// matched before the prefix is stripped, anything else must carry at least
/// the 6-character event prefix and then parse as one chunk.
#[verifier::opaque]
pub open spec fn spec_classify_line(line: Seq<char>) -> LineClass {
    if line.len() == 0 {
        LineClass::Skip
    } else if spec_has_sentinel(line) {
        LineClass::Done
    } else if line.len() < 6 {
        LineClass::Bad
    } else {
        match spec_parse_chunk(line.skip(6)) {
            Some(c) => LineClass::Chunk(c),
            None => LineClass::Bad,
        }
    }
}

/// What one accepted raw line yields.
pub enum LineEvent {
    /// An empty keep-alive line.
    KeepAlive,
    /// The done sentinel: the sequence is over.
    Terminator,
    /// One parsed generation chunk.
    Chunk(MessageChunk),
}

/// Classifies one raw line, handed over as its characters.
fn classify_chars(chars: &Vec<char>) -> (r: Result<LineEvent, HampterError>)
    ensures
        spec_classify_line(chars@) is Skip <==> r matches Ok(LineEvent::KeepAlive),
        spec_classify_line(chars@) is Done <==> r matches Ok(LineEvent::Terminator),
        spec_classify_line(chars@) matches LineClass::Chunk(v) ==> (r matches Ok(
            LineEvent::Chunk(c),
        ) && c@ == v),
        r matches Ok(LineEvent::Chunk(c)) ==> spec_classify_line(chars@) matches LineClass::Chunk(
            v,
        ) && c@ == v,
        spec_classify_line(chars@) is Bad <==> r == Err::<LineEvent, HampterError>(
            HampterError::DecodeError,
        ),
{
    proof {
        reveal(spec_classify_line);
    }
    if chars.len() == 0 {
        return Ok(LineEvent::KeepAlive);
    }
    if has_sentinel(chars) {
        return Ok(LineEvent::Terminator);
    }
    if chars.len() < PREFIX_LEN {
        return Err(HampterError::DecodeError);
    }
    let mut payload: Vec<char> = Vec::new();
    let mut idx: usize = PREFIX_LEN;
    while idx < chars.len()
        invariant
            6 <= idx <= chars@.len(),
            payload@ == chars@.subrange(6, idx as int),
        decreases chars@.len() - idx,
    {
        payload.push(chars[idx]);
        proof {
            assert(payload@ =~= chars@.subrange(6, idx as int + 1));
        }
        idx = idx + 1;
    }
    proof {
        assert(payload@ =~= chars@.skip(6));
    }
    match parse_chunk(&payload) {
        Some(c) => Ok(LineEvent::Chunk(c)),
        None => Err(HampterError::DecodeError),
    }
}

/// Classifies one raw line of a generation response.
pub fn classify_line(line: &str) -> (r: Result<LineEvent, HampterError>)
    ensures
        spec_classify_line(line@) is Skip <==> r matches Ok(LineEvent::KeepAlive),
        spec_classify_line(line@) is Done <==> r matches Ok(LineEvent::Terminator),
        spec_classify_line(line@) matches LineClass::Chunk(v) ==> (r matches Ok(
            LineEvent::Chunk(c),
        ) && c@ == v),
        r matches Ok(LineEvent::Chunk(c)) ==> spec_classify_line(line@) matches LineClass::Chunk(
            v,
        ) && c@ == v,
        spec_classify_line(line@) is Bad <==> r == Err::<LineEvent, HampterError>(
            HampterError::DecodeError,
        ),
{
    let chars = str_to_chars(line);
    classify_chars(&chars)
}

impl MessageChunk {
    /// Reads one raw line: `Ok(None)` for a keep-alive or the sentinel,
    /// `Ok(Some(chunk))` for a data line that parsed, and `DecodeError` for
    /// a line that is too short or whose payload is malformed.
    pub fn from_line(line: &String) -> (r: Result<Option<MessageChunk>, HampterError>)
        ensures
            spec_classify_line(line@) is Skip || spec_classify_line(line@) is Done <==> r == Ok::<
                Option<MessageChunk>,
                HampterError,
            >(None),
            spec_classify_line(line@) matches LineClass::Chunk(v) ==> (r matches Ok(Some(c)) && c@
                == v),
            r matches Ok(Some(c)) ==> spec_classify_line(line@) matches LineClass::Chunk(v) && c@
                == v,
            spec_classify_line(line@) is Bad <==> r == Err::<Option<MessageChunk>, HampterError>(
                HampterError::DecodeError,
            ),
    {
        match classify_line(line.as_str()) {
            Ok(LineEvent::KeepAlive) => Ok(None),
            Ok(LineEvent::Terminator) => Ok(None),
            Ok(LineEvent::Chunk(c)) => Ok(Some(c)),
            Err(e) => Err(e),
        }
    }
}

} // verus!
