//! The chunk accumulator: folding a decoded chunk sequence into the final
//! assembled reply text for one choice position.

use vstd::prelude::*;
use vstd::string::StringExecFns;

use crate::chat::{MessageChunk, MessageChunkView};
use crate::decoder::chunks_view;
use crate::error::HampterError;

verus! {

/// The assembled text of one generation: the concatenation of each chunk's
/// content at choice position `index`, in arrival order, with no
/// reordering.
pub open spec fn spec_assembled(chunks: Seq<MessageChunkView>, index: int) -> Seq<char>
    decreases chunks.len(),
{
    if chunks.len() == 0 {
        Seq::empty()
    } else {
        chunks[0].choices[index].delta.content + spec_assembled(chunks.skip(1), index)
    }
}

/// Whether every chunk carries a choice at position `index`.
pub open spec fn spec_all_have_choice(chunks: Seq<MessageChunkView>, index: int) -> bool {
    forall|k: int| 0 <= k < chunks.len() ==> index < chunks[k].choices.len()
}

/// Appending a chunk appends its content.
proof fn lemma_assembled_push(chunks: Seq<MessageChunkView>, x: MessageChunkView, index: int)
    ensures
        spec_assembled(chunks.push(x), index) == spec_assembled(chunks, index)
            + x.choices[index].delta.content,
    decreases chunks.len(),
{
    reveal_with_fuel(spec_assembled, 2);
    if chunks.len() == 0 {
        assert(chunks.push(x)[0] == x);
        assert(chunks.push(x).skip(1) =~= Seq::<MessageChunkView>::empty());
        assert(spec_assembled(chunks.push(x), index) =~= spec_assembled(chunks, index)
            + x.choices[index].delta.content);
    } else {
        assert(chunks.push(x)[0] == chunks[0]);
        assert(chunks.push(x).skip(1) =~= chunks.skip(1).push(x));
        lemma_assembled_push(chunks.skip(1), x, index);
        assert(spec_assembled(chunks.push(x), index) =~= spec_assembled(chunks, index)
            + x.choices[index].delta.content);
    }
}

/// Folds a chunk sequence into the final reply text for the choice at the
/// given position (position 0 when none is given): exactly the
/// concatenation of each chunk's content there, in arrival order. When any
/// chunk lacks that position, the fold fails with `IndexError`.
pub fn assemble_content(chunks: &Vec<MessageChunk>, index: Option<usize>) -> (r: Result<
    String,
    HampterError,
>)
    ensures
        ({
            let i = (match index {
                Some(i) => i as int,
                None => 0,
            });
            &&& spec_all_have_choice(chunks_view(chunks@), i) ==> (r matches Ok(s) && s@
                == spec_assembled(chunks_view(chunks@), i))
            &&& !spec_all_have_choice(chunks_view(chunks@), i) ==> r == Err::<String, HampterError>(
                HampterError::IndexError,
            )
        }),
{
    let i: usize = match index {
        Some(i) => i,
        None => 0,
    };
    let mut out = String::new();
    let n = chunks.len();
    let mut k: usize = 0;
    proof {
        assert(chunks_view(chunks@).take(0) =~= Seq::<MessageChunkView>::empty());
    }
    while k < n
        invariant
            n == chunks@.len(),
            0 <= k <= n,
            i as int == (match index {
                Some(j) => j as int,
                None => 0int,
            }),
            out@ == spec_assembled(chunks_view(chunks@).take(k as int), i as int),
            forall|j: int| 0 <= j < k ==> (i as int) < chunks_view(chunks@)[j].choices.len(),
        decreases n - k,
    {
        match chunks[k].content(Some(i)) {
            Ok(piece) => {
                proof {
                    lemma_assembled_push(
                        chunks_view(chunks@).take(k as int),
                        chunks_view(chunks@)[k as int],
                        i as int,
                    );
                    assert(chunks_view(chunks@).take(k as int).push(
                        chunks_view(chunks@)[k as int],
                    ) =~= chunks_view(chunks@).take(k as int + 1));
                }
                out.append(piece.as_str());
            },
            Err(_) => {
                proof {
                    assert(chunks_view(chunks@)[k as int] == chunks@[k as int]@);
                    assert((i as int) >= chunks_view(chunks@)[k as int].choices.len());
                    assert(!spec_all_have_choice(chunks_view(chunks@), i as int));
                }
                return Err(HampterError::IndexError);
            },
        }
        k = k + 1;
    }
    proof {
        assert(chunks_view(chunks@).take(n as int) =~= chunks_view(chunks@));
    }
    Ok(out)
}

} // verus!
