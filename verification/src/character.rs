//! Character search: the statistics records and the query string that a
//! character search sends, built exactly from page, mode, sort order, tags
//! and search text.

use vstd::prelude::*;
use vstd::string::StringExecFns;

use crate::misc::{push_dec_digits, spec_dec_digits};

verus! {

/// How many chats and messages a character has seen.
#[derive(Clone, Copy, Debug, PartialEq, Eq, Structural)]
pub struct CharacterStats {
    pub chat: u64,
    pub message: u64,
}

/// Token counts of a character's definition parts.
#[derive(Clone, Copy, Debug, PartialEq, Eq, Structural)]
pub struct TokenStats {
    pub scenario_tokens: u32,
    pub personality_tokens: u32,
    pub first_message_tokens: u32,
    pub example_dialog_tokens: u32,
    pub total_tokens: u32,
}

/// The sort orders a character search accepts; each maps to one fixed
/// wire token.
#[derive(Clone, Copy, Debug, PartialEq, Eq, Structural)]
pub enum SortMode {
    Popular,
    Latest,
    Trending,
    Trending24,
    Relevance,
}

/// The wire token of each sort order.
pub open spec fn spec_sort_token(mode: SortMode) -> Seq<char> {
    match mode {
        SortMode::Popular => "popular"@,
        SortMode::Latest => "latest"@,
        SortMode::Trending => "trending"@,
        SortMode::Trending24 => "trending24"@,
        SortMode::Relevance => "relevance"@,
    }
}

impl SortMode {
    /// The lower-case token this sort order sends to the server.
    pub fn token(&self) -> (r: String)
        ensures
            r@ == spec_sort_token(*self),
    {
        match self {
            SortMode::Popular => String::from_str("popular"),
            SortMode::Latest => String::from_str("latest"),
            SortMode::Trending => String::from_str("trending"),
            SortMode::Trending24 => String::from_str("trending24"),
            SortMode::Relevance => String::from_str("relevance"),
        }
    }
}

/// One `&tag_id[]=` parameter for each tag id, in order.
pub open spec fn spec_tag_params(ids: Seq<u32>) -> Seq<char>
    decreases ids.len(),
{
    if ids.len() == 0 {
        Seq::empty()
    } else {
        "&tag_id[]="@ + spec_dec_digits(ids[0] as nat) + spec_tag_params(ids.skip(1))
    }
}

proof fn lemma_tag_params_push(ids: Seq<u32>, x: u32)
    ensures
        spec_tag_params(ids.push(x)) == spec_tag_params(ids) + "&tag_id[]="@ + spec_dec_digits(
            x as nat,
        ),
    decreases ids.len(),
{
    reveal_with_fuel(spec_tag_params, 2);
    if ids.len() == 0 {
        assert(ids.push(x)[0] == x);
        assert(ids.push(x).skip(1) =~= Seq::<u32>::empty());
        assert(spec_tag_params(ids.push(x)) =~= spec_tag_params(ids) + "&tag_id[]="@
            + spec_dec_digits(x as nat));
    } else {
        assert(ids.push(x)[0] == ids[0]);
        assert(ids.push(x).skip(1) =~= ids.skip(1).push(x));
        lemma_tag_params_push(ids.skip(1), x);
        assert(spec_tag_params(ids.push(x)) =~= spec_tag_params(ids) + "&tag_id[]="@
            + spec_dec_digits(x as nat));
    }
}

/// One `&custom_tags[]=` parameter for each custom tag, in order.
pub open spec fn spec_custom_tag_params(tags: Seq<Seq<char>>) -> Seq<char>
    decreases tags.len(),
{
    if tags.len() == 0 {
        Seq::empty()
    } else {
        "&custom_tags[]="@ + tags[0] + spec_custom_tag_params(tags.skip(1))
    }
}

proof fn lemma_custom_tag_params_push(tags: Seq<Seq<char>>, x: Seq<char>)
    ensures
        spec_custom_tag_params(tags.push(x)) == spec_custom_tag_params(tags) + "&custom_tags[]="@
            + x,
    decreases tags.len(),
{
    reveal_with_fuel(spec_custom_tag_params, 2);
    if tags.len() == 0 {
        assert(tags.push(x)[0] == x);
        assert(tags.push(x).skip(1) =~= Seq::<Seq<char>>::empty());
        assert(spec_custom_tag_params(tags.push(x)) =~= spec_custom_tag_params(tags)
            + "&custom_tags[]="@ + x);
    } else {
        assert(tags.push(x)[0] == tags[0]);
        assert(tags.push(x).skip(1) =~= tags.skip(1).push(x));
        lemma_custom_tag_params_push(tags.skip(1), x);
        assert(spec_custom_tag_params(tags.push(x)) =~= spec_custom_tag_params(tags)
            + "&custom_tags[]="@ + x);
    }
}

/// The exact query string of a character search: page, content mode, sort
/// order, then every tag id, every custom tag, and the search text when
/// one is given.
pub open spec fn spec_query_string(
    page: u32,
    nsfw: bool,
    search: Option<Seq<char>>,
    sort: SortMode,
    tag_ids: Seq<u32>,
    custom_tags: Seq<Seq<char>>,
) -> Seq<char> {
    "https://janitorai.com/hampter/characters?page="@ + spec_dec_digits(page as nat) + "&mode="@ + (
    if nsfw {
        "all"@
    } else {
        "sfw"@
    }) + "&sort="@ + spec_sort_token(sort) + spec_tag_params(tag_ids) + spec_custom_tag_params(
        custom_tags,
    ) + (match search {
        Some(s) => "&search="@ + s,
        None => Seq::empty(),
    })
}

/// Builds the query string of a character search; a missing sort order
/// stands for `Popular`, missing tag lists for empty ones.
pub fn build_query_string(
    page: u32,
    nsfw: bool,
    search: Option<&str>,
    sort: Option<SortMode>,
    tag_ids: Option<&Vec<u32>>,
    custom_tags: Option<&Vec<String>>,
) -> (r: String)
    ensures
        r@ == spec_query_string(
            page,
            nsfw,
            (match search {
                Some(s) => Some(s@),
                None => None,
            }),
            (match sort {
                Some(m) => m,
                None => SortMode::Popular,
            }),
            (match tag_ids {
                Some(v) => v@,
                None => Seq::empty(),
            }),
            (match custom_tags {
                Some(v) => v.deep_view(),
                None => Seq::empty(),
            }),
        ),
{
    let sort_mode = match sort {
        Some(m) => m,
        None => SortMode::Popular,
    };
    let mut out = String::from_str("https://janitorai.com/hampter/characters?page=");
    push_dec_digits(&mut out, page as u64);
    out.append("&mode=");
    out.append(if nsfw {
        "all"
    } else {
        "sfw"
    });
    out.append("&sort=");
    let token = sort_mode.token();
    out.append(token.as_str());
    let ghost head = out@;
    match tag_ids {
        Some(ids) => {
            let n = ids.len();
            let mut k: usize = 0;
            proof {
                assert(ids@.take(0) =~= Seq::<u32>::empty());
            }
            while k < n
                invariant
                    n == ids@.len(),
                    0 <= k <= n,
                    out@ == head + spec_tag_params(ids@.take(k as int)),
                decreases n - k,
            {
                out.append("&tag_id[]=");
                push_dec_digits(&mut out, ids[k] as u64);
                proof {
                    lemma_tag_params_push(ids@.take(k as int), ids@[k as int]);
                    assert(ids@.take(k as int).push(ids@[k as int]) =~= ids@.take(k as int + 1));
                    assert(out@ =~= head + spec_tag_params(ids@.take(k as int + 1)));
                }
                k = k + 1;
            }
            proof {
                assert(ids@.take(n as int) =~= ids@);
            }
        },
        None => {
            proof {
                assert(out@ =~= head + spec_tag_params(Seq::<u32>::empty()));
            }
        },
    }
    let ghost head2 = out@;
    match custom_tags {
        Some(tags) => {
            let n = tags.len();
            let mut k: usize = 0;
            proof {
                assert(tags.deep_view().take(0) =~= Seq::<Seq<char>>::empty());
            }
            while k < n
                invariant
                    n == tags@.len(),
                    0 <= k <= n,
                    out@ == head2 + spec_custom_tag_params(tags.deep_view().take(k as int)),
                decreases n - k,
            {
                out.append("&custom_tags[]=");
                out.append(tags[k].as_str());
                proof {
                    lemma_custom_tag_params_push(
                        tags.deep_view().take(k as int),
                        tags.deep_view()[k as int],
                    );
                    assert(tags.deep_view().take(k as int).push(tags.deep_view()[k as int])
                        =~= tags.deep_view().take(k as int + 1));
                    assert(tags@[k as int]@ == tags.deep_view()[k as int]);
                    assert(out@ =~= head2 + spec_custom_tag_params(
                        tags.deep_view().take(k as int + 1),
                    ));
                }
                k = k + 1;
            }
            proof {
                assert(tags.deep_view().take(n as int) =~= tags.deep_view());
            }
        },
        None => {
            proof {
                assert(out@ =~= head2 + spec_custom_tag_params(Seq::<Seq<char>>::empty()));
            }
        },
    }
    match search {
        Some(s) => {
            out.append("&search=");
            out.append(s);
        },
        None => {},
    }
    proof {
        assert(out@ =~= spec_query_string(
            page,
            nsfw,
            (match search {
                Some(s) => Some(s@),
                None => None,
            }),
            sort_mode,
            (match tag_ids {
                Some(v) => v@,
                None => Seq::empty(),
            }),
            (match custom_tags {
                Some(v) => v.deep_view(),
                None => Seq::empty(),
            }),
        ));
    }
    out
}

} // verus!
