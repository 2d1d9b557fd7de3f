//! The search engine: parse one document and run the active matcher over
//! it, and aggregate per-file results across many files with per-file
//! error isolation — a malformed file contributes nothing and never stops
//! the search of the remaining files.
use vstd::prelude::*;
use crate::matcher::{
    doc_matches, match_views, search_guid, search_media_id, search_short_id, MatchInfo, MatchView,
    SearchMode,
};
use crate::parser::{parse_of, parse_xml};
use crate::text::{lower_of, lowercase};

verus! {

/// Why one file contributed no matches.
#[derive(Clone, Debug, PartialEq, Eq, Structural)]
pub enum DocumentError {
    MalformedDocument,
}

/// What one file contributes: nothing when it is malformed, otherwise its
/// document's hits in document order.
pub open spec fn file_matches(contents: Seq<char>, q: Seq<char>, mode: SearchMode) -> Seq<
    MatchView,
> {
    match parse_of(contents) {
        Option::Some(d) => doc_matches(d, q, mode),
        Option::None => Seq::empty(),
    }
}

/// Search one document's contents: lower-case the query, parse, and run the
/// active mode's matcher. Fails exactly on malformed markup.
pub fn search_document(query: &str, contents: &str, mode: &SearchMode) -> (r: Result<
    Vec<MatchInfo>,
    DocumentError,
>)
    ensures
        (match r {
            Result::Ok(ms) => parse_of(contents@) is Some && match_views(ms@) == file_matches(
                contents@,
                lower_of(query@),
                *mode,
            ),
            Result::Err(e) => parse_of(contents@) is None && e == DocumentError::MalformedDocument,
        }),
{
    let lowered = lowercase(query);
    match parse_xml(contents) {
        Option::Some(d) => {
            let ms = match mode {
                SearchMode::MediaID => search_media_id(lowered.as_str(), &d),
                SearchMode::Guid => search_guid(lowered.as_str(), &d),
                SearchMode::ShortID => search_short_id(lowered.as_str(), &d),
            };
            Result::Ok(ms)
        },
        Option::None => Result::Err(DocumentError::MalformedDocument),
    }
}

/// All hits of the first `n` files, in file order.
pub open spec fn all_matches_upto(
    files: Seq<Seq<char>>,
    q: Seq<char>,
    mode: SearchMode,
    n: int,
) -> Seq<MatchView>
    decreases n,
{
    if n <= 0 {
        Seq::empty()
    } else {
        all_matches_upto(files, q, mode, n - 1) + file_matches(files[n - 1], q, mode)
    }
}

/// All hits across a list of file contents: the concatenation of each
/// file's hits, malformed files contributing nothing.
pub open spec fn all_matches(files: Seq<Seq<char>>, q: Seq<char>, mode: SearchMode) -> Seq<
    MatchView,
> {
    all_matches_upto(files, q, mode, files.len() as int)
}

/// Concatenating two result lists commutes with taking values.
proof fn lemma_match_views_append(a: Seq<MatchInfo>, b: Seq<MatchInfo>)
    ensures
        match_views(a + b) == match_views(a) + match_views(b),
{
    assert(match_views(a + b) =~= match_views(a) + match_views(b));
}

/// Search every file's contents for the query under the given mode and
/// concatenate the per-file results in file order. A file whose contents
/// are malformed markup is skipped; the others still contribute.
pub fn find_id(query: &str, files: &Vec<String>, mode: &SearchMode) -> (r: Vec<MatchInfo>)
    ensures
        match_views(r@) == all_matches(files.deep_view(), lower_of(query@), *mode),
{
    let n = files.len();
    let mut out: Vec<MatchInfo> = Vec::new();
    let mut i: usize = 0;
    while i < n
        invariant
            n == files@.len(),
            i <= n,
            match_views(out@) == all_matches_upto(
                files.deep_view(),
                lower_of(query@),
                *mode,
                i as int,
            ),
        decreases n - i,
    {
        proof {
            assert(files.deep_view()[i as int] == files@[i as int]@);
            assert(all_matches_upto(files.deep_view(), lower_of(query@), *mode, i + 1)
                == all_matches_upto(files.deep_view(), lower_of(query@), *mode, i as int)
                + file_matches(files.deep_view()[i as int], lower_of(query@), *mode));
        }
        match search_document(query, files[i].as_str(), mode) {
            Result::Ok(mut ms) => {
                proof {
                    lemma_match_views_append(out@, ms@);
                }
                out.append(&mut ms);
            },
            Result::Err(_) => {
                proof {
                    assert(match_views(out@) + Seq::<MatchView>::empty() =~= match_views(out@));
                }
            },
        }
        i += 1;
    }
    out
}

} // verus!
