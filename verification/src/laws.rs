//! The library's stated laws, proved against the same spec functions that
//! the executable functions' contracts use.
use vstd::prelude::*;
use crate::document::{attr_from, attr_of, ElementV};
use crate::engine::{all_matches, all_matches_upto, file_matches};
use crate::matcher::{
    doc_matches, guid_node_match, matches_upto, media_node_match, node_match, short_node_match,
    MatchView, SearchMode,
};
use crate::text::{contains_seq, lemma_contains_empty, lower_of};

verus! {

/// Matching is case-insensitive: two queries with one lower-casing yield
/// the same hits over any files under any mode.
pub proof fn lemma_search_case_insensitive(
    q1: Seq<char>,
    q2: Seq<char>,
    files: Seq<Seq<char>>,
    mode: SearchMode,
)
    requires
        lower_of(q1) == lower_of(q2),
    ensures
        all_matches(files, lower_of(q1), mode) == all_matches(files, lower_of(q2), mode),
{
}

/// Helper: field discipline of every hit among the first `n` elements.
proof fn lemma_upto_field_discipline(d: Seq<ElementV>, q: Seq<char>, mode: SearchMode, n: int)
    ensures
        forall|j: int|
            0 <= j < matches_upto(d, q, mode, n).len() ==> {
                let m = #[trigger] matches_upto(d, q, mode, n)[j];
                match mode {
                    SearchMode::MediaID => m.short_id == "?"@,
                    SearchMode::Guid => m.media_id == Seq::<char>::empty() && m.language
                        == Seq::<char>::empty() && m.audio_file == Seq::<char>::empty(),
                    SearchMode::ShortID => m.media_id == Seq::<char>::empty() && m.language
                        == Seq::<char>::empty() && m.audio_file == Seq::<char>::empty(),
                }
            },
    decreases n,
{
    if n <= 0 {
    } else {
        lemma_upto_field_discipline(d, q, mode, n - 1);
        let prev = matches_upto(d, q, mode, n - 1);
        let tail = (match node_match(d, q, mode, n - 1) {
            Option::Some(m) => seq![m],
            Option::None => Seq::<MatchView>::empty(),
        });
        assert(matches_upto(d, q, mode, n) == prev + tail);
        assert forall|j: int| 0 <= j < matches_upto(d, q, mode, n).len() implies {
            let m = #[trigger] matches_upto(d, q, mode, n)[j];
            match mode {
                SearchMode::MediaID => m.short_id == "?"@,
                SearchMode::Guid => m.media_id == Seq::<char>::empty() && m.language
                    == Seq::<char>::empty() && m.audio_file == Seq::<char>::empty(),
                SearchMode::ShortID => m.media_id == Seq::<char>::empty() && m.language
                    == Seq::<char>::empty() && m.audio_file == Seq::<char>::empty(),
            }
        } by {
            if j < prev.len() {
                assert(matches_upto(d, q, mode, n)[j] == prev[j]);
            } else {
                assert(matches_upto(d, q, mode, n)[j] == tail[j - prev.len()]);
            }
        }
    }
}

/// Fields that a mode does not fill are empty strings, and the placeholder
/// is never an empty string: the two ways of saying "nothing here" are kept
/// apart. Under Guid and ShortID modes every hit's `media_id`, `language`
/// and `audio_file` are empty; under MediaID mode every hit's `short_id` is
/// the placeholder.
pub proof fn lemma_placeholder_never_for_inapplicable(
    d: Seq<ElementV>,
    q: Seq<char>,
    mode: SearchMode,
)
    ensures
        forall|j: int|
            0 <= j < doc_matches(d, q, mode).len() ==> {
                let m = #[trigger] doc_matches(d, q, mode)[j];
                match mode {
                    SearchMode::MediaID => m.short_id == "?"@,
                    SearchMode::Guid => m.media_id == Seq::<char>::empty() && m.language
                        == Seq::<char>::empty() && m.audio_file == Seq::<char>::empty(),
                    SearchMode::ShortID => m.media_id == Seq::<char>::empty() && m.language
                        == Seq::<char>::empty() && m.audio_file == Seq::<char>::empty(),
                }
            },
        "?"@ != Seq::<char>::empty(),
{
    lemma_upto_field_discipline(d, q, mode, d.len() as int);
    reveal_strlit("?");
    assert("?"@.len() == 1);
}

/// Helper: a found attribute value is one of the element's values.
proof fn lemma_attr_from_is_value(
    attrs: Seq<(Seq<char>, Seq<char>)>,
    name: Seq<char>,
    j: int,
    v: Seq<char>,
)
    requires
        attr_from(attrs, name, j) == Option::Some(v),
    ensures
        exists|k: int| 0 <= k < attrs.len() && (#[trigger] attrs[k]).1 == v,
    decreases attrs.len() - j,
{
    if j < 0 || j >= attrs.len() {
    } else if attrs[j].0 == name {
        assert(attrs[j].1 == v);
    } else {
        lemma_attr_from_is_value(attrs, name, j + 1, v);
    }
}

/// Over elements none of whose attribute values is the literal `"?"`, a
/// placeholder in a reported attribute field marks exactly an absent
/// attribute: in Guid mode `name` and `short_id`, in ShortID mode `name`
/// and `id`, are `"?"` if and only if the reported element does not carry
/// the attribute.
pub proof fn lemma_placeholder_marks_absent(n: ElementV, q: Seq<char>)
    requires
        forall|k: int| 0 <= k < n.attrs.len() ==> (#[trigger] n.attrs[k]).1 != "?"@,
    ensures
        (match guid_node_match(n, q) {
            Option::Some(m) => (m.name == "?"@ <==> attr_of(n.attrs, "Name"@) is None) && (
            m.short_id == "?"@ <==> attr_of(n.attrs, "ShortID"@) is None),
            Option::None => true,
        }),
        (match short_node_match(n, q) {
            Option::Some(m) => (m.name == "?"@ <==> attr_of(n.attrs, "Name"@) is None) && (m.id
                == "?"@ <==> attr_of(n.attrs, "ID"@) is None),
            Option::None => true,
        }),
{
    if attr_of(n.attrs, "Name"@) is Some {
        lemma_attr_from_is_value(n.attrs, "Name"@, 0, attr_of(n.attrs, "Name"@).unwrap());
    }
    if attr_of(n.attrs, "ShortID"@) is Some {
        lemma_attr_from_is_value(n.attrs, "ShortID"@, 0, attr_of(n.attrs, "ShortID"@).unwrap());
    }
    if attr_of(n.attrs, "ID"@) is Some {
        lemma_attr_from_is_value(n.attrs, "ID"@, 0, attr_of(n.attrs, "ID"@).unwrap());
    }
}

/// As `lemma_placeholder_marks_absent`, for MediaID mode: over a
/// well-formed document none of whose attribute values is the literal
/// `"?"`, the reported `name`, `id` and `media_id` are `"?"` if and only
/// if the respective element does not carry the attribute.
pub proof fn lemma_placeholder_marks_absent_media(d: Seq<ElementV>, q: Seq<char>, i: int)
    requires
        crate::document::doc_wf(d),
        0 <= i < d.len(),
        forall|e: int, k: int|
            0 <= e < d.len() && 0 <= k < d[e].attrs.len() ==> (#[trigger] d[e].attrs[k]).1
                != "?"@,
    ensures
        (match media_node_match(d, q, i) {
            Option::Some(m) => {
                let g = d[d[i].parent].parent;
                (m.name == "?"@ <==> attr_of(d[g].attrs, "Name"@) is None) && (m.id == "?"@
                    <==> attr_of(d[g].attrs, "ID"@) is None) && (m.media_id == "?"@
                    <==> attr_of(d[i].attrs, "ID"@) is None)
            },
            Option::None => true,
        }),
{
    if media_node_match(d, q, i) is Some {
        let g = d[d[i].parent].parent;
        if attr_of(d[g].attrs, "Name"@) is Some {
            lemma_attr_from_is_value(d[g].attrs, "Name"@, 0, attr_of(d[g].attrs, "Name"@).unwrap());
        }
        if attr_of(d[g].attrs, "ID"@) is Some {
            lemma_attr_from_is_value(d[g].attrs, "ID"@, 0, attr_of(d[g].attrs, "ID"@).unwrap());
        }
        if attr_of(d[i].attrs, "ID"@) is Some {
            lemma_attr_from_is_value(d[i].attrs, "ID"@, 0, attr_of(d[i].attrs, "ID"@).unwrap());
        }
    }
}

/// Helper: the scan from any starting position finds nothing when no
/// child matches.
proof fn lemma_child_text_from_placeholder(d: Seq<ElementV>, g: int, pat: Seq<char>, j: int)
    requires
        forall|c: int|
            1 <= c < d.len() ==> !((#[trigger] d[c].parent) == g && contains_seq(d[c].tag, pat)),
    ensures
        crate::document::child_text_from(d, g, pat, j) == "?"@,
    decreases d.len() - j,
{
    if j < 1 || j >= d.len() {
    } else {
        lemma_child_text_from_placeholder(d, g, pat, j + 1);
    }
}

/// When no child of the reported element has a tag name containing the
/// pattern, the child-text field is the placeholder: `"?"` in `language`
/// or `audio_file` marks an absent child, the counterpart of an absent
/// attribute.
pub proof fn lemma_no_matching_child_placeholder(d: Seq<ElementV>, g: int, pat: Seq<char>)
    requires
        forall|c: int|
            1 <= c < d.len() ==> !((#[trigger] d[c].parent) == g && contains_seq(d[c].tag, pat)),
    ensures
        crate::document::child_text(d, g, pat) == "?"@,
{
    lemma_child_text_from_placeholder(d, g, pat, 1);
}

/// An empty query matches every element that carries the relevant
/// attribute (and, in MediaID mode, every suitably placed `MediaID`
/// element): the empty string is contained in every string.
pub proof fn lemma_empty_query_matches(d: Seq<ElementV>, i: int)
    requires
        0 <= i < d.len(),
    ensures
        attr_of(d[i].attrs, "ID"@) is Some ==> guid_node_match(d[i], Seq::<char>::empty())
            is Some,
        attr_of(d[i].attrs, "ShortID"@) is Some ==> short_node_match(
            d[i],
            Seq::<char>::empty(),
        ) is Some,
        (d[i].tag == "MediaID"@ && i != 0 && d[i].parent != 0) ==> media_node_match(
            d,
            Seq::<char>::empty(),
            i,
        ) is Some,
{
    if attr_of(d[i].attrs, "ID"@) is Some {
        lemma_contains_empty(lower_of(attr_of(d[i].attrs, "ID"@).unwrap()));
    }
    if attr_of(d[i].attrs, "ShortID"@) is Some {
        lemma_contains_empty(lower_of(attr_of(d[i].attrs, "ShortID"@).unwrap()));
    }
    lemma_contains_empty(lower_of(crate::document::attr_or_placeholder(d[i].attrs, "ID"@)));
}

/// Helper: a hit of element `i` stands in the list of the first `n`
/// elements' hits whenever `i < n`.
proof fn lemma_upto_contains(
    d: Seq<ElementV>,
    q: Seq<char>,
    mode: SearchMode,
    i: int,
    n: int,
    m: MatchView,
)
    requires
        0 <= i < n,
        node_match(d, q, mode, i) == Option::Some(m),
    ensures
        matches_upto(d, q, mode, n).contains(m),
    decreases n,
{
    if n == i + 1 {
        assert(matches_upto(d, q, mode, n)[matches_upto(d, q, mode, i).len() as int] == m);
    } else {
        lemma_upto_contains(d, q, mode, i, n - 1, m);
        let j = choose|j: int|
            0 <= j < matches_upto(d, q, mode, n - 1).len() && #[trigger] matches_upto(
                d,
                q,
                mode,
                n - 1,
            )[j] == m;
        assert(matches_upto(d, q, mode, n)[j] == m);
    }
}

/// Every element hit is reported: whatever one element contributes under
/// the active mode stands somewhere in the document's result list.
pub proof fn lemma_match_reported(
    d: Seq<ElementV>,
    q: Seq<char>,
    mode: SearchMode,
    i: int,
    m: MatchView,
)
    requires
        0 <= i < d.len(),
        node_match(d, q, mode, i) == Option::Some(m),
    ensures
        doc_matches(d, q, mode).contains(m),
{
    lemma_upto_contains(d, q, mode, i, d.len() as int, m);
}

/// Helper: aggregates agree on a shared prefix.
proof fn lemma_upto_agrees(
    a: Seq<Seq<char>>,
    b: Seq<Seq<char>>,
    q: Seq<char>,
    mode: SearchMode,
    n: int,
)
    requires
        n <= a.len(),
        n <= b.len(),
        forall|i: int| 0 <= i < n ==> a[i] == b[i],
    ensures
        all_matches_upto(a, q, mode, n) == all_matches_upto(b, q, mode, n),
    decreases n,
{
    if n <= 0 {
    } else {
        lemma_upto_agrees(a, b, q, mode, n - 1);
    }
}

/// Helper: dropping a malformed file leaves the aggregate of the first
/// `n` remaining files equal to the aggregate of the full list's first
/// `n + 1` files.
proof fn lemma_remove_upto(
    files: Seq<Seq<char>>,
    q: Seq<char>,
    mode: SearchMode,
    k: int,
    n: int,
)
    requires
        0 <= k < files.len(),
        crate::parser::parse_of(files[k]) is None,
        k <= n <= files.len() - 1,
    ensures
        all_matches_upto(files.remove(k), q, mode, n) == all_matches_upto(files, q, mode, n + 1),
    decreases n - k,
{
    if n == k {
        lemma_upto_agrees(files.remove(k), files, q, mode, k);
        assert(file_matches(files[k], q, mode) == Seq::<MatchView>::empty());
        assert(all_matches_upto(files, q, mode, k) + Seq::<MatchView>::empty()
            =~= all_matches_upto(files, q, mode, k));
    } else {
        lemma_remove_upto(files, q, mode, k, n - 1);
        assert(files.remove(k)[n - 1] == files[n]);
    }
}

/// Per-file isolation: when one file among many is malformed, the search
/// returns exactly the hits of the remaining files.
pub proof fn lemma_malformed_file_isolated(
    files: Seq<Seq<char>>,
    q: Seq<char>,
    mode: SearchMode,
    k: int,
)
    requires
        0 <= k < files.len(),
        crate::parser::parse_of(files[k]) is None,
    ensures
        all_matches(files, q, mode) == all_matches(files.remove(k), q, mode),
{
    lemma_remove_upto(files, q, mode, k, files.len() - 1);
}

} // verus!
