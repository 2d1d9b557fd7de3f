//! The three search modes and their matchers: each walks a parsed document in
//! document order and extracts a record for every element whose identifier
//! contains the (pre-lowercased) query.
use vstd::prelude::*;
use crate::document::{
    attr_of, attr_or_placeholder, child_text, doc_wf, get_attr, get_attr_or_placeholder,
    get_child_text, Doc, ElementV,
};
use crate::text::{contains_seq, contains_substring, lower_of, lowercase, str_eq};

verus! {

/// Which identifier attribute a search runs over.
#[derive(Clone, Debug, PartialEq, Eq, Structural)]
pub enum SearchMode {
    MediaID,
    Guid,
    ShortID,
}

/// One reported hit. `"?"` marks an attribute that the reported element does
/// not carry; an empty string marks a field that the active mode does not
/// fill. The two are never conflated.
#[derive(Clone, Debug)]
pub struct MatchInfo {
    pub tag: String,
    pub name: String,
    pub id: String,
    pub short_id: String,
    pub media_id: String,
    pub language: String,
    pub audio_file: String,
}

/// The mathematical value of one reported hit.
pub ghost struct MatchView {
    pub tag: Seq<char>,
    pub name: Seq<char>,
    pub id: Seq<char>,
    pub short_id: Seq<char>,
    pub media_id: Seq<char>,
    pub language: Seq<char>,
    pub audio_file: Seq<char>,
}

impl View for MatchInfo {
    type V = MatchView;

    open spec fn view(&self) -> MatchView {
        MatchView {
            tag: self.tag@,
            name: self.name@,
            id: self.id@,
            short_id: self.short_id@,
            media_id: self.media_id@,
            language: self.language@,
            audio_file: self.audio_file@,
        }
    }
}

/// The values of a whole result list.
pub open spec fn match_views(ms: Seq<MatchInfo>) -> Seq<MatchView> {
    ms.map_values(|m: MatchInfo| m@)
}

/// Guid mode, one element: an element carrying an `ID` attribute is reported
/// when the lower-cased value contains the query. The mode-inapplicable
/// fields stay empty.
pub open spec fn guid_node_match(n: ElementV, q: Seq<char>) -> Option<MatchView> {
    match attr_of(n.attrs, "ID"@) {
        Option::Some(id) => if contains_seq(lower_of(id), q) {
            Option::Some(
                MatchView {
                    tag: n.tag,
                    name: attr_or_placeholder(n.attrs, "Name"@),
                    id: id,
                    short_id: attr_or_placeholder(n.attrs, "ShortID"@),
                    media_id: Seq::empty(),
                    language: Seq::empty(),
                    audio_file: Seq::empty(),
                },
            )
        } else {
            Option::None
        },
        Option::None => Option::None,
    }
}

/// ShortID mode, one element: as Guid mode, but over the `ShortID`
/// attribute.
pub open spec fn short_node_match(n: ElementV, q: Seq<char>) -> Option<MatchView> {
    match attr_of(n.attrs, "ShortID"@) {
        Option::Some(sid) => if contains_seq(lower_of(sid), q) {
            Option::Some(
                MatchView {
                    tag: n.tag,
                    name: attr_or_placeholder(n.attrs, "Name"@),
                    id: attr_or_placeholder(n.attrs, "ID"@),
                    short_id: sid,
                    media_id: Seq::empty(),
                    language: Seq::empty(),
                    audio_file: Seq::empty(),
                },
            )
        } else {
            Option::None
        },
        Option::None => Option::None,
    }
}

/// MediaID mode, one element: an element tagged `MediaID` is matched on its
/// `ID` attribute (the placeholder stands in when it is absent), and the
/// report describes the grandparent element. An occurrence without a parent
/// and a grandparent element is skipped rather than reported.
pub open spec fn media_node_match(d: Seq<ElementV>, q: Seq<char>, i: int) -> Option<MatchView> {
    let n = d[i];
    if n.tag == "MediaID"@ && contains_seq(lower_of(attr_or_placeholder(n.attrs, "ID"@)), q) {
        if i != 0 && n.parent != 0 {
            let g = d[n.parent].parent;
            Option::Some(
                MatchView {
                    tag: d[g].tag,
                    name: attr_or_placeholder(d[g].attrs, "Name"@),
                    id: attr_or_placeholder(d[g].attrs, "ID"@),
                    short_id: "?"@,
                    media_id: attr_or_placeholder(n.attrs, "ID"@),
                    language: child_text(d, g, "Language"@),
                    audio_file: child_text(d, g, "AudioFile"@),
                },
            )
        } else {
            Option::None
        }
    } else {
        Option::None
    }
}

/// What one element contributes under the given mode.
pub open spec fn node_match(d: Seq<ElementV>, q: Seq<char>, mode: SearchMode, i: int) -> Option<
    MatchView,
> {
    match mode {
        SearchMode::MediaID => media_node_match(d, q, i),
        SearchMode::Guid => guid_node_match(d[i], q),
        SearchMode::ShortID => short_node_match(d[i], q),
    }
}

/// All hits among the first `n` elements, in document order.
pub open spec fn matches_upto(d: Seq<ElementV>, q: Seq<char>, mode: SearchMode, n: int) -> Seq<
    MatchView,
>
    decreases n,
{
    if n <= 0 {
        Seq::empty()
    } else {
        matches_upto(d, q, mode, n - 1) + (match node_match(d, q, mode, n - 1) {
            Option::Some(m) => seq![m],
            Option::None => Seq::empty(),
        })
    }
}

/// All hits of a document under the given mode, in document order.
pub open spec fn doc_matches(d: Seq<ElementV>, q: Seq<char>, mode: SearchMode) -> Seq<MatchView> {
    matches_upto(d, q, mode, d.len() as int)
}

/// Appending one record commutes with taking values.
proof fn lemma_match_views_push(ms: Seq<MatchInfo>, m: MatchInfo)
    ensures
        match_views(ms.push(m)) == match_views(ms) + seq![m@],
{
    assert(match_views(ms.push(m)) =~= match_views(ms) + seq![m@]);
}

/// Guid mode, one element, executable side.
fn guid_match_node(n: &crate::document::Element, q: &str) -> (r: Option<MatchInfo>)
    ensures
        (match r {
            Option::Some(m) => guid_node_match(n@, q@) == Option::Some(m@),
            Option::None => guid_node_match(n@, q@) is None,
        }),
{
    match get_attr(&n.attrs, "ID") {
        Option::Some(id) => {
            let low = lowercase(id.as_str());
            if contains_substring(low.as_str(), q) {
                Option::Some(
                    MatchInfo {
                        tag: n.tag.clone(),
                        name: get_attr_or_placeholder(&n.attrs, "Name"),
                        id: id,
                        short_id: get_attr_or_placeholder(&n.attrs, "ShortID"),
                        media_id: String::new(),
                        language: String::new(),
                        audio_file: String::new(),
                    },
                )
            } else {
                Option::None
            }
        },
        Option::None => Option::None,
    }
}

/// ShortID mode, one element, executable side.
fn short_match_node(n: &crate::document::Element, q: &str) -> (r: Option<MatchInfo>)
    ensures
        (match r {
            Option::Some(m) => short_node_match(n@, q@) == Option::Some(m@),
            Option::None => short_node_match(n@, q@) is None,
        }),
{
    match get_attr(&n.attrs, "ShortID") {
        Option::Some(sid) => {
            let low = lowercase(sid.as_str());
            if contains_substring(low.as_str(), q) {
                Option::Some(
                    MatchInfo {
                        tag: n.tag.clone(),
                        name: get_attr_or_placeholder(&n.attrs, "Name"),
                        id: get_attr_or_placeholder(&n.attrs, "ID"),
                        short_id: sid,
                        media_id: String::new(),
                        language: String::new(),
                        audio_file: String::new(),
                    },
                )
            } else {
                Option::None
            }
        },
        Option::None => Option::None,
    }
}

/// MediaID mode, one element, executable side.
fn media_match_node(doc: &Doc, i: usize, q: &str) -> (r: Option<MatchInfo>)
    requires
        doc_wf(doc@),
        i < doc.nodes@.len(),
    ensures
        (match r {
            Option::Some(m) => media_node_match(doc@, q@, i as int) == Option::Some(m@),
            Option::None => media_node_match(doc@, q@, i as int) is None,
        }),
{
    proof {
        assert(doc@[i as int] == doc.nodes@[i as int]@);
    }
    if !str_eq(doc.nodes[i].tag.as_str(), "MediaID") {
        return Option::None;
    }
    let id = get_attr_or_placeholder(&doc.nodes[i].attrs, "ID");
    let low = lowercase(id.as_str());
    if !contains_substring(low.as_str(), q) {
        return Option::None;
    }
    let p = doc.nodes[i].parent;
    if i == 0 || p == 0 {
        return Option::None;
    }
    proof {
        assert(doc@[p as int] == doc.nodes@[p as int]@);
    }
    let g = doc.nodes[p].parent;
    proof {
        assert(doc@[g as int] == doc.nodes@[g as int]@);
    }
    Option::Some(
        MatchInfo {
            tag: doc.nodes[g].tag.clone(),
            name: get_attr_or_placeholder(&doc.nodes[g].attrs, "Name"),
            id: get_attr_or_placeholder(&doc.nodes[g].attrs, "ID"),
            short_id: "?".to_owned(),
            media_id: id,
            language: get_child_text(doc, g, "Language"),
            audio_file: get_child_text(doc, g, "AudioFile"),
        },
    )
}

/// Scan every element named `MediaID` for an `ID` attribute containing the
/// (pre-lowercased) query; each hit reports the grandparent element with its
/// related attributes and the text of its `Language`- and `AudioFile`-named
/// children.
pub fn search_media_id(query: &str, doc: &Doc) -> (r: Vec<MatchInfo>)
    requires
        doc_wf(doc@),
    ensures
        match_views(r@) == doc_matches(doc@, query@, SearchMode::MediaID),
{
    search_nodes(query, doc, &SearchMode::MediaID)
}

/// Scan every element carrying an `ID` attribute whose lower-cased value
/// contains the (pre-lowercased) query.
pub fn search_guid(query: &str, doc: &Doc) -> (r: Vec<MatchInfo>)
    requires
        doc_wf(doc@),
    ensures
        match_views(r@) == doc_matches(doc@, query@, SearchMode::Guid),
{
    search_nodes(query, doc, &SearchMode::Guid)
}

/// Scan every element carrying a `ShortID` attribute whose lower-cased value
/// contains the (pre-lowercased) query.
pub fn search_short_id(query: &str, doc: &Doc) -> (r: Vec<MatchInfo>)
    requires
        doc_wf(doc@),
    ensures
        match_views(r@) == doc_matches(doc@, query@, SearchMode::ShortID),
{
    search_nodes(query, doc, &SearchMode::ShortID)
}

/// Walk the document in document order and collect every hit of the active
/// mode.
fn search_nodes(query: &str, doc: &Doc, mode: &SearchMode) -> (r: Vec<MatchInfo>)
    requires
        doc_wf(doc@),
    ensures
        match_views(r@) == doc_matches(doc@, query@, *mode),
{
    let n = doc.nodes.len();
    let mut out: Vec<MatchInfo> = Vec::new();
    let mut i: usize = 0;
    while i < n
        invariant
            doc_wf(doc@),
            n == doc.nodes@.len(),
            i <= n,
            match_views(out@) == matches_upto(doc@, query@, *mode, i as int),
        decreases n - i,
    {
        let found = match mode {
            SearchMode::MediaID => media_match_node(doc, i, query),
            SearchMode::Guid => {
                proof {
                    assert(doc@[i as int] == doc.nodes@[i as int]@);
                }
                guid_match_node(&doc.nodes[i], query)
            },
            SearchMode::ShortID => {
                proof {
                    assert(doc@[i as int] == doc.nodes@[i as int]@);
                }
                short_match_node(&doc.nodes[i], query)
            },
        };
        proof {
            assert(matches_upto(doc@, query@, *mode, i + 1) == matches_upto(
                doc@,
                query@,
                *mode,
                i as int,
            ) + (match node_match(doc@, query@, *mode, i as int) {
                Option::Some(m) => seq![m],
                Option::None => Seq::empty(),
            }));
        }
        match found {
            Option::Some(m) => {
                proof {
                    lemma_match_views_push(out@, m);
                }
                out.push(m);
            },
            Option::None => {
                proof {
                    assert(match_views(out@) + Seq::<MatchView>::empty() =~= match_views(out@));
                }
            },
        }
        i += 1;
    }
    out
}

} // verus!
