//! The parsed-document model: a tree of elements held in document (preorder)
//! order, each with its tag, ordered attributes, optional inline text and the
//! index of its parent element.
use vstd::prelude::*;
use crate::text::{contains_seq, contains_substring, str_eq};

verus! {

/// One element of a parsed document.
///
/// `parent` is the index of the enclosing element; the root element stands at
/// index 0 and carries `parent == 0` as a sentinel for "no parent element".
pub struct Element {
    pub tag: String,
    pub attrs: Vec<(String, String)>,
    pub text: Option<String>,
    pub parent: usize,
}

/// The mathematical value of one element.
pub ghost struct ElementV {
    pub tag: Seq<char>,
    pub attrs: Seq<(Seq<char>, Seq<char>)>,
    pub text: Option<Seq<char>>,
    pub parent: int,
}

/// The mathematical value of an attribute list.
pub open spec fn attrs_view(attrs: Seq<(String, String)>) -> Seq<(Seq<char>, Seq<char>)> {
    attrs.map_values(|p: (String, String)| (p.0@, p.1@))
}

impl View for Element {
    type V = ElementV;

    open spec fn view(&self) -> ElementV {
        ElementV {
            tag: self.tag@,
            attrs: attrs_view(self.attrs@),
            text: match self.text {
                Option::Some(t) => Option::Some(t@),
                Option::None => Option::None,
            },
            parent: self.parent as int,
        }
    }
}

/// A whole parsed document: its elements in document (preorder) order.
pub struct Doc {
    pub nodes: Vec<Element>,
}

impl View for Doc {
    type V = Seq<ElementV>;

    open spec fn view(&self) -> Seq<ElementV> {
        self.nodes@.map_values(|n: Element| n@)
    }
}

/// Well-formedness of the preorder representation: every element but the
/// first has an earlier element as its parent, and the first is its own
/// sentinel parent.
pub open spec fn doc_wf(d: Seq<ElementV>) -> bool {
    &&& d.len() > 0 ==> d[0].parent == 0
    &&& forall|i: int| 1 <= i < d.len() ==> 0 <= #[trigger] d[i].parent < i
}

/// The value of the first attribute named `name` at or after position `j`.
pub open spec fn attr_from(
    attrs: Seq<(Seq<char>, Seq<char>)>,
    name: Seq<char>,
    j: int,
) -> Option<Seq<char>>
    decreases attrs.len() - j,
{
    if j < 0 || j >= attrs.len() {
        Option::None
    } else if attrs[j].0 == name {
        Option::Some(attrs[j].1)
    } else {
        attr_from(attrs, name, j + 1)
    }
}

/// The value of the first attribute named `name`, if any.
pub open spec fn attr_of(attrs: Seq<(Seq<char>, Seq<char>)>, name: Seq<char>) -> Option<
    Seq<char>,
> {
    attr_from(attrs, name, 0)
}

/// The value of the first attribute named `name`, or the placeholder `"?"`
/// when the attribute is absent.
pub open spec fn attr_or_placeholder(
    attrs: Seq<(Seq<char>, Seq<char>)>,
    name: Seq<char>,
) -> Seq<char> {
    match attr_of(attrs, name) {
        Option::Some(v) => v,
        Option::None => "?"@,
    }
}

/// First-match attribute lookup, the executable side of `attr_of`.
pub fn get_attr(attrs: &Vec<(String, String)>, name: &str) -> (r: Option<String>)
    ensures
        (match r {
            Option::Some(v) => attr_of(attrs_view(attrs@), name@) == Option::Some(v@),
            Option::None => attr_of(attrs_view(attrs@), name@) is None,
        }),
{
    let n = attrs.len();
    let mut j: usize = 0;
    while j < n
        invariant
            n == attrs@.len(),
            j <= n,
            attr_of(attrs_view(attrs@), name@) == attr_from(attrs_view(attrs@), name@, j as int),
        decreases n - j,
    {
        proof {
            assert(attrs_view(attrs@)[j as int] == (attrs@[j as int].0@, attrs@[j as int].1@));
        }
        if str_eq(attrs[j].0.as_str(), name) {
            return Option::Some(attrs[j].1.clone());
        }
        j += 1;
    }
    Option::None
}

/// Attribute lookup with the `"?"` placeholder, the executable side of
/// `attr_or_placeholder`.
pub fn get_attr_or_placeholder(attrs: &Vec<(String, String)>, name: &str) -> (r: String)
    ensures
        r@ == attr_or_placeholder(attrs_view(attrs@), name@),
{
    match get_attr(attrs, name) {
        Option::Some(v) => v,
        Option::None => "?".to_owned(),
    }
}

/// The inline text of the first child of `g` (scanning positions from `j`
/// up) whose tag name contains `pat`, or `"?"` when there is no such child
/// or it has no inline text.
pub open spec fn child_text_from(d: Seq<ElementV>, g: int, pat: Seq<char>, j: int) -> Seq<char>
    decreases d.len() - j,
{
    if j < 1 || j >= d.len() {
        "?"@
    } else if d[j].parent == g && contains_seq(d[j].tag, pat) {
        match d[j].text {
            Option::Some(t) => t,
            Option::None => "?"@,
        }
    } else {
        child_text_from(d, g, pat, j + 1)
    }
}

/// The inline text of the first child of `g` whose tag name contains `pat`,
/// or `"?"`.
pub open spec fn child_text(d: Seq<ElementV>, g: int, pat: Seq<char>) -> Seq<char> {
    child_text_from(d, g, pat, 1)
}

/// Scan for the first child of `g` whose tag contains `pat` and hand back
/// its inline text, the executable side of `child_text`.
pub fn get_child_text(doc: &Doc, g: usize, pat: &str) -> (r: String)
    ensures
        r@ == child_text(doc@, g as int, pat@),
{
    let n = doc.nodes.len();
    let mut j: usize = 1;
    while j < n
        invariant
            n == doc.nodes@.len(),
            1 <= j,
            child_text(doc@, g as int, pat@) == child_text_from(doc@, g as int, pat@, j as int),
        decreases n - j,
    {
        proof {
            assert(doc@[j as int] == doc.nodes@[j as int]@);
        }
        if doc.nodes[j].parent == g && contains_substring(doc.nodes[j].tag.as_str(), pat) {
            return match &doc.nodes[j].text {
                Option::Some(t) => t.clone(),
                Option::None => "?".to_owned(),
            };
        }
        j += 1;
    }
    "?".to_owned()
}

} // verus!
