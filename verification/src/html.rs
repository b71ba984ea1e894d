//! An HTML page as a tree of plain values, and the ways the content
//! extraction finds elements in it.

use vstd::prelude::*;

use crate::text::copy_string;

verus! {

/// A node of an HTML tree: an element with its tag name and children, a
/// text node, or anything else (a comment, a doctype).
#[derive(Debug)]
pub enum HtmlNode {
    Element { name: String, children: Vec<HtmlNode> },
    Text(String),
    Other,
}

/// The root element that scraper's `Html::parse_fragment` makes of `html`,
/// node for node.
pub uninterp spec fn html_fragment(html: Seq<char>) -> HtmlNode;

/// Parses `html` as a fragment with scraper (html5ever) and converts the
/// tree under the fragment's root element node for node.
#[verifier::external_body]
pub(crate) fn parse_html_fragment(html: &str) -> (r: HtmlNode)
    ensures
        r == html_fragment(html@),
{
    from_element(scraper::Html::parse_fragment(html).root_element())
}

/// scraper's reference to an element of a parsed tree, which only the
/// conversion below reads.
#[verifier::external_type_specification]
#[verifier::external_body]
pub struct ExElementRef<'a>(scraper::ElementRef<'a>);

/// The [`HtmlNode`] of a scraper element: its local name and its children,
/// elements and texts converted, every other kind of node as `Other`.
#[verifier::external_body]
fn from_element(e: scraper::ElementRef) -> HtmlNode {
    HtmlNode::Element {
        name: e.value().name().to_string(),
        children: e.children().map(|c| match c.value() {
            scraper::Node::Element(_) => from_element(scraper::ElementRef::wrap(c).unwrap()),
            scraper::Node::Text(t) => HtmlNode::Text(t.to_string()),
            _ => HtmlNode::Other,
        }).collect(),
    }
}

/// The text of a node: its text nodes, in document order, joined.
pub open spec fn node_text(n: HtmlNode) -> Seq<char>
    decreases n, 0int,
{
    match n {
        HtmlNode::Element { children, .. } => texts_from(children@, 0),
        HtmlNode::Text(t) => t@,
        HtmlNode::Other => seq![],
    }
}

/// The text of the nodes `cs[i..]`, joined.
pub open spec fn texts_from(cs: Seq<HtmlNode>, i: int) -> Seq<char>
    decreases cs, cs.len() - i,
{
    if 0 <= i < cs.len() {
        node_text(cs[i]) + texts_from(cs, i + 1)
    } else {
        seq![]
    }
}

/// The text of a node, as scraper's `text()` joins it.
pub fn html_text(n: &HtmlNode) -> (s: String)
    ensures
        s@ == node_text(*n),
    decreases *n,
{
    match n {
        HtmlNode::Element { children, .. } => {
            let mut s = String::new();
            let mut i: usize = 0;
            while i < children.len()
                invariant
                    *n matches HtmlNode::Element { children: c, .. } && c == *children,
                    i <= children@.len(),
                    s@ + texts_from(children@, i as int) == texts_from(children@, 0),
                decreases children@.len() - i,
            {
                proof {
                    assert(decreases_to!(*n => (*n)->Element_children@[i as int]));
                }
                let t = html_text(&children[i]);
                let ghost before = s@;
                s.append(t.as_str());
                assert(before + texts_from(children@, i as int) =~= s@ + texts_from(children@, i + 1));
                i += 1;
            }
            assert(s@ + texts_from(children@, i as int) =~= s@);
            s
        },
        HtmlNode::Text(t) => copy_string(t),
        HtmlNode::Other => String::new(),
    }
}

/// The names of a list of tag names.
pub open spec fn names_model(names: Seq<&str>) -> Seq<Seq<char>> {
    names.map_values(|s: &str| s@)
}

/// Whether `n` is an element whose tag is one of `names`.
pub open spec fn named(n: HtmlNode, names: Seq<Seq<char>>) -> bool {
    n matches HtmlNode::Element { name, .. } && names.contains(name@)
}

/// Whether the tag `name` is one of `names`.
fn name_in(name: &str, names: &[&str]) -> (b: bool)
    ensures
        b == names_model(names@).contains(name@),
{
    let mut i: usize = 0;
    while i < names.len()
        invariant
            i <= names@.len(),
            forall|j: int| 0 <= j < i ==> (#[trigger] names@[j])@ != name@,
        decreases names@.len() - i,
    {
        if crate::text::str_eq(names[i], name) {
            assert(names_model(names@)[i as int] == name@);
            return true;
        }
        i += 1;
    }
    assert forall|j: int| 0 <= j < names_model(names@).len() implies #[trigger] names_model(names@)[j] != name@ by {
        assert(names_model(names@)[j] == names@[j]@);
    }
    false
}

/// Whether `n` is an element whose tag is one of `names`.
fn is_named(n: &HtmlNode, names: &[&str]) -> (b: bool)
    ensures
        b == named(*n, names_model(names@)),
{
    match n {
        HtmlNode::Element { name, .. } => name_in(name.as_str(), names),
        _ => false,
    }
}

/// An element found in a page: the element, whether it or an element
/// around it has the scope's tag, and the nodes that follow it under the
/// same parent.
pub struct FoundModel {
    pub node: HtmlNode,
    pub in_scope: bool,
    pub after: Seq<HtmlNode>,
}

/// The elements below `n` whose tags are among `names`, in document order;
/// `inside` tells whether `n` or an element around it has the tag `scope`.
pub open spec fn found_below(n: HtmlNode, names: Seq<Seq<char>>, scope: Seq<char>, inside: bool) -> Seq<FoundModel>
    decreases n, 0int,
{
    match n {
        HtmlNode::Element { children, .. } => found_from(children@, 0, names, scope, inside),
        _ => seq![],
    }
}

/// The elements among the nodes `cs[i..]` and below them whose tags are
/// among `names`, in document order, each before the elements inside it.
pub open spec fn found_from(cs: Seq<HtmlNode>, i: int, names: Seq<Seq<char>>, scope: Seq<char>, inside: bool) -> Seq<FoundModel>
    decreases cs, cs.len() - i,
{
    if 0 <= i < cs.len() {
        let inside_here = inside || named(cs[i], seq![scope]);
        let here = if named(cs[i], names) {
            seq![FoundModel { node: cs[i], in_scope: inside_here, after: cs.skip(i + 1) }]
        } else {
            seq![]
        };
        here + found_below(cs[i], names, scope, inside_here) + found_from(cs, i + 1, names, scope, inside)
    } else {
        seq![]
    }
}

/// An element found in a page, with the list it stands in and its place
/// there.
pub struct Found<'a> {
    pub node: &'a HtmlNode,
    pub in_scope: bool,
    pub siblings: &'a Vec<HtmlNode>,
    pub index: usize,
}

impl<'a> View for Found<'a> {
    type V = FoundModel;

    open spec fn view(&self) -> FoundModel {
        FoundModel { node: *self.node, in_scope: self.in_scope, after: self.siblings@.skip(self.index + 1) }
    }
}

/// The models of a list of found elements.
pub open spec fn founds_model<'a>(v: Seq<Found<'a>>) -> Seq<FoundModel> {
    v.map_values(|f: Found<'a>| f@)
}

/// Each found element has its place within its list.
pub open spec fn well_placed<'a>(v: Seq<Found<'a>>) -> bool {
    forall|k: int| 0 <= k < v.len() ==> (#[trigger] v[k]).index < v[k].siblings@.len()
}

/// Appends to `out` the elements below `n` whose tags are among `names`.
pub fn find_below<'a>(n: &'a HtmlNode, names: &[&str], scope: &str, inside: bool, out: &mut Vec<Found<'a>>)
    requires
        well_placed(old(out)@),
    ensures
        well_placed(final(out)@),
        founds_model(final(out)@) == founds_model(old(out)@) + found_below(*n, names_model(names@), scope@, inside),
    decreases *n,
{
    match n {
        HtmlNode::Element { children, .. } => {
            proof { assert(decreases_to!(*n => (*n)->Element_children)); }
            find_from(children, names, scope, inside, out);
        },
        _ => {
            assert(founds_model(out@) =~= founds_model(out@) + found_below(*n, names_model(names@), scope@, inside));
        },
    }
}

/// Appends to `out` the elements among the nodes `cs` and below them whose
/// tags are among `names`.
pub fn find_from<'a>(cs: &'a Vec<HtmlNode>, names: &[&str], scope: &str, inside: bool, out: &mut Vec<Found<'a>>)
    requires
        well_placed(old(out)@),
    ensures
        well_placed(final(out)@),
        founds_model(final(out)@) == founds_model(old(out)@) + found_from(cs@, 0, names_model(names@), scope@, inside),
    decreases *cs,
{
    let ghost start = founds_model(out@);
    let ghost nm = names_model(names@);
    let scope_names: [&str; 1] = [scope];
    let mut i: usize = 0;
    while i < cs.len()
        invariant
            i <= cs@.len(),
            nm == names_model(names@),
            scope_names@ == seq![scope],
            well_placed(out@),
            founds_model(out@) + found_from(cs@, i as int, nm, scope@, inside) == start + found_from(cs@, 0, nm, scope@, inside),
        decreases cs@.len() - i,
    {
        let c = &cs[i];
        proof {
            assert(decreases_to!(*cs => cs@[i as int]));
            assert(names_model(scope_names@) =~= seq![scope@]);
        }
        let inside_here = inside || is_named(c, &scope_names);
        let ghost before = founds_model(out@);
        if is_named(c, names) {
            out.push(Found { node: c, in_scope: inside_here, siblings: cs, index: i });
        }
        let ghost pushed = founds_model(out@);
        assert(pushed =~= before + (if named(cs@[i as int], nm) {
            seq![FoundModel { node: cs@[i as int], in_scope: inside_here, after: cs@.skip(i + 1) }]
        } else {
            seq![]
        }));
        find_below(c, names, scope, inside_here, out);
        assert(founds_model(out@) + found_from(cs@, i + 1, nm, scope@, inside) =~= before + found_from(cs@, i as int, nm, scope@, inside));
        i += 1;
    }
    assert(founds_model(out@) + found_from(cs@, i as int, nm, scope@, inside) =~= founds_model(out@));
}

} // verus!
