//! What the tree of a page holds for the content extraction: its tables,
//! its headings and the text that follows each heading, as found, before
//! they are cleaned.

use vstd::prelude::*;

use crate::html::{
    find_below, find_from, found_below, found_from, founds_model, html_text, named, names_model, node_text, Found,
    FoundModel, HtmlNode,
};
use crate::services::content_extractor::{HeadingContent, HeadingSection, TableContent};
use crate::text::{chars_of, copy_string, opt_string_model, strings_model};

verus! {

/// The texts of the found elements, in order.
pub open spec fn found_texts(fs: Seq<FoundModel>) -> Seq<Seq<char>> {
    Seq::new(fs.len(), |i: int| node_text(fs[i].node))
}

/// The texts of the found elements that lie in the scope, in order.
pub open spec fn scoped_texts(fs: Seq<FoundModel>) -> Seq<Seq<char>>
    decreases fs.len(),
{
    if fs.len() == 0 {
        seq![]
    } else if fs.last().in_scope {
        scoped_texts(fs.drop_last()).push(node_text(fs.last().node))
    } else {
        scoped_texts(fs.drop_last())
    }
}

/// The elements found below `n` with one of the tags `names`, in document
/// order; `in_thead` tells whether `n` or an element around it is a
/// `thead`.
pub open spec fn below(n: HtmlNode, names: Seq<Seq<char>>, in_thead: bool) -> Seq<FoundModel> {
    found_below(n, names, "thead"@, in_thead)
}

/// `t` is the table found at `f` as scraper reads it: the text of its first
/// `caption`; the texts of its `th` and `td` cells inside a `thead`; and
/// for each of its `tr` rows, the texts of the row's `td` and `th` cells.
pub open spec fn raw_table_as(f: FoundModel, t: TableContent) -> bool {
    let captions = below(f.node, seq!["caption"@], f.in_scope);
    let rows = below(f.node, seq!["tr"@], f.in_scope);
    &&& opt_string_model(t.caption) == if captions.len() > 0 { Some(node_text(captions[0].node)) } else { None }
    &&& strings_model(t.headers@) == scoped_texts(below(f.node, seq!["th"@, "td"@], f.in_scope))
    &&& t.rows@.len() == rows.len()
    &&& forall|i: int| 0 <= i < rows.len() ==>
        strings_model((#[trigger] t.rows@[i])@) == found_texts(below(rows[i].node, seq!["td"@, "th"@], rows[i].in_scope))
}

/// The `table` elements of a page, in document order.
pub open spec fn page_tables(page: Seq<HtmlNode>) -> Seq<FoundModel> {
    found_from(page, 0, seq!["table"@], "thead"@, false)
}

fn texts_of(fs: &Vec<Found>) -> (r: Vec<String>)
    ensures
        strings_model(r@) == found_texts(founds_model(fs@)),
{
    let mut r: Vec<String> = Vec::new();
    let mut i: usize = 0;
    while i < fs.len()
        invariant
            i <= fs@.len(),
            r@.len() == i,
            forall|j: int| 0 <= j < i ==> (#[trigger] r@[j])@ == node_text(*fs@[j].node),
        decreases fs@.len() - i,
    {
        r.push(html_text(fs[i].node));
        i += 1;
    }
    assert(strings_model(r@) =~= found_texts(founds_model(fs@)));
    r
}

fn scoped_texts_of(fs: &Vec<Found>) -> (r: Vec<String>)
    ensures
        strings_model(r@) == scoped_texts(founds_model(fs@)),
{
    let mut r: Vec<String> = Vec::new();
    let mut i: usize = 0;
    while i < fs.len()
        invariant
            i <= fs@.len(),
            strings_model(r@) == scoped_texts(founds_model(fs@).take(i as int)),
        decreases fs@.len() - i,
    {
        let ghost before = r@;
        if fs[i].in_scope {
            r.push(html_text(fs[i].node));
        }
        assert(founds_model(fs@).take(i + 1).drop_last() =~= founds_model(fs@).take(i as int));
        assert(strings_model(r@) =~= scoped_texts(founds_model(fs@).take(i + 1)));
        i += 1;
    }
    assert(founds_model(fs@).take(i as int) =~= founds_model(fs@));
    r
}

/// The table found at `f`, before cleaning.
fn raw_table(f: &Found) -> (t: TableContent)
    ensures
        raw_table_as(f@, t),
{
    let caption_tags: [&str; 1] = ["caption"];
    let header_tags: [&str; 2] = ["th", "td"];
    let row_tags: [&str; 1] = ["tr"];
    let cell_tags: [&str; 2] = ["td", "th"];
    proof {
        assert(names_model(caption_tags@) =~= seq!["caption"@]);
        assert(names_model(header_tags@) =~= seq!["th"@, "td"@]);
        assert(names_model(row_tags@) =~= seq!["tr"@]);
        assert(names_model(cell_tags@) =~= seq!["td"@, "th"@]);
    }
    let mut captions: Vec<Found> = Vec::new();
    assert(founds_model(captions@) =~= seq![]);
    find_below(f.node, &caption_tags, "thead", f.in_scope, &mut captions);
    assert(founds_model(captions@) =~= below(f@.node, seq!["caption"@], f.in_scope));
    let caption = if captions.len() > 0 {
        assert(founds_model(captions@)[0] == captions@[0]@);
        Some(html_text(captions[0].node))
    } else {
        None
    };
    let mut cells: Vec<Found> = Vec::new();
    assert(founds_model(cells@) =~= seq![]);
    find_below(f.node, &header_tags, "thead", f.in_scope, &mut cells);
    assert(founds_model(cells@) =~= below(f@.node, seq!["th"@, "td"@], f.in_scope));
    let headers = scoped_texts_of(&cells);
    let mut row_elements: Vec<Found> = Vec::new();
    assert(founds_model(row_elements@) =~= seq![]);
    find_below(f.node, &row_tags, "thead", f.in_scope, &mut row_elements);
    let ghost found_rows = below(f@.node, seq!["tr"@], f.in_scope);
    assert(founds_model(row_elements@) =~= found_rows);
    let mut rows: Vec<Vec<String>> = Vec::new();
    let mut i: usize = 0;
    while i < row_elements.len()
        invariant
            i <= row_elements@.len(),
            rows@.len() == i,
            names_model(cell_tags@) == seq!["td"@, "th"@],
            forall|j: int| 0 <= j < i ==> strings_model((#[trigger] rows@[j])@) == found_texts(
                below(*row_elements@[j].node, seq!["td"@, "th"@], row_elements@[j].in_scope),
            ),
        decreases row_elements@.len() - i,
    {
        let mut row_cells: Vec<Found> = Vec::new();
        assert(founds_model(row_cells@) =~= seq![]);
        find_below(row_elements[i].node, &cell_tags, "thead", row_elements[i].in_scope, &mut row_cells);
        assert(founds_model(row_cells@) =~= below(*row_elements@[i as int].node, seq!["td"@, "th"@], row_elements@[i as int].in_scope));
        rows.push(texts_of(&row_cells));
        i += 1;
    }
    let t = TableContent { caption, headers, rows };
    assert forall|j: int| 0 <= j < found_rows.len() implies strings_model((#[trigger] t.rows@[j])@)
        == found_texts(below(found_rows[j].node, seq!["td"@, "th"@], found_rows[j].in_scope)) by {
        assert(found_rows[j] == founds_model(row_elements@)[j]);
    }
    t
}

/// The tables of a page, before cleaning, in document order.
pub fn raw_tables(page: &Vec<HtmlNode>) -> (r: Vec<TableContent>)
    ensures
        r@.len() == page_tables(page@).len(),
        forall|i: int| 0 <= i < r@.len() ==> raw_table_as(page_tables(page@)[i], #[trigger] r@[i]),
{
    let table_tags: [&str; 1] = ["table"];
    assert(names_model(table_tags@) =~= seq!["table"@]);
    let mut found: Vec<Found> = Vec::new();
    assert(founds_model(found@) =~= seq![]);
    find_from(page, &table_tags, "thead", false, &mut found);
    assert(founds_model(found@) =~= page_tables(page@));
    let mut r: Vec<TableContent> = Vec::new();
    let mut i: usize = 0;
    while i < found.len()
        invariant
            i <= found@.len(),
            r@.len() == i,
            founds_model(found@) == page_tables(page@),
            forall|j: int| 0 <= j < i ==> raw_table_as(page_tables(page@)[j], #[trigger] r@[j]),
        decreases found@.len() - i,
    {
        let t = raw_table(&found[i]);
        assert(founds_model(found@)[i as int] == found@[i as int]@);
        r.push(t);
        i += 1;
    }
    r
}

/// The tag of a heading of `level`, `h1` to `h6`.
pub open spec fn heading_tag(level: u8) -> Seq<char> {
    if level == 1 {
        "h1"@
    } else if level == 2 {
        "h2"@
    } else if level == 3 {
        "h3"@
    } else if level == 4 {
        "h4"@
    } else if level == 5 {
        "h5"@
    } else {
        "h6"@
    }
}

fn heading_tag_str(level: u8) -> (s: &'static str)
    ensures
        s@ == heading_tag(level),
{
    if level == 1 {
        "h1"
    } else if level == 2 {
        "h2"
    } else if level == 3 {
        "h3"
    } else if level == 4 {
        "h4"
    } else if level == 5 {
        "h5"
    } else {
        "h6"
    }
}

/// The headings of one level of a page, in document order.
pub open spec fn level_headings(page: Seq<HtmlNode>, level: u8) -> Seq<FoundModel> {
    found_from(page, 0, seq![heading_tag(level)], "thead"@, false)
}

/// The headings of the levels `1..=k` of a page: those of level 1 in
/// document order, then those of level 2, and so on, each with its level.
pub open spec fn headings_upto(page: Seq<HtmlNode>, k: int) -> Seq<(u8, FoundModel)>
    decreases k,
{
    if k <= 0 {
        seq![]
    } else {
        let level = k as u8;
        let fs = level_headings(page, level);
        headings_upto(page, k - 1) + Seq::new(fs.len(), |i: int| (level, fs[i]))
    }
}

/// The headings of a page, level by level.
pub open spec fn page_headings(page: Seq<HtmlNode>) -> Seq<(u8, FoundModel)> {
    headings_upto(page, 6)
}

/// The headings of a page with their levels, level by level.
fn headings_found<'a>(page: &'a Vec<HtmlNode>) -> (r: Vec<(u8, Found<'a>)>)
    ensures
        r@.len() == page_headings(page@).len(),
        forall|i: int| 0 <= i < r@.len() ==> (#[trigger] r@[i]).0 == page_headings(page@)[i].0
            && r@[i].1@ == page_headings(page@)[i].1 && r@[i].1.index < r@[i].1.siblings@.len(),
{
    let mut r: Vec<(u8, Found<'a>)> = Vec::new();
    let mut level: u8 = 1;
    while level <= 6
        invariant
            1 <= level <= 7,
            r@.len() == headings_upto(page@, level - 1).len(),
            forall|i: int| 0 <= i < r@.len() ==> (#[trigger] r@[i]).0 == headings_upto(page@, level - 1)[i].0
                && r@[i].1@ == headings_upto(page@, level - 1)[i].1 && r@[i].1.index < r@[i].1.siblings@.len(),
        decreases 7 - level,
    {
        let tags: [&str; 1] = [heading_tag_str(level)];
        assert(names_model(tags@) =~= seq![heading_tag(level)]);
        let mut found: Vec<Found<'a>> = Vec::new();
        assert(founds_model(found@) =~= seq![]);
        find_from(page, &tags, "thead", false, &mut found);
        assert(founds_model(found@) =~= level_headings(page@, level));
        let ghost before = r@;
        let mut j: usize = 0;
        while j < found.len()
            invariant
                j <= found@.len(),
                1 <= level <= 6,
                founds_model(found@) == level_headings(page@, level),
                crate::html::well_placed(found@),
                r@.len() == before.len() + j,
                forall|i: int| 0 <= i < before.len() ==> #[trigger] r@[i] == before[i],
                forall|i: int| 0 <= i < j ==> (#[trigger] r@[before.len() + i]).0 == level
                    && r@[before.len() + i].1@ == level_headings(page@, level)[i]
                    && r@[before.len() + i].1.index < r@[before.len() + i].1.siblings@.len(),
            decreases found@.len() - j,
        {
            let f = Found { node: found[j].node, in_scope: found[j].in_scope, siblings: found[j].siblings, index: found[j].index };
            assert(f@ == founds_model(found@)[j as int]);
            r.push((level, f));
            j += 1;
        }
        proof {
            let ghost k = level as int;
            assert(k as u8 == level);
            assert forall|i: int| 0 <= i < r@.len() implies (#[trigger] r@[i]).0 == headings_upto(page@, k)[i].0
                && r@[i].1@ == headings_upto(page@, k)[i].1 && r@[i].1.index < r@[i].1.siblings@.len() by {
                if i >= before.len() {
                    assert(r@[before.len() + (i - before.len())] == r@[i]);
                }
            }
        }
        level = level + 1;
    }
    r
}

/// The headings of a page, before cleaning, level by level: `h1`
/// elements in document order, then `h2`, and so on to `h6`, each with
/// its text.
pub fn raw_headings(page: &Vec<HtmlNode>) -> (r: Vec<HeadingContent>)
    ensures
        r@.len() == page_headings(page@).len(),
        forall|i: int| 0 <= i < r@.len() ==> (#[trigger] r@[i]).level == page_headings(page@)[i].0
            && r@[i].text@ == node_text(page_headings(page@)[i].1.node),
{
    let hs = headings_found(page);
    let mut r: Vec<HeadingContent> = Vec::new();
    let mut i: usize = 0;
    while i < hs.len()
        invariant
            i <= hs@.len(),
            r@.len() == i,
            hs@.len() == page_headings(page@).len(),
            forall|k: int| 0 <= k < hs@.len() ==> (#[trigger] hs@[k]).0 == page_headings(page@)[k].0
                && hs@[k].1@ == page_headings(page@)[k].1,
            forall|k: int| 0 <= k < i ==> (#[trigger] r@[k]).level == page_headings(page@)[k].0
                && r@[k].text@ == node_text(page_headings(page@)[k].1.node),
        decreases hs@.len() - i,
    {
        let text = html_text(hs[i].1.node);
        r.push(HeadingContent { level: hs[i].0, text });
        i += 1;
    }
    r
}

/// Whether a node ends the text that follows a heading: an element whose
/// tag is two bytes long and starts with `h` (a heading, or `hr`).
pub open spec fn stops_section(n: HtmlNode) -> bool {
    n matches HtmlNode::Element { name, .. } && name@.len() == 2 && name@[0] == 'h' && (name@[1] as u32) < 0x80
}

/// The text nodes among `after[i..]` before the first node that stops the
/// section, in order.
pub open spec fn section_texts(after: Seq<HtmlNode>, i: int) -> Seq<Seq<char>>
    decreases after.len() - i,
{
    if 0 <= i < after.len() {
        if stops_section(after[i]) {
            seq![]
        } else {
            (match after[i] {
                HtmlNode::Text(t) => seq![t@],
                _ => seq![],
            }) + section_texts(after, i + 1)
        }
    } else {
        seq![]
    }
}

/// `s` is the section of the heading found at `f` of `level`: the
/// heading's text and the text nodes that follow it under the same parent
/// up to the next heading.
pub open spec fn section_as(level: u8, f: FoundModel, s: HeadingSection) -> bool {
    &&& s.level == level
    &&& s.heading@ == node_text(f.node)
    &&& strings_model(s.texts@) == section_texts(f.after, 0)
}

fn stops(n: &HtmlNode) -> (b: bool)
    ensures
        b == stops_section(*n),
{
    match n {
        HtmlNode::Element { name, .. } => {
            let v = chars_of(name.as_str());
            v.len() == 2 && v[0] == 'h' && (v[1] as u32) < 0x80
        },
        _ => false,
    }
}

/// The text nodes that follow the heading found at `f`.
fn following_texts(f: &Found) -> (r: Vec<String>)
    requires
        f.index < f.siblings@.len(),
    ensures
        strings_model(r@) == section_texts(f@.after, 0),
{
    let ghost after = f@.after;
    let _count = f.siblings.len();
    let mut r: Vec<String> = Vec::new();
    let mut k: usize = f.index + 1;
    while k < f.siblings.len()
        invariant
            f.index + 1 <= k <= f.siblings@.len(),
            after == f.siblings@.skip(f.index + 1),
            strings_model(r@) + section_texts(after, k - f.index - 1) == section_texts(after, 0),
        decreases f.siblings@.len() - k,
    {
        let ghost i = k - f.index - 1;
        assert(after[i] == f.siblings@[k as int]);
        if stops(&f.siblings[k]) {
            assert(strings_model(r@) =~= section_texts(after, 0));
            return r;
        }
        let ghost before = strings_model(r@);
        match &f.siblings[k] {
            HtmlNode::Text(t) => {
                r.push(copy_string(t));
            },
            _ => {},
        }
        assert(strings_model(r@) + section_texts(after, i + 1) =~= before + section_texts(after, i));
        k += 1;
    }
    assert(section_texts(after, k - f.index - 1) =~= seq![]);
    assert(strings_model(r@) + section_texts(after, k - f.index - 1) =~= strings_model(r@));
    r
}

/// The sections of a page, before cleaning, heading by heading in the
/// order of [`raw_headings`].
pub fn raw_sections(page: &Vec<HtmlNode>) -> (r: Vec<HeadingSection>)
    ensures
        r@.len() == page_headings(page@).len(),
        forall|i: int| 0 <= i < r@.len() ==> section_as(page_headings(page@)[i].0, page_headings(page@)[i].1, #[trigger] r@[i]),
{
    let hs = headings_found(page);
    let mut r: Vec<HeadingSection> = Vec::new();
    let mut i: usize = 0;
    while i < hs.len()
        invariant
            i <= hs@.len(),
            r@.len() == i,
            hs@.len() == page_headings(page@).len(),
            forall|k: int| 0 <= k < hs@.len() ==> (#[trigger] hs@[k]).0 == page_headings(page@)[k].0
                && hs@[k].1@ == page_headings(page@)[k].1 && hs@[k].1.index < hs@[k].1.siblings@.len(),
            forall|k: int| 0 <= k < i ==> section_as(page_headings(page@)[k].0, page_headings(page@)[k].1, #[trigger] r@[k]),
        decreases hs@.len() - i,
    {
        let heading = html_text(hs[i].1.node);
        let texts = following_texts(&hs[i].1);
        r.push(HeadingSection { level: hs[i].0, heading, texts });
        i += 1;
    }
    r
}

/// The title of a page: the text of its first `title` element, trimmed,
/// or nothing.
pub open spec fn page_title(page: Seq<HtmlNode>) -> Seq<char> {
    let ts = found_from(page, 0, seq!["title"@], "thead"@, false);
    if ts.len() > 0 {
        crate::text::trim(node_text(ts[0].node))
    } else {
        seq![]
    }
}

/// The title of a page.
pub fn raw_title(page: &Vec<HtmlNode>) -> (t: String)
    ensures
        t@ == page_title(page@),
{
    let title_tags: [&str; 1] = ["title"];
    assert(names_model(title_tags@) =~= seq!["title"@]);
    let mut found: Vec<Found> = Vec::new();
    assert(founds_model(found@) =~= seq![]);
    find_from(page, &title_tags, "thead", false, &mut found);
    assert(founds_model(found@) =~= found_from(page@, 0, seq!["title"@], "thead"@, false));
    if found.len() > 0 {
        assert(founds_model(found@)[0] == found@[0]@);
        let text = html_text(found[0].node);
        crate::text::trimmed(text.as_str())
    } else {
        String::new()
    }
}

} // verus!
