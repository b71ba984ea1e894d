use vstd::prelude::*;

use vstd::utf8::encode_utf8;
use crate::html::{html_fragment, node_text, parse_html_fragment, HtmlNode};
use crate::services::page_structure::{
    page_headings, page_tables, page_title, raw_headings, raw_sections, raw_table_as, raw_tables, raw_title, section_as,
};
use crate::text::{trim, trimmed, copy_opt_string, opt_string_model, chars_of, decimal, owned, push_char, push_decimal, string_of_range, strings_model};

verus! {

/// The longest chunk, in characters, handed to a model at once.
pub const CHUNK_SIZE: usize = 2500;
/// How many characters consecutive chunks share.
pub const CHUNK_OVERLAP: usize = 200;

/// What was extracted from a page.
#[derive(Debug)]
pub struct ExtractedContent {
    pub title: String,
    pub text_content: String,
    pub tables: Vec<TableContent>,
    pub headings: Vec<HeadingContent>,
    pub metadata: ContentMetadata,
}

/// Where content came from, when, and how complete it is. Lengths are in
/// bytes.
#[derive(Debug)]
pub struct ContentMetadata {
    pub source_url: String,
    pub extraction_timestamp: String,
    pub content_status: ContentStatus,
    pub original_length: usize,
    pub extracted_length: usize,
}

/// How much of a page could be extracted.
#[derive(Debug)]
pub enum ContentStatus {
    Complete,
    Partial,
    Inaccessible,
    Error(String),
}

/// A table found on a page.
#[derive(Debug)]
pub struct TableContent {
    pub caption: Option<String>,
    pub headers: Vec<String>,
    pub rows: Vec<Vec<String>>,
}

/// A heading found on a page, with its level (1 to 6).
#[derive(Debug)]
pub struct HeadingContent {
    pub level: u8,
    pub text: String,
}

/// One piece of a page's text, sized for a model.
#[derive(Debug)]
pub struct ContentChunk {
    pub index: usize,
    pub total_chunks: usize,
    pub content: String,
    pub is_first: bool,
}

/// A heading of a page as found, before cleaning, with the text nodes
/// that follow it up to the next heading.
#[derive(Debug)]
pub struct HeadingSection {
    pub level: u8,
    pub heading: String,
    pub texts: Vec<String>,
}

/// Whether `c` ends a word for chunking purposes.
pub open spec fn is_break(c: char) -> bool {
    c == ' ' || c == '\n'
}

/// The position, within `w`, of its last space or newline, or -1.
pub open spec fn last_break(w: Seq<char>) -> int
    decreases w.len(),
{
    if w.len() == 0 {
        -1
    } else if is_break(w.last()) {
        w.len() - 1
    } else {
        last_break(w.drop_last())
    }
}

/// Where the chunk starting at `start` ends: the end of the text if it is
/// within reach; else the last space or newline of the window when that
/// leaves more than the overlap behind it; else the full window.
pub open spec fn chunk_end(chars: Seq<char>, start: int) -> int {
    let end = start + CHUNK_SIZE;
    if end > chars.len() {
        chars.len() as int
    } else {
        let p = last_break(chars.subrange(start, end));
        if p > CHUNK_OVERLAP {
            start + p
        } else {
            end
        }
    }
}

proof fn lemma_last_break(w: Seq<char>)
    ensures
        -1 <= last_break(w) < w.len(),
        last_break(w) >= 0 ==> is_break(w[last_break(w)]),
        forall|j: int| last_break(w) < j < w.len() ==> !is_break(#[trigger] w[j]),
    decreases w.len(),
{
    if w.len() > 0 && !is_break(w.last()) {
        lemma_last_break(w.drop_last());
        assert forall|j: int| last_break(w) < j < w.len() implies !is_break(#[trigger] w[j]) by {
            if j < w.len() - 1 {
                assert(w[j] == w.drop_last()[j]);
            }
        }
    }
}

/// The bounds `[start, end)` of the chunks of the text from `start` on:
/// each chunk after the first starts the overlap before the previous end.
pub open spec fn chunk_bounds(chars: Seq<char>, start: int) -> Seq<(int, int)>
    decreases chars.len() - start,
{
    if start < 0 || start >= chars.len() {
        seq![]
    } else {
        let end = chunk_end(chars, start);
        if end >= chars.len() || end - CHUNK_OVERLAP <= start {
            seq![(start, end)]
        } else {
            seq![(start, end)] + chunk_bounds(chars, end - CHUNK_OVERLAP)
        }
    }
}

/// The chunks of a text from `start` on cover it: the first starts at
/// `start`, the last ends at the end of the text, each is non-empty and at
/// most `CHUNK_SIZE` characters long, and each after the first starts
/// `CHUNK_OVERLAP` characters before the previous one ended.
pub proof fn lemma_chunks_cover_text(chars: Seq<char>, start: int)
    requires
        0 <= start < chars.len(),
    ensures
        chunk_bounds(chars, start).len() >= 1,
        chunk_bounds(chars, start)[0].0 == start,
        chunk_bounds(chars, start).last().1 == chars.len(),
        forall|i: int| 0 <= i < chunk_bounds(chars, start).len() ==>
            (#[trigger] chunk_bounds(chars, start)[i]).0 < chunk_bounds(chars, start)[i].1
            <= chunk_bounds(chars, start)[i].0 + CHUNK_SIZE,
        forall|i: int| 0 <= i < chunk_bounds(chars, start).len() - 1 ==>
            (#[trigger] chunk_bounds(chars, start)[i + 1]).0 == chunk_bounds(chars, start)[i].1 - CHUNK_OVERLAP,
    decreases chars.len() - start,
{
    let b = chunk_bounds(chars, start);
    let end = chunk_end(chars, start);
    if start + CHUNK_SIZE <= chars.len() {
        lemma_last_break(chars.subrange(start, start + CHUNK_SIZE));
    }
    assert(start + CHUNK_OVERLAP < end <= start + CHUNK_SIZE || end == chars.len());
    assert(start < end <= start + CHUNK_SIZE);
    if end < chars.len() {
        let rest = chunk_bounds(chars, end - CHUNK_OVERLAP);
        lemma_chunks_cover_text(chars, end - CHUNK_OVERLAP);
        assert(b == seq![(start, end)] + rest);
        assert forall|i: int| 0 <= i < b.len() implies
            (#[trigger] b[i]).0 < b[i].1 <= b[i].0 + CHUNK_SIZE by {
            if i > 0 {
                assert(b[i] == rest[i - 1]);
            }
        }
        assert forall|i: int| 0 <= i < b.len() - 1 implies
            (#[trigger] b[i + 1]).0 == b[i].1 - CHUNK_OVERLAP by {
            assert(b[i + 1] == rest[i]);
            if i > 0 {
                let j = i - 1;
                assert(b[i] == rest[j]);
                assert(rest[j + 1].0 == rest[j].1 - CHUNK_OVERLAP);
            } else {
                assert(b[0] == (start, end));
                assert(rest[0].0 == end - CHUNK_OVERLAP);
            }
        }
    }
}

/// The number of chunks announced in each chunk: the text length divided
/// by the chunk size, rounded up.
pub open spec fn announced_chunks(n: int) -> int {
    n / (CHUNK_SIZE as int) + if n % (CHUNK_SIZE as int) > 0 { 1int } else { 0int }
}

/// The text of a chunk: the first carries the markers and the title, the
/// others their number.
pub open spec fn chunk_text(title: Seq<char>, index: nat, body: Seq<char>) -> Seq<char> {
    if index == 0 {
        "[CONTENT_START]\n"@ + title + "\n[END_FIRST_CHUNK]\n"@ + body
    } else {
        "[CHUNK_"@ + decimal(index) + "]\n"@ + body
    }
}

/// Whether `chunks` are the chunks of `content`: a text of at most
/// `CHUNK_SIZE` bytes is one unmarked chunk; a longer one is cut along
/// [`chunk_bounds`] and each piece marked.
pub open spec fn chunks_of(content: &ExtractedContent, chunks: Seq<ContentChunk>) -> bool {
    let text = content.text_content@;
    if encode_utf8(text).len() as usize <= CHUNK_SIZE {
        &&& chunks.len() == 1
        &&& chunks[0].index == 0
        &&& chunks[0].total_chunks == 1
        &&& chunks[0].content@ == text
        &&& chunks[0].is_first
    } else {
        let bounds = chunk_bounds(text, 0);
        &&& chunks.len() == bounds.len()
        &&& forall|i: int| 0 <= i < chunks.len() ==> {
            let c = #[trigger] chunks[i];
            &&& c.index == i
            &&& c.total_chunks == announced_chunks(text.len() as int)
            &&& c.is_first == (i == 0)
            &&& c.content@ == chunk_text(content.title@, i as nat, text.subrange(bounds[i].0, bounds[i].1))
        }
    }
}

/// The last space or newline in `chars[start..end]`, relative to `start`.
fn find_last_break(chars: &Vec<char>, start: usize, end: usize) -> (r: Option<usize>)
    requires
        start <= end <= chars@.len(),
    ensures
        match r {
            Some(p) => p as int == last_break(chars@.subrange(start as int, end as int)),
            None => last_break(chars@.subrange(start as int, end as int)) == -1,
        },
{
    let ghost w = chars@.subrange(start as int, end as int);
    let mut k = end;
    assert(w.subrange(0, (k - start) as int) =~= w);
    while k > start
        invariant
            start <= k <= end <= chars@.len(),
            w == chars@.subrange(start as int, end as int),
            last_break(w) == last_break(w.subrange(0, (k - start) as int)),
        decreases k,
    {
        let c = chars[k - 1];
        let ghost pre = w.subrange(0, (k - start) as int);
        assert(pre.last() == c);
        if c == ' ' || c == '\n' {
            return Some(k - 1 - start);
        }
        assert(pre.drop_last() =~= w.subrange(0, (k - 1 - start) as int));
        k -= 1;
    }
    None
}

fn push_text(s: &mut String, t: &str)
    ensures
        final(s)@ == old(s)@ + t@,
{
    s.append(t);
}

fn push_range(s: &mut String, chars: &Vec<char>, from: usize, to: usize)
    requires
        from <= to <= chars@.len(),
    ensures
        final(s)@ == old(s)@ + chars@.subrange(from as int, to as int),
{
    let piece = string_of_range(chars, from, to);
    s.append(piece.as_str());
}

/// The indentation of a heading: two spaces per level below the first.
pub open spec fn indent(level: u8) -> Seq<char>
    decreases level,
{
    if level <= 1 {
        seq![]
    } else {
        indent((level - 1) as u8) + "  "@
    }
}

/// The pieces of `parts` joined by `sep`.
pub open spec fn join(parts: Seq<Seq<char>>, sep: Seq<char>) -> Seq<char>
    decreases parts.len(),
{
    if parts.len() == 0 {
        seq![]
    } else if parts.len() == 1 {
        parts[0]
    } else {
        join(parts.drop_last(), sep) + sep + parts.last()
    }
}

/// A table's header line and its underline, or nothing without headers.
pub open spec fn header_block(headers: Seq<Seq<char>>) -> Seq<char> {
    if headers.len() == 0 {
        seq![]
    } else {
        join(headers, " | "@) + "\n"@ + join(Seq::new(headers.len(), |i: int| "---"@), " | "@) + "\n"@
    }
}

/// A table's rows, one line each.
pub open spec fn rows_block(rows: Seq<Vec<String>>) -> Seq<char>
    decreases rows.len(),
{
    if rows.len() == 0 {
        seq![]
    } else {
        rows_block(rows.drop_last()) + join(strings_model(rows.last()@), " | "@) + "\n"@
    }
}

/// The lines of the document outline.
pub open spec fn outline(hs: Seq<HeadingContent>) -> Seq<char>
    decreases hs.len(),
{
    if hs.len() == 0 {
        seq![]
    } else {
        outline(hs.drop_last()) + indent(hs.last().level) + "- "@ + hs.last().text@ + "\n"@
    }
}

/// The chunk texts, each followed by a blank line.
pub open spec fn chunk_section(cs: Seq<ContentChunk>) -> Seq<char>
    decreases cs.len(),
{
    if cs.len() == 0 {
        seq![]
    } else {
        chunk_section(cs.drop_last()) + cs.last().content@ + "\n\n"@
    }
}

/// The rendering of the tables, numbered from one.
pub open spec fn tables_section(ts: Seq<TableContent>) -> Seq<char>
    decreases ts.len(),
{
    if ts.len() == 0 {
        seq![]
    } else {
        let t = ts.last();
        let title = match t.caption {
            Some(c) => "Table "@ + decimal(ts.len()) + ": "@ + c@ + "\n"@,
            None => "Table "@ + decimal(ts.len()) + "\n"@,
        };
        tables_section(ts.drop_last()) + title + header_block(strings_model(t.headers@)) + rows_block(t.rows@) + "\n"@
    }
}

/// The status word of a content status.
pub open spec fn status_word(s: ContentStatus) -> Seq<char> {
    match s {
        ContentStatus::Complete => "complete"@,
        ContentStatus::Partial => "partial"@,
        ContentStatus::Inaccessible => "inaccessible"@,
        ContentStatus::Error(_) => "partial"@,
    }
}

/// The header of a model's text: source, retrieval time, limitations of a
/// failed extraction, status and lengths.
pub open spec fn meta_text(m: ContentMetadata) -> Seq<char> {
    "[SOURCE_URL] "@ + m.source_url@ + "\n"@
        + "[RETRIEVAL_TIMESTAMP] "@ + m.extraction_timestamp@ + "\n"@
        + (match m.content_status {
            ContentStatus::Error(msg) => "[LIMITATIONS] "@ + msg@ + "\n"@,
            _ => seq![],
        })
        + "[CONTENT_STATUS] "@ + status_word(m.content_status) + "\n"@
        + "[CONTENT_LENGTH] "@ + decimal(m.extracted_length as nat) + " chars (original: "@
        + decimal(m.original_length as nat) + ")\n\n"@
}

/// The outline section, absent without headings.
pub open spec fn outline_section(hs: Seq<HeadingContent>) -> Seq<char> {
    if hs.len() == 0 {
        seq![]
    } else {
        "### DOCUMENT STRUCTURE\n"@ + outline(hs) + "\n"@
    }
}

/// The tables section, absent without tables.
pub open spec fn table_block(ts: Seq<TableContent>) -> Seq<char> {
    if ts.len() == 0 {
        seq![]
    } else {
        "### TABLES\n"@ + tables_section(ts)
    }
}

/// The full text handed to a model for a page and its chunks.
pub open spec fn llm_text(content: &ExtractedContent, chunks: Seq<ContentChunk>) -> Seq<char> {
    meta_text(content.metadata) + outline_section(content.headings@) + "### CONTENT CHUNKS\n"@
        + chunk_section(chunks) + table_block(content.tables@)
}

fn push_joined(s: &mut String, parts: &Vec<String>)
    ensures
        final(s)@ == old(s)@ + join(strings_model(parts@), " | "@),
{
    proof { reveal_strlit(" | "); }
    let ghost ps = strings_model(parts@);
    let ghost start = s@;
    for i in 0..parts.len()
        invariant
            ps == strings_model(parts@),
            s@ == start + join(ps.take(i as int), " | "@),
    {
        let ghost pre = ps.take(i + 1);
        assert(pre.drop_last() =~= ps.take(i as int));
        if i > 0 {
            push_text(s, " | ");
        } else {
            assert(ps.take(0) =~= Seq::<Seq<char>>::empty());
        }
        push_text(s, parts[i].as_str());
        assert(s@ =~= start + join(pre, " | "@));
    }
    assert(ps.take(parts.len() as int) =~= ps);
}

fn push_dashes(s: &mut String, n: usize)
    ensures
        final(s)@ == old(s)@ + join(Seq::new(n as nat, |i: int| "---"@), " | "@),
{
    proof { reveal_strlit(" | "); reveal_strlit("---"); }
    let ghost start = s@;
    let ghost all = Seq::new(n as nat, |i: int| "---"@);
    for i in 0..n
        invariant
            all == Seq::new(n as nat, |i: int| "---"@),
            s@ == start + join(all.take(i as int), " | "@),
    {
        let ghost pre = all.take(i + 1);
        assert(pre.drop_last() =~= all.take(i as int));
        if i > 0 {
            push_text(s, " | ");
        } else {
            assert(all.take(0) =~= Seq::<Seq<char>>::empty());
        }
        push_text(s, "---");
        assert(s@ =~= start + join(pre, " | "@));
    }
    assert(all.take(n as int) =~= all);
}

fn push_table_body(s: &mut String, table: &TableContent)
    ensures
        final(s)@ == old(s)@ + header_block(strings_model(table.headers@)) + rows_block(table.rows@),
{
    proof { reveal_strlit("\n"); }
    let ghost start = s@;
    if table.headers.len() > 0 {
        push_joined(s, &table.headers);
        push_text(s, "\n");
        push_dashes(s, table.headers.len());
        push_text(s, "\n");
    }
    let ghost mid = s@;
    assert(mid =~= start + header_block(strings_model(table.headers@)));
    for i in 0..table.rows.len()
        invariant
            s@ == mid + rows_block(table.rows@.take(i as int)),
    {
        assert(table.rows@.take(i + 1).drop_last() =~= table.rows@.take(i as int));
        push_joined(s, &table.rows[i]);
        push_text(s, "\n");
        assert(s@ =~= mid + rows_block(table.rows@.take(i + 1)));
    }
    assert(table.rows@.take(table.rows.len() as int) =~= table.rows@);
}

fn push_indent(s: &mut String, level: u8)
    ensures
        final(s)@ == old(s)@ + indent(level),
    decreases level,
{
    if level > 1 {
        push_indent(s, level - 1);
        push_text(s, "  ");
    }
}

/// Prepares extracted pages for a model.
pub struct ContentExtractor;

impl ContentExtractor {
    /// Cuts the text into chunks. A text of at most `CHUNK_SIZE` bytes is a
    /// single chunk, as is. A longer one is cut into windows of at most
    /// `CHUNK_SIZE` characters, each ending at the window's last space or
    /// newline when that keeps more than the overlap, each after the first
    /// starting `CHUNK_OVERLAP` characters before the previous one ended;
    /// the first chunk carries start markers and the title, the others
    /// their number.
    pub fn chunk_content(&self, content: &ExtractedContent) -> (chunks: Vec<ContentChunk>)
        ensures
            chunks_of(content, chunks@),
    {
        let text = &content.text_content;
        let text_str = text.as_str();
        let byte_count = text_str.len();
        assert(byte_count == encode_utf8(text@).len() as usize);
        if byte_count <= CHUNK_SIZE {
            let mut chunks: Vec<ContentChunk> = Vec::new();
            chunks.push(ContentChunk { index: 0, total_chunks: 1, content: owned(text.as_str()), is_first: true });
            return chunks;
        }
        let chars = chars_of(text.as_str());
        let ghost s = chars@;
        let total_len = chars.len();
        let chunk_count = (total_len / CHUNK_SIZE) + if total_len % CHUNK_SIZE > 0 { 1 } else { 0 };
        let mut chunks: Vec<ContentChunk> = Vec::new();
        let mut start: usize = 0;
        let mut chunk_index: usize = 0;
        let ghost mut done: Seq<(int, int)> = seq![];
        proof {
            reveal_strlit("[CONTENT_START]\n");
            reveal_strlit("\n[END_FIRST_CHUNK]\n");
            reveal_strlit("[CHUNK_");
            reveal_strlit("]\n");
        }
        loop
            invariant
                s == chars@,
                s == content.text_content@,
                total_len == s.len(),
                total_len > 0,
                encode_utf8(s).len() as usize > CHUNK_SIZE,
                chunk_count == announced_chunks(total_len as int),
                start < total_len,
                chunk_index == chunks@.len(),
                chunk_index <= start,
                chunk_bounds(s, 0) == done + chunk_bounds(s, start as int),
                done.len() == chunks@.len(),
                forall|i: int| 0 <= i < chunks@.len() ==> {
                    let c = #[trigger] chunks@[i];
                    let b = chunk_bounds(s, 0)[i];
                    &&& c.index == i
                    &&& c.total_chunks == chunk_count
                    &&& c.is_first == (i == 0)
                    &&& c.content@ == chunk_text(content.title@, i as nat, s.subrange(b.0, b.1))
                },
            decreases total_len - start,
        {
            let mut end: usize;
            if total_len - start < CHUNK_SIZE {
                end = total_len;
            } else {
                end = start + CHUNK_SIZE;
                proof { lemma_last_break(s.subrange(start as int, start + CHUNK_SIZE)); }
                match find_last_break(&chars, start, end) {
                    Some(p) => {
                        if p > CHUNK_OVERLAP {
                            end = start + p;
                        }
                    },
                    None => {},
                }
            }
            assert(end as int == chunk_end(s, start as int));
            let mut body = String::new();
            let is_first = chunk_index == 0;
            if is_first {
                push_text(&mut body, "[CONTENT_START]\n");
                push_text(&mut body, content.title.as_str());
                push_text(&mut body, "\n[END_FIRST_CHUNK]\n");
            } else {
                push_text(&mut body, "[CHUNK_");
                push_decimal(&mut body, chunk_index as u64);
                push_text(&mut body, "]\n");
            }
            push_range(&mut body, &chars, start, end);
            let ghost rest = chunk_bounds(s, start as int);
            assert(rest[0] == (start as int, end as int));
            assert((done + rest)[done.len() as int] == rest[0]);
            chunks.push(ContentChunk { index: chunk_index, total_chunks: chunk_count, content: body, is_first });
            chunk_index += 1;
            if end >= total_len || end - CHUNK_OVERLAP <= start {
                proof {
                    assert(rest =~= seq![(start as int, end as int)]);
                    assert(chunk_bounds(s, 0) =~= done.push((start as int, end as int)));
                }
                return chunks;
            }
            proof {
                assert(done.push((start as int, end as int)) + chunk_bounds(s, end - CHUNK_OVERLAP)
                    =~= done + rest);
                done = done.push((start as int, end as int));
            }
            start = end - CHUNK_OVERLAP;
        }
    }

    /// Renders a page and its chunks for a model: source, retrieval time,
    /// limitations (for a failed extraction), status and lengths, then the
    /// outline of headings, the chunks, and the tables.
    pub fn format_for_llm(&self, content: &ExtractedContent, chunks: &Vec<ContentChunk>) -> (out: String)
        ensures
            out@ == llm_text(content, chunks@),
    {
        proof { reveal_strlit("### CONTENT CHUNKS\n"); }
        let mut out = String::new();
        push_meta(&mut out, &content.metadata);
        push_outline(&mut out, &content.headings);
        push_text(&mut out, "### CONTENT CHUNKS\n");
        push_chunks(&mut out, chunks);
        push_tables(&mut out, &content.tables);
        out
    }
}

fn push_meta(out: &mut String, m: &ContentMetadata)
    ensures
        final(out)@ == old(out)@ + meta_text(*m),
{
    proof {
        reveal_strlit("[SOURCE_URL] ");
        reveal_strlit("\n");
        reveal_strlit("[RETRIEVAL_TIMESTAMP] ");
        reveal_strlit("[LIMITATIONS] ");
        reveal_strlit("[CONTENT_STATUS] ");
        reveal_strlit("[CONTENT_LENGTH] ");
        reveal_strlit(" chars (original: ");
        reveal_strlit(")\n\n");
        reveal_strlit("complete");
        reveal_strlit("partial");
        reveal_strlit("inaccessible");
    }
    let ghost start = out@;
    push_text(out, "[SOURCE_URL] ");
    push_text(out, m.source_url.as_str());
    push_text(out, "\n");
    push_text(out, "[RETRIEVAL_TIMESTAMP] ");
    push_text(out, m.extraction_timestamp.as_str());
    push_text(out, "\n");
    let status: &str = match &m.content_status {
        ContentStatus::Complete => "complete",
        ContentStatus::Partial => "partial",
        ContentStatus::Inaccessible => "inaccessible",
        ContentStatus::Error(msg) => {
            push_text(out, "[LIMITATIONS] ");
            push_text(out, msg.as_str());
            push_text(out, "\n");
            "partial"
        },
    };
    assert(status@ == status_word(m.content_status));
    push_text(out, "[CONTENT_STATUS] ");
    push_text(out, status);
    push_text(out, "\n");
    push_text(out, "[CONTENT_LENGTH] ");
    push_decimal(out, m.extracted_length as u64);
    push_text(out, " chars (original: ");
    push_decimal(out, m.original_length as u64);
    push_text(out, ")\n\n");
    assert(out@ =~= start + meta_text(*m));
}

fn push_outline(out: &mut String, headings: &Vec<HeadingContent>)
    ensures
        final(out)@ == old(out)@ + outline_section(headings@),
{
    proof {
        reveal_strlit("### DOCUMENT STRUCTURE\n");
        reveal_strlit("- ");
        reveal_strlit("\n");
    }
    if headings.len() == 0 {
        assert(old(out)@ + outline_section(headings@) =~= old(out)@);
        return;
    }
    let ghost start = out@;
    push_text(out, "### DOCUMENT STRUCTURE\n");
    let ghost base = out@;
    for i in 0..headings.len()
        invariant
            out@ == base + outline(headings@.take(i as int)),
    {
        assert(headings@.take(i + 1).drop_last() =~= headings@.take(i as int));
        let h = &headings[i];
        push_indent(out, h.level);
        push_text(out, "- ");
        push_text(out, h.text.as_str());
        push_text(out, "\n");
        assert(out@ =~= base + outline(headings@.take(i + 1)));
    }
    assert(headings@.take(headings.len() as int) =~= headings@);
    push_text(out, "\n");
    assert(out@ =~= start + outline_section(headings@));
}

fn push_chunks(out: &mut String, chunks: &Vec<ContentChunk>)
    ensures
        final(out)@ == old(out)@ + chunk_section(chunks@),
{
    proof { reveal_strlit("\n\n"); }
    let ghost base = out@;
    assert(chunks@.take(0) =~= Seq::<ContentChunk>::empty());
    for i in 0..chunks.len()
        invariant
            out@ == base + chunk_section(chunks@.take(i as int)),
    {
        assert(chunks@.take(i + 1).drop_last() =~= chunks@.take(i as int));
        push_text(out, chunks[i].content.as_str());
        push_text(out, "\n\n");
        assert(out@ =~= base + chunk_section(chunks@.take(i + 1)));
    }
    assert(chunks@.take(chunks.len() as int) =~= chunks@);
}

fn push_table(out: &mut String, table: &TableContent, number: u64)
    requires
        number >= 1,
    ensures
        final(out)@ == old(out)@ + (match table.caption {
            Some(c) => "Table "@ + decimal(number as nat) + ": "@ + c@ + "\n"@,
            None => "Table "@ + decimal(number as nat) + "\n"@,
        }) + header_block(strings_model(table.headers@)) + rows_block(table.rows@) + "\n"@,
{
    proof {
        reveal_strlit("Table ");
        reveal_strlit(": ");
        reveal_strlit("\n");
    }
    let ghost start = out@;
    push_text(out, "Table ");
    push_decimal(out, number);
    match &table.caption {
        Some(c) => {
            push_text(out, ": ");
            push_text(out, c.as_str());
            push_text(out, "\n");
        },
        None => {
            push_text(out, "\n");
        },
    }
    let ghost titled = out@;
    push_table_body(out, table);
    push_text(out, "\n");
    assert(out@ =~= titled + header_block(strings_model(table.headers@)) + rows_block(table.rows@) + "\n"@);
}

#[verifier::rlimit(60)]
fn push_tables(out: &mut String, tables: &Vec<TableContent>)
    ensures
        final(out)@ == old(out)@ + table_block(tables@),
{
    proof { reveal_strlit("### TABLES\n"); }
    if tables.len() == 0 {
        assert(old(out)@ + table_block(tables@) =~= old(out)@);
        return;
    }
    let ghost start = out@;
    push_text(out, "### TABLES\n");
    let ghost base = out@;
    assert(tables@.take(0) =~= Seq::<TableContent>::empty());
    for i in 0..tables.len()
        invariant
            out@ == base + tables_section(tables@.take(i as int)),
    {
        let ghost pre = tables@.take(i + 1);
        assert(pre.drop_last() =~= tables@.take(i as int));
        assert(pre.last() == tables@[i as int]);
        push_table(out, &tables[i], i as u64 + 1);
        assert(out@ =~= base + tables_section(pre));
    }
    assert(tables@.take(tables.len() as int) =~= tables@);
    assert(out@ =~= start + table_block(tables@));
}


/// The trimmed strings.
pub open spec fn trim_all(v: Seq<Seq<char>>) -> Seq<Seq<char>> {
    Seq::new(v.len(), |i: int| trim(v[i]))
}

/// The rows of a raw table that have cells, each cell trimmed.
pub open spec fn kept_rows(rows: Seq<Vec<String>>) -> Seq<Seq<Seq<char>>>
    decreases rows.len(),
{
    if rows.len() == 0 {
        seq![]
    } else {
        let front = kept_rows(rows.drop_last());
        if rows.last()@.len() == 0 {
            front
        } else {
            front.push(trim_all(strings_model(rows.last()@)))
        }
    }
}

/// Whether a raw table is kept: it has a row with cells, or a header that
/// is not blank.
pub open spec fn table_kept(t: TableContent) -> bool {
    kept_rows(t.rows@).len() > 0 || exists|i: int| 0 <= i < t.headers@.len() && trim(#[trigger] t.headers@[i]@).len() > 0
}

/// The cleaned form of a kept table.
pub open spec fn table_cleaned_as(raw: TableContent, t: TableContent) -> bool {
    &&& opt_string_model(t.caption) == match raw.caption {
        Some(c) => Some(trim(c@)),
        None => None,
    }
    &&& strings_model(t.headers@) == trim_all(strings_model(raw.headers@))
    &&& t.rows@.len() == kept_rows(raw.rows@).len()
    &&& forall|i: int| 0 <= i < t.rows@.len() ==> strings_model((#[trigger] t.rows@[i])@) == kept_rows(raw.rows@)[i]
}

/// The kept tables among `raw`, in order.
pub open spec fn kept_tables(raw: Seq<TableContent>) -> Seq<TableContent>
    decreases raw.len(),
{
    if raw.len() == 0 {
        seq![]
    } else if table_kept(raw.last()) {
        kept_tables(raw.drop_last()).push(raw.last())
    } else {
        kept_tables(raw.drop_last())
    }
}

/// The headings that are not blank, trimmed, in order.
pub open spec fn kept_headings(raw: Seq<HeadingContent>) -> Seq<(u8, Seq<char>)>
    decreases raw.len(),
{
    if raw.len() == 0 {
        seq![]
    } else if trim(raw.last().text@).len() == 0 {
        kept_headings(raw.drop_last())
    } else {
        kept_headings(raw.drop_last()).push((raw.last().level, trim(raw.last().text@)))
    }
}

/// The text of a section: its non-blank text nodes, trimmed, each followed
/// by a space.
pub open spec fn section_text(texts: Seq<String>) -> Seq<char>
    decreases texts.len(),
{
    if texts.len() == 0 {
        seq![]
    } else {
        let t = trim(texts.last()@);
        section_text(texts.drop_last()) + if t.len() == 0 { seq![] } else { t + " "@ }
    }
}

/// The text written so far and the pending section, after the sections
/// `secs`.
pub open spec fn sections_state(secs: Seq<HeadingSection>) -> (Seq<char>, Seq<char>)
    decreases secs.len(),
{
    if secs.len() == 0 {
        (seq![], seq![])
    } else {
        let (out, pending) = sections_state(secs.drop_last());
        let out2 = out + (if pending.len() > 0 { pending + "\n\n"@ } else { seq![] }) + "### "@
            + trim(secs.last().heading@) + "\n"@;
        (out2, section_text(secs.last().texts@))
    }
}

/// The tables appended to a page's text.
pub open spec fn tables_text(ts: Seq<TableContent>) -> Seq<char>
    decreases ts.len(),
{
    if ts.len() == 0 {
        seq![]
    } else {
        let t = ts.last();
        let rest = tables_text(ts.drop_last());
        if t.rows@.len() == 0 && t.headers@.len() == 0 {
            rest
        } else {
            rest + "\n\n### Tables\n"@ + (match t.caption {
                Some(c) => "#### "@ + c@ + "\n"@,
                None => seq![],
            }) + header_block(strings_model(t.headers@)) + rows_block(t.rows@)
        }
    }
}

/// The structured text of a page: each heading with the text that follows
/// it, then the tables, trimmed.
pub open spec fn structured_text(secs: Seq<HeadingSection>, tables: Seq<TableContent>) -> Seq<char> {
    let (out, pending) = sections_state(secs);
    trim(out + pending + tables_text(tables))
}

/// How complete an extraction of `extracted_length` bytes is.
pub open spec fn status_for(extracted_length: usize) -> ContentStatus {
    if extracted_length < 1000 {
        ContentStatus::Partial
    } else {
        ContentStatus::Complete
    }
}

fn trimmed_all(v: &Vec<String>) -> (r: Vec<String>)
    ensures
        strings_model(r@) == trim_all(strings_model(v@)),
{
    let mut r: Vec<String> = Vec::new();
    for i in 0..v.len()
        invariant
            r@.len() == i,
            forall|j: int| 0 <= j < i ==> (#[trigger] r@[j])@ == trim(v@[j]@),
    {
        r.push(trimmed(v[i].as_str()));
    }
    assert(strings_model(r@) =~= trim_all(strings_model(v@)));
    r
}

fn any_not_blank(v: &Vec<String>) -> (b: bool)
    ensures
        b == exists|i: int| 0 <= i < v@.len() && trim(#[trigger] v@[i]@).len() > 0,
{
    for i in 0..v.len()
        invariant
            forall|j: int| 0 <= j < i ==> trim(#[trigger] v@[j]@).len() == 0,
    {
        let t = trimmed(v[i].as_str());
        if !t.as_str().is_empty() {
            assert(trim(v@[i as int]@).len() > 0);
            return true;
        }
    }
    false
}

fn push_section_text(s: &mut String, texts: &Vec<String>)
    ensures
        final(s)@ == old(s)@ + section_text(texts@),
{
    proof { reveal_strlit(" "); }
    let ghost start = s@;
    for i in 0..texts.len()
        invariant
            s@ == start + section_text(texts@.take(i as int)),
    {
        assert(texts@.take(i + 1).drop_last() =~= texts@.take(i as int));
        let t = trimmed(texts[i].as_str());
        if !t.as_str().is_empty() {
            push_text(s, t.as_str());
            push_text(s, " ");
        }
        assert(s@ =~= start + section_text(texts@.take(i + 1)));
    }
    assert(texts@.take(texts.len() as int) =~= texts@);
}

fn push_tables_text(s: &mut String, tables: &Vec<TableContent>)
    ensures
        final(s)@ == old(s)@ + tables_text(tables@),
{
    proof {
        reveal_strlit("\n\n### Tables\n");
        reveal_strlit("#### ");
        reveal_strlit("\n");
    }
    let ghost start = s@;
    for i in 0..tables.len()
        invariant
            s@ == start + tables_text(tables@.take(i as int)),
    {
        let ghost pre = tables@.take(i + 1);
        assert(pre.drop_last() =~= tables@.take(i as int));
        let t = &tables[i];
        if t.rows.len() > 0 || t.headers.len() > 0 {
            push_text(s, "\n\n### Tables\n");
            match &t.caption {
                Some(c) => {
                    push_text(s, "#### ");
                    push_text(s, c.as_str());
                    push_text(s, "\n");
                },
                None => {},
            }
            push_table_body(s, t);
        }
        assert(s@ =~= start + tables_text(pre));
    }
    assert(tables@.take(tables.len() as int) =~= tables@);
}

impl Default for ContentExtractor {
    fn default() -> (r: Self)
        ensures
            r == ContentExtractor,
    {
        ContentExtractor
    }
}

impl ContentExtractor {
    /// A content extractor.
    pub fn new() -> (r: ContentExtractor) {
        ContentExtractor
    }

    /// Cleans the tables found on a page: trims captions, headers and
    /// cells, drops rows without cells, and keeps a table only if it has
    /// a row left or a header that is not blank.
    pub fn extract_tables(&self, raw_tables: &Vec<TableContent>) -> (tables: Vec<TableContent>)
        ensures
            tables@.len() == kept_tables(raw_tables@).len(),
            forall|i: int| 0 <= i < tables@.len() ==> table_cleaned_as(kept_tables(raw_tables@)[i], #[trigger] tables@[i]),
    {
        let mut tables: Vec<TableContent> = Vec::new();
        for k in 0..raw_tables.len()
            invariant
                tables@.len() == kept_tables(raw_tables@.take(k as int)).len(),
                forall|i: int| 0 <= i < tables@.len() ==> table_cleaned_as(kept_tables(raw_tables@.take(k as int))[i], #[trigger] tables@[i]),
        {
            let ghost pre = raw_tables@.take(k + 1);
            assert(pre.drop_last() =~= raw_tables@.take(k as int));
            let raw = &raw_tables[k];
            let caption = match &raw.caption {
                Some(c) => Some(trimmed(c.as_str())),
                None => None,
            };
            let headers = trimmed_all(&raw.headers);
            let mut rows: Vec<Vec<String>> = Vec::new();
            for j in 0..raw.rows.len()
                invariant
                    rows@.len() == kept_rows(raw.rows@.take(j as int)).len(),
                    forall|r: int| 0 <= r < rows@.len() ==> strings_model((#[trigger] rows@[r])@) == kept_rows(raw.rows@.take(j as int))[r],
            {
                assert(raw.rows@.take(j + 1).drop_last() =~= raw.rows@.take(j as int));
                if raw.rows[j].len() > 0 {
                    rows.push(trimmed_all(&raw.rows[j]));
                }
            }
            assert(raw.rows@.take(raw.rows.len() as int) =~= raw.rows@);
            let header_shown = any_not_blank(&raw.headers);
            assert(strings_model(headers@) == trim_all(strings_model(raw.headers@)));
            if rows.len() > 0 || header_shown {
                let ghost before = kept_tables(raw_tables@.take(k as int));
                tables.push(TableContent { caption, headers, rows });
                assert(kept_tables(pre) == before.push(raw_tables@[k as int]));
                assert forall|i: int| 0 <= i < tables@.len() implies table_cleaned_as(kept_tables(pre)[i], #[trigger] tables@[i]) by {
                    if i < tables@.len() - 1 {
                        assert(kept_tables(pre)[i] == before[i]);
                    }
                }
            } else {
                assert(kept_tables(pre) == kept_tables(raw_tables@.take(k as int)));
            }
        }
        assert(raw_tables@.take(raw_tables.len() as int) =~= raw_tables@);
        tables
    }

    /// Cleans the headings found on a page, in the order found: trims each
    /// and drops the blank ones.
    pub fn extract_headings(&self, raw_headings: &Vec<HeadingContent>) -> (headings: Vec<HeadingContent>)
        ensures
            headings@.len() == kept_headings(raw_headings@).len(),
            forall|i: int| 0 <= i < headings@.len() ==>
                ((#[trigger] headings@[i]).level, headings@[i].text@) == kept_headings(raw_headings@)[i],
    {
        let mut headings: Vec<HeadingContent> = Vec::new();
        for k in 0..raw_headings.len()
            invariant
                headings@.len() == kept_headings(raw_headings@.take(k as int)).len(),
                forall|i: int| 0 <= i < headings@.len() ==>
                    ((#[trigger] headings@[i]).level, headings@[i].text@) == kept_headings(raw_headings@.take(k as int))[i],
        {
            assert(raw_headings@.take(k + 1).drop_last() =~= raw_headings@.take(k as int));
            let text = trimmed(raw_headings[k].text.as_str());
            if !text.as_str().is_empty() {
                headings.push(HeadingContent { level: raw_headings[k].level, text });
            }
        }
        assert(raw_headings@.take(raw_headings.len() as int) =~= raw_headings@);
        headings
    }

    /// The structured text of a page: for each heading, `### ` and its
    /// text, then the non-blank text nodes that follow it, each trimmed
    /// and followed by a space; then each table with rows or headers under
    /// `### Tables`; the whole trimmed.
    pub fn extract_structured_text(&self, sections: &Vec<HeadingSection>, tables: &Vec<TableContent>) -> (text: String)
        ensures
            text@ == structured_text(sections@, tables@),
    {
        proof {
            reveal_strlit("\n\n");
            reveal_strlit("### ");
            reveal_strlit("\n");
        }
        let mut output = String::new();
        let mut current = String::new();
        for k in 0..sections.len()
            invariant
                (output@, current@) == sections_state(sections@.take(k as int)),
        {
            assert(sections@.take(k + 1).drop_last() =~= sections@.take(k as int));
            let sec = &sections[k];
            if !current.as_str().is_empty() {
                push_text(&mut output, current.as_str());
                push_text(&mut output, "\n\n");
            }
            push_text(&mut output, "### ");
            let heading = trimmed(sec.heading.as_str());
            push_text(&mut output, heading.as_str());
            push_text(&mut output, "\n");
            current = String::new();
            push_section_text(&mut current, &sec.texts);
            assert(output@ =~= sections_state(sections@.take(k + 1)).0);
        }
        assert(sections@.take(sections.len() as int) =~= sections@);
        push_text(&mut output, current.as_str());
        push_tables_text(&mut output, tables);
        trimmed(output.as_str())
    }

    /// The content extracted from a page: `extracted_length` is the text's
    /// length in bytes, and a text under 1000 bytes is only partial.
    /// What the content extraction makes of a fetched page: its tree read
    /// as a fragment; the title; the tables found, cleaned; the headings
    /// found, cleaned; and the structured text of the sections and
    /// tables, with the page's length and the time of extraction.
    pub fn extract_html(&self, url: &str, html: &str, extraction_timestamp: String) -> (c: ExtractedContent)
        ensures
            ({
                let page = seq![html_fragment(html@)];
                &&& c.title@ == page_title(page)
                &&& c.metadata.source_url@ == url@
                &&& c.metadata.extraction_timestamp == extraction_timestamp
                &&& c.metadata.original_length == encode_utf8(html@).len() as usize
                &&& c.metadata.extracted_length == encode_utf8(c.text_content@).len() as usize
                &&& c.metadata.content_status == status_for(c.metadata.extracted_length)
                &&& exists|rt: Seq<TableContent>| {
                    &&& rt.len() == page_tables(page).len()
                    &&& (forall|i: int| 0 <= i < rt.len() ==> raw_table_as(page_tables(page)[i], #[trigger] rt[i]))
                    &&& c.tables@.len() == kept_tables(rt).len()
                    &&& forall|i: int| 0 <= i < c.tables@.len() ==> table_cleaned_as(kept_tables(rt)[i], #[trigger] c.tables@[i])
                }
                &&& exists|rh: Seq<HeadingContent>| {
                    &&& rh.len() == page_headings(page).len()
                    &&& (forall|i: int| 0 <= i < rh.len() ==> (#[trigger] rh[i]).level == page_headings(page)[i].0
                        && rh[i].text@ == node_text(page_headings(page)[i].1.node))
                    &&& c.headings@.len() == kept_headings(rh).len()
                    &&& forall|i: int| 0 <= i < c.headings@.len() ==>
                        ((#[trigger] c.headings@[i]).level, c.headings@[i].text@) == kept_headings(rh)[i]
                }
                &&& exists|rs: Seq<HeadingSection>| {
                    &&& rs.len() == page_headings(page).len()
                    &&& (forall|i: int| 0 <= i < rs.len() ==> section_as(page_headings(page)[i].0, page_headings(page)[i].1, #[trigger] rs[i]))
                    &&& c.text_content@ == structured_text(rs, c.tables@)
                }
            }),
    {
        let original_length = html.len();
        let root = parse_html_fragment(html);
        let page: Vec<HtmlNode> = vec![root];
        assert(page@ =~= seq![html_fragment(html@)]);
        let title = raw_title(&page);
        let found_tables = raw_tables(&page);
        let tables = self.extract_tables(&found_tables);
        let found_headings = raw_headings(&page);
        let headings = self.extract_headings(&found_headings);
        let sections = raw_sections(&page);
        let text_content = self.extract_structured_text(&sections, &tables);
        let c = ContentExtractor::extracted_content(url, title, text_content, tables, headings, original_length, extraction_timestamp);
        let ghost pg = seq![html_fragment(html@)];
        assert(c.title@ == page_title(pg));
        assert(found_tables@.len() == page_tables(pg).len());
        assert(c.tables@.len() == kept_tables(found_tables@).len());
        assert(c.headings@.len() == kept_headings(found_headings@).len());
        assert(c.text_content@ == structured_text(sections@, c.tables@));
        c
    }

    pub fn extracted_content(
        url: &str,
        title: String,
        text_content: String,
        tables: Vec<TableContent>,
        headings: Vec<HeadingContent>,
        original_length: usize,
        extraction_timestamp: String,
    ) -> (c: ExtractedContent)
        ensures
            c.title == title,
            c.text_content == text_content,
            c.tables == tables,
            c.headings == headings,
            c.metadata.source_url@ == url@,
            c.metadata.extraction_timestamp == extraction_timestamp,
            c.metadata.original_length == original_length,
            c.metadata.extracted_length == encode_utf8(text_content@).len() as usize,
            c.metadata.content_status == status_for(c.metadata.extracted_length),
    {
        let extracted_length = text_content.as_str().len();
        let content_status = if extracted_length < 1000 {
            ContentStatus::Partial
        } else {
            ContentStatus::Complete
        };
        ExtractedContent {
            title,
            text_content,
            tables,
            headings,
            metadata: ContentMetadata {
                source_url: owned(url),
                extraction_timestamp,
                content_status,
                original_length,
                extracted_length,
            },
        }
    }
}

} // verus!
