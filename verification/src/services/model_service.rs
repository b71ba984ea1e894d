use vstd::prelude::*;

use vstd::utf8::{encode_scalar, encode_utf8};

use crate::json::{
    fuel_enough, inline_refs, inlined, json_parse, refs_within, member_str, member_string, parse_json, refs_fuel, refs_resolve, without_member,
    JsonValue,
};
use crate::text::opt_string_model;
use crate::models::dto::request::json_quoted;
use crate::text::{
    chars_of, concat2, is_space, lemma_leading_space_bounds, lemma_trailing_space_bounds, lemma_trim_unchanged, leading_space,
    trailing_space, is_whitespace, owned, push_char, trim, trim_bounds, string_of_range};

verus! {

/// How many times the model may ask for tools before giving up.
pub const TOOL_MAX_ATTEMPTS: u32 = 6;
/// The longest page text, in bytes, handed back to the model.
pub const TOOL_MAX_CONTENT_LENGTH: usize = 20000;
/// The token budget of a structured answer.
pub const STRUCTURED_OUTPUT_MAX_TOKENS: u32 = 4096;

/// Scanning state after reading `s`: the text kept so far, and whether the
/// scan is inside a tag.
pub open spec fn strip_state(s: Seq<char>) -> (Seq<char>, bool)
    decreases s.len(),
{
    if s.len() == 0 {
        (seq![], false)
    } else {
        let (out, in_tag) = strip_state(s.drop_last());
        let c = s.last();
        if c == '<' {
            (out, true)
        } else if c == '>' {
            (out, false)
        } else if in_tag {
            (out, in_tag)
        } else {
            (out.push(c), in_tag)
        }
    }
}

/// The text of `s` outside tags: every character between a `<` and the
/// next `>` is dropped, and so are the brackets.
pub open spec fn stripped(s: Seq<char>) -> Seq<char> {
    strip_state(s).0
}

/// Removes markup tags from a page, keeping the text between them.
pub fn strip_html_tags(input: &str) -> (out: String)
    ensures
        out@ == stripped(input@),
{
    let chars = chars_of(input);
    let ghost s = chars@;
    let mut out = String::new();
    let mut in_tag = false;
    for i in 0..chars.len()
        invariant
            s == chars@,
            (out@, in_tag) == strip_state(s.take(i as int)),
    {
        let ch = chars[i];
        assert(s.take(i + 1).drop_last() =~= s.take(i as int));
        if ch == '<' {
            in_tag = true;
        } else if ch == '>' {
            in_tag = false;
        } else if !in_tag {
            push_char(&mut out, ch);
        }
    }
    assert(s.take(chars.len() as int) =~= s);
    out
}

/// Scanning state after reading `s`: the text so far with each run of white
/// space turned into one space, and whether the last character read was
/// white space.
pub open spec fn collapse_state(s: Seq<char>) -> (Seq<char>, bool)
    decreases s.len(),
{
    if s.len() == 0 {
        (seq![], false)
    } else {
        let (out, was_space) = collapse_state(s.drop_last());
        let c = s.last();
        if is_space(c) {
            if !was_space {
                (out.push(' '), true)
            } else {
                (out, was_space)
            }
        } else {
            (out.push(c), false)
        }
    }
}

/// `s` with each run of white space turned into one space, then trimmed.
pub open spec fn collapsed(s: Seq<char>) -> Seq<char> {
    trim(collapse_state(s).0)
}

/// Every white-space character of `t` is a plain space.
pub open spec fn spaces_plain(t: Seq<char>) -> bool {
    forall|i: int| 0 <= i < t.len() && is_space(#[trigger] t[i]) ==> t[i] == ' '
}

/// No two white-space characters of `t` are next to each other.
pub open spec fn spaces_single(t: Seq<char>) -> bool {
    forall|i: int| 0 <= i < t.len() - 1 ==> !(is_space(#[trigger] t[i]) && is_space(t[i + 1]))
}

/// The shape of collapsed text: single plain spaces between words, none at
/// either end.
pub open spec fn collapsed_form(t: Seq<char>) -> bool {
    &&& spaces_plain(t)
    &&& spaces_single(t)
    &&& t.len() > 0 ==> !is_space(t[0]) && !is_space(t.last())
}

proof fn lemma_collapse_state_shape(s: Seq<char>)
    ensures
        spaces_plain(collapse_state(s).0),
        spaces_single(collapse_state(s).0),
        collapse_state(s).1 ==> collapse_state(s).0.len() > 0 && collapse_state(s).0.last() == ' ',
        !collapse_state(s).1 ==> collapse_state(s).0.len() == 0 || !is_space(collapse_state(s).0.last()),
    decreases s.len(),
{
    if s.len() > 0 {
        lemma_collapse_state_shape(s.drop_last());
        let (o, w) = collapse_state(s.drop_last());
        let c = s.last();
        let (n, _) = collapse_state(s);
        if n != o {
            let x = n.last();
            assert(n == o.push(x));
            assert forall|i: int| 0 <= i < n.len() && is_space(#[trigger] n[i]) implies n[i] == ' ' by {
                if i < o.len() {
                    assert(n[i] == o[i]);
                }
            }
            assert forall|i: int| 0 <= i < n.len() - 1 implies !(is_space(#[trigger] n[i]) && is_space(n[i + 1])) by {
                assert(n[i] == o[i]);
                if i + 1 < o.len() {
                    assert(n[i + 1] == o[i + 1]);
                }
            }
        }
    }
}

proof fn lemma_collapse_state_of_form(t: Seq<char>)
    requires
        spaces_plain(t),
        spaces_single(t),
    ensures
        collapse_state(t) == (t, t.len() > 0 && is_space(t.last())),
    decreases t.len(),
{
    if t.len() > 0 {
        let p = t.drop_last();
        assert forall|i: int| 0 <= i < p.len() && is_space(#[trigger] p[i]) implies p[i] == ' ' by {
            assert(p[i] == t[i]);
        }
        assert forall|i: int| 0 <= i < p.len() - 1 implies !(is_space(#[trigger] p[i]) && is_space(p[i + 1])) by {
            assert(p[i] == t[i]);
            assert(p[i + 1] == t[i + 1]);
        }
        lemma_collapse_state_of_form(p);
        if p.len() > 0 && is_space(t.last()) {
            assert(p.last() == t[t.len() - 2]);
        }
        assert(t.last() == t[t.len() - 1]);
        assert(p.push(t.last()) =~= t);
    } else {
        assert(t =~= seq![]);
    }
}

/// Collapsed text has the collapsed shape: single plain spaces between
/// words and no white space at either end.
pub proof fn lemma_collapsed_form(s: Seq<char>)
    ensures
        collapsed_form(collapsed(s)),
{
    let o = collapse_state(s).0;
    lemma_collapse_state_shape(s);
    lemma_leading_space_bounds(o);
    lemma_trailing_space_bounds(o);
    let t = collapsed(s);
    if leading_space(o) < o.len() {
        let a = leading_space(o);
        let b = o.len() - trailing_space(o);
        assert(t == o.subrange(a, b));
        assert(!is_space(o[a]));
        assert(a < b) by {
            if b <= a {
                assert(is_space(o[a]));
            }
        }
        assert forall|i: int| 0 <= i < t.len() && is_space(#[trigger] t[i]) implies t[i] == ' ' by {
            assert(t[i] == o[a + i]);
        }
        assert forall|i: int| 0 <= i < t.len() - 1 implies !(is_space(#[trigger] t[i]) && is_space(t[i + 1])) by {
            assert(t[i] == o[a + i]);
            assert(t[i + 1] == o[a + i + 1]);
        }
        assert(t[0] == o[a]);
        assert(t.last() == o[o.len() - 1 - trailing_space(o)]);
    } else {
        assert(t =~= seq![]);
    }
}

/// Collapsing collapsed text changes nothing.
pub proof fn lemma_collapse_idempotent(s: Seq<char>)
    ensures
        collapsed(collapsed(s)) == collapsed(s),
{
    let t = collapsed(s);
    lemma_collapsed_form(s);
    lemma_collapse_state_of_form(t);
    if t.len() > 0 {
        lemma_trim_unchanged(t);
    } else {
        assert(trim(t) =~= t);
    }
}

/// The characters of `s` that are not white space, in order.
pub open spec fn non_space(s: Seq<char>) -> Seq<char>
    decreases s.len(),
{
    if s.len() == 0 {
        seq![]
    } else if is_space(s.last()) {
        non_space(s.drop_last())
    } else {
        non_space(s.drop_last()).push(s.last())
    }
}

proof fn lemma_non_space_append(a: Seq<char>, b: Seq<char>)
    ensures
        non_space(a + b) == non_space(a) + non_space(b),
    decreases b.len(),
{
    if b.len() == 0 {
        assert(a + b =~= a);
        assert(non_space(a) + non_space(b) =~= non_space(a));
    } else {
        lemma_non_space_append(a, b.drop_last());
        assert((a + b).drop_last() =~= a + b.drop_last());
        assert((a + b).last() == b.last());
        assert(non_space(a) + non_space(b.drop_last()).push(b.last()) =~= (non_space(a) + non_space(b.drop_last())).push(
            b.last(),
        ));
    }
}

proof fn lemma_non_space_of_spaces(s: Seq<char>)
    requires
        forall|i: int| 0 <= i < s.len() ==> is_space(#[trigger] s[i]),
    ensures
        non_space(s) == Seq::<char>::empty(),
    decreases s.len(),
{
    if s.len() > 0 {
        assert(is_space(s[s.len() - 1]));
        assert forall|i: int| 0 <= i < s.drop_last().len() implies is_space(#[trigger] s.drop_last()[i]) by {
            assert(s.drop_last()[i] == s[i]);
        }
        lemma_non_space_of_spaces(s.drop_last());
    }
}

proof fn lemma_collapse_state_keeps_words(s: Seq<char>)
    ensures
        non_space(collapse_state(s).0) == non_space(s),
    decreases s.len(),
{
    if s.len() > 0 {
        lemma_collapse_state_keeps_words(s.drop_last());
        let o = collapse_state(s.drop_last()).0;
        let n = collapse_state(s).0;
        if n != o {
            assert(n.drop_last() =~= o);
            assert(is_space(' '));
        }
    }
}

/// Collapsing keeps every character that is not white space, in order:
/// only white space is changed or dropped.
pub proof fn lemma_collapse_keeps_words(s: Seq<char>)
    ensures
        non_space(collapsed(s)) == non_space(s),
{
    let o = collapse_state(s).0;
    lemma_collapse_state_keeps_words(s);
    lemma_leading_space_bounds(o);
    lemma_trailing_space_bounds(o);
    let a = leading_space(o);
    if a == o.len() {
        assert(o.subrange(0, a) =~= o);
        lemma_non_space_of_spaces(o);
        assert(collapsed(s) =~= seq![]);
    } else {
        let b = o.len() - trailing_space(o);
        assert(a < b) by {
            if b <= a {
                assert(is_space(o[a]));
            }
        }
        let front = o.subrange(0, a);
        let mid = o.subrange(a, b);
        let back = o.subrange(b, o.len() as int);
        assert(o =~= front + mid + back);
        assert forall|i: int| 0 <= i < front.len() implies is_space(#[trigger] front[i]) by {
            assert(front[i] == o[i]);
        }
        assert forall|i: int| 0 <= i < back.len() implies is_space(#[trigger] back[i]) by {
            assert(back[i] == o[b + i]);
        }
        lemma_non_space_of_spaces(front);
        lemma_non_space_of_spaces(back);
        lemma_non_space_append(front, mid);
        lemma_non_space_append(front + mid, back);
        assert(Seq::<char>::empty() + non_space(mid) =~= non_space(mid));
        assert(non_space(mid) + Seq::<char>::empty() =~= non_space(mid));
        assert(collapsed(s) == mid);
    }
}

/// Turns each run of white space into a single space and trims the ends.
pub fn collapse_whitespace(input: &str) -> (out: String)
    ensures
        out@ == collapsed(input@),
{
    let chars = chars_of(input);
    let ghost s = chars@;
    let mut out: Vec<char> = Vec::new();
    let mut was_space = false;
    for i in 0..chars.len()
        invariant
            s == chars@,
            (out@, was_space) == collapse_state(s.take(i as int)),
    {
        let ch = chars[i];
        assert(s.take(i + 1).drop_last() =~= s.take(i as int));
        if is_whitespace(ch) {
            if !was_space {
                out.push(' ');
                was_space = true;
            }
        } else {
            was_space = false;
            out.push(ch);
        }
    }
    assert(s.take(chars.len() as int) =~= s);
    let (a, b) = trim_bounds(&out);
    string_of_range(&out, a, b)
}

proof fn lemma_encode_utf8_push(a: Seq<char>, c: char)
    ensures
        encode_utf8(a.push(c)) == encode_utf8(a) + encode_scalar(c as u32),
    decreases a.len(),
{
    if a.len() == 0 {
        assert(a.push(c).drop_first() =~= Seq::<char>::empty());
        assert(a.push(c)[0] == c);
        assert(encode_utf8(Seq::<char>::empty()) =~= Seq::<u8>::empty());
        assert(encode_utf8(a) =~= Seq::<u8>::empty());
        assert(encode_utf8(a.push(c)) =~= encode_scalar(c as u32));
    } else {
        assert(a.push(c)[0] == a[0]);
        assert(a.push(c).drop_first() =~= a.drop_first().push(c));
        lemma_encode_utf8_push(a.drop_first(), c);
        assert(encode_utf8(a.push(c)) =~= encode_utf8(a) + encode_scalar(c as u32));
    }
}

fn utf8_width(c: char) -> (w: usize)
    ensures
        w == encode_scalar(c as u32).len(),
        1 <= w <= 4,
{
    proof {
        vstd::utf8::char_is_scalar(c);
    }
    let u = c as u32;
    if u < 0x80 {
        1
    } else if u < 0x800 {
        2
    } else if u < 0x10000 {
        3
    } else {
        4
    }
}

/// Whether the first `n` bytes of the encoding of `s` end on a character:
/// `s` is no longer, or some character prefix is exactly `n` bytes.
pub open spec fn cut_on_char(s: Seq<char>, n: nat) -> bool {
    encode_utf8(s).len() <= n || exists|k: int| 0 <= k <= s.len() && #[trigger] encode_utf8(s.take(k)).len() == n
}

/// The page text handed back to the model: at most `TOOL_MAX_CONTENT_LENGTH`
/// bytes, marked when cut.
pub open spec fn capped(s: Seq<char>, out: Seq<char>) -> bool {
    if encode_utf8(s).len() <= TOOL_MAX_CONTENT_LENGTH {
        out == s
    } else {
        exists|k: int| 0 <= k <= s.len() && encode_utf8(s.take(k)).len() == TOOL_MAX_CONTENT_LENGTH
            && out == s.take(k) + "\n[TRUNCATED]"@
    }
}

proof fn lemma_prefix_lengths_grow(s: Seq<char>, j: int, k: int)
    requires
        0 <= j <= k <= s.len(),
    ensures
        encode_utf8(s.take(j)).len() <= encode_utf8(s.take(k)).len(),
        j < k ==> encode_utf8(s.take(j)).len() < encode_utf8(s.take(k)).len(),
    decreases k - j,
{
    if j < k {
        lemma_prefix_lengths_grow(s, j, k - 1);
        assert(s.take(k) =~= s.take(k - 1).push(s[k - 1]));
        lemma_encode_utf8_push(s.take(k - 1), s[k - 1]);
        vstd::utf8::char_is_scalar(s[k - 1]);
        assert(encode_scalar(s[k - 1] as u32).len() >= 1);
    }
}

/// Caps a page text at `TOOL_MAX_CONTENT_LENGTH` bytes, adding a mark when
/// it was cut.
pub fn cap_page_text(text: &str) -> (out: String)
    requires
        cut_on_char(text@, TOOL_MAX_CONTENT_LENGTH as nat),
        encode_utf8(text@).len() <= usize::MAX,
    ensures
        capped(text@, out@),
{
    proof { reveal_strlit("\n[TRUNCATED]"); }
    let total = text.len();
    assert(total == encode_utf8(text@).len() as usize);
    if total <= TOOL_MAX_CONTENT_LENGTH {
        assert(encode_utf8(text@).len() <= TOOL_MAX_CONTENT_LENGTH) by {
            if encode_utf8(text@).len() > TOOL_MAX_CONTENT_LENGTH {
                let k = choose|k: int| 0 <= k <= text@.len() && #[trigger] encode_utf8(text@.take(k)).len() == TOOL_MAX_CONTENT_LENGTH;
                lemma_prefix_lengths_grow(text@, k, text@.len() as int);
                assert(text@.take(text@.len() as int) =~= text@);
            }
        }
        return owned(text);
    }
    let v = chars_of(text);
    let ghost s = v@;
    let mut used: usize = 0;
    let mut k: usize = 0;
    assert(s.take(0) =~= Seq::<char>::empty());
    while k < v.len() && used < TOOL_MAX_CONTENT_LENGTH
        invariant
            s == v@,
            s == text@,
            k <= v@.len(),
            used == encode_utf8(s.take(k as int)).len(),
            used <= TOOL_MAX_CONTENT_LENGTH,
            cut_on_char(s, TOOL_MAX_CONTENT_LENGTH as nat),
            encode_utf8(s).len() > TOOL_MAX_CONTENT_LENGTH,
        decreases v@.len() - k,
    {
        let w = utf8_width(v[k]);
        proof {
            assert(s.take(k + 1) =~= s.take(k as int).push(s[k as int]));
            lemma_encode_utf8_push(s.take(k as int), s[k as int]);
            let j = choose|j: int| 0 <= j <= s.len() && #[trigger] encode_utf8(s.take(j)).len() == TOOL_MAX_CONTENT_LENGTH;
            if j <= k {
                lemma_prefix_lengths_grow(s, j, k as int);
            } else {
                lemma_prefix_lengths_grow(s, k + 1, j);
            }
        }
        used = used + w;
        k = k + 1;
    }
    proof {
        if used < TOOL_MAX_CONTENT_LENGTH {
            assert(s.take(k as int) =~= s);
        }
    }
    assert(used == TOOL_MAX_CONTENT_LENGTH);
    let mut out = string_of_range(&v, 0, k);
    out.append("\n[TRUNCATED]");
    assert(s.subrange(0, k as int) =~= s.take(k as int));
    out
}

/// What a page fetch hands back to the model: the page without tags and
/// with white space collapsed, capped; a failed fetch reports its status,
/// a successful one repeats the query.
pub open spec fn page_reply(page: Seq<char>, success: bool, status: Seq<char>, query: Seq<char>) -> Seq<char> {
    if success {
        "Query: "@ + query + "\n"@ + page
    } else {
        "Failed to fetch URL. Status: "@ + status + ". Body (truncated): "@ + page
    }
}

/// The reply to a page fetch, from the fetched body and status.
pub fn fetched_page_reply(body: &str, success: bool, status: &str, query: &str) -> (r: String)
    requires
        cut_on_char(collapsed(stripped(body@)), TOOL_MAX_CONTENT_LENGTH as nat),
        encode_utf8(collapsed(stripped(body@))).len() <= usize::MAX,
    ensures
        exists|page: Seq<char>| capped(collapsed(stripped(body@)), page) && r@ == page_reply(page, success, status@, query@),
{
    proof {
        reveal_strlit("Query: ");
        reveal_strlit("\n");
        reveal_strlit("Failed to fetch URL. Status: ");
        reveal_strlit(". Body (truncated): ");
    }
    let stripped_text = strip_html_tags(body);
    let collapsed_text = collapse_whitespace(stripped_text.as_str());
    let page = cap_page_text(collapsed_text.as_str());
    let r = if success {
        crate::text::concat4("Query: ", query, "\n", page.as_str())
    } else {
        crate::text::concat4("Failed to fetch URL. Status: ", status, ". Body (truncated): ", page.as_str())
    };
    assert(r@ == page_reply(page@, success, status@, query@));
    r
}

/// The next attempt of the tool loop, refused past `TOOL_MAX_ATTEMPTS`.
pub fn next_tool_attempt(attempts: u32) -> (r: Result<u32, String>)
    ensures
        attempts < TOOL_MAX_ATTEMPTS ==> r == Ok::<u32, String>((attempts + 1) as u32),
        attempts >= TOOL_MAX_ATTEMPTS ==> (r matches Err(m) && m@ == "Tool loop exceeded maximum attempts"@),
{
    if attempts >= TOOL_MAX_ATTEMPTS {
        Err(owned("Tool loop exceeded maximum attempts"))
    } else {
        Ok(attempts + 1)
    }
}

/// A tool call a model asked for.
#[derive(Debug)]
pub enum ToolCall {
    Function { id: String, name: String, arguments: String },
    Custom { id: String, name: String },
}

/// The arguments of a page tool call in their JSON value: the `url` string
/// and, for a tool that takes one, the `query` string; otherwise the first
/// member that is missing or not a string.
pub open spec fn tool_arguments_in(v: JsonValue, needs_query: bool) -> Result<(Seq<char>, Option<Seq<char>>), Seq<char>> {
    match member_str(v, "url"@) {
        Err(e) => Err(e),
        Ok(url) => if needs_query {
            match member_str(v, "query"@) {
                Err(e) => Err(e),
                Ok(q) => Ok((url, Some(q))),
            }
        } else {
            Ok((url, None))
        },
    }
}

/// The arguments of a page tool call read from their JSON text, or the
/// JSON error.
pub open spec fn tool_arguments_of(text: Seq<char>, needs_query: bool) -> Result<(Seq<char>, Option<Seq<char>>), Seq<char>> {
    match json_parse(text) {
        Err(e) => Err(e),
        Ok(v) => tool_arguments_in(v, needs_query),
    }
}

/// Reads the arguments of a page tool call from their JSON value (see
/// [`tool_arguments_in`]).
pub fn tool_arguments_of_value(v: &JsonValue, needs_query: bool) -> (r: Result<(String, Option<String>), String>)
    ensures
        match r {
            Ok((url, query)) => tool_arguments_in(*v, needs_query) == Ok::<
                (Seq<char>, Option<Seq<char>>),
                Seq<char>,
            >((url@, opt_string_model(query))),
            Err(e) => tool_arguments_in(*v, needs_query) == Err::<(Seq<char>, Option<Seq<char>>), Seq<char>>(e@),
        },
{
    proof {
        reveal_strlit("url");
        reveal_strlit("query");
    }
    let url = match member_string(v, "url") {
        Ok(u) => u,
        Err(e) => {
            return Err(e);
        },
    };
    if !needs_query {
        return Ok((url, None));
    }
    match member_string(v, "query") {
        Ok(q) => Ok((url, Some(q))),
        Err(e) => Err(e),
    }
}

/// Reads the arguments of a page tool call (see [`tool_arguments_of`]).
pub fn tool_arguments(arguments: &str, needs_query: bool) -> (r: Result<(String, Option<String>), String>)
    ensures
        match r {
            Ok((url, query)) => tool_arguments_of(arguments@, needs_query) == Ok::<
                (Seq<char>, Option<Seq<char>>),
                Seq<char>,
            >((url@, opt_string_model(query))),
            Err(e) => tool_arguments_of(arguments@, needs_query) == Err::<(Seq<char>, Option<Seq<char>>), Seq<char>>(
                e@,
            ),
        },
{
    match parse_json(arguments) {
        Ok(v) => tool_arguments_of_value(&v, needs_query),
        Err(e) => Err(e),
    }
}

/// The model's final answer: no content is no answer; content is read as
/// JSON, and text that is not JSON gives serde_json's message.
pub fn final_answer(content: Option<&str>) -> (r: Result<Option<JsonValue>, String>)
    ensures
        match content {
            None => r == Ok::<Option<JsonValue>, String>(None),
            Some(text) => match json_parse(text@) {
                Ok(v) => r == Ok::<Option<JsonValue>, String>(Some(v)),
                Err(e) => r matches Err(m) && m@ == e,
            },
        },
{
    match content {
        None => Ok(None),
        Some(text) => match parse_json(text) {
            Ok(v) => Ok(Some(v)),
            Err(e) => Err(e),
        },
    }
}

/// What to do about a tool call.
#[derive(Debug)]
pub enum ToolAction {
    /// Fetch the page the arguments name and answer with its text.
    FetchWebpage { call_id: String, arguments: String },
    /// Open the page the arguments name and answer with a preview of it.
    OpenSimpleBrowser { call_id: String, arguments: String },
    /// Answer at once with this text.
    Reply { call_id: String, content: String },
}

/// The JSON object `{"error": message}` as text.
pub open spec fn error_object(message: Seq<char>) -> Seq<char> {
    "{\"error\":"@ + json_quoted(message) + "}"@
}

/// What to do about a tool call: the two page tools run; any other
/// function is answered with an error object; a custom tool with a notice.
pub fn tool_action(call: ToolCall) -> (a: ToolAction)
    ensures
        match call {
            ToolCall::Function { id, name, arguments } => if name@ == "fetch_webpage"@ {
                a == ToolAction::FetchWebpage { call_id: id, arguments }
            } else if name@ == "open_simple_browser"@ {
                a == ToolAction::OpenSimpleBrowser { call_id: id, arguments }
            } else {
                a matches ToolAction::Reply { call_id, content } && call_id == id
                    && content@ == error_object("Unsupported tool: "@ + name@)
            },
            ToolCall::Custom { id, name } => a matches ToolAction::Reply { call_id, content } && call_id == id
                && content@ == "Unsupported custom tool: "@ + name@,
        },
{
    match call {
        ToolCall::Function { id, name, arguments } => {
            if crate::text::str_eq(name.as_str(), "fetch_webpage") {
                ToolAction::FetchWebpage { call_id: id, arguments }
            } else if crate::text::str_eq(name.as_str(), "open_simple_browser") {
                ToolAction::OpenSimpleBrowser { call_id: id, arguments }
            } else {
                proof {
                    reveal_strlit("{\"error\":");
                    reveal_strlit("}");
                }
                let message = concat2("Unsupported tool: ", name.as_str());
                let mut content = owned("{\"error\":");
                crate::models::dto::request::push_json_text(&mut content, message.as_str());
                content.append("}");
                ToolAction::Reply { call_id: id, content }
            }
        },
        ToolCall::Custom { id, name } => ToolAction::Reply {
            call_id: id,
            content: concat2("Unsupported custom tool: ", name.as_str()),
        },
    }
}

/// The answer of the page-fetching tool: the page's content, the query and
/// the address, as a JSON object with its keys in order.
pub open spec fn fetch_reply(url: Seq<char>, query: Seq<char>, content: Seq<char>) -> Seq<char> {
    "{\"content\":"@ + json_quoted(content) + ",\"query\":"@ + json_quoted(query) + ",\"url\":"@ + json_quoted(url) + "}"@
}

/// The answer of the page-fetching tool.
pub fn fetch_tool_reply(url: &str, query: &str, content: &str) -> (r: String)
    ensures
        r@ == fetch_reply(url@, query@, content@),
{
    proof {
        reveal_strlit("{\"content\":");
        reveal_strlit(",\"query\":");
        reveal_strlit(",\"url\":");
        reveal_strlit("}");
    }
    let mut r = owned("{\"content\":");
    crate::models::dto::request::push_json_text(&mut r, content);
    r.append(",\"query\":");
    crate::models::dto::request::push_json_text(&mut r, query);
    r.append(",\"url\":");
    crate::models::dto::request::push_json_text(&mut r, url);
    r.append("}");
    r
}

/// The answer of the page-preview tool: the page's content and address.
pub open spec fn preview_reply(url: Seq<char>, content: Seq<char>) -> Seq<char> {
    "{\"content\":"@ + json_quoted(content) + ",\"url\":"@ + json_quoted(url) + "}"@
}

/// The answer of the page-preview tool.
pub fn preview_tool_reply(url: &str, content: &str) -> (r: String)
    ensures
        r@ == preview_reply(url@, content@),
{
    proof {
        reveal_strlit("{\"content\":");
        reveal_strlit(",\"url\":");
        reveal_strlit("}");
    }
    let mut r = owned("{\"content\":");
    crate::models::dto::request::push_json_text(&mut r, content);
    r.append(",\"url\":");
    crate::models::dto::request::push_json_text(&mut r, url);
    r.append("}");
    r
}

/// Replaces, in `schema`, every `"$ref": "#/$defs/Name"` naming a
/// definition of `defs` by that definition, the definitions' own
/// references in turn, so that a model server without `$ref` support
/// reads it.
pub fn inline_schema_refs(schema: &mut JsonValue, defs: &JsonValue)
    requires
        refs_resolve(*old(schema), *defs),
    ensures
        inlined(*old(schema), *final(schema), *defs, refs_fuel(*old(schema), *defs)),
{
    let r = inline_refs(schema, defs);
    *schema = r;
}

/// The definitions a JSON schema carries under `"$defs"`; `Null`, which
/// names no definition, where it has none.
pub open spec fn schema_defs(schema: JsonValue) -> JsonValue {
    match schema {
        JsonValue::Object(m) => if m@.contains_key("$defs"@) { m@["$defs"@] } else { JsonValue::Null },
        _ => JsonValue::Null,
    }
}

/// The schema handed to the model for a structured answer: `schema` with
/// its own definitions inlined and its `"$defs"` member dropped.
pub fn response_schema(schema: &JsonValue) -> (r: JsonValue)
    requires
        refs_resolve(*schema, schema_defs(*schema)),
    ensures
        exists|full: JsonValue|
            inlined(*schema, full, schema_defs(*schema), refs_fuel(*schema, schema_defs(*schema)))
            && #[trigger] without_member(full, r, "$defs"@),
{
    let none = JsonValue::Null;
    let defs: &JsonValue = match schema {
        JsonValue::Object(m) => match m.get("$defs") {
            Some(d) => d,
            None => &none,
        },
        _ => &none,
    };
    let full = inline_refs(schema, defs);
    let ghost g = full;
    let r = match full {
        JsonValue::Object(mut m) => {
            m.remove("$defs");
            JsonValue::Object(m)
        },
        other => other,
    };
    assert(without_member(g, r, "$defs"@));
    r
}

/// The schema handed to the model, as [`response_schema`] makes it, when
/// `depth` bounds how deeply its references lead into further references;
/// `None` when it does not, as for a definition that refers to itself.
pub fn checked_response_schema(schema: &JsonValue, depth: usize) -> (r: Option<JsonValue>)
    ensures
        r is None <==> !fuel_enough(*schema, schema_defs(*schema), depth as nat),
        r matches Some(x) ==> exists|full: JsonValue|
            inlined(*schema, full, schema_defs(*schema), refs_fuel(*schema, schema_defs(*schema)))
            && #[trigger] without_member(full, x, "$defs"@),
{
    let none = JsonValue::Null;
    proof { reveal_strlit("$defs"); }
    let defs: &JsonValue = match schema {
        JsonValue::Object(m) => match m.get("$defs") {
            Some(d) => d,
            None => &none,
        },
        _ => &none,
    };
    if refs_within(schema, defs, depth) {
        Some(response_schema(schema))
    } else {
        None
    }
}

} // verus!
