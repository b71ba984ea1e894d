//! Service configuration and the canonical form of redirect origins.

use vstd::prelude::*;

use crate::text::{ascii_lower, ascii_lower_char, chars_of, is_space, lower_range, owned, push_char, trim, trimmed};

verus! {

/// Where the service finds its database and how it is reached.
#[derive(Debug)]
pub struct Config {
    pub mongo_conn_string: String,
    pub mongo_db_name: String,
    pub users_collection: String,
    pub web_server_host: String,
    /// The canonical origins (`scheme://host[:port]`) that OAuth
    /// redirects may point to.
    pub allowed_redirect_origins: Vec<String>,
}

/// Whether `s[i..i + 3]` is `://`.
pub open spec fn is_sep_at(s: Seq<char>, i: int) -> bool {
    0 <= i && i + 3 <= s.len() && s[i] == ':' && s[i + 1] == '/' && s[i + 2] == '/'
}

/// The first position at or after `from` where `://` starts, or -1.
pub open spec fn first_sep(s: Seq<char>, from: int) -> int
    decreases s.len() - from,
{
    if from < 0 || from + 3 > s.len() {
        -1
    } else if is_sep_at(s, from) {
        from
    } else {
        first_sep(s, from + 1)
    }
}

/// Whether `c` may stand in a URL scheme.
pub open spec fn is_scheme_char(c: char) -> bool {
    ('a' <= c <= 'z') || ('A' <= c <= 'Z') || ('0' <= c <= '9') || c == '+' || c == '-' || c == '.'
}

/// Whether `c` ends the authority part of a URL.
pub open spec fn ends_authority(c: char) -> bool {
    c == '/' || c == '?' || c == '#'
}

/// The first position at or after `from` that ends the authority, or the
/// length of `s`.
pub open spec fn authority_end(s: Seq<char>, from: int) -> int
    decreases s.len() - from,
{
    if from < 0 || from >= s.len() {
        s.len() as int
    } else if ends_authority(s[from]) {
        from
    } else {
        authority_end(s, from + 1)
    }
}

/// Whether `s` ends with `suffix`.
pub open spec fn ends_with(s: Seq<char>, suffix: Seq<char>) -> bool {
    s.len() >= suffix.len() && s.subrange(s.len() - suffix.len(), s.len() as int) == suffix
}

/// The authority without the port that is the default for the scheme.
pub open spec fn without_default_port(scheme: Seq<char>, authority: Seq<char>) -> Seq<char> {
    if scheme == "http"@ && ends_with(authority, ":80"@) {
        authority.subrange(0, authority.len() - 3)
    } else if scheme == "https"@ && ends_with(authority, ":443"@) {
        authority.subrange(0, authority.len() - 4)
    } else {
        authority
    }
}

/// The canonical origin of a URL or origin, `scheme://host[:port]` in
/// lower case without the scheme's default port, or `None` when `s`,
/// trimmed, has no non-empty scheme of scheme characters followed by `://`
/// and a non-empty authority.
pub open spec fn origin_of(s: Seq<char>) -> Option<Seq<char>> {
    let t = trim(s);
    let k = first_sep(t, 0);
    if k <= 0 || !(forall|i: int| 0 <= i < k ==> is_scheme_char(#[trigger] t[i])) {
        None
    } else {
        let e = authority_end(t, k + 3);
        if e <= k + 3 {
            None
        } else {
            let scheme = ascii_lower(t.subrange(0, k));
            let authority = ascii_lower(t.subrange(k + 3, e));
            Some(scheme + "://"@ + without_default_port(scheme, authority))
        }
    }
}

/// The comma-separated pieces of `s`; there is always at least one.
pub open spec fn split_commas(s: Seq<char>) -> Seq<Seq<char>>
    decreases s.len(),
{
    if s.len() == 0 {
        seq![seq![]]
    } else {
        let front = split_commas(s.drop_last());
        if s.last() == ',' {
            front.push(seq![])
        } else {
            front.update(front.len() - 1, front.last().push(s.last()))
        }
    }
}

/// The canonical origins of the pieces that have one, in order.
pub open spec fn origins_of(pieces: Seq<Seq<char>>) -> Seq<Seq<char>>
    decreases pieces.len(),
{
    if pieces.len() == 0 {
        seq![]
    } else {
        match origin_of(pieces.last()) {
            Some(o) => origins_of(pieces.drop_last()).push(o),
            None => origins_of(pieces.drop_last()),
        }
    }
}

proof fn lemma_split_commas_nonempty(s: Seq<char>)
    ensures
        split_commas(s).len() >= 1,
    decreases s.len(),
{
    if s.len() > 0 {
        lemma_split_commas_nonempty(s.drop_last());
    }
}

proof fn lemma_first_sep(s: Seq<char>, from: int)
    ensures
        first_sep(s, from) == -1 || (from <= first_sep(s, from) && is_sep_at(s, first_sep(s, from))),
        forall|j: int| 0 <= from <= j < s.len() && (first_sep(s, from) == -1 || j < first_sep(s, from)) ==> !is_sep_at(s, j),
    decreases s.len() - from,
{
    if from >= 0 && from + 3 <= s.len() && !is_sep_at(s, from) {
        lemma_first_sep(s, from + 1);
    }
}

proof fn lemma_authority_end(s: Seq<char>, from: int)
    requires
        0 <= from,
    ensures
        from <= authority_end(s, from) <= s.len() || (from > s.len() && authority_end(s, from) == s.len()),
        forall|j: int| from <= j < authority_end(s, from) ==> !ends_authority(#[trigger] s[j]),
        authority_end(s, from) < s.len() ==> ends_authority(s[authority_end(s, from)]),
    decreases s.len() - from,
{
    if from < s.len() && !ends_authority(s[from]) {
        lemma_authority_end(s, from + 1);
    }
}

/// Whether `s` starts with `prefix`.
pub open spec fn starts_with(s: Seq<char>, prefix: Seq<char>) -> bool {
    s.len() >= prefix.len() && s.subrange(0, prefix.len() as int) == prefix
}

/// A canonical origin is its own canonical origin, so that origins compare
/// consistently once canonicalized. This holds for every canonical origin
/// but those that end in white space, have nothing after `://`, or still
/// end with their scheme's default port (the port is dropped once per
/// canonicalization).
pub proof fn lemma_canonical_origin_is_stable(s: Seq<char>)
    requires
        origin_of(s) is Some,
        !is_space(origin_of(s)->0.last()),
        !ends_with(origin_of(s)->0, "://"@),
        !(starts_with(origin_of(s)->0, "http://"@) && ends_with(origin_of(s)->0, ":80"@)),
        !(starts_with(origin_of(s)->0, "https://"@) && ends_with(origin_of(s)->0, ":443"@)),
    ensures
        origin_of(origin_of(s)->0) == origin_of(s),
{
    reveal_strlit("://");
    reveal_strlit("http");
    reveal_strlit("https");
    reveal_strlit(":80");
    reveal_strlit(":443");
    reveal_strlit("http://");
    reveal_strlit("https://");
    let t = trim(s);
    let k = first_sep(t, 0);
    lemma_first_sep(t, 0);
    let e = authority_end(t, k + 3);
    lemma_authority_end(t, k + 3);
    let sch = ascii_lower(t.subrange(0, k));
    let au = ascii_lower(t.subrange(k + 3, e));
    let a = without_default_port(sch, au);
    let o = sch + "://"@ + a;
    assert(origin_of(s) == Some(o));
    assert(sch.len() == k);
    assert(o.len() == k + 3 + a.len());
    assert(a.len() <= au.len());
    assert forall|j: int| 0 <= j < a.len() implies #[trigger] a[j] == au[j] by {}
    assert forall|i: int| 0 <= i < k implies is_scheme_char(#[trigger] o[i]) && o[i] != ':' && ascii_lower_char(o[i]) == o[i] by {
        assert(o[i] == sch[i]);
        assert(sch[i] == ascii_lower_char(t[i]));
        assert(is_scheme_char(t[i]));
    }
    assert forall|j: int| k + 3 <= j < o.len() implies !ends_authority(#[trigger] o[j]) && ascii_lower_char(o[j]) == o[j] by {
        assert(o[j] == a[j - k - 3]);
        assert(au[j - k - 3] == ascii_lower_char(t[j]));
        assert(!ends_authority(t[j]));
    }
    // No white space at either end.
    assert(!is_space(o[0])) by {
        assert(is_scheme_char(o[0]));
    }
    crate::text::lemma_trim_unchanged(o);
    // The separator is where the scheme ends.
    assert(is_sep_at(o, k));
    lemma_first_sep(o, 0);
    let k2 = first_sep(o, 0);
    assert(k2 == k) by {
        if k2 == -1 {
            assert(!is_sep_at(o, k));
        } else if k2 < k {
            assert(o[k2] == ':');
        } else if k2 > k {
            assert(!is_sep_at(o, k));
        }
    }
    // The authority runs to the end.
    lemma_authority_end(o, k + 3);
    assert(authority_end(o, k + 3) == o.len());
    assert(a.len() > 0) by {
        if a.len() == 0 {
            assert(o.subrange(o.len() - 3, o.len() as int) =~= "://"@);
        }
    }
    // Lower case and the port change nothing more.
    assert(o.subrange(0, k) =~= sch);
    crate::text::lemma_ascii_lower_idempotent(t.subrange(0, k));
    assert(o.subrange(k + 3, o.len() as int) =~= a);
    assert(ascii_lower(a) =~= a);
    assert(without_default_port(sch, a) == a) by {
        if sch == "http"@ && ends_with(a, ":80"@) {
            assert(o.subrange(0, 7) =~= "http://"@);
            assert(o.subrange(o.len() - 3, o.len() as int) =~= a.subrange(a.len() - 3, a.len() as int));
        }
        if sch == "https"@ && ends_with(a, ":443"@) {
            assert(o.subrange(0, 8) =~= "https://"@);
            assert(o.subrange(o.len() - 4, o.len() as int) =~= a.subrange(a.len() - 4, a.len() as int));
        }
    }
}

fn find_sep(t: &Vec<char>) -> (k: Option<usize>)
    ensures
        match k {
            Some(k) => k as int == first_sep(t@, 0),
            None => first_sep(t@, 0) == -1,
        },
{
    proof { lemma_first_sep(t@, 0); }
    let n = t.len();
    let mut i: usize = 0;
    while n >= 3 && i <= n - 3
        invariant
            n == t@.len(),
            i <= n,
            first_sep(t@, 0) == first_sep(t@, i as int),
        decreases n - i,
    {
        if t[i] == ':' && t[i + 1] == '/' && t[i + 2] == '/' {
            return Some(i);
        }
        i += 1;
    }
    None
}

fn all_scheme_chars(t: &Vec<char>, k: usize) -> (b: bool)
    requires
        k <= t@.len(),
    ensures
        b == (forall|i: int| 0 <= i < k ==> is_scheme_char(#[trigger] t@[i])),
{
    for i in 0..k
        invariant
            k <= t@.len(),
            forall|j: int| 0 <= j < i ==> is_scheme_char(#[trigger] t@[j]),
    {
        let c = t[i];
        if !(('a' <= c && c <= 'z') || ('A' <= c && c <= 'Z') || ('0' <= c && c <= '9') || c == '+'
            || c == '-' || c == '.') {
            return false;
        }
    }
    true
}

fn find_authority_end(t: &Vec<char>, from: usize) -> (e: usize)
    requires
        from <= t@.len(),
    ensures
        e as int == authority_end(t@, from as int),
{
    let mut i = from;
    while i < t.len()
        invariant
            from <= i <= t@.len(),
            authority_end(t@, from as int) == authority_end(t@, i as int),
        decreases t@.len() - i,
    {
        let c = t[i];
        if c == '/' || c == '?' || c == '#' {
            return i;
        }
        i += 1;
    }
    i
}

fn seq_ends_with(s: &String, suffix: &str) -> (b: bool)
    ensures
        b == ends_with(s@, suffix@),
{
    let v = chars_of(s.as_str());
    let w = chars_of(suffix);
    if v.len() < w.len() {
        return false;
    }
    let off = v.len() - w.len();
    for i in 0..w.len()
        invariant
            off == v@.len() - w@.len(),
            off + w@.len() == v.len(),
            v@ == s@,
            w@ == suffix@,
            forall|j: int| 0 <= j < i ==> v@[off + j] == w@[j],
    {
        if v[off + i] != w[i] {
            assert(v@.subrange(off as int, v@.len() as int)[i as int] != w@[i as int]);
            return false;
        }
    }
    assert(v@.subrange(off as int, v@.len() as int) =~= w@);
    true
}

impl Config {
    /// The configuration used by tests: a local database named
    /// `tento-test`, the `users` collection, host `127.0.0.1`, and
    /// redirects to `http://localhost:5173`.
    pub fn test_config() -> (c: Config)
        ensures
            c.mongo_conn_string@ == "mongodb://localhost:27017"@,
            c.mongo_db_name@ == "tento-test"@,
            c.users_collection@ == "users"@,
            c.web_server_host@ == "127.0.0.1"@,
            c.allowed_redirect_origins@.len() == 1,
            c.allowed_redirect_origins@[0]@ == "http://localhost:5173"@,
    {
        let mut allowed: Vec<String> = Vec::new();
        allowed.push(owned("http://localhost:5173"));
        Config {
            mongo_conn_string: owned("mongodb://localhost:27017"),
            mongo_db_name: owned("tento-test"),
            users_collection: owned("users"),
            web_server_host: owned("127.0.0.1"),
            allowed_redirect_origins: allowed,
        }
    }

    /// A configuration from the settings given, each missing one taking
    /// its default: `mongodb://localhost:27017`, `tento-local`, `users`,
    /// `localhost`, and `http://localhost:5173` as the only redirect
    /// origin. The origins are given comma-separated and kept in their
    /// canonical form; those without one are dropped.
    pub fn from_values(
        mongo_conn_string: Option<String>,
        mongo_db_name: Option<String>,
        users_collection: Option<String>,
        web_server_host: Option<String>,
        allowed_redirect_origins: Option<String>,
    ) -> (c: Config)
        ensures
            c.mongo_conn_string@ == match mongo_conn_string {
                Some(v) => v@,
                None => "mongodb://localhost:27017"@,
            },
            c.mongo_db_name@ == match mongo_db_name {
                Some(v) => v@,
                None => "tento-local"@,
            },
            c.users_collection@ == match users_collection {
                Some(v) => v@,
                None => "users"@,
            },
            c.web_server_host@ == match web_server_host {
                Some(v) => v@,
                None => "localhost"@,
            },
            crate::text::strings_model(c.allowed_redirect_origins@) == origins_of(split_commas(
                match allowed_redirect_origins {
                    Some(v) => v@,
                    None => "http://localhost:5173"@,
                },
            )),
    {
        let origins = match allowed_redirect_origins {
            Some(v) => Config::parse_allowed_origins(v.as_str()),
            None => Config::parse_allowed_origins("http://localhost:5173"),
        };
        Config {
            mongo_conn_string: match mongo_conn_string {
                Some(v) => v,
                None => owned("mongodb://localhost:27017"),
            },
            mongo_db_name: match mongo_db_name {
                Some(v) => v,
                None => owned("tento-local"),
            },
            users_collection: match users_collection {
                Some(v) => v,
                None => owned("users"),
            },
            web_server_host: match web_server_host {
                Some(v) => v,
                None => owned("localhost"),
            },
            allowed_redirect_origins: origins,
        }
    }

    /// The canonical origins in a comma-separated list, in order; pieces
    /// without an origin are dropped.
    pub fn parse_allowed_origins(list: &str) -> (origins: Vec<String>)
        ensures
            crate::text::strings_model(origins@) == origins_of(split_commas(list@)),
    {
        let chars = chars_of(list);
        let mut origins: Vec<String> = Vec::new();
        let mut current = String::new();
        proof {
            assert(chars@.take(0) =~= Seq::<char>::empty());
        }
        for i in 0..chars.len()
            invariant
                chars@ == list@,
                split_commas(chars@.take(i as int)).len() >= 1,
                crate::text::strings_model(origins@) == origins_of(split_commas(chars@.take(i as int)).drop_last()),
                current@ == split_commas(chars@.take(i as int)).last(),
        {
            let ghost pre = chars@.take(i as int);
            let ghost next = chars@.take(i + 1);
            assert(next.drop_last() =~= pre);
            proof { lemma_split_commas_nonempty(next); }
            let c = chars[i];
            if c == ',' {
                let ghost piece = current@;
                match Config::canonicalize_origin(current.as_str()) {
                    Some(o) => {
                        origins.push(o);
                    },
                    None => {},
                }
                assert(split_commas(next).drop_last() =~= split_commas(pre));
                assert(split_commas(pre) =~= split_commas(pre).drop_last().push(piece));
                current = String::new();
            } else {
                push_char(&mut current, c);
                assert(split_commas(next).drop_last() =~= split_commas(pre).drop_last());
            }
            assert(crate::text::strings_model(origins@) =~= origins_of(split_commas(next).drop_last()));
        }
        assert(chars@.take(chars.len() as int) =~= chars@);
        let ghost all = split_commas(chars@);
        proof { lemma_split_commas_nonempty(chars@); }
        match Config::canonicalize_origin(current.as_str()) {
            Some(o) => {
                origins.push(o);
            },
            None => {},
        }
        assert(all =~= all.drop_last().push(all.last()));
        assert(crate::text::strings_model(origins@) =~= origins_of(all));
        origins
    }

    /// The canonical origin (`scheme://host[:port]`, lower case, without
    /// the scheme's default port) of a URL or origin, or `None` when it
    /// has no scheme and authority.
    pub fn canonicalize_origin(origin: &str) -> (r: Option<String>)
        ensures
            match r {
                Some(o) => origin_of(origin@) == Some(o@),
                None => origin_of(origin@) is None,
            },
    {
        proof {
            reveal_strlit("://");
            reveal_strlit("http");
            reveal_strlit("https");
            reveal_strlit(":80");
            reveal_strlit(":443");
        }
        let t = trimmed(origin);
        let v = chars_of(t.as_str());
        let ghost tv = v@;
        assert(tv == trim(origin@));
        let k = match find_sep(&v) {
            Some(k) => k,
            None => {
                return None;
            },
        };
        proof { lemma_first_sep(tv, 0); }
        assert(is_sep_at(tv, k as int));
        assert(k + 3 <= v.len());
        if k == 0 || !all_scheme_chars(&v, k) {
            return None;
        }
        let e = find_authority_end(&v, k + 3);
        proof { lemma_authority_end(tv, k + 3); }
        if e <= k + 3 {
            return None;
        }
        let scheme = lower_range(&v, 0, k);
        let authority = lower_range(&v, k + 3, e);
        let a = chars_of(authority.as_str());
        let port_free: String = if str_is(&scheme, "http") && seq_ends_with(&authority, ":80") {
            crate::text::string_of_range(&a, 0, a.len() - 3)
        } else if str_is(&scheme, "https") && seq_ends_with(&authority, ":443") {
            crate::text::string_of_range(&a, 0, a.len() - 4)
        } else {
            authority
        };
        let mut out = scheme;
        out.append("://");
        out.append(port_free.as_str());
        Some(out)
    }
}

fn str_is(s: &String, t: &str) -> (b: bool)
    ensures
        b == (s@ == t@),
{
    crate::text::str_eq(s.as_str(), t)
}

} // verus!
