//! A JSON document model: values, and objects as maps from keys to values.

use vstd::prelude::*;

use crate::text::{concat3, copy_string};

verus! {

/// A JSON value. Numbers keep their textual form.
#[derive(Debug)]
pub enum JsonValue {
    Null,
    Bool(bool),
    Number(String),
    Str(String),
    Array(Vec<JsonValue>),
    Object(JsonMap),
}

/// A JSON object: keys mapped to values, each key at most once.
#[derive(Debug)]
pub struct JsonMap {
    entries: Vec<(String, JsonValue)>,
}

/// The map that a list of entries denotes, later entries overriding
/// earlier ones.
pub open spec fn entries_map(s: Seq<(String, JsonValue)>) -> Map<Seq<char>, JsonValue>
    decreases s.len(),
{
    if s.len() == 0 {
        Map::empty()
    } else {
        entries_map(s.drop_last()).insert(s.last().0@, s.last().1)
    }
}

/// No key occurs twice.
pub open spec fn keys_distinct(s: Seq<(String, JsonValue)>) -> bool {
    forall|i: int, j: int| 0 <= i < j < s.len() ==> (#[trigger] s[i]).0@ != (#[trigger] s[j]).0@
}

proof fn lemma_entries_map_domain(s: Seq<(String, JsonValue)>)
    ensures
        forall|k: Seq<char>| #[trigger] entries_map(s).contains_key(k) <==> exists|i: int| 0 <= i < s.len() && (#[trigger] s[i]).0@ == k,
    decreases s.len(),
{
    if s.len() > 0 {
        lemma_entries_map_domain(s.drop_last());
        assert forall|k: Seq<char>| #[trigger] entries_map(s).contains_key(k) <==> exists|i: int| 0 <= i < s.len() && (#[trigger] s[i]).0@ == k by {
            if entries_map(s.drop_last()).contains_key(k) {
                let i = choose|i: int| 0 <= i < s.drop_last().len() && (#[trigger] s.drop_last()[i]).0@ == k;
                assert(s[i] == s.drop_last()[i]);
            }
            if exists|i: int| 0 <= i < s.len() && (#[trigger] s[i]).0@ == k {
                let i = choose|i: int| 0 <= i < s.len() && (#[trigger] s[i]).0@ == k;
                if i < s.len() - 1 {
                    assert(s.drop_last()[i] == s[i]);
                }
            }
        }
    }
}

proof fn lemma_entries_map_value(s: Seq<(String, JsonValue)>, i: int)
    requires
        keys_distinct(s),
        0 <= i < s.len(),
    ensures
        entries_map(s).contains_key(s[i].0@),
        entries_map(s)[s[i].0@] == s[i].1,
    decreases s.len(),
{
    if i < s.len() - 1 {
        assert(s.drop_last()[i] == s[i]);
        assert(keys_distinct(s.drop_last())) by {
            assert forall|a: int, b: int| 0 <= a < b < s.drop_last().len() implies (#[trigger] s.drop_last()[a]).0@ != (#[trigger] s.drop_last()[b]).0@ by {
                assert(s.drop_last()[a] == s[a]);
                assert(s.drop_last()[b] == s[b]);
            }
        }
        lemma_entries_map_value(s.drop_last(), i);
        assert(s[i].0@ != s.last().0@);
    }
}

proof fn lemma_entries_map_update(s: Seq<(String, JsonValue)>, i: int, e: (String, JsonValue))
    requires
        keys_distinct(s),
        0 <= i < s.len(),
        s[i].0@ == e.0@,
    ensures
        entries_map(s.update(i, e)) == entries_map(s).insert(e.0@, e.1),
        keys_distinct(s.update(i, e)),
    decreases s.len(),
{
    let t = s.update(i, e);
    assert(keys_distinct(t)) by {
        assert forall|a: int, b: int| 0 <= a < b < t.len() implies (#[trigger] t[a]).0@ != (#[trigger] t[b]).0@ by {
            assert(s[a].0@ != s[b].0@);
        }
    }
    if i == s.len() - 1 {
        assert(t.drop_last() =~= s.drop_last());
        assert(entries_map(s.drop_last()).insert(e.0@, e.1) =~= entries_map(s.drop_last()).insert(s.last().0@, s.last().1).insert(e.0@, e.1));
    } else {
        assert(keys_distinct(s.drop_last())) by {
            assert forall|a: int, b: int| 0 <= a < b < s.drop_last().len() implies (#[trigger] s.drop_last()[a]).0@ != (#[trigger] s.drop_last()[b]).0@ by {
                assert(s.drop_last()[a] == s[a]);
                assert(s.drop_last()[b] == s[b]);
            }
        }
        lemma_entries_map_update(s.drop_last(), i, e);
        assert(t.drop_last() =~= s.drop_last().update(i, e));
        assert(s.last().0@ != e.0@);
        assert(entries_map(t) =~= entries_map(s).insert(e.0@, e.1));
    }
}

impl JsonMap {
    /// The map the object denotes.
    pub closed spec fn view(&self) -> Map<Seq<char>, JsonValue> {
        entries_map(self.entries@)
    }

    #[verifier::type_invariant]
    closed spec fn wf(&self) -> bool {
        keys_distinct(self.entries@)
    }

    /// The empty object.
    pub fn new() -> (m: Self)
        ensures
            m.view() == Map::<Seq<char>, JsonValue>::empty(),
    {
        let m = JsonMap { entries: Vec::new() };
        assert(m.view() =~= Map::<Seq<char>, JsonValue>::empty());
        m
    }

    /// The keys of the object, each once.
    pub fn keys(&self) -> (r: Vec<String>)
        ensures
            forall|k: Seq<char>| self.view().contains_key(k) <==> exists|i: int| 0 <= i < r@.len() && (#[trigger] r@[i])@ == k,
            forall|i: int, j: int| 0 <= i < j < r@.len() ==> (#[trigger] r@[i])@ != (#[trigger] r@[j])@,
            r@.len() == self.view().dom().len(),
    {
        proof {
            use_type_invariant(self);
            lemma_entries_map_domain(self.entries@);
            lemma_entries_map_len(self.entries@);
        }
        let mut r: Vec<String> = Vec::new();
        for i in 0..self.entries.len()
            invariant
                r@.len() == i,
                forall|j: int| 0 <= j < i ==> (#[trigger] r@[j])@ == self.entries@[j].0@,
        {
            r.push(copy_string(&self.entries[i].0));
        }
        proof {
            assert forall|k: Seq<char>| self.view().contains_key(k) <==> exists|i: int| 0 <= i < r@.len() && (#[trigger] r@[i])@ == k by {
                if self.view().contains_key(k) {
                    let i = choose|i: int| 0 <= i < self.entries@.len() && (#[trigger] self.entries@[i]).0@ == k;
                    assert(r@[i]@ == k);
                }
                if exists|i: int| 0 <= i < r@.len() && (#[trigger] r@[i])@ == k {
                    let i = choose|i: int| 0 <= i < r@.len() && (#[trigger] r@[i])@ == k;
                    assert(self.entries@[i].0@ == k);
                }
            }
        }
        r
    }

    /// The entries of the object, each key once.
    pub fn into_entries(self) -> (r: Vec<(String, JsonValue)>)
        ensures
            entries_map(r@) == self.view(),
            keys_distinct(r@),
    {
        proof { use_type_invariant(&self); }
        self.entries
    }

    /// The number of keys.
    pub fn len(&self) -> (n: usize)
        ensures
            n == self.view().dom().len(),
    {
        proof {
            use_type_invariant(self);
            lemma_entries_map_len(self.entries@);
        }
        self.entries.len()
    }

    /// The position of `key` among the entries.
    fn position(&self, key: &str) -> (r: Option<usize>)
        ensures
            match r {
                Some(i) => i < self.entries@.len() && self.entries@[i as int].0@ == key@,
                None => forall|i: int| 0 <= i < self.entries@.len() ==> (#[trigger] self.entries@[i]).0@ != key@,
            },
    {
        for i in 0..self.entries.len()
            invariant
                forall|j: int| 0 <= j < i ==> (#[trigger] self.entries@[j]).0@ != key@,
        {
            if crate::text::str_eq(self.entries[i].0.as_str(), key) {
                return Some(i);
            }
        }
        None
    }

    /// The value under `key`, if any.
    pub fn get(&self, key: &str) -> (r: Option<&JsonValue>)
        ensures
            match r {
                Some(v) => self.view().contains_key(key@) && self.view()[key@] == *v,
                None => !self.view().contains_key(key@),
            },
    {
        proof {
            use_type_invariant(self);
            lemma_entries_map_domain(self.entries@);
        }
        match self.position(key) {
            Some(i) => {
                proof { lemma_entries_map_value(self.entries@, i as int); }
                Some(&self.entries[i].1)
            },
            None => None,
        }
    }

    /// Sets `key` to `value`, replacing any value it had.
    pub fn insert(&mut self, key: String, value: JsonValue)
        ensures
            final(self).view() == old(self).view().insert(key@, value),
    {
        proof { use_type_invariant(&*self); }
        let pos = self.position(key.as_str());
        let mut entries: Vec<(String, JsonValue)> = Vec::new();
        std::mem::swap(&mut entries, &mut self.entries);
        let ghost old_entries = entries@;
        assert(old_entries == old(self).entries@);
        match pos {
            Some(i) => {
                proof { lemma_entries_map_update(old_entries, i as int, (key, value)); }
                entries.set(i, (key, value));
            },
            None => {
                proof {
                    assert(keys_distinct(old_entries.push((key, value)))) by {
                        let t = old_entries.push((key, value));
                        assert forall|a: int, b: int| 0 <= a < b < t.len() implies (#[trigger] t[a]).0@ != (#[trigger] t[b]).0@ by {
                            if b == t.len() - 1 {
                                assert(t[a] == old_entries[a]);
                            } else {
                                assert(t[a] == old_entries[a]);
                                assert(t[b] == old_entries[b]);
                            }
                        }
                    }
                    assert(old_entries.push((key, value)).drop_last() =~= old_entries);
                }
                entries.push((key, value));
            },
        }
        self.entries = entries;
    }

    /// Takes `key` out of the object, with its value, if it is there.
    pub fn remove(&mut self, key: &str)
        ensures
            final(self).view() == old(self).view().remove(key@),
    {
        proof {
            use_type_invariant(&*self);
            lemma_entries_map_domain(self.entries@);
        }
        match self.position(key) {
            Some(i) => {
                let mut entries: Vec<(String, JsonValue)> = Vec::new();
                std::mem::swap(&mut entries, &mut self.entries);
                proof { lemma_entries_map_remove(entries@, i as int); }
                entries.remove(i);
                self.entries = entries;
            },
            None => {
                assert(self.view().remove(key@) =~= self.view());
            },
        }
    }

    /// Moves every entry of `other` into this object, the entries of
    /// `other` winning over existing ones.
    pub fn merge(&mut self, other: JsonMap)
        ensures
            final(self).view() == old(self).view().union_prefer_right(other.view()),
    {
        proof { use_type_invariant(&other); }
        let ghost target = old(self).view().union_prefer_right(other.view());
        let mut rest = other.entries;
        let ghost all = rest@;
        while rest.len() > 0
            invariant
                keys_distinct(all),
                rest@ == all.take(rest@.len() as int),
                rest@.len() <= all.len(),
                self.view().union_prefer_right(entries_map(rest@)) == target,
            decreases rest@.len(),
        {
            let ghost before = rest@;
            let (key, value) = rest.pop().unwrap();
            proof {
                assert(before.drop_last() =~= rest@);
                assert(rest@ =~= all.take(rest@.len() as int));
                assert(keys_distinct(before)) by {
                    assert forall|a: int, b: int| 0 <= a < b < before.len() implies (#[trigger] before[a]).0@ != (#[trigger] before[b]).0@ by {
                        assert(before[a] == all[a]);
                        assert(before[b] == all[b]);
                    }
                }
                lemma_entries_map_domain(rest@);
                assert(!entries_map(rest@).contains_key(key@)) by {
                    if entries_map(rest@).contains_key(key@) {
                        let i = choose|i: int| 0 <= i < rest@.len() && (#[trigger] rest@[i]).0@ == key@;
                        assert(before[i] == rest@[i]);
                        assert(before[before.len() - 1].0@ == key@);
                    }
                }
                assert(self.view().insert(key@, value).union_prefer_right(entries_map(rest@)) =~= self.view().union_prefer_right(entries_map(before)));
            }
            self.insert(key, value);
        }
        proof {
            assert(entries_map(rest@) =~= Map::<Seq<char>, JsonValue>::empty());
            assert(self.view().union_prefer_right(entries_map(rest@)) =~= self.view());
        }
    }
}

/// Where a `"$ref": "#/$defs/Name"` member of `m` points in `defs`: the
/// definition under `Name`, when `defs` is an object that has one.
pub closed spec fn ref_target(m: JsonMap, defs: JsonValue) -> Option<JsonValue> {
    let prefix = "#/$defs/"@;
    if m@.contains_key("$ref"@) && m@["$ref"@] is Str {
        let r = m@["$ref"@]->Str_0@;
        if prefix.len() <= r.len() && r.subrange(0, prefix.len() as int) == prefix {
            let name = r.subrange(prefix.len() as int, r.len() as int);
            match defs {
                JsonValue::Object(d) => if d@.contains_key(name) { Some(d@[name]) } else { None },
                _ => None,
            }
        } else {
            None
        }
    } else {
        None
    }
}

/// The members that replace an object whose reference points at `d`: those
/// of `d` when it is an object, none otherwise.
pub closed spec fn def_entries(d: JsonValue) -> Seq<(String, JsonValue)> {
    match d {
        JsonValue::Object(dm) => dm.entries@,
        _ => Seq::empty(),
    }
}

/// `fuel` bounds how deeply references lead into further references in
/// `v`, so that inlining them all ends.
pub closed spec fn fuel_enough(v: JsonValue, defs: JsonValue, fuel: nat) -> bool
    decreases fuel, v,
{
    match v {
        JsonValue::Object(m) => match ref_target(m, defs) {
            Some(d) => fuel > 0 && entries_fuel_enough(def_entries(d), defs, (fuel - 1) as nat),
            None => entries_fuel_enough(m.entries@, defs, fuel),
        },
        JsonValue::Array(a) => forall|i: int| 0 <= i < a@.len() ==> fuel_enough(#[trigger] a@[i], defs, fuel),
        _ => true,
    }
}

/// [`fuel_enough`] for each value of a list of members.
pub closed spec fn entries_fuel_enough(es: Seq<(String, JsonValue)>, defs: JsonValue, fuel: nat) -> bool
    decreases fuel, es,
{
    forall|i: int| 0 <= i < es.len() ==> fuel_enough(#[trigger] es[i].1, defs, fuel)
}

/// `new` is `old` with every reference `"$ref": "#/$defs/Name"` to a known
/// definition replaced by that definition's members, the definitions' own
/// references inlined in turn; an object whose reference is unknown keeps
/// it, and everything else is kept as it is.
pub closed spec fn inlined(old: JsonValue, new: JsonValue, defs: JsonValue, fuel: nat) -> bool
    decreases fuel, old,
{
    match old {
        JsonValue::Object(m) => match new {
            JsonValue::Object(n) => match ref_target(m, defs) {
                Some(d) => fuel > 0 && entries_inlined(def_entries(d), n.entries@, defs, (fuel - 1) as nat),
                None => entries_inlined(m.entries@, n.entries@, defs, fuel),
            },
            _ => false,
        },
        JsonValue::Array(a) => match new {
            JsonValue::Array(b) => a@.len() == b@.len()
                && forall|i: int| 0 <= i < a@.len() ==> inlined(#[trigger] a@[i], b@[i], defs, fuel),
            _ => false,
        },
        JsonValue::Null => new is Null,
        JsonValue::Bool(x) => new == JsonValue::Bool(x),
        JsonValue::Number(x) => new is Number && new->Number_0@ == x@,
        JsonValue::Str(x) => new is Str && new->Str_0@ == x@,
    }
}

/// [`inlined`] member by member: the same keys in the same order, each
/// value inlined.
pub closed spec fn entries_inlined(es: Seq<(String, JsonValue)>, ns: Seq<(String, JsonValue)>, defs: JsonValue, fuel: nat) -> bool
    decreases fuel, es,
{
    es.len() == ns.len()
        && forall|i: int| 0 <= i < es.len() ==> (#[trigger] ns[i]).0@ == es[i].0@ && inlined(es[i].1, ns[i].1, defs, fuel)
}

/// The definition that the `"$ref"` member of `m` points at in `defs`.
fn ref_def<'a>(m: &JsonMap, defs: &'a JsonValue) -> (r: Option<&'a JsonValue>)
    ensures
        match r {
            Some(d) => ref_target(*m, *defs) == Some(*d),
            None => ref_target(*m, *defs) is None,
        },
{
    match m.get("$ref") {
        Some(JsonValue::Str(s)) => match crate::text::strip_prefix(s.as_str(), "#/$defs/") {
            Some(name) => match defs {
                JsonValue::Object(d) => d.get(name.as_str()),
                _ => None,
            },
            None => None,
        },
        _ => None,
    }
}

/// A copy of `v` with its references inlined, `fuel` bounding how deep
/// they lead.
fn inline_value(v: &JsonValue, defs: &JsonValue, Ghost(fuel): Ghost<nat>) -> (r: JsonValue)
    requires
        fuel_enough(*v, *defs, fuel),
    ensures
        inlined(*v, r, *defs, fuel),
    decreases fuel, *v,
{
    match v {
        JsonValue::Object(m) => {
            proof { use_type_invariant(m); }
            match ref_def(m, defs) {
                Some(d) => {
                    let es = match d {
                        JsonValue::Object(dm) => {
                            proof { use_type_invariant(dm); }
                            inline_entries(&dm.entries, defs, Ghost((fuel - 1) as nat))
                        },
                        _ => Vec::new(),
                    };
                    proof {
                        assert(keys_distinct(def_entries(*d)));
                        assert(keys_distinct(es@)) by {
                            assert forall|a: int, b: int| 0 <= a < b < es@.len() implies (#[trigger] es@[a]).0@ != (#[trigger] es@[b]).0@ by {
                                assert(es@[a].0@ == def_entries(*d)[a].0@);
                                assert(es@[b].0@ == def_entries(*d)[b].0@);
                            }
                        }
                    }
                    let r = JsonValue::Object(JsonMap { entries: es });
                    proof {
                        assert(ref_target(*m, *defs) == Some(*d));
                        assert(fuel > 0);
                        assert(entries_inlined(def_entries(*d), es@, *defs, (fuel - 1) as nat));
                    }
                    r
                },
                None => {
                    let es = inline_entries(&m.entries, defs, Ghost(fuel));
                    proof {
                        assert(keys_distinct(es@)) by {
                            assert forall|a: int, b: int| 0 <= a < b < es@.len() implies (#[trigger] es@[a]).0@ != (#[trigger] es@[b]).0@ by {
                                assert(es@[a].0@ == m.entries@[a].0@);
                                assert(es@[b].0@ == m.entries@[b].0@);
                            }
                        }
                    }
                    JsonValue::Object(JsonMap { entries: es })
                },
            }
        },
        JsonValue::Array(a) => {
            let mut b: Vec<JsonValue> = Vec::new();
            let mut i: usize = 0;
            while i < a.len()
                invariant
                    *v == JsonValue::Array(*a),
                    i <= a@.len(),
                    b@.len() == i,
                    forall|k: int| 0 <= k < a@.len() ==> fuel_enough(#[trigger] a@[k], *defs, fuel),
                    forall|k: int| 0 <= k < i ==> inlined(#[trigger] a@[k], b@[k], *defs, fuel),
                decreases a@.len() - i,
            {
                proof {
                    assert(decreases_to!(*v => (*v)->Array_0@[i as int]));
                }
                let x = inline_value(&a[i], defs, Ghost(fuel));
                b.push(x);
                i += 1;
            }
            JsonValue::Array(b)
        },
        JsonValue::Null => JsonValue::Null,
        JsonValue::Bool(x) => JsonValue::Bool(*x),
        JsonValue::Number(x) => JsonValue::Number(copy_string(x)),
        JsonValue::Str(x) => JsonValue::Str(copy_string(x)),
    }
}

/// [`inline_value`] for each value of a list of members, keys kept.
fn inline_entries(es: &Vec<(String, JsonValue)>, defs: &JsonValue, Ghost(fuel): Ghost<nat>) -> (r: Vec<(String, JsonValue)>)
    requires
        entries_fuel_enough(es@, *defs, fuel),
    ensures
        entries_inlined(es@, r@, *defs, fuel),
    decreases fuel, *es,
{
    let mut r: Vec<(String, JsonValue)> = Vec::new();
    let mut i: usize = 0;
    while i < es.len()
        invariant
            i <= es@.len(),
            r@.len() == i,
            entries_fuel_enough(es@, *defs, fuel),
            forall|k: int| 0 <= k < i ==> (#[trigger] r@[k]).0@ == es@[k].0@ && inlined(es@[k].1, r@[k].1, *defs, fuel),
        decreases es@.len() - i,
    {
        proof {
            assert(fuel_enough(es@[i as int].1, *defs, fuel));
            assert(decreases_to!(*es => es@[i as int].1));
        }
        let x = inline_value(&es[i].1, defs, Ghost(fuel));
        r.push((copy_string(&es[i].0), x));
        i += 1;
    }
    r
}

/// Whether `fuel` bounds how deeply the references of `v` lead.
fn fuel_check(v: &JsonValue, defs: &JsonValue, fuel: usize) -> (b: bool)
    ensures
        b == fuel_enough(*v, *defs, fuel as nat),
    decreases fuel, *v,
{
    match v {
        JsonValue::Object(m) => {
            proof { use_type_invariant(m); }
            match ref_def(m, defs) {
                Some(d) => {
                    if fuel == 0 {
                        return false;
                    }
                    match d {
                        JsonValue::Object(dm) => entries_check(&dm.entries, defs, fuel - 1),
                        _ => {
                            assert(def_entries(*d) =~= Seq::<(String, JsonValue)>::empty());
                            assert(entries_fuel_enough(def_entries(*d), *defs, (fuel - 1) as nat));
                            true
                        },
                    }
                },
                None => entries_check(&m.entries, defs, fuel),
            }
        },
        JsonValue::Array(a) => {
            let mut i: usize = 0;
            while i < a.len()
                invariant
                    *v == JsonValue::Array(*a),
                    i <= a@.len(),
                    forall|k: int| 0 <= k < i ==> fuel_enough(#[trigger] a@[k], *defs, fuel as nat),
                decreases a@.len() - i,
            {
                proof {
                    assert(decreases_to!(*v => (*v)->Array_0@[i as int]));
                }
                if !fuel_check(&a[i], defs, fuel) {
                    return false;
                }
                i += 1;
            }
            true
        },
        _ => true,
    }
}

/// [`fuel_check`] for each value of a list of members.
fn entries_check(es: &Vec<(String, JsonValue)>, defs: &JsonValue, fuel: usize) -> (b: bool)
    ensures
        b == entries_fuel_enough(es@, *defs, fuel as nat),
    decreases fuel, *es,
{
    let mut i: usize = 0;
    while i < es.len()
        invariant
            i <= es@.len(),
            forall|k: int| 0 <= k < i ==> fuel_enough(#[trigger] es@[k].1, *defs, fuel as nat),
        decreases es@.len() - i,
    {
        proof {
            assert(decreases_to!(*es => es@[i as int].1));
        }
        if !fuel_check(&es[i].1, defs, fuel) {
            return false;
        }
        i += 1;
    }
    true
}

/// Whether `depth` bounds how deeply the references of `v` lead into
/// further references; when it does, inlining them ends.
pub fn refs_within(v: &JsonValue, defs: &JsonValue, depth: usize) -> (b: bool)
    ensures
        b == fuel_enough(*v, *defs, depth as nat),
        b ==> refs_resolve(*v, *defs),
{
    fuel_check(v, defs, depth)
}

/// Some bound on how deeply references lead into further references in
/// `v` exists: inlining them all ends.
pub closed spec fn refs_resolve(v: JsonValue, defs: JsonValue) -> bool {
    exists|f: nat| fuel_enough(v, defs, f)
}

/// A bound of that kind, when one exists.
pub closed spec fn refs_fuel(v: JsonValue, defs: JsonValue) -> nat {
    choose|f: nat| fuel_enough(v, defs, f)
}

/// A copy of `v` in which every `"$ref": "#/$defs/Name"` that names a
/// definition of `defs` is replaced by that definition, recursively.
pub fn inline_refs(v: &JsonValue, defs: &JsonValue) -> (r: JsonValue)
    requires
        refs_resolve(*v, *defs),
    ensures
        inlined(*v, r, *defs, refs_fuel(*v, *defs)),
{
    inline_value(v, defs, Ghost(refs_fuel(*v, *defs)))
}

/// `b` is `a` without its member `key` when `a` is an object, and `a`
/// itself otherwise.
pub open spec fn without_member(a: JsonValue, b: JsonValue, key: Seq<char>) -> bool {
    match a {
        JsonValue::Object(x) => match b {
            JsonValue::Object(y) => y@ == x@.remove(key),
            _ => false,
        },
        _ => b == a,
    }
}

proof fn lemma_keys_distinct_drop_last(s: Seq<(String, JsonValue)>)
    requires
        keys_distinct(s),
        s.len() > 0,
    ensures
        keys_distinct(s.drop_last()),
{
    assert forall|a: int, b: int| 0 <= a < b < s.drop_last().len() implies (#[trigger] s.drop_last()[a]).0@ != (#[trigger] s.drop_last()[b]).0@ by {
        assert(s.drop_last()[a] == s[a]);
        assert(s.drop_last()[b] == s[b]);
    }
}

proof fn lemma_entries_map_remove(s: Seq<(String, JsonValue)>, i: int)
    requires
        keys_distinct(s),
        0 <= i < s.len(),
    ensures
        entries_map(s.remove(i)) == entries_map(s).remove(s[i].0@),
        keys_distinct(s.remove(i)),
    decreases s.len(),
{
    let t = s.remove(i);
    let k = s[i].0@;
    assert(keys_distinct(t)) by {
        assert forall|a: int, b: int| 0 <= a < b < t.len() implies (#[trigger] t[a]).0@ != (#[trigger] t[b]).0@ by {
            let a0 = if a < i { a } else { a + 1 };
            let b0 = if b < i { b } else { b + 1 };
            assert(t[a] == s[a0]);
            assert(t[b] == s[b0]);
        }
    }
    lemma_keys_distinct_drop_last(s);
    lemma_entries_map_domain(s.drop_last());
    if i == s.len() - 1 {
        assert(t =~= s.drop_last());
        assert(!entries_map(s.drop_last()).contains_key(k)) by {
            if entries_map(s.drop_last()).contains_key(k) {
                let j = choose|j: int| 0 <= j < s.drop_last().len() && (#[trigger] s.drop_last()[j]).0@ == k;
                assert(s.drop_last()[j] == s[j]);
            }
        }
        assert(entries_map(s).remove(k) =~= entries_map(s.drop_last()));
    } else {
        lemma_entries_map_remove(s.drop_last(), i);
        assert(t.drop_last() =~= s.drop_last().remove(i));
        assert(t.last() == s.last());
        assert(s.last().0@ != k);
        assert(entries_map(t) =~= entries_map(s).remove(k));
    }
}

proof fn lemma_entries_map_len(s: Seq<(String, JsonValue)>)
    requires
        keys_distinct(s),
    ensures
        entries_map(s).dom().finite(),
        entries_map(s).dom().len() == s.len(),
    decreases s.len(),
{
    if s.len() > 0 {
        assert(keys_distinct(s.drop_last())) by {
            assert forall|a: int, b: int| 0 <= a < b < s.drop_last().len() implies (#[trigger] s.drop_last()[a]).0@ != (#[trigger] s.drop_last()[b]).0@ by {
                assert(s.drop_last()[a] == s[a]);
                assert(s.drop_last()[b] == s[b]);
            }
        }
        lemma_entries_map_len(s.drop_last());
        lemma_entries_map_domain(s.drop_last());
        assert(!entries_map(s.drop_last()).contains_key(s.last().0@)) by {
            if entries_map(s.drop_last()).contains_key(s.last().0@) {
                let i = choose|i: int| 0 <= i < s.drop_last().len() && (#[trigger] s.drop_last()[i]).0@ == s.last().0@;
                assert(s[i] == s.drop_last()[i]);
            }
        }
    }
}

/// The string held by a JSON string value.
pub fn as_str(v: &JsonValue) -> (r: Option<&String>)
    ensures
        match v {
            JsonValue::Str(s) => r == Some(s),
            _ => r is None,
        },
{
    match v {
        JsonValue::Str(s) => Some(s),
        _ => None,
    }
}

/// What `serde_json::from_str` makes of `s`, as a JSON value of this
/// module, or the message of its error.
pub uninterp spec fn json_parse(s: Seq<char>) -> Result<JsonValue, Seq<char>>;

/// Reads JSON text with `serde_json::from_str` into a `serde_json::Value`,
/// converted one for one into a [`JsonValue`]; a failure gives the
/// `Display` of serde_json's error.
#[verifier::external_body]
pub(crate) fn parse_json(s: &str) -> (r: Result<JsonValue, String>)
    ensures
        match r {
            Ok(v) => json_parse(s@) == Ok::<JsonValue, Seq<char>>(v),
            Err(m) => json_parse(s@) == Err::<JsonValue, Seq<char>>(m@),
        },
{
    match serde_json::from_str::<serde_json::Value>(s) {
        Ok(v) => Ok(from_serde(v)),
        Err(e) => Err(e.to_string()),
    }
}

/// serde_json's own JSON value, which only the conversion below reads.
#[verifier::external_type_specification]
#[verifier::external_body]
pub struct ExSerdeJsonValue(serde_json::Value);

/// The [`JsonValue`] of a `serde_json::Value`, kind for kind; a number
/// keeps serde_json's text of it.
#[verifier::external_body]
pub(crate) fn from_serde(v: serde_json::Value) -> JsonValue {
    match v {
        serde_json::Value::Null => JsonValue::Null,
        serde_json::Value::Bool(b) => JsonValue::Bool(b),
        serde_json::Value::Number(n) => JsonValue::Number(n.to_string()),
        serde_json::Value::String(t) => JsonValue::Str(t),
        serde_json::Value::Array(items) => JsonValue::Array(items.into_iter().map(from_serde).collect()),
        serde_json::Value::Object(fields) => {
            let mut m = JsonMap::new();
            fields.into_iter().for_each(|(k, x)| m.insert(k, from_serde(x)));
            JsonValue::Object(m)
        },
    }
}

/// The string held under `key` in a JSON object, if it is a string.
pub open spec fn str_field(v: JsonValue, key: Seq<char>) -> Option<Seq<char>> {
    match v {
        JsonValue::Object(m) => if m@.contains_key(key) {
            match m@[key] {
                JsonValue::Str(s) => Some(s@),
                _ => None,
            }
        } else {
            None
        },
        _ => None,
    }
}

pub fn get_str<'a>(v: &'a JsonValue, key: &str) -> (r: Option<&'a String>)
    ensures
        match r {
            Some(s) => str_field(*v, key@) == Some(s@),
            None => str_field(*v, key@) is None,
        },
{
    match v {
        JsonValue::Object(m) => match m.get(key) {
            Some(x) => as_str(x),
            None => None,
        },
        _ => None,
    }
}

/// The boolean held under `key` in a JSON object, if it is a boolean.
pub open spec fn bool_field(v: JsonValue, key: Seq<char>) -> Option<bool> {
    match v {
        JsonValue::Object(m) => if m@.contains_key(key) {
            match m@[key] {
                JsonValue::Bool(b) => Some(b),
                _ => None,
            }
        } else {
            None
        },
        _ => None,
    }
}

/// The boolean held under `key` in a JSON object, if it is a boolean.
pub fn get_bool(v: &JsonValue, key: &str) -> (r: Option<bool>)
    ensures
        r == bool_field(*v, key@),
{
    match v {
        JsonValue::Object(m) => match m.get(key) {
            Some(JsonValue::Bool(b)) => Some(*b),
            _ => None,
        },
        _ => None,
    }
}

/// serde's message for a member that is not there.
pub open spec fn missing_field(key: Seq<char>) -> Seq<char> {
    "missing field `"@ + key + "`"@
}

/// The message for a member of the wrong kind.
pub open spec fn invalid_field(key: Seq<char>) -> Seq<char> {
    "invalid type for field `"@ + key + "`"@
}

/// The string member `key` of a JSON object, or why there is none: it
/// is missing (or the value is no object), or it is not a string.
pub open spec fn member_str(v: JsonValue, key: Seq<char>) -> Result<Seq<char>, Seq<char>> {
    match v {
        JsonValue::Object(m) => if m@.contains_key(key) {
            match m@[key] {
                JsonValue::Str(s) => Ok(s@),
                _ => Err(invalid_field(key)),
            }
        } else {
            Err(missing_field(key))
        },
        _ => Err(missing_field(key)),
    }
}

pub(crate) fn missing_field_text(key: &str) -> (m: String)
    ensures
        m@ == missing_field(key@),
{
    proof { reveal_strlit("missing field `"); reveal_strlit("`"); }
    concat3("missing field `", key, "`")
}

pub(crate) fn invalid_field_text(key: &str) -> (m: String)
    ensures
        m@ == invalid_field(key@),
{
    proof { reveal_strlit("invalid type for field `"); reveal_strlit("`"); }
    concat3("invalid type for field `", key, "`")
}

pub fn member_string(v: &JsonValue, key: &str) -> (r: Result<String, String>)
    ensures
        match r {
            Ok(s) => member_str(*v, key@) == Ok::<Seq<char>, Seq<char>>(s@),
            Err(e) => member_str(*v, key@) == Err::<Seq<char>, Seq<char>>(e@),
        },
{
    match v {
        JsonValue::Object(m) => match m.get(key) {
            Some(JsonValue::Str(s)) => Ok(copy_string(s)),
            Some(_) => Err(invalid_field_text(key)),
            None => Err(missing_field_text(key)),
        },
        _ => Err(missing_field_text(key)),
    }
}

} // verus!
