//! JSON values: a string-keyed map that keeps its keys sorted, the value type
//! with its mathematical model, and the recursive merge of configurations.
use vstd::prelude::*;
use crate::strs::{
    int_of_text, int_text_value, lex_lt, lemma_lex_asymmetric, lemma_lex_transitive, order_strs,
    str_eq, KeyOrder,
};

verus! {

broadcast use {vstd::std_specs::vec::group_vec_axioms, vstd::seq::group_seq_axioms, vstd::map::group_map_axioms};

/// The keys of `es` go up strictly, in the order of strings.
pub open spec fn keys_increasing<V>(es: Seq<(String, V)>) -> bool {
    forall|i: int, j: int|
        0 <= i < j < es.len() ==> lex_lt(#[trigger] es[i].0@, #[trigger] es[j].0@)
}

/// No key occurs twice in `es`.
pub open spec fn keys_distinct<V>(es: Seq<(String, V)>) -> bool {
    forall|i: int, j: int| 0 <= i < j < es.len() ==> #[trigger] es[i].0@ != #[trigger] es[j].0@
}

/// The map that inserting the entries of `es` in order builds.
pub open spec fn entries_map<V>(es: Seq<(String, V)>) -> Map<Seq<char>, V>
    decreases es.len(),
{
    if es.len() == 0 {
        Map::empty()
    } else {
        entries_map(es.drop_last()).insert(es.last().0@, es.last().1)
    }
}

/// The last position in `es` whose key is `k`.
pub open spec fn last_key_index<V>(es: Seq<(String, V)>, k: Seq<char>) -> int {
    choose|i: int|
        0 <= i < es.len() && es[i].0@ == k && forall|j: int| i < j < es.len() ==> es[j].0@ != k
}

pub open spec fn has_key<V>(es: Seq<(String, V)>, k: Seq<char>) -> bool {
    exists|i: int| 0 <= i < es.len() && #[trigger] es[i].0@ == k
}

pub proof fn lemma_keys_increasing_distinct<V>(es: Seq<(String, V)>)
    requires
        keys_increasing(es),
    ensures
        keys_distinct(es),
{
    assert forall|i: int, j: int| 0 <= i < j < es.len() implies #[trigger] es[i].0@
        != #[trigger] es[j].0@ by {
        lemma_lex_asymmetric(es[i].0@, es[j].0@);
    }
}

/// Where a key that occurs in `es` has its value in `entries_map(es)`: at its
/// last entry.
pub proof fn lemma_entries_map_at<V>(es: Seq<(String, V)>, k: Seq<char>)
    requires
        has_key(es, k),
    ensures
        0 <= last_key_index(es, k) < es.len(),
        es[last_key_index(es, k)].0@ == k,
        forall|j: int| last_key_index(es, k) < j < es.len() ==> es[j].0@ != k,
        entries_map(es).contains_key(k),
        entries_map(es)[k] == es[last_key_index(es, k)].1,
    decreases es.len(),
{
    let n = es.len() - 1;
    let p = es.drop_last();
    assert(p.len() == n);
    if k == es.last().0@ {
        assert(0 <= n < es.len() && es[n].0@ == k && forall|j: int|
            n < j < es.len() ==> es[j].0@ != k);
        let i = last_key_index(es, k);
        assert(i == n) by {
            if i < n {
                assert(es[n].0@ != k);
            }
        }
    } else {
        let w = choose|i: int| 0 <= i < es.len() && #[trigger] es[i].0@ == k;
        assert(w < n);
        assert(p[w].0@ == k);
        assert(has_key(p, k));
        lemma_entries_map_at(p, k);
        let ip = last_key_index(p, k);
        assert(0 <= ip < es.len() && es[ip].0@ == k && forall|j: int|
            ip < j < es.len() ==> es[j].0@ != k) by {
            assert forall|j: int| ip < j < es.len() implies es[j].0@ != k by {
                if j < n {
                    assert(p[j] == es[j]);
                }
            }
        }
        let i = last_key_index(es, k);
        assert(i == ip) by {
            if i < ip {
                assert(es[ip].0@ == k);
            } else if ip < i {
                assert(es[i].0@ == k);
            }
        }
        assert(p[ip] == es[ip]);
    }
}

/// The keys of `entries_map(es)` are those of the entries, and there are finitely many.
pub proof fn lemma_entries_map_dom<V>(es: Seq<(String, V)>)
    ensures
        entries_map(es).dom().finite(),
        forall|k: Seq<char>| #[trigger] entries_map(es).contains_key(k) <==> has_key(es, k),
    decreases es.len(),
{
    if es.len() > 0 {
        let p = es.drop_last();
        let n = es.len() - 1;
        lemma_entries_map_dom(p);
        assert forall|k: Seq<char>| #[trigger] entries_map(es).contains_key(k) <==> has_key(es, k) by {
            if has_key(es, k) {
                let i = choose|i: int| 0 <= i < es.len() && #[trigger] es[i].0@ == k;
                if i < n {
                    assert(p[i].0@ == k);
                }
            }
            if entries_map(es).contains_key(k) && k != es.last().0@ {
                assert(has_key(p, k));
                let i = choose|i: int| 0 <= i < p.len() && #[trigger] p[i].0@ == k;
                assert(es[i].0@ == k);
            }
        }
    }
}

/// Both facts about `entries_map`, for every key.
pub proof fn lemma_entries_map<V>(es: Seq<(String, V)>)
    ensures
        entries_map(es).dom().finite(),
        forall|k: Seq<char>| #[trigger] entries_map(es).contains_key(k) <==> has_key(es, k),
        forall|k: Seq<char>|
            #[trigger] has_key(es, k) ==> entries_map(es)[k] == es[last_key_index(es, k)].1 && 0
                <= last_key_index(es, k) < es.len() && es[last_key_index(es, k)].0@ == k,
{
    lemma_entries_map_dom(es);
    assert forall|k: Seq<char>| #[trigger] has_key(es, k) implies entries_map(es)[k]
        == es[last_key_index(es, k)].1 && 0 <= last_key_index(es, k) < es.len()
        && es[last_key_index(es, k)].0@ == k by {
        lemma_entries_map_at(es, k);
    }
}

/// A map from strings to `V` whose entries are kept in increasing order of
/// their keys, so that equal maps hold equal entries.
#[derive(Debug, PartialEq, Eq)]
pub struct StrMap<V> {
    entries: Vec<(String, V)>,
}

impl<V> StrMap<V> {
    #[verifier::type_invariant]
    spec fn sorted(self) -> bool {
        keys_increasing(self.entries@)
    }

    /// The entries, in increasing order of their keys.
    pub closed spec fn spec_entries(self) -> Seq<(String, V)> {
        self.entries@
    }
}

impl<V> View for StrMap<V> {
    type V = Map<Seq<char>, V>;

    open spec fn view(&self) -> Map<Seq<char>, V> {
        entries_map(self.spec_entries())
    }
}

impl<V> StrMap<V> {
    /// The empty map.
    pub fn new() -> (r: Self)
        ensures
            r@ == Map::<Seq<char>, V>::empty(),
            r.spec_entries().len() == 0,
    {
        StrMap { entries: Vec::new() }
    }

    /// The number of entries; it also shows that they are in increasing order.
    pub fn len(&self) -> (n: usize)
        ensures
            n == self.spec_entries().len(),
            keys_increasing(self.spec_entries()),
    {
        proof {
            use_type_invariant(self);
        }
        self.entries.len()
    }

    /// The key and value of the `i`-th entry.
    pub fn entry(&self, i: usize) -> (r: (&String, &V))
        requires
            i < self.spec_entries().len(),
        ensures
            *r.0 == self.spec_entries()[i as int].0,
            *r.1 == self.spec_entries()[i as int].1,
            keys_increasing(self.spec_entries()),
    {
        proof {
            use_type_invariant(self);
        }
        let e = &self.entries[i];
        (&e.0, &e.1)
    }

    /// The keys, in increasing order.
    pub fn keys(&self) -> (r: Vec<String>)
        ensures
            r@.len() == self.spec_entries().len(),
            forall|i: int| 0 <= i < r@.len() ==> #[trigger] r@[i] == self.spec_entries()[i].0,
    {
        let n = self.entries.len();
        let mut r: Vec<String> = Vec::new();
        let mut i: usize = 0;
        while i < n
            invariant
                n == self.entries@.len(),
                0 <= i <= n,
                r@.len() == i,
                forall|j: int| 0 <= j < i ==> #[trigger] r@[j] == self.entries@[j].0,
            decreases n - i,
        {
            r.push(self.entries[i].0.clone());
            i = i + 1;
        }
        r
    }

    /// The position of the entry whose key is `k`, if there is one.
    fn find(&self, k: &str) -> (r: Option<usize>)
        ensures
            match r {
                Some(i) => i < self.spec_entries().len() && self.spec_entries()[i as int].0@ == k@,
                None => !has_key(self.spec_entries(), k@),
            },
    {
        let n = self.entries.len();
        let mut i: usize = 0;
        while i < n
            invariant
                n == self.entries@.len(),
                0 <= i <= n,
                forall|j: int| 0 <= j < i ==> self.entries@[j].0@ != k@,
            decreases n - i,
        {
            if str_eq(self.entries[i].0.as_str(), k) {
                return Some(i);
            }
            i = i + 1;
        }
        None
    }

    /// The value stored under `k`, if any.
    pub fn get(&self, k: &str) -> (r: Option<&V>)
        ensures
            match r {
                Some(v) => self@.contains_key(k@) && *v == self@[k@],
                None => !self@.contains_key(k@),
            },
    {
        proof {
            use_type_invariant(self);
            lemma_entries_map(self.entries@);
            lemma_keys_increasing_distinct(self.entries@);
        }
        match self.find(k) {
            Some(i) => {
                proof {
                    let es = self.entries@;
                    assert(has_key(es, k@));
                    let l = last_key_index(es, k@);
                    assert(l == i) by {
                        if l < i {
                            assert(es[l].0@ != es[i as int].0@);
                        } else if i < l {
                            assert(es[i as int].0@ != es[l].0@);
                        }
                    }
                }
                Some(&self.entries[i].1)
            },
            None => None,
        }
    }

    /// Stores `v` under `k`, in place of the value that was there.
    pub fn insert(&mut self, k: String, v: V)
        ensures
            final(self)@ == old(self)@.insert(k@, v),
    {
        proof {
            use_type_invariant(&*self);
        }
        let mut es: Vec<(String, V)> = Vec::new();
        std::mem::swap(&mut es, &mut self.entries);
        let ghost old_es = es@;
        assert(old_es == old(self).spec_entries());
        let n = es.len();
        let mut i: usize = 0;
        let mut found = false;
        while i < n
            invariant_except_break
                n == es@.len(),
                es@ == old_es,
                keys_increasing(old_es),
                0 <= i <= n,
                forall|j: int| 0 <= j < i ==> lex_lt(#[trigger] old_es[j].0@, k@),
                !found,
            ensures
                n == es@.len(),
                es@ == old_es,
                0 <= i <= n,
                forall|j: int| 0 <= j < i ==> lex_lt(#[trigger] old_es[j].0@, k@),
                found ==> i < n && old_es[i as int].0@ == k@,
                !found ==> (i == n || lex_lt(k@, old_es[i as int].0@)),
            decreases n - i,
        {
            match order_strs(es[i].0.as_str(), k.as_str()) {
                KeyOrder::Less => {
                    i = i + 1;
                },
                KeyOrder::Equal => {
                    found = true;
                    break ;
                },
                KeyOrder::Greater => {
                    break ;
                },
            }
        }
        let ghost kk = k@;
        let ghost vv = v;
        if found {
            es.set(i, (k, v));
        } else {
            es.insert(i, (k, v));
        }
        proof {
            let new_es = es@;
            assert forall|a: int, b: int| 0 <= a < b < new_es.len() implies lex_lt(
                #[trigger] new_es[a].0@,
                #[trigger] new_es[b].0@,
            ) by {
                if found {
                    if a == i {
                        assert(old_es[a].0@ == kk);
                    } else if b == i {
                        assert(old_es[b].0@ == kk);
                    }
                } else {
                    if b < i {
                        assert(new_es[a] == old_es[a]);
                        assert(new_es[b] == old_es[b]);
                    } else if a < i && b == i {
                        assert(new_es[a] == old_es[a]);
                    } else if a < i && b > i {
                        assert(new_es[a] == old_es[a]);
                        assert(new_es[b] == old_es[b - 1]);
                        if a < b - 1 {
                        }
                    } else if a == i {
                        assert(new_es[b] == old_es[b - 1]);
                        if b - 1 > i {
                            lemma_lex_transitive(kk, old_es[i as int].0@, old_es[b - 1].0@);
                        }
                    } else {
                        assert(i < a);
                        assert(new_es[a] == old_es[a - 1]);
                        assert(new_es[b] == old_es[b - 1]);
                    }
                }
            }
            lemma_keys_increasing_distinct(old_es);
            lemma_keys_increasing_distinct(new_es);
            lemma_entries_map(old_es);
            lemma_entries_map(new_es);
            let mo = entries_map(old_es).insert(kk, vv);
            let mn = entries_map(new_es);
            assert forall|q: Seq<char>| #[trigger] mn.contains_key(q) <==> mo.contains_key(q) by {
                if has_key(new_es, q) && q != kk {
                    let w = choose|w: int| 0 <= w < new_es.len() && #[trigger] new_es[w].0@ == q;
                    if found {
                        assert(old_es[w].0@ == q);
                    } else if w < i {
                        assert(old_es[w].0@ == q);
                    } else {
                        assert(w != i);
                        assert(old_es[w - 1].0@ == q);
                    }
                }
                if has_key(old_es, q) {
                    let w = choose|w: int| 0 <= w < old_es.len() && #[trigger] old_es[w].0@ == q;
                    if found || w < i {
                        assert(new_es[w].0@ == q || (found && w == i));
                    } else {
                        assert(new_es[w + 1].0@ == q);
                    }
                }
                if q == kk {
                    assert(new_es[i as int].0@ == kk);
                }
            }
            assert forall|q: Seq<char>| #[trigger] mn.contains_key(q) implies mn[q] == mo[q] by {
                let l = last_key_index(new_es, q);
                if q == kk {
                    assert(new_es[i as int].0@ == kk);
                    assert(l == i) by {
                        if l < i {
                            assert(new_es[l].0@ != new_es[i as int].0@);
                        } else if l > i {
                            assert(new_es[i as int].0@ != new_es[l].0@);
                        }
                    }
                } else {
                    assert(has_key(old_es, q));
                    let lo = last_key_index(old_es, q);
                    if found || lo < i {
                        assert(new_es[lo] == old_es[lo]);
                        assert(l == lo) by {
                            if l < lo {
                                assert(new_es[l].0@ != new_es[lo].0@);
                            } else if l > lo {
                                assert(new_es[lo].0@ != new_es[l].0@);
                            }
                        }
                    } else {
                        assert(new_es[lo + 1] == old_es[lo]);
                        assert(l == lo + 1) by {
                            if l < lo + 1 {
                                assert(new_es[l].0@ != new_es[lo + 1].0@);
                            } else if l > lo + 1 {
                                assert(new_es[lo + 1].0@ != new_es[l].0@);
                            }
                        }
                    }
                }
            }
            assert(mn =~= mo);
        }
        self.entries = es;
    }
}

} // verus!

verus! {

/// A JSON value. Numbers with an integral value are held as integers; any
/// other number is held by its text. Parsing hands every number over as its
/// text, and `read_numbers_of` then reads the integers.
#[derive(Debug, PartialEq, Eq)]
pub enum Json {
    Null,
    Bool(bool),
    Int(i128),
    Real(String),
    Str(String),
    Array(Vec<Json>),
    Object(StrMap<Json>),
}

/// The mathematical model of a JSON value: an object is a finite map from its
/// keys to its values.
pub enum JsonV {
    Null,
    Bool(bool),
    Int(int),
    Real(Seq<char>),
    Str(Seq<char>),
    Array(Seq<JsonV>),
    Object(Map<Seq<char>, JsonV>),
}

pub open spec fn json_view(j: Json) -> JsonV
    decreases j,
{
    match j {
        Json::Null => JsonV::Null,
        Json::Bool(b) => JsonV::Bool(b),
        Json::Int(n) => JsonV::Int(n as int),
        Json::Real(s) => JsonV::Real(s@),
        Json::Str(s) => JsonV::Str(s@),
        Json::Array(v) => JsonV::Array(
            Seq::new(
                v@.len(),
                |i: int|
                    if 0 <= i < v@.len() {
                        json_view(v@[i])
                    } else {
                        JsonV::Null
                    },
            ),
        ),
        Json::Object(m) => JsonV::Object(
            Map::new(
                |k: Seq<char>| has_key(m.spec_entries(), k),
                |k: Seq<char>|
                    {
                        let i = last_key_index(m.spec_entries(), k);
                        if 0 <= i < m.spec_entries().len() {
                            json_view(m.spec_entries()[i].1)
                        } else {
                            JsonV::Null
                        }
                    },
            ),
        ),
    }
}

impl View for Json {
    type V = JsonV;

    open spec fn view(&self) -> JsonV {
        json_view(*self)
    }
}

} // verus!

verus! {

/// The models of the values of a map of JSON values.
pub open spec fn view_values(m: Map<Seq<char>, Json>) -> Map<Seq<char>, JsonV> {
    m.map_values(|j: Json| j@)
}

/// The model of an object is the map of the models of its values.
pub proof fn lemma_object_view(m: StrMap<Json>)
    ensures
        Json::Object(m)@ == JsonV::Object(view_values(m@)),
        m@.dom().finite(),
{
    let es = m.spec_entries();
    lemma_entries_map(es);
    let a = Json::Object(m)@->Object_0;
    let b = view_values(m@);
    assert forall|k: Seq<char>| #[trigger] a.contains_key(k) <==> b.contains_key(k) by {}
    assert forall|k: Seq<char>| #[trigger] a.contains_key(k) implies a[k] == b[k] by {}
    assert(a =~= b);
}

/// The model of an array is the sequence of the models of its elements.
pub proof fn lemma_array_view(v: Vec<Json>)
    ensures
        Json::Array(v)@ == JsonV::Array(v@.map_values(|j: Json| j@)),
{
    let a = Json::Array(v)@->Array_0;
    assert(a =~= v@.map_values(|j: Json| j@));
}

/// Setting `k` to `v` in a map, seen through the models of the values.
pub proof fn lemma_view_values_insert_pub(m: Map<Seq<char>, Json>, k: Seq<char>, v: Json)
    ensures
        view_values(m.insert(k, v)) == view_values(m).insert(k, v@),
{
    lemma_view_values_insert(m, k, v);
}

proof fn lemma_view_values_insert(m: Map<Seq<char>, Json>, k: Seq<char>, v: Json)
    ensures
        view_values(m.insert(k, v)) == view_values(m).insert(k, v@),
{
    assert(view_values(m.insert(k, v)) =~= view_values(m).insert(k, v@));
}

/// The value under `k`, or null where there is none.
pub open spec fn get_or_null(m: Map<Seq<char>, JsonV>, k: Seq<char>) -> JsonV {
    if m.contains_key(k) {
        m[k]
    } else {
        JsonV::Null
    }
}

/// Merging `src` into `dst`: where both are objects, each entry of `src` is
/// merged into the entry of `dst` under the same key (into null where `dst`
/// has none) and the other entries of `dst` stay; in every other case the
/// result is `src`.
pub open spec fn merge_spec(dst: JsonV, src: JsonV) -> JsonV
    decreases src,
{
    match src {
        JsonV::Object(sm) => match dst {
            JsonV::Object(dm) => JsonV::Object(
                Map::new(
                    |k: Seq<char>| dm.contains_key(k) || sm.contains_key(k),
                    |k: Seq<char>|
                        if sm.contains_key(k) {
                            merge_spec(get_or_null(dm, k), sm[k])
                        } else {
                            dm[k]
                        },
                ),
            ),
            _ => src,
        },
        _ => src,
    }
}

/// Some entry among the first `i` of `es` has the key `k`.
pub open spec fn key_in_prefix<V>(es: Seq<(String, V)>, i: int, k: Seq<char>) -> bool {
    exists|j: int| 0 <= j < i && #[trigger] es[j].0@ == k
}

/// The entries of `dst` after those among the first `i` entries `es` of the
/// source `src` have been merged into it.
pub open spec fn merge_partial<V>(
    dst: Map<Seq<char>, JsonV>,
    src: Map<Seq<char>, JsonV>,
    es: Seq<(String, V)>,
    i: int,
) -> Map<Seq<char>, JsonV> {
    Map::new(
        |k: Seq<char>| dst.contains_key(k) || key_in_prefix(es, i, k),
        |k: Seq<char>|
            if key_in_prefix(es, i, k) {
                merge_spec(get_or_null(dst, k), src[k])
            } else {
                dst[k]
            },
    )
}

impl Json {
    /// A copy of the value.
    pub fn deep_clone(&self) -> (r: Json)
        ensures
            r@ == self@,
        decreases self,
    {
        match self {
            Json::Null => Json::Null,
            Json::Bool(b) => Json::Bool(*b),
            Json::Int(n) => Json::Int(*n),
            Json::Real(s) => Json::Real(s.clone()),
            Json::Str(s) => Json::Str(s.clone()),
            Json::Array(v) => {
                let mut out: Vec<Json> = Vec::new();
                let n = v.len();
                let mut i: usize = 0;
                while i < n
                    invariant
                        n == v@.len(),
                        0 <= i <= n,
                        out@.len() == i,
                        forall|j: int| 0 <= j < i ==> (#[trigger] out@[j])@ == v@[j]@,
                        *self == Json::Array(*v),
                    decreases n - i,
                {
                    assert(decreases_to!(*self => (*self)->Array_0));
                    assert(decreases_to!(*v => v@));
                    assert(decreases_to!(v@ => v@[i as int]));
                    out.push(v[i].deep_clone());
                    i = i + 1;
                }
                proof {
                    lemma_array_view(out);
                    lemma_array_view(*v);
                    assert(out@.map_values(|j: Json| j@) =~= v@.map_values(|j: Json| j@));
                }
                Json::Array(out)
            },
            Json::Object(m) => {
                let mut out: StrMap<Json> = StrMap::new();
                let n = m.len();
                let ghost es = m.spec_entries();
                let mut i: usize = 0;
                while i < n
                    invariant
                        n == es.len(),
                        es == m.spec_entries(),
                        0 <= i <= n,
                        view_values(out@) == view_values(entries_map(es.subrange(0, i as int))),
                        *self == Json::Object(*m),
                    decreases n - i,
                {
                    let (k, x) = m.entry(i);
                    assert(decreases_to!(*self => (*self)->Object_0));
                    assert(decreases_to!(*m => m.entries));
                    assert(decreases_to!(m.entries => m.entries@));
                    assert(decreases_to!(es => es[i as int]));
                    assert(decreases_to!(es[i as int] => es[i as int].1));
                    let x2 = x.deep_clone();
                    proof {
                        lemma_view_values_insert(out@, k@, x2);
                        lemma_view_values_insert(entries_map(es.subrange(0, i as int)), k@, *x);
                        assert(es.subrange(0, i + 1).drop_last() =~= es.subrange(0, i as int));
                    }
                    out.insert(k.clone(), x2);
                    i = i + 1;
                }
                proof {
                    assert(es.subrange(0, n as int) =~= es);
                    lemma_object_view(out);
                    lemma_object_view(*m);
                }
                Json::Object(out)
            },
        }
    }
}

/// `v` with each number whose text is an integer that fits in an `i128`
/// held as that integer; the other numbers keep their text.
pub open spec fn read_numbers(v: JsonV) -> JsonV
    decreases v,
{
    match v {
        JsonV::Real(t) => match int_text_value(t) {
            Some(n) => JsonV::Int(n),
            None => JsonV::Real(t),
        },
        JsonV::Array(s) => JsonV::Array(
            Seq::new(
                s.len(),
                |i: int|
                    if 0 <= i < s.len() {
                        read_numbers(s[i])
                    } else {
                        JsonV::Null
                    },
            ),
        ),
        JsonV::Object(m) => JsonV::Object(
            Map::new(
                |k: Seq<char>| m.contains_key(k),
                |k: Seq<char>|
                    if m.contains_key(k) {
                        read_numbers(m[k])
                    } else {
                        JsonV::Null
                    },
            ),
        ),
        _ => v,
    }
}

/// The value `j` with its integers read, as `read_numbers` says.
pub fn read_numbers_of(j: &Json) -> (r: Json)
    ensures
        r@ == read_numbers(j@),
    decreases j,
{
    match j {
        Json::Real(t) => match int_of_text(t.as_str()) {
            Some(n) => Json::Int(n),
            None => Json::Real(t.clone()),
        },
        Json::Array(v) => {
            let mut out: Vec<Json> = Vec::new();
            let n = v.len();
            let mut i: usize = 0;
            while i < n
                invariant
                    n == v@.len(),
                    0 <= i <= n,
                    out@.len() == i,
                    forall|q: int| 0 <= q < i ==> (#[trigger] out@[q])@ == read_numbers(v@[q]@),
                    *j == Json::Array(*v),
                decreases n - i,
            {
                assert(decreases_to!(*j => (*j)->Array_0));
                assert(decreases_to!(*v => v@));
                assert(decreases_to!(v@ => v@[i as int]));
                out.push(read_numbers_of(&v[i]));
                i = i + 1;
            }
            proof {
                lemma_array_view(out);
                lemma_array_view(*v);
                let a = v@.map_values(|x: Json| x@);
                assert(out@.map_values(|x: Json| x@) =~= read_numbers(JsonV::Array(a))->Array_0);
            }
            Json::Array(out)
        },
        Json::Object(m) => {
            let mut out: StrMap<Json> = StrMap::new();
            let n = m.len();
            let ghost es = m.spec_entries();
            let mut i: usize = 0;
            proof {
                assert(view_values(out@) =~= view_values(entries_map(es.subrange(0, 0))).map_values(
                    |x: JsonV| read_numbers(x),
                ));
            }
            while i < n
                invariant
                    n == es.len(),
                    es == m.spec_entries(),
                    0 <= i <= n,
                    view_values(out@) == view_values(entries_map(es.subrange(0, i as int))).map_values(
                        |x: JsonV| read_numbers(x),
                    ),
                    *j == Json::Object(*m),
                decreases n - i,
            {
                let (k, x) = m.entry(i);
                assert(decreases_to!(*j => (*j)->Object_0));
                assert(decreases_to!(*m => m.entries));
                assert(decreases_to!(m.entries => m.entries@));
                assert(decreases_to!(es => es[i as int]));
                assert(decreases_to!(es[i as int] => es[i as int].1));
                let x2 = read_numbers_of(x);
                let ghost before = entries_map(es.subrange(0, i as int));
                proof {
                    lemma_view_values_insert(out@, k@, x2);
                    lemma_view_values_insert(before, k@, *x);
                    assert(es.subrange(0, i + 1).drop_last() =~= es.subrange(0, i as int));
                    assert(entries_map(es.subrange(0, i + 1)) == before.insert(k@, *x));
                    assert(view_values(before.insert(k@, *x)).map_values(|y: JsonV| read_numbers(y))
                        =~= view_values(before).map_values(|y: JsonV| read_numbers(y)).insert(
                        k@,
                        read_numbers(x@),
                    ));
                }
                out.insert(k.clone(), x2);
                i = i + 1;
            }
            proof {
                assert(es.subrange(0, n as int) =~= es);
                lemma_object_view(out);
                lemma_object_view(*m);
                assert(view_values(out@) =~= read_numbers(JsonV::Object(view_values(m@)))->Object_0);
            }
            Json::Object(out)
        },
        Json::Null => Json::Null,
        Json::Bool(b) => Json::Bool(*b),
        Json::Int(n) => Json::Int(*n),
        Json::Str(s) => Json::Str(s.clone()),
    }
}

/// Merges `src` into `dst`, recursively adding or overwriting entries: only
/// the entries that `src` names change.
pub fn merge(dst: &mut Json, src: &Json)
    ensures
        final(dst)@ == merge_spec(old(dst)@, src@),
    decreases src,
{
    let mut d = Json::Null;
    std::mem::swap(&mut d, dst);
    match src {
        Json::Object(sm) => {
            match d {
                Json::Object(mut dm) => {
                    let ghost dm0 = view_values(dm@);
                    let ghost smv = view_values(sm@);
                    let n = sm.len();
                    let ghost es = sm.spec_entries();
                    proof {
                        lemma_object_view(*sm);
                        lemma_object_view(dm);
                        lemma_entries_map(es);
                        lemma_keys_increasing_distinct(es);
                        assert(merge_partial(dm0, smv, es, 0) =~= dm0);
                    }
                    let mut i: usize = 0;
                    while i < n
                        invariant
                            n == es.len(),
                            es == sm.spec_entries(),
                            keys_distinct(es),
                            smv == view_values(sm@),
                            sm@ == entries_map(es),
                            forall|k: Seq<char>|
                                #[trigger] has_key(es, k) ==> entries_map(es)[k] == es[last_key_index(
                                    es,
                                    k,
                                )].1 && 0 <= last_key_index(es, k) < es.len() && es[last_key_index(
                                    es,
                                    k,
                                )].0@ == k,
                            forall|k: Seq<char>| #[trigger] entries_map(es).contains_key(k) <==> has_key(es, k),
                            0 <= i <= n,
                            view_values(dm@) == merge_partial(dm0, smv, es, i as int),
                            *src == Json::Object(*sm),
                        decreases n - i,
                    {
                        let (k, v) = sm.entry(i);
                        let ghost kk = k@;
                        assert(!key_in_prefix(es, i as int, kk)) by {
                            if key_in_prefix(es, i as int, kk) {
                                let j = choose|j: int| 0 <= j < i && #[trigger] es[j].0@ == kk;
                                assert(es[j].0@ != es[i as int].0@);
                            }
                        }
                        assert(has_key(es, kk));
                        assert(last_key_index(es, kk) == i) by {
                            let l = last_key_index(es, kk);
                            if l < i {
                                assert(es[l].0@ != es[i as int].0@);
                            } else if l > i {
                                assert(es[i as int].0@ != es[l].0@);
                            }
                        }
                        assert(smv[kk] == v@);
                        let cur = match dm.get(k.as_str()) {
                            Some(c) => {
                                assert(view_values(dm@).contains_key(kk));
                                assert(view_values(dm@)[kk] == c@);
                                c.deep_clone()
                            },
                            None => {
                                assert(!view_values(dm@).contains_key(kk));
                                Json::Null
                            },
                        };
                        assert(cur@ == get_or_null(dm0, kk));
                        let mut child = cur;
                        assert(decreases_to!(*src => (*src)->Object_0));
                        assert(decreases_to!(*sm => sm.entries));
                        assert(decreases_to!(sm.entries => sm.entries@));
                        assert(decreases_to!(es => es[i as int]));
                        assert(decreases_to!(es[i as int] => es[i as int].1));
                        merge(&mut child, v);
                        proof {
                            lemma_view_values_insert(dm@, kk, child);
                        }
                        dm.insert(k.clone(), child);
                        proof {
                            let lhs = view_values(dm@);
                            let rhs = merge_partial(dm0, smv, es, i + 1);
                            assert forall|q: Seq<char>| #[trigger] key_in_prefix(es, i + 1, q) <==> (key_in_prefix(es, i as int, q) || q == kk) by {
                                if key_in_prefix(es, i + 1, q) && q != kk {
                                    let j = choose|j: int| 0 <= j < i + 1 && #[trigger] es[j].0@ == q;
                                    assert(j < i);
                                    assert(key_in_prefix(es, i as int, q));
                                }
                                if q == kk {
                                    assert(es[i as int].0@ == q);
                                }
                                if key_in_prefix(es, i as int, q) {
                                    let j = choose|j: int| 0 <= j < i && #[trigger] es[j].0@ == q;
                                    assert(es[j].0@ == q && 0 <= j < i + 1);
                                }
                            }
                            assert(lhs =~= rhs);
                        }
                        i = i + 1;
                    }
                    proof {
                        assert forall|q: Seq<char>| #[trigger] key_in_prefix(es, n as int, q) <==> smv.contains_key(q) by {
                            if key_in_prefix(es, n as int, q) {
                                let j = choose|j: int| 0 <= j < n && #[trigger] es[j].0@ == q;
                                assert(has_key(es, q));
                            }
                            if smv.contains_key(q) {
                                assert(has_key(es, q));
                            }
                        }
                        lemma_object_view(dm);
                        assert(view_values(dm@) =~= merge_spec(JsonV::Object(dm0), JsonV::Object(smv))->Object_0);
                    }
                    *dst = Json::Object(dm);
                },
                _ => {
                    *dst = src.deep_clone();
                },
            }
        },
        _ => {
            *dst = src.deep_clone();
        },
    }
}

} // verus!

verus! {

/// Merging a value into itself changes nothing.
pub proof fn lemma_merge_self(x: JsonV)
    ensures
        merge_spec(x, x) == x,
    decreases x,
{
    if let JsonV::Object(xm) = x {
        let r = merge_spec(x, x)->Object_0;
        assert forall|k: Seq<char>| #[trigger] xm.contains_key(k) implies r[k] == xm[k] by {
            lemma_merge_self(xm[k]);
        }
        assert(r =~= xm);
    }
}

/// Merging the same source a second time changes nothing: every entry that the
/// source names already holds what the source gives it.
pub proof fn lemma_merge_idempotent(d: JsonV, s: JsonV)
    ensures
        merge_spec(merge_spec(d, s), s) == merge_spec(d, s),
    decreases s,
{
    match s {
        JsonV::Object(sm) => match d {
            JsonV::Object(dm) => {
                let r = merge_spec(d, s);
                let rm = r->Object_0;
                let rr = merge_spec(r, s)->Object_0;
                assert forall|k: Seq<char>| #[trigger] rr.contains_key(k) implies rr[k] == rm[k] by {
                    if sm.contains_key(k) {
                        lemma_merge_idempotent(get_or_null(dm, k), sm[k]);
                    }
                }
                assert(rr =~= rm);
            },
            _ => {
                lemma_merge_self(s);
            },
        },
        _ => {},
    }
}

/// Merging an empty object into an object changes nothing.
pub proof fn lemma_merge_empty_source(dm: Map<Seq<char>, JsonV>)
    ensures
        merge_spec(JsonV::Object(dm), JsonV::Object(Map::empty())) == JsonV::Object(dm),
{
    assert(merge_spec(JsonV::Object(dm), JsonV::Object(Map::empty()))->Object_0 =~= dm);
}

/// Merging an object into an object gives an object with the keys of both;
/// an entry that the source does not name keeps its value, and one that the
/// source gives a value other than an object takes that value.
pub proof fn lemma_merge_objects_entry(
    dm: Map<Seq<char>, JsonV>,
    sm: Map<Seq<char>, JsonV>,
    k: Seq<char>,
)
    ensures
        merge_spec(JsonV::Object(dm), JsonV::Object(sm)) is Object,
        merge_spec(JsonV::Object(dm), JsonV::Object(sm))->Object_0.contains_key(k) <==> (
        dm.contains_key(k) || sm.contains_key(k)),
        dm.contains_key(k) && !sm.contains_key(k) ==> merge_spec(
            JsonV::Object(dm),
            JsonV::Object(sm),
        )->Object_0[k] == dm[k],
        sm.contains_key(k) && !(sm[k] is Object) ==> merge_spec(
            JsonV::Object(dm),
            JsonV::Object(sm),
        )->Object_0[k] == sm[k],
{
    if sm.contains_key(k) && !(sm[k] is Object) {
        lemma_merge_replaces(get_or_null(dm, k), sm[k]);
    }
}

/// Where the two values are not both objects, the source replaces the destination.
pub proof fn lemma_merge_replaces(d: JsonV, s: JsonV)
    requires
        !(d is Object && s is Object),
    ensures
        merge_spec(d, s) == s,
{
}

} // verus!

verus! {

/// The keys of `s` go up strictly, in the order of strings.
pub open spec fn increasing_keys(s: Seq<Seq<char>>) -> bool {
    forall|i: int, j: int| 0 <= i < j < s.len() ==> lex_lt(#[trigger] s[i], #[trigger] s[j])
}

/// `s` lists the keys of `m` in increasing order.
pub open spec fn is_key_order<V>(s: Seq<Seq<char>>, m: Map<Seq<char>, V>) -> bool {
    &&& increasing_keys(s)
    &&& forall|k: Seq<char>| #[trigger] m.contains_key(k) <==> s.contains(k)
}

/// The keys of a finite map in increasing order: the order in which a JSON
/// object is read.
pub open spec fn sorted_keys<V>(m: Map<Seq<char>, V>) -> Seq<Seq<char>> {
    choose|s: Seq<Seq<char>>| is_key_order(s, m)
}

/// Two increasing sequences with the same elements are equal.
pub proof fn lemma_increasing_unique(s1: Seq<Seq<char>>, s2: Seq<Seq<char>>)
    requires
        increasing_keys(s1),
        increasing_keys(s2),
        forall|k: Seq<char>| s1.contains(k) <==> s2.contains(k),
    ensures
        s1 == s2,
    decreases s1.len(),
{
    if s1.len() == 0 {
        if s2.len() > 0 {
            assert(s2.contains(s2[0]));
        }
        assert(s1 =~= s2);
    } else {
        let x = s1[0];
        assert(s1.contains(x));
        let j = choose|j: int| 0 <= j < s2.len() && s2[j] == x;
        let y = s2[0];
        assert(s2.contains(y));
        let k = choose|k: int| 0 <= k < s1.len() && s1[k] == y;
        if j > 0 {
            assert(lex_lt(s2[0], s2[j]));
            if k == 0 {
                lemma_lex_asymmetric(y, x);
            } else {
                assert(lex_lt(s1[0], s1[k]));
                lemma_lex_asymmetric(y, x);
            }
        }
        assert(x == y);
        let r1 = s1.drop_first();
        let r2 = s2.drop_first();
        assert forall|q: Seq<char>| r1.contains(q) <==> r2.contains(q) by {
            if r1.contains(q) {
                let a = choose|a: int| 0 <= a < r1.len() && r1[a] == q;
                assert(s1[a + 1] == q);
                assert(lex_lt(s1[0], s1[a + 1]));
                lemma_lex_asymmetric(x, q);
                assert(s2.contains(q));
                let b = choose|b: int| 0 <= b < s2.len() && s2[b] == q;
                assert(b != 0);
                assert(r2[b - 1] == q);
            }
            if r2.contains(q) {
                let a = choose|a: int| 0 <= a < r2.len() && r2[a] == q;
                assert(s2[a + 1] == q);
                assert(lex_lt(s2[0], s2[a + 1]));
                lemma_lex_asymmetric(y, q);
                assert(s1.contains(q));
                let b = choose|b: int| 0 <= b < s1.len() && s1[b] == q;
                assert(b != 0);
                assert(r1[b - 1] == q);
            }
        }
        assert(increasing_keys(r1)) by {
            assert forall|a: int, b: int| 0 <= a < b < r1.len() implies lex_lt(#[trigger] r1[a], #[trigger] r1[b]) by {
                assert(r1[a] == s1[a + 1] && r1[b] == s1[b + 1]);
            }
        }
        assert(increasing_keys(r2)) by {
            assert forall|a: int, b: int| 0 <= a < b < r2.len() implies lex_lt(#[trigger] r2[a], #[trigger] r2[b]) by {
                assert(r2[a] == s2[a + 1] && r2[b] == s2[b + 1]);
            }
        }
        lemma_increasing_unique(r1, r2);
        assert(s1 =~= s2) by {
            assert forall|a: int| 0 <= a < s1.len() implies s1[a] == s2[a] by {
                if a > 0 {
                    assert(s1[a] == r1[a - 1]);
                    assert(s2[a] == r2[a - 1]);
                }
            }
            if s1.len() != s2.len() {
                if s1.len() < s2.len() {
                    assert(r2.len() > r1.len());
                } else {
                    assert(r1.len() > r2.len());
                }
            }
        }
    }
}

/// The keys of the entries of a sorted map, in order.
pub open spec fn entry_keys<V>(es: Seq<(String, V)>) -> Seq<Seq<char>> {
    es.map_values(|e: (String, V)| e.0@)
}

/// The entries of a sorted map list its keys in increasing order, so
/// `sorted_keys` of its model is the sequence of their keys.
pub proof fn lemma_sorted_keys_of_entries(m: StrMap<Json>)
    requires
        keys_increasing(m.spec_entries()),
    ensures
        sorted_keys(view_values(m@)) == entry_keys(m.spec_entries()),
        is_key_order(entry_keys(m.spec_entries()), view_values(m@)),
{
    let es = m.spec_entries();
    let ks = entry_keys(es);
    lemma_entries_map(es);
    assert(increasing_keys(ks)) by {
        assert forall|a: int, b: int| 0 <= a < b < ks.len() implies lex_lt(#[trigger] ks[a], #[trigger] ks[b]) by {
            assert(ks[a] == es[a].0@ && ks[b] == es[b].0@);
        }
    }
    assert forall|k: Seq<char>| #[trigger] view_values(m@).contains_key(k) <==> ks.contains(k) by {
        if ks.contains(k) {
            let a = choose|a: int| 0 <= a < ks.len() && ks[a] == k;
            assert(es[a].0@ == k);
            assert(has_key(es, k));
        }
        if has_key(es, k) {
            let a = choose|a: int| 0 <= a < es.len() && #[trigger] es[a].0@ == k;
            assert(ks[a] == k);
        }
    }
    assert(is_key_order(ks, view_values(m@)));
    let s = sorted_keys(view_values(m@));
    assert(is_key_order(s, view_values(m@)));
    assert forall|k: Seq<char>| s.contains(k) <==> ks.contains(k) by {
        assert(view_values(m@).contains_key(k) <==> s.contains(k));
        assert(view_values(m@).contains_key(k) <==> ks.contains(k));
    }
    lemma_increasing_unique(s, ks);
}

} // verus!

verus! {

/// A finite nonempty set of strings has a least element.
proof fn lemma_has_least(s: Set<Seq<char>>)
    requires
        s.finite(),
        s.len() > 0,
    ensures
        exists|m: Seq<char>| s.contains(m) && forall|x: Seq<char>| #[trigger] s.contains(x) ==> x == m || lex_lt(m, x),
    decreases s.len(),
{
    let a = s.choose();
    let r = s.remove(a);
    assert(s.contains(a));
    if r.len() == 0 {
        assert forall|x: Seq<char>| #[trigger] s.contains(x) implies x == a || lex_lt(a, x) by {
            if x != a {
                assert(r.contains(x));
            }
        }
    } else {
        lemma_has_least(r);
        let m = choose|m: Seq<char>| r.contains(m) && forall|x: Seq<char>| #[trigger] r.contains(x) ==> x == m || lex_lt(m, x);
        crate::strs::lemma_lex_total(a, m);
        if lex_lt(a, m) {
            assert forall|x: Seq<char>| #[trigger] s.contains(x) implies x == a || lex_lt(a, x) by {
                if x != a {
                    assert(r.contains(x));
                    if x != m {
                        lemma_lex_transitive(a, m, x);
                    }
                }
            }
        } else {
            assert forall|x: Seq<char>| #[trigger] s.contains(x) implies x == m || lex_lt(m, x) by {
                if x != a {
                    assert(r.contains(x));
                }
            }
        }
    }
}

/// The elements of a finite set of strings can be listed in increasing order.
pub proof fn lemma_sorted_exists(s: Set<Seq<char>>)
    requires
        s.finite(),
    ensures
        exists|q: Seq<Seq<char>>| increasing_keys(q) && forall|k: Seq<char>| #[trigger] s.contains(k) <==> q.contains(k),
    decreases s.len(),
{
    if s.len() == 0 {
        let q = Seq::<Seq<char>>::empty();
        assert forall|k: Seq<char>| #[trigger] s.contains(k) <==> q.contains(k) by {
            if s.contains(k) {
                assert(s.remove(k).len() < s.len());
            }
        }
        assert(increasing_keys(q));
        assert(increasing_keys(q) && forall|k: Seq<char>| #[trigger] s.contains(k) <==> q.contains(k));
    } else {
        lemma_has_least(s);
        let m = choose|m: Seq<char>| s.contains(m) && forall|x: Seq<char>| #[trigger] s.contains(x) ==> x == m || lex_lt(m, x);
        let r = s.remove(m);
        lemma_sorted_exists(r);
        let q1 = choose|q: Seq<Seq<char>>| increasing_keys(q) && forall|k: Seq<char>| #[trigger] r.contains(k) <==> q.contains(k);
        let q = seq![m] + q1;
        assert forall|k: Seq<char>| #[trigger] s.contains(k) <==> q.contains(k) by {
            if s.contains(k) && k != m {
                assert(r.contains(k));
                let i = choose|i: int| 0 <= i < q1.len() && q1[i] == k;
                assert(q[i + 1] == k);
            }
            if k == m {
                assert(q[0] == m);
            }
            if q.contains(k) && k != m {
                let i = choose|i: int| 0 <= i < q.len() && q[i] == k;
                assert(q1[i - 1] == k);
                assert(q1.contains(k));
            }
        }
        assert forall|a: int, b: int| 0 <= a < b < q.len() implies lex_lt(#[trigger] q[a], #[trigger] q[b]) by {
            if a == 0 {
                assert(q[b] == q1[b - 1]);
                assert(q1.contains(q1[b - 1]));
                assert(r.contains(q[b]));
            } else {
                assert(q[a] == q1[a - 1] && q[b] == q1[b - 1]);
            }
        }
        assert(increasing_keys(q) && forall|k: Seq<char>| #[trigger] s.contains(k) <==> q.contains(k));
    }
}

/// `sorted_keys` lists the keys of a finite map in increasing order.
pub proof fn lemma_sorted_keys_order<V>(m: Map<Seq<char>, V>)
    requires
        m.dom().finite(),
    ensures
        is_key_order(sorted_keys(m), m),
{
    lemma_sorted_exists(m.dom());
    let q = choose|q: Seq<Seq<char>>| increasing_keys(q) && forall|k: Seq<char>| #[trigger] m.dom().contains(k) <==> q.contains(k);
    assert(is_key_order(q, m));
}

/// An increasing sequence has no element twice.
pub proof fn lemma_increasing_no_dup(q: Seq<Seq<char>>, i: int, j: int)
    requires
        increasing_keys(q),
        0 <= i < q.len(),
        0 <= j < q.len(),
        q[i] == q[j],
    ensures
        i == j,
{
    if i < j {
        lemma_lex_asymmetric(q[i], q[j]);
    } else if j < i {
        lemma_lex_asymmetric(q[j], q[i]);
    }
}

} // verus!
