//! The options of the emitter: their defaults, how they are read from a JSON
//! object and written back as one, and how several configurations combine.
use vstd::prelude::*;
use crate::strs::{concat, owned, str_eq};
use crate::text::{json_text, read_json_text};
use crate::cli::{cli_args_to_json, cli_json};
use crate::json::{
    entry_keys, has_key, increasing_keys, last_key_index, lemma_array_view,
    lemma_entries_map, lemma_keys_increasing_distinct, lemma_object_view, merge, merge_spec,
    get_or_null, lemma_merge_empty_source, lemma_merge_replaces, read_numbers, view_values, Json,
    JsonV, StrMap,
};
use crate::flags::{
    arg_json, arg_json_of, flag_entries,
    all_str_values, all_strs, arg_payload, arg_payload_of, decode_flags_spec,
    default_bits, CompilerFlags, EvalFlags, FlagSet, HhvmFlags, LangFlags, Php7Flags, PhpismFlags,
    RepoFlags, COMPILER, EVAL, HHVM, LANG, PHP7, PHPISM, REPO,
};
use crate::round_trip::{
    lemma_hhvm_round_trip, lemma_options_round_trip, lemma_str_map_finite,
    lemma_str_set_finite,
};

verus! {

/// An option whose value is not a flag. In JSON it is written
/// `{"global_value": value}`.
#[derive(Debug, PartialEq)]
pub struct Arg<T> {
    global_value: T,
}

impl<T> View for Arg<T> {
    type V = T;

    closed spec fn view(&self) -> T {
        self.global_value
    }
}

impl<T> Arg<T> {
    /// The value of the option.
    pub fn get(&self) -> (r: &T)
        ensures
            *r == self@,
    {
        &self.global_value
    }

    /// The value of the option, to change it in place.
    pub fn get_mut(&mut self) -> (r: &mut T)
        ensures
            *r == old(self)@,
            final(self)@ == *final(r),
    {
        &mut self.global_value
    }

    /// The option with value `global_value`.
    pub fn new(global_value: T) -> (r: Arg<T>)
        ensures
            r@ == global_value,
    {
        Arg { global_value }
    }
}

/// A set of strings, kept in increasing order.
pub type StrSet = StrMap<()>;

/// The model of a map from strings to strings.
pub open spec fn str_map_view(m: StrMap<String>) -> Map<Seq<char>, Seq<char>> {
    m@.map_values(|s: String| s@)
}

/// The model of a set of strings.
pub open spec fn str_set_view(m: StrSet) -> Set<Seq<char>> {
    m@.dom()
}

/// The options whose JSON keys begin with `hhvm.`.
#[derive(Debug, PartialEq)]
pub struct Hhvm {
    pub aliased_namespaces: Arg<StrMap<String>>,
    pub dynamic_invoke_functions: Arg<StrSet>,
    pub include_roots: Arg<StrMap<String>>,
    pub flags: HhvmFlags,
    pub hack_lang_flags: LangFlags,
}

/// The options whose JSON keys begin with `hhvm.server.`.
#[derive(Debug, PartialEq)]
pub struct Server {
    pub include_search_paths: Arg<Vec<String>>,
}

/// All the options of the emitter.
#[derive(Debug, PartialEq)]
pub struct Options {
    pub doc_root: Arg<String>,
    pub eval_flags: EvalFlags,
    pub hack_compiler_flags: CompilerFlags,
    pub hhvm: Hhvm,
    pub max_array_elem_size_on_the_stack: Arg<isize>,
    pub phpism_flags: PhpismFlags,
    pub php7_flags: Php7Flags,
    pub repo_flags: RepoFlags,
    pub server: Server,
}

/// The model of [`Hhvm`].
pub struct HhvmV {
    pub aliased_namespaces: Map<Seq<char>, Seq<char>>,
    pub dynamic_invoke_functions: Set<Seq<char>>,
    pub include_roots: Map<Seq<char>, Seq<char>>,
    pub flags: u64,
    pub hack_lang_flags: u64,
}

/// The model of [`Server`].
pub struct ServerV {
    pub include_search_paths: Seq<Seq<char>>,
}

/// The model of [`Options`].
pub struct OptionsV {
    pub doc_root: Seq<char>,
    pub eval_flags: u64,
    pub hack_compiler_flags: u64,
    pub hhvm: HhvmV,
    pub max_array_elem_size_on_the_stack: int,
    pub phpism_flags: u64,
    pub php7_flags: u64,
    pub repo_flags: u64,
    pub server: ServerV,
}

impl View for Hhvm {
    type V = HhvmV;

    open spec fn view(&self) -> HhvmV {
        HhvmV {
            aliased_namespaces: str_map_view(self.aliased_namespaces@),
            dynamic_invoke_functions: str_set_view(self.dynamic_invoke_functions@),
            include_roots: str_map_view(self.include_roots@),
            flags: self.flags@,
            hack_lang_flags: self.hack_lang_flags@,
        }
    }
}

impl View for Server {
    type V = ServerV;

    open spec fn view(&self) -> ServerV {
        ServerV { include_search_paths: self.include_search_paths@@.map_values(|s: String| s@) }
    }
}

impl View for Options {
    type V = OptionsV;

    open spec fn view(&self) -> OptionsV {
        OptionsV {
            doc_root: self.doc_root@@,
            eval_flags: self.eval_flags@,
            hack_compiler_flags: self.hack_compiler_flags@,
            hhvm: self.hhvm@,
            max_array_elem_size_on_the_stack: self.max_array_elem_size_on_the_stack@ as int,
            phpism_flags: self.phpism_flags@,
            php7_flags: self.php7_flags@,
            repo_flags: self.repo_flags@,
            server: self.server@,
        }
    }
}

/// The default of the option `max_array_elem_size_on_the_stack`.
pub fn max_array_elem_size_on_the_stack() -> (r: Arg<isize>)
    ensures
        r@ == 64,
{
    Arg::new(64)
}

/// The options of `hhvm.` that hold when nothing sets them.
pub open spec fn default_hhvm() -> HhvmV {
    HhvmV {
        aliased_namespaces: Map::empty(),
        dynamic_invoke_functions: Set::empty(),
        include_roots: Map::empty(),
        flags: default_bits(HHVM),
        hack_lang_flags: default_bits(LANG),
    }
}

/// The options of `hhvm.server.` that hold when nothing sets them.
pub open spec fn default_server() -> ServerV {
    ServerV { include_search_paths: Seq::empty() }
}

/// The options that hold when nothing sets them: every flag set at its
/// default, `max_array_elem_size_on_the_stack` at 64, and every other option empty.
pub open spec fn default_options() -> OptionsV {
    OptionsV {
        doc_root: Seq::empty(),
        eval_flags: default_bits(EVAL),
        hack_compiler_flags: default_bits(COMPILER),
        hhvm: default_hhvm(),
        max_array_elem_size_on_the_stack: 64,
        phpism_flags: default_bits(PHPISM),
        php7_flags: default_bits(PHP7),
        repo_flags: default_bits(REPO),
        server: default_server(),
    }
}

impl Default for Hhvm {
    fn default() -> (r: Hhvm)
        ensures
            r@ == default_hhvm(),
    {
        let r = Hhvm {
            aliased_namespaces: Arg::new(StrMap::new()),
            dynamic_invoke_functions: Arg::new(StrMap::new()),
            include_roots: Arg::new(StrMap::new()),
            flags: HhvmFlags::default(),
            hack_lang_flags: LangFlags::default(),
        };
        assert(str_map_view(r.aliased_namespaces@) =~= Map::empty());
        assert(str_map_view(r.include_roots@) =~= Map::empty());
        assert(str_set_view(r.dynamic_invoke_functions@) =~= Set::empty());
        r
    }
}

impl Default for Server {
    fn default() -> (r: Server)
        ensures
            r@ == default_server(),
    {
        let r = Server { include_search_paths: Arg::new(Vec::new()) };
        assert(r@.include_search_paths =~= Seq::<Seq<char>>::empty());
        r
    }
}

impl Default for Options {
    fn default() -> (r: Options)
        ensures
            r@ == default_options(),
    {
        Options {
            max_array_elem_size_on_the_stack: max_array_elem_size_on_the_stack(),
            hack_compiler_flags: CompilerFlags::default(),
            eval_flags: EvalFlags::default(),
            hhvm: Hhvm::default(),
            phpism_flags: PhpismFlags::default(),
            php7_flags: Php7Flags::default(),
            repo_flags: RepoFlags::default(),
            server: Server::default(),
            doc_root: Arg::new(String::new()),
        }
    }
}

} // verus!

verus! {

/// The string that an option's JSON carries.
pub open spec fn decode_string_arg(v: JsonV) -> Option<Seq<char>> {
    match arg_payload(v) {
        Some(JsonV::Str(s)) => Some(s),
        _ => None,
    }
}

/// The integer that an option's JSON carries, if it fits in an `isize`.
pub open spec fn decode_isize_arg(v: JsonV) -> Option<int> {
    match arg_payload(v) {
        Some(JsonV::Int(n)) => if isize::MIN <= n <= isize::MAX {
            Some(n)
        } else {
            None
        },
        _ => None,
    }
}

/// The strings of a JSON array of strings.
pub open spec fn strs_of(s: Seq<JsonV>) -> Seq<Seq<char>> {
    s.map_values(|x: JsonV| x->Str_0)
}

/// The map of strings that an option's JSON carries: an object whose values are strings.
pub open spec fn decode_str_map_arg(v: JsonV) -> Option<Map<Seq<char>, Seq<char>>> {
    match arg_payload(v) {
        Some(JsonV::Object(m)) => if all_str_values(m) {
            Some(m.map_values(|x: JsonV| x->Str_0))
        } else {
            None
        },
        _ => None,
    }
}

/// The set of strings that an option's JSON carries: an array of strings.
pub open spec fn decode_str_set_arg(v: JsonV) -> Option<Set<Seq<char>>> {
    match arg_payload(v) {
        Some(JsonV::Array(s)) => if all_strs(s) {
            Some(strs_of(s).to_set())
        } else {
            None
        },
        _ => None,
    }
}

/// The list of strings that an option's JSON carries: an array of strings.
pub open spec fn decode_str_vec_arg(v: JsonV) -> Option<Seq<Seq<char>>> {
    match arg_payload(v) {
        Some(JsonV::Array(s)) => if all_strs(s) {
            Some(strs_of(s))
        } else {
            None
        },
        _ => None,
    }
}

/// `m` without the entries whose keys are in `ks`.
pub open spec fn without_keys(m: Map<Seq<char>, JsonV>, ks: Seq<Seq<char>>) -> Map<
    Seq<char>,
    JsonV,
> {
    Map::new(|k: Seq<char>| m.contains_key(k) && !ks.contains(k), |k: Seq<char>| m[k])
}

/// Reads the string of an option.
pub fn string_arg(v: &Json) -> (r: Option<String>)
    ensures
        match decode_string_arg(v@) {
            Some(s) => r matches Some(x) && x@ == s,
            None => r is None,
        },
{
    match arg_payload_of(v) {
        Some(Json::Str(s)) => Some(s.clone()),
        _ => None,
    }
}

/// Reads the integer of an option.
pub fn isize_arg(v: &Json) -> (r: Option<isize>)
    ensures
        match decode_isize_arg(v@) {
            Some(n) => r == Some(n as isize),
            None => r is None,
        },
{
    match arg_payload_of(v) {
        Some(Json::Int(n)) => {
            if (isize::MIN as i128) <= *n && *n <= (isize::MAX as i128) {
                Some(*n as isize)
            } else {
                None
            }
        },
        _ => None,
    }
}

/// The strings of an array of JSON values, if they all are strings.
fn strs_of_array(a: &Vec<Json>) -> (r: Option<Vec<String>>)
    ensures
        match r {
            Some(v) => all_strs(a@.map_values(|j: Json| j@)) && v@.map_values(|s: String| s@)
                == strs_of(a@.map_values(|j: Json| j@)),
            None => !all_strs(a@.map_values(|j: Json| j@)),
        },
{
    let n = a.len();
    let ghost av = a@.map_values(|j: Json| j@);
    let mut out: Vec<String> = Vec::new();
    let mut i: usize = 0;
    while i < n
        invariant
            n == a@.len(),
            av == a@.map_values(|j: Json| j@),
            0 <= i <= n,
            out@.len() == i,
            forall|j: int| 0 <= j < i ==> (#[trigger] av[j]) is Str,
            forall|j: int| 0 <= j < i ==> (#[trigger] out@[j])@ == av[j]->Str_0,
        decreases n - i,
    {
        match &a[i] {
            Json::Str(s) => {
                out.push(s.clone());
            },
            _ => {
                assert(!(av[i as int] is Str));
                return None;
            },
        }
        i = i + 1;
    }
    assert(out@.map_values(|s: String| s@) =~= strs_of(av));
    Some(out)
}

/// Reads the list of strings of an option.
pub fn str_vec_arg(v: &Json) -> (r: Option<Vec<String>>)
    ensures
        match decode_str_vec_arg(v@) {
            Some(s) => r matches Some(x) && x@.map_values(|t: String| t@) == s,
            None => r is None,
        },
{
    match arg_payload_of(v) {
        Some(Json::Array(a)) => {
            proof {
                lemma_array_view(*a);
            }
            strs_of_array(a)
        },
        _ => None,
    }
}

/// Reads the set of strings of an option.
pub fn str_set_arg(v: &Json) -> (r: Option<StrSet>)
    ensures
        match decode_str_set_arg(v@) {
            Some(s) => r matches Some(x) && str_set_view(x) == s,
            None => r is None,
        },
{
    match arg_payload_of(v) {
        Some(Json::Array(a)) => {
            proof {
                lemma_array_view(*a);
            }
            match strs_of_array(a) {
                Some(items) => {
                    let ghost sv = items@.map_values(|s: String| s@);
                    let n = items.len();
                    let mut out: StrSet = StrMap::new();
                    let mut i: usize = 0;
                    while i < n
                        invariant
                            n == items@.len(),
                            sv == items@.map_values(|s: String| s@),
                            0 <= i <= n,
                            str_set_view(out) == sv.subrange(0, i as int).to_set(),
                        decreases n - i,
                    {
                        let ghost before = sv.subrange(0, i as int);
                        assert(sv.subrange(0, i + 1) =~= before.push(items@[i as int]@));
                        out.insert(items[i].clone(), ());
                        proof {
                            assert(str_set_view(out) =~= before.to_set().insert(items@[i as int]@));
                            before.lemma_push_to_set_commute(items@[i as int]@);
                        }
                        i = i + 1;
                    }
                    assert(sv.subrange(0, n as int) =~= sv);
                    Some(out)
                },
                None => None,
            }
        },
        _ => None,
    }
}

/// Reads the map of strings of an option.
#[verifier::loop_isolation(false)]
pub fn str_map_arg(v: &Json) -> (r: Option<StrMap<String>>)
    ensures
        match decode_str_map_arg(v@) {
            Some(m) => r matches Some(x) && str_map_view(x) == m,
            None => r is None,
        },
{
    match arg_payload_of(v) {
        Some(Json::Object(m)) => {
            proof {
                lemma_object_view(*m);
            }
            let n = m.len();
            let ghost es = m.spec_entries();
            proof {
                lemma_entries_map(es);
                lemma_keys_increasing_distinct(es);
            }
            let mut out: StrMap<String> = StrMap::new();
            let mut i: usize = 0;
            while i < n
                invariant
                    n == es.len(),
                    es == m.spec_entries(),
                    0 <= i <= n,
                    crate::json::keys_distinct(es),
                    forall|j: int| 0 <= j < i ==> (#[trigger] es[j]).1 is Str,
                    str_map_view(out) == crate::json::entries_map(es.subrange(0, i as int)).map_values(
                        |x: Json| x@->Str_0,
                    ),
                decreases n - i,
            {
                let (k, x) = m.entry(i);
                match x {
                    Json::Str(s) => {
                        let ghost before = crate::json::entries_map(es.subrange(0, i as int));
                        assert(es.subrange(0, i + 1).drop_last() =~= es.subrange(0, i as int));
                        let ghost kk = k@;
                        let ghost sv = s@;
                        let ghost old_out = out@;
                        out.insert(k.clone(), s.clone());
                        proof {
                            assert(x@->Str_0 == sv);
                            assert(out@ == old_out.insert(kk, *s));
                            assert(str_map_view(out) =~= old_out.map_values(|t: String| t@).insert(kk, sv));
                            assert(str_map_view(out) =~= before.insert(kk, *x).map_values(
                                |x: Json| x@->Str_0,
                            ));
                        }
                    },
                    _ => {
                        proof {
                            assert(has_key(es, k@));
                            let l = last_key_index(es, k@);
                            assert(l == i) by {
                                if l < i {
                                    assert(es[l].0@ != es[i as int].0@);
                                } else if l > i {
                                    assert(es[i as int].0@ != es[l].0@);
                                }
                            }
                            assert(view_values(m@).contains_key(k@));
                            assert(!(view_values(m@)[k@] is Str));
                        }
                        return None;
                    },
                }
                i = i + 1;
            }
            proof {
                assert(es.subrange(0, n as int) =~= es);
                assert forall|k: Seq<char>| #[trigger] view_values(m@).contains_key(k) implies view_values(
                    m@,
                )[k] is Str by {
                    let l = last_key_index(es, k);
                    assert(es[l].1 is Str);
                }
                assert(str_map_view(out) =~= view_values(m@).map_values(|x: JsonV| x->Str_0));
            }
            Some(out)
        },
        _ => None,
    }
}

/// A copy of `m` without the entries whose keys are listed in `ks`.
pub fn without_keys_of(m: &StrMap<Json>, ks: &[&str]) -> (r: StrMap<Json>)
    ensures
        view_values(r@) == without_keys(view_values(m@), ks@.map_values(|s: &str| s@)),
{
    let ghost kv = ks@.map_values(|s: &str| s@);
    let n = m.len();
    let ghost es = m.spec_entries();
    let mut out: StrMap<Json> = StrMap::new();
    let mut i: usize = 0;
    proof {
        assert(view_values(out@) =~= without_keys(
            view_values(crate::json::entries_map(es.subrange(0, 0))),
            kv,
        ));
    }
    while i < n
        invariant
            n == es.len(),
            es == m.spec_entries(),
            kv == ks@.map_values(|s: &str| s@),
            0 <= i <= n,
            view_values(out@) == without_keys(
                view_values(crate::json::entries_map(es.subrange(0, i as int))),
                kv,
            ),
        decreases n - i,
    {
        let (k, x) = m.entry(i);
        let ghost before = crate::json::entries_map(es.subrange(0, i as int));
        assert(es.subrange(0, i + 1).drop_last() =~= es.subrange(0, i as int));
        let listed = key_listed(ks, k.as_str());
        if !listed {
            let x2 = x.deep_clone();
            proof {
                crate::json::lemma_view_values_insert_pub(out@, k@, x2);
            }
            out.insert(k.clone(), x2);
        }
        proof {
            assert(view_values(out@) =~= without_keys(view_values(before.insert(k@, *x)), kv));
        }
        i = i + 1;
    }
    proof {
        assert(es.subrange(0, n as int) =~= es);
    }
    out
}

/// Whether `k` is one of the strings of `ks`.
fn key_listed(ks: &[&str], k: &str) -> (r: bool)
    ensures
        r == ks@.map_values(|s: &str| s@).contains(k@),
{
    let ghost kv = ks@.map_values(|s: &str| s@);
    let n = ks.len();
    let mut i: usize = 0;
    while i < n
        invariant
            n == ks@.len(),
            kv == ks@.map_values(|s: &str| s@),
            0 <= i <= n,
            forall|j: int| 0 <= j < i ==> kv[j] != k@,
        decreases n - i,
    {
        if str_eq(ks[i], k) {
            assert(kv[i as int] == k@);
            return true;
        }
        i = i + 1;
    }
    false
}

} // verus!

verus! {

/// The keys of the options of [`Hhvm`] that are not flags.
pub open spec fn hhvm_arg_keys() -> Seq<Seq<char>> {
    seq!["hhvm.aliased_namespaces"@, "hhvm.dynamic_invoke_functions"@, "hhvm.include_roots"@]
}

/// The keys of the options of [`Options`] itself that are not flags.
pub open spec fn options_arg_keys() -> Seq<Seq<char>> {
    seq!["doc_root"@, "max_array_elem_size_on_the_stack"@]
}

/// The options of `hhvm.` that the entries `m` of a JSON object give. Each
/// option that is not a flag is read from its own key, or keeps its default
/// where the key is absent; the flags are read from the other entries.
pub open spec fn decode_hhvm_map(m: Map<Seq<char>, JsonV>) -> Option<HhvmV> {
    let an = if m.contains_key("hhvm.aliased_namespaces"@) {
        decode_str_map_arg(m["hhvm.aliased_namespaces"@])
    } else {
        Some(Map::empty())
    };
    let di = if m.contains_key("hhvm.dynamic_invoke_functions"@) {
        decode_str_set_arg(m["hhvm.dynamic_invoke_functions"@])
    } else {
        Some(Set::empty())
    };
    let ir = if m.contains_key("hhvm.include_roots"@) {
        decode_str_map_arg(m["hhvm.include_roots"@])
    } else {
        Some(Map::empty())
    };
    let rest = without_keys(m, hhvm_arg_keys());
    let fl = decode_flags_spec(HHVM, rest);
    let lf = decode_flags_spec(LANG, rest);
    if an is Some && di is Some && ir is Some && fl is Some && lf is Some {
        Some(
            HhvmV {
                aliased_namespaces: an->Some_0,
                dynamic_invoke_functions: di->Some_0,
                include_roots: ir->Some_0,
                flags: fl->Some_0,
                hack_lang_flags: lf->Some_0,
            },
        )
    } else {
        None
    }
}

/// The options of `hhvm.` that a JSON value gives; it must be an object.
pub open spec fn decode_hhvm(j: JsonV) -> Option<HhvmV> {
    match j {
        JsonV::Object(m) => decode_hhvm_map(m),
        _ => None,
    }
}

/// The options of `hhvm.server.` that the entries `m` of a JSON object give.
pub open spec fn decode_server_map(m: Map<Seq<char>, JsonV>) -> Option<ServerV> {
    if m.contains_key("hhvm.server.include_search_paths"@) {
        match decode_str_vec_arg(m["hhvm.server.include_search_paths"@]) {
            Some(v) => Some(ServerV { include_search_paths: v }),
            None => None,
        }
    } else {
        Some(default_server())
    }
}

/// The options that the entries `m` of a JSON object give. `doc_root` and
/// `max_array_elem_size_on_the_stack` are read from their keys; every group
/// of flags and the options of `hhvm.` and `hhvm.server.` are read from the
/// other entries, and each option whose key is absent keeps its default.
pub open spec fn decode_options_map(m: Map<Seq<char>, JsonV>) -> Option<OptionsV> {
    let dr = if m.contains_key("doc_root"@) {
        decode_string_arg(m["doc_root"@])
    } else {
        Some(Seq::empty())
    };
    let mx = if m.contains_key("max_array_elem_size_on_the_stack"@) {
        decode_isize_arg(m["max_array_elem_size_on_the_stack"@])
    } else {
        Some(64)
    };
    let c = without_keys(m, options_arg_keys());
    let ef = decode_flags_spec(EVAL, c);
    let cf = decode_flags_spec(COMPILER, c);
    let h = decode_hhvm_map(c);
    let pf = decode_flags_spec(PHPISM, c);
    let p7 = decode_flags_spec(PHP7, c);
    let rf = decode_flags_spec(REPO, c);
    let sv = decode_server_map(c);
    if dr is Some && mx is Some && ef is Some && cf is Some && h is Some && pf is Some && p7 is Some
        && rf is Some && sv is Some {
        Some(
            OptionsV {
                doc_root: dr->Some_0,
                eval_flags: ef->Some_0,
                hack_compiler_flags: cf->Some_0,
                hhvm: h->Some_0,
                max_array_elem_size_on_the_stack: mx->Some_0,
                phpism_flags: pf->Some_0,
                php7_flags: p7->Some_0,
                repo_flags: rf->Some_0,
                server: sv->Some_0,
            },
        )
    } else {
        None
    }
}

/// The options that a JSON value gives; it must be an object.
pub open spec fn decode_options(j: JsonV) -> Option<OptionsV> {
    match j {
        JsonV::Object(m) => decode_options_map(m),
        _ => None,
    }
}

impl Hhvm {
    fn from_json_map(m: &StrMap<Json>) -> (r: Option<Hhvm>)
        ensures
            match decode_hhvm_map(view_values(m@)) {
                Some(h) => r matches Some(x) && x@ == h,
                None => r is None,
            },
    {
        let an = match m.get("hhvm.aliased_namespaces") {
            Some(v) => match str_map_arg(v) {
                Some(x) => x,
                None => return None,
            },
            None => {
                let e: StrMap<String> = StrMap::new();
                assert(str_map_view(e) =~= Map::empty());
                e
            },
        };
        let di = match m.get("hhvm.dynamic_invoke_functions") {
            Some(v) => match str_set_arg(v) {
                Some(x) => x,
                None => return None,
            },
            None => {
                let e: StrSet = StrMap::new();
                assert(str_set_view(e) =~= Set::empty());
                e
            },
        };
        let ir = match m.get("hhvm.include_roots") {
            Some(v) => match str_map_arg(v) {
                Some(x) => x,
                None => return None,
            },
            None => {
                let e: StrMap<String> = StrMap::new();
                assert(str_map_view(e) =~= Map::empty());
                e
            },
        };
        let ks: Vec<&str> = vec!["hhvm.aliased_namespaces", "hhvm.dynamic_invoke_functions", "hhvm.include_roots"];
        assert(ks@.map_values(|s: &str| s@) =~= hhvm_arg_keys());
        let rest = without_keys_of(m, ks.as_slice());
        let fl = match HhvmFlags::from_json_entries(&rest) {
            Some(f) => f,
            None => return None,
        };
        let lf = match LangFlags::from_json_entries(&rest) {
            Some(f) => f,
            None => return None,
        };
        Some(
            Hhvm {
                aliased_namespaces: Arg::new(an),
                dynamic_invoke_functions: Arg::new(di),
                include_roots: Arg::new(ir),
                flags: fl,
                hack_lang_flags: lf,
            },
        )
    }

    /// Reads the options of `hhvm.` from a JSON object.
    pub fn from_json(j: &Json) -> (r: Result<Hhvm, String>)
        ensures
            match decode_hhvm(j@) {
                Some(h) => r matches Ok(x) && x@ == h,
                None => r matches Err(s) && s@ == if j@ is Object {
                    "invalid value for an option of hhvm"@
                } else {
                    "the options of hhvm must be a JSON object"@
                },
            },
    {
        match j {
            Json::Object(m) => {
                proof {
                    lemma_object_view(*m);
                }
                match Hhvm::from_json_map(m) {
                    Some(h) => Ok(h),
                    None => Err(owned("invalid value for an option of hhvm")),
                }
            },
            _ => Err(owned("the options of hhvm must be a JSON object")),
        }
    }
}

impl Server {
    fn from_json_map(m: &StrMap<Json>) -> (r: Option<Server>)
        ensures
            match decode_server_map(view_values(m@)) {
                Some(s) => r matches Some(x) && x@ == s,
                None => r is None,
            },
    {
        match m.get("hhvm.server.include_search_paths") {
            Some(v) => match str_vec_arg(v) {
                Some(x) => Some(Server { include_search_paths: Arg::new(x) }),
                None => None,
            },
            None => Some(Server::default()),
        }
    }
}

impl Options {
    fn from_json_map(m: &StrMap<Json>) -> (r: Option<Options>)
        ensures
            match decode_options_map(view_values(m@)) {
                Some(o) => r matches Some(x) && x@ == o,
                None => r is None,
            },
    {
        let dr = match m.get("doc_root") {
            Some(v) => match string_arg(v) {
                Some(x) => x,
                None => return None,
            },
            None => String::new(),
        };
        let mx = match m.get("max_array_elem_size_on_the_stack") {
            Some(v) => match isize_arg(v) {
                Some(x) => x,
                None => return None,
            },
            None => 64,
        };
        let ks: Vec<&str> = vec!["doc_root", "max_array_elem_size_on_the_stack"];
        assert(ks@.map_values(|s: &str| s@) =~= options_arg_keys());
        let c = without_keys_of(m, ks.as_slice());
        let ef = match EvalFlags::from_json_entries(&c) {
            Some(f) => f,
            None => return None,
        };
        let cf = match CompilerFlags::from_json_entries(&c) {
            Some(f) => f,
            None => return None,
        };
        let h = match Hhvm::from_json_map(&c) {
            Some(f) => f,
            None => return None,
        };
        let pf = match PhpismFlags::from_json_entries(&c) {
            Some(f) => f,
            None => return None,
        };
        let p7 = match Php7Flags::from_json_entries(&c) {
            Some(f) => f,
            None => return None,
        };
        let rf = match RepoFlags::from_json_entries(&c) {
            Some(f) => f,
            None => return None,
        };
        let sv = match Server::from_json_map(&c) {
            Some(f) => f,
            None => return None,
        };
        Some(
            Options {
                doc_root: Arg::new(dr),
                eval_flags: ef,
                hack_compiler_flags: cf,
                hhvm: h,
                max_array_elem_size_on_the_stack: Arg::new(mx),
                phpism_flags: pf,
                php7_flags: p7,
                repo_flags: rf,
                server: sv,
            },
        )
    }

    /// Reads the options from a JSON value. It succeeds on exactly the values
    /// that `decode_options` reads, and gives those options. Where it fails,
    /// the error is the library's own message, which says whether the value
    /// is no object or holds a value it cannot read; it is not the message
    /// that serde's derived reading of the options would give.
    pub fn from_value(j: &Json) -> (r: Result<Options, String>)
        ensures
            match decode_options(j@) {
                Some(o) => r matches Ok(x) && x@ == o,
                None => r matches Err(s) && s@ == if j@ is Object {
                    "invalid value for an option"@
                } else {
                    "the options must be a JSON object"@
                },
            },
    {
        match j {
            Json::Object(m) => {
                proof {
                    lemma_object_view(*m);
                }
                match Options::from_json_map(m) {
                    Some(o) => Ok(o),
                    None => Err(owned("invalid value for an option")),
                }
            },
            _ => Err(owned("the options must be a JSON object")),
        }
    }
}

} // verus!

verus! {

/// The message of `serde_json`'s error for the first of the texts `ts` that
/// it cannot parse, if there is one.
pub open spec fn first_text_error(ts: Seq<Seq<char>>) -> Option<Seq<char>>
    decreases ts.len(),
{
    if ts.len() == 0 {
        None
    } else {
        match first_text_error(ts.drop_last()) {
            Some(m) => Some(m),
            None => match json_text(ts.last()) {
                Err(m) => Some(m),
                Ok(_) => None,
            },
        }
    }
}

/// The values that the JSON texts `ts` give, with their integers read.
pub open spec fn text_values(ts: Seq<Seq<char>>) -> Seq<JsonV> {
    ts.map_values(|t: Seq<char>| read_numbers(json_text(t)->Ok_0))
}

proof fn lemma_text_error_extends(ts: Seq<Seq<char>>, i: int)
    requires
        0 <= i <= ts.len(),
        first_text_error(ts.subrange(0, i)) is Some,
    ensures
        first_text_error(ts) == first_text_error(ts.subrange(0, i)),
    decreases ts.len(),
{
    if i == ts.len() {
        assert(ts.subrange(0, i) =~= ts);
    } else {
        assert(ts.drop_last().subrange(0, i) =~= ts.subrange(0, i));
        lemma_text_error_extends(ts.drop_last(), i);
    }
}

/// One configuration text that holds an object, with no command-line
/// arguments, gives what `from_json` gives for that text: `from_configs`
/// reads no text wrongly and no argument fails, and the options it reads from
/// the merged value are those that `from_json` reads, integers included. (A
/// text that holds no object is replaced by the empty object of the
/// arguments in `from_configs`, while `from_json` refuses it.)
pub proof fn lemma_one_config_reads_as_from_json(s: Seq<char>)
    requires
        json_text(s) is Ok,
        read_numbers(json_text(s)->Ok_0) is Object,
    ensures
        first_text_error(seq![s]) is None,
        cli_json(Seq::<Seq<char>>::empty()) == Ok::<Map<Seq<char>, JsonV>, Seq<char>>(Map::empty()),
        decode_options(merge_spec(merge_all(text_values(seq![s])), JsonV::Object(Map::empty())))
            == decode_options(read_numbers(json_text(s)->Ok_0)),
{
    let one = seq![s];
    let v = read_numbers(json_text(s)->Ok_0);
    let sm = v->Object_0;
    assert(one.drop_last() =~= Seq::<Seq<char>>::empty());
    assert(one.last() == s);
    assert(first_text_error(one.drop_last()) is None);
    let tv = text_values(one);
    assert(tv =~= seq![v]);
    assert(tv.drop_last() =~= Seq::<JsonV>::empty());
    assert(merge_all(tv.drop_last()) == JsonV::Object(Map::<Seq<char>, JsonV>::empty()));
    let merged = merge_spec(JsonV::Object(Map::<Seq<char>, JsonV>::empty()), v);
    assert(merge_all(tv) == merged);
    assert forall|k: Seq<char>| sm.contains_key(k) implies merge_spec(
        get_or_null(Map::<Seq<char>, JsonV>::empty(), k),
        sm[k],
    ) == sm[k] by {
        lemma_merge_replaces(JsonV::Null, sm[k]);
    }
    assert(merged->Object_0 =~= sm);
    assert(merged == v);
    lemma_merge_empty_source(sm);
}

/// Merging the configurations `jsons` in order into an empty object.
pub open spec fn merge_all(jsons: Seq<JsonV>) -> JsonV
    decreases jsons.len(),
{
    if jsons.len() == 0 {
        JsonV::Object(Map::empty())
    } else {
        merge_spec(merge_all(jsons.drop_last()), jsons.last())
    }
}

impl Options {
    /// The JSON object that command-line arguments `key=value` give.
    pub fn from_cli_args(args: &[&str]) -> (r: Result<Json, String>)
        ensures
            match cli_json(args@.map_values(|a: &str| a@)) {
                Ok(m) => r matches Ok(j) && j@ == JsonV::Object(m),
                Err(e) => r matches Err(s) && s@ == e,
            },
    {
        cli_args_to_json(args)
    }

    /// Merges src JSON into dst JSON, recursively adding or overwriting
    /// existing entries: only the options that `src` names change.
    pub fn merge(dst: &mut Json, src: &Json)
        ensures
            final(dst)@ == merge_spec(old(dst)@, src@),
    {
        merge(dst, src)
    }

    /// Reads the options from JSON text: the text is parsed by `serde_json`
    /// into a value, which is then read as `from_value` reads it; either error
    /// is reported after the words "failed to load config JSON:". A parse error
    /// carries `serde_json`'s message, a reading error the library's own.
    /// Since the text is read through a value, an object's entries are read in
    /// the order of their keys, and a key given twice keeps its last value.
    pub fn from_json(s: &str) -> (r: Result<Options, String>)
        ensures
            match json_text(s@) {
                Err(m) => r matches Err(e) && e@ == "failed to load config JSON:\n"@ + m,
                Ok(v) => match decode_options(read_numbers(v)) {
                    Some(o) => r matches Ok(x) && x@ == o,
                    None => r matches Err(e) && e@ == "failed to load config JSON:\n"@ + if read_numbers(
                        v,
                    ) is Object {
                        "invalid value for an option"@
                    } else {
                        "the options must be a JSON object"@
                    },
                },
            },
    {
        let j = match read_json_text(s) {
            Ok(j) => j,
            Err(e) => return Err(concat("failed to load config JSON:\n", e.as_str())),
        };
        match Options::from_value(&j) {
            Ok(o) => Ok(o),
            Err(e) => Err(concat("failed to load config JSON:\n", e.as_str())),
        }
    }

    /// The options that the JSON texts `jsons` and the command-line arguments
    /// `cli_args` give: the texts are parsed in order, and the first that
    /// cannot be parsed gives `serde_json`'s message, before the arguments are
    /// read; otherwise the result is that of `from_config_values` on their
    /// values: an argument's error, or the options read from the merged value,
    /// where a reading error is the library's own message.
    pub fn from_configs(jsons: &[&str], cli_args: &[&str]) -> (r: Result<Options, String>)
        ensures
            match first_text_error(jsons@.map_values(|t: &str| t@)) {
                Some(m) => r matches Err(e) && e@ == m,
                None => match cli_json(cli_args@.map_values(|a: &str| a@)) {
                    Err(e) => r matches Err(s) && s@ == e,
                    Ok(cm) => match decode_options(
                        merge_spec(
                            merge_all(text_values(jsons@.map_values(|t: &str| t@))),
                            JsonV::Object(cm),
                        ),
                    ) {
                        Some(o) => r matches Ok(x) && x@ == o,
                        None => r matches Err(s) && s@ == "invalid value for an option"@,
                    },
                },
            },
    {
        let ghost ts = jsons@.map_values(|t: &str| t@);
        let n = jsons.len();
        let mut parsed: Vec<Json> = Vec::new();
        let mut i: usize = 0;
        proof {
            assert(ts.subrange(0, 0).len() == 0);
            assert(parsed@.map_values(|j: Json| j@) =~= text_values(ts.subrange(0, 0)));
        }
        while i < n
            invariant
                n == jsons@.len(),
                ts == jsons@.map_values(|t: &str| t@),
                0 <= i <= n,
                first_text_error(ts.subrange(0, i as int)) is None,
                parsed@.len() == i,
                parsed@.map_values(|j: Json| j@) == text_values(ts.subrange(0, i as int)),
            decreases n - i,
        {
            let ghost sub = ts.subrange(0, i + 1);
            assert(sub.drop_last() =~= ts.subrange(0, i as int));
            assert(sub.last() == jsons[i as int]@);
            match read_json_text(jsons[i]) {
                Ok(j) => {
                    let ghost before = parsed@;
                    assert(json_text(sub[i as int]) is Ok);
                    assert(j@ == read_numbers(json_text(sub[i as int])->Ok_0));
                    parsed.push(j);
                    assert forall|q: int| 0 <= q <= i implies (#[trigger] parsed@[q])@
                        == text_values(sub)[q] by {
                        if q < i {
                            assert(parsed@[q] == before[q]);
                            assert(sub[q] == ts.subrange(0, i as int)[q]);
                            assert(before.map_values(|x: Json| x@)[q] == text_values(
                                ts.subrange(0, i as int),
                            )[q]);
                        }
                    }
                    assert(parsed@.map_values(|x: Json| x@) =~= text_values(sub));
                },
                Err(e) => {
                    proof {
                        lemma_text_error_extends(ts, i + 1);
                    }
                    return Err(e);
                },
            }
            i = i + 1;
        }
        assert(ts.subrange(0, n as int) =~= ts);
        Options::from_config_values(parsed.as_slice(), cli_args)
    }

    /// The options that the configurations `jsons` and the command-line
    /// arguments `cli_args` give together: the configurations are merged in
    /// order, later ones overriding earlier ones, then the arguments override
    /// them all, and the options are read from the result.
    pub fn from_config_values(jsons: &[Json], cli_args: &[&str]) -> (r: Result<Options, String>)
        ensures
            match cli_json(cli_args@.map_values(|a: &str| a@)) {
                Err(e) => r matches Err(s) && s@ == e,
                Ok(cm) => match decode_options(
                    merge_spec(merge_all(jsons@.map_values(|j: Json| j@)), JsonV::Object(cm)),
                ) {
                    Some(o) => r matches Ok(x) && x@ == o,
                    None => r matches Err(s) && s@ == "invalid value for an option"@,
                },
            },
    {
        let ghost jv = jsons@.map_values(|j: Json| j@);
        let empty: StrMap<Json> = StrMap::new();
        proof {
            lemma_object_view(empty);
            assert(view_values(Map::<Seq<char>, Json>::empty()) =~= Map::empty());
            assert(jv.subrange(0, 0).len() == 0);
        }
        let mut merged = Json::Object(empty);
        let n = jsons.len();
        let mut i: usize = 0;
        while i < n
            invariant
                n == jsons@.len(),
                jv == jsons@.map_values(|j: Json| j@),
                0 <= i <= n,
                merged@ == merge_all(jv.subrange(0, i as int)),
            decreases n - i,
        {
            assert(jv.subrange(0, i + 1).drop_last() =~= jv.subrange(0, i as int));
            merge(&mut merged, &jsons[i]);
            i = i + 1;
        }
        assert(jv.subrange(0, n as int) =~= jv);
        let overrides = match cli_args_to_json(cli_args) {
            Ok(j) => j,
            Err(e) => return Err(e),
        };
        merge(&mut merged, &overrides);
        Options::from_value(&merged)
    }
}

} // verus!

verus! {

/// The JSON object of a map of strings.
pub open spec fn str_map_json(m: Map<Seq<char>, Seq<char>>) -> JsonV {
    JsonV::Object(m.map_values(|s: Seq<char>| JsonV::Str(s)))
}

/// The JSON array of a list of strings.
pub open spec fn str_seq_json(s: Seq<Seq<char>>) -> JsonV {
    JsonV::Array(s.map_values(|x: Seq<char>| JsonV::Str(x)))
}

/// The elements of a finite set of strings in increasing order.
pub open spec fn sorted_elems(s: Set<Seq<char>>) -> Seq<Seq<char>> {
    choose|q: Seq<Seq<char>>|
        increasing_keys(q) && forall|k: Seq<char>| #[trigger] s.contains(k) <==> q.contains(k)
}

/// The models of a list of JSON entries.
pub open spec fn entries_view(es: Seq<(String, Json)>) -> Seq<(Seq<char>, JsonV)> {
    es.map_values(|e: (String, Json)| (e.0@, e.1@))
}

/// The object that a list of entries builds, later entries winning.
pub open spec fn pairs_map(es: Seq<(Seq<char>, JsonV)>) -> Map<Seq<char>, JsonV>
    decreases es.len(),
{
    if es.len() == 0 {
        Map::empty()
    } else {
        pairs_map(es.drop_last()).insert(es.last().0, es.last().1)
    }
}

/// The JSON entries of the options of `hhvm.`, in the order of the fields:
/// the three options that are not flags, then the flags of `hhvm.` and of
/// `hhvm.hack.lang.`.
pub open spec fn encode_hhvm_entries(h: HhvmV) -> Seq<(Seq<char>, JsonV)> {
    seq![
        ("hhvm.aliased_namespaces"@, arg_json(str_map_json(h.aliased_namespaces))),
        (
            "hhvm.dynamic_invoke_functions"@,
            arg_json(str_seq_json(sorted_elems(h.dynamic_invoke_functions))),
        ),
        ("hhvm.include_roots"@, arg_json(str_map_json(h.include_roots))),
    ] + flag_entries(HHVM, h.flags) + flag_entries(LANG, h.hack_lang_flags)
}

/// The JSON entries of the options of `hhvm.server.`.
pub open spec fn encode_server_entries(s: ServerV) -> Seq<(Seq<char>, JsonV)> {
    seq![("hhvm.server.include_search_paths"@, arg_json(str_seq_json(s.include_search_paths)))]
}

/// The JSON entries of all the options, in the order of the fields.
pub open spec fn encode_options_entries(o: OptionsV) -> Seq<(Seq<char>, JsonV)> {
    seq![("doc_root"@, arg_json(JsonV::Str(o.doc_root)))] + flag_entries(EVAL, o.eval_flags)
        + flag_entries(COMPILER, o.hack_compiler_flags) + encode_hhvm_entries(o.hhvm) + seq![
        (
            "max_array_elem_size_on_the_stack"@,
            arg_json(JsonV::Int(o.max_array_elem_size_on_the_stack)),
        ),
    ] + flag_entries(PHPISM, o.phpism_flags) + flag_entries(PHP7, o.php7_flags) + flag_entries(
        REPO,
        o.repo_flags,
    ) + encode_server_entries(o.server)
}

/// The JSON object of a map of strings.
fn str_map_to_json(m: &StrMap<String>) -> (r: Json)
    ensures
        r@ == str_map_json(str_map_view(*m)),
{
    let n = m.len();
    let ghost es = m.spec_entries();
    let mut out: StrMap<Json> = StrMap::new();
    let mut i: usize = 0;
    proof {
        assert(view_values(out@) =~= crate::json::entries_map(es.subrange(0, 0)).map_values(
            |s: String| JsonV::Str(s@),
        ));
    }
    while i < n
        invariant
            n == es.len(),
            es == m.spec_entries(),
            0 <= i <= n,
            view_values(out@) == crate::json::entries_map(es.subrange(0, i as int)).map_values(
                |s: String| JsonV::Str(s@),
            ),
        decreases n - i,
    {
        let (k, v) = m.entry(i);
        let ghost before = crate::json::entries_map(es.subrange(0, i as int));
        assert(es.subrange(0, i + 1).drop_last() =~= es.subrange(0, i as int));
        let j = Json::Str(v.clone());
        proof {
            crate::json::lemma_view_values_insert_pub(out@, k@, j);
        }
        out.insert(k.clone(), j);
        proof {
            assert(view_values(out@) =~= before.insert(k@, *v).map_values(|s: String| JsonV::Str(s@)));
        }
        i = i + 1;
    }
    proof {
        assert(es.subrange(0, n as int) =~= es);
        lemma_object_view(out);
        assert(view_values(out@) =~= str_map_view(*m).map_values(|s: Seq<char>| JsonV::Str(s)));
    }
    Json::Object(out)
}

/// The JSON array of a list of strings.
fn str_vec_to_json(v: &Vec<String>) -> (r: Json)
    ensures
        r@ == str_seq_json(v@.map_values(|s: String| s@)),
{
    let n = v.len();
    let mut out: Vec<Json> = Vec::new();
    let mut i: usize = 0;
    while i < n
        invariant
            n == v@.len(),
            0 <= i <= n,
            out@.len() == i,
            forall|j: int| 0 <= j < i ==> (#[trigger] out@[j])@ == JsonV::Str(v@[j]@),
        decreases n - i,
    {
        out.push(Json::Str(v[i].clone()));
        i = i + 1;
    }
    proof {
        lemma_array_view(out);
        assert(out@.map_values(|j: Json| j@) =~= v@.map_values(|s: String| s@).map_values(
            |x: Seq<char>| JsonV::Str(x),
        ));
    }
    Json::Array(out)
}

/// The JSON array of the strings of a set, in increasing order.
fn str_set_to_json(m: &StrSet) -> (r: Json)
    ensures
        r@ == str_seq_json(sorted_elems(str_set_view(*m))),
{
    let n = m.len();
    let ghost es = m.spec_entries();
    let mut keys: Vec<String> = Vec::new();
    let mut i: usize = 0;
    while i < n
        invariant
            n == es.len(),
            es == m.spec_entries(),
            0 <= i <= n,
            keys@.len() == i,
            forall|j: int| 0 <= j < i ==> (#[trigger] keys@[j])@ == es[j].0@,
        decreases n - i,
    {
        let (k, _) = m.entry(i);
        keys.push(k.clone());
        i = i + 1;
    }
    proof {
        let ks = keys@.map_values(|s: String| s@);
        assert(ks =~= entry_keys(es));
        lemma_entries_map(es);
        assert(increasing_keys(ks)) by {
            assert forall|a: int, b: int| 0 <= a < b < ks.len() implies crate::strs::lex_lt(
                #[trigger] ks[a],
                #[trigger] ks[b],
            ) by {
                assert(ks[a] == es[a].0@ && ks[b] == es[b].0@);
            }
        }
        assert forall|k: Seq<char>| #[trigger] str_set_view(*m).contains(k) <==> ks.contains(k) by {
            if ks.contains(k) {
                let a = choose|a: int| 0 <= a < ks.len() && ks[a] == k;
                assert(es[a].0@ == k);
                assert(has_key(es, k));
            }
            if has_key(es, k) {
                let a = choose|a: int| 0 <= a < es.len() && #[trigger] es[a].0@ == k;
                assert(ks[a] == k);
            }
        }
        let q = sorted_elems(str_set_view(*m));
        assert(increasing_keys(q) && forall|k: Seq<char>| #[trigger] str_set_view(*m).contains(k) <==> q.contains(k));
        assert forall|k: Seq<char>| q.contains(k) <==> ks.contains(k) by {
            assert(str_set_view(*m).contains(k) <==> q.contains(k));
            assert(str_set_view(*m).contains(k) <==> ks.contains(k));
        }
        crate::json::lemma_increasing_unique(q, ks);
    }
    str_vec_to_json(&keys)
}

/// Makes one JSON entry.
fn entry(key: &str, value: Json) -> (r: Vec<(String, Json)>)
    ensures
        entries_view(r@) == seq![(key@, value@)],
{
    let mut r: Vec<(String, Json)> = Vec::new();
    r.push((owned(key), value));
    assert(entries_view(r@) =~= seq![(key@, value@)]);
    r
}

/// Appends `more` to `out`.
fn append_entries(out: &mut Vec<(String, Json)>, more: Vec<(String, Json)>)
    ensures
        entries_view(final(out)@) == entries_view(old(out)@) + entries_view(more@),
{
    let mut more = more;
    let ghost m0 = more@;
    out.append(&mut more);
    assert(entries_view(out@) =~= entries_view(old(out)@) + entries_view(m0));
}

/// The JSON entries of a group of flags, as a list.
fn flag_json_entries<const G: u8>(f: &FlagSet<G>) -> (r: Vec<(String, Json)>)
    ensures
        entries_view(r@) == flag_entries(G, f@),
{
    let r = f.to_json_entries();
    assert(entries_view(r@) =~= flag_entries(G, f@));
    r
}

/// The JSON object that a list of entries builds, later entries winning.
pub fn object_of_entries(es: Vec<(String, Json)>) -> (r: Json)
    ensures
        r@ == JsonV::Object(pairs_map(entries_view(es@))),
{
    let ghost ev = entries_view(es@);
    let n = es.len();
    let mut out: StrMap<Json> = StrMap::new();
    let mut i: usize = 0;
    proof {
        assert(ev.subrange(0, 0).len() == 0);
        assert(view_values(out@) =~= Map::empty());
    }
    while i < n
        invariant
            n == es@.len(),
            ev == entries_view(es@),
            0 <= i <= n,
            view_values(out@) == pairs_map(ev.subrange(0, i as int)),
        decreases n - i,
    {
        let (k, v) = (&es[i].0, &es[i].1);
        assert(ev.subrange(0, i + 1).drop_last() =~= ev.subrange(0, i as int));
        assert(ev[i as int] == (k@, v@));
        let v2 = v.deep_clone();
        proof {
            crate::json::lemma_view_values_insert_pub(out@, k@, v2);
        }
        out.insert(k.clone(), v2);
        i = i + 1;
    }
    proof {
        assert(ev.subrange(0, n as int) =~= ev);
        lemma_object_view(out);
    }
    Json::Object(out)
}

impl Hhvm {
    /// The JSON entries of the options of `hhvm.`, in the order of the fields.
    pub fn to_json_entries(&self) -> (r: Vec<(String, Json)>)
        ensures
            entries_view(r@) == encode_hhvm_entries(self@),
    {
        let mut r = entry("hhvm.aliased_namespaces", arg_json_of(str_map_to_json(self.aliased_namespaces.get())));
        append_entries(&mut r, entry("hhvm.dynamic_invoke_functions", arg_json_of(str_set_to_json(self.dynamic_invoke_functions.get()))));
        append_entries(&mut r, entry("hhvm.include_roots", arg_json_of(str_map_to_json(self.include_roots.get()))));
        append_entries(&mut r, flag_json_entries(&self.flags));
        append_entries(&mut r, flag_json_entries(&self.hack_lang_flags));
        proof {
            assert(entries_view(r@) =~= encode_hhvm_entries(self@));
        }
        r
    }

    /// The JSON object of the options of `hhvm.`, which reads back as them.
    pub fn to_json(&self) -> (r: Json)
        ensures
            r@ == JsonV::Object(pairs_map(encode_hhvm_entries(self@))),
            decode_hhvm(r@) == Some(self@),
    {
        proof {
            use_type_invariant(&self.flags);
            use_type_invariant(&self.hack_lang_flags);
            lemma_str_map_finite(self.aliased_namespaces@);
            lemma_str_set_finite(self.dynamic_invoke_functions@);
            lemma_str_map_finite(self.include_roots@);
            lemma_hhvm_round_trip(self@);
        }
        object_of_entries(self.to_json_entries())
    }
}

impl Options {
    /// The JSON entries of all the options, in the order of the fields: the
    /// order in which they are written out.
    pub fn to_json_entries(&self) -> (r: Vec<(String, Json)>)
        ensures
            entries_view(r@) == encode_options_entries(self@),
    {
        let mut r = entry("doc_root", arg_json_of(Json::Str(self.doc_root.get().clone())));
        append_entries(&mut r, flag_json_entries(&self.eval_flags));
        append_entries(&mut r, flag_json_entries(&self.hack_compiler_flags));
        append_entries(&mut r, self.hhvm.to_json_entries());
        append_entries(&mut r, entry("max_array_elem_size_on_the_stack", arg_json_of(Json::Int(*self.max_array_elem_size_on_the_stack.get() as i128))));
        append_entries(&mut r, flag_json_entries(&self.phpism_flags));
        append_entries(&mut r, flag_json_entries(&self.php7_flags));
        append_entries(&mut r, flag_json_entries(&self.repo_flags));
        append_entries(&mut r, entry("hhvm.server.include_search_paths", arg_json_of(str_vec_to_json(self.server.include_search_paths.get()))));
        proof {
            assert(entries_view(r@) =~= encode_options_entries(self@));
        }
        r
    }

    /// The JSON object of all the options, which reads back as them.
    pub fn to_json(&self) -> (r: Json)
        ensures
            r@ == JsonV::Object(pairs_map(encode_options_entries(self@))),
            decode_options(r@) == Some(self@),
    {
        proof {
            use_type_invariant(&self.hhvm.flags);
            use_type_invariant(&self.hhvm.hack_lang_flags);
            lemma_str_map_finite(self.hhvm.aliased_namespaces@);
            lemma_str_set_finite(self.hhvm.dynamic_invoke_functions@);
            lemma_str_map_finite(self.hhvm.include_roots@);
            use_type_invariant(&self.eval_flags);
            use_type_invariant(&self.hack_compiler_flags);
            use_type_invariant(&self.phpism_flags);
            use_type_invariant(&self.php7_flags);
            use_type_invariant(&self.repo_flags);
            lemma_options_round_trip(self@);
        }
        object_of_entries(self.to_json_entries())
    }
}

} // verus!
