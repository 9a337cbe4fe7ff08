//! Command-line overrides: the short names by which options may be given,
//! how a `key=value` argument becomes JSON, and the table of aliases.
use vstd::prelude::*;
use crate::strs::{
    join_with, lemma_split_join, pieces_without,
    assoc_find, assoc_lookup, concat, find_char, first_index_of, owned, slice, split_char, split_on,
    str_eq, table_view,
};
use crate::json::{lemma_array_view, lemma_object_view, view_values, Json, JsonV, StrMap};
use crate::flags::{arg_json, arg_json_of};
use crate::flag_keys::lemma_arg_keys;

verus! {

/// The other names under which options are accepted, each with the canonical
/// JSON key that it stands for.
pub open spec fn alias_table() -> Seq<(Seq<char>, &'static str)> {
    seq![
        ("eval.disassemblersourcemapping"@, "eval.disassembler_source_mapping"),
        ("hack.compiler.constantfolding"@, "hack.compiler.constant_folding"),
        ("hack.compiler.optimizenullchecks"@, "hack.compiler.optimize_null_checks"),
        ("hack.compiler.relabel"@, "hack.compiler.relabel"),
        ("eval.arrayprovenance"@, "hhvm.array_provenance"),
        ("eval.emitclsmethpointers"@, "hhvm.emit_cls_meth_pointers"),
        ("eval.emitfuncpointers"@, "hhvm.emit_func_pointers"),
        ("eval.emitinstmethpointers"@, "hhvm.emit_inst_meth_pointers"),
        ("eval.emitmethcallerfuncpointers"@, "hhvm.emit_meth_caller_func_pointers"),
        ("eval.enableintrinsicsextension"@, "hhvm.enable_intrinsics_extension"),
        ("eval.enforcegenericsub"@, "hhvm.enforce_generics_ub"),
        ("eval.logexterncompilerperf"@, "hhvm.log_extern_compiler_perf"),
        ("eval.jitenablerenamefunction"@, "hhvm.jit_enable_rename_function"),
        ("eval.hackarrcompatnotices"@, "hhvm.hack_arr_compat_notices"),
        ("eval.hackarrdvarrs"@, "hhvm.hack_arr_dv_arrs"),
        ("eval.rxisenabled"@, "hhvm.rx_is_enabled"),
        ("hack.lang.abstractstaticprops"@, "hhvm.hack.lang.abstract_static_props"),
        ("hack.lang.allownewattributesyntax"@, "hhvm.hack.lang.allow_new_attribute_syntax"),
        ("hack.lang.checkintoverflow"@, "hhvm.hack.lang.check_int_overflow"),
        ("hack.lang.constdefaultfuncargs"@, "hhvm.hack.lang.const_default_func_args"),
        ("hack.lang.conststaticprops"@, "hhvm.hack.lang.const_static_props"),
        ("hack.lang.disablelegacyattributesyntax"@, "hhvm.hack.lang.disable_legacy_attribute_syntax"),
        ("hack.lang.disablelegacysofttypehints"@, "hhvm.hack.lang.disable_legacy_soft_typehints"),
        ("hack.lang.disablelvalasanexpression"@, "hhvm.hack.lang.disable_lval_as_an_expression"),
        ("hack.lang.disableunsetclassconst"@, "hhvm.hack.lang.disable_unset_class_const"),
        ("hack.lang.disallowfuncptrsinconstants"@, "hhvm.hack.lang.disallow_func_ptrs_in_constants"),
        ("hack.lang.enableclasslevelwhereclauses"@, "hhvm.hack.lang.enable_class_level_where_clauses"),
        ("hack.lang.enablecoroutines"@, "hhvm.hack.lang.enable_coroutines"),
        ("hack.lang.enablepocketuniverses"@, "hhvm.hack.lang.enable_pocket_universes"),
        ("hack.lang.enablexhpclassmodifier"@, "hhvm.hack.lang.enable_xhp_class_modifier"),
        ("hack.lang.hacksperimental"@, "hhvm.hack.lang.hacksperimental"),
        ("hack.lang.phpism.disallowexecutionoperator"@, "hhvm.hack.lang.phpism.disallow_execution_operator"),
        ("hack.lang.phpism.disablenontopleveldeclarations"@, "hhvm.hack.lang.phpism.disable_nontoplevel_declarations"),
        ("hack.lang.phpism.disablestaticclosures"@, "hhvm.hack.lang.phpism.disable_static_closures"),
        ("hack.lang.phpism.disablehaltcompiler"@, "hhvm.hack.lang.phpism.disable_halt_compiler"),
        ("php7.ltrassign"@, "hhvm.php7.ltr_assign"),
        ("php7.uvs"@, "hhvm.php7.uvs"),
        ("repo.authoritative"@, "hhvm.repo.authoritative"),
    ]
}

fn alias_table_exec() -> (r: Vec<(&'static str, &'static str)>)
    ensures
        table_view(r@) == alias_table(),
{
    let r = vec![
        ("eval.disassemblersourcemapping", "eval.disassembler_source_mapping"),
        ("hack.compiler.constantfolding", "hack.compiler.constant_folding"),
        ("hack.compiler.optimizenullchecks", "hack.compiler.optimize_null_checks"),
        ("hack.compiler.relabel", "hack.compiler.relabel"),
        ("eval.arrayprovenance", "hhvm.array_provenance"),
        ("eval.emitclsmethpointers", "hhvm.emit_cls_meth_pointers"),
        ("eval.emitfuncpointers", "hhvm.emit_func_pointers"),
        ("eval.emitinstmethpointers", "hhvm.emit_inst_meth_pointers"),
        ("eval.emitmethcallerfuncpointers", "hhvm.emit_meth_caller_func_pointers"),
        ("eval.enableintrinsicsextension", "hhvm.enable_intrinsics_extension"),
        ("eval.enforcegenericsub", "hhvm.enforce_generics_ub"),
        ("eval.logexterncompilerperf", "hhvm.log_extern_compiler_perf"),
        ("eval.jitenablerenamefunction", "hhvm.jit_enable_rename_function"),
        ("eval.hackarrcompatnotices", "hhvm.hack_arr_compat_notices"),
        ("eval.hackarrdvarrs", "hhvm.hack_arr_dv_arrs"),
        ("eval.rxisenabled", "hhvm.rx_is_enabled"),
        ("hack.lang.abstractstaticprops", "hhvm.hack.lang.abstract_static_props"),
        ("hack.lang.allownewattributesyntax", "hhvm.hack.lang.allow_new_attribute_syntax"),
        ("hack.lang.checkintoverflow", "hhvm.hack.lang.check_int_overflow"),
        ("hack.lang.constdefaultfuncargs", "hhvm.hack.lang.const_default_func_args"),
        ("hack.lang.conststaticprops", "hhvm.hack.lang.const_static_props"),
        ("hack.lang.disablelegacyattributesyntax", "hhvm.hack.lang.disable_legacy_attribute_syntax"),
        ("hack.lang.disablelegacysofttypehints", "hhvm.hack.lang.disable_legacy_soft_typehints"),
        ("hack.lang.disablelvalasanexpression", "hhvm.hack.lang.disable_lval_as_an_expression"),
        ("hack.lang.disableunsetclassconst", "hhvm.hack.lang.disable_unset_class_const"),
        ("hack.lang.disallowfuncptrsinconstants", "hhvm.hack.lang.disallow_func_ptrs_in_constants"),
        ("hack.lang.enableclasslevelwhereclauses", "hhvm.hack.lang.enable_class_level_where_clauses"),
        ("hack.lang.enablecoroutines", "hhvm.hack.lang.enable_coroutines"),
        ("hack.lang.enablepocketuniverses", "hhvm.hack.lang.enable_pocket_universes"),
        ("hack.lang.enablexhpclassmodifier", "hhvm.hack.lang.enable_xhp_class_modifier"),
        ("hack.lang.hacksperimental", "hhvm.hack.lang.hacksperimental"),
        ("hack.lang.phpism.disallowexecutionoperator", "hhvm.hack.lang.phpism.disallow_execution_operator"),
        ("hack.lang.phpism.disablenontopleveldeclarations", "hhvm.hack.lang.phpism.disable_nontoplevel_declarations"),
        ("hack.lang.phpism.disablestaticclosures", "hhvm.hack.lang.phpism.disable_static_closures"),
        ("hack.lang.phpism.disablehaltcompiler", "hhvm.hack.lang.phpism.disable_halt_compiler"),
        ("php7.ltrassign", "hhvm.php7.ltr_assign"),
        ("php7.uvs", "hhvm.php7.uvs"),
        ("repo.authoritative", "hhvm.repo.authoritative"),
    ];
    assert(table_view(r@) =~= alias_table());
    r
}

/// The canonical key of `k`: what the alias table maps it to, or `k` itself.
pub open spec fn canonical_key_spec(k: Seq<char>) -> Seq<char> {
    match assoc_lookup(alias_table(), k) {
        Some(c) => c@,
        None => k,
    }
}

/// The canonical key of `k`.
pub fn canonical_key(k: &str) -> (r: String)
    ensures
        r@ == canonical_key_spec(k@),
{
    let t = alias_table_exec();
    match assoc_find(&t, k) {
        Some(c) => owned(c),
        None => owned(k),
    }
}

} // verus!

verus! {

/// The map that the pieces `k:v` give, later pieces winning; `None` if a piece has no `:`.
pub open spec fn pairs_json(pieces: Seq<Seq<char>>) -> Option<Map<Seq<char>, JsonV>>
    decreases pieces.len(),
{
    if pieces.len() == 0 {
        Some(Map::empty())
    } else {
        match pairs_json(pieces.drop_last()) {
            Some(m) => {
                let last = pieces.last();
                match first_index_of(last, ':') {
                    Some(i) => Some(
                        m.insert(
                            last.subrange(0, i),
                            JsonV::Str(last.subrange(i + 1, last.len() as int)),
                        ),
                    ),
                    None => None,
                }
            },
            None => None,
        }
    }
}

/// The JSON that the value `val` of a command-line argument with canonical key
/// `key` stands for: the maps of strings take `k:v` pairs separated by commas,
/// the lists of strings take items separated by commas, and every other
/// option takes the string itself.
pub open spec fn cli_value_spec(key: Seq<char>, val: Seq<char>) -> Option<JsonV> {
    if key == "hhvm.aliased_namespaces"@ || key == "hhvm.include_roots"@ {
        match pairs_json(split_on(val, ',')) {
            Some(m) => Some(JsonV::Object(m)),
            None => None,
        }
    } else if key == "hhvm.dynamic_invoke_functions"@ || key == "hhvm.server.include_search_paths"@ {
        Some(JsonV::Array(split_on(val, ',').map_values(|p: Seq<char>| JsonV::Str(p))))
    } else {
        Some(JsonV::Str(val))
    }
}

/// A list option given on the command line as pieces without commas, joined
/// by commas, is the JSON array of exactly those pieces, in their order.
pub proof fn lemma_cli_list_value(key: Seq<char>, xs: Seq<Seq<char>>)
    requires
        key == "hhvm.dynamic_invoke_functions"@ || key == "hhvm.server.include_search_paths"@,
        xs.len() >= 1,
        pieces_without(xs, ','),
    ensures
        cli_value_spec(key, join_with(xs, ',')) == Some(
            JsonV::Array(xs.map_values(|x: Seq<char>| JsonV::Str(x))),
        ),
{
    lemma_arg_keys();
    lemma_split_join(xs, ',');
}

/// The pieces `k:v` of the keys `ks` and the values `vs`.
pub open spec fn kv_pieces(ks: Seq<Seq<char>>, vs: Seq<Seq<char>>) -> Seq<Seq<char>> {
    Seq::new(ks.len(), |i: int| ks[i] + seq![':'] + vs[i])
}

/// Keys without `:` or `,`, distinct, and values without `,`.
pub open spec fn kv_shape(ks: Seq<Seq<char>>, vs: Seq<Seq<char>>) -> bool {
    &&& ks.len() == vs.len()
    &&& forall|i: int, j: int| 0 <= i < ks.len() && 0 <= j < ks[i].len() ==> ks[i][j] != ':' && ks[i][j] != ','
    &&& forall|i: int, j: int| 0 <= i < vs.len() && 0 <= j < vs[i].len() ==> vs[i][j] != ','
    &&& forall|i: int, j: int| 0 <= i < j < ks.len() ==> ks[i] != ks[j]
}

proof fn lemma_kv_shape_prefix(ks: Seq<Seq<char>>, vs: Seq<Seq<char>>)
    requires
        kv_shape(ks, vs),
        ks.len() > 0,
    ensures
        kv_shape(ks.drop_last(), vs.drop_last()),
{
    let a = ks.drop_last();
    let b = vs.drop_last();
    assert forall|i: int, j: int| 0 <= i < a.len() && 0 <= j < a[i].len() implies a[i][j] != ':' && a[i][j] != ',' by {
        assert(a[i] == ks[i]);
    }
    assert forall|i: int, j: int| 0 <= i < b.len() && 0 <= j < b[i].len() implies b[i][j] != ',' by {
        assert(b[i] == vs[i]);
    }
    assert forall|i: int, j: int| 0 <= i < j < a.len() implies a[i] != a[j] by {
        assert(a[i] == ks[i] && a[j] == ks[j]);
    }
}

/// The pieces `k:v` read as pairs give the map of each key to its value.
proof fn lemma_pairs_json_of_pieces(ks: Seq<Seq<char>>, vs: Seq<Seq<char>>)
    requires
        kv_shape(ks, vs),
    ensures
        pairs_json(kv_pieces(ks, vs)) is Some,
        forall|x: Seq<char>| #[trigger] pairs_json(kv_pieces(ks, vs))->Some_0.contains_key(x) <==> ks.contains(x),
        forall|i: int| 0 <= i < ks.len() ==> pairs_json(kv_pieces(ks, vs))->Some_0[#[trigger] ks[i]] == JsonV::Str(vs[i]),
    decreases ks.len(),
{
    let ps = kv_pieces(ks, vs);
    if ks.len() > 0 {
        let n = ks.len() - 1;
        lemma_kv_shape_prefix(ks, vs);
        lemma_pairs_json_of_pieces(ks.drop_last(), vs.drop_last());
        assert(ps.drop_last() =~= kv_pieces(ks.drop_last(), vs.drop_last()));
        let m0 = pairs_json(ps.drop_last())->Some_0;
        let last = ps.last();
        let kl = ks[n];
        let vl = vs[n];
        assert(last == kl + seq![':'] + vl);
        let c = kl.len() as int;
        assert(last[c] == ':');
        assert(forall|j: int| 0 <= j < c ==> last[j] == kl[j] && kl[j] != ':');
        let i0 = first_index_of(last, ':')->Some_0;
        assert(first_index_of(last, ':') is Some);
        if i0 < c {
            assert(last[i0] == kl[i0]);
        }
        assert(i0 == c);
        assert(last.subrange(0, c) =~= kl);
        assert(last.subrange(c + 1, last.len() as int) =~= vl);
        let m = pairs_json(ps)->Some_0;
        assert(m == m0.insert(kl, JsonV::Str(vl)));
        assert forall|x: Seq<char>| #[trigger] m.contains_key(x) <==> ks.contains(x) by {
            if ks.contains(x) {
                let j = choose|j: int| 0 <= j < ks.len() && ks[j] == x;
                if j < n {
                    assert(ks.drop_last()[j] == x);
                }
            }
            if m0.contains_key(x) {
                let j = choose|j: int| 0 <= j < ks.drop_last().len() && ks.drop_last()[j] == x;
                assert(ks[j] == x);
            }
        }
        assert forall|i: int| 0 <= i < ks.len() implies m[#[trigger] ks[i]] == JsonV::Str(vs[i]) by {
            if i < n {
                assert(ks.drop_last()[i] == ks[i]);
                assert(vs.drop_last()[i] == vs[i]);
                assert(ks[i] != ks[n]);
            }
        }
    }
}

/// A map option given on the command line as pieces `k:v` joined by commas,
/// where the keys hold no `:` or `,` and are distinct and the values hold no
/// `,`, is the JSON object that maps each key to its value and nothing else.
pub proof fn lemma_cli_map_value(key: Seq<char>, ks: Seq<Seq<char>>, vs: Seq<Seq<char>>)
    requires
        key == "hhvm.aliased_namespaces"@ || key == "hhvm.include_roots"@,
        ks.len() >= 1,
        kv_shape(ks, vs),
    ensures
        cli_value_spec(key, join_with(kv_pieces(ks, vs), ',')) matches Some(JsonV::Object(m)) && (
        forall|x: Seq<char>| #[trigger] m.contains_key(x) <==> ks.contains(x)) && (forall|i: int|
            0 <= i < ks.len() ==> m[#[trigger] ks[i]] == JsonV::Str(vs[i])),
{
    let ps = kv_pieces(ks, vs);
    assert(pieces_without(ps, ',')) by {
        assert forall|i: int, j: int| 0 <= i < ps.len() && 0 <= j < ps[i].len() implies ps[i][j] != ',' by {
            assert(ps[i] == ks[i] + seq![':'] + vs[i]);
            if j < ks[i].len() {
            } else if j == ks[i].len() {
            } else {
                assert(ps[i][j] == vs[i][j - ks[i].len() - 1]);
            }
        }
    }
    lemma_split_join(ps, ',');
    lemma_pairs_json_of_pieces(ks, vs);
}

/// The entry that one command-line argument `key=value` gives, or the message
/// of its error.
pub open spec fn cli_entry(arg: Seq<char>) -> Result<(Seq<char>, JsonV), Seq<char>> {
    match first_index_of(arg, '=') {
        None => Err("Missing '=' key-value separator in: "@ + arg),
        Some(i) => {
            let key = canonical_key_spec(arg.subrange(0, i));
            match cli_value_spec(key, arg.subrange(i + 1, arg.len() as int)) {
                Some(v) => Ok((key, arg_json(v))),
                None => Err("Invalid format for CLI arg key: "@ + key),
            }
        },
    }
}

/// The JSON object that command-line arguments give: one entry per argument,
/// later arguments winning; or the error of the first argument that fails.
pub open spec fn cli_json(args: Seq<Seq<char>>) -> Result<Map<Seq<char>, JsonV>, Seq<char>>
    decreases args.len(),
{
    if args.len() == 0 {
        Ok(Map::empty())
    } else {
        match cli_json(args.drop_last()) {
            Ok(m) => match cli_entry(args.last()) {
                Ok(e) => Ok(m.insert(e.0, e.1)),
                Err(e) => Err(e),
            },
            Err(e) => Err(e),
        }
    }
}

/// The map of `k:v` pairs that `val` lists, separated by commas.
fn parse_pairs(val: &str) -> (r: Option<StrMap<Json>>)
    ensures
        match pairs_json(split_on(val@, ',')) {
            Some(m) => r matches Some(o) && view_values(o@) == m,
            None => r is None,
        },
{
    let pieces = split_char(val, ',');
    let ghost ps = split_on(val@, ',');
    let n = pieces.len();
    let mut out: StrMap<Json> = StrMap::new();
    let mut i: usize = 0;
    proof {
        assert(ps.subrange(0, 0).len() == 0);
        assert(view_values(out@) =~= Map::empty());
    }
    while i < n
        invariant
            n == pieces@.len(),
            n == ps.len(),
            ps == split_on(val@, ','),
            forall|k: int| 0 <= k < n ==> #[trigger] pieces@[k]@ == ps[k],
            0 <= i <= n,
            pairs_json(ps.subrange(0, i as int)) == Some(view_values(out@)),
        decreases n - i,
    {
        let piece = &pieces[i];
        let ghost sub = ps.subrange(0, i + 1);
        assert(sub.drop_last() =~= ps.subrange(0, i as int));
        assert(sub.last() == piece@);
        match find_char(piece.as_str(), ':') {
            Some(c) => {
                let len = piece.as_str().unicode_len();
                let k = slice(piece.as_str(), 0, c);
                let v = slice(piece.as_str(), c + 1, len);
                let ghost vv = Json::Str(v);
                proof {
                    crate::json::lemma_view_values_insert_pub(out@, k@, vv);
                }
                out.insert(k, Json::Str(v));
            },
            None => {
                proof {
                    lemma_pairs_none_extends(ps, i + 1);
                    assert(ps.subrange(0, n as int) =~= ps);
                }
                return None;
            },
        }
        i = i + 1;
    }
    assert(ps.subrange(0, n as int) =~= ps);
    Some(out)
}

proof fn lemma_pairs_none_extends(ps: Seq<Seq<char>>, i: int)
    requires
        0 <= i <= ps.len(),
        pairs_json(ps.subrange(0, i)) is None,
    ensures
        pairs_json(ps) is None,
    decreases ps.len(),
{
    if i == ps.len() {
        assert(ps.subrange(0, i) =~= ps);
    } else {
        assert(ps.drop_last().subrange(0, i) =~= ps.subrange(0, i));
        lemma_pairs_none_extends(ps.drop_last(), i);
    }
}

/// The JSON that the value `val` of the argument with canonical key `key` stands for.
pub fn cli_value(key: &str, val: &str) -> (r: Option<Json>)
    ensures
        match cli_value_spec(key@, val@) {
            Some(v) => r matches Some(j) && j@ == v,
            None => r is None,
        },
{
    if str_eq(key, "hhvm.aliased_namespaces") || str_eq(key, "hhvm.include_roots") {
        match parse_pairs(val) {
            Some(m) => {
                proof {
                    lemma_object_view(m);
                }
                Some(Json::Object(m))
            },
            None => None,
        }
    } else if str_eq(key, "hhvm.dynamic_invoke_functions") || str_eq(
        key,
        "hhvm.server.include_search_paths",
    ) {
        let pieces = split_char(val, ',');
        let ghost ps = split_on(val@, ',');
        let n = pieces.len();
        let mut items: Vec<Json> = Vec::new();
        let mut i: usize = 0;
        while i < n
            invariant
                n == pieces@.len(),
                n == ps.len(),
                forall|k: int| 0 <= k < n ==> #[trigger] pieces@[k]@ == ps[k],
                0 <= i <= n,
                items@.len() == i,
                forall|k: int| 0 <= k < i ==> (#[trigger] items@[k])@ == JsonV::Str(ps[k]),
            decreases n - i,
        {
            items.push(Json::Str(pieces[i].clone()));
            i = i + 1;
        }
        proof {
            lemma_array_view(items);
            assert(items@.map_values(|j: Json| j@) =~= ps.map_values(|p: Seq<char>| JsonV::Str(p)));
        }
        Some(Json::Array(items))
    } else {
        Some(Json::Str(owned(val)))
    }
}

/// The entry that one command-line argument gives.
pub fn cli_entry_of(arg: &str) -> (r: Result<(String, Json), String>)
    ensures
        match cli_entry(arg@) {
            Ok(e) => r matches Ok(p) && p.0@ == e.0 && p.1@ == e.1,
            Err(m) => r matches Err(s) && s@ == m,
        },
{
    match find_char(arg, '=') {
        None => Err(concat("Missing '=' key-value separator in: ", arg)),
        Some(pos) => {
            let len = arg.unicode_len();
            let raw_key = slice(arg, 0, pos);
            let key = canonical_key(raw_key.as_str());
            let val = slice(arg, pos + 1, len);
            match cli_value(key.as_str(), val.as_str()) {
                Some(v) => Ok((key, arg_json_of(v))),
                None => Err(concat("Invalid format for CLI arg key: ", key.as_str())),
            }
        },
    }
}

/// The JSON object that command-line arguments `key=value` give: each key is
/// put in its canonical form, and its value is wrapped as an option's JSON.
pub fn cli_args_to_json(args: &[&str]) -> (r: Result<Json, String>)
    ensures
        match cli_json(args@.map_values(|a: &str| a@)) {
            Ok(m) => r matches Ok(j) && j@ == JsonV::Object(m),
            Err(e) => r matches Err(s) && s@ == e,
        },
{
    let ghost av = args@.map_values(|a: &str| a@);
    let n = args.len();
    let mut out: StrMap<Json> = StrMap::new();
    let mut i: usize = 0;
    proof {
        assert(av.subrange(0, 0).len() == 0);
        assert(view_values(out@) =~= Map::empty());
    }
    while i < n
        invariant
            n == args@.len(),
            av == args@.map_values(|a: &str| a@),
            0 <= i <= n,
            cli_json(av.subrange(0, i as int)) == Ok::<Map<Seq<char>, JsonV>, Seq<char>>(view_values(out@)),
        decreases n - i,
    {
        let arg = args[i];
        let ghost sub = av.subrange(0, i + 1);
        assert(sub.drop_last() =~= av.subrange(0, i as int));
        assert(sub.last() == arg@);
        match cli_entry_of(arg) {
            Ok((k, v)) => {
                proof {
                    crate::json::lemma_view_values_insert_pub(out@, k@, v);
                }
                out.insert(k, v);
            },
            Err(e) => {
                proof {
                    lemma_cli_err_extends(av, i + 1);
                    assert(av.subrange(0, n as int) =~= av);
                }
                return Err(e);
            },
        }
        i = i + 1;
    }
    proof {
        assert(av.subrange(0, n as int) =~= av);
        lemma_object_view(out);
    }
    Ok(Json::Object(out))
}

proof fn lemma_cli_err_extends(args: Seq<Seq<char>>, i: int)
    requires
        0 <= i <= args.len(),
        cli_json(args.subrange(0, i)) is Err,
    ensures
        cli_json(args) == cli_json(args.subrange(0, i)),
    decreases args.len(),
{
    if i == args.len() {
        assert(args.subrange(0, i) =~= args);
    } else {
        assert(args.drop_last().subrange(0, i) =~= args.subrange(0, i));
        lemma_cli_err_extends(args.drop_last(), i);
    }
}

} // verus!
