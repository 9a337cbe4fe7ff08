//! Reading back what is written: the JSON object that `to_json` builds from
//! options reads back, by `from_value`, as the same options.
use vstd::prelude::*;
use crate::flags::{
    flag_entries, arg_json, arg_payload, bit_of, decode_flags_spec, entry_truth, flag_mask, flag_shift_of,
    flag_table, within, Truth, COMPILER, EVAL, HHVM, LANG, PHP7, PHPISM, REPO,
};
use crate::flag_keys::{
    flag_key, lemma_arg_bool_truth, lemma_arg_keys, lemma_decode_flags_exact,
    lemma_flag_entries_map, lemma_flag_key_not_arg, lemma_flag_keys_disjoint,
    lemma_flag_shift_other_group, lemma_pairs_map_distinct,
};
use crate::json::{lemma_entries_map, lemma_sorted_exists, JsonV, StrMap};
use crate::options::{
    decode_hhvm, decode_hhvm_map, decode_isize_arg, decode_options, decode_str_map_arg,
    decode_str_set_arg, decode_str_vec_arg, decode_string_arg, encode_hhvm_entries,
    encode_options_entries, hhvm_arg_keys, options_arg_keys, pairs_map, sorted_elems,
    str_map_json, str_seq_json, strs_of, without_keys, HhvmV, OptionsV, ServerV,
    decode_server_map, str_map_view, str_set_view, StrSet,
};

verus! {

/// What every value of [`crate::options::Hhvm`] satisfies: its groups of
/// flags hold only their own bits, and its maps and its set are finite.
pub open spec fn hhvm_wf(h: HhvmV) -> bool {
    &&& within(h.flags, flag_mask(HHVM))
    &&& within(h.hack_lang_flags, flag_mask(LANG))
    &&& h.aliased_namespaces.dom().finite()
    &&& h.dynamic_invoke_functions.finite()
    &&& h.include_roots.dom().finite()
}

/// What every value of [`crate::options::Options`] satisfies: its groups of
/// flags hold only their own bits, its maps and sets are finite, and the size
/// limit fits in an `isize`.
pub open spec fn options_wf(o: OptionsV) -> bool {
    &&& hhvm_wf(o.hhvm)
    &&& within(o.eval_flags, flag_mask(EVAL))
    &&& within(o.hack_compiler_flags, flag_mask(COMPILER))
    &&& within(o.phpism_flags, flag_mask(PHPISM))
    &&& within(o.php7_flags, flag_mask(PHP7))
    &&& within(o.repo_flags, flag_mask(REPO))
    &&& isize::MIN <= o.max_array_elem_size_on_the_stack <= isize::MAX
}

/// The model of a map of strings is finite.
pub proof fn lemma_str_map_finite(m: StrMap<String>)
    ensures
        str_map_view(m).dom().finite(),
{
    lemma_entries_map(m.spec_entries());
    assert(str_map_view(m).dom() =~= m@.dom());
}

/// The model of a set of strings is finite.
pub proof fn lemma_str_set_finite(m: StrSet)
    ensures
        str_set_view(m).finite(),
{
    lemma_entries_map(m.spec_entries());
}

/// `k` is the key of a flag of group `g`.
pub open spec fn is_flag_key(g: u8, k: Seq<char>) -> bool {
    exists|i: int| 0 <= i < flag_table(g).len() && k == flag_key(g, i)
}

/// `m` holds, under the key of each flag of group `g`, whether `bits` has it on.
pub open spec fn holds_flags(m: Map<Seq<char>, JsonV>, g: u8, bits: u64) -> bool {
    forall|i: int|
        0 <= i < flag_table(g).len() ==> m.contains_key(#[trigger] flag_key(g, i)) && m[flag_key(
            g,
            i,
        )] == arg_json(JsonV::Bool(bit_of(bits, flag_table(g)[i].1)))
}

/// Every entry of `m` says nothing of flags, or is the key of a flag that it
/// turns on or off.
pub open spec fn flags_or_skipped(m: Map<Seq<char>, JsonV>) -> bool {
    forall|k: Seq<char>|
        #[trigger] m.contains_key(k) ==> entry_truth(m[k]) == Truth::Skip || ((entry_truth(m[k])
            == Truth::On || entry_truth(m[k]) == Truth::Off) && exists|g: u8| is_flag_key(g, k))
}

/// `k` is the key of one of the options that are not flags.
pub open spec fn is_arg_key(k: Seq<char>) -> bool {
    ||| k == "doc_root"@
    ||| k == "max_array_elem_size_on_the_stack"@
    ||| k == "hhvm.aliased_namespaces"@
    ||| k == "hhvm.dynamic_invoke_functions"@
    ||| k == "hhvm.include_roots"@
    ||| k == "hhvm.server.include_search_paths"@
}

/// The key of a flag is the key of no flag of another group.
proof fn lemma_not_flag_key_of(g: u8, i: int, g2: u8)
    requires
        g != g2,
        0 <= i < flag_table(g).len(),
    ensures
        !is_flag_key(g2, flag_key(g, i)),
{
    if is_flag_key(g2, flag_key(g, i)) {
        let j = choose|j: int| 0 <= j < flag_table(g2).len() && flag_key(g, i) == flag_key(g2, j);
        lemma_flag_keys_disjoint(g, i, g2, j);
    }
}

proof fn lemma_payload(v: JsonV)
    ensures
        arg_payload(arg_json(v)) == Some(v),
{
    let m = Map::<Seq<char>, JsonV>::empty().insert("global_value"@, v);
    assert(m.contains_key("global_value"@));
}

/// A string written as an option reads back as itself.
proof fn lemma_decode_string(s: Seq<char>)
    ensures
        decode_string_arg(arg_json(JsonV::Str(s))) == Some(s),
{
    lemma_payload(JsonV::Str(s));
}

/// An integer of `isize` written as an option reads back as itself.
proof fn lemma_decode_isize(n: int)
    requires
        isize::MIN <= n <= isize::MAX,
    ensures
        decode_isize_arg(arg_json(JsonV::Int(n))) == Some(n),
{
    lemma_payload(JsonV::Int(n));
}

/// A map of strings written as an option reads back as itself, and says nothing of flags.
proof fn lemma_decode_str_map(mp: Map<Seq<char>, Seq<char>>)
    ensures
        decode_str_map_arg(arg_json(str_map_json(mp))) == Some(mp),
        entry_truth(arg_json(str_map_json(mp))) == Truth::Skip,
{
    let j = mp.map_values(|s: Seq<char>| JsonV::Str(s));
    lemma_payload(JsonV::Object(j));
    assert(j.map_values(|x: JsonV| x->Str_0) =~= mp);
}

/// A list of strings written as an option reads back as itself, and says nothing of flags.
proof fn lemma_decode_str_seq(v: Seq<Seq<char>>)
    ensures
        decode_str_vec_arg(arg_json(str_seq_json(v))) == Some(v),
        entry_truth(arg_json(str_seq_json(v))) == Truth::Skip,
{
    let a = v.map_values(|x: Seq<char>| JsonV::Str(x));
    lemma_payload(JsonV::Array(a));
    assert(strs_of(a) =~= v);
}

/// A finite set of strings written as an option, in increasing order, reads
/// back as itself, and says nothing of flags.
proof fn lemma_decode_str_set(s: Set<Seq<char>>)
    requires
        s.finite(),
    ensures
        decode_str_set_arg(arg_json(str_seq_json(sorted_elems(s)))) == Some(s),
        entry_truth(arg_json(str_seq_json(sorted_elems(s)))) == Truth::Skip,
{
    let q = sorted_elems(s);
    lemma_sorted_exists(s);
    lemma_decode_str_seq(q);
    let a = q.map_values(|x: Seq<char>| JsonV::Str(x));
    lemma_payload(JsonV::Array(a));
    assert(strs_of(a) =~= q);
    assert(q.to_set() =~= s);
}

/// A list of entries builds a finite object.
proof fn lemma_pairs_map_finite(es: Seq<(Seq<char>, JsonV)>)
    ensures
        pairs_map(es).dom().finite(),
    decreases es.len(),
{
    if es.len() > 0 {
        lemma_pairs_map_finite(es.drop_last());
    }
}

/// The object that two lists of entries build together: the entries of the
/// second win.
proof fn lemma_pairs_map_add(a: Seq<(Seq<char>, JsonV)>, b: Seq<(Seq<char>, JsonV)>)
    ensures
        forall|k: Seq<char>|
            #[trigger] pairs_map(a + b).contains_key(k) <==> pairs_map(a).contains_key(k)
                || pairs_map(b).contains_key(k),
        forall|k: Seq<char>|
            #[trigger] pairs_map(a + b).contains_key(k) ==> pairs_map(a + b)[k] == if pairs_map(
                b,
            ).contains_key(k) {
                pairs_map(b)[k]
            } else {
                pairs_map(a)[k]
            },
    decreases b.len(),
{
    if b.len() == 0 {
        assert(a + b =~= a);
        assert(pairs_map(b) == Map::<Seq<char>, JsonV>::empty());
    } else {
        let b2 = b.drop_last();
        let l = b.last();
        assert((a + b).drop_last() =~= a + b2);
        assert((a + b).last() == l);
        lemma_pairs_map_add(a, b2);
        assert(pairs_map(a + b) == pairs_map(a + b2).insert(l.0, l.1));
        assert(pairs_map(b) == pairs_map(b2).insert(l.0, l.1));
        assert forall|k: Seq<char>| #[trigger] pairs_map(a + b).contains_key(k) <==> pairs_map(
            a,
        ).contains_key(k) || pairs_map(b).contains_key(k) by {
            if k != l.0 {
                assert(pairs_map(a + b2).contains_key(k) <==> pairs_map(a).contains_key(k)
                    || pairs_map(b2).contains_key(k));
            }
        }
        assert forall|k: Seq<char>| #[trigger] pairs_map(a + b).contains_key(k) implies pairs_map(
            a + b,
        )[k] == if pairs_map(b).contains_key(k) {
            pairs_map(b)[k]
        } else {
            pairs_map(a)[k]
        } by {
            if k != l.0 {
                assert(pairs_map(a + b2).contains_key(k));
            }
        }
    }
}

/// Reading a group of flags from an object that holds the key of each of its
/// flags, and otherwise only entries that say nothing of flags or are the keys
/// of flags, gives the bits of that group.
proof fn lemma_decode_group(g: u8, m: Map<Seq<char>, JsonV>, bits: u64)
    requires
        m.dom().finite(),
        within(bits, flag_mask(g)),
        holds_flags(m, g, bits),
        flags_or_skipped(m),
    ensures
        decode_flags_spec(g, m) == Some(bits),
{
    let t = flag_table(g);
    assert forall|i: int| 0 <= i < t.len() implies m.contains_key(#[trigger] flag_key(g, i))
        && entry_truth(m[flag_key(g, i)]) == if bit_of(bits, t[i].1) {
        Truth::On
    } else {
        Truth::Off
    } by {
        lemma_arg_bool_truth(bit_of(bits, t[i].1));
    }
    assert forall|k: Seq<char>|
        #[trigger] m.contains_key(k) && entry_truth(m[k]) != Truth::Skip && flag_shift_of(g, k)
            is Some implies exists|i: int| 0 <= i < t.len() && k == flag_key(g, i) by {
        let g2 = choose|g2: u8| is_flag_key(g2, k);
        let j = choose|j: int| 0 <= j < flag_table(g2).len() && k == flag_key(g2, j);
        if g2 != g {
            lemma_flag_shift_other_group(g, g2, j);
        }
    }
    lemma_decode_flags_exact(g, m, bits);
}

/// `m` without the keys `ks` keeps the other entries and stays finite.
proof fn lemma_without_keys(m: Map<Seq<char>, JsonV>, ks: Seq<Seq<char>>)
    requires
        m.dom().finite(),
    ensures
        without_keys(m, ks).dom().finite(),
        forall|k: Seq<char>|
            #[trigger] without_keys(m, ks).contains_key(k) <==> m.contains_key(k) && !ks.contains(
                k,
            ),
        forall|k: Seq<char>| #[trigger] without_keys(m, ks).contains_key(k) ==> without_keys(m, ks)[k] == m[k],
{
    assert(without_keys(m, ks).dom() =~= m.dom().difference(ks.to_set()));
}

/// Reading the options of `hhvm.` from an object that holds each of them,
/// and otherwise only entries that say nothing of flags or are the keys of
/// flags, gives those options.
proof fn lemma_decode_hhvm_map(m: Map<Seq<char>, JsonV>, h: HhvmV)
    requires
        hhvm_wf(h),
        m.dom().finite(),
        m.contains_key("hhvm.aliased_namespaces"@),
        m["hhvm.aliased_namespaces"@] == arg_json(str_map_json(h.aliased_namespaces)),
        m.contains_key("hhvm.dynamic_invoke_functions"@),
        m["hhvm.dynamic_invoke_functions"@] == arg_json(
            str_seq_json(sorted_elems(h.dynamic_invoke_functions)),
        ),
        m.contains_key("hhvm.include_roots"@),
        m["hhvm.include_roots"@] == arg_json(str_map_json(h.include_roots)),
        holds_flags(m, HHVM, h.flags),
        holds_flags(m, LANG, h.hack_lang_flags),
        flags_or_skipped(m),
    ensures
        decode_hhvm_map(m) == Some(h),
{
    lemma_decode_str_map(h.aliased_namespaces);
    lemma_decode_str_set(h.dynamic_invoke_functions);
    lemma_decode_str_map(h.include_roots);
    let ks = hhvm_arg_keys();
    let rest = without_keys(m, ks);
    lemma_without_keys(m, ks);
    assert forall|g: u8, i: int| 0 <= i < flag_table(g).len() implies !ks.contains(
        #[trigger] flag_key(g, i),
    ) by {
        lemma_flag_key_not_arg(g, i);
        if ks.contains(flag_key(g, i)) {
            let x = choose|x: int| 0 <= x < ks.len() && ks[x] == flag_key(g, i);
            assert(x == 0 || x == 1 || x == 2);
        }
    }
    assert(holds_flags(rest, HHVM, h.flags));
    assert(holds_flags(rest, LANG, h.hack_lang_flags));
    assert(flags_or_skipped(rest));
    lemma_decode_group(HHVM, rest, h.flags);
    lemma_decode_group(LANG, rest, h.hack_lang_flags);
}

/// The object that the entries of the options of `hhvm.` build.
proof fn lemma_hhvm_entries_map(h: HhvmV)
    ensures
        ({
            let m = pairs_map(encode_hhvm_entries(h));
            &&& m.dom().finite()
            &&& m.contains_key("hhvm.aliased_namespaces"@)
            &&& m["hhvm.aliased_namespaces"@] == arg_json(str_map_json(h.aliased_namespaces))
            &&& m.contains_key("hhvm.dynamic_invoke_functions"@)
            &&& m["hhvm.dynamic_invoke_functions"@] == arg_json(
                str_seq_json(sorted_elems(h.dynamic_invoke_functions)),
            )
            &&& m.contains_key("hhvm.include_roots"@)
            &&& m["hhvm.include_roots"@] == arg_json(str_map_json(h.include_roots))
            &&& holds_flags(m, HHVM, h.flags)
            &&& holds_flags(m, LANG, h.hack_lang_flags)
            &&& forall|k: Seq<char>|
                #[trigger] m.contains_key(k) ==> k == "hhvm.aliased_namespaces"@ || k
                    == "hhvm.dynamic_invoke_functions"@ || k == "hhvm.include_roots"@
                    || is_flag_key(HHVM, k) || is_flag_key(LANG, k)
        }),
{
    let a = seq![
        ("hhvm.aliased_namespaces"@, arg_json(str_map_json(h.aliased_namespaces))),
        (
            "hhvm.dynamic_invoke_functions"@,
            arg_json(str_seq_json(sorted_elems(h.dynamic_invoke_functions))),
        ),
        ("hhvm.include_roots"@, arg_json(str_map_json(h.include_roots))),
    ];
    let fh = crate::flags::flag_entries(HHVM, h.flags);
    let fl = crate::flags::flag_entries(LANG, h.hack_lang_flags);
    assert(encode_hhvm_entries(h) == a + fh + fl);
    lemma_arg_keys();
    assert forall|i: int, j: int| #![trigger a[i], a[j]] 0 <= i < j < a.len() implies a[i].0 != a[j].0 by {
        assert(i == 0 || i == 1);
        assert(j == 1 || j == 2);
    }
    lemma_pairs_map_distinct(a);
    assert(a[0].0 == "hhvm.aliased_namespaces"@);
    assert(a[1].0 == "hhvm.dynamic_invoke_functions"@);
    assert(a[2].0 == "hhvm.include_roots"@);
    lemma_flag_entries_map(HHVM, h.flags);
    lemma_flag_entries_map(LANG, h.hack_lang_flags);
    lemma_pairs_map_add(a, fh);
    lemma_pairs_map_add(a + fh, fl);
    lemma_pairs_map_finite(a + fh + fl);
    let pa = pairs_map(a);
    let ph = pairs_map(fh);
    let pl = pairs_map(fl);
    let m = pairs_map(a + fh + fl);
    assert forall|k: Seq<char>| #[trigger] pa.contains_key(k) implies k == "hhvm.aliased_namespaces"@
        || k == "hhvm.dynamic_invoke_functions"@ || k == "hhvm.include_roots"@ by {
        let x = choose|x: int| 0 <= x < a.len() && a[x].0 == k;
        assert(x == 0 || x == 1 || x == 2);
    }
    assert forall|i: int| 0 <= i < flag_table(HHVM).len() implies !pa.contains_key(
        #[trigger] flag_key(HHVM, i),
    ) && !pl.contains_key(flag_key(HHVM, i)) by {
        lemma_flag_key_not_arg(HHVM, i);
        lemma_not_flag_key_of(HHVM, i, LANG);
    }
    assert forall|i: int| 0 <= i < flag_table(LANG).len() implies !pa.contains_key(
        #[trigger] flag_key(LANG, i),
    ) && !ph.contains_key(flag_key(LANG, i)) by {
        lemma_flag_key_not_arg(LANG, i);
        lemma_not_flag_key_of(LANG, i, HHVM);
    }
    assert forall|k: Seq<char>| #[trigger] pa.contains_key(k) implies !ph.contains_key(k)
        && !pl.contains_key(k) by {
        if ph.contains_key(k) {
            let i = choose|i: int| 0 <= i < flag_table(HHVM).len() && k == flag_key(HHVM, i);
            lemma_flag_key_not_arg(HHVM, i);
        }
        if pl.contains_key(k) {
            let i = choose|i: int| 0 <= i < flag_table(LANG).len() && k == flag_key(LANG, i);
            lemma_flag_key_not_arg(LANG, i);
        }
    }
    assert(holds_flags(m, HHVM, h.flags));
    assert(holds_flags(m, LANG, h.hack_lang_flags));
}

/// Writing the options of `hhvm.` and reading the object back gives the same
/// options: `Hhvm::from_json` undoes `Hhvm::to_json`.
pub proof fn lemma_hhvm_round_trip(h: HhvmV)
    requires
        hhvm_wf(h),
    ensures
        decode_hhvm(JsonV::Object(pairs_map(encode_hhvm_entries(h)))) == Some(h),
{
    let m = pairs_map(encode_hhvm_entries(h));
    lemma_hhvm_entries_map(h);
    lemma_decode_str_map(h.aliased_namespaces);
    lemma_decode_str_set(h.dynamic_invoke_functions);
    lemma_decode_str_map(h.include_roots);
    assert forall|k: Seq<char>| #[trigger] m.contains_key(k) implies entry_truth(m[k]) == Truth::Skip
        || ((entry_truth(m[k]) == Truth::On || entry_truth(m[k]) == Truth::Off) && exists|g: u8|
        is_flag_key(g, k)) by {
        if is_flag_key(HHVM, k) {
            let i = choose|i: int| 0 <= i < flag_table(HHVM).len() && k == flag_key(HHVM, i);
            lemma_arg_bool_truth(bit_of(h.flags, flag_table(HHVM)[i].1));
        } else if is_flag_key(LANG, k) {
            let i = choose|i: int| 0 <= i < flag_table(LANG).len() && k == flag_key(LANG, i);
            lemma_arg_bool_truth(bit_of(h.hack_lang_flags, flag_table(LANG)[i].1));
        }
    }
    lemma_decode_hhvm_map(m, h);
}

/// None of the keys of the options that are not flags is the key of a flag.
proof fn lemma_arg_not_flag_key(g: u8)
    ensures
        !is_flag_key(g, "doc_root"@),
        !is_flag_key(g, "max_array_elem_size_on_the_stack"@),
        !is_flag_key(g, "hhvm.aliased_namespaces"@),
        !is_flag_key(g, "hhvm.dynamic_invoke_functions"@),
        !is_flag_key(g, "hhvm.include_roots"@),
        !is_flag_key(g, "hhvm.server.include_search_paths"@),
{
    assert forall|i: int| 0 <= i < flag_table(g).len() implies ({
        let k = #[trigger] flag_key(g, i);
        &&& k != "doc_root"@
        &&& k != "max_array_elem_size_on_the_stack"@
        &&& k != "hhvm.aliased_namespaces"@
        &&& k != "hhvm.dynamic_invoke_functions"@
        &&& k != "hhvm.include_roots"@
        &&& k != "hhvm.server.include_search_paths"@
    }) by {
        lemma_flag_key_not_arg(g, i);
    }
}

/// The object of one entry.
proof fn lemma_pairs_map_one(k: Seq<char>, v: JsonV)
    ensures
        forall|x: Seq<char>| #[trigger] pairs_map(seq![(k, v)]).contains_key(x) <==> x == k,
        pairs_map(seq![(k, v)])[k] == v,
{
    let a = seq![(k, v)];
    lemma_pairs_map_distinct(a);
    assert(a[0].0 == k);
}

/// The object that the entries of all the options build.
pub open spec fn options_map(o: OptionsV) -> Map<Seq<char>, JsonV> {
    pairs_map(encode_options_entries(o))
}

/// What the object that the entries of all the options build holds.
#[verifier::spinoff_prover]
#[verifier::rlimit(40)]
proof fn lemma_options_entries_map(o: OptionsV)
    ensures
        options_map(o).dom().finite(),
        options_map(o).contains_key("doc_root"@),
        options_map(o)["doc_root"@] == arg_json(JsonV::Str(o.doc_root)),
        options_map(o).contains_key("max_array_elem_size_on_the_stack"@),
        options_map(o)["max_array_elem_size_on_the_stack"@] == arg_json(
            JsonV::Int(o.max_array_elem_size_on_the_stack),
        ),
        options_map(o).contains_key("hhvm.aliased_namespaces"@),
        options_map(o)["hhvm.aliased_namespaces"@] == arg_json(
            str_map_json(o.hhvm.aliased_namespaces),
        ),
        options_map(o).contains_key("hhvm.dynamic_invoke_functions"@),
        options_map(o)["hhvm.dynamic_invoke_functions"@] == arg_json(
            str_seq_json(sorted_elems(o.hhvm.dynamic_invoke_functions)),
        ),
        options_map(o).contains_key("hhvm.include_roots"@),
        options_map(o)["hhvm.include_roots"@] == arg_json(str_map_json(o.hhvm.include_roots)),
        options_map(o).contains_key("hhvm.server.include_search_paths"@),
        options_map(o)["hhvm.server.include_search_paths"@] == arg_json(
            str_seq_json(o.server.include_search_paths),
        ),
        holds_flags(options_map(o), EVAL, o.eval_flags),
        holds_flags(options_map(o), COMPILER, o.hack_compiler_flags),
        holds_flags(options_map(o), HHVM, o.hhvm.flags),
        holds_flags(options_map(o), LANG, o.hhvm.hack_lang_flags),
        holds_flags(options_map(o), PHPISM, o.phpism_flags),
        holds_flags(options_map(o), PHP7, o.php7_flags),
        holds_flags(options_map(o), REPO, o.repo_flags),
        forall|k: Seq<char>|
            #[trigger] options_map(o).contains_key(k) ==> is_arg_key(k) || exists|g: u8|
                is_flag_key(g, k),
{
    let d = seq![("doc_root"@, arg_json(JsonV::Str(o.doc_root)))];
    let fe = flag_entries(EVAL, o.eval_flags);
    let fc = flag_entries(COMPILER, o.hack_compiler_flags);
    let h = encode_hhvm_entries(o.hhvm);
    let x = seq![
        (
            "max_array_elem_size_on_the_stack"@,
            arg_json(JsonV::Int(o.max_array_elem_size_on_the_stack)),
        ),
    ];
    let fp = flag_entries(PHPISM, o.phpism_flags);
    let f7 = flag_entries(PHP7, o.php7_flags);
    let fr = flag_entries(REPO, o.repo_flags);
    let sv = seq![
        (
            "hhvm.server.include_search_paths"@,
            arg_json(str_seq_json(o.server.include_search_paths)),
        ),
    ];
    let l1 = d + fe;
    let l2 = l1 + fc;
    let l3 = l2 + h;
    let l4 = l3 + x;
    let l5 = l4 + fp;
    let l6 = l5 + f7;
    let l7 = l6 + fr;
    let l8 = l7 + sv;
    assert(encode_options_entries(o) == l8);
    lemma_pairs_map_one("doc_root"@, arg_json(JsonV::Str(o.doc_root)));
    lemma_pairs_map_one(
        "max_array_elem_size_on_the_stack"@,
        arg_json(JsonV::Int(o.max_array_elem_size_on_the_stack)),
    );
    lemma_pairs_map_one(
        "hhvm.server.include_search_paths"@,
        arg_json(str_seq_json(o.server.include_search_paths)),
    );
    lemma_flag_entries_map(EVAL, o.eval_flags);
    lemma_flag_entries_map(COMPILER, o.hack_compiler_flags);
    lemma_hhvm_entries_map(o.hhvm);
    lemma_flag_entries_map(PHPISM, o.phpism_flags);
    lemma_flag_entries_map(PHP7, o.php7_flags);
    lemma_flag_entries_map(REPO, o.repo_flags);
    lemma_pairs_map_add(d, fe);
    lemma_pairs_map_add(l1, fc);
    lemma_pairs_map_add(l2, h);
    lemma_pairs_map_add(l3, x);
    lemma_pairs_map_add(l4, fp);
    lemma_pairs_map_add(l5, f7);
    lemma_pairs_map_add(l6, fr);
    lemma_pairs_map_add(l7, sv);
    lemma_pairs_map_finite(l8);
    lemma_arg_keys();
    lemma_arg_not_flag_key(EVAL);
    lemma_arg_not_flag_key(COMPILER);
    lemma_arg_not_flag_key(HHVM);
    lemma_arg_not_flag_key(LANG);
    lemma_arg_not_flag_key(PHPISM);
    lemma_arg_not_flag_key(PHP7);
    lemma_arg_not_flag_key(REPO);
    let m = pairs_map(l8);
    assert forall|g: u8, i: int| 0 <= i < flag_table(g).len() && g <= REPO implies ({
        let k = #[trigger] flag_key(g, i);
        &&& (g != EVAL ==> !is_flag_key(EVAL, k))
        &&& (g != COMPILER ==> !is_flag_key(COMPILER, k))
        &&& (g != HHVM ==> !is_flag_key(HHVM, k))
        &&& (g != LANG ==> !is_flag_key(LANG, k))
        &&& (g != PHPISM ==> !is_flag_key(PHPISM, k))
        &&& (g != PHP7 ==> !is_flag_key(PHP7, k))
        &&& (g != REPO ==> !is_flag_key(REPO, k))
        &&& k != "doc_root"@
        &&& k != "max_array_elem_size_on_the_stack"@
        &&& k != "hhvm.aliased_namespaces"@
        &&& k != "hhvm.dynamic_invoke_functions"@
        &&& k != "hhvm.include_roots"@
        &&& k != "hhvm.server.include_search_paths"@
    }) by {
        lemma_flag_key_not_arg(g, i);
        if g != EVAL {
            lemma_not_flag_key_of(g, i, EVAL);
        }
        if g != COMPILER {
            lemma_not_flag_key_of(g, i, COMPILER);
        }
        if g != HHVM {
            lemma_not_flag_key_of(g, i, HHVM);
        }
        if g != LANG {
            lemma_not_flag_key_of(g, i, LANG);
        }
        if g != PHPISM {
            lemma_not_flag_key_of(g, i, PHPISM);
        }
        if g != PHP7 {
            lemma_not_flag_key_of(g, i, PHP7);
        }
        if g != REPO {
            lemma_not_flag_key_of(g, i, REPO);
        }
    }
    assert forall|i: int| 0 <= i < flag_table(EVAL).len() implies m.contains_key(#[trigger] flag_key(EVAL, i))
        && m[flag_key(EVAL, i)] == arg_json(JsonV::Bool(bit_of(o.eval_flags, flag_table(EVAL)[i].1))) by {
        let k = flag_key(EVAL, i);
        assert(pairs_map(fe).contains_key(k));
        assert(!pairs_map(fc).contains_key(k));
        assert(!pairs_map(h).contains_key(k));
        assert(!pairs_map(x).contains_key(k));
        assert(!pairs_map(fp).contains_key(k));
        assert(!pairs_map(f7).contains_key(k));
        assert(!pairs_map(fr).contains_key(k));
        assert(!pairs_map(sv).contains_key(k));
        assert(pairs_map(l1).contains_key(k));
        assert(pairs_map(l2).contains_key(k));
        assert(pairs_map(l3).contains_key(k));
        assert(pairs_map(l4).contains_key(k));
        assert(pairs_map(l5).contains_key(k));
        assert(pairs_map(l6).contains_key(k));
        assert(pairs_map(l7).contains_key(k));
        assert(pairs_map(l8).contains_key(k));
    }
    assert forall|i: int| 0 <= i < flag_table(COMPILER).len() implies m.contains_key(#[trigger] flag_key(COMPILER, i))
        && m[flag_key(COMPILER, i)] == arg_json(JsonV::Bool(bit_of(o.hack_compiler_flags, flag_table(COMPILER)[i].1))) by {
        let k = flag_key(COMPILER, i);
        assert(pairs_map(fc).contains_key(k));
        assert(!pairs_map(h).contains_key(k));
        assert(!pairs_map(x).contains_key(k));
        assert(!pairs_map(fp).contains_key(k));
        assert(!pairs_map(f7).contains_key(k));
        assert(!pairs_map(fr).contains_key(k));
        assert(!pairs_map(sv).contains_key(k));
        assert(pairs_map(l2).contains_key(k));
        assert(pairs_map(l3).contains_key(k));
        assert(pairs_map(l4).contains_key(k));
        assert(pairs_map(l5).contains_key(k));
        assert(pairs_map(l6).contains_key(k));
        assert(pairs_map(l7).contains_key(k));
        assert(pairs_map(l8).contains_key(k));
    }
    assert forall|i: int| 0 <= i < flag_table(HHVM).len() implies m.contains_key(#[trigger] flag_key(HHVM, i))
        && m[flag_key(HHVM, i)] == arg_json(JsonV::Bool(bit_of(o.hhvm.flags, flag_table(HHVM)[i].1))) by {
        let k = flag_key(HHVM, i);
        assert(pairs_map(h).contains_key(k));
        assert(!pairs_map(x).contains_key(k));
        assert(!pairs_map(fp).contains_key(k));
        assert(!pairs_map(f7).contains_key(k));
        assert(!pairs_map(fr).contains_key(k));
        assert(!pairs_map(sv).contains_key(k));
        assert(pairs_map(l3).contains_key(k));
        assert(pairs_map(l4).contains_key(k));
        assert(pairs_map(l5).contains_key(k));
        assert(pairs_map(l6).contains_key(k));
        assert(pairs_map(l7).contains_key(k));
        assert(pairs_map(l8).contains_key(k));
    }
    assert forall|i: int| 0 <= i < flag_table(LANG).len() implies m.contains_key(#[trigger] flag_key(LANG, i))
        && m[flag_key(LANG, i)] == arg_json(JsonV::Bool(bit_of(o.hhvm.hack_lang_flags, flag_table(LANG)[i].1))) by {
        let k = flag_key(LANG, i);
        assert(pairs_map(h).contains_key(k));
        assert(!pairs_map(x).contains_key(k));
        assert(!pairs_map(fp).contains_key(k));
        assert(!pairs_map(f7).contains_key(k));
        assert(!pairs_map(fr).contains_key(k));
        assert(!pairs_map(sv).contains_key(k));
        assert(pairs_map(l3).contains_key(k));
        assert(pairs_map(l4).contains_key(k));
        assert(pairs_map(l5).contains_key(k));
        assert(pairs_map(l6).contains_key(k));
        assert(pairs_map(l7).contains_key(k));
        assert(pairs_map(l8).contains_key(k));
    }
    assert forall|i: int| 0 <= i < flag_table(PHPISM).len() implies m.contains_key(#[trigger] flag_key(PHPISM, i))
        && m[flag_key(PHPISM, i)] == arg_json(JsonV::Bool(bit_of(o.phpism_flags, flag_table(PHPISM)[i].1))) by {
        let k = flag_key(PHPISM, i);
        assert(pairs_map(fp).contains_key(k));
        assert(!pairs_map(f7).contains_key(k));
        assert(!pairs_map(fr).contains_key(k));
        assert(!pairs_map(sv).contains_key(k));
        assert(pairs_map(l5).contains_key(k));
        assert(pairs_map(l6).contains_key(k));
        assert(pairs_map(l7).contains_key(k));
        assert(pairs_map(l8).contains_key(k));
    }
    assert forall|i: int| 0 <= i < flag_table(PHP7).len() implies m.contains_key(#[trigger] flag_key(PHP7, i))
        && m[flag_key(PHP7, i)] == arg_json(JsonV::Bool(bit_of(o.php7_flags, flag_table(PHP7)[i].1))) by {
        let k = flag_key(PHP7, i);
        assert(pairs_map(f7).contains_key(k));
        assert(!pairs_map(fr).contains_key(k));
        assert(!pairs_map(sv).contains_key(k));
        assert(pairs_map(l6).contains_key(k));
        assert(pairs_map(l7).contains_key(k));
        assert(pairs_map(l8).contains_key(k));
    }
    assert forall|i: int| 0 <= i < flag_table(REPO).len() implies m.contains_key(#[trigger] flag_key(REPO, i))
        && m[flag_key(REPO, i)] == arg_json(JsonV::Bool(bit_of(o.repo_flags, flag_table(REPO)[i].1))) by {
        let k = flag_key(REPO, i);
        assert(pairs_map(fr).contains_key(k));
        assert(!pairs_map(sv).contains_key(k));
        assert(pairs_map(l7).contains_key(k));
        assert(pairs_map(l8).contains_key(k));
    }
    assert({
        let k = "doc_root"@;
        &&& pairs_map(l8).contains_key(k)
        &&& pairs_map(l8)[k] == arg_json(JsonV::Str(o.doc_root))
    }) by {
        let k = "doc_root"@;
        assert(pairs_map(d).contains_key(k));
        assert(!pairs_map(fe).contains_key(k));
        assert(!pairs_map(fc).contains_key(k));
        assert(!pairs_map(h).contains_key(k));
        assert(!pairs_map(x).contains_key(k));
        assert(!pairs_map(fp).contains_key(k));
        assert(!pairs_map(f7).contains_key(k));
        assert(!pairs_map(fr).contains_key(k));
        assert(!pairs_map(sv).contains_key(k));
        assert(pairs_map(l1).contains_key(k));
        assert(pairs_map(l2).contains_key(k));
        assert(pairs_map(l3).contains_key(k));
        assert(pairs_map(l4).contains_key(k));
        assert(pairs_map(l5).contains_key(k));
        assert(pairs_map(l6).contains_key(k));
        assert(pairs_map(l7).contains_key(k));
        assert(pairs_map(l8).contains_key(k));
        assert(pairs_map(l1)[k] == pairs_map(d)[k]);
        assert(pairs_map(l2)[k] == pairs_map(l1)[k]);
        assert(pairs_map(l3)[k] == pairs_map(l2)[k]);
        assert(pairs_map(l4)[k] == pairs_map(l3)[k]);
        assert(pairs_map(l5)[k] == pairs_map(l4)[k]);
        assert(pairs_map(l6)[k] == pairs_map(l5)[k]);
        assert(pairs_map(l7)[k] == pairs_map(l6)[k]);
        assert(pairs_map(l8)[k] == pairs_map(l7)[k]);
    }
    assert({
        let k = "max_array_elem_size_on_the_stack"@;
        &&& pairs_map(l8).contains_key(k)
        &&& pairs_map(l8)[k] == arg_json(JsonV::Int(o.max_array_elem_size_on_the_stack))
    }) by {
        let k = "max_array_elem_size_on_the_stack"@;
        assert(pairs_map(x).contains_key(k));
        assert(!pairs_map(fp).contains_key(k));
        assert(!pairs_map(f7).contains_key(k));
        assert(!pairs_map(fr).contains_key(k));
        assert(!pairs_map(sv).contains_key(k));
        assert(pairs_map(l4).contains_key(k));
        assert(pairs_map(l5).contains_key(k));
        assert(pairs_map(l6).contains_key(k));
        assert(pairs_map(l7).contains_key(k));
        assert(pairs_map(l8).contains_key(k));
        assert(pairs_map(l4)[k] == pairs_map(x)[k]);
        assert(pairs_map(l5)[k] == pairs_map(l4)[k]);
        assert(pairs_map(l6)[k] == pairs_map(l5)[k]);
        assert(pairs_map(l7)[k] == pairs_map(l6)[k]);
        assert(pairs_map(l8)[k] == pairs_map(l7)[k]);
    }
    assert({
        let k = "hhvm.aliased_namespaces"@;
        &&& pairs_map(l8).contains_key(k)
        &&& pairs_map(l8)[k] == arg_json(str_map_json(o.hhvm.aliased_namespaces))
    }) by {
        let k = "hhvm.aliased_namespaces"@;
        assert(pairs_map(h).contains_key(k));
        assert(!pairs_map(x).contains_key(k));
        assert(!pairs_map(fp).contains_key(k));
        assert(!pairs_map(f7).contains_key(k));
        assert(!pairs_map(fr).contains_key(k));
        assert(!pairs_map(sv).contains_key(k));
        assert(pairs_map(l3).contains_key(k));
        assert(pairs_map(l4).contains_key(k));
        assert(pairs_map(l5).contains_key(k));
        assert(pairs_map(l6).contains_key(k));
        assert(pairs_map(l7).contains_key(k));
        assert(pairs_map(l8).contains_key(k));
        assert(pairs_map(l3)[k] == pairs_map(h)[k]);
        assert(pairs_map(l4)[k] == pairs_map(l3)[k]);
        assert(pairs_map(l5)[k] == pairs_map(l4)[k]);
        assert(pairs_map(l6)[k] == pairs_map(l5)[k]);
        assert(pairs_map(l7)[k] == pairs_map(l6)[k]);
        assert(pairs_map(l8)[k] == pairs_map(l7)[k]);
    }
    assert({
        let k = "hhvm.dynamic_invoke_functions"@;
        &&& pairs_map(l8).contains_key(k)
        &&& pairs_map(l8)[k] == arg_json(str_seq_json(sorted_elems(o.hhvm.dynamic_invoke_functions)))
    }) by {
        let k = "hhvm.dynamic_invoke_functions"@;
        assert(pairs_map(h).contains_key(k));
        assert(!pairs_map(x).contains_key(k));
        assert(!pairs_map(fp).contains_key(k));
        assert(!pairs_map(f7).contains_key(k));
        assert(!pairs_map(fr).contains_key(k));
        assert(!pairs_map(sv).contains_key(k));
        assert(pairs_map(l3).contains_key(k));
        assert(pairs_map(l4).contains_key(k));
        assert(pairs_map(l5).contains_key(k));
        assert(pairs_map(l6).contains_key(k));
        assert(pairs_map(l7).contains_key(k));
        assert(pairs_map(l8).contains_key(k));
        assert(pairs_map(l3)[k] == pairs_map(h)[k]);
        assert(pairs_map(l4)[k] == pairs_map(l3)[k]);
        assert(pairs_map(l5)[k] == pairs_map(l4)[k]);
        assert(pairs_map(l6)[k] == pairs_map(l5)[k]);
        assert(pairs_map(l7)[k] == pairs_map(l6)[k]);
        assert(pairs_map(l8)[k] == pairs_map(l7)[k]);
    }
    assert({
        let k = "hhvm.include_roots"@;
        &&& pairs_map(l8).contains_key(k)
        &&& pairs_map(l8)[k] == arg_json(str_map_json(o.hhvm.include_roots))
    }) by {
        let k = "hhvm.include_roots"@;
        assert(pairs_map(h).contains_key(k));
        assert(!pairs_map(x).contains_key(k));
        assert(!pairs_map(fp).contains_key(k));
        assert(!pairs_map(f7).contains_key(k));
        assert(!pairs_map(fr).contains_key(k));
        assert(!pairs_map(sv).contains_key(k));
        assert(pairs_map(l3).contains_key(k));
        assert(pairs_map(l4).contains_key(k));
        assert(pairs_map(l5).contains_key(k));
        assert(pairs_map(l6).contains_key(k));
        assert(pairs_map(l7).contains_key(k));
        assert(pairs_map(l8).contains_key(k));
        assert(pairs_map(l3)[k] == pairs_map(h)[k]);
        assert(pairs_map(l4)[k] == pairs_map(l3)[k]);
        assert(pairs_map(l5)[k] == pairs_map(l4)[k]);
        assert(pairs_map(l6)[k] == pairs_map(l5)[k]);
        assert(pairs_map(l7)[k] == pairs_map(l6)[k]);
        assert(pairs_map(l8)[k] == pairs_map(l7)[k]);
    }
    assert({
        let k = "hhvm.server.include_search_paths"@;
        &&& pairs_map(l8).contains_key(k)
        &&& pairs_map(l8)[k] == arg_json(str_seq_json(o.server.include_search_paths))
    }) by {
        let k = "hhvm.server.include_search_paths"@;
        assert(pairs_map(sv).contains_key(k));
        assert(pairs_map(l8).contains_key(k));
        assert(pairs_map(l8)[k] == pairs_map(sv)[k]);
    }
    assert forall|k: Seq<char>| #[trigger] m.contains_key(k) implies is_arg_key(k) || exists|g: u8|
        is_flag_key(g, k) by {
        if is_flag_key(EVAL, k) {
            assert(is_flag_key(EVAL, k));
        } else if is_flag_key(COMPILER, k) {
            assert(is_flag_key(COMPILER, k));
        } else if is_flag_key(HHVM, k) {
            assert(is_flag_key(HHVM, k));
        } else if is_flag_key(LANG, k) {
            assert(is_flag_key(LANG, k));
        } else if is_flag_key(PHPISM, k) {
            assert(is_flag_key(PHPISM, k));
        } else if is_flag_key(PHP7, k) {
            assert(is_flag_key(PHP7, k));
        } else if is_flag_key(REPO, k) {
            assert(is_flag_key(REPO, k));
        }
    }
    assert(options_map(o) == m);
}

/// Writing the options and reading the object back gives the same options:
/// `Options::from_value` undoes `Options::to_json`.
pub proof fn lemma_options_round_trip(o: OptionsV)
    requires
        options_wf(o),
    ensures
        decode_options(JsonV::Object(pairs_map(encode_options_entries(o)))) == Some(o),
{
    let m = pairs_map(encode_options_entries(o));
    lemma_options_entries_map(o);
    lemma_arg_keys();
    lemma_decode_string(o.doc_root);
    lemma_decode_isize(o.max_array_elem_size_on_the_stack);
    lemma_decode_str_map(o.hhvm.aliased_namespaces);
    lemma_decode_str_set(o.hhvm.dynamic_invoke_functions);
    lemma_decode_str_map(o.hhvm.include_roots);
    lemma_decode_str_seq(o.server.include_search_paths);
    let ks = options_arg_keys();
    let c = without_keys(m, ks);
    lemma_without_keys(m, ks);
    assert forall|k: Seq<char>| ks.contains(k) implies k == "doc_root"@ || k
        == "max_array_elem_size_on_the_stack"@ by {
        let x = choose|x: int| 0 <= x < ks.len() && ks[x] == k;
        assert(x == 0 || x == 1);
    }
    assert forall|g: u8, i: int| 0 <= i < flag_table(g).len() implies !ks.contains(
        #[trigger] flag_key(g, i),
    ) by {
        lemma_flag_key_not_arg(g, i);
    }
    assert(holds_flags(c, EVAL, o.eval_flags));
    assert(holds_flags(c, COMPILER, o.hack_compiler_flags));
    assert(holds_flags(c, HHVM, o.hhvm.flags));
    assert(holds_flags(c, LANG, o.hhvm.hack_lang_flags));
    assert(holds_flags(c, PHPISM, o.phpism_flags));
    assert(holds_flags(c, PHP7, o.php7_flags));
    assert(holds_flags(c, REPO, o.repo_flags));
    assert forall|k: Seq<char>| #[trigger] c.contains_key(k) implies entry_truth(c[k]) == Truth::Skip
        || ((entry_truth(c[k]) == Truth::On || entry_truth(c[k]) == Truth::Off) && exists|g: u8|
        is_flag_key(g, k)) by {
        if exists|g: u8| is_flag_key(g, k) {
            let g = choose|g: u8| is_flag_key(g, k);
            let i = choose|i: int| 0 <= i < flag_table(g).len() && k == flag_key(g, i);
            lemma_flag_key_not_arg(g, i);
            let bits = if g == EVAL {
                o.eval_flags
            } else if g == COMPILER {
                o.hack_compiler_flags
            } else if g == HHVM {
                o.hhvm.flags
            } else if g == LANG {
                o.hhvm.hack_lang_flags
            } else if g == PHPISM {
                o.phpism_flags
            } else if g == PHP7 {
                o.php7_flags
            } else {
                o.repo_flags
            };
            if g > REPO {
                assert(flag_table(g).len() == 0);
            }
            assert(m[k] == arg_json(JsonV::Bool(bit_of(bits, flag_table(g)[i].1))));
            lemma_arg_bool_truth(bit_of(bits, flag_table(g)[i].1));
        }
    }
    lemma_decode_group(EVAL, c, o.eval_flags);
    lemma_decode_group(COMPILER, c, o.hack_compiler_flags);
    lemma_decode_group(PHPISM, c, o.phpism_flags);
    lemma_decode_group(PHP7, c, o.php7_flags);
    lemma_decode_group(REPO, c, o.repo_flags);
    lemma_decode_hhvm_map(c, o.hhvm);
    assert(decode_server_map(c) == Some(ServerV { include_search_paths: o.server.include_search_paths }));
}

} // verus!
