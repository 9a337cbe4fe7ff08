//! The keys under which flags are written, and what reading them back gives.
//! No two flags of a group share a name or a bit, and no two groups share a
//! bit; the key of a flag is no alias and names no flag of another group, and
//! an alias names the flag of the key that it stands for. So a group of flags
//! that is written out reads back as itself.
use vstd::prelude::*;
use crate::strs::{
    assoc_lookup, has_prefix, lemma_assoc_lookup_absent, lemma_assoc_lookup_at,
    lemma_assoc_lookup_in,
};
use crate::cli::{alias_table, canonical_key_spec};
use crate::flags::{
    arg_json, bit_of, decode_flags_keys, decode_flags_spec, default_bits, entry_truth, flag_bit,
    flag_entries, flag_mask, flag_prefix, flag_shift_of, flag_table,
    lemma_bit_within, lemma_bit_zero, lemma_bits_ext, lemma_decode_flags_bits, lemma_default_within,
    lemma_last_flag_value_none, lemma_last_flag_value_single, lemma_table_mask_bit,
    lemma_table_shifts, names_flag, within, FlagSet, Truth, COMPILER, EVAL, HHVM, LANG, PHP7, PHPISM, REPO,
};
use crate::json::{
    increasing_keys, lemma_increasing_no_dup, lemma_increasing_unique, lemma_sorted_keys_order,
    sorted_keys, JsonV,
};
use crate::options::pairs_map;

verus! {

/// What is known of the shape of a flag's name: it is not empty and holds no
/// `.` at positions 4 and 6, where the longer prefixes go on with one.
pub open spec fn name_shape(n: Seq<char>) -> bool {
    &&& n.len() > 0
    &&& (n.len() <= 4 || n[4] != '.')
    &&& (n.len() <= 6 || n[6] != '.')
}

/// No two entries of a table share a name or a bit, and every name has the
/// shape above.
pub open spec fn table_wf(t: Seq<(Seq<char>, u64)>) -> bool {
    &&& forall|i: int, j: int|
        #![trigger t[i], t[j]]
        0 <= i < j < t.len() ==> t[i].0 != t[j].0 && t[i].1 != t[j].1
    &&& forall|i: int| 0 <= i < t.len() ==> name_shape(#[trigger] t[i].0)
}

/// What tells the key `x` of an alias, which stands for `c`, from the key of a
/// flag: it does not begin with `hh`, has none of the lengths of the keys of
/// `eval.` and `hack.compiler.` flags with their first characters, or stands
/// for itself.
pub open spec fn alias_shape(x: Seq<char>, c: Seq<char>) -> bool {
    &&& x.len() >= 8
    &&& !(x[0] == 'h' && x[1] == 'h')
    &&& !(x.len() == 32 && x[0] == 'e')
    &&& !(x.len() == 30 && x[5] == 'c')
    &&& x.len() != 34
    &&& (x.len() == 21 && x[0] == 'h') ==> x == c
}

/// What tells the name of a flag of `hhvm.` from the names of the other
/// options of `hhvm.`: their lengths or their first characters.
pub open spec fn hhvm_name_shape(n: Seq<char>) -> bool {
    &&& (n.len() != 18 || n[0] != 'a')
    &&& (n.len() != 24 || n[0] != 'd')
    &&& (n.len() != 13 || n[0] != 'i')
}

/// What tells a key from the keys of the alias table, unless an alias stands
/// for itself: it begins with `hh`, or has the length and characters of the
/// key of a flag of `eval.` or `hack.compiler.`.
pub open spec fn target_shape(c: Seq<char>) -> bool {
    ||| (c.len() >= 2 && c[0] == 'h' && c[1] == 'h')
    ||| (c.len() == 32 && c[0] == 'e')
    ||| (c.len() == 30 && c[5] == 'c')
    ||| c.len() == 34
    ||| (c.len() == 21 && c[0] == 'h')
}

/// The key under which flag `i` of group `g` is written.
pub open spec fn flag_key(g: u8, i: int) -> Seq<char> {
    flag_prefix(g) + flag_table(g)[i].0
}

/// The names of the flags of a group are distinct, and so are their bits;
/// no name holds a `.` where a longer prefix would continue.
pub proof fn lemma_table_wf(g: u8)
    ensures
        table_wf(flag_table(g)),
{
    let t = flag_table(g);
    if g == EVAL {
        reveal_strlit("disassembler_source_mapping");
        assert("disassembler_source_mapping"@.len() == 27);
        assert(t.len() == 1);
        assert forall|i: int| 0 <= i < t.len() implies name_shape(#[trigger] t[i].0) by {
            assert(i == 0);
        }
    } else if g == COMPILER {
        reveal_strlit("constant_folding");
        reveal_strlit("optimize_null_checks");
        reveal_strlit("relabel");
        assert("constant_folding"@.len() == 16);
        assert("optimize_null_checks"@.len() == 20);
        assert("relabel"@.len() == 7);
        assert(t.len() == 3);
        assert forall|i: int, j: int| 0 <= i < j < t.len() implies #[trigger] t[i].0 != #[trigger] t[j].0 && t[i].1 != t[j].1 by {
            assert(i == 0 || i == 1 || i == 2);
            assert(j == 0 || j == 1 || j == 2);
        }
        assert forall|i: int| 0 <= i < t.len() implies name_shape(#[trigger] t[i].0) by {
            assert(i == 0 || i == 1 || i == 2);
        }
    } else if g == HHVM {
        reveal_strlit("array_provenance");
        reveal_strlit("emit_cls_meth_pointers");
        reveal_strlit("emit_func_pointers");
        reveal_strlit("emit_inst_meth_pointers");
        reveal_strlit("emit_meth_caller_func_pointers");
        reveal_strlit("enable_intrinsics_extension");
        reveal_strlit("enforce_generics_ub");
        reveal_strlit("hack_arr_compat_notices");
        reveal_strlit("hack_arr_dv_arrs");
        reveal_strlit("jit_enable_rename_function");
        reveal_strlit("log_extern_compiler_perf");
        reveal_strlit("rx_is_enabled");
        assert("array_provenance"@.len() == 16);
        assert("emit_cls_meth_pointers"@.len() == 22);
        assert("emit_func_pointers"@.len() == 18);
        assert("emit_inst_meth_pointers"@.len() == 23);
        assert("emit_meth_caller_func_pointers"@.len() == 30);
        assert("enable_intrinsics_extension"@.len() == 27);
        assert("enforce_generics_ub"@.len() == 19);
        assert("hack_arr_compat_notices"@.len() == 23);
        assert("hack_arr_dv_arrs"@.len() == 16);
        assert("jit_enable_rename_function"@.len() == 26);
        assert("log_extern_compiler_perf"@.len() == 24);
        assert("rx_is_enabled"@.len() == 13);
        assert("array_provenance"@[0] != "hack_arr_dv_arrs"@[0]);
        assert("emit_inst_meth_pointers"@[0] != "hack_arr_compat_notices"@[0]);
        assert(t.len() == 12);
        assert forall|i: int, j: int| 0 <= i < j < t.len() implies #[trigger] t[i].0 != #[trigger] t[j].0 && t[i].1 != t[j].1 by {
            assert(i == 0 || i == 1 || i == 2 || i == 3 || i == 4 || i == 5 || i == 6 || i == 7 || i == 8 || i == 9 || i == 10 || i == 11);
            assert(j == 0 || j == 1 || j == 2 || j == 3 || j == 4 || j == 5 || j == 6 || j == 7 || j == 8 || j == 9 || j == 10 || j == 11);
        }
        assert forall|i: int| 0 <= i < t.len() implies name_shape(#[trigger] t[i].0) by {
            assert(i == 0 || i == 1 || i == 2 || i == 3 || i == 4 || i == 5 || i == 6 || i == 7 || i == 8 || i == 9 || i == 10 || i == 11);
        }
    } else if g == LANG {
        reveal_strlit("abstract_static_props");
        reveal_strlit("allow_new_attribute_syntax");
        reveal_strlit("check_int_overflow");
        reveal_strlit("const_default_func_args");
        reveal_strlit("const_static_props");
        reveal_strlit("disable_legacy_attribute_syntax");
        reveal_strlit("disable_legacy_soft_typehints");
        reveal_strlit("disable_lval_as_an_expression");
        reveal_strlit("disable_unset_class_const");
        reveal_strlit("disallow_func_ptrs_in_constants");
        reveal_strlit("enable_class_level_where_clauses");
        reveal_strlit("enable_coroutines");
        reveal_strlit("enable_pocket_universes");
        reveal_strlit("enable_xhp_class_modifier");
        reveal_strlit("hacksperimental");
        assert("abstract_static_props"@.len() == 21);
        assert("allow_new_attribute_syntax"@.len() == 26);
        assert("check_int_overflow"@.len() == 18);
        assert("const_default_func_args"@.len() == 23);
        assert("const_static_props"@.len() == 18);
        assert("disable_legacy_attribute_syntax"@.len() == 31);
        assert("disable_legacy_soft_typehints"@.len() == 29);
        assert("disable_lval_as_an_expression"@.len() == 29);
        assert("disable_unset_class_const"@.len() == 25);
        assert("disallow_func_ptrs_in_constants"@.len() == 31);
        assert("enable_class_level_where_clauses"@.len() == 32);
        assert("enable_coroutines"@.len() == 17);
        assert("enable_pocket_universes"@.len() == 23);
        assert("enable_xhp_class_modifier"@.len() == 25);
        assert("hacksperimental"@.len() == 15);
        assert("check_int_overflow"@[1] != "const_static_props"@[1]);
        assert("const_default_func_args"@[0] != "enable_pocket_universes"@[0]);
        assert("disable_legacy_attribute_syntax"@[4] != "disallow_func_ptrs_in_constants"@[4]);
        assert("disable_legacy_soft_typehints"@[9] != "disable_lval_as_an_expression"@[9]);
        assert("disable_unset_class_const"@[0] != "enable_xhp_class_modifier"@[0]);
        assert(t.len() == 15);
        assert forall|i: int, j: int| 0 <= i < j < t.len() implies #[trigger] t[i].0 != #[trigger] t[j].0 && t[i].1 != t[j].1 by {
            assert(i == 0 || i == 1 || i == 2 || i == 3 || i == 4 || i == 5 || i == 6 || i == 7 || i == 8 || i == 9 || i == 10 || i == 11 || i == 12 || i == 13 || i == 14);
            assert(j == 0 || j == 1 || j == 2 || j == 3 || j == 4 || j == 5 || j == 6 || j == 7 || j == 8 || j == 9 || j == 10 || j == 11 || j == 12 || j == 13 || j == 14);
        }
        assert forall|i: int| 0 <= i < t.len() implies name_shape(#[trigger] t[i].0) by {
            assert(i == 0 || i == 1 || i == 2 || i == 3 || i == 4 || i == 5 || i == 6 || i == 7 || i == 8 || i == 9 || i == 10 || i == 11 || i == 12 || i == 13 || i == 14);
        }
    } else if g == PHPISM {
        reveal_strlit("disable_halt_compiler");
        reveal_strlit("disable_nontoplevel_declarations");
        reveal_strlit("disable_static_closures");
        reveal_strlit("disallow_execution_operator");
        assert("disable_halt_compiler"@.len() == 21);
        assert("disable_nontoplevel_declarations"@.len() == 32);
        assert("disable_static_closures"@.len() == 23);
        assert("disallow_execution_operator"@.len() == 27);
        assert(t.len() == 4);
        assert forall|i: int, j: int| 0 <= i < j < t.len() implies #[trigger] t[i].0 != #[trigger] t[j].0 && t[i].1 != t[j].1 by {
            assert(i == 0 || i == 1 || i == 2 || i == 3);
            assert(j == 0 || j == 1 || j == 2 || j == 3);
        }
        assert forall|i: int| 0 <= i < t.len() implies name_shape(#[trigger] t[i].0) by {
            assert(i == 0 || i == 1 || i == 2 || i == 3);
        }
    } else if g == PHP7 {
        reveal_strlit("ltr_assign");
        reveal_strlit("uvs");
        assert("ltr_assign"@.len() == 10);
        assert("uvs"@.len() == 3);
        assert(t.len() == 2);
        assert forall|i: int, j: int| 0 <= i < j < t.len() implies #[trigger] t[i].0 != #[trigger] t[j].0 && t[i].1 != t[j].1 by {
            assert(i == 0 || i == 1);
            assert(j == 0 || j == 1);
        }
        assert forall|i: int| 0 <= i < t.len() implies name_shape(#[trigger] t[i].0) by {
            assert(i == 0 || i == 1);
        }
    } else if g == REPO {
        reveal_strlit("authoritative");
        assert("authoritative"@.len() == 13);
        assert(t.len() == 1);
        assert forall|i: int| 0 <= i < t.len() implies name_shape(#[trigger] t[i].0) by {
            assert(i == 0);
        }
    }
}

/// Every key of the alias table has the shape that tells it from the keys of flags.
pub proof fn lemma_alias_shapes()
    ensures
        forall|a: int| 0 <= a < alias_table().len() ==> alias_shape(#[trigger] alias_table()[a].0, alias_table()[a].1@),
{
    reveal_strlit("eval.disassemblersourcemapping");
    reveal_strlit("hack.compiler.constantfolding");
    reveal_strlit("hack.compiler.optimizenullchecks");
    reveal_strlit("hack.compiler.relabel");
    reveal_strlit("eval.arrayprovenance");
    reveal_strlit("eval.emitclsmethpointers");
    reveal_strlit("eval.emitfuncpointers");
    reveal_strlit("eval.emitinstmethpointers");
    reveal_strlit("eval.emitmethcallerfuncpointers");
    reveal_strlit("eval.enableintrinsicsextension");
    reveal_strlit("eval.enforcegenericsub");
    reveal_strlit("eval.logexterncompilerperf");
    reveal_strlit("eval.jitenablerenamefunction");
    reveal_strlit("eval.hackarrcompatnotices");
    reveal_strlit("eval.hackarrdvarrs");
    reveal_strlit("eval.rxisenabled");
    reveal_strlit("hack.lang.abstractstaticprops");
    reveal_strlit("hack.lang.allownewattributesyntax");
    reveal_strlit("hack.lang.checkintoverflow");
    reveal_strlit("hack.lang.constdefaultfuncargs");
    reveal_strlit("hack.lang.conststaticprops");
    reveal_strlit("hack.lang.disablelegacyattributesyntax");
    reveal_strlit("hack.lang.disablelegacysofttypehints");
    reveal_strlit("hack.lang.disablelvalasanexpression");
    reveal_strlit("hack.lang.disableunsetclassconst");
    reveal_strlit("hack.lang.disallowfuncptrsinconstants");
    reveal_strlit("hack.lang.enableclasslevelwhereclauses");
    reveal_strlit("hack.lang.enablecoroutines");
    reveal_strlit("hack.lang.enablepocketuniverses");
    reveal_strlit("hack.lang.enablexhpclassmodifier");
    reveal_strlit("hack.lang.hacksperimental");
    reveal_strlit("hack.lang.phpism.disallowexecutionoperator");
    reveal_strlit("hack.lang.phpism.disablenontopleveldeclarations");
    reveal_strlit("hack.lang.phpism.disablestaticclosures");
    reveal_strlit("hack.lang.phpism.disablehaltcompiler");
    reveal_strlit("php7.ltrassign");
    reveal_strlit("php7.uvs");
    reveal_strlit("repo.authoritative");
    assert("eval.disassemblersourcemapping"@.len() == 30);
    assert("hack.compiler.constantfolding"@.len() == 29);
    assert("hack.compiler.optimizenullchecks"@.len() == 32);
    assert("hack.compiler.relabel"@.len() == 21);
    assert("eval.arrayprovenance"@.len() == 20);
    assert("eval.emitclsmethpointers"@.len() == 24);
    assert("eval.emitfuncpointers"@.len() == 21);
    assert("eval.emitinstmethpointers"@.len() == 25);
    assert("eval.emitmethcallerfuncpointers"@.len() == 31);
    assert("eval.enableintrinsicsextension"@.len() == 30);
    assert("eval.enforcegenericsub"@.len() == 22);
    assert("eval.logexterncompilerperf"@.len() == 26);
    assert("eval.jitenablerenamefunction"@.len() == 28);
    assert("eval.hackarrcompatnotices"@.len() == 25);
    assert("eval.hackarrdvarrs"@.len() == 18);
    assert("eval.rxisenabled"@.len() == 16);
    assert("hack.lang.abstractstaticprops"@.len() == 29);
    assert("hack.lang.allownewattributesyntax"@.len() == 33);
    assert("hack.lang.checkintoverflow"@.len() == 26);
    assert("hack.lang.constdefaultfuncargs"@.len() == 30);
    assert("hack.lang.conststaticprops"@.len() == 26);
    assert("hack.lang.disablelegacyattributesyntax"@.len() == 38);
    assert("hack.lang.disablelegacysofttypehints"@.len() == 36);
    assert("hack.lang.disablelvalasanexpression"@.len() == 35);
    assert("hack.lang.disableunsetclassconst"@.len() == 32);
    assert("hack.lang.disallowfuncptrsinconstants"@.len() == 37);
    assert("hack.lang.enableclasslevelwhereclauses"@.len() == 38);
    assert("hack.lang.enablecoroutines"@.len() == 26);
    assert("hack.lang.enablepocketuniverses"@.len() == 31);
    assert("hack.lang.enablexhpclassmodifier"@.len() == 32);
    assert("hack.lang.hacksperimental"@.len() == 25);
    assert("hack.lang.phpism.disallowexecutionoperator"@.len() == 42);
    assert("hack.lang.phpism.disablenontopleveldeclarations"@.len() == 47);
    assert("hack.lang.phpism.disablestaticclosures"@.len() == 38);
    assert("hack.lang.phpism.disablehaltcompiler"@.len() == 36);
    assert("php7.ltrassign"@.len() == 14);
    assert("php7.uvs"@.len() == 8);
    assert("repo.authoritative"@.len() == 18);
    let t = alias_table();
    assert(t.len() == 38);
    assert forall|a: int| 0 <= a < t.len() implies alias_shape(#[trigger] t[a].0, t[a].1@) by {
        assert(a == 0 || a == 1 || a == 2 || a == 3 || a == 4 || a == 5 || a == 6 || a == 7 || a == 8 || a == 9 || a == 10 || a == 11 || a == 12 || a == 13 || a == 14 || a == 15 || a == 16 || a == 17 || a == 18 || a == 19 || a == 20 || a == 21 || a == 22 || a == 23 || a == 24 || a == 25 || a == 26 || a == 27 || a == 28 || a == 29 || a == 30 || a == 31 || a == 32 || a == 33 || a == 34 || a == 35 || a == 36 || a == 37);
    }
}

/// The lengths of the prefixes, and the characters of theirs that tell them apart.
pub proof fn lemma_prefixes()
    ensures
        flag_prefix(EVAL).len() == 5 && flag_prefix(EVAL)[0] == 'e' && flag_prefix(EVAL)[1] == 'v' && flag_prefix(EVAL)[4] == '.',
        flag_prefix(COMPILER).len() == 14 && flag_prefix(COMPILER)[0] == 'h' && flag_prefix(COMPILER)[1] == 'a' && flag_prefix(COMPILER)[4] == '.' && flag_prefix(COMPILER)[5] == 'c' && flag_prefix(COMPILER)[9] == 'i',
        flag_prefix(HHVM).len() == 5 && flag_prefix(HHVM)[0] == 'h' && flag_prefix(HHVM)[1] == 'h' && flag_prefix(HHVM)[4] == '.',
        flag_prefix(LANG).len() == 15 && flag_prefix(LANG)[0] == 'h' && flag_prefix(LANG)[1] == 'h' && flag_prefix(LANG)[4] == '.' && flag_prefix(LANG)[5] == 'h' && flag_prefix(LANG)[9] == '.' && flag_prefix(LANG)[14] == '.',
        flag_prefix(PHPISM).len() == 22 && flag_prefix(PHPISM)[0] == 'h' && flag_prefix(PHPISM)[1] == 'h' && flag_prefix(PHPISM)[4] == '.' && flag_prefix(PHPISM)[5] == 'h' && flag_prefix(PHPISM)[9] == '.' && flag_prefix(PHPISM)[14] == '.' && flag_prefix(PHPISM)[21] == '.',
        flag_prefix(PHP7).len() == 10 && flag_prefix(PHP7)[0] == 'h' && flag_prefix(PHP7)[1] == 'h' && flag_prefix(PHP7)[4] == '.' && flag_prefix(PHP7)[5] == 'p' && flag_prefix(PHP7)[9] == '.',
        flag_prefix(REPO).len() == 10 && flag_prefix(REPO)[0] == 'h' && flag_prefix(REPO)[1] == 'h' && flag_prefix(REPO)[4] == '.' && flag_prefix(REPO)[5] == 'r' && flag_prefix(REPO)[9] == '.',
{
    reveal_strlit("eval.");
    reveal_strlit("hack.compiler.");
    reveal_strlit("hhvm.");
    reveal_strlit("hhvm.hack.lang.");
    reveal_strlit("hhvm.hack.lang.phpism.");
    reveal_strlit("hhvm.php7.");
    reveal_strlit("hhvm.repo.");
}

/// The lengths of the names of the flags of `eval.` and `hack.compiler.`.
pub proof fn lemma_short_group_names()
    ensures
        flag_table(EVAL)[0].0.len() == 27,
        flag_table(COMPILER)[0].0.len() == 16,
        flag_table(COMPILER)[1].0.len() == 20,
        flag_table(COMPILER)[2].0.len() == 7,
{
    reveal_strlit("disassembler_source_mapping");
    reveal_strlit("constant_folding");
    reveal_strlit("optimize_null_checks");
    reveal_strlit("relabel");
}

/// The flags of `hhvm.` are told from its other options by the lengths or
/// the first characters of their names.
pub proof fn lemma_hhvm_names()
    ensures
        forall|i: int| 0 <= i < flag_table(HHVM).len() ==> hhvm_name_shape(#[trigger] flag_table(HHVM)[i].0),
{
    reveal_strlit("array_provenance");
    reveal_strlit("emit_cls_meth_pointers");
    reveal_strlit("emit_func_pointers");
    reveal_strlit("emit_inst_meth_pointers");
    reveal_strlit("emit_meth_caller_func_pointers");
    reveal_strlit("enable_intrinsics_extension");
    reveal_strlit("enforce_generics_ub");
    reveal_strlit("hack_arr_compat_notices");
    reveal_strlit("hack_arr_dv_arrs");
    reveal_strlit("jit_enable_rename_function");
    reveal_strlit("log_extern_compiler_perf");
    reveal_strlit("rx_is_enabled");
    assert("array_provenance"@.len() == 16);
    assert("emit_cls_meth_pointers"@.len() == 22);
    assert("emit_func_pointers"@.len() == 18);
    assert("emit_inst_meth_pointers"@.len() == 23);
    assert("emit_meth_caller_func_pointers"@.len() == 30);
    assert("enable_intrinsics_extension"@.len() == 27);
    assert("enforce_generics_ub"@.len() == 19);
    assert("hack_arr_compat_notices"@.len() == 23);
    assert("hack_arr_dv_arrs"@.len() == 16);
    assert("jit_enable_rename_function"@.len() == 26);
    assert("log_extern_compiler_perf"@.len() == 24);
    assert("rx_is_enabled"@.len() == 13);
    let t = flag_table(HHVM);
    assert(t.len() == 12);
    assert forall|i: int| 0 <= i < t.len() implies hhvm_name_shape(#[trigger] t[i].0) by {
        assert(i == 0 || i == 1 || i == 2 || i == 3 || i == 4 || i == 5 || i == 6 || i == 7 || i == 8 || i == 9 || i == 10 || i == 11);
    }
}

/// The lengths of the keys of the options that are not flags, and the
/// characters that tell them from the keys of flags and from each other.
pub proof fn lemma_arg_keys()
    ensures
        "doc_root"@.len() == 8 && "doc_root"@[0] == 'd' && "doc_root"@[1] == 'o' && "doc_root"@[5] == 'o',
        "max_array_elem_size_on_the_stack"@.len() == 32 && "max_array_elem_size_on_the_stack"@[0] == 'm' && "max_array_elem_size_on_the_stack"@[1] == 'a' && "max_array_elem_size_on_the_stack"@[5] == 'r' && "max_array_elem_size_on_the_stack"@[11] == 'l',
        "hhvm.aliased_namespaces"@.len() == 23 && "hhvm.aliased_namespaces"@[0] == 'h' && "hhvm.aliased_namespaces"@[1] == 'h' && "hhvm.aliased_namespaces"@[5] == 'a' && "hhvm.aliased_namespaces"@[11] == 'd',
        "hhvm.dynamic_invoke_functions"@.len() == 29 && "hhvm.dynamic_invoke_functions"@[0] == 'h' && "hhvm.dynamic_invoke_functions"@[1] == 'h' && "hhvm.dynamic_invoke_functions"@[5] == 'd' && "hhvm.dynamic_invoke_functions"@[11] == 'c',
        "hhvm.include_roots"@.len() == 18 && "hhvm.include_roots"@[0] == 'h' && "hhvm.include_roots"@[1] == 'h' && "hhvm.include_roots"@[5] == 'i' && "hhvm.include_roots"@[11] == 'e',
        "hhvm.server.include_search_paths"@.len() == 32 && "hhvm.server.include_search_paths"@[0] == 'h' && "hhvm.server.include_search_paths"@[1] == 'h' && "hhvm.server.include_search_paths"@[5] == 's' && "hhvm.server.include_search_paths"@[11] == '.',
{
    reveal_strlit("doc_root");
    reveal_strlit("max_array_elem_size_on_the_stack");
    reveal_strlit("hhvm.aliased_namespaces");
    reveal_strlit("hhvm.dynamic_invoke_functions");
    reveal_strlit("hhvm.include_roots");
    reveal_strlit("hhvm.server.include_search_paths");
}

/// No two entries of the alias table have the same key.
pub proof fn lemma_alias_keys_distinct()
    ensures
        forall|x: int, y: int|
            #![trigger alias_table()[x], alias_table()[y]]
            0 <= x < y < alias_table().len() ==> alias_table()[x].0 != alias_table()[y].0,
{
    reveal_strlit("eval.disassemblersourcemapping");
    reveal_strlit("hack.compiler.constantfolding");
    reveal_strlit("hack.compiler.optimizenullchecks");
    reveal_strlit("hack.compiler.relabel");
    reveal_strlit("eval.arrayprovenance");
    reveal_strlit("eval.emitclsmethpointers");
    reveal_strlit("eval.emitfuncpointers");
    reveal_strlit("eval.emitinstmethpointers");
    reveal_strlit("eval.emitmethcallerfuncpointers");
    reveal_strlit("eval.enableintrinsicsextension");
    reveal_strlit("eval.enforcegenericsub");
    reveal_strlit("eval.logexterncompilerperf");
    reveal_strlit("eval.jitenablerenamefunction");
    reveal_strlit("eval.hackarrcompatnotices");
    reveal_strlit("eval.hackarrdvarrs");
    reveal_strlit("eval.rxisenabled");
    reveal_strlit("hack.lang.abstractstaticprops");
    reveal_strlit("hack.lang.allownewattributesyntax");
    reveal_strlit("hack.lang.checkintoverflow");
    reveal_strlit("hack.lang.constdefaultfuncargs");
    reveal_strlit("hack.lang.conststaticprops");
    reveal_strlit("hack.lang.disablelegacyattributesyntax");
    reveal_strlit("hack.lang.disablelegacysofttypehints");
    reveal_strlit("hack.lang.disablelvalasanexpression");
    reveal_strlit("hack.lang.disableunsetclassconst");
    reveal_strlit("hack.lang.disallowfuncptrsinconstants");
    reveal_strlit("hack.lang.enableclasslevelwhereclauses");
    reveal_strlit("hack.lang.enablecoroutines");
    reveal_strlit("hack.lang.enablepocketuniverses");
    reveal_strlit("hack.lang.enablexhpclassmodifier");
    reveal_strlit("hack.lang.hacksperimental");
    reveal_strlit("hack.lang.phpism.disallowexecutionoperator");
    reveal_strlit("hack.lang.phpism.disablenontopleveldeclarations");
    reveal_strlit("hack.lang.phpism.disablestaticclosures");
    reveal_strlit("hack.lang.phpism.disablehaltcompiler");
    reveal_strlit("php7.ltrassign");
    reveal_strlit("php7.uvs");
    reveal_strlit("repo.authoritative");
    assert("eval.disassemblersourcemapping"@.len() == 30);
    assert("hack.compiler.constantfolding"@.len() == 29);
    assert("hack.compiler.optimizenullchecks"@.len() == 32);
    assert("hack.compiler.relabel"@.len() == 21);
    assert("eval.arrayprovenance"@.len() == 20);
    assert("eval.emitclsmethpointers"@.len() == 24);
    assert("eval.emitfuncpointers"@.len() == 21);
    assert("eval.emitinstmethpointers"@.len() == 25);
    assert("eval.emitmethcallerfuncpointers"@.len() == 31);
    assert("eval.enableintrinsicsextension"@.len() == 30);
    assert("eval.enforcegenericsub"@.len() == 22);
    assert("eval.logexterncompilerperf"@.len() == 26);
    assert("eval.jitenablerenamefunction"@.len() == 28);
    assert("eval.hackarrcompatnotices"@.len() == 25);
    assert("eval.hackarrdvarrs"@.len() == 18);
    assert("eval.rxisenabled"@.len() == 16);
    assert("hack.lang.abstractstaticprops"@.len() == 29);
    assert("hack.lang.allownewattributesyntax"@.len() == 33);
    assert("hack.lang.checkintoverflow"@.len() == 26);
    assert("hack.lang.constdefaultfuncargs"@.len() == 30);
    assert("hack.lang.conststaticprops"@.len() == 26);
    assert("hack.lang.disablelegacyattributesyntax"@.len() == 38);
    assert("hack.lang.disablelegacysofttypehints"@.len() == 36);
    assert("hack.lang.disablelvalasanexpression"@.len() == 35);
    assert("hack.lang.disableunsetclassconst"@.len() == 32);
    assert("hack.lang.disallowfuncptrsinconstants"@.len() == 37);
    assert("hack.lang.enableclasslevelwhereclauses"@.len() == 38);
    assert("hack.lang.enablecoroutines"@.len() == 26);
    assert("hack.lang.enablepocketuniverses"@.len() == 31);
    assert("hack.lang.enablexhpclassmodifier"@.len() == 32);
    assert("hack.lang.hacksperimental"@.len() == 25);
    assert("hack.lang.phpism.disallowexecutionoperator"@.len() == 42);
    assert("hack.lang.phpism.disablenontopleveldeclarations"@.len() == 47);
    assert("hack.lang.phpism.disablestaticclosures"@.len() == 38);
    assert("hack.lang.phpism.disablehaltcompiler"@.len() == 36);
    assert("php7.ltrassign"@.len() == 14);
    assert("php7.uvs"@.len() == 8);
    assert("repo.authoritative"@.len() == 18);
    assert("eval.disassemblersourcemapping"@[5] != "eval.enableintrinsicsextension"@[5]);
    assert("eval.disassemblersourcemapping"@[0] != "hack.lang.constdefaultfuncargs"@[0]);
    assert("hack.compiler.constantfolding"@[5] != "hack.lang.abstractstaticprops"@[5]);
    assert("hack.compiler.optimizenullchecks"@[5] != "hack.lang.disableunsetclassconst"@[5]);
    assert("hack.compiler.optimizenullchecks"@[5] != "hack.lang.enablexhpclassmodifier"@[5]);
    assert("hack.compiler.relabel"@[0] != "eval.emitfuncpointers"@[0]);
    assert("eval.emitinstmethpointers"@[5] != "eval.hackarrcompatnotices"@[5]);
    assert("eval.emitinstmethpointers"@[0] != "hack.lang.hacksperimental"@[0]);
    assert("eval.emitmethcallerfuncpointers"@[0] != "hack.lang.enablepocketuniverses"@[0]);
    assert("eval.enableintrinsicsextension"@[0] != "hack.lang.constdefaultfuncargs"@[0]);
    assert("eval.logexterncompilerperf"@[0] != "hack.lang.checkintoverflow"@[0]);
    assert("eval.logexterncompilerperf"@[0] != "hack.lang.conststaticprops"@[0]);
    assert("eval.logexterncompilerperf"@[0] != "hack.lang.enablecoroutines"@[0]);
    assert("eval.hackarrcompatnotices"@[0] != "hack.lang.hacksperimental"@[0]);
    assert("eval.hackarrdvarrs"@[0] != "repo.authoritative"@[0]);
    assert("hack.lang.checkintoverflow"@[11] != "hack.lang.conststaticprops"@[11]);
    assert("hack.lang.checkintoverflow"@[10] != "hack.lang.enablecoroutines"@[10]);
    assert("hack.lang.conststaticprops"@[10] != "hack.lang.enablecoroutines"@[10]);
    assert("hack.lang.disablelegacyattributesyntax"@[10] != "hack.lang.enableclasslevelwhereclauses"@[10]);
    assert("hack.lang.disablelegacyattributesyntax"@[10] != "hack.lang.phpism.disablestaticclosures"@[10]);
    assert("hack.lang.disablelegacysofttypehints"@[10] != "hack.lang.phpism.disablehaltcompiler"@[10]);
    assert("hack.lang.disableunsetclassconst"@[10] != "hack.lang.enablexhpclassmodifier"@[10]);
    assert("hack.lang.enableclasslevelwhereclauses"@[10] != "hack.lang.phpism.disablestaticclosures"@[10]);
    let t = alias_table();
    assert(t.len() == 38);
    assert forall|x: int, y: int| #![trigger t[x], t[y]] 0 <= x < y < t.len() implies t[x].0 != t[y].0 by {
        assert(x == 0 || x == 1 || x == 2 || x == 3 || x == 4 || x == 5 || x == 6 || x == 7 || x == 8 || x == 9 || x == 10 || x == 11 || x == 12 || x == 13 || x == 14 || x == 15 || x == 16 || x == 17 || x == 18 || x == 19 || x == 20 || x == 21 || x == 22 || x == 23 || x == 24 || x == 25 || x == 26 || x == 27 || x == 28 || x == 29 || x == 30 || x == 31 || x == 32 || x == 33 || x == 34 || x == 35 || x == 36 || x == 37);
        assert(y == 0 || y == 1 || y == 2 || y == 3 || y == 4 || y == 5 || y == 6 || y == 7 || y == 8 || y == 9 || y == 10 || y == 11 || y == 12 || y == 13 || y == 14 || y == 15 || y == 16 || y == 17 || y == 18 || y == 19 || y == 20 || y == 21 || y == 22 || y == 23 || y == 24 || y == 25 || y == 26 || y == 27 || y == 28 || y == 29 || y == 30 || y == 31 || y == 32 || y == 33 || y == 34 || y == 35 || y == 36 || y == 37);
    }
}

/// The key that an alias stands for has the shape of the key of a flag:
/// what tells the keys of the alias table from it.
pub proof fn lemma_alias_targets()
    ensures
        forall|x: int| 0 <= x < alias_table().len() ==> target_shape(#[trigger] alias_table()[x].1@),
{
    reveal_strlit("eval.disassembler_source_mapping");
    reveal_strlit("hack.compiler.constant_folding");
    reveal_strlit("hack.compiler.optimize_null_checks");
    reveal_strlit("hack.compiler.relabel");
    reveal_strlit("hhvm.array_provenance");
    reveal_strlit("hhvm.emit_cls_meth_pointers");
    reveal_strlit("hhvm.emit_func_pointers");
    reveal_strlit("hhvm.emit_inst_meth_pointers");
    reveal_strlit("hhvm.emit_meth_caller_func_pointers");
    reveal_strlit("hhvm.enable_intrinsics_extension");
    reveal_strlit("hhvm.enforce_generics_ub");
    reveal_strlit("hhvm.log_extern_compiler_perf");
    reveal_strlit("hhvm.jit_enable_rename_function");
    reveal_strlit("hhvm.hack_arr_compat_notices");
    reveal_strlit("hhvm.hack_arr_dv_arrs");
    reveal_strlit("hhvm.rx_is_enabled");
    reveal_strlit("hhvm.hack.lang.abstract_static_props");
    reveal_strlit("hhvm.hack.lang.allow_new_attribute_syntax");
    reveal_strlit("hhvm.hack.lang.check_int_overflow");
    reveal_strlit("hhvm.hack.lang.const_default_func_args");
    reveal_strlit("hhvm.hack.lang.const_static_props");
    reveal_strlit("hhvm.hack.lang.disable_legacy_attribute_syntax");
    reveal_strlit("hhvm.hack.lang.disable_legacy_soft_typehints");
    reveal_strlit("hhvm.hack.lang.disable_lval_as_an_expression");
    reveal_strlit("hhvm.hack.lang.disable_unset_class_const");
    reveal_strlit("hhvm.hack.lang.disallow_func_ptrs_in_constants");
    reveal_strlit("hhvm.hack.lang.enable_class_level_where_clauses");
    reveal_strlit("hhvm.hack.lang.enable_coroutines");
    reveal_strlit("hhvm.hack.lang.enable_pocket_universes");
    reveal_strlit("hhvm.hack.lang.enable_xhp_class_modifier");
    reveal_strlit("hhvm.hack.lang.hacksperimental");
    reveal_strlit("hhvm.hack.lang.phpism.disallow_execution_operator");
    reveal_strlit("hhvm.hack.lang.phpism.disable_nontoplevel_declarations");
    reveal_strlit("hhvm.hack.lang.phpism.disable_static_closures");
    reveal_strlit("hhvm.hack.lang.phpism.disable_halt_compiler");
    reveal_strlit("hhvm.php7.ltr_assign");
    reveal_strlit("hhvm.php7.uvs");
    reveal_strlit("hhvm.repo.authoritative");
    assert("eval.disassembler_source_mapping"@.len() == 32);
    assert("hack.compiler.constant_folding"@.len() == 30);
    assert("hack.compiler.optimize_null_checks"@.len() == 34);
    assert("hack.compiler.relabel"@.len() == 21);
    assert("hhvm.array_provenance"@.len() == 21);
    assert("hhvm.emit_cls_meth_pointers"@.len() == 27);
    assert("hhvm.emit_func_pointers"@.len() == 23);
    assert("hhvm.emit_inst_meth_pointers"@.len() == 28);
    assert("hhvm.emit_meth_caller_func_pointers"@.len() == 35);
    assert("hhvm.enable_intrinsics_extension"@.len() == 32);
    assert("hhvm.enforce_generics_ub"@.len() == 24);
    assert("hhvm.log_extern_compiler_perf"@.len() == 29);
    assert("hhvm.jit_enable_rename_function"@.len() == 31);
    assert("hhvm.hack_arr_compat_notices"@.len() == 28);
    assert("hhvm.hack_arr_dv_arrs"@.len() == 21);
    assert("hhvm.rx_is_enabled"@.len() == 18);
    assert("hhvm.hack.lang.abstract_static_props"@.len() == 36);
    assert("hhvm.hack.lang.allow_new_attribute_syntax"@.len() == 41);
    assert("hhvm.hack.lang.check_int_overflow"@.len() == 33);
    assert("hhvm.hack.lang.const_default_func_args"@.len() == 38);
    assert("hhvm.hack.lang.const_static_props"@.len() == 33);
    assert("hhvm.hack.lang.disable_legacy_attribute_syntax"@.len() == 46);
    assert("hhvm.hack.lang.disable_legacy_soft_typehints"@.len() == 44);
    assert("hhvm.hack.lang.disable_lval_as_an_expression"@.len() == 44);
    assert("hhvm.hack.lang.disable_unset_class_const"@.len() == 40);
    assert("hhvm.hack.lang.disallow_func_ptrs_in_constants"@.len() == 46);
    assert("hhvm.hack.lang.enable_class_level_where_clauses"@.len() == 47);
    assert("hhvm.hack.lang.enable_coroutines"@.len() == 32);
    assert("hhvm.hack.lang.enable_pocket_universes"@.len() == 38);
    assert("hhvm.hack.lang.enable_xhp_class_modifier"@.len() == 40);
    assert("hhvm.hack.lang.hacksperimental"@.len() == 30);
    assert("hhvm.hack.lang.phpism.disallow_execution_operator"@.len() == 49);
    assert("hhvm.hack.lang.phpism.disable_nontoplevel_declarations"@.len() == 54);
    assert("hhvm.hack.lang.phpism.disable_static_closures"@.len() == 45);
    assert("hhvm.hack.lang.phpism.disable_halt_compiler"@.len() == 43);
    assert("hhvm.php7.ltr_assign"@.len() == 20);
    assert("hhvm.php7.uvs"@.len() == 13);
    assert("hhvm.repo.authoritative"@.len() == 23);
    let t = alias_table();
    assert(t.len() == 38);
    assert forall|x: int| 0 <= x < t.len() implies target_shape(#[trigger] t[x].1@) by {
        assert(x == 0 || x == 1 || x == 2 || x == 3 || x == 4 || x == 5 || x == 6 || x == 7 || x == 8 || x == 9 || x == 10 || x == 11 || x == 12 || x == 13 || x == 14 || x == 15 || x == 16 || x == 17 || x == 18 || x == 19 || x == 20 || x == 21 || x == 22 || x == 23 || x == 24 || x == 25 || x == 26 || x == 27 || x == 28 || x == 29 || x == 30 || x == 31 || x == 32 || x == 33 || x == 34 || x == 35 || x == 36 || x == 37);
    }
}

/// The group whose flag has bit `u`, or a number of no group.
pub open spec fn group_of_bit(u: u64) -> u8 {
    if u == 2 {
        EVAL
    } else if u == 0 || u == 1 || u == 5 {
        COMPILER
    } else if u == 33 || u == 26 || u == 25 || u == 27 || u == 28 || u == 15 || u == 44 || u == 7 || u == 8 || u == 10 || u == 14 || u == 29 {
        HHVM
    } else if u == 41 || u == 37 || u == 45 || u == 39 || u == 40 || u == 38 || u == 36 || u == 30 || u == 42 || u == 43 || u == 35 || u == 12 || u == 31 || u == 46 || u == 13 {
        LANG
    } else if u == 24 || u == 22 || u == 23 || u == 21 {
        PHPISM
    } else if u == 4 || u == 3 {
        PHP7
    } else if u == 9 {
        REPO
    } else {
        (REPO + 1) as u8
    }
}

/// Each bit of a group belongs to that group.
pub proof fn lemma_group_of_bit(g: u8)
    ensures
        forall|i: int| 0 <= i < flag_table(g).len() ==> group_of_bit(#[trigger] flag_table(g)[i].1) == g,
{
    let t = flag_table(g);
    if g == EVAL {
        assert forall|i: int| 0 <= i < t.len() implies group_of_bit(#[trigger] t[i].1) == g by {
            assert(i == 0);
        }
    } else if g == COMPILER {
        assert forall|i: int| 0 <= i < t.len() implies group_of_bit(#[trigger] t[i].1) == g by {
            assert(i == 0 || i == 1 || i == 2);
        }
    } else if g == HHVM {
        assert forall|i: int| 0 <= i < t.len() implies group_of_bit(#[trigger] t[i].1) == g by {
            assert(i == 0 || i == 1 || i == 2 || i == 3 || i == 4 || i == 5 || i == 6 || i == 7 || i == 8 || i == 9 || i == 10 || i == 11);
        }
    } else if g == LANG {
        assert forall|i: int| 0 <= i < t.len() implies group_of_bit(#[trigger] t[i].1) == g by {
            assert(i == 0 || i == 1 || i == 2 || i == 3 || i == 4 || i == 5 || i == 6 || i == 7 || i == 8 || i == 9 || i == 10 || i == 11 || i == 12 || i == 13 || i == 14);
        }
    } else if g == PHPISM {
        assert forall|i: int| 0 <= i < t.len() implies group_of_bit(#[trigger] t[i].1) == g by {
            assert(i == 0 || i == 1 || i == 2 || i == 3);
        }
    } else if g == PHP7 {
        assert forall|i: int| 0 <= i < t.len() implies group_of_bit(#[trigger] t[i].1) == g by {
            assert(i == 0 || i == 1);
        }
    } else if g == REPO {
        assert forall|i: int| 0 <= i < t.len() implies group_of_bit(#[trigger] t[i].1) == g by {
            assert(i == 0);
        }
    }
}
/// Each public constant of a set of flags is the bit that the key of the flag
/// of the same name names: the prefix of its group followed by the
/// constant's name in lower case. Reading or writing a flag under its key
/// therefore reads or writes the bit of its constant.
pub proof fn lemma_flag_constants()
    ensures
        flag_shift_of(EVAL, flag_prefix(EVAL) + "disassembler_source_mapping"@) matches Some(s) && flag_bit(s) == FlagSet::<EVAL>::DISASSEMBLER_SOURCE_MAPPING,
        flag_shift_of(COMPILER, flag_prefix(COMPILER) + "constant_folding"@) matches Some(s) && flag_bit(s) == FlagSet::<COMPILER>::CONSTANT_FOLDING,
        flag_shift_of(COMPILER, flag_prefix(COMPILER) + "optimize_null_checks"@) matches Some(s) && flag_bit(s) == FlagSet::<COMPILER>::OPTIMIZE_NULL_CHECKS,
        flag_shift_of(COMPILER, flag_prefix(COMPILER) + "relabel"@) matches Some(s) && flag_bit(s) == FlagSet::<COMPILER>::RELABEL,
        flag_shift_of(HHVM, flag_prefix(HHVM) + "array_provenance"@) matches Some(s) && flag_bit(s) == FlagSet::<HHVM>::ARRAY_PROVENANCE,
        flag_shift_of(HHVM, flag_prefix(HHVM) + "emit_cls_meth_pointers"@) matches Some(s) && flag_bit(s) == FlagSet::<HHVM>::EMIT_CLS_METH_POINTERS,
        flag_shift_of(HHVM, flag_prefix(HHVM) + "emit_func_pointers"@) matches Some(s) && flag_bit(s) == FlagSet::<HHVM>::EMIT_FUNC_POINTERS,
        flag_shift_of(HHVM, flag_prefix(HHVM) + "emit_inst_meth_pointers"@) matches Some(s) && flag_bit(s) == FlagSet::<HHVM>::EMIT_INST_METH_POINTERS,
        flag_shift_of(HHVM, flag_prefix(HHVM) + "emit_meth_caller_func_pointers"@) matches Some(s) && flag_bit(s) == FlagSet::<HHVM>::EMIT_METH_CALLER_FUNC_POINTERS,
        flag_shift_of(HHVM, flag_prefix(HHVM) + "enable_intrinsics_extension"@) matches Some(s) && flag_bit(s) == FlagSet::<HHVM>::ENABLE_INTRINSICS_EXTENSION,
        flag_shift_of(HHVM, flag_prefix(HHVM) + "enforce_generics_ub"@) matches Some(s) && flag_bit(s) == FlagSet::<HHVM>::ENFORCE_GENERICS_UB,
        flag_shift_of(HHVM, flag_prefix(HHVM) + "log_extern_compiler_perf"@) matches Some(s) && flag_bit(s) == FlagSet::<HHVM>::LOG_EXTERN_COMPILER_PERF,
        flag_shift_of(HHVM, flag_prefix(HHVM) + "jit_enable_rename_function"@) matches Some(s) && flag_bit(s) == FlagSet::<HHVM>::JIT_ENABLE_RENAME_FUNCTION,
        flag_shift_of(HHVM, flag_prefix(HHVM) + "hack_arr_compat_notices"@) matches Some(s) && flag_bit(s) == FlagSet::<HHVM>::HACK_ARR_COMPAT_NOTICES,
        flag_shift_of(HHVM, flag_prefix(HHVM) + "hack_arr_dv_arrs"@) matches Some(s) && flag_bit(s) == FlagSet::<HHVM>::HACK_ARR_DV_ARRS,
        flag_shift_of(HHVM, flag_prefix(HHVM) + "rx_is_enabled"@) matches Some(s) && flag_bit(s) == FlagSet::<HHVM>::RX_IS_ENABLED,
        flag_shift_of(LANG, flag_prefix(LANG) + "abstract_static_props"@) matches Some(s) && flag_bit(s) == FlagSet::<LANG>::ABSTRACT_STATIC_PROPS,
        flag_shift_of(LANG, flag_prefix(LANG) + "allow_new_attribute_syntax"@) matches Some(s) && flag_bit(s) == FlagSet::<LANG>::ALLOW_NEW_ATTRIBUTE_SYNTAX,
        flag_shift_of(LANG, flag_prefix(LANG) + "check_int_overflow"@) matches Some(s) && flag_bit(s) == FlagSet::<LANG>::CHECK_INT_OVERFLOW,
        flag_shift_of(LANG, flag_prefix(LANG) + "const_default_func_args"@) matches Some(s) && flag_bit(s) == FlagSet::<LANG>::CONST_DEFAULT_FUNC_ARGS,
        flag_shift_of(LANG, flag_prefix(LANG) + "const_static_props"@) matches Some(s) && flag_bit(s) == FlagSet::<LANG>::CONST_STATIC_PROPS,
        flag_shift_of(LANG, flag_prefix(LANG) + "disable_legacy_attribute_syntax"@) matches Some(s) && flag_bit(s) == FlagSet::<LANG>::DISABLE_LEGACY_ATTRIBUTE_SYNTAX,
        flag_shift_of(LANG, flag_prefix(LANG) + "disable_legacy_soft_typehints"@) matches Some(s) && flag_bit(s) == FlagSet::<LANG>::DISABLE_LEGACY_SOFT_TYPEHINTS,
        flag_shift_of(LANG, flag_prefix(LANG) + "disable_lval_as_an_expression"@) matches Some(s) && flag_bit(s) == FlagSet::<LANG>::DISABLE_LVAL_AS_AN_EXPRESSION,
        flag_shift_of(LANG, flag_prefix(LANG) + "disable_unset_class_const"@) matches Some(s) && flag_bit(s) == FlagSet::<LANG>::DISABLE_UNSET_CLASS_CONST,
        flag_shift_of(LANG, flag_prefix(LANG) + "disallow_func_ptrs_in_constants"@) matches Some(s) && flag_bit(s) == FlagSet::<LANG>::DISALLOW_FUNC_PTRS_IN_CONSTANTS,
        flag_shift_of(LANG, flag_prefix(LANG) + "enable_class_level_where_clauses"@) matches Some(s) && flag_bit(s) == FlagSet::<LANG>::ENABLE_CLASS_LEVEL_WHERE_CLAUSES,
        flag_shift_of(LANG, flag_prefix(LANG) + "enable_coroutines"@) matches Some(s) && flag_bit(s) == FlagSet::<LANG>::ENABLE_COROUTINES,
        flag_shift_of(LANG, flag_prefix(LANG) + "enable_pocket_universes"@) matches Some(s) && flag_bit(s) == FlagSet::<LANG>::ENABLE_POCKET_UNIVERSES,
        flag_shift_of(LANG, flag_prefix(LANG) + "enable_xhp_class_modifier"@) matches Some(s) && flag_bit(s) == FlagSet::<LANG>::ENABLE_XHP_CLASS_MODIFIER,
        flag_shift_of(LANG, flag_prefix(LANG) + "hacksperimental"@) matches Some(s) && flag_bit(s) == FlagSet::<LANG>::HACKSPERIMENTAL,
        flag_shift_of(PHPISM, flag_prefix(PHPISM) + "disallow_execution_operator"@) matches Some(s) && flag_bit(s) == FlagSet::<PHPISM>::DISALLOW_EXECUTION_OPERATOR,
        flag_shift_of(PHPISM, flag_prefix(PHPISM) + "disable_nontoplevel_declarations"@) matches Some(s) && flag_bit(s) == FlagSet::<PHPISM>::DISABLE_NONTOPLEVEL_DECLARATIONS,
        flag_shift_of(PHPISM, flag_prefix(PHPISM) + "disable_static_closures"@) matches Some(s) && flag_bit(s) == FlagSet::<PHPISM>::DISABLE_STATIC_CLOSURES,
        flag_shift_of(PHPISM, flag_prefix(PHPISM) + "disable_halt_compiler"@) matches Some(s) && flag_bit(s) == FlagSet::<PHPISM>::DISABLE_HALT_COMPILER,
        flag_shift_of(PHP7, flag_prefix(PHP7) + "ltr_assign"@) matches Some(s) && flag_bit(s) == FlagSet::<PHP7>::LTR_ASSIGN,
        flag_shift_of(PHP7, flag_prefix(PHP7) + "uvs"@) matches Some(s) && flag_bit(s) == FlagSet::<PHP7>::UVS,
        flag_shift_of(REPO, flag_prefix(REPO) + "authoritative"@) matches Some(s) && flag_bit(s) == FlagSet::<REPO>::AUTHORITATIVE,
{
    lemma_flag_shift_of_key(EVAL, 0);
    lemma_flag_shift_of_key(COMPILER, 0);
    lemma_flag_shift_of_key(COMPILER, 1);
    lemma_flag_shift_of_key(COMPILER, 2);
    lemma_flag_shift_of_key(HHVM, 0);
    lemma_flag_shift_of_key(HHVM, 1);
    lemma_flag_shift_of_key(HHVM, 2);
    lemma_flag_shift_of_key(HHVM, 3);
    lemma_flag_shift_of_key(HHVM, 4);
    lemma_flag_shift_of_key(HHVM, 5);
    lemma_flag_shift_of_key(HHVM, 6);
    lemma_flag_shift_of_key(HHVM, 10);
    lemma_flag_shift_of_key(HHVM, 9);
    lemma_flag_shift_of_key(HHVM, 7);
    lemma_flag_shift_of_key(HHVM, 8);
    lemma_flag_shift_of_key(HHVM, 11);
    lemma_flag_shift_of_key(LANG, 0);
    lemma_flag_shift_of_key(LANG, 1);
    lemma_flag_shift_of_key(LANG, 2);
    lemma_flag_shift_of_key(LANG, 3);
    lemma_flag_shift_of_key(LANG, 4);
    lemma_flag_shift_of_key(LANG, 5);
    lemma_flag_shift_of_key(LANG, 6);
    lemma_flag_shift_of_key(LANG, 7);
    lemma_flag_shift_of_key(LANG, 8);
    lemma_flag_shift_of_key(LANG, 9);
    lemma_flag_shift_of_key(LANG, 10);
    lemma_flag_shift_of_key(LANG, 11);
    lemma_flag_shift_of_key(LANG, 12);
    lemma_flag_shift_of_key(LANG, 13);
    lemma_flag_shift_of_key(LANG, 14);
    lemma_flag_shift_of_key(PHPISM, 3);
    lemma_flag_shift_of_key(PHPISM, 1);
    lemma_flag_shift_of_key(PHPISM, 2);
    lemma_flag_shift_of_key(PHPISM, 0);
    lemma_flag_shift_of_key(PHP7, 0);
    lemma_flag_shift_of_key(PHP7, 1);
    lemma_flag_shift_of_key(REPO, 0);
    assert(1u64 << 2u64 == 0x4u64 && 1u64 << 0u64 == 0x1u64 && 1u64 << 1u64 == 0x2u64 && 1u64 << 5u64 == 0x20u64 && 1u64 << 33u64 == 0x200000000u64 && 1u64 << 26u64 == 0x4000000u64 && 1u64 << 25u64 == 0x2000000u64 && 1u64 << 27u64 == 0x8000000u64 && 1u64 << 28u64 == 0x10000000u64 && 1u64 << 15u64 == 0x8000u64 && 1u64 << 44u64 == 0x100000000000u64 && 1u64 << 14u64 == 0x4000u64 && 1u64 << 10u64 == 0x400u64 && 1u64 << 7u64 == 0x80u64 && 1u64 << 8u64 == 0x100u64 && 1u64 << 29u64 == 0x20000000u64 && 1u64 << 41u64 == 0x20000000000u64 && 1u64 << 37u64 == 0x2000000000u64 && 1u64 << 45u64 == 0x200000000000u64 && 1u64 << 39u64 == 0x8000000000u64 && 1u64 << 40u64 == 0x10000000000u64 && 1u64 << 38u64 == 0x4000000000u64 && 1u64 << 36u64 == 0x1000000000u64 && 1u64 << 30u64 == 0x40000000u64 && 1u64 << 42u64 == 0x40000000000u64 && 1u64 << 43u64 == 0x80000000000u64 && 1u64 << 35u64 == 0x800000000u64 && 1u64 << 12u64 == 0x1000u64 && 1u64 << 31u64 == 0x80000000u64 && 1u64 << 46u64 == 0x400000000000u64 && 1u64 << 13u64 == 0x2000u64 && 1u64 << 21u64 == 0x200000u64 && 1u64 << 22u64 == 0x400000u64 && 1u64 << 23u64 == 0x800000u64 && 1u64 << 24u64 == 0x1000000u64 && 1u64 << 4u64 == 0x10u64 && 1u64 << 3u64 == 0x8u64 && 1u64 << 9u64 == 0x200u64) by (bit_vector);
}
/// The prefix that the short name of a flag of group `g` begins with: the
/// flags of `hhvm.` are named under `eval.` as those of `eval.` are, and the
/// other groups drop the `hhvm.` of their prefix.
pub open spec fn short_prefix(g: u8) -> Seq<char> {
    if g == EVAL || g == HHVM {
        "eval."@
    } else if g == COMPILER {
        "hack.compiler."@
    } else if g == LANG {
        "hack.lang."@
    } else if g == PHPISM {
        "hack.lang.phpism."@
    } else if g == PHP7 {
        "php7."@
    } else if g == REPO {
        "repo."@
    } else {
        ""@
    }
}

/// The characters of `n` other than `_`, in their order.
pub open spec fn without_underscores(n: Seq<char>) -> Seq<char>
    decreases n.len(),
{
    if n.len() == 0 {
        n
    } else if n.last() == '_' {
        without_underscores(n.drop_last())
    } else {
        without_underscores(n.drop_last()).push(n.last())
    }
}

/// The short name of flag `i` of group `g`: the short prefix of its group
/// followed by its name without underscores.
pub open spec fn short_key(g: u8, i: int) -> Seq<char> {
    short_prefix(g) + without_underscores(flag_table(g)[i].0)
}

#[verifier::rlimit(40)]
proof fn lemma_alias_entry_0()
    ensures
        alias_table()[0].0 == short_key(EVAL, 0),
        alias_table()[0].1@ == flag_key(EVAL, 0),
{
    reveal_strlit("disassembler_source_mapping");
    reveal_strlit("eval.");
    reveal_strlit("eval.disassembler_source_mapping");
    reveal_strlit("eval.disassemblersourcemapping");
    assert("disassembler_source_mapping"@.len() == 27);
    assert("eval."@.len() == 5);
    assert("eval.disassembler_source_mapping"@.len() == 32);
    assert("eval.disassemblersourcemapping"@.len() == 30);
    reveal_with_fuel(without_underscores, 28);
    let t = alias_table();
    assert(t[0].0 == "eval.disassemblersourcemapping"@ && t[0].1@ == "eval.disassembler_source_mapping"@);
    assert(flag_table(EVAL)[0].0 == "disassembler_source_mapping"@);
    let w = without_underscores("disassembler_source_mapping"@);
    assert(w.len() == 25);
    let s = "eval."@ + w;
    assert forall|j: int| 0 <= j < 30 implies s[j] == "eval.disassemblersourcemapping"@[j] by {
        assert(j == 0 || j == 1 || j == 2 || j == 3 || j == 4 || j == 5 || j == 6 || j == 7 || j == 8 || j == 9 || j == 10 || j == 11 || j == 12 || j == 13 || j == 14 || j == 15 || j == 16 || j == 17 || j == 18 || j == 19 || j == 20 || j == 21 || j == 22 || j == 23 || j == 24 || j == 25 || j == 26 || j == 27 || j == 28 || j == 29);
    }
    assert(s =~= "eval.disassemblersourcemapping"@);
    let k = "eval."@ + "disassembler_source_mapping"@;
    assert forall|j: int| 0 <= j < 32 implies k[j] == "eval.disassembler_source_mapping"@[j] by {
        assert(j == 0 || j == 1 || j == 2 || j == 3 || j == 4 || j == 5 || j == 6 || j == 7 || j == 8 || j == 9 || j == 10 || j == 11 || j == 12 || j == 13 || j == 14 || j == 15 || j == 16 || j == 17 || j == 18 || j == 19 || j == 20 || j == 21 || j == 22 || j == 23 || j == 24 || j == 25 || j == 26 || j == 27 || j == 28 || j == 29 || j == 30 || j == 31);
    }
    assert(k =~= "eval.disassembler_source_mapping"@);
}

#[verifier::rlimit(40)]
proof fn lemma_alias_entry_1()
    ensures
        alias_table()[1].0 == short_key(COMPILER, 0),
        alias_table()[1].1@ == flag_key(COMPILER, 0),
{
    reveal_strlit("constant_folding");
    reveal_strlit("hack.compiler.");
    reveal_strlit("hack.compiler.constant_folding");
    reveal_strlit("hack.compiler.constantfolding");
    assert("constant_folding"@.len() == 16);
    assert("hack.compiler."@.len() == 14);
    assert("hack.compiler.constant_folding"@.len() == 30);
    assert("hack.compiler.constantfolding"@.len() == 29);
    reveal_with_fuel(without_underscores, 17);
    let t = alias_table();
    assert(t[1].0 == "hack.compiler.constantfolding"@ && t[1].1@ == "hack.compiler.constant_folding"@);
    assert(flag_table(COMPILER)[0].0 == "constant_folding"@);
    let w = without_underscores("constant_folding"@);
    assert(w.len() == 15);
    let s = "hack.compiler."@ + w;
    assert forall|j: int| 0 <= j < 29 implies s[j] == "hack.compiler.constantfolding"@[j] by {
        assert(j == 0 || j == 1 || j == 2 || j == 3 || j == 4 || j == 5 || j == 6 || j == 7 || j == 8 || j == 9 || j == 10 || j == 11 || j == 12 || j == 13 || j == 14 || j == 15 || j == 16 || j == 17 || j == 18 || j == 19 || j == 20 || j == 21 || j == 22 || j == 23 || j == 24 || j == 25 || j == 26 || j == 27 || j == 28);
    }
    assert(s =~= "hack.compiler.constantfolding"@);
    let k = "hack.compiler."@ + "constant_folding"@;
    assert forall|j: int| 0 <= j < 30 implies k[j] == "hack.compiler.constant_folding"@[j] by {
        assert(j == 0 || j == 1 || j == 2 || j == 3 || j == 4 || j == 5 || j == 6 || j == 7 || j == 8 || j == 9 || j == 10 || j == 11 || j == 12 || j == 13 || j == 14 || j == 15 || j == 16 || j == 17 || j == 18 || j == 19 || j == 20 || j == 21 || j == 22 || j == 23 || j == 24 || j == 25 || j == 26 || j == 27 || j == 28 || j == 29);
    }
    assert(k =~= "hack.compiler.constant_folding"@);
}

#[verifier::rlimit(40)]
proof fn lemma_alias_entry_2()
    ensures
        alias_table()[2].0 == short_key(COMPILER, 1),
        alias_table()[2].1@ == flag_key(COMPILER, 1),
{
    reveal_strlit("hack.compiler.");
    reveal_strlit("hack.compiler.optimize_null_checks");
    reveal_strlit("hack.compiler.optimizenullchecks");
    reveal_strlit("optimize_null_checks");
    assert("hack.compiler."@.len() == 14);
    assert("hack.compiler.optimize_null_checks"@.len() == 34);
    assert("hack.compiler.optimizenullchecks"@.len() == 32);
    assert("optimize_null_checks"@.len() == 20);
    reveal_with_fuel(without_underscores, 21);
    let t = alias_table();
    assert(t[2].0 == "hack.compiler.optimizenullchecks"@ && t[2].1@ == "hack.compiler.optimize_null_checks"@);
    assert(flag_table(COMPILER)[1].0 == "optimize_null_checks"@);
    let w = without_underscores("optimize_null_checks"@);
    assert(w.len() == 18);
    let s = "hack.compiler."@ + w;
    assert forall|j: int| 0 <= j < 32 implies s[j] == "hack.compiler.optimizenullchecks"@[j] by {
        assert(j == 0 || j == 1 || j == 2 || j == 3 || j == 4 || j == 5 || j == 6 || j == 7 || j == 8 || j == 9 || j == 10 || j == 11 || j == 12 || j == 13 || j == 14 || j == 15 || j == 16 || j == 17 || j == 18 || j == 19 || j == 20 || j == 21 || j == 22 || j == 23 || j == 24 || j == 25 || j == 26 || j == 27 || j == 28 || j == 29 || j == 30 || j == 31);
    }
    assert(s =~= "hack.compiler.optimizenullchecks"@);
    let k = "hack.compiler."@ + "optimize_null_checks"@;
    assert forall|j: int| 0 <= j < 34 implies k[j] == "hack.compiler.optimize_null_checks"@[j] by {
        assert(j == 0 || j == 1 || j == 2 || j == 3 || j == 4 || j == 5 || j == 6 || j == 7 || j == 8 || j == 9 || j == 10 || j == 11 || j == 12 || j == 13 || j == 14 || j == 15 || j == 16 || j == 17 || j == 18 || j == 19 || j == 20 || j == 21 || j == 22 || j == 23 || j == 24 || j == 25 || j == 26 || j == 27 || j == 28 || j == 29 || j == 30 || j == 31 || j == 32 || j == 33);
    }
    assert(k =~= "hack.compiler.optimize_null_checks"@);
}

#[verifier::rlimit(40)]
proof fn lemma_alias_entry_3()
    ensures
        alias_table()[3].0 == short_key(COMPILER, 2),
        alias_table()[3].1@ == flag_key(COMPILER, 2),
{
    reveal_strlit("hack.compiler.");
    reveal_strlit("hack.compiler.relabel");
    reveal_strlit("relabel");
    assert("hack.compiler."@.len() == 14);
    assert("hack.compiler.relabel"@.len() == 21);
    assert("relabel"@.len() == 7);
    reveal_with_fuel(without_underscores, 8);
    let t = alias_table();
    assert(t[3].0 == "hack.compiler.relabel"@ && t[3].1@ == "hack.compiler.relabel"@);
    assert(flag_table(COMPILER)[2].0 == "relabel"@);
    let w = without_underscores("relabel"@);
    assert(w.len() == 7);
    let s = "hack.compiler."@ + w;
    assert forall|j: int| 0 <= j < 21 implies s[j] == "hack.compiler.relabel"@[j] by {
        assert(j == 0 || j == 1 || j == 2 || j == 3 || j == 4 || j == 5 || j == 6 || j == 7 || j == 8 || j == 9 || j == 10 || j == 11 || j == 12 || j == 13 || j == 14 || j == 15 || j == 16 || j == 17 || j == 18 || j == 19 || j == 20);
    }
    assert(s =~= "hack.compiler.relabel"@);
    let k = "hack.compiler."@ + "relabel"@;
    assert forall|j: int| 0 <= j < 21 implies k[j] == "hack.compiler.relabel"@[j] by {
        assert(j == 0 || j == 1 || j == 2 || j == 3 || j == 4 || j == 5 || j == 6 || j == 7 || j == 8 || j == 9 || j == 10 || j == 11 || j == 12 || j == 13 || j == 14 || j == 15 || j == 16 || j == 17 || j == 18 || j == 19 || j == 20);
    }
    assert(k =~= "hack.compiler.relabel"@);
}

#[verifier::rlimit(40)]
proof fn lemma_alias_entry_4()
    ensures
        alias_table()[4].0 == short_key(HHVM, 0),
        alias_table()[4].1@ == flag_key(HHVM, 0),
{
    reveal_strlit("array_provenance");
    reveal_strlit("eval.");
    reveal_strlit("eval.arrayprovenance");
    reveal_strlit("hhvm.");
    reveal_strlit("hhvm.array_provenance");
    assert("array_provenance"@.len() == 16);
    assert("eval."@.len() == 5);
    assert("eval.arrayprovenance"@.len() == 20);
    assert("hhvm."@.len() == 5);
    assert("hhvm.array_provenance"@.len() == 21);
    reveal_with_fuel(without_underscores, 17);
    let t = alias_table();
    assert(t[4].0 == "eval.arrayprovenance"@ && t[4].1@ == "hhvm.array_provenance"@);
    assert(flag_table(HHVM)[0].0 == "array_provenance"@);
    let w = without_underscores("array_provenance"@);
    assert(w.len() == 15);
    let s = "eval."@ + w;
    assert forall|j: int| 0 <= j < 20 implies s[j] == "eval.arrayprovenance"@[j] by {
        assert(j == 0 || j == 1 || j == 2 || j == 3 || j == 4 || j == 5 || j == 6 || j == 7 || j == 8 || j == 9 || j == 10 || j == 11 || j == 12 || j == 13 || j == 14 || j == 15 || j == 16 || j == 17 || j == 18 || j == 19);
    }
    assert(s =~= "eval.arrayprovenance"@);
    let k = "hhvm."@ + "array_provenance"@;
    assert forall|j: int| 0 <= j < 21 implies k[j] == "hhvm.array_provenance"@[j] by {
        assert(j == 0 || j == 1 || j == 2 || j == 3 || j == 4 || j == 5 || j == 6 || j == 7 || j == 8 || j == 9 || j == 10 || j == 11 || j == 12 || j == 13 || j == 14 || j == 15 || j == 16 || j == 17 || j == 18 || j == 19 || j == 20);
    }
    assert(k =~= "hhvm.array_provenance"@);
}

#[verifier::rlimit(40)]
proof fn lemma_alias_entry_5()
    ensures
        alias_table()[5].0 == short_key(HHVM, 1),
        alias_table()[5].1@ == flag_key(HHVM, 1),
{
    reveal_strlit("emit_cls_meth_pointers");
    reveal_strlit("eval.");
    reveal_strlit("eval.emitclsmethpointers");
    reveal_strlit("hhvm.");
    reveal_strlit("hhvm.emit_cls_meth_pointers");
    assert("emit_cls_meth_pointers"@.len() == 22);
    assert("eval."@.len() == 5);
    assert("eval.emitclsmethpointers"@.len() == 24);
    assert("hhvm."@.len() == 5);
    assert("hhvm.emit_cls_meth_pointers"@.len() == 27);
    reveal_with_fuel(without_underscores, 23);
    let t = alias_table();
    assert(t[5].0 == "eval.emitclsmethpointers"@ && t[5].1@ == "hhvm.emit_cls_meth_pointers"@);
    assert(flag_table(HHVM)[1].0 == "emit_cls_meth_pointers"@);
    let w = without_underscores("emit_cls_meth_pointers"@);
    assert(w.len() == 19);
    let s = "eval."@ + w;
    assert forall|j: int| 0 <= j < 24 implies s[j] == "eval.emitclsmethpointers"@[j] by {
        assert(j == 0 || j == 1 || j == 2 || j == 3 || j == 4 || j == 5 || j == 6 || j == 7 || j == 8 || j == 9 || j == 10 || j == 11 || j == 12 || j == 13 || j == 14 || j == 15 || j == 16 || j == 17 || j == 18 || j == 19 || j == 20 || j == 21 || j == 22 || j == 23);
    }
    assert(s =~= "eval.emitclsmethpointers"@);
    let k = "hhvm."@ + "emit_cls_meth_pointers"@;
    assert forall|j: int| 0 <= j < 27 implies k[j] == "hhvm.emit_cls_meth_pointers"@[j] by {
        assert(j == 0 || j == 1 || j == 2 || j == 3 || j == 4 || j == 5 || j == 6 || j == 7 || j == 8 || j == 9 || j == 10 || j == 11 || j == 12 || j == 13 || j == 14 || j == 15 || j == 16 || j == 17 || j == 18 || j == 19 || j == 20 || j == 21 || j == 22 || j == 23 || j == 24 || j == 25 || j == 26);
    }
    assert(k =~= "hhvm.emit_cls_meth_pointers"@);
}

#[verifier::rlimit(40)]
proof fn lemma_alias_entry_6()
    ensures
        alias_table()[6].0 == short_key(HHVM, 2),
        alias_table()[6].1@ == flag_key(HHVM, 2),
{
    reveal_strlit("emit_func_pointers");
    reveal_strlit("eval.");
    reveal_strlit("eval.emitfuncpointers");
    reveal_strlit("hhvm.");
    reveal_strlit("hhvm.emit_func_pointers");
    assert("emit_func_pointers"@.len() == 18);
    assert("eval."@.len() == 5);
    assert("eval.emitfuncpointers"@.len() == 21);
    assert("hhvm."@.len() == 5);
    assert("hhvm.emit_func_pointers"@.len() == 23);
    reveal_with_fuel(without_underscores, 19);
    let t = alias_table();
    assert(t[6].0 == "eval.emitfuncpointers"@ && t[6].1@ == "hhvm.emit_func_pointers"@);
    assert(flag_table(HHVM)[2].0 == "emit_func_pointers"@);
    let w = without_underscores("emit_func_pointers"@);
    assert(w.len() == 16);
    let s = "eval."@ + w;
    assert forall|j: int| 0 <= j < 21 implies s[j] == "eval.emitfuncpointers"@[j] by {
        assert(j == 0 || j == 1 || j == 2 || j == 3 || j == 4 || j == 5 || j == 6 || j == 7 || j == 8 || j == 9 || j == 10 || j == 11 || j == 12 || j == 13 || j == 14 || j == 15 || j == 16 || j == 17 || j == 18 || j == 19 || j == 20);
    }
    assert(s =~= "eval.emitfuncpointers"@);
    let k = "hhvm."@ + "emit_func_pointers"@;
    assert forall|j: int| 0 <= j < 23 implies k[j] == "hhvm.emit_func_pointers"@[j] by {
        assert(j == 0 || j == 1 || j == 2 || j == 3 || j == 4 || j == 5 || j == 6 || j == 7 || j == 8 || j == 9 || j == 10 || j == 11 || j == 12 || j == 13 || j == 14 || j == 15 || j == 16 || j == 17 || j == 18 || j == 19 || j == 20 || j == 21 || j == 22);
    }
    assert(k =~= "hhvm.emit_func_pointers"@);
}

#[verifier::rlimit(40)]
proof fn lemma_alias_entry_7()
    ensures
        alias_table()[7].0 == short_key(HHVM, 3),
        alias_table()[7].1@ == flag_key(HHVM, 3),
{
    reveal_strlit("emit_inst_meth_pointers");
    reveal_strlit("eval.");
    reveal_strlit("eval.emitinstmethpointers");
    reveal_strlit("hhvm.");
    reveal_strlit("hhvm.emit_inst_meth_pointers");
    assert("emit_inst_meth_pointers"@.len() == 23);
    assert("eval."@.len() == 5);
    assert("eval.emitinstmethpointers"@.len() == 25);
    assert("hhvm."@.len() == 5);
    assert("hhvm.emit_inst_meth_pointers"@.len() == 28);
    reveal_with_fuel(without_underscores, 24);
    let t = alias_table();
    assert(t[7].0 == "eval.emitinstmethpointers"@ && t[7].1@ == "hhvm.emit_inst_meth_pointers"@);
    assert(flag_table(HHVM)[3].0 == "emit_inst_meth_pointers"@);
    let w = without_underscores("emit_inst_meth_pointers"@);
    assert(w.len() == 20);
    let s = "eval."@ + w;
    assert forall|j: int| 0 <= j < 25 implies s[j] == "eval.emitinstmethpointers"@[j] by {
        assert(j == 0 || j == 1 || j == 2 || j == 3 || j == 4 || j == 5 || j == 6 || j == 7 || j == 8 || j == 9 || j == 10 || j == 11 || j == 12 || j == 13 || j == 14 || j == 15 || j == 16 || j == 17 || j == 18 || j == 19 || j == 20 || j == 21 || j == 22 || j == 23 || j == 24);
    }
    assert(s =~= "eval.emitinstmethpointers"@);
    let k = "hhvm."@ + "emit_inst_meth_pointers"@;
    assert forall|j: int| 0 <= j < 28 implies k[j] == "hhvm.emit_inst_meth_pointers"@[j] by {
        assert(j == 0 || j == 1 || j == 2 || j == 3 || j == 4 || j == 5 || j == 6 || j == 7 || j == 8 || j == 9 || j == 10 || j == 11 || j == 12 || j == 13 || j == 14 || j == 15 || j == 16 || j == 17 || j == 18 || j == 19 || j == 20 || j == 21 || j == 22 || j == 23 || j == 24 || j == 25 || j == 26 || j == 27);
    }
    assert(k =~= "hhvm.emit_inst_meth_pointers"@);
}

#[verifier::rlimit(40)]
proof fn lemma_alias_entry_8()
    ensures
        alias_table()[8].0 == short_key(HHVM, 4),
        alias_table()[8].1@ == flag_key(HHVM, 4),
{
    reveal_strlit("emit_meth_caller_func_pointers");
    reveal_strlit("eval.");
    reveal_strlit("eval.emitmethcallerfuncpointers");
    reveal_strlit("hhvm.");
    reveal_strlit("hhvm.emit_meth_caller_func_pointers");
    assert("emit_meth_caller_func_pointers"@.len() == 30);
    assert("eval."@.len() == 5);
    assert("eval.emitmethcallerfuncpointers"@.len() == 31);
    assert("hhvm."@.len() == 5);
    assert("hhvm.emit_meth_caller_func_pointers"@.len() == 35);
    reveal_with_fuel(without_underscores, 31);
    let t = alias_table();
    assert(t[8].0 == "eval.emitmethcallerfuncpointers"@ && t[8].1@ == "hhvm.emit_meth_caller_func_pointers"@);
    assert(flag_table(HHVM)[4].0 == "emit_meth_caller_func_pointers"@);
    let w = without_underscores("emit_meth_caller_func_pointers"@);
    assert(w.len() == 26);
    let s = "eval."@ + w;
    assert forall|j: int| 0 <= j < 31 implies s[j] == "eval.emitmethcallerfuncpointers"@[j] by {
        assert(j == 0 || j == 1 || j == 2 || j == 3 || j == 4 || j == 5 || j == 6 || j == 7 || j == 8 || j == 9 || j == 10 || j == 11 || j == 12 || j == 13 || j == 14 || j == 15 || j == 16 || j == 17 || j == 18 || j == 19 || j == 20 || j == 21 || j == 22 || j == 23 || j == 24 || j == 25 || j == 26 || j == 27 || j == 28 || j == 29 || j == 30);
    }
    assert(s =~= "eval.emitmethcallerfuncpointers"@);
    let k = "hhvm."@ + "emit_meth_caller_func_pointers"@;
    assert forall|j: int| 0 <= j < 35 implies k[j] == "hhvm.emit_meth_caller_func_pointers"@[j] by {
        assert(j == 0 || j == 1 || j == 2 || j == 3 || j == 4 || j == 5 || j == 6 || j == 7 || j == 8 || j == 9 || j == 10 || j == 11 || j == 12 || j == 13 || j == 14 || j == 15 || j == 16 || j == 17 || j == 18 || j == 19 || j == 20 || j == 21 || j == 22 || j == 23 || j == 24 || j == 25 || j == 26 || j == 27 || j == 28 || j == 29 || j == 30 || j == 31 || j == 32 || j == 33 || j == 34);
    }
    assert(k =~= "hhvm.emit_meth_caller_func_pointers"@);
}

#[verifier::rlimit(40)]
proof fn lemma_alias_entry_9()
    ensures
        alias_table()[9].0 == short_key(HHVM, 5),
        alias_table()[9].1@ == flag_key(HHVM, 5),
{
    reveal_strlit("enable_intrinsics_extension");
    reveal_strlit("eval.");
    reveal_strlit("eval.enableintrinsicsextension");
    reveal_strlit("hhvm.");
    reveal_strlit("hhvm.enable_intrinsics_extension");
    assert("enable_intrinsics_extension"@.len() == 27);
    assert("eval."@.len() == 5);
    assert("eval.enableintrinsicsextension"@.len() == 30);
    assert("hhvm."@.len() == 5);
    assert("hhvm.enable_intrinsics_extension"@.len() == 32);
    reveal_with_fuel(without_underscores, 28);
    let t = alias_table();
    assert(t[9].0 == "eval.enableintrinsicsextension"@ && t[9].1@ == "hhvm.enable_intrinsics_extension"@);
    assert(flag_table(HHVM)[5].0 == "enable_intrinsics_extension"@);
    let w = without_underscores("enable_intrinsics_extension"@);
    assert(w.len() == 25);
    let s = "eval."@ + w;
    assert forall|j: int| 0 <= j < 30 implies s[j] == "eval.enableintrinsicsextension"@[j] by {
        assert(j == 0 || j == 1 || j == 2 || j == 3 || j == 4 || j == 5 || j == 6 || j == 7 || j == 8 || j == 9 || j == 10 || j == 11 || j == 12 || j == 13 || j == 14 || j == 15 || j == 16 || j == 17 || j == 18 || j == 19 || j == 20 || j == 21 || j == 22 || j == 23 || j == 24 || j == 25 || j == 26 || j == 27 || j == 28 || j == 29);
    }
    assert(s =~= "eval.enableintrinsicsextension"@);
    let k = "hhvm."@ + "enable_intrinsics_extension"@;
    assert forall|j: int| 0 <= j < 32 implies k[j] == "hhvm.enable_intrinsics_extension"@[j] by {
        assert(j == 0 || j == 1 || j == 2 || j == 3 || j == 4 || j == 5 || j == 6 || j == 7 || j == 8 || j == 9 || j == 10 || j == 11 || j == 12 || j == 13 || j == 14 || j == 15 || j == 16 || j == 17 || j == 18 || j == 19 || j == 20 || j == 21 || j == 22 || j == 23 || j == 24 || j == 25 || j == 26 || j == 27 || j == 28 || j == 29 || j == 30 || j == 31);
    }
    assert(k =~= "hhvm.enable_intrinsics_extension"@);
}

#[verifier::rlimit(40)]
proof fn lemma_alias_entry_10()
    ensures
        alias_table()[10].0 == short_key(HHVM, 6),
        alias_table()[10].1@ == flag_key(HHVM, 6),
{
    reveal_strlit("enforce_generics_ub");
    reveal_strlit("eval.");
    reveal_strlit("eval.enforcegenericsub");
    reveal_strlit("hhvm.");
    reveal_strlit("hhvm.enforce_generics_ub");
    assert("enforce_generics_ub"@.len() == 19);
    assert("eval."@.len() == 5);
    assert("eval.enforcegenericsub"@.len() == 22);
    assert("hhvm."@.len() == 5);
    assert("hhvm.enforce_generics_ub"@.len() == 24);
    reveal_with_fuel(without_underscores, 20);
    let t = alias_table();
    assert(t[10].0 == "eval.enforcegenericsub"@ && t[10].1@ == "hhvm.enforce_generics_ub"@);
    assert(flag_table(HHVM)[6].0 == "enforce_generics_ub"@);
    let w = without_underscores("enforce_generics_ub"@);
    assert(w.len() == 17);
    let s = "eval."@ + w;
    assert forall|j: int| 0 <= j < 22 implies s[j] == "eval.enforcegenericsub"@[j] by {
        assert(j == 0 || j == 1 || j == 2 || j == 3 || j == 4 || j == 5 || j == 6 || j == 7 || j == 8 || j == 9 || j == 10 || j == 11 || j == 12 || j == 13 || j == 14 || j == 15 || j == 16 || j == 17 || j == 18 || j == 19 || j == 20 || j == 21);
    }
    assert(s =~= "eval.enforcegenericsub"@);
    let k = "hhvm."@ + "enforce_generics_ub"@;
    assert forall|j: int| 0 <= j < 24 implies k[j] == "hhvm.enforce_generics_ub"@[j] by {
        assert(j == 0 || j == 1 || j == 2 || j == 3 || j == 4 || j == 5 || j == 6 || j == 7 || j == 8 || j == 9 || j == 10 || j == 11 || j == 12 || j == 13 || j == 14 || j == 15 || j == 16 || j == 17 || j == 18 || j == 19 || j == 20 || j == 21 || j == 22 || j == 23);
    }
    assert(k =~= "hhvm.enforce_generics_ub"@);
}

#[verifier::rlimit(40)]
proof fn lemma_alias_entry_11()
    ensures
        alias_table()[11].0 == short_key(HHVM, 10),
        alias_table()[11].1@ == flag_key(HHVM, 10),
{
    reveal_strlit("eval.");
    reveal_strlit("eval.logexterncompilerperf");
    reveal_strlit("hhvm.");
    reveal_strlit("hhvm.log_extern_compiler_perf");
    reveal_strlit("log_extern_compiler_perf");
    assert("eval."@.len() == 5);
    assert("eval.logexterncompilerperf"@.len() == 26);
    assert("hhvm."@.len() == 5);
    assert("hhvm.log_extern_compiler_perf"@.len() == 29);
    assert("log_extern_compiler_perf"@.len() == 24);
    reveal_with_fuel(without_underscores, 25);
    let t = alias_table();
    assert(t[11].0 == "eval.logexterncompilerperf"@ && t[11].1@ == "hhvm.log_extern_compiler_perf"@);
    assert(flag_table(HHVM)[10].0 == "log_extern_compiler_perf"@);
    let w = without_underscores("log_extern_compiler_perf"@);
    assert(w.len() == 21);
    let s = "eval."@ + w;
    assert forall|j: int| 0 <= j < 26 implies s[j] == "eval.logexterncompilerperf"@[j] by {
        assert(j == 0 || j == 1 || j == 2 || j == 3 || j == 4 || j == 5 || j == 6 || j == 7 || j == 8 || j == 9 || j == 10 || j == 11 || j == 12 || j == 13 || j == 14 || j == 15 || j == 16 || j == 17 || j == 18 || j == 19 || j == 20 || j == 21 || j == 22 || j == 23 || j == 24 || j == 25);
    }
    assert(s =~= "eval.logexterncompilerperf"@);
    let k = "hhvm."@ + "log_extern_compiler_perf"@;
    assert forall|j: int| 0 <= j < 29 implies k[j] == "hhvm.log_extern_compiler_perf"@[j] by {
        assert(j == 0 || j == 1 || j == 2 || j == 3 || j == 4 || j == 5 || j == 6 || j == 7 || j == 8 || j == 9 || j == 10 || j == 11 || j == 12 || j == 13 || j == 14 || j == 15 || j == 16 || j == 17 || j == 18 || j == 19 || j == 20 || j == 21 || j == 22 || j == 23 || j == 24 || j == 25 || j == 26 || j == 27 || j == 28);
    }
    assert(k =~= "hhvm.log_extern_compiler_perf"@);
}

#[verifier::rlimit(40)]
proof fn lemma_alias_entry_12()
    ensures
        alias_table()[12].0 == short_key(HHVM, 9),
        alias_table()[12].1@ == flag_key(HHVM, 9),
{
    reveal_strlit("eval.");
    reveal_strlit("eval.jitenablerenamefunction");
    reveal_strlit("hhvm.");
    reveal_strlit("hhvm.jit_enable_rename_function");
    reveal_strlit("jit_enable_rename_function");
    assert("eval."@.len() == 5);
    assert("eval.jitenablerenamefunction"@.len() == 28);
    assert("hhvm."@.len() == 5);
    assert("hhvm.jit_enable_rename_function"@.len() == 31);
    assert("jit_enable_rename_function"@.len() == 26);
    reveal_with_fuel(without_underscores, 27);
    let t = alias_table();
    assert(t[12].0 == "eval.jitenablerenamefunction"@ && t[12].1@ == "hhvm.jit_enable_rename_function"@);
    assert(flag_table(HHVM)[9].0 == "jit_enable_rename_function"@);
    let w = without_underscores("jit_enable_rename_function"@);
    assert(w.len() == 23);
    let s = "eval."@ + w;
    assert forall|j: int| 0 <= j < 28 implies s[j] == "eval.jitenablerenamefunction"@[j] by {
        assert(j == 0 || j == 1 || j == 2 || j == 3 || j == 4 || j == 5 || j == 6 || j == 7 || j == 8 || j == 9 || j == 10 || j == 11 || j == 12 || j == 13 || j == 14 || j == 15 || j == 16 || j == 17 || j == 18 || j == 19 || j == 20 || j == 21 || j == 22 || j == 23 || j == 24 || j == 25 || j == 26 || j == 27);
    }
    assert(s =~= "eval.jitenablerenamefunction"@);
    let k = "hhvm."@ + "jit_enable_rename_function"@;
    assert forall|j: int| 0 <= j < 31 implies k[j] == "hhvm.jit_enable_rename_function"@[j] by {
        assert(j == 0 || j == 1 || j == 2 || j == 3 || j == 4 || j == 5 || j == 6 || j == 7 || j == 8 || j == 9 || j == 10 || j == 11 || j == 12 || j == 13 || j == 14 || j == 15 || j == 16 || j == 17 || j == 18 || j == 19 || j == 20 || j == 21 || j == 22 || j == 23 || j == 24 || j == 25 || j == 26 || j == 27 || j == 28 || j == 29 || j == 30);
    }
    assert(k =~= "hhvm.jit_enable_rename_function"@);
}

#[verifier::rlimit(40)]
proof fn lemma_alias_entry_13()
    ensures
        alias_table()[13].0 == short_key(HHVM, 7),
        alias_table()[13].1@ == flag_key(HHVM, 7),
{
    reveal_strlit("eval.");
    reveal_strlit("eval.hackarrcompatnotices");
    reveal_strlit("hack_arr_compat_notices");
    reveal_strlit("hhvm.");
    reveal_strlit("hhvm.hack_arr_compat_notices");
    assert("eval."@.len() == 5);
    assert("eval.hackarrcompatnotices"@.len() == 25);
    assert("hack_arr_compat_notices"@.len() == 23);
    assert("hhvm."@.len() == 5);
    assert("hhvm.hack_arr_compat_notices"@.len() == 28);
    reveal_with_fuel(without_underscores, 24);
    let t = alias_table();
    assert(t[13].0 == "eval.hackarrcompatnotices"@ && t[13].1@ == "hhvm.hack_arr_compat_notices"@);
    assert(flag_table(HHVM)[7].0 == "hack_arr_compat_notices"@);
    let w = without_underscores("hack_arr_compat_notices"@);
    assert(w.len() == 20);
    let s = "eval."@ + w;
    assert forall|j: int| 0 <= j < 25 implies s[j] == "eval.hackarrcompatnotices"@[j] by {
        assert(j == 0 || j == 1 || j == 2 || j == 3 || j == 4 || j == 5 || j == 6 || j == 7 || j == 8 || j == 9 || j == 10 || j == 11 || j == 12 || j == 13 || j == 14 || j == 15 || j == 16 || j == 17 || j == 18 || j == 19 || j == 20 || j == 21 || j == 22 || j == 23 || j == 24);
    }
    assert(s =~= "eval.hackarrcompatnotices"@);
    let k = "hhvm."@ + "hack_arr_compat_notices"@;
    assert forall|j: int| 0 <= j < 28 implies k[j] == "hhvm.hack_arr_compat_notices"@[j] by {
        assert(j == 0 || j == 1 || j == 2 || j == 3 || j == 4 || j == 5 || j == 6 || j == 7 || j == 8 || j == 9 || j == 10 || j == 11 || j == 12 || j == 13 || j == 14 || j == 15 || j == 16 || j == 17 || j == 18 || j == 19 || j == 20 || j == 21 || j == 22 || j == 23 || j == 24 || j == 25 || j == 26 || j == 27);
    }
    assert(k =~= "hhvm.hack_arr_compat_notices"@);
}

#[verifier::rlimit(40)]
proof fn lemma_alias_entry_14()
    ensures
        alias_table()[14].0 == short_key(HHVM, 8),
        alias_table()[14].1@ == flag_key(HHVM, 8),
{
    reveal_strlit("eval.");
    reveal_strlit("eval.hackarrdvarrs");
    reveal_strlit("hack_arr_dv_arrs");
    reveal_strlit("hhvm.");
    reveal_strlit("hhvm.hack_arr_dv_arrs");
    assert("eval."@.len() == 5);
    assert("eval.hackarrdvarrs"@.len() == 18);
    assert("hack_arr_dv_arrs"@.len() == 16);
    assert("hhvm."@.len() == 5);
    assert("hhvm.hack_arr_dv_arrs"@.len() == 21);
    reveal_with_fuel(without_underscores, 17);
    let t = alias_table();
    assert(t[14].0 == "eval.hackarrdvarrs"@ && t[14].1@ == "hhvm.hack_arr_dv_arrs"@);
    assert(flag_table(HHVM)[8].0 == "hack_arr_dv_arrs"@);
    let w = without_underscores("hack_arr_dv_arrs"@);
    assert(w.len() == 13);
    let s = "eval."@ + w;
    assert forall|j: int| 0 <= j < 18 implies s[j] == "eval.hackarrdvarrs"@[j] by {
        assert(j == 0 || j == 1 || j == 2 || j == 3 || j == 4 || j == 5 || j == 6 || j == 7 || j == 8 || j == 9 || j == 10 || j == 11 || j == 12 || j == 13 || j == 14 || j == 15 || j == 16 || j == 17);
    }
    assert(s =~= "eval.hackarrdvarrs"@);
    let k = "hhvm."@ + "hack_arr_dv_arrs"@;
    assert forall|j: int| 0 <= j < 21 implies k[j] == "hhvm.hack_arr_dv_arrs"@[j] by {
        assert(j == 0 || j == 1 || j == 2 || j == 3 || j == 4 || j == 5 || j == 6 || j == 7 || j == 8 || j == 9 || j == 10 || j == 11 || j == 12 || j == 13 || j == 14 || j == 15 || j == 16 || j == 17 || j == 18 || j == 19 || j == 20);
    }
    assert(k =~= "hhvm.hack_arr_dv_arrs"@);
}

#[verifier::rlimit(40)]
proof fn lemma_alias_entry_15()
    ensures
        alias_table()[15].0 == short_key(HHVM, 11),
        alias_table()[15].1@ == flag_key(HHVM, 11),
{
    reveal_strlit("eval.");
    reveal_strlit("eval.rxisenabled");
    reveal_strlit("hhvm.");
    reveal_strlit("hhvm.rx_is_enabled");
    reveal_strlit("rx_is_enabled");
    assert("eval."@.len() == 5);
    assert("eval.rxisenabled"@.len() == 16);
    assert("hhvm."@.len() == 5);
    assert("hhvm.rx_is_enabled"@.len() == 18);
    assert("rx_is_enabled"@.len() == 13);
    reveal_with_fuel(without_underscores, 14);
    let t = alias_table();
    assert(t[15].0 == "eval.rxisenabled"@ && t[15].1@ == "hhvm.rx_is_enabled"@);
    assert(flag_table(HHVM)[11].0 == "rx_is_enabled"@);
    let w = without_underscores("rx_is_enabled"@);
    assert(w.len() == 11);
    let s = "eval."@ + w;
    assert forall|j: int| 0 <= j < 16 implies s[j] == "eval.rxisenabled"@[j] by {
        assert(j == 0 || j == 1 || j == 2 || j == 3 || j == 4 || j == 5 || j == 6 || j == 7 || j == 8 || j == 9 || j == 10 || j == 11 || j == 12 || j == 13 || j == 14 || j == 15);
    }
    assert(s =~= "eval.rxisenabled"@);
    let k = "hhvm."@ + "rx_is_enabled"@;
    assert forall|j: int| 0 <= j < 18 implies k[j] == "hhvm.rx_is_enabled"@[j] by {
        assert(j == 0 || j == 1 || j == 2 || j == 3 || j == 4 || j == 5 || j == 6 || j == 7 || j == 8 || j == 9 || j == 10 || j == 11 || j == 12 || j == 13 || j == 14 || j == 15 || j == 16 || j == 17);
    }
    assert(k =~= "hhvm.rx_is_enabled"@);
}

#[verifier::rlimit(40)]
proof fn lemma_alias_entry_16()
    ensures
        alias_table()[16].0 == short_key(LANG, 0),
        alias_table()[16].1@ == flag_key(LANG, 0),
{
    reveal_strlit("abstract_static_props");
    reveal_strlit("hack.lang.");
    reveal_strlit("hack.lang.abstractstaticprops");
    reveal_strlit("hhvm.hack.lang.");
    reveal_strlit("hhvm.hack.lang.abstract_static_props");
    assert("abstract_static_props"@.len() == 21);
    assert("hack.lang."@.len() == 10);
    assert("hack.lang.abstractstaticprops"@.len() == 29);
    assert("hhvm.hack.lang."@.len() == 15);
    assert("hhvm.hack.lang.abstract_static_props"@.len() == 36);
    reveal_with_fuel(without_underscores, 22);
    let t = alias_table();
    assert(t[16].0 == "hack.lang.abstractstaticprops"@ && t[16].1@ == "hhvm.hack.lang.abstract_static_props"@);
    assert(flag_table(LANG)[0].0 == "abstract_static_props"@);
    let w = without_underscores("abstract_static_props"@);
    assert(w.len() == 19);
    let s = "hack.lang."@ + w;
    assert forall|j: int| 0 <= j < 29 implies s[j] == "hack.lang.abstractstaticprops"@[j] by {
        assert(j == 0 || j == 1 || j == 2 || j == 3 || j == 4 || j == 5 || j == 6 || j == 7 || j == 8 || j == 9 || j == 10 || j == 11 || j == 12 || j == 13 || j == 14 || j == 15 || j == 16 || j == 17 || j == 18 || j == 19 || j == 20 || j == 21 || j == 22 || j == 23 || j == 24 || j == 25 || j == 26 || j == 27 || j == 28);
    }
    assert(s =~= "hack.lang.abstractstaticprops"@);
    let k = "hhvm.hack.lang."@ + "abstract_static_props"@;
    assert forall|j: int| 0 <= j < 36 implies k[j] == "hhvm.hack.lang.abstract_static_props"@[j] by {
        assert(j == 0 || j == 1 || j == 2 || j == 3 || j == 4 || j == 5 || j == 6 || j == 7 || j == 8 || j == 9 || j == 10 || j == 11 || j == 12 || j == 13 || j == 14 || j == 15 || j == 16 || j == 17 || j == 18 || j == 19 || j == 20 || j == 21 || j == 22 || j == 23 || j == 24 || j == 25 || j == 26 || j == 27 || j == 28 || j == 29 || j == 30 || j == 31 || j == 32 || j == 33 || j == 34 || j == 35);
    }
    assert(k =~= "hhvm.hack.lang.abstract_static_props"@);
}

#[verifier::rlimit(40)]
proof fn lemma_alias_entry_17()
    ensures
        alias_table()[17].0 == short_key(LANG, 1),
        alias_table()[17].1@ == flag_key(LANG, 1),
{
    reveal_strlit("allow_new_attribute_syntax");
    reveal_strlit("hack.lang.");
    reveal_strlit("hack.lang.allownewattributesyntax");
    reveal_strlit("hhvm.hack.lang.");
    reveal_strlit("hhvm.hack.lang.allow_new_attribute_syntax");
    assert("allow_new_attribute_syntax"@.len() == 26);
    assert("hack.lang."@.len() == 10);
    assert("hack.lang.allownewattributesyntax"@.len() == 33);
    assert("hhvm.hack.lang."@.len() == 15);
    assert("hhvm.hack.lang.allow_new_attribute_syntax"@.len() == 41);
    reveal_with_fuel(without_underscores, 27);
    let t = alias_table();
    assert(t[17].0 == "hack.lang.allownewattributesyntax"@ && t[17].1@ == "hhvm.hack.lang.allow_new_attribute_syntax"@);
    assert(flag_table(LANG)[1].0 == "allow_new_attribute_syntax"@);
    let w = without_underscores("allow_new_attribute_syntax"@);
    assert(w.len() == 23);
    let s = "hack.lang."@ + w;
    assert forall|j: int| 0 <= j < 33 implies s[j] == "hack.lang.allownewattributesyntax"@[j] by {
        assert(j == 0 || j == 1 || j == 2 || j == 3 || j == 4 || j == 5 || j == 6 || j == 7 || j == 8 || j == 9 || j == 10 || j == 11 || j == 12 || j == 13 || j == 14 || j == 15 || j == 16 || j == 17 || j == 18 || j == 19 || j == 20 || j == 21 || j == 22 || j == 23 || j == 24 || j == 25 || j == 26 || j == 27 || j == 28 || j == 29 || j == 30 || j == 31 || j == 32);
    }
    assert(s =~= "hack.lang.allownewattributesyntax"@);
    let k = "hhvm.hack.lang."@ + "allow_new_attribute_syntax"@;
    assert forall|j: int| 0 <= j < 41 implies k[j] == "hhvm.hack.lang.allow_new_attribute_syntax"@[j] by {
        assert(j == 0 || j == 1 || j == 2 || j == 3 || j == 4 || j == 5 || j == 6 || j == 7 || j == 8 || j == 9 || j == 10 || j == 11 || j == 12 || j == 13 || j == 14 || j == 15 || j == 16 || j == 17 || j == 18 || j == 19 || j == 20 || j == 21 || j == 22 || j == 23 || j == 24 || j == 25 || j == 26 || j == 27 || j == 28 || j == 29 || j == 30 || j == 31 || j == 32 || j == 33 || j == 34 || j == 35 || j == 36 || j == 37 || j == 38 || j == 39 || j == 40);
    }
    assert(k =~= "hhvm.hack.lang.allow_new_attribute_syntax"@);
}

#[verifier::rlimit(40)]
proof fn lemma_alias_entry_18()
    ensures
        alias_table()[18].0 == short_key(LANG, 2),
        alias_table()[18].1@ == flag_key(LANG, 2),
{
    reveal_strlit("check_int_overflow");
    reveal_strlit("hack.lang.");
    reveal_strlit("hack.lang.checkintoverflow");
    reveal_strlit("hhvm.hack.lang.");
    reveal_strlit("hhvm.hack.lang.check_int_overflow");
    assert("check_int_overflow"@.len() == 18);
    assert("hack.lang."@.len() == 10);
    assert("hack.lang.checkintoverflow"@.len() == 26);
    assert("hhvm.hack.lang."@.len() == 15);
    assert("hhvm.hack.lang.check_int_overflow"@.len() == 33);
    reveal_with_fuel(without_underscores, 19);
    let t = alias_table();
    assert(t[18].0 == "hack.lang.checkintoverflow"@ && t[18].1@ == "hhvm.hack.lang.check_int_overflow"@);
    assert(flag_table(LANG)[2].0 == "check_int_overflow"@);
    let w = without_underscores("check_int_overflow"@);
    assert(w.len() == 16);
    let s = "hack.lang."@ + w;
    assert forall|j: int| 0 <= j < 26 implies s[j] == "hack.lang.checkintoverflow"@[j] by {
        assert(j == 0 || j == 1 || j == 2 || j == 3 || j == 4 || j == 5 || j == 6 || j == 7 || j == 8 || j == 9 || j == 10 || j == 11 || j == 12 || j == 13 || j == 14 || j == 15 || j == 16 || j == 17 || j == 18 || j == 19 || j == 20 || j == 21 || j == 22 || j == 23 || j == 24 || j == 25);
    }
    assert(s =~= "hack.lang.checkintoverflow"@);
    let k = "hhvm.hack.lang."@ + "check_int_overflow"@;
    assert forall|j: int| 0 <= j < 33 implies k[j] == "hhvm.hack.lang.check_int_overflow"@[j] by {
        assert(j == 0 || j == 1 || j == 2 || j == 3 || j == 4 || j == 5 || j == 6 || j == 7 || j == 8 || j == 9 || j == 10 || j == 11 || j == 12 || j == 13 || j == 14 || j == 15 || j == 16 || j == 17 || j == 18 || j == 19 || j == 20 || j == 21 || j == 22 || j == 23 || j == 24 || j == 25 || j == 26 || j == 27 || j == 28 || j == 29 || j == 30 || j == 31 || j == 32);
    }
    assert(k =~= "hhvm.hack.lang.check_int_overflow"@);
}

#[verifier::rlimit(40)]
proof fn lemma_alias_entry_19()
    ensures
        alias_table()[19].0 == short_key(LANG, 3),
        alias_table()[19].1@ == flag_key(LANG, 3),
{
    reveal_strlit("const_default_func_args");
    reveal_strlit("hack.lang.");
    reveal_strlit("hack.lang.constdefaultfuncargs");
    reveal_strlit("hhvm.hack.lang.");
    reveal_strlit("hhvm.hack.lang.const_default_func_args");
    assert("const_default_func_args"@.len() == 23);
    assert("hack.lang."@.len() == 10);
    assert("hack.lang.constdefaultfuncargs"@.len() == 30);
    assert("hhvm.hack.lang."@.len() == 15);
    assert("hhvm.hack.lang.const_default_func_args"@.len() == 38);
    reveal_with_fuel(without_underscores, 24);
    let t = alias_table();
    assert(t[19].0 == "hack.lang.constdefaultfuncargs"@ && t[19].1@ == "hhvm.hack.lang.const_default_func_args"@);
    assert(flag_table(LANG)[3].0 == "const_default_func_args"@);
    let w = without_underscores("const_default_func_args"@);
    assert(w.len() == 20);
    let s = "hack.lang."@ + w;
    assert forall|j: int| 0 <= j < 30 implies s[j] == "hack.lang.constdefaultfuncargs"@[j] by {
        assert(j == 0 || j == 1 || j == 2 || j == 3 || j == 4 || j == 5 || j == 6 || j == 7 || j == 8 || j == 9 || j == 10 || j == 11 || j == 12 || j == 13 || j == 14 || j == 15 || j == 16 || j == 17 || j == 18 || j == 19 || j == 20 || j == 21 || j == 22 || j == 23 || j == 24 || j == 25 || j == 26 || j == 27 || j == 28 || j == 29);
    }
    assert(s =~= "hack.lang.constdefaultfuncargs"@);
    let k = "hhvm.hack.lang."@ + "const_default_func_args"@;
    assert forall|j: int| 0 <= j < 38 implies k[j] == "hhvm.hack.lang.const_default_func_args"@[j] by {
        assert(j == 0 || j == 1 || j == 2 || j == 3 || j == 4 || j == 5 || j == 6 || j == 7 || j == 8 || j == 9 || j == 10 || j == 11 || j == 12 || j == 13 || j == 14 || j == 15 || j == 16 || j == 17 || j == 18 || j == 19 || j == 20 || j == 21 || j == 22 || j == 23 || j == 24 || j == 25 || j == 26 || j == 27 || j == 28 || j == 29 || j == 30 || j == 31 || j == 32 || j == 33 || j == 34 || j == 35 || j == 36 || j == 37);
    }
    assert(k =~= "hhvm.hack.lang.const_default_func_args"@);
}

#[verifier::rlimit(40)]
proof fn lemma_alias_entry_20()
    ensures
        alias_table()[20].0 == short_key(LANG, 4),
        alias_table()[20].1@ == flag_key(LANG, 4),
{
    reveal_strlit("const_static_props");
    reveal_strlit("hack.lang.");
    reveal_strlit("hack.lang.conststaticprops");
    reveal_strlit("hhvm.hack.lang.");
    reveal_strlit("hhvm.hack.lang.const_static_props");
    assert("const_static_props"@.len() == 18);
    assert("hack.lang."@.len() == 10);
    assert("hack.lang.conststaticprops"@.len() == 26);
    assert("hhvm.hack.lang."@.len() == 15);
    assert("hhvm.hack.lang.const_static_props"@.len() == 33);
    reveal_with_fuel(without_underscores, 19);
    let t = alias_table();
    assert(t[20].0 == "hack.lang.conststaticprops"@ && t[20].1@ == "hhvm.hack.lang.const_static_props"@);
    assert(flag_table(LANG)[4].0 == "const_static_props"@);
    let w = without_underscores("const_static_props"@);
    assert(w.len() == 16);
    let s = "hack.lang."@ + w;
    assert forall|j: int| 0 <= j < 26 implies s[j] == "hack.lang.conststaticprops"@[j] by {
        assert(j == 0 || j == 1 || j == 2 || j == 3 || j == 4 || j == 5 || j == 6 || j == 7 || j == 8 || j == 9 || j == 10 || j == 11 || j == 12 || j == 13 || j == 14 || j == 15 || j == 16 || j == 17 || j == 18 || j == 19 || j == 20 || j == 21 || j == 22 || j == 23 || j == 24 || j == 25);
    }
    assert(s =~= "hack.lang.conststaticprops"@);
    let k = "hhvm.hack.lang."@ + "const_static_props"@;
    assert forall|j: int| 0 <= j < 33 implies k[j] == "hhvm.hack.lang.const_static_props"@[j] by {
        assert(j == 0 || j == 1 || j == 2 || j == 3 || j == 4 || j == 5 || j == 6 || j == 7 || j == 8 || j == 9 || j == 10 || j == 11 || j == 12 || j == 13 || j == 14 || j == 15 || j == 16 || j == 17 || j == 18 || j == 19 || j == 20 || j == 21 || j == 22 || j == 23 || j == 24 || j == 25 || j == 26 || j == 27 || j == 28 || j == 29 || j == 30 || j == 31 || j == 32);
    }
    assert(k =~= "hhvm.hack.lang.const_static_props"@);
}

#[verifier::rlimit(40)]
proof fn lemma_alias_entry_21()
    ensures
        alias_table()[21].0 == short_key(LANG, 5),
        alias_table()[21].1@ == flag_key(LANG, 5),
{
    reveal_strlit("disable_legacy_attribute_syntax");
    reveal_strlit("hack.lang.");
    reveal_strlit("hack.lang.disablelegacyattributesyntax");
    reveal_strlit("hhvm.hack.lang.");
    reveal_strlit("hhvm.hack.lang.disable_legacy_attribute_syntax");
    assert("disable_legacy_attribute_syntax"@.len() == 31);
    assert("hack.lang."@.len() == 10);
    assert("hack.lang.disablelegacyattributesyntax"@.len() == 38);
    assert("hhvm.hack.lang."@.len() == 15);
    assert("hhvm.hack.lang.disable_legacy_attribute_syntax"@.len() == 46);
    reveal_with_fuel(without_underscores, 32);
    let t = alias_table();
    assert(t[21].0 == "hack.lang.disablelegacyattributesyntax"@ && t[21].1@ == "hhvm.hack.lang.disable_legacy_attribute_syntax"@);
    assert(flag_table(LANG)[5].0 == "disable_legacy_attribute_syntax"@);
    let w = without_underscores("disable_legacy_attribute_syntax"@);
    assert(w.len() == 28);
    let s = "hack.lang."@ + w;
    assert forall|j: int| 0 <= j < 38 implies s[j] == "hack.lang.disablelegacyattributesyntax"@[j] by {
        assert(j == 0 || j == 1 || j == 2 || j == 3 || j == 4 || j == 5 || j == 6 || j == 7 || j == 8 || j == 9 || j == 10 || j == 11 || j == 12 || j == 13 || j == 14 || j == 15 || j == 16 || j == 17 || j == 18 || j == 19 || j == 20 || j == 21 || j == 22 || j == 23 || j == 24 || j == 25 || j == 26 || j == 27 || j == 28 || j == 29 || j == 30 || j == 31 || j == 32 || j == 33 || j == 34 || j == 35 || j == 36 || j == 37);
    }
    assert(s =~= "hack.lang.disablelegacyattributesyntax"@);
    let k = "hhvm.hack.lang."@ + "disable_legacy_attribute_syntax"@;
    assert forall|j: int| 0 <= j < 46 implies k[j] == "hhvm.hack.lang.disable_legacy_attribute_syntax"@[j] by {
        assert(j == 0 || j == 1 || j == 2 || j == 3 || j == 4 || j == 5 || j == 6 || j == 7 || j == 8 || j == 9 || j == 10 || j == 11 || j == 12 || j == 13 || j == 14 || j == 15 || j == 16 || j == 17 || j == 18 || j == 19 || j == 20 || j == 21 || j == 22 || j == 23 || j == 24 || j == 25 || j == 26 || j == 27 || j == 28 || j == 29 || j == 30 || j == 31 || j == 32 || j == 33 || j == 34 || j == 35 || j == 36 || j == 37 || j == 38 || j == 39 || j == 40 || j == 41 || j == 42 || j == 43 || j == 44 || j == 45);
    }
    assert(k =~= "hhvm.hack.lang.disable_legacy_attribute_syntax"@);
}

#[verifier::rlimit(40)]
proof fn lemma_alias_entry_22()
    ensures
        alias_table()[22].0 == short_key(LANG, 6),
        alias_table()[22].1@ == flag_key(LANG, 6),
{
    reveal_strlit("disable_legacy_soft_typehints");
    reveal_strlit("hack.lang.");
    reveal_strlit("hack.lang.disablelegacysofttypehints");
    reveal_strlit("hhvm.hack.lang.");
    reveal_strlit("hhvm.hack.lang.disable_legacy_soft_typehints");
    assert("disable_legacy_soft_typehints"@.len() == 29);
    assert("hack.lang."@.len() == 10);
    assert("hack.lang.disablelegacysofttypehints"@.len() == 36);
    assert("hhvm.hack.lang."@.len() == 15);
    assert("hhvm.hack.lang.disable_legacy_soft_typehints"@.len() == 44);
    reveal_with_fuel(without_underscores, 30);
    let t = alias_table();
    assert(t[22].0 == "hack.lang.disablelegacysofttypehints"@ && t[22].1@ == "hhvm.hack.lang.disable_legacy_soft_typehints"@);
    assert(flag_table(LANG)[6].0 == "disable_legacy_soft_typehints"@);
    let w = without_underscores("disable_legacy_soft_typehints"@);
    assert(w.len() == 26);
    let s = "hack.lang."@ + w;
    assert forall|j: int| 0 <= j < 36 implies s[j] == "hack.lang.disablelegacysofttypehints"@[j] by {
        assert(j == 0 || j == 1 || j == 2 || j == 3 || j == 4 || j == 5 || j == 6 || j == 7 || j == 8 || j == 9 || j == 10 || j == 11 || j == 12 || j == 13 || j == 14 || j == 15 || j == 16 || j == 17 || j == 18 || j == 19 || j == 20 || j == 21 || j == 22 || j == 23 || j == 24 || j == 25 || j == 26 || j == 27 || j == 28 || j == 29 || j == 30 || j == 31 || j == 32 || j == 33 || j == 34 || j == 35);
    }
    assert(s =~= "hack.lang.disablelegacysofttypehints"@);
    let k = "hhvm.hack.lang."@ + "disable_legacy_soft_typehints"@;
    assert forall|j: int| 0 <= j < 44 implies k[j] == "hhvm.hack.lang.disable_legacy_soft_typehints"@[j] by {
        assert(j == 0 || j == 1 || j == 2 || j == 3 || j == 4 || j == 5 || j == 6 || j == 7 || j == 8 || j == 9 || j == 10 || j == 11 || j == 12 || j == 13 || j == 14 || j == 15 || j == 16 || j == 17 || j == 18 || j == 19 || j == 20 || j == 21 || j == 22 || j == 23 || j == 24 || j == 25 || j == 26 || j == 27 || j == 28 || j == 29 || j == 30 || j == 31 || j == 32 || j == 33 || j == 34 || j == 35 || j == 36 || j == 37 || j == 38 || j == 39 || j == 40 || j == 41 || j == 42 || j == 43);
    }
    assert(k =~= "hhvm.hack.lang.disable_legacy_soft_typehints"@);
}

#[verifier::rlimit(40)]
proof fn lemma_alias_entry_23()
    ensures
        alias_table()[23].0 == short_key(LANG, 7),
        alias_table()[23].1@ == flag_key(LANG, 7),
{
    reveal_strlit("disable_lval_as_an_expression");
    reveal_strlit("hack.lang.");
    reveal_strlit("hack.lang.disablelvalasanexpression");
    reveal_strlit("hhvm.hack.lang.");
    reveal_strlit("hhvm.hack.lang.disable_lval_as_an_expression");
    assert("disable_lval_as_an_expression"@.len() == 29);
    assert("hack.lang."@.len() == 10);
    assert("hack.lang.disablelvalasanexpression"@.len() == 35);
    assert("hhvm.hack.lang."@.len() == 15);
    assert("hhvm.hack.lang.disable_lval_as_an_expression"@.len() == 44);
    reveal_with_fuel(without_underscores, 30);
    let t = alias_table();
    assert(t[23].0 == "hack.lang.disablelvalasanexpression"@ && t[23].1@ == "hhvm.hack.lang.disable_lval_as_an_expression"@);
    assert(flag_table(LANG)[7].0 == "disable_lval_as_an_expression"@);
    let w = without_underscores("disable_lval_as_an_expression"@);
    assert(w.len() == 25);
    let s = "hack.lang."@ + w;
    assert forall|j: int| 0 <= j < 35 implies s[j] == "hack.lang.disablelvalasanexpression"@[j] by {
        assert(j == 0 || j == 1 || j == 2 || j == 3 || j == 4 || j == 5 || j == 6 || j == 7 || j == 8 || j == 9 || j == 10 || j == 11 || j == 12 || j == 13 || j == 14 || j == 15 || j == 16 || j == 17 || j == 18 || j == 19 || j == 20 || j == 21 || j == 22 || j == 23 || j == 24 || j == 25 || j == 26 || j == 27 || j == 28 || j == 29 || j == 30 || j == 31 || j == 32 || j == 33 || j == 34);
    }
    assert(s =~= "hack.lang.disablelvalasanexpression"@);
    let k = "hhvm.hack.lang."@ + "disable_lval_as_an_expression"@;
    assert forall|j: int| 0 <= j < 44 implies k[j] == "hhvm.hack.lang.disable_lval_as_an_expression"@[j] by {
        assert(j == 0 || j == 1 || j == 2 || j == 3 || j == 4 || j == 5 || j == 6 || j == 7 || j == 8 || j == 9 || j == 10 || j == 11 || j == 12 || j == 13 || j == 14 || j == 15 || j == 16 || j == 17 || j == 18 || j == 19 || j == 20 || j == 21 || j == 22 || j == 23 || j == 24 || j == 25 || j == 26 || j == 27 || j == 28 || j == 29 || j == 30 || j == 31 || j == 32 || j == 33 || j == 34 || j == 35 || j == 36 || j == 37 || j == 38 || j == 39 || j == 40 || j == 41 || j == 42 || j == 43);
    }
    assert(k =~= "hhvm.hack.lang.disable_lval_as_an_expression"@);
}

#[verifier::rlimit(40)]
proof fn lemma_alias_entry_24()
    ensures
        alias_table()[24].0 == short_key(LANG, 8),
        alias_table()[24].1@ == flag_key(LANG, 8),
{
    reveal_strlit("disable_unset_class_const");
    reveal_strlit("hack.lang.");
    reveal_strlit("hack.lang.disableunsetclassconst");
    reveal_strlit("hhvm.hack.lang.");
    reveal_strlit("hhvm.hack.lang.disable_unset_class_const");
    assert("disable_unset_class_const"@.len() == 25);
    assert("hack.lang."@.len() == 10);
    assert("hack.lang.disableunsetclassconst"@.len() == 32);
    assert("hhvm.hack.lang."@.len() == 15);
    assert("hhvm.hack.lang.disable_unset_class_const"@.len() == 40);
    reveal_with_fuel(without_underscores, 26);
    let t = alias_table();
    assert(t[24].0 == "hack.lang.disableunsetclassconst"@ && t[24].1@ == "hhvm.hack.lang.disable_unset_class_const"@);
    assert(flag_table(LANG)[8].0 == "disable_unset_class_const"@);
    let w = without_underscores("disable_unset_class_const"@);
    assert(w.len() == 22);
    let s = "hack.lang."@ + w;
    assert forall|j: int| 0 <= j < 32 implies s[j] == "hack.lang.disableunsetclassconst"@[j] by {
        assert(j == 0 || j == 1 || j == 2 || j == 3 || j == 4 || j == 5 || j == 6 || j == 7 || j == 8 || j == 9 || j == 10 || j == 11 || j == 12 || j == 13 || j == 14 || j == 15 || j == 16 || j == 17 || j == 18 || j == 19 || j == 20 || j == 21 || j == 22 || j == 23 || j == 24 || j == 25 || j == 26 || j == 27 || j == 28 || j == 29 || j == 30 || j == 31);
    }
    assert(s =~= "hack.lang.disableunsetclassconst"@);
    let k = "hhvm.hack.lang."@ + "disable_unset_class_const"@;
    assert forall|j: int| 0 <= j < 40 implies k[j] == "hhvm.hack.lang.disable_unset_class_const"@[j] by {
        assert(j == 0 || j == 1 || j == 2 || j == 3 || j == 4 || j == 5 || j == 6 || j == 7 || j == 8 || j == 9 || j == 10 || j == 11 || j == 12 || j == 13 || j == 14 || j == 15 || j == 16 || j == 17 || j == 18 || j == 19 || j == 20 || j == 21 || j == 22 || j == 23 || j == 24 || j == 25 || j == 26 || j == 27 || j == 28 || j == 29 || j == 30 || j == 31 || j == 32 || j == 33 || j == 34 || j == 35 || j == 36 || j == 37 || j == 38 || j == 39);
    }
    assert(k =~= "hhvm.hack.lang.disable_unset_class_const"@);
}

#[verifier::rlimit(40)]
proof fn lemma_alias_entry_25()
    ensures
        alias_table()[25].0 == short_key(LANG, 9),
        alias_table()[25].1@ == flag_key(LANG, 9),
{
    reveal_strlit("disallow_func_ptrs_in_constants");
    reveal_strlit("hack.lang.");
    reveal_strlit("hack.lang.disallowfuncptrsinconstants");
    reveal_strlit("hhvm.hack.lang.");
    reveal_strlit("hhvm.hack.lang.disallow_func_ptrs_in_constants");
    assert("disallow_func_ptrs_in_constants"@.len() == 31);
    assert("hack.lang."@.len() == 10);
    assert("hack.lang.disallowfuncptrsinconstants"@.len() == 37);
    assert("hhvm.hack.lang."@.len() == 15);
    assert("hhvm.hack.lang.disallow_func_ptrs_in_constants"@.len() == 46);
    reveal_with_fuel(without_underscores, 32);
    let t = alias_table();
    assert(t[25].0 == "hack.lang.disallowfuncptrsinconstants"@ && t[25].1@ == "hhvm.hack.lang.disallow_func_ptrs_in_constants"@);
    assert(flag_table(LANG)[9].0 == "disallow_func_ptrs_in_constants"@);
    let w = without_underscores("disallow_func_ptrs_in_constants"@);
    assert(w.len() == 27);
    let s = "hack.lang."@ + w;
    assert forall|j: int| 0 <= j < 37 implies s[j] == "hack.lang.disallowfuncptrsinconstants"@[j] by {
        assert(j == 0 || j == 1 || j == 2 || j == 3 || j == 4 || j == 5 || j == 6 || j == 7 || j == 8 || j == 9 || j == 10 || j == 11 || j == 12 || j == 13 || j == 14 || j == 15 || j == 16 || j == 17 || j == 18 || j == 19 || j == 20 || j == 21 || j == 22 || j == 23 || j == 24 || j == 25 || j == 26 || j == 27 || j == 28 || j == 29 || j == 30 || j == 31 || j == 32 || j == 33 || j == 34 || j == 35 || j == 36);
    }
    assert(s =~= "hack.lang.disallowfuncptrsinconstants"@);
    let k = "hhvm.hack.lang."@ + "disallow_func_ptrs_in_constants"@;
    assert forall|j: int| 0 <= j < 46 implies k[j] == "hhvm.hack.lang.disallow_func_ptrs_in_constants"@[j] by {
        assert(j == 0 || j == 1 || j == 2 || j == 3 || j == 4 || j == 5 || j == 6 || j == 7 || j == 8 || j == 9 || j == 10 || j == 11 || j == 12 || j == 13 || j == 14 || j == 15 || j == 16 || j == 17 || j == 18 || j == 19 || j == 20 || j == 21 || j == 22 || j == 23 || j == 24 || j == 25 || j == 26 || j == 27 || j == 28 || j == 29 || j == 30 || j == 31 || j == 32 || j == 33 || j == 34 || j == 35 || j == 36 || j == 37 || j == 38 || j == 39 || j == 40 || j == 41 || j == 42 || j == 43 || j == 44 || j == 45);
    }
    assert(k =~= "hhvm.hack.lang.disallow_func_ptrs_in_constants"@);
}

#[verifier::rlimit(40)]
proof fn lemma_alias_entry_26()
    ensures
        alias_table()[26].0 == short_key(LANG, 10),
        alias_table()[26].1@ == flag_key(LANG, 10),
{
    reveal_strlit("enable_class_level_where_clauses");
    reveal_strlit("hack.lang.");
    reveal_strlit("hack.lang.enableclasslevelwhereclauses");
    reveal_strlit("hhvm.hack.lang.");
    reveal_strlit("hhvm.hack.lang.enable_class_level_where_clauses");
    assert("enable_class_level_where_clauses"@.len() == 32);
    assert("hack.lang."@.len() == 10);
    assert("hack.lang.enableclasslevelwhereclauses"@.len() == 38);
    assert("hhvm.hack.lang."@.len() == 15);
    assert("hhvm.hack.lang.enable_class_level_where_clauses"@.len() == 47);
    reveal_with_fuel(without_underscores, 33);
    let t = alias_table();
    assert(t[26].0 == "hack.lang.enableclasslevelwhereclauses"@ && t[26].1@ == "hhvm.hack.lang.enable_class_level_where_clauses"@);
    assert(flag_table(LANG)[10].0 == "enable_class_level_where_clauses"@);
    let w = without_underscores("enable_class_level_where_clauses"@);
    assert(w.len() == 28);
    let s = "hack.lang."@ + w;
    assert forall|j: int| 0 <= j < 38 implies s[j] == "hack.lang.enableclasslevelwhereclauses"@[j] by {
        assert(j == 0 || j == 1 || j == 2 || j == 3 || j == 4 || j == 5 || j == 6 || j == 7 || j == 8 || j == 9 || j == 10 || j == 11 || j == 12 || j == 13 || j == 14 || j == 15 || j == 16 || j == 17 || j == 18 || j == 19 || j == 20 || j == 21 || j == 22 || j == 23 || j == 24 || j == 25 || j == 26 || j == 27 || j == 28 || j == 29 || j == 30 || j == 31 || j == 32 || j == 33 || j == 34 || j == 35 || j == 36 || j == 37);
    }
    assert(s =~= "hack.lang.enableclasslevelwhereclauses"@);
    let k = "hhvm.hack.lang."@ + "enable_class_level_where_clauses"@;
    assert forall|j: int| 0 <= j < 47 implies k[j] == "hhvm.hack.lang.enable_class_level_where_clauses"@[j] by {
        assert(j == 0 || j == 1 || j == 2 || j == 3 || j == 4 || j == 5 || j == 6 || j == 7 || j == 8 || j == 9 || j == 10 || j == 11 || j == 12 || j == 13 || j == 14 || j == 15 || j == 16 || j == 17 || j == 18 || j == 19 || j == 20 || j == 21 || j == 22 || j == 23 || j == 24 || j == 25 || j == 26 || j == 27 || j == 28 || j == 29 || j == 30 || j == 31 || j == 32 || j == 33 || j == 34 || j == 35 || j == 36 || j == 37 || j == 38 || j == 39 || j == 40 || j == 41 || j == 42 || j == 43 || j == 44 || j == 45 || j == 46);
    }
    assert(k =~= "hhvm.hack.lang.enable_class_level_where_clauses"@);
}

#[verifier::rlimit(40)]
proof fn lemma_alias_entry_27()
    ensures
        alias_table()[27].0 == short_key(LANG, 11),
        alias_table()[27].1@ == flag_key(LANG, 11),
{
    reveal_strlit("enable_coroutines");
    reveal_strlit("hack.lang.");
    reveal_strlit("hack.lang.enablecoroutines");
    reveal_strlit("hhvm.hack.lang.");
    reveal_strlit("hhvm.hack.lang.enable_coroutines");
    assert("enable_coroutines"@.len() == 17);
    assert("hack.lang."@.len() == 10);
    assert("hack.lang.enablecoroutines"@.len() == 26);
    assert("hhvm.hack.lang."@.len() == 15);
    assert("hhvm.hack.lang.enable_coroutines"@.len() == 32);
    reveal_with_fuel(without_underscores, 18);
    let t = alias_table();
    assert(t[27].0 == "hack.lang.enablecoroutines"@ && t[27].1@ == "hhvm.hack.lang.enable_coroutines"@);
    assert(flag_table(LANG)[11].0 == "enable_coroutines"@);
    let w = without_underscores("enable_coroutines"@);
    assert(w.len() == 16);
    let s = "hack.lang."@ + w;
    assert forall|j: int| 0 <= j < 26 implies s[j] == "hack.lang.enablecoroutines"@[j] by {
        assert(j == 0 || j == 1 || j == 2 || j == 3 || j == 4 || j == 5 || j == 6 || j == 7 || j == 8 || j == 9 || j == 10 || j == 11 || j == 12 || j == 13 || j == 14 || j == 15 || j == 16 || j == 17 || j == 18 || j == 19 || j == 20 || j == 21 || j == 22 || j == 23 || j == 24 || j == 25);
    }
    assert(s =~= "hack.lang.enablecoroutines"@);
    let k = "hhvm.hack.lang."@ + "enable_coroutines"@;
    assert forall|j: int| 0 <= j < 32 implies k[j] == "hhvm.hack.lang.enable_coroutines"@[j] by {
        assert(j == 0 || j == 1 || j == 2 || j == 3 || j == 4 || j == 5 || j == 6 || j == 7 || j == 8 || j == 9 || j == 10 || j == 11 || j == 12 || j == 13 || j == 14 || j == 15 || j == 16 || j == 17 || j == 18 || j == 19 || j == 20 || j == 21 || j == 22 || j == 23 || j == 24 || j == 25 || j == 26 || j == 27 || j == 28 || j == 29 || j == 30 || j == 31);
    }
    assert(k =~= "hhvm.hack.lang.enable_coroutines"@);
}

#[verifier::rlimit(40)]
proof fn lemma_alias_entry_28()
    ensures
        alias_table()[28].0 == short_key(LANG, 12),
        alias_table()[28].1@ == flag_key(LANG, 12),
{
    reveal_strlit("enable_pocket_universes");
    reveal_strlit("hack.lang.");
    reveal_strlit("hack.lang.enablepocketuniverses");
    reveal_strlit("hhvm.hack.lang.");
    reveal_strlit("hhvm.hack.lang.enable_pocket_universes");
    assert("enable_pocket_universes"@.len() == 23);
    assert("hack.lang."@.len() == 10);
    assert("hack.lang.enablepocketuniverses"@.len() == 31);
    assert("hhvm.hack.lang."@.len() == 15);
    assert("hhvm.hack.lang.enable_pocket_universes"@.len() == 38);
    reveal_with_fuel(without_underscores, 24);
    let t = alias_table();
    assert(t[28].0 == "hack.lang.enablepocketuniverses"@ && t[28].1@ == "hhvm.hack.lang.enable_pocket_universes"@);
    assert(flag_table(LANG)[12].0 == "enable_pocket_universes"@);
    let w = without_underscores("enable_pocket_universes"@);
    assert(w.len() == 21);
    let s = "hack.lang."@ + w;
    assert forall|j: int| 0 <= j < 31 implies s[j] == "hack.lang.enablepocketuniverses"@[j] by {
        assert(j == 0 || j == 1 || j == 2 || j == 3 || j == 4 || j == 5 || j == 6 || j == 7 || j == 8 || j == 9 || j == 10 || j == 11 || j == 12 || j == 13 || j == 14 || j == 15 || j == 16 || j == 17 || j == 18 || j == 19 || j == 20 || j == 21 || j == 22 || j == 23 || j == 24 || j == 25 || j == 26 || j == 27 || j == 28 || j == 29 || j == 30);
    }
    assert(s =~= "hack.lang.enablepocketuniverses"@);
    let k = "hhvm.hack.lang."@ + "enable_pocket_universes"@;
    assert forall|j: int| 0 <= j < 38 implies k[j] == "hhvm.hack.lang.enable_pocket_universes"@[j] by {
        assert(j == 0 || j == 1 || j == 2 || j == 3 || j == 4 || j == 5 || j == 6 || j == 7 || j == 8 || j == 9 || j == 10 || j == 11 || j == 12 || j == 13 || j == 14 || j == 15 || j == 16 || j == 17 || j == 18 || j == 19 || j == 20 || j == 21 || j == 22 || j == 23 || j == 24 || j == 25 || j == 26 || j == 27 || j == 28 || j == 29 || j == 30 || j == 31 || j == 32 || j == 33 || j == 34 || j == 35 || j == 36 || j == 37);
    }
    assert(k =~= "hhvm.hack.lang.enable_pocket_universes"@);
}

#[verifier::rlimit(40)]
proof fn lemma_alias_entry_29()
    ensures
        alias_table()[29].0 == short_key(LANG, 13),
        alias_table()[29].1@ == flag_key(LANG, 13),
{
    reveal_strlit("enable_xhp_class_modifier");
    reveal_strlit("hack.lang.");
    reveal_strlit("hack.lang.enablexhpclassmodifier");
    reveal_strlit("hhvm.hack.lang.");
    reveal_strlit("hhvm.hack.lang.enable_xhp_class_modifier");
    assert("enable_xhp_class_modifier"@.len() == 25);
    assert("hack.lang."@.len() == 10);
    assert("hack.lang.enablexhpclassmodifier"@.len() == 32);
    assert("hhvm.hack.lang."@.len() == 15);
    assert("hhvm.hack.lang.enable_xhp_class_modifier"@.len() == 40);
    reveal_with_fuel(without_underscores, 26);
    let t = alias_table();
    assert(t[29].0 == "hack.lang.enablexhpclassmodifier"@ && t[29].1@ == "hhvm.hack.lang.enable_xhp_class_modifier"@);
    assert(flag_table(LANG)[13].0 == "enable_xhp_class_modifier"@);
    let w = without_underscores("enable_xhp_class_modifier"@);
    assert(w.len() == 22);
    let s = "hack.lang."@ + w;
    assert forall|j: int| 0 <= j < 32 implies s[j] == "hack.lang.enablexhpclassmodifier"@[j] by {
        assert(j == 0 || j == 1 || j == 2 || j == 3 || j == 4 || j == 5 || j == 6 || j == 7 || j == 8 || j == 9 || j == 10 || j == 11 || j == 12 || j == 13 || j == 14 || j == 15 || j == 16 || j == 17 || j == 18 || j == 19 || j == 20 || j == 21 || j == 22 || j == 23 || j == 24 || j == 25 || j == 26 || j == 27 || j == 28 || j == 29 || j == 30 || j == 31);
    }
    assert(s =~= "hack.lang.enablexhpclassmodifier"@);
    let k = "hhvm.hack.lang."@ + "enable_xhp_class_modifier"@;
    assert forall|j: int| 0 <= j < 40 implies k[j] == "hhvm.hack.lang.enable_xhp_class_modifier"@[j] by {
        assert(j == 0 || j == 1 || j == 2 || j == 3 || j == 4 || j == 5 || j == 6 || j == 7 || j == 8 || j == 9 || j == 10 || j == 11 || j == 12 || j == 13 || j == 14 || j == 15 || j == 16 || j == 17 || j == 18 || j == 19 || j == 20 || j == 21 || j == 22 || j == 23 || j == 24 || j == 25 || j == 26 || j == 27 || j == 28 || j == 29 || j == 30 || j == 31 || j == 32 || j == 33 || j == 34 || j == 35 || j == 36 || j == 37 || j == 38 || j == 39);
    }
    assert(k =~= "hhvm.hack.lang.enable_xhp_class_modifier"@);
}

#[verifier::rlimit(40)]
proof fn lemma_alias_entry_30()
    ensures
        alias_table()[30].0 == short_key(LANG, 14),
        alias_table()[30].1@ == flag_key(LANG, 14),
{
    reveal_strlit("hack.lang.");
    reveal_strlit("hack.lang.hacksperimental");
    reveal_strlit("hacksperimental");
    reveal_strlit("hhvm.hack.lang.");
    reveal_strlit("hhvm.hack.lang.hacksperimental");
    assert("hack.lang."@.len() == 10);
    assert("hack.lang.hacksperimental"@.len() == 25);
    assert("hacksperimental"@.len() == 15);
    assert("hhvm.hack.lang."@.len() == 15);
    assert("hhvm.hack.lang.hacksperimental"@.len() == 30);
    reveal_with_fuel(without_underscores, 16);
    let t = alias_table();
    assert(t[30].0 == "hack.lang.hacksperimental"@ && t[30].1@ == "hhvm.hack.lang.hacksperimental"@);
    assert(flag_table(LANG)[14].0 == "hacksperimental"@);
    let w = without_underscores("hacksperimental"@);
    assert(w.len() == 15);
    let s = "hack.lang."@ + w;
    assert forall|j: int| 0 <= j < 25 implies s[j] == "hack.lang.hacksperimental"@[j] by {
        assert(j == 0 || j == 1 || j == 2 || j == 3 || j == 4 || j == 5 || j == 6 || j == 7 || j == 8 || j == 9 || j == 10 || j == 11 || j == 12 || j == 13 || j == 14 || j == 15 || j == 16 || j == 17 || j == 18 || j == 19 || j == 20 || j == 21 || j == 22 || j == 23 || j == 24);
    }
    assert(s =~= "hack.lang.hacksperimental"@);
    let k = "hhvm.hack.lang."@ + "hacksperimental"@;
    assert forall|j: int| 0 <= j < 30 implies k[j] == "hhvm.hack.lang.hacksperimental"@[j] by {
        assert(j == 0 || j == 1 || j == 2 || j == 3 || j == 4 || j == 5 || j == 6 || j == 7 || j == 8 || j == 9 || j == 10 || j == 11 || j == 12 || j == 13 || j == 14 || j == 15 || j == 16 || j == 17 || j == 18 || j == 19 || j == 20 || j == 21 || j == 22 || j == 23 || j == 24 || j == 25 || j == 26 || j == 27 || j == 28 || j == 29);
    }
    assert(k =~= "hhvm.hack.lang.hacksperimental"@);
}

#[verifier::rlimit(40)]
proof fn lemma_alias_entry_31()
    ensures
        alias_table()[31].0 == short_key(PHPISM, 3),
        alias_table()[31].1@ == flag_key(PHPISM, 3),
{
    reveal_strlit("disallow_execution_operator");
    reveal_strlit("hack.lang.phpism.");
    reveal_strlit("hack.lang.phpism.disallowexecutionoperator");
    reveal_strlit("hhvm.hack.lang.phpism.");
    reveal_strlit("hhvm.hack.lang.phpism.disallow_execution_operator");
    assert("disallow_execution_operator"@.len() == 27);
    assert("hack.lang.phpism."@.len() == 17);
    assert("hack.lang.phpism.disallowexecutionoperator"@.len() == 42);
    assert("hhvm.hack.lang.phpism."@.len() == 22);
    assert("hhvm.hack.lang.phpism.disallow_execution_operator"@.len() == 49);
    reveal_with_fuel(without_underscores, 28);
    let t = alias_table();
    assert(t[31].0 == "hack.lang.phpism.disallowexecutionoperator"@ && t[31].1@ == "hhvm.hack.lang.phpism.disallow_execution_operator"@);
    assert(flag_table(PHPISM)[3].0 == "disallow_execution_operator"@);
    let w = without_underscores("disallow_execution_operator"@);
    assert(w.len() == 25);
    let s = "hack.lang.phpism."@ + w;
    assert forall|j: int| 0 <= j < 42 implies s[j] == "hack.lang.phpism.disallowexecutionoperator"@[j] by {
        assert(j == 0 || j == 1 || j == 2 || j == 3 || j == 4 || j == 5 || j == 6 || j == 7 || j == 8 || j == 9 || j == 10 || j == 11 || j == 12 || j == 13 || j == 14 || j == 15 || j == 16 || j == 17 || j == 18 || j == 19 || j == 20 || j == 21 || j == 22 || j == 23 || j == 24 || j == 25 || j == 26 || j == 27 || j == 28 || j == 29 || j == 30 || j == 31 || j == 32 || j == 33 || j == 34 || j == 35 || j == 36 || j == 37 || j == 38 || j == 39 || j == 40 || j == 41);
    }
    assert(s =~= "hack.lang.phpism.disallowexecutionoperator"@);
    let k = "hhvm.hack.lang.phpism."@ + "disallow_execution_operator"@;
    assert forall|j: int| 0 <= j < 49 implies k[j] == "hhvm.hack.lang.phpism.disallow_execution_operator"@[j] by {
        assert(j == 0 || j == 1 || j == 2 || j == 3 || j == 4 || j == 5 || j == 6 || j == 7 || j == 8 || j == 9 || j == 10 || j == 11 || j == 12 || j == 13 || j == 14 || j == 15 || j == 16 || j == 17 || j == 18 || j == 19 || j == 20 || j == 21 || j == 22 || j == 23 || j == 24 || j == 25 || j == 26 || j == 27 || j == 28 || j == 29 || j == 30 || j == 31 || j == 32 || j == 33 || j == 34 || j == 35 || j == 36 || j == 37 || j == 38 || j == 39 || j == 40 || j == 41 || j == 42 || j == 43 || j == 44 || j == 45 || j == 46 || j == 47 || j == 48);
    }
    assert(k =~= "hhvm.hack.lang.phpism.disallow_execution_operator"@);
}

#[verifier::rlimit(40)]
proof fn lemma_alias_entry_32()
    ensures
        alias_table()[32].0 == short_key(PHPISM, 1),
        alias_table()[32].1@ == flag_key(PHPISM, 1),
{
    reveal_strlit("disable_nontoplevel_declarations");
    reveal_strlit("hack.lang.phpism.");
    reveal_strlit("hack.lang.phpism.disablenontopleveldeclarations");
    reveal_strlit("hhvm.hack.lang.phpism.");
    reveal_strlit("hhvm.hack.lang.phpism.disable_nontoplevel_declarations");
    assert("disable_nontoplevel_declarations"@.len() == 32);
    assert("hack.lang.phpism."@.len() == 17);
    assert("hack.lang.phpism.disablenontopleveldeclarations"@.len() == 47);
    assert("hhvm.hack.lang.phpism."@.len() == 22);
    assert("hhvm.hack.lang.phpism.disable_nontoplevel_declarations"@.len() == 54);
    reveal_with_fuel(without_underscores, 33);
    let t = alias_table();
    assert(t[32].0 == "hack.lang.phpism.disablenontopleveldeclarations"@ && t[32].1@ == "hhvm.hack.lang.phpism.disable_nontoplevel_declarations"@);
    assert(flag_table(PHPISM)[1].0 == "disable_nontoplevel_declarations"@);
    let w = without_underscores("disable_nontoplevel_declarations"@);
    assert(w.len() == 30);
    let s = "hack.lang.phpism."@ + w;
    assert forall|j: int| 0 <= j < 47 implies s[j] == "hack.lang.phpism.disablenontopleveldeclarations"@[j] by {
        assert(j == 0 || j == 1 || j == 2 || j == 3 || j == 4 || j == 5 || j == 6 || j == 7 || j == 8 || j == 9 || j == 10 || j == 11 || j == 12 || j == 13 || j == 14 || j == 15 || j == 16 || j == 17 || j == 18 || j == 19 || j == 20 || j == 21 || j == 22 || j == 23 || j == 24 || j == 25 || j == 26 || j == 27 || j == 28 || j == 29 || j == 30 || j == 31 || j == 32 || j == 33 || j == 34 || j == 35 || j == 36 || j == 37 || j == 38 || j == 39 || j == 40 || j == 41 || j == 42 || j == 43 || j == 44 || j == 45 || j == 46);
    }
    assert(s =~= "hack.lang.phpism.disablenontopleveldeclarations"@);
    let k = "hhvm.hack.lang.phpism."@ + "disable_nontoplevel_declarations"@;
    assert forall|j: int| 0 <= j < 54 implies k[j] == "hhvm.hack.lang.phpism.disable_nontoplevel_declarations"@[j] by {
        assert(j == 0 || j == 1 || j == 2 || j == 3 || j == 4 || j == 5 || j == 6 || j == 7 || j == 8 || j == 9 || j == 10 || j == 11 || j == 12 || j == 13 || j == 14 || j == 15 || j == 16 || j == 17 || j == 18 || j == 19 || j == 20 || j == 21 || j == 22 || j == 23 || j == 24 || j == 25 || j == 26 || j == 27 || j == 28 || j == 29 || j == 30 || j == 31 || j == 32 || j == 33 || j == 34 || j == 35 || j == 36 || j == 37 || j == 38 || j == 39 || j == 40 || j == 41 || j == 42 || j == 43 || j == 44 || j == 45 || j == 46 || j == 47 || j == 48 || j == 49 || j == 50 || j == 51 || j == 52 || j == 53);
    }
    assert(k =~= "hhvm.hack.lang.phpism.disable_nontoplevel_declarations"@);
}

#[verifier::rlimit(40)]
proof fn lemma_alias_entry_33()
    ensures
        alias_table()[33].0 == short_key(PHPISM, 2),
        alias_table()[33].1@ == flag_key(PHPISM, 2),
{
    reveal_strlit("disable_static_closures");
    reveal_strlit("hack.lang.phpism.");
    reveal_strlit("hack.lang.phpism.disablestaticclosures");
    reveal_strlit("hhvm.hack.lang.phpism.");
    reveal_strlit("hhvm.hack.lang.phpism.disable_static_closures");
    assert("disable_static_closures"@.len() == 23);
    assert("hack.lang.phpism."@.len() == 17);
    assert("hack.lang.phpism.disablestaticclosures"@.len() == 38);
    assert("hhvm.hack.lang.phpism."@.len() == 22);
    assert("hhvm.hack.lang.phpism.disable_static_closures"@.len() == 45);
    reveal_with_fuel(without_underscores, 24);
    let t = alias_table();
    assert(t[33].0 == "hack.lang.phpism.disablestaticclosures"@ && t[33].1@ == "hhvm.hack.lang.phpism.disable_static_closures"@);
    assert(flag_table(PHPISM)[2].0 == "disable_static_closures"@);
    let w = without_underscores("disable_static_closures"@);
    assert(w.len() == 21);
    let s = "hack.lang.phpism."@ + w;
    assert forall|j: int| 0 <= j < 38 implies s[j] == "hack.lang.phpism.disablestaticclosures"@[j] by {
        assert(j == 0 || j == 1 || j == 2 || j == 3 || j == 4 || j == 5 || j == 6 || j == 7 || j == 8 || j == 9 || j == 10 || j == 11 || j == 12 || j == 13 || j == 14 || j == 15 || j == 16 || j == 17 || j == 18 || j == 19 || j == 20 || j == 21 || j == 22 || j == 23 || j == 24 || j == 25 || j == 26 || j == 27 || j == 28 || j == 29 || j == 30 || j == 31 || j == 32 || j == 33 || j == 34 || j == 35 || j == 36 || j == 37);
    }
    assert(s =~= "hack.lang.phpism.disablestaticclosures"@);
    let k = "hhvm.hack.lang.phpism."@ + "disable_static_closures"@;
    assert forall|j: int| 0 <= j < 45 implies k[j] == "hhvm.hack.lang.phpism.disable_static_closures"@[j] by {
        assert(j == 0 || j == 1 || j == 2 || j == 3 || j == 4 || j == 5 || j == 6 || j == 7 || j == 8 || j == 9 || j == 10 || j == 11 || j == 12 || j == 13 || j == 14 || j == 15 || j == 16 || j == 17 || j == 18 || j == 19 || j == 20 || j == 21 || j == 22 || j == 23 || j == 24 || j == 25 || j == 26 || j == 27 || j == 28 || j == 29 || j == 30 || j == 31 || j == 32 || j == 33 || j == 34 || j == 35 || j == 36 || j == 37 || j == 38 || j == 39 || j == 40 || j == 41 || j == 42 || j == 43 || j == 44);
    }
    assert(k =~= "hhvm.hack.lang.phpism.disable_static_closures"@);
}

#[verifier::rlimit(40)]
proof fn lemma_alias_entry_34()
    ensures
        alias_table()[34].0 == short_key(PHPISM, 0),
        alias_table()[34].1@ == flag_key(PHPISM, 0),
{
    reveal_strlit("disable_halt_compiler");
    reveal_strlit("hack.lang.phpism.");
    reveal_strlit("hack.lang.phpism.disablehaltcompiler");
    reveal_strlit("hhvm.hack.lang.phpism.");
    reveal_strlit("hhvm.hack.lang.phpism.disable_halt_compiler");
    assert("disable_halt_compiler"@.len() == 21);
    assert("hack.lang.phpism."@.len() == 17);
    assert("hack.lang.phpism.disablehaltcompiler"@.len() == 36);
    assert("hhvm.hack.lang.phpism."@.len() == 22);
    assert("hhvm.hack.lang.phpism.disable_halt_compiler"@.len() == 43);
    reveal_with_fuel(without_underscores, 22);
    let t = alias_table();
    assert(t[34].0 == "hack.lang.phpism.disablehaltcompiler"@ && t[34].1@ == "hhvm.hack.lang.phpism.disable_halt_compiler"@);
    assert(flag_table(PHPISM)[0].0 == "disable_halt_compiler"@);
    let w = without_underscores("disable_halt_compiler"@);
    assert(w.len() == 19);
    let s = "hack.lang.phpism."@ + w;
    assert forall|j: int| 0 <= j < 36 implies s[j] == "hack.lang.phpism.disablehaltcompiler"@[j] by {
        assert(j == 0 || j == 1 || j == 2 || j == 3 || j == 4 || j == 5 || j == 6 || j == 7 || j == 8 || j == 9 || j == 10 || j == 11 || j == 12 || j == 13 || j == 14 || j == 15 || j == 16 || j == 17 || j == 18 || j == 19 || j == 20 || j == 21 || j == 22 || j == 23 || j == 24 || j == 25 || j == 26 || j == 27 || j == 28 || j == 29 || j == 30 || j == 31 || j == 32 || j == 33 || j == 34 || j == 35);
    }
    assert(s =~= "hack.lang.phpism.disablehaltcompiler"@);
    let k = "hhvm.hack.lang.phpism."@ + "disable_halt_compiler"@;
    assert forall|j: int| 0 <= j < 43 implies k[j] == "hhvm.hack.lang.phpism.disable_halt_compiler"@[j] by {
        assert(j == 0 || j == 1 || j == 2 || j == 3 || j == 4 || j == 5 || j == 6 || j == 7 || j == 8 || j == 9 || j == 10 || j == 11 || j == 12 || j == 13 || j == 14 || j == 15 || j == 16 || j == 17 || j == 18 || j == 19 || j == 20 || j == 21 || j == 22 || j == 23 || j == 24 || j == 25 || j == 26 || j == 27 || j == 28 || j == 29 || j == 30 || j == 31 || j == 32 || j == 33 || j == 34 || j == 35 || j == 36 || j == 37 || j == 38 || j == 39 || j == 40 || j == 41 || j == 42);
    }
    assert(k =~= "hhvm.hack.lang.phpism.disable_halt_compiler"@);
}

#[verifier::rlimit(40)]
proof fn lemma_alias_entry_35()
    ensures
        alias_table()[35].0 == short_key(PHP7, 0),
        alias_table()[35].1@ == flag_key(PHP7, 0),
{
    reveal_strlit("hhvm.php7.");
    reveal_strlit("hhvm.php7.ltr_assign");
    reveal_strlit("ltr_assign");
    reveal_strlit("php7.");
    reveal_strlit("php7.ltrassign");
    assert("hhvm.php7."@.len() == 10);
    assert("hhvm.php7.ltr_assign"@.len() == 20);
    assert("ltr_assign"@.len() == 10);
    assert("php7."@.len() == 5);
    assert("php7.ltrassign"@.len() == 14);
    reveal_with_fuel(without_underscores, 11);
    let t = alias_table();
    assert(t[35].0 == "php7.ltrassign"@ && t[35].1@ == "hhvm.php7.ltr_assign"@);
    assert(flag_table(PHP7)[0].0 == "ltr_assign"@);
    let w = without_underscores("ltr_assign"@);
    assert(w.len() == 9);
    let s = "php7."@ + w;
    assert forall|j: int| 0 <= j < 14 implies s[j] == "php7.ltrassign"@[j] by {
        assert(j == 0 || j == 1 || j == 2 || j == 3 || j == 4 || j == 5 || j == 6 || j == 7 || j == 8 || j == 9 || j == 10 || j == 11 || j == 12 || j == 13);
    }
    assert(s =~= "php7.ltrassign"@);
    let k = "hhvm.php7."@ + "ltr_assign"@;
    assert forall|j: int| 0 <= j < 20 implies k[j] == "hhvm.php7.ltr_assign"@[j] by {
        assert(j == 0 || j == 1 || j == 2 || j == 3 || j == 4 || j == 5 || j == 6 || j == 7 || j == 8 || j == 9 || j == 10 || j == 11 || j == 12 || j == 13 || j == 14 || j == 15 || j == 16 || j == 17 || j == 18 || j == 19);
    }
    assert(k =~= "hhvm.php7.ltr_assign"@);
}

#[verifier::rlimit(40)]
proof fn lemma_alias_entry_36()
    ensures
        alias_table()[36].0 == short_key(PHP7, 1),
        alias_table()[36].1@ == flag_key(PHP7, 1),
{
    reveal_strlit("hhvm.php7.");
    reveal_strlit("hhvm.php7.uvs");
    reveal_strlit("php7.");
    reveal_strlit("php7.uvs");
    reveal_strlit("uvs");
    assert("hhvm.php7."@.len() == 10);
    assert("hhvm.php7.uvs"@.len() == 13);
    assert("php7."@.len() == 5);
    assert("php7.uvs"@.len() == 8);
    assert("uvs"@.len() == 3);
    reveal_with_fuel(without_underscores, 4);
    let t = alias_table();
    assert(t[36].0 == "php7.uvs"@ && t[36].1@ == "hhvm.php7.uvs"@);
    assert(flag_table(PHP7)[1].0 == "uvs"@);
    let w = without_underscores("uvs"@);
    assert(w.len() == 3);
    let s = "php7."@ + w;
    assert forall|j: int| 0 <= j < 8 implies s[j] == "php7.uvs"@[j] by {
        assert(j == 0 || j == 1 || j == 2 || j == 3 || j == 4 || j == 5 || j == 6 || j == 7);
    }
    assert(s =~= "php7.uvs"@);
    let k = "hhvm.php7."@ + "uvs"@;
    assert forall|j: int| 0 <= j < 13 implies k[j] == "hhvm.php7.uvs"@[j] by {
        assert(j == 0 || j == 1 || j == 2 || j == 3 || j == 4 || j == 5 || j == 6 || j == 7 || j == 8 || j == 9 || j == 10 || j == 11 || j == 12);
    }
    assert(k =~= "hhvm.php7.uvs"@);
}

#[verifier::rlimit(40)]
proof fn lemma_alias_entry_37()
    ensures
        alias_table()[37].0 == short_key(REPO, 0),
        alias_table()[37].1@ == flag_key(REPO, 0),
{
    reveal_strlit("authoritative");
    reveal_strlit("hhvm.repo.");
    reveal_strlit("hhvm.repo.authoritative");
    reveal_strlit("repo.");
    reveal_strlit("repo.authoritative");
    assert("authoritative"@.len() == 13);
    assert("hhvm.repo."@.len() == 10);
    assert("hhvm.repo.authoritative"@.len() == 23);
    assert("repo."@.len() == 5);
    assert("repo.authoritative"@.len() == 18);
    reveal_with_fuel(without_underscores, 14);
    let t = alias_table();
    assert(t[37].0 == "repo.authoritative"@ && t[37].1@ == "hhvm.repo.authoritative"@);
    assert(flag_table(REPO)[0].0 == "authoritative"@);
    let w = without_underscores("authoritative"@);
    assert(w.len() == 13);
    let s = "repo."@ + w;
    assert forall|j: int| 0 <= j < 18 implies s[j] == "repo.authoritative"@[j] by {
        assert(j == 0 || j == 1 || j == 2 || j == 3 || j == 4 || j == 5 || j == 6 || j == 7 || j == 8 || j == 9 || j == 10 || j == 11 || j == 12 || j == 13 || j == 14 || j == 15 || j == 16 || j == 17);
    }
    assert(s =~= "repo.authoritative"@);
    let k = "hhvm.repo."@ + "authoritative"@;
    assert forall|j: int| 0 <= j < 23 implies k[j] == "hhvm.repo.authoritative"@[j] by {
        assert(j == 0 || j == 1 || j == 2 || j == 3 || j == 4 || j == 5 || j == 6 || j == 7 || j == 8 || j == 9 || j == 10 || j == 11 || j == 12 || j == 13 || j == 14 || j == 15 || j == 16 || j == 17 || j == 18 || j == 19 || j == 20 || j == 21 || j == 22);
    }
    assert(k =~= "hhvm.repo.authoritative"@);
}

/// Every entry of the alias table is the short name of a flag (the short
/// prefix of its group followed by the flag's name without underscores) and
/// stands for that flag's key.
pub proof fn lemma_alias_table_spells_flags()
    ensures
        forall|x: int|
            #![trigger alias_table()[x]]
            0 <= x < alias_table().len() ==> exists|g: u8, i: int|
                #![trigger short_key(g, i)]
                g <= REPO && 0 <= i < flag_table(g).len() && alias_table()[x].0 == short_key(g, i)
                    && alias_table()[x].1@ == flag_key(g, i),
{
    assert(alias_table().len() == 38);
    assert forall|x: int|
        #![trigger alias_table()[x]]
        0 <= x < alias_table().len() implies exists|g: u8, i: int|
        #![trigger short_key(g, i)]
        g <= REPO && 0 <= i < flag_table(g).len() && alias_table()[x].0 == short_key(g, i)
            && alias_table()[x].1@ == flag_key(g, i) by {
        if x == 0 {
            lemma_alias_entry_0();
            assert(flag_table(EVAL).len() > 0);
            assert(EVAL <= REPO && alias_table()[x].0 == short_key(EVAL, 0) && alias_table()[x].1@ == flag_key(EVAL, 0));
        } else if x == 1 {
            lemma_alias_entry_1();
            assert(flag_table(COMPILER).len() > 0);
            assert(COMPILER <= REPO && alias_table()[x].0 == short_key(COMPILER, 0) && alias_table()[x].1@ == flag_key(COMPILER, 0));
        } else if x == 2 {
            lemma_alias_entry_2();
            assert(flag_table(COMPILER).len() > 1);
            assert(COMPILER <= REPO && alias_table()[x].0 == short_key(COMPILER, 1) && alias_table()[x].1@ == flag_key(COMPILER, 1));
        } else if x == 3 {
            lemma_alias_entry_3();
            assert(flag_table(COMPILER).len() > 2);
            assert(COMPILER <= REPO && alias_table()[x].0 == short_key(COMPILER, 2) && alias_table()[x].1@ == flag_key(COMPILER, 2));
        } else if x == 4 {
            lemma_alias_entry_4();
            assert(flag_table(HHVM).len() > 0);
            assert(HHVM <= REPO && alias_table()[x].0 == short_key(HHVM, 0) && alias_table()[x].1@ == flag_key(HHVM, 0));
        } else if x == 5 {
            lemma_alias_entry_5();
            assert(flag_table(HHVM).len() > 1);
            assert(HHVM <= REPO && alias_table()[x].0 == short_key(HHVM, 1) && alias_table()[x].1@ == flag_key(HHVM, 1));
        } else if x == 6 {
            lemma_alias_entry_6();
            assert(flag_table(HHVM).len() > 2);
            assert(HHVM <= REPO && alias_table()[x].0 == short_key(HHVM, 2) && alias_table()[x].1@ == flag_key(HHVM, 2));
        } else if x == 7 {
            lemma_alias_entry_7();
            assert(flag_table(HHVM).len() > 3);
            assert(HHVM <= REPO && alias_table()[x].0 == short_key(HHVM, 3) && alias_table()[x].1@ == flag_key(HHVM, 3));
        } else if x == 8 {
            lemma_alias_entry_8();
            assert(flag_table(HHVM).len() > 4);
            assert(HHVM <= REPO && alias_table()[x].0 == short_key(HHVM, 4) && alias_table()[x].1@ == flag_key(HHVM, 4));
        } else if x == 9 {
            lemma_alias_entry_9();
            assert(flag_table(HHVM).len() > 5);
            assert(HHVM <= REPO && alias_table()[x].0 == short_key(HHVM, 5) && alias_table()[x].1@ == flag_key(HHVM, 5));
        } else if x == 10 {
            lemma_alias_entry_10();
            assert(flag_table(HHVM).len() > 6);
            assert(HHVM <= REPO && alias_table()[x].0 == short_key(HHVM, 6) && alias_table()[x].1@ == flag_key(HHVM, 6));
        } else if x == 11 {
            lemma_alias_entry_11();
            assert(flag_table(HHVM).len() > 10);
            assert(HHVM <= REPO && alias_table()[x].0 == short_key(HHVM, 10) && alias_table()[x].1@ == flag_key(HHVM, 10));
        } else if x == 12 {
            lemma_alias_entry_12();
            assert(flag_table(HHVM).len() > 9);
            assert(HHVM <= REPO && alias_table()[x].0 == short_key(HHVM, 9) && alias_table()[x].1@ == flag_key(HHVM, 9));
        } else if x == 13 {
            lemma_alias_entry_13();
            assert(flag_table(HHVM).len() > 7);
            assert(HHVM <= REPO && alias_table()[x].0 == short_key(HHVM, 7) && alias_table()[x].1@ == flag_key(HHVM, 7));
        } else if x == 14 {
            lemma_alias_entry_14();
            assert(flag_table(HHVM).len() > 8);
            assert(HHVM <= REPO && alias_table()[x].0 == short_key(HHVM, 8) && alias_table()[x].1@ == flag_key(HHVM, 8));
        } else if x == 15 {
            lemma_alias_entry_15();
            assert(flag_table(HHVM).len() > 11);
            assert(HHVM <= REPO && alias_table()[x].0 == short_key(HHVM, 11) && alias_table()[x].1@ == flag_key(HHVM, 11));
        } else if x == 16 {
            lemma_alias_entry_16();
            assert(flag_table(LANG).len() > 0);
            assert(LANG <= REPO && alias_table()[x].0 == short_key(LANG, 0) && alias_table()[x].1@ == flag_key(LANG, 0));
        } else if x == 17 {
            lemma_alias_entry_17();
            assert(flag_table(LANG).len() > 1);
            assert(LANG <= REPO && alias_table()[x].0 == short_key(LANG, 1) && alias_table()[x].1@ == flag_key(LANG, 1));
        } else if x == 18 {
            lemma_alias_entry_18();
            assert(flag_table(LANG).len() > 2);
            assert(LANG <= REPO && alias_table()[x].0 == short_key(LANG, 2) && alias_table()[x].1@ == flag_key(LANG, 2));
        } else if x == 19 {
            lemma_alias_entry_19();
            assert(flag_table(LANG).len() > 3);
            assert(LANG <= REPO && alias_table()[x].0 == short_key(LANG, 3) && alias_table()[x].1@ == flag_key(LANG, 3));
        } else if x == 20 {
            lemma_alias_entry_20();
            assert(flag_table(LANG).len() > 4);
            assert(LANG <= REPO && alias_table()[x].0 == short_key(LANG, 4) && alias_table()[x].1@ == flag_key(LANG, 4));
        } else if x == 21 {
            lemma_alias_entry_21();
            assert(flag_table(LANG).len() > 5);
            assert(LANG <= REPO && alias_table()[x].0 == short_key(LANG, 5) && alias_table()[x].1@ == flag_key(LANG, 5));
        } else if x == 22 {
            lemma_alias_entry_22();
            assert(flag_table(LANG).len() > 6);
            assert(LANG <= REPO && alias_table()[x].0 == short_key(LANG, 6) && alias_table()[x].1@ == flag_key(LANG, 6));
        } else if x == 23 {
            lemma_alias_entry_23();
            assert(flag_table(LANG).len() > 7);
            assert(LANG <= REPO && alias_table()[x].0 == short_key(LANG, 7) && alias_table()[x].1@ == flag_key(LANG, 7));
        } else if x == 24 {
            lemma_alias_entry_24();
            assert(flag_table(LANG).len() > 8);
            assert(LANG <= REPO && alias_table()[x].0 == short_key(LANG, 8) && alias_table()[x].1@ == flag_key(LANG, 8));
        } else if x == 25 {
            lemma_alias_entry_25();
            assert(flag_table(LANG).len() > 9);
            assert(LANG <= REPO && alias_table()[x].0 == short_key(LANG, 9) && alias_table()[x].1@ == flag_key(LANG, 9));
        } else if x == 26 {
            lemma_alias_entry_26();
            assert(flag_table(LANG).len() > 10);
            assert(LANG <= REPO && alias_table()[x].0 == short_key(LANG, 10) && alias_table()[x].1@ == flag_key(LANG, 10));
        } else if x == 27 {
            lemma_alias_entry_27();
            assert(flag_table(LANG).len() > 11);
            assert(LANG <= REPO && alias_table()[x].0 == short_key(LANG, 11) && alias_table()[x].1@ == flag_key(LANG, 11));
        } else if x == 28 {
            lemma_alias_entry_28();
            assert(flag_table(LANG).len() > 12);
            assert(LANG <= REPO && alias_table()[x].0 == short_key(LANG, 12) && alias_table()[x].1@ == flag_key(LANG, 12));
        } else if x == 29 {
            lemma_alias_entry_29();
            assert(flag_table(LANG).len() > 13);
            assert(LANG <= REPO && alias_table()[x].0 == short_key(LANG, 13) && alias_table()[x].1@ == flag_key(LANG, 13));
        } else if x == 30 {
            lemma_alias_entry_30();
            assert(flag_table(LANG).len() > 14);
            assert(LANG <= REPO && alias_table()[x].0 == short_key(LANG, 14) && alias_table()[x].1@ == flag_key(LANG, 14));
        } else if x == 31 {
            lemma_alias_entry_31();
            assert(flag_table(PHPISM).len() > 3);
            assert(PHPISM <= REPO && alias_table()[x].0 == short_key(PHPISM, 3) && alias_table()[x].1@ == flag_key(PHPISM, 3));
        } else if x == 32 {
            lemma_alias_entry_32();
            assert(flag_table(PHPISM).len() > 1);
            assert(PHPISM <= REPO && alias_table()[x].0 == short_key(PHPISM, 1) && alias_table()[x].1@ == flag_key(PHPISM, 1));
        } else if x == 33 {
            lemma_alias_entry_33();
            assert(flag_table(PHPISM).len() > 2);
            assert(PHPISM <= REPO && alias_table()[x].0 == short_key(PHPISM, 2) && alias_table()[x].1@ == flag_key(PHPISM, 2));
        } else if x == 34 {
            lemma_alias_entry_34();
            assert(flag_table(PHPISM).len() > 0);
            assert(PHPISM <= REPO && alias_table()[x].0 == short_key(PHPISM, 0) && alias_table()[x].1@ == flag_key(PHPISM, 0));
        } else if x == 35 {
            lemma_alias_entry_35();
            assert(flag_table(PHP7).len() > 0);
            assert(PHP7 <= REPO && alias_table()[x].0 == short_key(PHP7, 0) && alias_table()[x].1@ == flag_key(PHP7, 0));
        } else if x == 36 {
            lemma_alias_entry_36();
            assert(flag_table(PHP7).len() > 1);
            assert(PHP7 <= REPO && alias_table()[x].0 == short_key(PHP7, 1) && alias_table()[x].1@ == flag_key(PHP7, 1));
        } else if x == 37 {
            lemma_alias_entry_37();
            assert(flag_table(REPO).len() > 0);
            assert(REPO <= REPO && alias_table()[x].0 == short_key(REPO, 0) && alias_table()[x].1@ == flag_key(REPO, 0));
        }
    }
}

/// The short name of every flag is an alias of its key: an argument or an
/// entry under the short name is read as under the key, and names the flag.
pub proof fn lemma_short_names_canonical(g: u8, i: int)
    requires
        g <= REPO,
        0 <= i < flag_table(g).len(),
    ensures
        canonical_key_spec(short_key(g, i)) == flag_key(g, i),
        flag_shift_of(g, short_key(g, i)) == Some(flag_table(g)[i].1),
{
    let t = alias_table();
    lemma_alias_keys_distinct();
    let x: int = if g == EVAL && i == 0 { 0  } else if g == COMPILER && i == 0 { 1  } else if g == COMPILER && i == 1 { 2  } else if g == COMPILER && i == 2 { 3  } else if g == HHVM && i == 0 { 4  } else if g == HHVM && i == 1 { 5  } else if g == HHVM && i == 2 { 6  } else if g == HHVM && i == 3 { 7  } else if g == HHVM && i == 4 { 8  } else if g == HHVM && i == 5 { 9  } else if g == HHVM && i == 6 { 10  } else if g == HHVM && i == 10 { 11  } else if g == HHVM && i == 9 { 12  } else if g == HHVM && i == 7 { 13  } else if g == HHVM && i == 8 { 14  } else if g == HHVM && i == 11 { 15  } else if g == LANG && i == 0 { 16  } else if g == LANG && i == 1 { 17  } else if g == LANG && i == 2 { 18  } else if g == LANG && i == 3 { 19  } else if g == LANG && i == 4 { 20  } else if g == LANG && i == 5 { 21  } else if g == LANG && i == 6 { 22  } else if g == LANG && i == 7 { 23  } else if g == LANG && i == 8 { 24  } else if g == LANG && i == 9 { 25  } else if g == LANG && i == 10 { 26  } else if g == LANG && i == 11 { 27  } else if g == LANG && i == 12 { 28  } else if g == LANG && i == 13 { 29  } else if g == LANG && i == 14 { 30  } else if g == PHPISM && i == 3 { 31  } else if g == PHPISM && i == 1 { 32  } else if g == PHPISM && i == 2 { 33  } else if g == PHPISM && i == 0 { 34  } else if g == PHP7 && i == 0 { 35  } else if g == PHP7 && i == 1 { 36  } else if g == REPO && i == 0 { 37 } else { 0 };
    assert(0 <= x < 38) by {
        if g == EVAL { assert(i == 0); }
        if g == COMPILER { assert(i == 0 || i == 1 || i == 2); }
        if g == HHVM { assert(i == 0 || i == 1 || i == 2 || i == 3 || i == 4 || i == 5 || i == 6 || i == 7 || i == 8 || i == 9 || i == 10 || i == 11); }
        if g == LANG { assert(i == 0 || i == 1 || i == 2 || i == 3 || i == 4 || i == 5 || i == 6 || i == 7 || i == 8 || i == 9 || i == 10 || i == 11 || i == 12 || i == 13 || i == 14); }
        if g == PHPISM { assert(i == 0 || i == 1 || i == 2 || i == 3); }
        if g == PHP7 { assert(i == 0 || i == 1); }
        if g == REPO { assert(i == 0); }
    }
    if x == 0 {
        lemma_alias_entry_0();
    } else if x == 1 {
        lemma_alias_entry_1();
    } else if x == 2 {
        lemma_alias_entry_2();
    } else if x == 3 {
        lemma_alias_entry_3();
    } else if x == 4 {
        lemma_alias_entry_4();
    } else if x == 5 {
        lemma_alias_entry_5();
    } else if x == 6 {
        lemma_alias_entry_6();
    } else if x == 7 {
        lemma_alias_entry_7();
    } else if x == 8 {
        lemma_alias_entry_8();
    } else if x == 9 {
        lemma_alias_entry_9();
    } else if x == 10 {
        lemma_alias_entry_10();
    } else if x == 11 {
        lemma_alias_entry_11();
    } else if x == 12 {
        lemma_alias_entry_12();
    } else if x == 13 {
        lemma_alias_entry_13();
    } else if x == 14 {
        lemma_alias_entry_14();
    } else if x == 15 {
        lemma_alias_entry_15();
    } else if x == 16 {
        lemma_alias_entry_16();
    } else if x == 17 {
        lemma_alias_entry_17();
    } else if x == 18 {
        lemma_alias_entry_18();
    } else if x == 19 {
        lemma_alias_entry_19();
    } else if x == 20 {
        lemma_alias_entry_20();
    } else if x == 21 {
        lemma_alias_entry_21();
    } else if x == 22 {
        lemma_alias_entry_22();
    } else if x == 23 {
        lemma_alias_entry_23();
    } else if x == 24 {
        lemma_alias_entry_24();
    } else if x == 25 {
        lemma_alias_entry_25();
    } else if x == 26 {
        lemma_alias_entry_26();
    } else if x == 27 {
        lemma_alias_entry_27();
    } else if x == 28 {
        lemma_alias_entry_28();
    } else if x == 29 {
        lemma_alias_entry_29();
    } else if x == 30 {
        lemma_alias_entry_30();
    } else if x == 31 {
        lemma_alias_entry_31();
    } else if x == 32 {
        lemma_alias_entry_32();
    } else if x == 33 {
        lemma_alias_entry_33();
    } else if x == 34 {
        lemma_alias_entry_34();
    } else if x == 35 {
        lemma_alias_entry_35();
    } else if x == 36 {
        lemma_alias_entry_36();
    } else if x == 37 {
        lemma_alias_entry_37();
    }
    assert(t[x].0 == short_key(g, i) && t[x].1@ == flag_key(g, i)) by {
        if g == EVAL { assert(i == 0); }
        if g == COMPILER { assert(i == 0 || i == 1 || i == 2); }
        if g == HHVM { assert(i == 0 || i == 1 || i == 2 || i == 3 || i == 4 || i == 5 || i == 6 || i == 7 || i == 8 || i == 9 || i == 10 || i == 11); }
        if g == LANG { assert(i == 0 || i == 1 || i == 2 || i == 3 || i == 4 || i == 5 || i == 6 || i == 7 || i == 8 || i == 9 || i == 10 || i == 11 || i == 12 || i == 13 || i == 14); }
        if g == PHPISM { assert(i == 0 || i == 1 || i == 2 || i == 3); }
        if g == PHP7 { assert(i == 0 || i == 1); }
        if g == REPO { assert(i == 0); }
    }
    assert forall|y: int| 0 <= y < x implies #[trigger] t[y].0 != t[x].0 by {
        assert(t[y].0 != t[x].0);
    }
    lemma_assoc_lookup_at(t, x);
    lemma_flag_key_canonical(g, i);
    lemma_flag_shift_of_key(g, i);
}


/// A key that every alias equal to it stands for is its own canonical key.
proof fn lemma_canonical_fixed(k: Seq<char>)
    requires
        forall|a: int|
            #![trigger alias_table()[a]]
            0 <= a < alias_table().len() && alias_table()[a].0 == k ==> alias_table()[a].1@ == k,
    ensures
        canonical_key_spec(k) == k,
{
    let t = alias_table();
    if assoc_lookup(t, k) is Some {
        lemma_assoc_lookup_in(t, k);
        let a = choose|a: int|
            0 <= a < t.len() && t[a].1 == assoc_lookup(t, k)->Some_0 && t[a].0 == k;
        assert(t[a].0 == k);
    }
}

/// The key of a flag is its own canonical key.
pub proof fn lemma_flag_key_canonical(g: u8, i: int)
    requires
        0 <= i < flag_table(g).len(),
    ensures
        canonical_key_spec(flag_key(g, i)) == flag_key(g, i),
{
    let k = flag_key(g, i);
    let p = flag_prefix(g);
    lemma_alias_shapes();
    lemma_prefixes();
    lemma_short_group_names();
    assert(k[0] == p[0] && k[1] == p[1]);
    if g == COMPILER {
        assert(k[5] == p[5]);
    }
    assert forall|a: int|
        #![trigger alias_table()[a]]
        0 <= a < alias_table().len() && alias_table()[a].0 == k implies alias_table()[a].1@ == k by {
        assert(alias_shape(alias_table()[a].0, alias_table()[a].1@));
        if g == COMPILER {
            assert(i == 0 || i == 1 || i == 2);
        }
    }
    lemma_canonical_fixed(k);
}

/// The key of a flag names that flag.
pub proof fn lemma_flag_shift_of_key(g: u8, i: int)
    requires
        0 <= i < flag_table(g).len(),
    ensures
        flag_shift_of(g, flag_key(g, i)) == Some(flag_table(g)[i].1),
{
    let t = flag_table(g);
    let p = flag_prefix(g);
    let k = flag_key(g, i);
    lemma_flag_key_canonical(g, i);
    lemma_table_wf(g);
    assert(k.subrange(0, p.len() as int) =~= p);
    assert(k.subrange(p.len() as int, k.len() as int) =~= t[i].0);
    assert forall|j: int| 0 <= j < i implies #[trigger] t[j].0 != t[i].0 by {
        assert(t[j].0 != t[i].0 && t[j].1 != t[i].1);
    }
    lemma_assoc_lookup_at(t, i);
}

/// The key of a flag names no flag of another group.
pub proof fn lemma_flag_shift_other_group(g: u8, g2: u8, j: int)
    requires
        g != g2,
        0 <= j < flag_table(g2).len(),
    ensures
        flag_shift_of(g, flag_key(g2, j)) is None,
{
    let k = flag_key(g2, j);
    let p = flag_prefix(g);
    let p2 = flag_prefix(g2);
    let t = flag_table(g);
    lemma_flag_key_canonical(g2, j);
    lemma_prefixes();
    lemma_table_wf(g);
    lemma_table_wf(g2);
    assert(name_shape(flag_table(g2)[j].0));
    if has_prefix(k, p) {
        assert(k.subrange(0, p.len() as int) == p);
        if g <= REPO {
            assert(k[0] == p[0] && k[1] == p[1]);
            if p.len() > 5 {
                assert(k[5] == p[5]);
            }
            if p.len() > 9 {
                assert(k[9] == p[9]);
            }
            if p.len() > 21 {
                assert(k[21] == p[21]);
            }
        }
        let rest = k.subrange(p.len() as int, k.len() as int);
        if rest.len() > 4 {
            assert(rest[4] == k[p.len() + 4int]);
        }
        if rest.len() > 6 {
            assert(rest[6] == k[p.len() + 6int]);
        }
        assert forall|i: int| 0 <= i < t.len() implies #[trigger] t[i].0 != rest by {
            assert(name_shape(t[i].0));
        }
        lemma_assoc_lookup_absent(t, rest);
    }
}

/// Bit `s` of `x` is on exactly when `x` holds the whole of `flag_bit(s)`.
pub proof fn lemma_bit_of_flag(x: u64, s: u64)
    requires
        s < 64,
    ensures
        bit_of(x, s) == (x & flag_bit(s) == flag_bit(s)),
{
    assert((((x >> s) & 1u64) == 1u64) == ((x & (1u64 << s)) == (1u64 << s))) by (bit_vector)
        requires
            s < 64,
    ;
}

/// The JSON of an option whose value is a boolean turns a flag on or off.
pub proof fn lemma_arg_bool_truth(b: bool)
    ensures
        entry_truth(arg_json(JsonV::Bool(b))) == if b {
            Truth::On
        } else {
            Truth::Off
        },
{
    let m = Map::<Seq<char>, JsonV>::empty().insert("global_value"@, JsonV::Bool(b));
    assert(m.contains_key("global_value"@));
}

/// Reading a finite object whose entries can all be read, in which the key
/// of each flag of group `g` says whether that flag is on as `bits` has it and
/// no other entry that turns flags on or off names a flag of `g`, gives `bits`.
pub proof fn lemma_decode_flags_exact(g: u8, m: Map<Seq<char>, JsonV>, bits: u64)
    requires
        m.dom().finite(),
        within(bits, flag_mask(g)),
        forall|k: Seq<char>| #[trigger] m.contains_key(k) ==> entry_truth(m[k]) != Truth::Invalid,
        forall|i: int|
            0 <= i < flag_table(g).len() ==> m.contains_key(#[trigger] flag_key(g, i))
                && entry_truth(m[flag_key(g, i)]) == if bit_of(bits, flag_table(g)[i].1) {
                Truth::On
            } else {
                Truth::Off
            },
        forall|k: Seq<char>|
            #[trigger] m.contains_key(k) && entry_truth(m[k]) != Truth::Skip && flag_shift_of(g, k)
                is Some ==> exists|i: int| 0 <= i < flag_table(g).len() && k == flag_key(g, i),
    ensures
        decode_flags_spec(g, m) == Some(bits),
{
    let t = flag_table(g);
    let ks = sorted_keys(m);
    let b0 = default_bits(g);
    lemma_sorted_keys_order(m);
    assert forall|i: int| 0 <= i < ks.len() implies entry_truth(m[#[trigger] ks[i]]) != Truth::Invalid by {
        assert(ks.contains(ks[i]));
        assert(m.contains_key(ks[i]));
    }
    lemma_decode_flags_bits(g, b0, m, ks);
    let r = decode_flags_keys(g, b0, m, ks)->Some_0;
    lemma_table_wf(g);
    lemma_table_shifts(g);
    lemma_default_within(g);
    assert forall|u: u64| u < 64 implies bit_of(r, u) == bit_of(bits, u) by {
        if exists|i: int| 0 <= i < t.len() && t[i].1 == u {
            let i = choose|i: int| 0 <= i < t.len() && t[i].1 == u;
            let k = flag_key(g, i);
            assert(m.contains_key(k));
            assert(ks.contains(k));
            let j = choose|j: int| 0 <= j < ks.len() && ks[j] == k;
            lemma_flag_shift_of_key(g, i);
            assert(names_flag(g, m, ks[j], u));
            assert forall|j2: int| 0 <= j2 < ks.len() && j2 != j implies !names_flag(
                g,
                m,
                #[trigger] ks[j2],
                u,
            ) by {
                if names_flag(g, m, ks[j2], u) {
                    assert(ks.contains(ks[j2]));
                    assert(m.contains_key(ks[j2]));
                    let i2 = choose|i2: int| 0 <= i2 < t.len() && ks[j2] == flag_key(g, i2);
                    lemma_flag_shift_of_key(g, i2);
                    if i2 != i {
                        if i2 < i {
                            assert(t[i2].1 != t[i].1);
                        } else {
                            assert(t[i].1 != t[i2].1);
                        }
                    }
                    lemma_increasing_no_dup(ks, j, j2);
                }
            }
            lemma_last_flag_value_single(g, m, ks, u, j);
        } else {
            assert forall|j2: int| 0 <= j2 < ks.len() implies !names_flag(g, m, #[trigger] ks[j2], u) by {
                if names_flag(g, m, ks[j2], u) {
                    assert(ks.contains(ks[j2]));
                    assert(m.contains_key(ks[j2]));
                    let i2 = choose|i2: int| 0 <= i2 < t.len() && ks[j2] == flag_key(g, i2);
                    lemma_flag_shift_of_key(g, i2);
                    assert(t[i2].1 == u);
                }
            }
            lemma_last_flag_value_none(g, m, ks, u);
            lemma_table_mask_bit(t, u);
            lemma_bit_within(b0, flag_mask(g), u);
            lemma_bit_within(bits, flag_mask(g), u);
        }
    }
    lemma_bits_ext(r, bits);
}

/// In the object that entries with distinct keys build, each entry's key
/// holds its value, and nothing else is a key.
pub proof fn lemma_pairs_map_distinct(es: Seq<(Seq<char>, JsonV)>)
    requires
        forall|i: int, j: int| #![trigger es[i], es[j]] 0 <= i < j < es.len() ==> es[i].0 != es[j].0,
    ensures
        pairs_map(es).dom().finite(),
        forall|k: Seq<char>|
            #[trigger] pairs_map(es).contains_key(k) <==> exists|i: int|
                0 <= i < es.len() && es[i].0 == k,
        forall|i: int| 0 <= i < es.len() ==> pairs_map(es)[(#[trigger] es[i]).0] == es[i].1,
    decreases es.len(),
{
    if es.len() > 0 {
        let p = es.drop_last();
        assert forall|i: int, j: int| #![trigger p[i], p[j]] 0 <= i < j < p.len() implies p[i].0 != p[j].0 by {
            assert(p[i] == es[i] && p[j] == es[j]);
        }
        lemma_pairs_map_distinct(p);
        let n = es.len() - 1;
        assert forall|k: Seq<char>|
            #[trigger] pairs_map(es).contains_key(k) <==> exists|i: int|
                0 <= i < es.len() && es[i].0 == k by {
            if pairs_map(p).contains_key(k) {
                let i = choose|i: int| 0 <= i < p.len() && p[i].0 == k;
                assert(es[i] == p[i]);
            }
            if exists|i: int| 0 <= i < es.len() && es[i].0 == k {
                let i = choose|i: int| 0 <= i < es.len() && es[i].0 == k;
                if i < n {
                    assert(p[i] == es[i]);
                }
            }
        }
        assert forall|i: int| 0 <= i < es.len() implies pairs_map(es)[(#[trigger] es[i]).0] == es[i].1 by {
            if i < n {
                assert(p[i] == es[i]);
                assert(es[i].0 != es[n].0);
            }
        }
    }
}

/// The key of a flag is none of the keys of the options that are not flags.
pub proof fn lemma_flag_key_not_arg(g: u8, i: int)
    requires
        0 <= i < flag_table(g).len(),
    ensures
        flag_key(g, i) != "doc_root"@,
        flag_key(g, i) != "max_array_elem_size_on_the_stack"@,
        flag_key(g, i) != "hhvm.aliased_namespaces"@,
        flag_key(g, i) != "hhvm.dynamic_invoke_functions"@,
        flag_key(g, i) != "hhvm.include_roots"@,
        flag_key(g, i) != "hhvm.server.include_search_paths"@,
{
    let k = flag_key(g, i);
    let p = flag_prefix(g);
    let n = flag_table(g)[i].0;
    lemma_prefixes();
    lemma_arg_keys();
    lemma_table_wf(g);
    assert(name_shape(n));
    assert(k[0] == p[0] && k[1] == p[1]);
    if g == HHVM {
        lemma_hhvm_names();
        assert(hhvm_name_shape(n));
        assert(k[5] == n[0]);
        if n.len() > 6 {
            assert(k[11] == n[6]);
        }
    } else if p.len() > 5 {
        assert(k[5] == p[5]);
    }
}

/// Flags of two groups have different keys.
pub proof fn lemma_flag_keys_disjoint(g: u8, i: int, g2: u8, j: int)
    requires
        g != g2,
        0 <= i < flag_table(g).len(),
        0 <= j < flag_table(g2).len(),
    ensures
        flag_key(g, i) != flag_key(g2, j),
{
    lemma_flag_shift_of_key(g, i);
    lemma_flag_shift_other_group(g, g2, j);
}

/// The object that the entries of a group of flags build: its keys are the
/// keys of the flags, and each says whether its flag is on in `bits`.
pub proof fn lemma_flag_entries_map(g: u8, bits: u64)
    ensures
        pairs_map(flag_entries(g, bits)).dom().finite(),
        forall|k: Seq<char>|
            #[trigger] pairs_map(flag_entries(g, bits)).contains_key(k) <==> exists|i: int|
                0 <= i < flag_table(g).len() && k == flag_key(g, i),
        forall|i: int|
            0 <= i < flag_table(g).len() ==> pairs_map(flag_entries(g, bits)).contains_key(
                #[trigger] flag_key(g, i),
            ) && pairs_map(flag_entries(g, bits))[flag_key(g, i)] == arg_json(
                JsonV::Bool(bit_of(bits, flag_table(g)[i].1)),
            ),
{
    let t = flag_table(g);
    let es = flag_entries(g, bits);
    let m = pairs_map(es);
    lemma_table_wf(g);
    lemma_table_shifts(g);
    assert forall|i: int| 0 <= i < es.len() implies #[trigger] es[i] == (
        flag_key(g, i),
        arg_json(JsonV::Bool(bit_of(bits, t[i].1))),
    ) by {
        lemma_bit_of_flag(bits, t[i].1);
    }
    assert forall|i: int, j: int| #![trigger es[i], es[j]] 0 <= i < j < es.len() implies es[i].0 != es[j].0 by {
        let p = flag_prefix(g);
        if es[i].0 == es[j].0 {
            assert(es[i].0.subrange(p.len() as int, es[i].0.len() as int) =~= t[i].0);
            assert(es[j].0.subrange(p.len() as int, es[j].0.len() as int) =~= t[j].0);
        }
    }
    lemma_pairs_map_distinct(es);
    assert forall|k: Seq<char>|
        #[trigger] m.contains_key(k) <==> exists|i: int| 0 <= i < t.len() && k == flag_key(g, i) by {
        if m.contains_key(k) {
            let i = choose|i: int| 0 <= i < es.len() && es[i].0 == k;
            assert(es[i].0 == flag_key(g, i));
        }
        if exists|i: int| 0 <= i < t.len() && k == flag_key(g, i) {
            let i = choose|i: int| 0 <= i < t.len() && k == flag_key(g, i);
            assert(es[i].0 == k);
        }
    }
    assert forall|i: int| 0 <= i < t.len() implies m.contains_key(#[trigger] flag_key(g, i))
        && m[flag_key(g, i)] == arg_json(JsonV::Bool(bit_of(bits, t[i].1))) by {
        assert(es[i].0 == flag_key(g, i));
    }
}

/// Writing a set of flags of group `g` and reading the object back gives the
/// same set: `from_json_entries` undoes `to_json_entries`.
pub proof fn lemma_flags_round_trip(g: u8, bits: u64)
    requires
        within(bits, flag_mask(g)),
    ensures
        decode_flags_spec(g, pairs_map(flag_entries(g, bits))) == Some(bits),
{
    let t = flag_table(g);
    let m = pairs_map(flag_entries(g, bits));
    lemma_flag_entries_map(g, bits);
    assert forall|k: Seq<char>| #[trigger] m.contains_key(k) implies entry_truth(m[k]) != Truth::Invalid
        && (flag_shift_of(g, k) is Some ==> exists|i: int| 0 <= i < t.len() && k == flag_key(g, i)) by {
        let i = choose|i: int| 0 <= i < t.len() && k == flag_key(g, i);
        lemma_arg_bool_truth(bit_of(bits, t[i].1));
    }
    assert forall|i: int| 0 <= i < t.len() implies m.contains_key(#[trigger] flag_key(g, i))
        && entry_truth(m[flag_key(g, i)]) == if bit_of(bits, t[i].1) {
        Truth::On
    } else {
        Truth::Off
    } by {
        lemma_arg_bool_truth(bit_of(bits, t[i].1));
    }
    lemma_decode_flags_exact(g, m, bits);
}

/// A key of that shape is its own canonical key.
proof fn lemma_target_canonical(c: Seq<char>)
    requires
        target_shape(c),
    ensures
        canonical_key_spec(c) == c,
{
    lemma_alias_shapes();
    assert forall|a: int|
        #![trigger alias_table()[a]]
        0 <= a < alias_table().len() && alias_table()[a].0 == c implies alias_table()[a].1@ == c by {
        assert(alias_shape(alias_table()[a].0, alias_table()[a].1@));
    }
    lemma_canonical_fixed(c);
}

/// An alias stands for its key, which is canonical; so an alias names the
/// same flag as that key, and a command-line argument under the alias gives
/// the same entry as one under the key.
pub proof fn lemma_alias_names_same_flag(g: u8, x: int)
    requires
        0 <= x < alias_table().len(),
    ensures
        canonical_key_spec(alias_table()[x].0) == alias_table()[x].1@,
        canonical_key_spec(alias_table()[x].1@) == alias_table()[x].1@,
        flag_shift_of(g, alias_table()[x].0) == flag_shift_of(g, alias_table()[x].1@),
{
    let t = alias_table();
    lemma_alias_keys_distinct();
    assert forall|y: int| 0 <= y < x implies #[trigger] t[y].0 != t[x].0 by {
        assert(t[y].0 != t[x].0);
    }
    lemma_assoc_lookup_at(t, x);
    lemma_alias_targets();
    lemma_target_canonical(t[x].1@);
}

/// Bit `u` of `a & b` is on when it is on in both.
proof fn lemma_bit_and(a: u64, b: u64, u: u64)
    requires
        u < 64,
    ensures
        bit_of(a & b, u) == (bit_of(a, u) && bit_of(b, u)),
{
    assert((((a & b) >> u) & 1u64 == 1u64) == (((a >> u) & 1u64 == 1u64) && ((b >> u) & 1u64
        == 1u64))) by (bit_vector)
        requires
            u < 64,
    ;
}

/// The groups of flags use disjoint bits: no set holds a bit of another group.
pub proof fn lemma_group_masks_disjoint(g: u8, g2: u8)
    requires
        g != g2,
    ensures
        flag_mask(g) & flag_mask(g2) == 0,
{
    let t = flag_table(g);
    let t2 = flag_table(g2);
    let m = flag_mask(g) & flag_mask(g2);
    lemma_table_shifts(g);
    lemma_table_shifts(g2);
    lemma_group_of_bit(g);
    lemma_group_of_bit(g2);
    assert forall|u: u64| u < 64 implies bit_of(m, u) == bit_of(0, u) by {
        lemma_bit_and(flag_mask(g), flag_mask(g2), u);
        lemma_table_mask_bit(t, u);
        lemma_table_mask_bit(t2, u);
        lemma_bit_zero(u);
        if bit_of(flag_mask(g), u) && bit_of(flag_mask(g2), u) {
            let i = choose|i: int| 0 <= i < t.len() && t[i].1 == u;
            let j = choose|j: int| 0 <= j < t2.len() && t2[j].1 == u;
            assert(group_of_bit(t[i].1) == g);
            assert(group_of_bit(t2[j].1) == g2);
        }
    }
    lemma_bits_ext(m, 0);
}

/// Reading an object of one entry, the key of flag `i` of group `g` with a
/// boolean, an integer that fits in an `isize`, or the string "true" or
/// "false" as its value, gives the defaults of the group with only that flag
/// changed: on for `true`, a non-zero integer or "true", off otherwise.
pub proof fn lemma_decode_single_flag(g: u8, i: int, v: JsonV)
    requires
        0 <= i < flag_table(g).len(),
        v is Bool || (v matches JsonV::Int(n) && isize::MIN <= n <= isize::MAX) || (v matches JsonV::Str(
            s,
        ) && (s == "true"@ || s == "false"@)),
    ensures
        decode_flags_spec(g, Map::empty().insert(flag_key(g, i), arg_json(v))) == Some(
            if (match v {
                JsonV::Bool(b) => b,
                JsonV::Int(n) => n != 0,
                JsonV::Str(s) => s == "true"@,
                _ => false,
            }) {
                default_bits(g) | flag_bit(flag_table(g)[i].1)
            } else {
                default_bits(g) & !flag_bit(flag_table(g)[i].1)
            },
        ),
{
    let k = flag_key(g, i);
    let m = Map::<Seq<char>, JsonV>::empty().insert(k, arg_json(v));
    reveal_strlit("true");
    reveal_strlit("false");
    assert("true"@.len() == 4 && "false"@.len() == 5);
    let one = seq![k];
    assert(increasing_keys(one));
    assert forall|x: Seq<char>| #[trigger] m.contains_key(x) <==> one.contains(x) by {
        if one.contains(x) {
            let j = choose|j: int| 0 <= j < one.len() && one[j] == x;
            assert(j == 0);
        }
        if x == k {
            assert(one[0] == x);
        }
    }
    lemma_sorted_keys_order(m);
    assert forall|x: Seq<char>| sorted_keys(m).contains(x) <==> one.contains(x) by {
        assert(m.contains_key(x) <==> sorted_keys(m).contains(x));
        assert(m.contains_key(x) <==> one.contains(x));
    }
    lemma_increasing_unique(sorted_keys(m), one);
    assert(one.drop_last() =~= Seq::<Seq<char>>::empty());
    assert(one.last() == k);
    assert(m[k] == arg_json(v));
    let gm = Map::<Seq<char>, JsonV>::empty().insert("global_value"@, v);
    assert(gm.contains_key("global_value"@));
    assert(crate::flags::arg_payload(arg_json(v)) == Some(v));
    lemma_flag_shift_of_key(g, i);
    let d = default_bits(g);
    assert(decode_flags_keys(g, d, m, one.drop_last()) == Some(d));
    assert(decode_flags_spec(g, m) == crate::flags::apply_flag_entry(g, d, k, arg_json(v)));
}

} // verus!
