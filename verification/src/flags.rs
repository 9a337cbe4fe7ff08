//! Sets of boolean options. Each set has a prefix, and each of its flags a
//! name: the JSON key of a flag is the prefix followed by the name. A set is
//! a word of bits, one bit per flag, and holds no bit of another set.
use vstd::prelude::*;
use crate::strs::{
    concat, lex_lt, owned,
    assoc_find, assoc_lookup, has_prefix, lemma_assoc_lookup_in, parse_i32, parse_i32_spec, slice, starts_with, str_eq,
    table_view,
};
use crate::json::{
    entry_keys, has_key, last_key_index, lemma_array_view, lemma_entries_map,
    lemma_increasing_no_dup, lemma_increasing_unique, lemma_keys_increasing_distinct,
    lemma_object_view, lemma_sorted_keys_of_entries, lemma_sorted_keys_order, sorted_keys,
    view_values, Json, JsonV, StrMap,
};
use crate::cli::{canonical_key, canonical_key_spec};

verus! {

/// The groups of flags, by the number that their set type carries.
pub const EVAL: u8 = 0;
pub const COMPILER: u8 = 1;
pub const HHVM: u8 = 2;
pub const LANG: u8 = 3;
pub const PHPISM: u8 = 4;
pub const PHP7: u8 = 5;
pub const REPO: u8 = 6;

/// The flags of group `g`, sorted by name, each with the number of its bit.
pub open spec fn flag_table(g: u8) -> Seq<(Seq<char>, u64)> {
    if g == EVAL {
        seq![("disassembler_source_mapping"@, 2u64)]
    } else if g == COMPILER {
        seq![("constant_folding"@, 0u64), ("optimize_null_checks"@, 1u64), ("relabel"@, 5u64)]
    } else if g == HHVM {
        seq![("array_provenance"@, 33u64), ("emit_cls_meth_pointers"@, 26u64), ("emit_func_pointers"@, 25u64), ("emit_inst_meth_pointers"@, 27u64), ("emit_meth_caller_func_pointers"@, 28u64), ("enable_intrinsics_extension"@, 15u64), ("enforce_generics_ub"@, 44u64), ("hack_arr_compat_notices"@, 7u64), ("hack_arr_dv_arrs"@, 8u64), ("jit_enable_rename_function"@, 10u64), ("log_extern_compiler_perf"@, 14u64), ("rx_is_enabled"@, 29u64)]
    } else if g == LANG {
        seq![("abstract_static_props"@, 41u64), ("allow_new_attribute_syntax"@, 37u64), ("check_int_overflow"@, 45u64), ("const_default_func_args"@, 39u64), ("const_static_props"@, 40u64), ("disable_legacy_attribute_syntax"@, 38u64), ("disable_legacy_soft_typehints"@, 36u64), ("disable_lval_as_an_expression"@, 30u64), ("disable_unset_class_const"@, 42u64), ("disallow_func_ptrs_in_constants"@, 43u64), ("enable_class_level_where_clauses"@, 35u64), ("enable_coroutines"@, 12u64), ("enable_pocket_universes"@, 31u64), ("enable_xhp_class_modifier"@, 46u64), ("hacksperimental"@, 13u64)]
    } else if g == PHPISM {
        seq![("disable_halt_compiler"@, 24u64), ("disable_nontoplevel_declarations"@, 22u64), ("disable_static_closures"@, 23u64), ("disallow_execution_operator"@, 21u64)]
    } else if g == PHP7 {
        seq![("ltr_assign"@, 4u64), ("uvs"@, 3u64)]
    } else if g == REPO {
        seq![("authoritative"@, 9u64)]
    } else {
        seq![]
    }
}

fn flag_table_exec(g: u8) -> (r: Vec<(&'static str, u64)>)
    ensures
        table_view(r@) == flag_table(g),
{
    let r: Vec<(&'static str, u64)> = if g == EVAL {
        vec![("disassembler_source_mapping", 2u64)]
    } else if g == COMPILER {
        vec![("constant_folding", 0u64), ("optimize_null_checks", 1u64), ("relabel", 5u64)]
    } else if g == HHVM {
        vec![("array_provenance", 33u64), ("emit_cls_meth_pointers", 26u64), ("emit_func_pointers", 25u64), ("emit_inst_meth_pointers", 27u64), ("emit_meth_caller_func_pointers", 28u64), ("enable_intrinsics_extension", 15u64), ("enforce_generics_ub", 44u64), ("hack_arr_compat_notices", 7u64), ("hack_arr_dv_arrs", 8u64), ("jit_enable_rename_function", 10u64), ("log_extern_compiler_perf", 14u64), ("rx_is_enabled", 29u64)]
    } else if g == LANG {
        vec![("abstract_static_props", 41u64), ("allow_new_attribute_syntax", 37u64), ("check_int_overflow", 45u64), ("const_default_func_args", 39u64), ("const_static_props", 40u64), ("disable_legacy_attribute_syntax", 38u64), ("disable_legacy_soft_typehints", 36u64), ("disable_lval_as_an_expression", 30u64), ("disable_unset_class_const", 42u64), ("disallow_func_ptrs_in_constants", 43u64), ("enable_class_level_where_clauses", 35u64), ("enable_coroutines", 12u64), ("enable_pocket_universes", 31u64), ("enable_xhp_class_modifier", 46u64), ("hacksperimental", 13u64)]
    } else if g == PHPISM {
        vec![("disable_halt_compiler", 24u64), ("disable_nontoplevel_declarations", 22u64), ("disable_static_closures", 23u64), ("disallow_execution_operator", 21u64)]
    } else if g == PHP7 {
        vec![("ltr_assign", 4u64), ("uvs", 3u64)]
    } else if g == REPO {
        vec![("authoritative", 9u64)]
    } else {
        vec![]
    };
    assert(table_view(r@) =~= flag_table(g));
    r
}

pub open spec fn flag_prefix(g: u8) -> Seq<char> {
    if g == EVAL {
        "eval."@
    } else if g == COMPILER {
        "hack.compiler."@
    } else if g == HHVM {
        "hhvm."@
    } else if g == LANG {
        "hhvm.hack.lang."@
    } else if g == PHPISM {
        "hhvm.hack.lang.phpism."@
    } else if g == PHP7 {
        "hhvm.php7."@
    } else if g == REPO {
        "hhvm.repo."@
    } else {
        ""@
    }
}

fn flag_prefix_exec(g: u8) -> (r: &'static str)
    ensures
        r@ == flag_prefix(g),
{
    if g == EVAL {
        "eval."
    } else if g == COMPILER {
        "hack.compiler."
    } else if g == HHVM {
        "hhvm."
    } else if g == LANG {
        "hhvm.hack.lang."
    } else if g == PHPISM {
        "hhvm.hack.lang.phpism."
    } else if g == PHP7 {
        "hhvm.php7."
    } else if g == REPO {
        "hhvm.repo."
    } else {
        ""
    }
}


/// The bit with number `s`.
pub open spec fn flag_bit(s: u64) -> u64 {
    1u64 << s
}

/// The bits of all the flags of a table.
pub open spec fn table_mask(t: Seq<(Seq<char>, u64)>) -> u64
    decreases t.len(),
{
    if t.len() == 0 {
        0
    } else {
        table_mask(t.drop_last()) | flag_bit(t.last().1)
    }
}

/// The bits that the flags of group `g` use.
pub open spec fn flag_mask(g: u8) -> u64 {
    table_mask(flag_table(g))
}

/// `x` holds no bit outside `m`.
pub open spec fn within(x: u64, m: u64) -> bool {
    x & !m == 0
}

pub proof fn lemma_within_or(x: u64, y: u64, m: u64)
    requires
        within(x, m),
        within(y, m),
    ensures
        within(x | y, m),
{
    assert((x & !m == 0 && y & !m == 0) ==> (x | y) & !m == 0) by (bit_vector);
}

pub proof fn lemma_within_and(x: u64, y: u64, m: u64)
    requires
        within(x, m),
    ensures
        within(x & y, m),
{
    assert(x & !m == 0 ==> (x & y) & !m == 0) by (bit_vector);
}

proof fn lemma_within_grow(x: u64, a: u64, b: u64)
    requires
        within(x, a),
    ensures
        within(x, a | b),
        within(b, a | b),
{
    assert(x & !a == 0 ==> x & !(a | b) == 0) by (bit_vector);
    assert(b & !(a | b) == 0) by (bit_vector);
}

/// Every bit numbered in a table lies in its mask.
pub proof fn lemma_table_bit_within(t: Seq<(Seq<char>, u64)>, i: int)
    requires
        0 <= i < t.len(),
    ensures
        within(flag_bit(t[i].1), table_mask(t)),
    decreases t.len(),
{
    let p = t.drop_last();
    if i == t.len() - 1 {
        let a = table_mask(p);
        assert(0u64 & !a == 0) by (bit_vector);
        lemma_within_grow(0, a, flag_bit(t.last().1));
    } else {
        lemma_table_bit_within(p, i);
        assert(p[i] == t[i]);
        lemma_within_grow(flag_bit(t[i].1), table_mask(p), flag_bit(t.last().1));
    }
}

/// The flags that a set of group `g` holds when nothing sets them.
pub open spec fn default_bits(g: u8) -> u64 {
    if g == COMPILER {
        flag_bit(0) | flag_bit(5)
    } else if g == HHVM {
        flag_bit(26) | flag_bit(25) | flag_bit(27) | flag_bit(28)
    } else if g == LANG {
        flag_bit(12)
    } else {
        0
    }
}

/// The bit numbers of a table are below 64.
pub proof fn lemma_table_shifts(g: u8)
    ensures
        forall|i: int| 0 <= i < flag_table(g).len() ==> flag_table(g)[i].1 < 64,
{
}

/// The defaults of a group lie within its mask.
pub proof fn lemma_default_within(g: u8)
    ensures
        within(default_bits(g), flag_mask(g)),
{
    let t = flag_table(g);
    let m = flag_mask(g);
    if g == COMPILER {
        lemma_table_bit_within(t, 0);
        lemma_table_bit_within(t, 2);
        lemma_within_or(flag_bit(0), flag_bit(5), m);
    } else if g == HHVM {
        lemma_table_bit_within(t, 1);
        lemma_table_bit_within(t, 2);
        lemma_table_bit_within(t, 3);
        lemma_table_bit_within(t, 4);
        lemma_within_or(flag_bit(26), flag_bit(25), m);
        lemma_within_or(flag_bit(26) | flag_bit(25), flag_bit(27), m);
        lemma_within_or(flag_bit(26) | flag_bit(25) | flag_bit(27), flag_bit(28), m);
    } else if g == LANG {
        lemma_table_bit_within(t, 11);
    } else {
        assert(0u64 & !m == 0) by (bit_vector);
    }
}

/// The mask of group `g`, computed from its table.
fn flag_mask_exec(g: u8) -> (r: u64)
    ensures
        r == flag_mask(g),
{
    let t = flag_table_exec(g);
    let ghost tv = table_view(t@);
    proof {
        lemma_table_shifts(g);
    }
    let n = t.len();
    let mut m: u64 = 0;
    let mut i: usize = 0;
    while i < n
        invariant
            n == t@.len(),
            tv == table_view(t@),
            tv == flag_table(g),
            forall|j: int| 0 <= j < tv.len() ==> tv[j].1 < 64,
            0 <= i <= n,
            m == table_mask(tv.subrange(0, i as int)),
        decreases n - i,
    {
        let s = t[i].1;
        assert(tv[i as int].1 == s);
        assert(tv.subrange(0, i + 1).drop_last() =~= tv.subrange(0, i as int));
        m = m | (1u64 << s);
        i = i + 1;
    }
    assert(tv.subrange(0, n as int) =~= tv);
    m
}

/// The flags of group `G` that are on. `G` is one of the group numbers above.
#[derive(Clone, Copy, PartialEq, Eq, Debug)]
pub struct FlagSet<const G: u8> {
    bits: u64,
}

/// Options under the prefix `eval.`.
pub type EvalFlags = FlagSet<EVAL>;

/// Options under the prefix `hack.compiler.`.
pub type CompilerFlags = FlagSet<COMPILER>;

/// Options under the prefix `hhvm.`.
pub type HhvmFlags = FlagSet<HHVM>;

/// Options under the prefix `hhvm.hack.lang.`.
pub type LangFlags = FlagSet<LANG>;

/// Options under the prefix `hhvm.hack.lang.phpism.`.
pub type PhpismFlags = FlagSet<PHPISM>;

/// Options under the prefix `hhvm.php7.`.
pub type Php7Flags = FlagSet<PHP7>;

/// Options under the prefix `hhvm.repo.`.
pub type RepoFlags = FlagSet<REPO>;

impl FlagSet<EVAL> {
    pub const DISASSEMBLER_SOURCE_MAPPING: u64 = 0x4;
}

impl FlagSet<COMPILER> {
    pub const CONSTANT_FOLDING: u64 = 0x1;
    pub const OPTIMIZE_NULL_CHECKS: u64 = 0x2;
    pub const RELABEL: u64 = 0x20;
}

impl FlagSet<HHVM> {
    pub const ARRAY_PROVENANCE: u64 = 0x200000000;
    pub const EMIT_CLS_METH_POINTERS: u64 = 0x4000000;
    pub const EMIT_FUNC_POINTERS: u64 = 0x2000000;
    pub const EMIT_INST_METH_POINTERS: u64 = 0x8000000;
    pub const EMIT_METH_CALLER_FUNC_POINTERS: u64 = 0x10000000;
    pub const ENABLE_INTRINSICS_EXTENSION: u64 = 0x8000;
    pub const ENFORCE_GENERICS_UB: u64 = 0x100000000000;
    pub const LOG_EXTERN_COMPILER_PERF: u64 = 0x4000;
    pub const JIT_ENABLE_RENAME_FUNCTION: u64 = 0x400;
    pub const HACK_ARR_COMPAT_NOTICES: u64 = 0x80;
    pub const HACK_ARR_DV_ARRS: u64 = 0x100;
    pub const RX_IS_ENABLED: u64 = 0x20000000;
}

impl FlagSet<LANG> {
    pub const ABSTRACT_STATIC_PROPS: u64 = 0x20000000000;
    pub const ALLOW_NEW_ATTRIBUTE_SYNTAX: u64 = 0x2000000000;
    pub const CHECK_INT_OVERFLOW: u64 = 0x200000000000;
    pub const CONST_DEFAULT_FUNC_ARGS: u64 = 0x8000000000;
    pub const CONST_STATIC_PROPS: u64 = 0x10000000000;
    pub const DISABLE_LEGACY_ATTRIBUTE_SYNTAX: u64 = 0x4000000000;
    pub const DISABLE_LEGACY_SOFT_TYPEHINTS: u64 = 0x1000000000;
    pub const DISABLE_LVAL_AS_AN_EXPRESSION: u64 = 0x40000000;
    pub const DISABLE_UNSET_CLASS_CONST: u64 = 0x40000000000;
    pub const DISALLOW_FUNC_PTRS_IN_CONSTANTS: u64 = 0x80000000000;
    pub const ENABLE_CLASS_LEVEL_WHERE_CLAUSES: u64 = 0x800000000;
    pub const ENABLE_COROUTINES: u64 = 0x1000;
    pub const ENABLE_POCKET_UNIVERSES: u64 = 0x80000000;
    pub const ENABLE_XHP_CLASS_MODIFIER: u64 = 0x400000000000;
    pub const HACKSPERIMENTAL: u64 = 0x2000;
}

impl FlagSet<PHPISM> {
    pub const DISALLOW_EXECUTION_OPERATOR: u64 = 0x200000;
    pub const DISABLE_NONTOPLEVEL_DECLARATIONS: u64 = 0x400000;
    pub const DISABLE_STATIC_CLOSURES: u64 = 0x800000;
    pub const DISABLE_HALT_COMPILER: u64 = 0x1000000;
}

impl FlagSet<PHP7> {
    pub const LTR_ASSIGN: u64 = 0x10;
    pub const UVS: u64 = 0x8;
}

impl FlagSet<REPO> {
    pub const AUTHORITATIVE: u64 = 0x200;
}


impl<const G: u8> View for FlagSet<G> {
    type V = u64;

    closed spec fn view(&self) -> u64 {
        self.bits
    }
}

impl<const G: u8> FlagSet<G> {
    /// What every set satisfies: it holds only bits of its group.
    #[verifier::type_invariant]
    pub open spec fn wf(self) -> bool {
        within(self@, flag_mask(G))
    }

    /// The set with no flag on.
    pub fn empty() -> (r: Self)
        ensures
            r@ == 0,
    {
        proof {
            let m = flag_mask(G);
            assert(0u64 & !m == 0) by (bit_vector);
        }
        FlagSet { bits: 0 }
    }

    /// The set with every flag of the group on.
    pub fn all() -> (r: Self)
        ensures
            r@ == flag_mask(G),
    {
        let m = flag_mask_exec(G);
        proof {
            assert(m & !m == 0) by (bit_vector);
        }
        FlagSet { bits: m }
    }

    /// The bits of the set.
    pub fn bits(&self) -> (r: u64)
        ensures
            r == self@,
            within(r, flag_mask(G)),
    {
        proof {
            use_type_invariant(self);
        }
        self.bits
    }

    /// The set with exactly the bits `bits`, if they all belong to the group.
    pub fn from_bits(bits: u64) -> (r: Option<Self>)
        ensures
            match r {
                Some(f) => f@ == bits,
                None => !within(bits, flag_mask(G)),
            },
    {
        let m = flag_mask_exec(G);
        if bits & !m == 0 {
            Some(FlagSet { bits })
        } else {
            None
        }
    }

    /// The set with those of the bits `bits` that belong to the group.
    pub fn from_bits_truncate(bits: u64) -> (r: Self)
        ensures
            r@ == bits & flag_mask(G),
    {
        let m = flag_mask_exec(G);
        proof {
            assert((bits & m) & !m == 0) by (bit_vector);
        }
        FlagSet { bits: bits & m }
    }

    /// Whether every one of the bits `other` is on.
    pub fn contains(&self, other: u64) -> (r: bool)
        ensures
            r == (self@ & other == other),
    {
        self.bits & other == other
    }

    /// Turns on the bits `other` that belong to the group.
    pub fn insert(&mut self, other: u64)
        ensures
            final(self)@ == old(self)@ | (other & flag_mask(G)),
    {
        proof {
            use_type_invariant(&*self);
        }
        let m = flag_mask_exec(G);
        proof {
            assert((other & m) & !m == 0) by (bit_vector);
            lemma_within_or(self.bits, other & m, m);
        }
        self.bits = self.bits | (other & m);
    }

    /// Turns off the bits `other`.
    pub fn remove(&mut self, other: u64)
        ensures
            final(self)@ == old(self)@ & !other,
    {
        proof {
            use_type_invariant(&*self);
            lemma_within_and(self.bits, !other, flag_mask(G));
        }
        self.bits = self.bits & !other;
    }

    /// Turns the bits `other` on or off.
    pub fn set(&mut self, other: u64, value: bool)
        ensures
            value ==> final(self)@ == old(self)@ | (other & flag_mask(G)),
            !value ==> final(self)@ == old(self)@ & !other,
    {
        if value {
            self.insert(other);
        } else {
            self.remove(other);
        }
    }
}

impl<const G: u8> Default for FlagSet<G> {
    /// The flags that are on unless a configuration turns them off.
    fn default() -> (r: Self)
        ensures
            r@ == default_bits(G),
    {
        proof {
            lemma_default_within(G);
        }
        FlagSet { bits: default_bits_exec(G) }
    }
}

fn default_bits_exec(g: u8) -> (r: u64)
    ensures
        r == default_bits(g),
{
    if g == COMPILER {
        (1u64 << 0u64) | (1u64 << 5u64)
    } else if g == HHVM {
        (1u64 << 26u64) | (1u64 << 25u64) | (1u64 << 27u64) | (1u64 << 28u64)
    } else if g == LANG {
        1u64 << 12u64
    } else {
        0
    }
}

} // verus!

verus! {

/// What an entry of a configuration says of the flag that its key names.
#[derive(Clone, Copy, PartialEq, Eq, Debug)]
pub enum Truth {
    /// The flag is turned on.
    On,
    /// The flag is turned off.
    Off,
    /// The value is a list or a map of strings, which says nothing of flags.
    Skip,
    /// The value is not one that an option can have: reading fails.
    Invalid,
}

/// The value that an option's JSON carries: `{"global_value": v, ...}`, or
/// `[v]`, the one-element array that serde also accepts for a struct of one field.
pub open spec fn arg_payload(v: JsonV) -> Option<JsonV> {
    match v {
        JsonV::Object(m) => if m.contains_key("global_value"@) {
            Some(m["global_value"@])
        } else {
            None
        },
        JsonV::Array(s) => if s.len() == 1 {
            Some(s[0])
        } else {
            None
        },
        _ => None,
    }
}

pub open spec fn all_strs(s: Seq<JsonV>) -> bool {
    forall|i: int| 0 <= i < s.len() ==> #[trigger] s[i] is Str
}

pub open spec fn all_str_values(m: Map<Seq<char>, JsonV>) -> bool {
    forall|k: Seq<char>| #[trigger] m.contains_key(k) ==> m[k] is Str
}

/// What a global value says of a flag. A string says "true" or "false", or
/// is a decimal `i32`, on when above zero; a boolean says itself; an integer
/// that fits in an `isize` is on unless zero; a list or map of strings says
/// nothing; anything else cannot be read.
pub open spec fn global_value_truth(p: JsonV) -> Truth {
    match p {
        JsonV::Str(s) => if s == "true"@ {
            Truth::On
        } else if s == "false"@ {
            Truth::Off
        } else {
            match parse_i32_spec(s) {
                Some(n) => if n > 0 {
                    Truth::On
                } else {
                    Truth::Off
                },
                None => Truth::Invalid,
            }
        },
        JsonV::Bool(b) => if b {
            Truth::On
        } else {
            Truth::Off
        },
        JsonV::Int(n) => if isize::MIN <= n <= isize::MAX {
            if n != 0 {
                Truth::On
            } else {
                Truth::Off
            }
        } else {
            Truth::Invalid
        },
        JsonV::Array(s) => if all_strs(s) {
            Truth::Skip
        } else {
            Truth::Invalid
        },
        JsonV::Object(m) => if all_str_values(m) {
            Truth::Skip
        } else {
            Truth::Invalid
        },
        _ => Truth::Invalid,
    }
}

/// What the value of an entry says of a flag.
pub open spec fn entry_truth(v: JsonV) -> Truth {
    match arg_payload(v) {
        Some(p) => global_value_truth(p),
        None => Truth::Invalid,
    }
}

/// The bit of group `g` that `key` names: its canonical key must be the prefix
/// of the group followed by the name of one of its flags.
pub open spec fn flag_shift_of(g: u8, key: Seq<char>) -> Option<u64> {
    let ck = canonical_key_spec(key);
    let p = flag_prefix(g);
    if has_prefix(ck, p) {
        assoc_lookup(flag_table(g), ck.subrange(p.len() as int, ck.len() as int))
    } else {
        None
    }
}

/// The flags of group `g` after the entry `key: v` is read, or `None` if it cannot be.
pub open spec fn apply_flag_entry(g: u8, bits: u64, key: Seq<char>, v: JsonV) -> Option<u64> {
    match entry_truth(v) {
        Truth::Invalid => None,
        Truth::Skip => Some(bits),
        Truth::On => match flag_shift_of(g, key) {
            Some(s) => Some(bits | flag_bit(s)),
            None => Some(bits),
        },
        Truth::Off => match flag_shift_of(g, key) {
            Some(s) => Some(bits & !flag_bit(s)),
            None => Some(bits),
        },
    }
}

/// Reading the entries of `m` under the keys `ks`, in that order, from `bits`.
pub open spec fn decode_flags_keys(
    g: u8,
    bits: u64,
    m: Map<Seq<char>, JsonV>,
    ks: Seq<Seq<char>>,
) -> Option<u64>
    decreases ks.len(),
{
    if ks.len() == 0 {
        Some(bits)
    } else {
        match decode_flags_keys(g, bits, m, ks.drop_last()) {
            Some(b) => apply_flag_entry(g, b, ks.last(), m[ks.last()]),
            None => None,
        }
    }
}

/// The flags of group `g` that a JSON object gives: starting from the
/// defaults, every entry is read in increasing order of its key, and each one
/// that names a flag of the group turns it on or off. Reading fails if an
/// entry cannot be read.
pub open spec fn decode_flags_spec(g: u8, m: Map<Seq<char>, JsonV>) -> Option<u64> {
    decode_flags_keys(g, default_bits(g), m, sorted_keys(m))
}

proof fn lemma_decode_none_extends(
    g: u8,
    bits: u64,
    m: Map<Seq<char>, JsonV>,
    ks: Seq<Seq<char>>,
    i: int,
)
    requires
        0 <= i <= ks.len(),
        decode_flags_keys(g, bits, m, ks.subrange(0, i)) is None,
    ensures
        decode_flags_keys(g, bits, m, ks) is None,
    decreases ks.len(),
{
    if i == ks.len() {
        assert(ks.subrange(0, i) =~= ks);
    } else {
        assert(ks.drop_last().subrange(0, i) =~= ks.subrange(0, i));
        lemma_decode_none_extends(g, bits, m, ks.drop_last(), i);
    }
}

/// The bit that a key names is a bit of the group, below 64.
pub proof fn lemma_flag_shift_within(g: u8, key: Seq<char>)
    requires
        flag_shift_of(g, key) is Some,
    ensures
        flag_shift_of(g, key)->Some_0 < 64,
        within(flag_bit(flag_shift_of(g, key)->Some_0), flag_mask(g)),
{
    let ck = canonical_key_spec(key);
    let p = flag_prefix(g);
    let t = flag_table(g);
    lemma_assoc_lookup_in(t, ck.subrange(p.len() as int, ck.len() as int));
    let i = choose|i: int|
        0 <= i < t.len() && t[i].1 == flag_shift_of(g, key)->Some_0 && t[i].0 == ck.subrange(
            p.len() as int,
            ck.len() as int,
        );
    lemma_table_shifts(g);
    lemma_table_bit_within(t, i);
}

/// The value that an option's JSON carries.
pub fn arg_payload_of(v: &Json) -> (r: Option<&Json>)
    ensures
        match r {
            Some(p) => arg_payload(v@) == Some(p@),
            None => arg_payload(v@) is None,
        },
{
    match v {
        Json::Object(m) => {
            proof {
                lemma_object_view(*m);
            }
            match m.get("global_value") {
                Some(p) => {
                    assert(view_values(m@)["global_value"@] == p@);
                    Some(p)
                },
                None => None,
            }
        },
        Json::Array(a) => {
            proof {
                lemma_array_view(*a);
            }
            if a.len() == 1 {
                Some(&a[0])
            } else {
                None
            }
        },
        _ => None,
    }
}

fn all_strs_exec(a: &Vec<Json>) -> (r: bool)
    ensures
        r == all_strs(a@.map_values(|j: Json| j@)),
{
    let n = a.len();
    let ghost s = a@.map_values(|j: Json| j@);
    let mut i: usize = 0;
    while i < n
        invariant
            n == a@.len(),
            s == a@.map_values(|j: Json| j@),
            0 <= i <= n,
            forall|j: int| 0 <= j < i ==> #[trigger] s[j] is Str,
        decreases n - i,
    {
        match &a[i] {
            Json::Str(_) => {},
            _ => {
                assert(!(s[i as int] is Str));
                return false;
            },
        }
        i = i + 1;
    }
    true
}

#[verifier::loop_isolation(false)]
fn all_str_values_exec(m: &StrMap<Json>) -> (r: bool)
    ensures
        r == all_str_values(view_values(m@)),
{
    let n = m.len();
    let ghost es = m.spec_entries();
    proof {
        lemma_entries_map(es);
        lemma_keys_increasing_distinct(es);
    }
    let mut i: usize = 0;
    while i < n
        invariant
            n == es.len(),
            es == m.spec_entries(),
            0 <= i <= n,
            forall|j: int| 0 <= j < i ==> (#[trigger] es[j]).1 is Str,
        decreases n - i,
    {
        let (k, v) = m.entry(i);
        match v {
            Json::Str(_) => {},
            _ => {
                proof {
                    assert(has_key(es, k@));
                    let l = last_key_index(es, k@);
                    assert(l == i) by {
                        if l < i {
                            assert(es[l].0@ != es[i as int].0@);
                        } else if l > i {
                            assert(es[i as int].0@ != es[l].0@);
                        }
                    }
                    assert(view_values(m@).contains_key(k@));
                    assert(!(view_values(m@)[k@] is Str));
                }
                return false;
            },
        }
        i = i + 1;
    }
    proof {
        assert forall|k: Seq<char>| #[trigger] view_values(m@).contains_key(k) implies view_values(
            m@,
        )[k] is Str by {
            let l = last_key_index(es, k);
            assert(es[l].1 is Str);
        }
    }
    true
}

/// What a global value says of a flag.
pub fn global_value_truth_of(p: &Json) -> (r: Truth)
    ensures
        r == global_value_truth(p@),
{
    match p {
        Json::Str(s) => {
            if str_eq(s.as_str(), "true") {
                Truth::On
            } else if str_eq(s.as_str(), "false") {
                Truth::Off
            } else {
                match parse_i32(s.as_str()) {
                    Some(n) => if n > 0 {
                        Truth::On
                    } else {
                        Truth::Off
                    },
                    None => Truth::Invalid,
                }
            }
        },
        Json::Bool(b) => if *b {
            Truth::On
        } else {
            Truth::Off
        },
        Json::Int(n) => {
            if (isize::MIN as i128) <= *n && *n <= (isize::MAX as i128) {
                if *n != 0 {
                    Truth::On
                } else {
                    Truth::Off
                }
            } else {
                Truth::Invalid
            }
        },
        Json::Array(a) => {
            proof {
                lemma_array_view(*a);
            }
            if all_strs_exec(a) {
                Truth::Skip
            } else {
                Truth::Invalid
            }
        },
        Json::Object(m) => {
            proof {
                lemma_object_view(*m);
            }
            if all_str_values_exec(m) {
                Truth::Skip
            } else {
                Truth::Invalid
            }
        },
        _ => Truth::Invalid,
    }
}

/// What the value of an entry says of a flag.
pub fn entry_truth_of(v: &Json) -> (r: Truth)
    ensures
        r == entry_truth(v@),
{
    match arg_payload_of(v) {
        Some(p) => global_value_truth_of(p),
        None => Truth::Invalid,
    }
}

/// The bit of group `g` that `key` names, if any.
pub fn flag_shift(g: u8, key: &str) -> (r: Option<u64>)
    ensures
        r == flag_shift_of(g, key@),
{
    let ck = canonical_key(key);
    let p = flag_prefix_exec(g);
    if starts_with(ck.as_str(), p) {
        let n = ck.as_str().unicode_len();
        let pl = p.unicode_len();
        let name = slice(ck.as_str(), pl, n);
        let t = flag_table_exec(g);
        assoc_find(&t, name.as_str())
    } else {
        None
    }
}

/// Reads the flags of group `g` from the entries of a JSON object.
pub fn decode_flags(g: u8, m: &StrMap<Json>) -> (r: Option<u64>)
    ensures
        r == decode_flags_spec(g, view_values(m@)),
        r matches Some(b) ==> within(b, flag_mask(g)),
{
    let n = m.len();
    let ghost es = m.spec_entries();
    let ghost ks = entry_keys(es);
    let ghost mv = view_values(m@);
    proof {
        lemma_entries_map(es);
        lemma_keys_increasing_distinct(es);
        lemma_sorted_keys_of_entries(*m);
        lemma_default_within(g);
        assert(ks.subrange(0, 0).len() == 0);
    }
    let mut bits = default_bits_exec(g);
    let mut i: usize = 0;
    while i < n
        invariant
            n == es.len(),
            es == m.spec_entries(),
            ks == entry_keys(es),
            mv == view_values(m@),
            m@ == crate::json::entries_map(es),
            crate::json::keys_distinct(es),
            forall|k: Seq<char>|
                #[trigger] has_key(es, k) ==> crate::json::entries_map(es)[k] == es[last_key_index(
                    es,
                    k,
                )].1 && 0 <= last_key_index(es, k) < es.len() && es[last_key_index(es, k)].0@ == k,
            forall|k: Seq<char>| #[trigger] crate::json::entries_map(es).contains_key(k) <==> has_key(es, k),
            0 <= i <= n,
            decode_flags_keys(g, default_bits(g), mv, ks.subrange(0, i as int)) == Some(bits),
            within(bits, flag_mask(g)),
            sorted_keys(mv) == ks,
        decreases n - i,
    {
        let (k, v) = m.entry(i);
        proof {
            assert(has_key(es, k@));
            let l = last_key_index(es, k@);
            assert(l == i) by {
                if l < i {
                    assert(es[l].0@ != es[i as int].0@);
                } else if l > i {
                    assert(es[i as int].0@ != es[l].0@);
                }
            }
            assert(mv[k@] == v@);
            assert(ks.subrange(0, i + 1).drop_last() =~= ks.subrange(0, i as int));
            assert(ks.subrange(0, i + 1).last() == k@);
        }
        match entry_truth_of(v) {
            Truth::Invalid => {
                proof {
                    lemma_decode_none_extends(g, default_bits(g), mv, ks, i + 1);
                    assert(ks.subrange(0, n as int) =~= ks);
                }
                return None;
            },
            Truth::Skip => {},
            Truth::On => {
                match flag_shift(g, k.as_str()) {
                    Some(s) => {
                        proof {
                            lemma_flag_shift_within(g, k@);
                            lemma_within_or(bits, flag_bit(s), flag_mask(g));
                        }
                        bits = bits | (1u64 << s);
                    },
                    None => {},
                }
            },
            Truth::Off => {
                match flag_shift(g, k.as_str()) {
                    Some(s) => {
                        proof {
                            lemma_flag_shift_within(g, k@);
                            lemma_within_and(bits, !flag_bit(s), flag_mask(g));
                        }
                        bits = bits & !(1u64 << s);
                    },
                    None => {},
                }
            },
        }
        i = i + 1;
    }
    assert(ks.subrange(0, n as int) =~= ks);
    Some(bits)
}

impl<const G: u8> FlagSet<G> {
    /// Reads the flags of this set from the entries of a JSON object.
    pub fn from_json_entries(m: &StrMap<Json>) -> (r: Option<Self>)
        ensures
            match decode_flags_spec(G, view_values(m@)) {
                Some(b) => r matches Some(f) && f@ == b,
                None => r is None,
            },
    {
        match decode_flags(G, m) {
            Some(b) => Some(FlagSet { bits: b }),
            None => None,
        }
    }
}

} // verus!

verus! {

/// The JSON of an option whose value is `v`: `{"global_value": v}`.
pub open spec fn arg_json(v: JsonV) -> JsonV {
    JsonV::Object(Map::empty().insert("global_value"@, v))
}

/// Wraps `v` as the JSON of an option.
pub fn arg_json_of(v: Json) -> (r: Json)
    ensures
        r@ == arg_json(v@),
{
    let mut m: StrMap<Json> = StrMap::new();
    let ghost vv = v;
    m.insert(owned("global_value"), v);
    proof {
        lemma_object_view(m);
        assert(view_values(m@) =~= Map::empty().insert("global_value"@, vv@));
    }
    Json::Object(m)
}

/// The JSON entries of the flags of group `g` that `bits` holds: one per flag,
/// in the order of the names, under the prefix of the group followed by the
/// name, each saying whether the flag is on.
pub open spec fn flag_entries(g: u8, bits: u64) -> Seq<(Seq<char>, JsonV)> {
    flag_table(g).map_values(
        |e: (Seq<char>, u64)|
            (flag_prefix(g) + e.0, arg_json(JsonV::Bool(bits & flag_bit(e.1) == flag_bit(e.1)))),
    )
}

/// The JSON entries of the flags of group `g` that `bits` holds.
pub fn serialize_flags(g: u8, bits: u64) -> (r: Vec<(String, Json)>)
    ensures
        r@.len() == flag_entries(g, bits).len(),
        forall|i: int|
            0 <= i < r@.len() ==> (#[trigger] r@[i]).0@ == flag_entries(g, bits)[i].0 && r@[i].1@
                == flag_entries(g, bits)[i].1,
{
    let t = flag_table_exec(g);
    let p = flag_prefix_exec(g);
    let ghost tv = table_view(t@);
    proof {
        lemma_table_shifts(g);
    }
    let n = t.len();
    let mut out: Vec<(String, Json)> = Vec::new();
    let mut i: usize = 0;
    while i < n
        invariant
            n == t@.len(),
            tv == table_view(t@),
            tv == flag_table(g),
            p@ == flag_prefix(g),
            forall|j: int| 0 <= j < tv.len() ==> tv[j].1 < 64,
            0 <= i <= n,
            out@.len() == i,
            forall|j: int|
                0 <= j < i ==> (#[trigger] out@[j]).0@ == flag_entries(g, bits)[j].0 && out@[j].1@
                    == flag_entries(g, bits)[j].1,
        decreases n - i,
    {
        let (name, s) = t[i];
        assert(tv[i as int] == (name@, s));
        let b: u64 = 1u64 << s;
        let key = concat(p, name);
        let value = arg_json_of(Json::Bool(bits & b == b));
        out.push((key, value));
        i = i + 1;
    }
    out
}

impl<const G: u8> FlagSet<G> {
    /// The JSON entries of the flags of this set, one per flag of the group.
    pub fn to_json_entries(&self) -> (r: Vec<(String, Json)>)
        ensures
            r@.len() == flag_entries(G, self@).len(),
            forall|i: int|
                0 <= i < r@.len() ==> (#[trigger] r@[i]).0@ == flag_entries(G, self@)[i].0
                    && r@[i].1@ == flag_entries(G, self@)[i].1,
    {
        serialize_flags(G, self.bits)
    }
}

} // verus!

verus! {

/// Bit number `t` of `x` is on.
pub open spec fn bit_of(x: u64, t: u64) -> bool {
    (x >> t) & 1u64 == 1u64
}

pub proof fn lemma_bit_or(x: u64, s: u64, t: u64)
    requires
        s < 64,
        t < 64,
    ensures
        bit_of(x | flag_bit(s), t) == (bit_of(x, t) || s == t),
{
    assert((((x | (1u64 << s)) >> t) & 1u64 == 1u64) == (((x >> t) & 1u64 == 1u64) || s == t))
        by (bit_vector)
        requires
            s < 64,
            t < 64,
    ;
}

pub proof fn lemma_bit_and_not(x: u64, s: u64, t: u64)
    requires
        s < 64,
        t < 64,
    ensures
        bit_of(x & !flag_bit(s), t) == (bit_of(x, t) && s != t),
{
    assert((((x & !(1u64 << s)) >> t) & 1u64 == 1u64) == (((x >> t) & 1u64 == 1u64) && s != t))
        by (bit_vector)
        requires
            s < 64,
            t < 64,
    ;
}

pub proof fn lemma_bit_zero(t: u64)
    ensures
        !bit_of(0, t),
{
    assert((0u64 >> t) & 1u64 != 1u64) by (bit_vector);
}

/// A bit that is off in the mask is off in every word within the mask.
pub proof fn lemma_bit_within(x: u64, m: u64, t: u64)
    requires
        within(x, m),
        !bit_of(m, t),
        t < 64,
    ensures
        !bit_of(x, t),
{
    assert(((x >> t) & 1u64 == 1u64) ==> ((m >> t) & 1u64 == 1u64)) by (bit_vector)
        requires
            x & !m == 0,
            t < 64,
    ;
}

/// The bits of `a` and `b` below `n` agree, so the words agree on those bits.
proof fn lemma_low_bits_agree(a: u64, b: u64, n: u64)
    requires
        n < 64,
        forall|t: u64| t < n ==> bit_of(a, t) == bit_of(b, t),
    ensures
        a & !(!0u64 << n) == b & !(!0u64 << n),
    decreases n,
{
    if n == 0 {
        assert(a & !(!0u64 << 0u64) == 0 && b & !(!0u64 << 0u64) == 0) by (bit_vector);
    } else {
        let t = (n - 1) as u64;
        lemma_low_bits_agree(a, b, t);
        assert(bit_of(a, t) == bit_of(b, t));
        assert(a & !(!0u64 << n) == b & !(!0u64 << n)) by (bit_vector)
            requires
                n < 64,
                t + 1 == n,
                a & !(!0u64 << t) == b & !(!0u64 << t),
                ((a >> t) & 1u64 == 1u64) == ((b >> t) & 1u64 == 1u64),
        ;
    }
}

/// Two words with the same bits are equal.
pub proof fn lemma_bits_ext(a: u64, b: u64)
    requires
        forall|t: u64| t < 64 ==> bit_of(a, t) == bit_of(b, t),
    ensures
        a == b,
{
    lemma_low_bits_agree(a, b, 63);
    assert(bit_of(a, 63u64) == bit_of(b, 63u64));
    assert(a == b) by (bit_vector)
        requires
            a & !(!0u64 << 63u64) == b & !(!0u64 << 63u64),
            ((a >> 63u64) & 1u64 == 1u64) == ((b >> 63u64) & 1u64 == 1u64),
    ;
}

/// The bits of a table's mask are the bits that it numbers.
pub proof fn lemma_table_mask_bit(tb: Seq<(Seq<char>, u64)>, t: u64)
    requires
        forall|i: int| 0 <= i < tb.len() ==> tb[i].1 < 64,
        t < 64,
    ensures
        bit_of(table_mask(tb), t) <==> exists|i: int| 0 <= i < tb.len() && tb[i].1 == t,
    decreases tb.len(),
{
    if tb.len() == 0 {
        lemma_bit_zero(t);
    } else {
        let p = tb.drop_last();
        lemma_table_mask_bit(p, t);
        lemma_bit_or(table_mask(p), tb.last().1, t);
        if exists|i: int| 0 <= i < p.len() && p[i].1 == t {
            let i = choose|i: int| 0 <= i < p.len() && p[i].1 == t;
            assert(tb[i] == p[i]);
        }
        if exists|i: int| 0 <= i < tb.len() && tb[i].1 == t {
            let i = choose|i: int| 0 <= i < tb.len() && tb[i].1 == t;
            if i < tb.len() - 1 {
                assert(p[i] == tb[i]);
            }
        }
    }
}

/// The entry under `k` turns a flag of group `g` on or off, and that flag is `t`.
pub open spec fn names_flag(g: u8, m: Map<Seq<char>, JsonV>, k: Seq<char>, t: u64) -> bool {
    (entry_truth(m[k]) == Truth::On || entry_truth(m[k]) == Truth::Off) && flag_shift_of(g, k)
        == Some(t)
}

/// What the last of the keys `ks` that names the flag `t` of group `g` says
/// of it, if any does.
pub open spec fn last_flag_value(
    g: u8,
    m: Map<Seq<char>, JsonV>,
    ks: Seq<Seq<char>>,
    t: u64,
) -> Option<bool>
    decreases ks.len(),
{
    if ks.len() == 0 {
        None
    } else if names_flag(g, m, ks.last(), t) {
        Some(entry_truth(m[ks.last()]) == Truth::On)
    } else {
        last_flag_value(g, m, ks.drop_last(), t)
    }
}

/// Reading entries that can all be read succeeds, and sets each flag as the
/// last entry that names it says, leaving the others as they were.
pub proof fn lemma_decode_flags_bits(g: u8, b0: u64, m: Map<Seq<char>, JsonV>, ks: Seq<Seq<char>>)
    requires
        forall|i: int| 0 <= i < ks.len() ==> entry_truth(m[#[trigger] ks[i]]) != Truth::Invalid,
    ensures
        decode_flags_keys(g, b0, m, ks) is Some,
        forall|t: u64|
            t < 64 ==> bit_of(decode_flags_keys(g, b0, m, ks)->Some_0, t) == match last_flag_value(
                g,
                m,
                ks,
                t,
            ) {
                Some(v) => v,
                None => bit_of(b0, t),
            },
    decreases ks.len(),
{
    if ks.len() > 0 {
        let p = ks.drop_last();
        assert forall|i: int| 0 <= i < p.len() implies entry_truth(m[#[trigger] p[i]]) != Truth::Invalid by {
            assert(p[i] == ks[i]);
        }
        lemma_decode_flags_bits(g, b0, m, p);
        let bp = decode_flags_keys(g, b0, m, p)->Some_0;
        let k = ks.last();
        assert(entry_truth(m[ks[ks.len() - 1]]) != Truth::Invalid);
        if flag_shift_of(g, k) is Some {
            lemma_flag_shift_within(g, k);
        }
        assert forall|t: u64| t < 64 implies bit_of(decode_flags_keys(g, b0, m, ks)->Some_0, t)
            == match last_flag_value(g, m, ks, t) {
            Some(v) => v,
            None => bit_of(b0, t),
        } by {
            match flag_shift_of(g, k) {
                Some(s) => {
                    lemma_bit_or(bp, s, t);
                    lemma_bit_and_not(bp, s, t);
                },
                None => {},
            }
        }
    }
}

/// Where one key alone names the flag `t`, that key decides it.
pub proof fn lemma_last_flag_value_single(
    g: u8,
    m: Map<Seq<char>, JsonV>,
    ks: Seq<Seq<char>>,
    t: u64,
    j: int,
)
    requires
        0 <= j < ks.len(),
        names_flag(g, m, ks[j], t),
        forall|i: int| 0 <= i < ks.len() && i != j ==> !names_flag(g, m, #[trigger] ks[i], t),
    ensures
        last_flag_value(g, m, ks, t) == Some(entry_truth(m[ks[j]]) == Truth::On),
    decreases ks.len(),
{
    if j < ks.len() - 1 {
        let p = ks.drop_last();
        assert(!names_flag(g, m, ks[ks.len() - 1], t));
        assert(p[j] == ks[j]);
        assert forall|i: int| 0 <= i < p.len() && i != j implies !names_flag(g, m, #[trigger] p[i], t) by {
            assert(p[i] == ks[i]);
        }
        lemma_last_flag_value_single(g, m, p, t, j);
    }
}

/// Where no key names the flag `t`, nothing decides it.
pub proof fn lemma_last_flag_value_none(g: u8, m: Map<Seq<char>, JsonV>, ks: Seq<Seq<char>>, t: u64)
    requires
        forall|i: int| 0 <= i < ks.len() ==> !names_flag(g, m, #[trigger] ks[i], t),
    ensures
        last_flag_value(g, m, ks, t) is None,
    decreases ks.len(),
{
    if ks.len() > 0 {
        let p = ks.drop_last();
        assert(!names_flag(g, m, ks[ks.len() - 1], t));
        assert forall|i: int| 0 <= i < p.len() implies !names_flag(g, m, #[trigger] p[i], t) by {
            assert(p[i] == ks[i]);
        }
        lemma_last_flag_value_none(g, m, p, t);
    }
}

/// Leaving out, at position `p`, a key whose entry changes no flag does not
/// change what reading the keys gives.
proof fn lemma_decode_without_noop(
    g: u8,
    bits: u64,
    m: Map<Seq<char>, JsonV>,
    ks: Seq<Seq<char>>,
    p: int,
)
    requires
        0 <= p < ks.len(),
        forall|b: u64| apply_flag_entry(g, b, ks[p], m[ks[p]]) == Some(b),
    ensures
        decode_flags_keys(g, bits, m, ks) == decode_flags_keys(g, bits, m, ks.remove(p)),
    decreases ks.len(),
{
    if p == ks.len() - 1 {
        assert(ks.remove(p) =~= ks.drop_last());
    } else {
        let d = ks.drop_last();
        assert(d[p] == ks[p]);
        lemma_decode_without_noop(g, bits, m, d, p);
        assert(ks.remove(p).drop_last() =~= d.remove(p));
        assert(ks.remove(p).last() == ks.last());
    }
}

/// Reading the same keys of two maps that agree on them gives the same.
proof fn lemma_decode_same_entries(
    g: u8,
    bits: u64,
    m1: Map<Seq<char>, JsonV>,
    m2: Map<Seq<char>, JsonV>,
    ks: Seq<Seq<char>>,
)
    requires
        forall|i: int| 0 <= i < ks.len() ==> m1[#[trigger] ks[i]] == m2[ks[i]],
    ensures
        decode_flags_keys(g, bits, m1, ks) == decode_flags_keys(g, bits, m2, ks),
    decreases ks.len(),
{
    if ks.len() > 0 {
        let d = ks.drop_last();
        assert forall|i: int| 0 <= i < d.len() implies m1[#[trigger] d[i]] == m2[d[i]] by {
            assert(d[i] == ks[i]);
        }
        lemma_decode_same_entries(g, bits, m1, m2, d);
        assert(m1[ks[ks.len() - 1]] == m2[ks[ks.len() - 1]]);
    }
}

/// An entry that can be read and names no flag of group `g` (it says nothing
/// of flags, or its key names no flag of the group: another group's key, an
/// unknown key, an option that is not a flag) does not change what reading
/// the flags of the group gives, over the models of the entries.
pub proof fn lemma_decode_flags_extra_entry(
    g: u8,
    m: Map<Seq<char>, JsonV>,
    k: Seq<char>,
    v: JsonV,
)
    requires
        m.dom().finite(),
        !m.contains_key(k),
        entry_truth(v) != Truth::Invalid,
        entry_truth(v) == Truth::Skip || flag_shift_of(g, k) is None,
    ensures
        decode_flags_spec(g, m.insert(k, v)) == decode_flags_spec(g, m),
{
    let m2 = m.insert(k, v);
    let ks = sorted_keys(m);
    let ks2 = sorted_keys(m2);
    lemma_sorted_keys_order(m);
    lemma_sorted_keys_order(m2);
    assert(m2.contains_key(k));
    assert(ks2.contains(k));
    let p = choose|p: int| 0 <= p < ks2.len() && ks2[p] == k;
    let q = ks2.remove(p);
    assert forall|a: int, b: int| 0 <= a < b < q.len() implies lex_lt(#[trigger] q[a], #[trigger] q[b]) by {
        let a2 = if a < p { a } else { a + 1 };
        let b2 = if b < p { b } else { b + 1 };
        assert(q[a] == ks2[a2] && q[b] == ks2[b2]);
    }
    assert forall|x: Seq<char>| q.contains(x) <==> ks.contains(x) by {
        if q.contains(x) {
            let a = choose|a: int| 0 <= a < q.len() && q[a] == x;
            let a2 = if a < p { a } else { a + 1 };
            assert(ks2[a2] == x);
            assert(ks2.contains(x));
            if x == k {
                lemma_increasing_no_dup(ks2, a2, p);
            }
            assert(m2.contains_key(x));
            assert(m.contains_key(x));
        }
        if ks.contains(x) {
            assert(m.contains_key(x));
            assert(m2.contains_key(x));
            assert(ks2.contains(x));
            let a2 = choose|a2: int| 0 <= a2 < ks2.len() && ks2[a2] == x;
            assert(a2 != p);
            let a = if a2 < p { a2 } else { a2 - 1 };
            assert(q[a] == x);
        }
    }
    lemma_increasing_unique(q, ks);
    assert(m2[ks2[p]] == v);
    lemma_decode_without_noop(g, default_bits(g), m2, ks2, p);
    assert forall|i: int| 0 <= i < q.len() implies m2[#[trigger] q[i]] == m[q[i]] by {
        assert(ks.contains(q[i]));
        assert(m.contains_key(q[i]));
    }
    lemma_decode_same_entries(g, default_bits(g), m2, m, q);
}


/// Adding to a JSON object an entry under a new key that can be read and
/// names no flag of group `G` (another group's key, an unknown key, or an
/// option that is not a flag, such as `hhvm.include_roots`) leaves what
/// `decode_flags` and `FlagSet::from_json_entries` return unchanged.
pub proof fn lemma_from_json_entries_extra_entry(g: u8, m: StrMap<Json>, k: Seq<char>, v: Json)
    requires
        !m@.contains_key(k),
        entry_truth(v@) != Truth::Invalid,
        entry_truth(v@) == Truth::Skip || flag_shift_of(g, k) is None,
    ensures
        decode_flags_spec(g, view_values(m@.insert(k, v))) == decode_flags_spec(g, view_values(m@)),
{
    lemma_object_view(m);
    crate::json::lemma_view_values_insert_pub(m@, k, v);
    assert(view_values(m@).dom() =~= m@.dom());
    lemma_decode_flags_extra_entry(g, view_values(m@), k, v@);
}


/// Where reading keys succeeds, every one of their entries can be read.
proof fn lemma_decode_some_all_valid(g: u8, b: u64, m: Map<Seq<char>, JsonV>, ks: Seq<Seq<char>>)
    requires
        decode_flags_keys(g, b, m, ks) is Some,
    ensures
        forall|i: int| 0 <= i < ks.len() ==> entry_truth(m[#[trigger] ks[i]]) != Truth::Invalid,
    decreases ks.len(),
{
    if ks.len() > 0 {
        let p = ks.drop_last();
        lemma_decode_some_all_valid(g, b, m, p);
        assert forall|i: int| 0 <= i < ks.len() implies entry_truth(m[#[trigger] ks[i]])
            != Truth::Invalid by {
            if i < ks.len() - 1 {
                assert(ks[i] == p[i]);
            }
        }
    }
}

/// A flag that no entry names keeps its default: where reading a group of
/// flags from an object succeeds, every bit that no entry of the object
/// turns on or off is as the defaults of the group have it.
pub proof fn lemma_decode_flags_keeps_defaults(g: u8, m: Map<Seq<char>, JsonV>, t: u64)
    requires
        m.dom().finite(),
        decode_flags_spec(g, m) is Some,
        t < 64,
        forall|k: Seq<char>| #[trigger] m.contains_key(k) ==> !names_flag(g, m, k, t),
    ensures
        bit_of(decode_flags_spec(g, m)->Some_0, t) == bit_of(default_bits(g), t),
{
    let ks = sorted_keys(m);
    lemma_sorted_keys_order(m);
    lemma_decode_some_all_valid(g, default_bits(g), m, ks);
    lemma_decode_flags_bits(g, default_bits(g), m, ks);
    assert forall|i: int| 0 <= i < ks.len() implies !names_flag(g, m, #[trigger] ks[i], t) by {
        assert(ks.contains(ks[i]));
        assert(m.contains_key(ks[i]));
    }
    lemma_last_flag_value_none(g, m, ks, t);
}

/// A flag that an entry names takes the value that the last such entry, in
/// the order of the keys, gives it: where reading succeeds, each bit is
/// either so set or, if no entry names it, at its default.
pub proof fn lemma_decode_flags_named(g: u8, m: Map<Seq<char>, JsonV>, t: u64)
    requires
        m.dom().finite(),
        decode_flags_spec(g, m) is Some,
        t < 64,
    ensures
        bit_of(decode_flags_spec(g, m)->Some_0, t) == match last_flag_value(g, m, sorted_keys(m), t) {
            Some(v) => v,
            None => bit_of(default_bits(g), t),
        },
{
    let ks = sorted_keys(m);
    lemma_decode_some_all_valid(g, default_bits(g), m, ks);
    lemma_decode_flags_bits(g, default_bits(g), m, ks);
}

} // verus!
