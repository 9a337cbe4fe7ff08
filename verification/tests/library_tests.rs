use hhbc_options::cli::canonical_key;
use hhbc_options::flags::{
    flag_shift, serialize_flags, CompilerFlags, EvalFlags, HhvmFlags, LangFlags, Php7Flags,
    PhpismFlags, RepoFlags, COMPILER, HHVM, LANG, REPO,
};
use hhbc_options::json::{merge, Json, StrMap};
use hhbc_options::options::{
    max_array_elem_size_on_the_stack, object_of_entries, Arg, Hhvm, Options, Server, StrSet,
};
use hhbc_options::strs::{parse_i32, split_char};

fn st(x: &str) -> Json {
    Json::Str(x.to_string())
}

fn obj(entries: Vec<(&str, Json)>) -> Json {
    let mut m: StrMap<Json> = StrMap::new();
    for (k, v) in entries {
        m.insert(k.to_string(), v);
    }
    Json::Object(m)
}

fn gv(v: Json) -> Json {
    obj(vec![("global_value", v)])
}

fn str_map(entries: Vec<(&str, &str)>) -> StrMap<String> {
    let mut m: StrMap<String> = StrMap::new();
    for (k, v) in entries {
        m.insert(k.to_string(), v.to_string());
    }
    m
}

fn str_set(items: Vec<&str>) -> StrSet {
    let mut m: StrSet = StrMap::new();
    for k in items {
        m.insert(k.to_string(), ());
    }
    m
}

fn custom_hhvm() -> Hhvm {
    Hhvm {
        aliased_namespaces: Arg::new(str_map(vec![("foo", "bar"), ("bar", "baz")])),
        dynamic_invoke_functions: Arg::new(str_set(vec!["g", "f"])),
        include_roots: Arg::new(str_map(vec![("root", "/x")])),
        flags: HhvmFlags::from_bits_truncate(
            HhvmFlags::RX_IS_ENABLED | HhvmFlags::ARRAY_PROVENANCE,
        ),
        hack_lang_flags: LangFlags::from_bits_truncate(
            LangFlags::HACKSPERIMENTAL | LangFlags::CHECK_INT_OVERFLOW,
        ),
    }
}

fn custom_options() -> Options {
    Options {
        doc_root: Arg::new("/var/www".to_string()),
        eval_flags: EvalFlags::all(),
        hack_compiler_flags: CompilerFlags::empty(),
        hhvm: custom_hhvm(),
        max_array_elem_size_on_the_stack: Arg::new(-5),
        phpism_flags: PhpismFlags::all(),
        php7_flags: Php7Flags::from_bits_truncate(Php7Flags::UVS),
        repo_flags: RepoFlags::all(),
        server: Server {
            include_search_paths: Arg::new(vec!["b".to_string(), "a".to_string()]),
        },
    }
}

fn hhvm_with(key: &str, value: Json) -> Result<Hhvm, String> {
    Hhvm::from_json(&obj(vec![(key, value)]))
}

#[test]
fn round_trip_default_options() {
    let o = Options::default();
    assert_eq!(Options::from_value(&o.to_json()), Ok(Options::default()));
}

#[test]
fn round_trip_custom_options() {
    let o = custom_options();
    assert_eq!(Options::from_value(&o.to_json()), Ok(custom_options()));
}

#[test]
fn round_trip_hhvm() {
    let h = custom_hhvm();
    assert_eq!(Hhvm::from_json(&h.to_json()), Ok(custom_hhvm()));
}

#[test]
fn round_trip_each_group_of_flags() {
    fn check<const G: u8>(f: hhbc_options::flags::FlagSet<G>) {
        match object_of_entries(f.to_json_entries()) {
            Json::Object(m) => {
                assert_eq!(hhbc_options::flags::FlagSet::<G>::from_json_entries(&m), Some(f))
            }
            _ => panic!("flags are written as an object"),
        }
    }
    check(EvalFlags::all());
    check(CompilerFlags::from_bits_truncate(CompilerFlags::RELABEL));
    check(HhvmFlags::default());
    check(LangFlags::empty());
    check(PhpismFlags::from_bits_truncate(PhpismFlags::DISABLE_STATIC_CLOSURES));
    check(Php7Flags::all());
    check(RepoFlags::empty());
}

#[test]
fn serialize_flags_lists_every_flag_by_name() {
    let act = serialize_flags(COMPILER, CompilerFlags::OPTIMIZE_NULL_CHECKS);
    let exp = vec![
        ("hack.compiler.constant_folding".to_string(), gv(Json::Bool(false))),
        ("hack.compiler.optimize_null_checks".to_string(), gv(Json::Bool(true))),
        ("hack.compiler.relabel".to_string(), gv(Json::Bool(false))),
    ];
    assert_eq!(act, exp);
}

#[test]
fn options_entries_in_field_order() {
    let es = Options::default().to_json_entries();
    assert_eq!(es.len(), 44);
    assert_eq!(es[0], ("doc_root".to_string(), gv(st(""))));
    assert_eq!(es[1].0, "eval.disassembler_source_mapping");
    assert_eq!(es[2].0, "hack.compiler.constant_folding");
    assert_eq!(es[5].0, "hhvm.aliased_namespaces");
    assert_eq!(es[8].0, "hhvm.array_provenance");
    assert_eq!(es[20].0, "hhvm.hack.lang.abstract_static_props");
    assert_eq!(
        es[35],
        (
            "max_array_elem_size_on_the_stack".to_string(),
            gv(Json::Int(64))
        )
    );
    assert_eq!(es[36].0, "hhvm.hack.lang.phpism.disable_halt_compiler");
    assert_eq!(es[43], ("hhvm.server.include_search_paths".to_string(), gv(Json::Array(vec![]))));
}

#[test]
fn cli_missing_equals_message() {
    assert_eq!(
        Options::from_cli_args(&["foo"]),
        Err("Missing '=' key-value separator in: foo".to_string())
    );
}

#[test]
fn cli_first_error_is_reported() {
    assert_eq!(
        Options::from_cli_args(&["a=1", "b", "c"]),
        Err("Missing '=' key-value separator in: b".to_string())
    );
}

#[test]
fn cli_map_piece_without_colon() {
    assert_eq!(
        Options::from_cli_args(&["hhvm.include_roots=foo:bar,baz"]),
        Err("Invalid format for CLI arg key: hhvm.include_roots".to_string())
    );
}

#[test]
fn cli_later_argument_wins() {
    assert_eq!(
        Options::from_cli_args(&["hhvm.rx_is_enabled=1", "eval.rxisenabled=0"]),
        Ok(obj(vec![("hhvm.rx_is_enabled", gv(st("0")))]))
    );
}

#[test]
fn cli_value_keeps_later_equals_signs() {
    assert_eq!(
        Options::from_cli_args(&["doc_root=a=b"]),
        Ok(obj(vec![("doc_root", gv(st("a=b")))]))
    );
}

#[test]
fn cli_lists_and_maps_of_strings() {
    assert_eq!(
        Options::from_cli_args(&[
            "hhvm.server.include_search_paths=x,y",
            "hhvm.aliased_namespaces=a:b:c,d:",
        ]),
        Ok(obj(vec![
            (
                "hhvm.aliased_namespaces",
                gv(obj(vec![("a", st("b:c")), ("d", st(""))]))
            ),
            (
                "hhvm.server.include_search_paths",
                gv(Json::Array(vec![st("x"), st("y")]))
            ),
        ]))
    );
}

#[test]
fn cli_no_arguments_give_empty_object() {
    assert_eq!(Options::from_cli_args(&[]), Ok(obj(vec![])));
}

#[test]
fn canonical_keys_of_aliases() {
    assert_eq!(canonical_key("eval.jitenablerenamefunction"), "hhvm.jit_enable_rename_function");
    assert_eq!(canonical_key("hack.lang.phpism.disablehaltcompiler"), "hhvm.hack.lang.phpism.disable_halt_compiler");
    assert_eq!(canonical_key("repo.authoritative"), "hhvm.repo.authoritative");
    assert_eq!(canonical_key("hhvm.rx_is_enabled"), "hhvm.rx_is_enabled");
    assert_eq!(canonical_key("hack.compiler.relabel"), "hack.compiler.relabel");
    assert_eq!(canonical_key("unknown.key"), "unknown.key");
}

#[test]
fn flag_bits_named_by_keys() {
    assert_eq!(flag_shift(HHVM, "eval.rxisenabled"), Some(29));
    assert_eq!(flag_shift(HHVM, "hhvm.rx_is_enabled"), Some(29));
    assert_eq!(flag_shift(HHVM, "hhvm.hack.lang.enable_coroutines"), None);
    assert_eq!(flag_shift(LANG, "hhvm.hack.lang.enable_coroutines"), Some(12));
    assert_eq!(flag_shift(LANG, "hhvm.hack.lang.phpism.disable_halt_compiler"), None);
    assert_eq!(flag_shift(REPO, "repo.authoritative"), Some(9));
    assert_eq!(flag_shift(COMPILER, "hack.compiler.unknown"), None);
}

#[test]
fn flag_values_given_as_strings() {
    let rx = |v: &str| {
        hhvm_with("hhvm.rx_is_enabled", gv(st(v))).map(|h| h.flags.contains(HhvmFlags::RX_IS_ENABLED))
    };
    assert_eq!(rx("true"), Ok(true));
    assert_eq!(rx("false"), Ok(false));
    assert_eq!(rx("+1"), Ok(true));
    assert_eq!(rx("-1"), Ok(false));
    assert_eq!(rx("0"), Ok(false));
    assert_eq!(rx("2147483647"), Ok(true));
    assert!(rx("2147483648").is_err());
    assert!(rx("x").is_err());
    assert!(rx("").is_err());
    assert!(rx("True").is_err());
}

#[test]
fn flag_values_of_other_kinds() {
    let rx = |v: Json| hhvm_with("hhvm.rx_is_enabled", v).map(|h| h.flags.contains(HhvmFlags::RX_IS_ENABLED));
    assert_eq!(rx(gv(Json::Int(0))), Ok(false));
    assert_eq!(rx(gv(Json::Int(-3))), Ok(true));
    assert!(rx(gv(Json::Int(1i128 << 70))).is_err());
    assert!(rx(gv(Json::Real("1.5".to_string()))).is_err());
    assert!(rx(gv(Json::Null)).is_err());
    assert!(rx(obj(vec![])).is_err());
    // a one-element array stands for the option's value
    assert_eq!(rx(Json::Array(vec![Json::Bool(true)])), Ok(true));
    // lists and maps of strings say nothing of flags
    assert_eq!(rx(gv(Json::Array(vec![st("a")]))), Ok(false));
    assert_eq!(rx(gv(obj(vec![("a", st("b"))]))), Ok(false));
    assert!(rx(gv(Json::Array(vec![Json::Int(1)]))).is_err());
}

#[test]
fn unreadable_entry_of_unknown_key_fails() {
    assert!(hhvm_with("some.unknown.key", Json::Int(3)).is_err());
    assert!(Options::from_value(&obj(vec![("some.unknown.key", gv(Json::Bool(true)))])).is_ok());
}

#[test]
fn later_key_in_order_wins() {
    // "eval.rxisenabled" sorts before "hhvm.rx_is_enabled", which is read last
    let h = Hhvm::from_json(&obj(vec![
        ("eval.rxisenabled", gv(st("true"))),
        ("hhvm.rx_is_enabled", gv(st("false"))),
    ]))
    .unwrap();
    assert!(!h.flags.contains(HhvmFlags::RX_IS_ENABLED));
}

#[test]
fn option_values_of_wrong_kind_fail() {
    assert!(Options::from_value(&obj(vec![("doc_root", gv(Json::Int(1)))])).is_err());
    assert!(Options::from_value(&obj(vec![("max_array_elem_size_on_the_stack", gv(st("64")))])).is_err());
    assert!(Options::from_value(&obj(vec![(
        "max_array_elem_size_on_the_stack",
        gv(Json::Int((isize::MAX as i128) + 1))
    )]))
    .is_err());
    assert!(Options::from_value(&obj(vec![("hhvm.include_roots", gv(obj(vec![("a", Json::Int(1))])))])).is_err());
    assert_eq!(
        Options::from_value(&obj(vec![("doc_root", gv(Json::Bool(false)))])),
        Err("invalid value for an option".to_string())
    );
    assert_eq!(
        Options::from_value(&Json::Null),
        Err("the options must be a JSON object".to_string())
    );
    assert_eq!(
        Hhvm::from_json(&Json::Array(vec![])),
        Err("the options of hhvm must be a JSON object".to_string())
    );
    assert_eq!(
        hhvm_with("hhvm.rx_is_enabled", gv(st("x"))),
        Err("invalid value for an option of hhvm".to_string())
    );
}

#[test]
fn option_values_read() {
    let o = Options::from_value(&obj(vec![
        ("doc_root", gv(st("/srv"))),
        ("max_array_elem_size_on_the_stack", gv(Json::Int(-7))),
        ("hhvm.server.include_search_paths", gv(Json::Array(vec![st("p"), st("q")]))),
    ]))
    .unwrap();
    assert_eq!(o.doc_root.get(), "/srv");
    assert_eq!(*o.max_array_elem_size_on_the_stack.get(), -7);
    assert_eq!(*o.server.include_search_paths.get(), vec!["p".to_string(), "q".to_string()]);
}

#[test]
fn merge_laws_on_values() {
    let x = obj(vec![("a", obj(vec![("b", st("c"))])), ("d", Json::Int(1))]);
    let mut y = x.deep_clone();
    merge(&mut y, &x);
    assert_eq!(y, x);

    let mut z = x.deep_clone();
    merge(&mut z, &obj(vec![]));
    assert_eq!(z, x);

    let mut w = x.deep_clone();
    merge(&mut w, &st("s"));
    assert_eq!(w, st("s"));

    let mut n = Json::Null;
    merge(&mut n, &x);
    assert_eq!(n, x);
}

#[test]
fn configs_later_override_earlier() {
    let a = obj(vec![("doc_root", gv(st("first"))), ("hhvm.rx_is_enabled", gv(Json::Bool(true)))]);
    let b = obj(vec![("doc_root", gv(st("second")))]);
    let o = Options::from_config_values(&[a, b], &["eval.rxisenabled=false"]).unwrap();
    assert_eq!(o.doc_root.get(), "second");
    assert!(!o.hhvm.flags.contains(HhvmFlags::RX_IS_ENABLED));
}

#[test]
fn configs_report_argument_errors() {
    assert_eq!(
        Options::from_config_values(&[], &["bad"]),
        Err("Missing '=' key-value separator in: bad".to_string())
    );
    assert_eq!(
        Options::from_config_values(&[obj(vec![("doc_root", gv(Json::Bool(true)))])], &[]),
        Err("invalid value for an option".to_string())
    );
    // a configuration that is not an object is replaced by the object of the arguments
    let o = Options::from_config_values(&[Json::Array(vec![])], &["doc_root=d"]).unwrap();
    assert_eq!(o.doc_root.get(), "d");
}

#[test]
fn defaults_of_groups_and_values() {
    assert_eq!(EvalFlags::default().bits(), 0);
    assert_eq!(
        CompilerFlags::default().bits(),
        CompilerFlags::CONSTANT_FOLDING | CompilerFlags::RELABEL
    );
    assert_eq!(
        HhvmFlags::default().bits(),
        HhvmFlags::EMIT_CLS_METH_POINTERS
            | HhvmFlags::EMIT_FUNC_POINTERS
            | HhvmFlags::EMIT_INST_METH_POINTERS
            | HhvmFlags::EMIT_METH_CALLER_FUNC_POINTERS
    );
    assert_eq!(LangFlags::default().bits(), LangFlags::ENABLE_COROUTINES);
    assert_eq!(PhpismFlags::default().bits(), 0);
    assert_eq!(Php7Flags::default().bits(), 0);
    assert_eq!(RepoFlags::default().bits(), 0);
    assert_eq!(*max_array_elem_size_on_the_stack().get(), 64);
    let o = Options::default();
    assert_eq!(o.doc_root.get(), "");
    assert_eq!(*o.max_array_elem_size_on_the_stack.get(), 64);
}

#[test]
fn flag_set_operations() {
    assert!(HhvmFlags::from_bits(LangFlags::ENABLE_COROUTINES).is_none());
    assert_eq!(
        HhvmFlags::from_bits(HhvmFlags::RX_IS_ENABLED).map(|f| f.bits()),
        Some(HhvmFlags::RX_IS_ENABLED)
    );
    assert_eq!(
        HhvmFlags::from_bits_truncate(HhvmFlags::RX_IS_ENABLED | LangFlags::ENABLE_COROUTINES).bits(),
        HhvmFlags::RX_IS_ENABLED
    );
    assert_eq!(Php7Flags::all().bits(), Php7Flags::LTR_ASSIGN | Php7Flags::UVS);
    assert_eq!(LangFlags::empty().bits(), 0);

    let mut f = RepoFlags::empty();
    f.insert(RepoFlags::AUTHORITATIVE | HhvmFlags::RX_IS_ENABLED);
    assert_eq!(f.bits(), RepoFlags::AUTHORITATIVE);
    assert!(f.contains(RepoFlags::AUTHORITATIVE));
    f.remove(RepoFlags::AUTHORITATIVE);
    assert_eq!(f, RepoFlags::empty());
    f.set(RepoFlags::AUTHORITATIVE, true);
    assert!(f.contains(RepoFlags::AUTHORITATIVE));
    f.set(RepoFlags::AUTHORITATIVE, false);
    assert!(!f.contains(RepoFlags::AUTHORITATIVE));
    assert!(f.contains(0));
}

#[test]
fn parse_i32_as_std_does() {
    assert_eq!(parse_i32("0"), Some(0));
    assert_eq!(parse_i32("+17"), Some(17));
    assert_eq!(parse_i32("-2147483648"), Some(i32::MIN));
    assert_eq!(parse_i32("2147483647"), Some(i32::MAX));
    assert_eq!(parse_i32("2147483648"), None);
    assert_eq!(parse_i32("-2147483649"), None);
    assert_eq!(parse_i32(""), None);
    assert_eq!(parse_i32("-"), None);
    assert_eq!(parse_i32("+"), None);
    assert_eq!(parse_i32("1 "), None);
    assert_eq!(parse_i32("007"), Some(7));
}

#[test]
fn split_char_keeps_empty_pieces() {
    assert_eq!(split_char("a,,b", ','), vec!["a", "", "b"]);
    assert_eq!(split_char("", ','), vec![""]);
    assert_eq!(split_char("abc", ','), vec!["abc"]);
    assert_eq!(split_char(",", ','), vec!["", ""]);
}

#[test]
fn text_options_read() {
    let o = Options::from_json(
        r#"{"doc_root": {"global_value": "/w"},
            "max_array_elem_size_on_the_stack": {"global_value": 12},
            "eval.jitenablerenamefunction": {"global_value": 1}}"#,
    )
    .unwrap();
    assert_eq!(o.doc_root.get(), "/w");
    assert_eq!(*o.max_array_elem_size_on_the_stack.get(), 12);
    assert!(o.hhvm.flags.contains(HhvmFlags::JIT_ENABLE_RENAME_FUNCTION));
}

#[test]
fn text_numbers_that_are_not_integers() {
    assert!(Options::from_json(r#"{"hhvm.rx_is_enabled": {"global_value": 1.0}}"#).is_err());
    assert!(Options::from_json(r#"{"max_array_elem_size_on_the_stack": {"global_value": 1e3}}"#).is_err());
    assert!(Options::from_json(r#"{"max_array_elem_size_on_the_stack": {"global_value": 18446744073709551615}}"#).is_err());
    let o = Options::from_json(r#"{"max_array_elem_size_on_the_stack": {"global_value": -9}}"#).unwrap();
    assert_eq!(*o.max_array_elem_size_on_the_stack.get(), -9);
}

#[test]
fn text_errors() {
    let e = Options::from_json("{").unwrap_err();
    assert!(e.starts_with("failed to load config JSON:\n"));
    assert!(e.len() > "failed to load config JSON:\n".len());
    assert_eq!(
        Options::from_json("5"),
        Err("failed to load config JSON:\nthe options must be a JSON object".to_string())
    );
    assert_eq!(
        Options::from_json(r#"{"doc_root": {"global_value": 3}}"#),
        Err("failed to load config JSON:\ninvalid value for an option".to_string())
    );
}

#[test]
fn text_configs_first_parse_error_before_arguments() {
    let e = Options::from_configs(&["{}", "[", "{"], &["bad"]).unwrap_err();
    assert!(!e.starts_with("Missing"));
    assert!(!e.is_empty());
    assert_eq!(
        Options::from_configs(&["{}"], &["bad"]),
        Err("Missing '=' key-value separator in: bad".to_string())
    );
}

#[test]
fn text_configs_non_object_is_replaced() {
    // the object of the (here empty) arguments replaces a configuration that is no object
    assert_eq!(Options::from_configs(&["5"], &[]), Ok(Options::default()));
    assert!(Options::from_json("5").is_err());
}

#[test]
fn text_configs_merge_in_order() {
    let o = Options::from_configs(
        &[
            r#"{"doc_root": {"global_value": "a"}, "hhvm.include_roots": {"global_value": {"x": "1"}}}"#,
            r#"{"doc_root": {"global_value": "b"}, "hhvm.include_roots": {"global_value": {"y": "2"}}}"#,
        ],
        &["hhvm.aliased_namespaces=p:q"],
    )
    .unwrap();
    assert_eq!(o.doc_root.get(), "b");
    assert_eq!(*o.hhvm.include_roots.get(), str_map(vec![("x", "1"), ("y", "2")]));
    assert_eq!(*o.hhvm.aliased_namespaces.get(), str_map(vec![("p", "q")]));
}

#[test]
fn entries_naming_no_flag_change_nothing() {
    let base = Hhvm::from_json(&obj(vec![("hhvm.rx_is_enabled", gv(Json::Bool(true)))])).unwrap();
    let more = Hhvm::from_json(&obj(vec![
        ("hhvm.rx_is_enabled", gv(Json::Bool(true))),
        ("hhvm.php7.uvs", gv(Json::Bool(true))),
        ("some.unknown.key", gv(st("1"))),
        ("hhvm.server.include_search_paths", gv(Json::Array(vec![st("p")]))),
    ]))
    .unwrap();
    assert_eq!(base.flags, more.flags);
    assert_eq!(base.hack_lang_flags, more.hack_lang_flags);
}
