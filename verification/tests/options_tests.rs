use hhbc_options::flags::{EvalFlags, HhvmFlags, LangFlags};
use hhbc_options::json::{Json, StrMap};
use hhbc_options::options::{Arg, Hhvm, Options, StrSet};
use hhbc_options::text::read_json_text;
use serde::ser::{SerializeMap, SerializeSeq};

fn st(x: &str) -> Json {
    Json::Str(x.to_string())
}

fn obj(entries: Vec<(&str, Json)>) -> Json {
    let mut m: StrMap<Json> = StrMap::new();
    for (k, v) in entries {
        m.insert(k.to_string(), v);
    }
    Json::Object(m)
}

fn gv(v: Json) -> Json {
    obj(vec![("global_value", v)])
}

fn str_map(entries: Vec<(&str, &str)>) -> StrMap<String> {
    let mut m: StrMap<String> = StrMap::new();
    for (k, v) in entries {
        m.insert(k.to_string(), v.to_string());
    }
    m
}

fn str_set(items: Vec<&str>) -> StrSet {
    let mut m: StrSet = StrMap::new();
    for k in items {
        m.insert(k.to_string(), ());
    }
    m
}

const HHVM_1: &'static str = r#"{
  "hhvm.aliased_namespaces": {
    "global_value": {
      "bar": "baz",
      "foo": "bar"
    }
  },
  "hhvm.array_provenance": {
    "global_value": false
  },
  "hhvm.dynamic_invoke_functions": {
    "global_value": []
  },
  "hhvm.emit_cls_meth_pointers": {
    "global_value": false
  },
  "hhvm.emit_func_pointers": {
    "global_value": true
  },
  "hhvm.emit_inst_meth_pointers": {
    "global_value": false
  },
  "hhvm.emit_meth_caller_func_pointers": {
    "global_value": false
  },
  "hhvm.enable_intrinsics_extension": {
    "global_value": false
  },
  "hhvm.enforce_generics_ub": {
    "global_value": false
  },
  "hhvm.hack.lang.abstract_static_props": {
    "global_value": false
  },
  "hhvm.hack.lang.allow_new_attribute_syntax": {
    "global_value": false
  },
  "hhvm.hack.lang.check_int_overflow": {
    "global_value": false
  },
  "hhvm.hack.lang.const_default_func_args": {
    "global_value": false
  },
  "hhvm.hack.lang.const_static_props": {
    "global_value": false
  },
  "hhvm.hack.lang.disable_legacy_attribute_syntax": {
    "global_value": false
  },
  "hhvm.hack.lang.disable_legacy_soft_typehints": {
    "global_value": false
  },
  "hhvm.hack.lang.disable_lval_as_an_expression": {
    "global_value": false
  },
  "hhvm.hack.lang.disable_unset_class_const": {
    "global_value": false
  },
  "hhvm.hack.lang.disallow_func_ptrs_in_constants": {
    "global_value": false
  },
  "hhvm.hack.lang.enable_class_level_where_clauses": {
    "global_value": false
  },
  "hhvm.hack.lang.enable_coroutines": {
    "global_value": true
  },
  "hhvm.hack.lang.enable_pocket_universes": {
    "global_value": false
  },
  "hhvm.hack.lang.enable_xhp_class_modifier": {
    "global_value": false
  },
  "hhvm.hack.lang.hacksperimental": {
    "global_value": false
  },
  "hhvm.hack_arr_compat_notices": {
    "global_value": false
  },
  "hhvm.hack_arr_dv_arrs": {
    "global_value": false
  },
  "hhvm.include_roots": {
    "global_value": {}
  },
  "hhvm.jit_enable_rename_function": {
    "global_value": false
  },
  "hhvm.log_extern_compiler_perf": {
    "global_value": false
  },
  "hhvm.rx_is_enabled": {
    "global_value": false
  }
}"#;

/// A JSON value written by serde, entry by entry, as the printed options are.
struct Printed<'a>(&'a Json);

impl serde::Serialize for Printed<'_> {
    fn serialize<S: serde::Serializer>(&self, s: S) -> Result<S::Ok, S::Error> {
        match self.0 {
            Json::Null => s.serialize_unit(),
            Json::Bool(b) => s.serialize_bool(*b),
            Json::Int(n) => s.serialize_i128(*n),
            Json::Real(t) => s.serialize_str(t),
            Json::Str(t) => s.serialize_str(t),
            Json::Array(items) => {
                let mut seq = s.serialize_seq(Some(items.len()))?;
                for item in items {
                    seq.serialize_element(&Printed(item))?;
                }
                seq.end()
            }
            Json::Object(m) => {
                let mut map = s.serialize_map(Some(m.len()))?;
                for i in 0..m.len() {
                    let (k, v) = m.entry(i);
                    map.serialize_entry(k, &Printed(v))?;
                }
                map.end()
            }
        }
    }
}

#[test]
fn test_hhvm_json_ser() {
    assert_eq!(1, 1);
    let hhvm = Hhvm {
        aliased_namespaces: Arg::new(str_map(vec![("foo", "bar"), ("bar", "baz")])),
        flags: HhvmFlags::from_bits_truncate(HhvmFlags::EMIT_FUNC_POINTERS),
        ..Default::default()
    };
    assert_eq!(HHVM_1, serde_json::to_string_pretty(&Printed(&hhvm.to_json())).unwrap(),);
}

#[test]
fn test_hhvm_json_de() {
    let j = read_json_text(
        r#"{
            "hhvm.aliased_namespaces": { "global_value": {"foo": "bar"} },
            "hhvm.emit_func_pointers": { "global_value": "1337" },
            "hhvm.jit_enable_rename_function": { "global_value": 2 },
            "hhvm.log_extern_compiler_perf": { "global_value": false },
            "hhvm.array_provenance": { "global_value": "1" }
            }"#,
    )
    .unwrap();
    let hhvm = Hhvm::from_json(&j).unwrap();
    println!("{:?}", hhvm);
    assert!(hhvm.flags.contains(
        HhvmFlags::EMIT_FUNC_POINTERS
            | HhvmFlags::JIT_ENABLE_RENAME_FUNCTION
            | HhvmFlags::ARRAY_PROVENANCE
    ));
    assert!(!hhvm.flags.contains(HhvmFlags::LOG_EXTERN_COMPILER_PERF));
}

#[test]
fn test_hhvm_json_de_defaults_overrideable() {
    let hhvm = Hhvm::from_json(&obj(vec![])).unwrap();
    assert_eq!(hhvm.flags, HhvmFlags::default());
    assert!(hhvm.flags.contains(HhvmFlags::EMIT_FUNC_POINTERS));

    // now override a true-by-default option with a false value
    let hhvm =
        Hhvm::from_json(&obj(vec![("hhvm.emit_func_pointers", gv(st("false")))])).unwrap();
    assert!(!hhvm.flags.contains(HhvmFlags::EMIT_FUNC_POINTERS));
}

#[test]
fn test_hhvm_flags_alias_json_de() {
    // sanity check for defaults (otherwise this test doesn't do much!)
    assert!(!HhvmFlags::default().contains(HhvmFlags::JIT_ENABLE_RENAME_FUNCTION));
    assert!(HhvmFlags::default().contains(HhvmFlags::EMIT_FUNC_POINTERS));

    let hhvm = Hhvm::from_json(
        &read_json_text(
            r#"{ "eval.jitenablerenamefunction": { "global_value": "true" },
                 "eval.emitfuncpointers": { "global_value": "false" } }"#,
        )
        .unwrap(),
    )
    .unwrap();
    // a false-by-default flag was parsed as true
    assert!(hhvm.flags.contains(HhvmFlags::JIT_ENABLE_RENAME_FUNCTION));
    // a true-by-default flag was parsed as false
    assert!(!hhvm.flags.contains(HhvmFlags::EMIT_FUNC_POINTERS));
}

#[test]
fn test_options_flat_arg_alias_json_de() {
    let act = Options::from_value(&obj(vec![(
        "eval.jitenablerenamefunction",
        gv(st("true")),
    )]))
    .expect("failed to deserialize");
    assert!(act.hhvm.flags.contains(HhvmFlags::JIT_ENABLE_RENAME_FUNCTION));
}

#[test]
fn test_options_nonzero_defaults_json_de() {
    let act = Options::from_value(&obj(vec![])).unwrap();
    assert_eq!(act, Options::default());
}

#[test]
fn test_options_map_str_str_json_de() {
    let act = Options::from_value(&obj(vec![(
        "hhvm.aliased_namespaces",
        gv(obj(vec![("ns1", st("ns2"))])),
    )]))
    .unwrap();
    assert_eq!(*act.hhvm.aliased_namespaces.get(), str_map(vec![("ns1", "ns2")]));
}

#[test]
fn test_options_set_str_json_de() {
    let act = Options::from_value(&obj(vec![(
        "hhvm.dynamic_invoke_functions",
        gv(Json::Array(vec![st("f"), st("g"), st("h")])),
    )]))
    .unwrap();
    assert_eq!(act.hhvm.dynamic_invoke_functions.get().keys(), vec!["f", "g", "h"]);
}

#[test]
fn test_options_merge() {
    let mut dst = obj(vec![
        ("uniqueAtDst", st("DST")),
        ("person", obj(vec![("firstName", st("John")), ("lastName", st("Doe"))])),
        ("flat", Json::Array(vec![st("will"), st("be"), st("overridden")])),
    ]);
    let src = obj(vec![
        ("uniqueAtSrc", st("SRC")),
        ("person", obj(vec![("firstName", st("Jane (not John)"))])),
        ("flat", st("overrides dst's field")),
    ]);
    Options::merge(&mut dst, &src);
    assert_eq!(
        dst,
        obj(vec![
            ("flat", st("overrides dst's field")),
            (
                "person",
                obj(vec![("firstName", st("Jane (not John)")), ("lastName", st("Doe"))])
            ),
            ("uniqueAtDst", st("DST")),
            ("uniqueAtSrc", st("SRC")),
        ])
    );
}

const EMPTY_STRS: [&str; 0] = [];

#[test]
fn test_options_de_multiple_jsons() {
    let jsons = [
        // override an options from 1 to 0 in first JSON,
        // but specify the default (0) on rx_is_enabled)
        r#"{"hhvm.hack.lang.enable_coroutines":{"global_value":false},"hhvm.rx_is_enabled":{"global_value":false}}"#,
        // override another option from 0 to 1 in second JSON for the first time
        // and for the second time, respectively
        r#"{"hhvm.hack.lang.hacksperimental":{"global_value":true},"hhvm.rx_is_enabled":{"global_value":true}}"#,
    ];
    let act = Options::from_configs(&jsons, &EMPTY_STRS).unwrap();
    assert!(act.hhvm.hack_lang_flags.contains(LangFlags::HACKSPERIMENTAL));
    assert!(!act.hhvm.hack_lang_flags.contains(LangFlags::ENABLE_COROUTINES));
    assert!(act.hhvm.flags.contains(HhvmFlags::RX_IS_ENABLED));
}

#[test]
fn test_hhvm_flags_cli_de_missing_equals() {
    let args = ["eval.jitenablerenamefunction"];
    let exp = Options::from_cli_args(args.as_ref());
    assert!(exp.is_err());
    let err = exp.unwrap_err();
    assert!(err.starts_with("Missing '='"));
    assert!(err.ends_with("function"));
}

#[test]
fn test_hhvm_flags_cli_de_to_json() {
    let args = [
        "eval.logexterncompilerperf=true",
        "eval.jitenablerenamefunction=1",
    ];
    let act = Options::from_cli_args(&args);
    assert_eq!(
        act,
        Ok(obj(vec![
            ("hhvm.jit_enable_rename_function", gv(st("1"))),
            ("hhvm.log_extern_compiler_perf", gv(st("true"))),
        ])),
    );
}

#[test]
fn test_options_de_from_cli_override_json() {
    let cli_args = [
        "eval.jitenablerenamefunction=1",
        "eval.hackarrcompatnotices=true",
    ];
    let json = r#"{"hhvm.hack_arr_compat_notices":{"global_value":"0"},"hhvm.log_extern_compiler_perf":{"global_value":"true"}}"#;
    let act = Options::from_configs(&[json], &cli_args).unwrap();
    assert!(act.hhvm.flags.contains(HhvmFlags::HACK_ARR_COMPAT_NOTICES));
}

#[test]
fn test_options_de_from_cli_comma_separated_strings() {
    let exp_dynamic_invoke_functions = str_set(vec!["foo", "bar"]);
    let act =
        Options::from_configs(&EMPTY_STRS, &["hhvm.dynamic_invoke_functions=foo,bar"]).unwrap();
    assert_eq!(
        *act.hhvm.dynamic_invoke_functions.get(),
        exp_dynamic_invoke_functions,
    );
}

#[test]
fn test_options_de_from_cli_comma_separated_key_value() {
    let exp_include_roots = str_map(vec![("foo", "bar"), ("bar", "baz")]);
    const CLI_ARG: &str = "hhvm.include_roots=foo:bar,bar:baz";
    let act = Options::from_configs(&EMPTY_STRS, &[CLI_ARG]).unwrap();
    assert_eq!(*act.hhvm.include_roots.get(), exp_include_roots);
}

#[test]
fn test_major_outlier_source_mapping_serde() {
    const KEY: &str = "eval.disassembler_source_mapping";
    fn mk_source_mapping(v: Json) -> Json {
        obj(vec![(KEY, gv(v))])
    }
    fn serialize_source_mapping(opts: Options) -> Json {
        // keep only this key of the JSON of the options
        let j = opts.to_json();
        match j {
            Json::Object(m) => match m.get(KEY) {
                Some(v) => obj(vec![(KEY, v.deep_clone())]),
                None => obj(vec![]),
            },
            _ => panic!("the options are not written as an object"),
        }
    }
    fn test(exp_val: bool, val: Json) {
        let j = mk_source_mapping(val);
        let opts = Options::from_value(&j).unwrap();
        assert_eq!(
            exp_val,
            opts.eval_flags.contains(EvalFlags::DISASSEMBLER_SOURCE_MAPPING)
        );
        let j_act = serialize_source_mapping(opts);
        let j_exp = mk_source_mapping(Json::Bool(exp_val));
        assert_eq!(j_exp, j_act);
    }
    test(true, Json::Bool(true));
    test(true, Json::Int(1));
    test(true, st("true"));
    test(false, Json::Int(0));
    test(false, Json::Bool(false));
    test(false, st("false"));
}

#[test]
fn text_round_trip_of_options() {
    let mut o = Options::default();
    o.doc_root = Arg::new("/srv/www".to_string());
    o.max_array_elem_size_on_the_stack = Arg::new(-3);
    o.hhvm.include_roots = Arg::new(str_map(vec![("a", "b")]));
    o.hhvm.dynamic_invoke_functions = Arg::new(str_set(vec!["g", "f"]));
    o.hhvm.flags = HhvmFlags::from_bits_truncate(HhvmFlags::RX_IS_ENABLED);
    let text = serde_json::to_string_pretty(&Printed(&o.to_json())).unwrap();
    let back = Options::from_json(&text).unwrap();
    assert_eq!(back, o);
}
