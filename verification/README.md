# hhbc_options

The emitter options of the Hack compiler: their defaults, their JSON form,
and how configuration files and command-line overrides `key=value` combine
into them. The library is written in Verus, and its functions are proved
against their contracts.

The canonical name of each option is its JSON key. Options that are not flags
are written `{"global_value": value}` under their key; boolean options are
grouped in sets of flags, each group with a key prefix (`hhvm.`,
`hhvm.hack.lang.`, `eval.`, ...). The command line may name an option by a
short alias (`eval.jitenablerenamefunction` for
`hhvm.jit_enable_rename_function`).

## Layout

- `src/strs.rs`: character-level string operations (order, prefixes,
  splitting, decimal `i32` parsing) with their specifications.
- `src/json.rs`: JSON values (`Json`, modelled by `JsonV`), sorted string maps,
  and the recursive merge of configurations, with its laws.
- `src/text.rs`: JSON text, parsed by `serde_json` behind one trusted
  wrapper whose result is named (`json_text`); numbers come as text and are
  read as integers by verified code (`read_numbers_of` in `json.rs`).
- `src/cli.rs`: the alias table and how command-line arguments become JSON.
- `src/flags.rs`: the groups of flags (`FlagSet`), how they are read from and
  written to JSON.
- `src/options.rs`: `Arg`, `Hhvm`, `Server`, `Options`, their defaults, how
  they are read from a JSON object and written back, and `from_configs`.
- `src/flag_keys.rs`, `src/round_trip.rs`: the keys of flags, and the proof
  that the JSON that options are written to reads back as the same options.
- `tests/`: the tests of the library.
- `app/`: printing the options as JSON text, through serde's `Serialize`.
