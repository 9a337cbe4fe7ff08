//! Emitter options of the Hack compiler: their defaults, their JSON form and
//! how configuration files and command-line overrides combine into them.
pub mod strs;
pub mod json;
pub mod cli;
pub mod flags;
pub mod options;
pub mod flag_keys;
pub mod round_trip;
pub mod text;
