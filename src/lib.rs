//! Reading and surgically rewriting the configuration files of a game-server
//! launcher: a sectioned `key = value` INI format for network settings, a
//! Lua table of `config.name = value` statements for gameplay settings, and a
//! free-form `key = value` file. Reads are tolerant, falling back to defaults;
//! writes change only the lines of the keys they set.

pub mod error;
pub mod ini;
pub mod install;
pub mod laws;
pub mod lines;
pub mod literal;
pub mod lua;
pub mod network;
pub mod openmw;
pub mod release;
pub mod scan;
pub mod text;
pub mod types;
pub mod values;
