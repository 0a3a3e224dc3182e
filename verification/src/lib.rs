//! Scope-aware profile parsing with `${NAME}` variable expansion.
//!
//! The crate holds two cooperating text engines: a variable expander that
//! replaces `${NAME}` tokens from a layered variable source, and a scoped
//! config parser that turns raw lines into flat, fully-qualified key/value
//! records, expanding variables on lines that opt in with a macro marker.

pub mod environment_string_replace;
pub mod hypr_config;
pub mod profile_names;
pub mod text;
