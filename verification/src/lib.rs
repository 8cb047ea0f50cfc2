//! A minimal line-based text search library.
//!
//! Given a query string and the contents of a text file, the library returns
//! every line of the contents that contains the query, either as an exact
//! substring or disregarding letter case.  A small configuration type
//! resolves the query, the file path, and the case mode from positional
//! arguments together with an environment flag supplied by the caller.

pub mod casing;
pub mod config;
pub mod lines;
pub mod search;
pub mod text;

pub use casing::uppercase;
pub use config::ArgName;
pub use config::Config;
pub use config::ConfigError;
pub use config::get_ignore_case;
pub use config::parse_bool;
pub use lines::split_lines;
pub use search::search;
pub use search::search_case_insensive;
pub use search::search_lines;
pub use text::contains_substring;
