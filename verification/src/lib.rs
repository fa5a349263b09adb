//! A small line-oriented text search: which lines of a text contain a query.

pub mod config;
pub mod lines;
pub mod report;
pub mod search;
pub mod text;

pub use config::{parse_config, Config, ConfigError};
pub use report::run;
pub use search::{search, search_case_insensitive, SearchResult};
