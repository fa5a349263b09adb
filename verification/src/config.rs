//! The configuration of one search run, built from command-line arguments.

use vstd::prelude::*;

verus! {

/// The name of the environment variable that switches case-insensitive
/// search on.
pub const IGNORE_CASE_VAR: &'static str = "MINIGREP_IGNORE_CASE";

/// The message of `ConfigError::InsufficientArguments`.
pub const USAGE: &'static str = "Not enough arguments. USAGE is: minigrep <query> <filename>";

/// What to search for, where, and how.
#[derive(Debug, PartialEq, Eq)]
pub struct Config {
    /// The text to search for.
    pub query: String,
    /// The path of the file to search in. It is not looked at here.
    pub filename: String,
    /// Whether the search ignores case.
    pub ignore_case: bool,
}

/// A `Config` as a mathematical value.
pub struct ConfigView {
    /// The characters of the query.
    pub query: Seq<char>,
    /// The characters of the file's path.
    pub filename: Seq<char>,
    /// Whether the search ignores case.
    pub ignore_case: bool,
}

impl View for Config {
    type V = ConfigView;

    open spec fn view(&self) -> ConfigView {
        ConfigView { query: self.query@, filename: self.filename@, ignore_case: self.ignore_case }
    }
}

/// Why no configuration could be built.
#[derive(Debug, PartialEq, Eq)]
pub enum ConfigError {
    /// The arguments hold no query or no file name.
    InsufficientArguments,
}

impl ConfigError {
    /// The message for the user.
    pub fn message(&self) -> (text: String)
        ensures
            text@ == USAGE@,
    {
        match self {
            ConfigError::InsufficientArguments => USAGE.to_owned(),
        }
    }
}

/// Whether the value of the environment variable, `None` where it is not
/// set, switches case-insensitive search on: only the value `1` does.
pub open spec fn switched_on(value: Option<Seq<char>>) -> bool {
    value == Some(seq!['1'])
}

/// The lines that building `config` writes to the output sink when asked
/// for diagnostics, and the nothing that it writes otherwise.
pub open spec fn diagnostics(dbg: bool, config: ConfigView) -> Seq<Seq<char>> {
    if dbg {
        seq!["Searching for "@ + config.query, "In file "@ + config.filename]
    } else {
        Seq::empty()
    }
}

impl Config {
    /// A configuration for a search for `query` in the file `filename`.
    /// `ignore_case_var` is the value of the environment variable
    /// `IGNORE_CASE_VAR`, `None` where it is not set; the search ignores
    /// case exactly if that value is `1`.
    pub fn new(query: &str, filename: &str, ignore_case_var: Option<&str>) -> (config: Config)
        ensures
            config@ == (ConfigView {
                query: query@,
                filename: filename@,
                ignore_case: switched_on(ignore_case_var.deep_view()),
            }),
    {
        let ignore_case = match ignore_case_var {
            Some(value) => value.unicode_len() == 1 && value.get_char(0) == '1',
            None => false,
        };
        proof {
            if let Some(value) = ignore_case_var {
                if ignore_case {
                    assert(value@ =~= seq!['1']);
                }
            }
        }
        Config { query: query.to_owned(), filename: filename.to_owned(), ignore_case }
    }

    /// Builds the configuration from command-line arguments: the program's
    /// name, the query, the file name. Arguments after these are ignored.
    /// With fewer than three arguments there is no configuration, and
    /// nothing is written. With `dbg` set, the query and the file name are
    /// written to `out`, one line each.
    pub fn new_from_args(
        args: &[String],
        dbg: bool,
        ignore_case_var: Option<&str>,
        out: &mut Vec<String>,
    ) -> (result: Result<Config, ConfigError>)
        ensures
            args.len() < 3 ==> result == Err::<Config, ConfigError>(
                ConfigError::InsufficientArguments,
            ) && final(out).deep_view() == old(out).deep_view(),
            args.len() >= 3 ==> result is Ok && result.unwrap()@ == (ConfigView {
                query: args[1]@,
                filename: args[2]@,
                ignore_case: switched_on(ignore_case_var.deep_view()),
            }) && final(out).deep_view() == old(out).deep_view() + diagnostics(
                dbg,
                result.unwrap()@,
            ),
    {
        if args.len() < 3 {
            return Err(ConfigError::InsufficientArguments);
        }
        if dbg {
            let mut first = "Searching for ".to_owned();
            first.append(args[1].as_str());
            let mut second = "In file ".to_owned();
            second.append(args[2].as_str());
            out.push(first);
            out.push(second);
        }
        Ok(Config::new(args[1].as_str(), args[2].as_str(), ignore_case_var))
    }
}

/// Builds the configuration from command-line arguments that hold a query
/// and a file name, and writes both to `out`.
pub fn parse_config(args: &[String], ignore_case_var: Option<&str>, out: &mut Vec<String>) -> (config:
    Config)
    requires
        args.len() >= 3,
    ensures
        config@ == (ConfigView {
            query: args[1]@,
            filename: args[2]@,
            ignore_case: switched_on(ignore_case_var.deep_view()),
        }),
        final(out).deep_view() == old(out).deep_view() + diagnostics(true, config@),
{
    match Config::new_from_args(args, true, ignore_case_var, out) {
        Ok(config) => config,
        Err(_) => vstd::pervasive::unreached(),
    }
}

} // verus!
