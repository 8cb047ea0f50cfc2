//! Configuration: query, file path, and the resolved ignore-case setting.

use vstd::prelude::*;
use vstd::string::StrSliceExecFns;

verus! {

/// The characters of the boolean literal token `"true"`.
pub open spec fn true_token() -> Seq<char> {
    seq!['t', 'r', 'u', 'e']
}

/// The characters of the boolean literal token `"false"`.
pub open spec fn false_token() -> Seq<char> {
    seq!['f', 'a', 'l', 's', 'e']
}

/// The boolean denoted by `s`, when `s` is exactly one of the two boolean
/// literal tokens, and nothing otherwise.
pub open spec fn parse_bool_spec(s: Seq<char>) -> Option<bool> {
    if s == true_token() {
        Some(true)
    } else if s == false_token() {
        Some(false)
    } else {
        None
    }
}

/// Parse a boolean literal token: exactly `"true"` or `"false"`, case
/// sensitively; any other string parses to nothing.
pub fn parse_bool(s: &str) -> (r: Option<bool>)
    ensures
        r == parse_bool_spec(s@),
{
    let n = s.unicode_len();
    if n == 4 {
        let is_true = s.get_char(0) == 't' && s.get_char(1) == 'r' && s.get_char(2) == 'u'
            && s.get_char(3) == 'e';
        proof {
            if s@ == true_token() {
                assert(s@[0] == 't' && s@[1] == 'r' && s@[2] == 'u' && s@[3] == 'e');
            }
            assert(s@ != false_token());
            if is_true {
                assert(s@ =~= true_token());
            }
        }
        if is_true {
            Some(true)
        } else {
            None
        }
    } else if n == 5 {
        let is_false = s.get_char(0) == 'f' && s.get_char(1) == 'a' && s.get_char(2) == 'l'
            && s.get_char(3) == 's' && s.get_char(4) == 'e';
        proof {
            if s@ == false_token() {
                assert(s@[0] == 'f' && s@[1] == 'a' && s@[2] == 'l' && s@[3] == 's' && s@[4]
                    == 'e');
            }
            assert(s@ != true_token());
            if is_false {
                assert(s@ =~= false_token());
            }
        }
        if is_false {
            Some(false)
        } else {
            None
        }
    } else {
        proof {
            assert(s@ != true_token());
            assert(s@ != false_token());
        }
        None
    }
}

/// The resolved ignore-case setting: a token that parses as a boolean
/// decides by itself; otherwise the environment flag decides.
pub open spec fn ignore_case_spec(cmd: Option<Seq<char>>, env_set: bool) -> bool {
    match cmd {
        Some(s) => match parse_bool_spec(s) {
            Some(b) => b,
            None => env_set,
        },
        None => env_set,
    }
}

/// Resolve the ignore-case setting from the optional fourth command-line
/// token and whether the `IGNORE_CASE` environment variable is set.
pub fn get_ignore_case(ignore_case_cmd: Option<&String>, ignore_case_env: bool) -> (b: bool)
    ensures
        b == ignore_case_spec(ignore_case_cmd.deep_view(), ignore_case_env),
{
    match ignore_case_cmd {
        Some(s) => match parse_bool(s.as_str()) {
            Some(b) => b,
            None => ignore_case_env,
        },
        None => ignore_case_env,
    }
}

/// Precedence: a token that parses as a boolean decides the ignore-case
/// setting regardless of the environment flag.
pub proof fn lemma_flag_overrides_env(cmd: Seq<char>, env_set: bool)
    requires
        parse_bool_spec(cmd) is Some,
    ensures
        Some(ignore_case_spec(Some(cmd), env_set)) == parse_bool_spec(cmd),
        ignore_case_spec(Some(cmd), true) == ignore_case_spec(Some(cmd), false),
{
}

/// Fallback: with the token absent or unparsable as a boolean, the setting
/// equals the presence of the environment variable.
pub proof fn lemma_env_fallback(cmd: Option<Seq<char>>, env_set: bool)
    requires
        match cmd {
            Some(s) => parse_bool_spec(s) is None,
            None => true,
        },
    ensures
        ignore_case_spec(cmd, env_set) == env_set,
{
}

/// A resolved configuration: what to search for, in which file, and
/// whether matching disregards letter case.
#[derive(Debug, Clone)]
pub struct Config {
    pub query: String,
    pub file_path: String,
    pub ignore_case: bool,
}

/// The positional argument that a failed configuration is missing.
#[derive(Clone, Copy, Debug, PartialEq, Eq, Structural)]
pub enum ArgName {
    Query,
    FilePath,
}

/// Configuration failure: a required positional argument was not supplied.
#[derive(Clone, Copy, Debug, PartialEq, Eq, Structural)]
pub enum ConfigError {
    MissingArgument(ArgName),
}

impl Config {
    /// Build a configuration from the positional arguments.  The first
    /// argument is the program's own name and is discarded; the second is
    /// the query and the third the file path.  An optional fourth token and
    /// the caller-supplied environment flag resolve the ignore-case
    /// setting; arguments past the fourth are ignored.
    pub fn build(args: &Vec<String>, ignore_case_env: bool) -> (r: Result<Config, ConfigError>)
        ensures
            args@.len() < 2 ==> r == Err::<Config, ConfigError>(
                ConfigError::MissingArgument(ArgName::Query),
            ),
            args@.len() == 2 ==> r == Err::<Config, ConfigError>(
                ConfigError::MissingArgument(ArgName::FilePath),
            ),
            args@.len() >= 3 ==> {
                &&& r is Ok
                &&& r->Ok_0.query@ == args@[1]@
                &&& r->Ok_0.file_path@ == args@[2]@
                &&& r->Ok_0.ignore_case == ignore_case_spec(
                    if args@.len() >= 4 {
                        Some(args@[3]@)
                    } else {
                        None
                    },
                    ignore_case_env,
                )
            },
    {
        if args.len() < 2 {
            return Err(ConfigError::MissingArgument(ArgName::Query));
        }
        if args.len() < 3 {
            return Err(ConfigError::MissingArgument(ArgName::FilePath));
        }
        let query = args[1].clone();
        let file_path = args[2].clone();
        let ignore_case = if args.len() >= 4 {
            get_ignore_case(Some(&args[3]), ignore_case_env)
        } else {
            get_ignore_case(None, ignore_case_env)
        };
        Ok(Config { query, file_path, ignore_case })
    }
}

} // verus!
