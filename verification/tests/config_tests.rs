use minigrep::ArgName;
use minigrep::Config;
use minigrep::ConfigError;
use minigrep::get_ignore_case;
use minigrep::parse_bool;

fn args(list: &[&str]) -> Vec<String> {
    list.iter().map(|s| s.to_string()).collect()
}

#[test]
fn build_missing_query() {
    let r = Config::build(&args(&["prog"]), false);
    assert_eq!(r.unwrap_err(), ConfigError::MissingArgument(ArgName::Query));
    let r = Config::build(&args(&[]), true);
    assert_eq!(r.unwrap_err(), ConfigError::MissingArgument(ArgName::Query));
}

#[test]
fn build_missing_file_path() {
    let r = Config::build(&args(&["prog", "q"]), false);
    assert_eq!(
        r.unwrap_err(),
        ConfigError::MissingArgument(ArgName::FilePath)
    );
}

#[test]
fn build_takes_query_and_file_path() {
    let c = Config::build(&args(&["prog", "needle", "file.txt"]), false).unwrap();
    assert_eq!(c.query, "needle");
    assert_eq!(c.file_path, "file.txt");
    assert!(!c.ignore_case);
}

#[test]
fn build_flag_overrides_env() {
    let c = Config::build(&args(&["prog", "q", "f", "false"]), true).unwrap();
    assert!(!c.ignore_case);
    let c = Config::build(&args(&["prog", "q", "f", "true"]), false).unwrap();
    assert!(c.ignore_case);
    let c = Config::build(&args(&["prog", "q", "f", "true"]), true).unwrap();
    assert!(c.ignore_case);
}

#[test]
fn build_env_decides_without_flag() {
    let c = Config::build(&args(&["prog", "q", "f"]), true).unwrap();
    assert!(c.ignore_case);
    let c = Config::build(&args(&["prog", "q", "f"]), false).unwrap();
    assert!(!c.ignore_case);
}

#[test]
fn build_unparsable_flag_falls_back_to_env() {
    let c = Config::build(&args(&["prog", "q", "f", "TRUE"]), false).unwrap();
    assert!(!c.ignore_case);
    let c = Config::build(&args(&["prog", "q", "f", "yes"]), true).unwrap();
    assert!(c.ignore_case);
    let c = Config::build(&args(&["prog", "q", "f", ""]), true).unwrap();
    assert!(c.ignore_case);
}

#[test]
fn build_ignores_extra_arguments() {
    let c = Config::build(&args(&["prog", "q", "f", "true", "extra"]), false).unwrap();
    assert!(c.ignore_case);
    assert_eq!(c.query, "q");
    assert_eq!(c.file_path, "f");
}

#[test]
fn parse_bool_accepts_exact_literals_only() {
    assert_eq!(parse_bool("true"), Some(true));
    assert_eq!(parse_bool("false"), Some(false));
    assert_eq!(parse_bool("True"), None);
    assert_eq!(parse_bool("FALSE"), None);
    assert_eq!(parse_bool("1"), None);
    assert_eq!(parse_bool(""), None);
    assert_eq!(parse_bool("truex"), None);
}

#[test]
fn ignore_case_resolution_precedence() {
    let t = String::from("true");
    let f = String::from("false");
    let junk = String::from("junk");
    assert!(get_ignore_case(Some(&t), false));
    assert!(get_ignore_case(Some(&t), true));
    assert!(!get_ignore_case(Some(&f), true));
    assert!(!get_ignore_case(Some(&f), false));
    assert!(get_ignore_case(Some(&junk), true));
    assert!(!get_ignore_case(Some(&junk), false));
    assert!(get_ignore_case(None, true));
    assert!(!get_ignore_case(None, false));
}
