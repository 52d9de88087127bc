//! The command line.

use rootle_bitbucket::options::{parse_workspaces, Command, Options};

fn parse(args: &[&str]) -> Command {
    let mut all = vec!["rootle-bitbucket".to_string()];
    all.extend(args.iter().map(|a| a.to_string()));
    Command::parse(&all)
}

fn options(args: &[&str]) -> Options {
    match parse(args) {
        Command::Serve(o) => o,
        other => panic!("expected to serve, got {other:?}"),
    }
}

#[test]
fn defaults_hold_without_flags() {
    let o = options(&[]);
    assert_eq!(o.instance, "https://api.bitbucket.org");
    assert_eq!(o.token_env, "BITBUCKET_TOKEN");
    assert_eq!(o.username_env, "BITBUCKET_USERNAME");
    assert_eq!(o.cache_base, None);
    assert!(o.workspaces.is_empty());
}

#[test]
fn flags_set_what_they_name() {
    let o = options(&[
        "--instance", "http://x", "--token-env", "T", "--username-env", "U", "--cache", "/c",
        "--workspace", "a", "--instance", "http://y", "--workspace", "b",
    ]);
    assert_eq!(o.instance, "http://y");
    assert_eq!(o.token_env, "T");
    assert_eq!(o.username_env, "U");
    assert_eq!(o.cache_base.as_deref(), Some("/c"));
    assert_eq!(o.workspaces, vec!["a", "b"]);
}

#[test]
fn a_missing_value_is_empty() {
    assert_eq!(options(&["--instance"]).instance, "");
    assert_eq!(options(&["--cache"]).cache_base, None);
    assert_eq!(options(&["--workspace"]).workspaces, vec![""]);
}

#[test]
fn unknown_flags_are_named() {
    assert!(matches!(parse(&["--bogus"]), Command::Unknown(f) if f == "--bogus"));
    assert!(matches!(parse(&["--cache", "/c", "x"]), Command::Unknown(f) if f == "x"));
}

#[test]
fn the_version_wins_over_everything() {
    assert!(matches!(parse(&["--version"]), Command::Version));
    assert!(matches!(parse(&["--bogus", "-V"]), Command::Version));
    assert!(matches!(parse(&["--instance", "-V"]), Command::Version));
}

#[test]
fn lists_name_workspaces() {
    assert_eq!(parse_workspaces(" a, b ,,c,"), vec!["a", "b", "c"]);
    assert!(parse_workspaces("").is_empty());
    assert!(parse_workspaces(" , ,").is_empty());
}

#[test]
fn the_command_line_wins_over_the_environment() {
    let o = options(&["--workspace", "a"]).settle_workspaces(Some("b,c".to_string()));
    assert_eq!(o.workspaces, vec!["a"]);
    let o = options(&[]).settle_workspaces(Some("b,c".to_string()));
    assert_eq!(o.workspaces, vec!["b", "c"]);
    assert!(options(&[]).settle_workspaces(None).workspaces.is_empty());
}
