//! Parsing manifest text into the raw model.

use sc::raw_config::{RawCmd, RawConfig, RawEnv, RawScript};

fn s(t: &str) -> String {
    String::from(t)
}

#[test]
fn parse_string_cmd() {
    let text = "
    [[scripts]]
    name = \"run\"
    cmd = \"echo run\"
    ";
    let raw = RawConfig::parse(text).unwrap();
    assert_eq!(
        raw,
        RawConfig {
            scripts: vec![RawScript {
                name: s("run"),
                cmd: RawCmd::Literal(s("echo run")),
                cwd: None,
                env: None,
            }],
            config: None,
        }
    );
}

#[test]
fn parse_list_cmd() {
    let text = "
    [[scripts]]
    name = \"s\"
    cmd = [\"echo a\", \"echo b\"]
    ";
    let raw = RawConfig::parse(text).unwrap();
    assert_eq!(
        raw.scripts[0].cmd,
        RawCmd::List(vec![
            RawCmd::Literal(s("echo a")),
            RawCmd::Literal(s("echo b")),
        ])
    );
}

#[test]
fn parse_nested_cmd_keeps_depth() {
    let text = "
    [[scripts]]
    name = \"s\"
    cmd = [\"a\", [\"b\", \"c\"]]
    ";
    let raw = RawConfig::parse(text).unwrap();
    assert_eq!(
        raw.scripts[0].cmd,
        RawCmd::List(vec![
            RawCmd::Literal(s("a")),
            RawCmd::List(vec![RawCmd::Literal(s("b")), RawCmd::Literal(s("c"))]),
        ])
    );
}

#[test]
fn parse_empty_list_cmd() {
    let text = "
    [[scripts]]
    name = \"s\"
    cmd = []
    ";
    let raw = RawConfig::parse(text).unwrap();
    assert_eq!(raw.scripts[0].cmd, RawCmd::List(vec![]));
}

#[test]
fn parse_cwd_and_env() {
    let text = "
    [[scripts]]
    name = \"hey\"
    cwd = \"./target\"
    cmd = \"echo hey\"
    [scripts.env]
    KEY = \"value\"
    ";
    let raw = RawConfig::parse(text).unwrap();
    assert_eq!(raw.scripts[0].cwd, Some(s("./target")));
    assert_eq!(
        raw.scripts[0].env,
        Some(RawEnv(vec![(s("KEY"), s("value"))]))
    );
}

#[test]
fn parse_global_config_keeps_document_order() {
    let text = "
    [config]
    B = \"2\"
    A = \"1\"

    [[scripts]]
    name = \"s\"
    cmd = \"echo\"
    ";
    let raw = RawConfig::parse(text).unwrap();
    assert_eq!(
        raw.config,
        Some(RawEnv(vec![(s("B"), s("2")), (s("A"), s("1"))]))
    );
}

#[test]
fn parse_syntax_error_is_reported() {
    let text = "
    [[scripts]]
    name = \"run\"
    cmd =
    ";
    let r = RawConfig::parse(text);
    assert!(r.is_err());
    assert!(!r.unwrap_err().is_empty());
}

#[test]
fn parse_missing_scripts() {
    let r = RawConfig::parse("[config]\nA = \"1\"\n");
    assert_eq!(r, Err(s("missing field scripts")));
}

#[test]
fn parse_missing_name() {
    let r = RawConfig::parse("[[scripts]]\ncmd = \"echo\"\n");
    assert_eq!(r, Err(s("missing field name")));
}

#[test]
fn parse_missing_cmd() {
    let r = RawConfig::parse("[[scripts]]\nname = \"s\"\n");
    assert_eq!(r, Err(s("missing field cmd")));
}

#[test]
fn parse_name_not_string() {
    let r = RawConfig::parse("[[scripts]]\nname = 3\ncmd = \"echo\"\n");
    assert_eq!(r, Err(s("name must be a string")));
}

#[test]
fn parse_cmd_not_string_or_list() {
    let r = RawConfig::parse("[[scripts]]\nname = \"s\"\ncmd = 3\n");
    assert_eq!(r, Err(s("cmd must be a string or a list of strings")));
}

#[test]
fn parse_cmd_list_with_bad_element() {
    let r = RawConfig::parse("[[scripts]]\nname = \"s\"\ncmd = [\"a\", 3]\n");
    assert_eq!(r, Err(s("cmd must be a string or a list of strings")));
}

#[test]
fn parse_cwd_not_string() {
    let r = RawConfig::parse("[[scripts]]\nname = \"s\"\ncmd = \"x\"\ncwd = 3\n");
    assert_eq!(r, Err(s("cwd must be a string")));
}

#[test]
fn parse_env_value_not_string() {
    let text = "
    [[scripts]]
    name = \"s\"
    cmd = \"x\"
    [scripts.env]
    K = 3
    ";
    assert_eq!(RawConfig::parse(text), Err(s("env values must be strings")));
}

#[test]
fn parse_scripts_not_array() {
    let r = RawConfig::parse("scripts = 3\n");
    assert_eq!(r, Err(s("scripts must be an array of tables")));
}

#[test]
fn parse_config_not_table() {
    let r = RawConfig::parse("config = 3\n[[scripts]]\nname = \"s\"\ncmd = \"x\"\n");
    assert_eq!(r, Err(s("env must be a table of strings")));
}
