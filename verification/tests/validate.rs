//! Validating raw manifests into the domain model.

use sc::config::{Cmd, Config, ConfigError, Env, Script, ValidationError};
use sc::raw_config::{RawCmd, RawConfig, RawEnv, RawScript};

fn s(t: &str) -> String {
    String::from(t)
}

fn script(name: &str, cmd: &str) -> RawScript {
    RawScript {
        name: s(name),
        cmd: RawCmd::Literal(s(cmd)),
        cwd: None,
        env: None,
    }
}

#[test]
fn validate_unique_legal_names() {
    let raw = RawConfig {
        scripts: vec![script("run", "echo run"), script("backrun", "echo backrun")],
        config: None,
    };
    let config = Config::from_raw(&raw).unwrap();
    assert_eq!(config.scripts.len(), 2);
    assert_eq!(config.scripts[0].0, s("run"));
    assert_eq!(config.scripts[1].0, s("backrun"));
    assert_eq!(config.config, Env(vec![]));
}

#[test]
fn validate_duplicate_name() {
    let raw = RawConfig {
        scripts: vec![script("x", "1"), script("ab", "2"), script("ab", "3")],
        config: None,
    };
    assert_eq!(
        Config::from_raw(&raw),
        Err(ValidationError::Single(s(
            "2 scripts have the same name \"ab\""
        )))
    );
}

#[test]
fn validate_empty_name() {
    let raw = RawConfig {
        scripts: vec![script("r", "echo e"), script("", "echo run")],
        config: None,
    };
    assert_eq!(
        Config::from_raw(&raw),
        Err(ValidationError::Scripts(vec![s(
            "script 1: script name cannot be empty"
        )]))
    );
}

#[test]
fn validate_name_with_space() {
    let raw = RawConfig {
        scripts: vec![script("ru n", "echo run")],
        config: None,
    };
    assert_eq!(
        Config::from_raw(&raw),
        Err(ValidationError::Scripts(vec![s(
            "script 0: script name cannot contain tabs or spaces"
        )]))
    );
}

#[test]
fn validate_name_with_tab() {
    let raw = RawConfig {
        scripts: vec![script("a\tb", "echo")],
        config: None,
    };
    assert_eq!(
        Config::from_raw(&raw),
        Err(ValidationError::Scripts(vec![s(
            "script 0: script name cannot contain tabs or spaces"
        )]))
    );
}

#[test]
fn validate_leading_dash() {
    let raw = RawConfig {
        scripts: vec![script("-b", "echo run")],
        config: None,
    };
    assert_eq!(
        Config::from_raw(&raw),
        Err(ValidationError::Scripts(vec![s(
            "script 0: script name cannot start with -"
        )]))
    );
}

#[test]
fn validate_name_checks_priority() {
    // A leading dash and a space: the forbidden-character check fires first.
    let raw = RawConfig {
        scripts: vec![script("- x", "echo")],
        config: None,
    };
    assert_eq!(
        Config::from_raw(&raw),
        Err(ValidationError::Scripts(vec![s(
            "script 0: script name cannot contain tabs or spaces"
        )]))
    );
}

#[test]
fn validate_collects_every_message() {
    let raw = RawConfig {
        scripts: vec![script("", "a"), script("ok", "b"), script("-x", "c")],
        config: None,
    };
    assert_eq!(
        Config::from_raw(&raw),
        Err(ValidationError::Scripts(vec![
            s("script 0: script name cannot be empty"),
            s("script 2: script name cannot start with -"),
        ]))
    );
}

#[test]
fn validate_env_key_classes() {
    let raw = RawConfig {
        scripts: vec![RawScript {
            name: s("s"),
            cmd: RawCmd::Literal(s("x")),
            cwd: None,
            env: Some(RawEnv(vec![(s("AZaz09_-"), s("v"))])),
        }],
        config: None,
    };
    let config = Config::from_raw(&raw).unwrap();
    assert_eq!(config.scripts[0].1.env, Env(vec![s("AZaz09_-=v")]));
}

#[test]
fn validate_env_key_with_space() {
    let raw = RawConfig {
        scripts: vec![RawScript {
            name: s("good"),
            cmd: RawCmd::Literal(s("x")),
            cwd: None,
            env: Some(RawEnv(vec![
                (s("FINE"), s("1")),
                (s("BAD KEY"), s("2")),
            ])),
        }],
        config: None,
    };
    assert_eq!(
        Config::from_raw(&raw),
        Err(ValidationError::Scripts(vec![s(
            "script 0:good : invalid env variable name \"BAD KEY\""
        )]))
    );
}

#[test]
fn validate_env_key_empty() {
    let raw = RawConfig {
        scripts: vec![RawScript {
            name: s("s"),
            cmd: RawCmd::Literal(s("x")),
            cwd: None,
            env: Some(RawEnv(vec![(s(""), s("v"))])),
        }],
        config: None,
    };
    assert_eq!(
        Config::from_raw(&raw),
        Err(ValidationError::Scripts(vec![s(
            "script 0:s : invalid env variable name \"\""
        )]))
    );
}

#[test]
fn validate_global_env_failure_stands_alone() {
    let raw = RawConfig {
        scripts: vec![script("s", "x")],
        config: Some(RawEnv(vec![(s("NO GOOD"), s("v"))])),
    };
    assert_eq!(
        Config::from_raw(&raw),
        Err(ValidationError::Single(s(
            "config : invalid env variable name \"NO GOOD\""
        )))
    );
}

#[test]
fn validate_global_env_formats() {
    let raw = RawConfig {
        scripts: vec![script("s", "x")],
        config: Some(RawEnv(vec![(s("NAME"), s("GLOBAL"))])),
    };
    let config = Config::from_raw(&raw).unwrap();
    assert_eq!(config.config, Env(vec![s("NAME=GLOBAL")]));
}

#[test]
fn validate_rebuilds_nested_cmd() {
    let raw = RawConfig {
        scripts: vec![RawScript {
            name: s("s"),
            cmd: RawCmd::List(vec![
                RawCmd::Literal(s("a")),
                RawCmd::List(vec![RawCmd::Literal(s("b")), RawCmd::Literal(s("c"))]),
            ]),
            cwd: None,
            env: None,
        }],
        config: None,
    };
    let config = Config::from_raw(&raw).unwrap();
    assert_eq!(
        config.scripts[0].1.cmd,
        Cmd::Consecutive(vec![
            Cmd::Literal(s("a")),
            Cmd::Consecutive(vec![Cmd::Literal(s("b")), Cmd::Literal(s("c"))]),
        ])
    );
}

#[test]
fn validate_twice_yields_equal_configs() {
    let raw = RawConfig {
        scripts: vec![
            RawScript {
                name: s("s"),
                cmd: RawCmd::List(vec![RawCmd::Literal(s("a"))]),
                cwd: Some(s("./d")),
                env: Some(RawEnv(vec![(s("K"), s("v"))])),
            },
            script("t", "echo"),
        ],
        config: Some(RawEnv(vec![(s("G"), s("1"))])),
    };
    let first = Config::from_raw(&raw);
    let second = Config::from_raw(&raw);
    assert_eq!(first, second);
}

#[test]
fn validate_twice_on_error_input() {
    let raw = RawConfig {
        scripts: vec![script("", "x")],
        config: None,
    };
    assert_eq!(Config::from_raw(&raw), Config::from_raw(&raw));
}

#[test]
fn lookup_finds_scripts_by_name() {
    let raw = RawConfig {
        scripts: vec![script("a", "echo a"), script("b", "echo b")],
        config: None,
    };
    let config = Config::from_raw(&raw).unwrap();
    let found = config.get("b").unwrap();
    assert_eq!(found.cmd, Cmd::Literal(s("echo b")));
    assert!(config.get("c").is_none());
}

#[test]
fn end_to_end_single_script() {
    let text = "
    [[scripts]]
    name = \"run\"
    cmd = \"echo run\"
    ";
    let config = Config::from_manifest_str(text).unwrap();
    assert_eq!(
        config,
        Config {
            scripts: vec![(
                s("run"),
                Script {
                    cmd: Cmd::Literal(s("echo run")),
                    cwd: None,
                    env: Env(vec![]),
                }
            )],
            config: Env(vec![]),
        }
    );
}

#[test]
fn end_to_end_parse_error_is_parse_variant() {
    let r = Config::from_manifest_str("[[scripts]]\nname = \"run\"\ncmd =\n");
    assert!(matches!(r, Err(ConfigError::Parse(_))));
}

#[test]
fn end_to_end_validation_error_is_validation_variant() {
    let r = Config::from_manifest_str("[[scripts]]\nname = \"-x\"\ncmd = \"echo\"\n");
    assert_eq!(
        r,
        Err(ConfigError::Validation(ValidationError::Scripts(vec![s(
            "script 0: script name cannot start with -"
        )])))
    );
}

#[test]
fn end_to_end_set_cwd() {
    let text = "
    [[scripts]]
    name = \"hey\"
    cwd = \"./target\"
    cmd = [\"echo hey\", \"touch d.txt\"]
    ";
    let config = Config::from_manifest_str(text).unwrap();
    assert_eq!(
        config.scripts[0].1,
        Script {
            cmd: Cmd::Consecutive(vec![
                Cmd::Literal(s("echo hey")),
                Cmd::Literal(s("touch d.txt")),
            ]),
            cwd: Some(s("./target")),
            env: Env(vec![]),
        }
    );
}
