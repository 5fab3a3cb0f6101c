//! Flattening command trees and composing shell bodies.

use sc::config::{Cmd, Config, Env, Script};
use sc::fmt_num::{u128_to_string, u64_to_string};
use sc::runner::{compose_script, temp_file_name, write_commands};

fn s(t: &str) -> String {
    String::from(t)
}

#[test]
fn flatten_literal_emits_echo_then_command() {
    let mut buf = String::new();
    write_commands(&mut buf, &Cmd::Literal(s("echo run")));
    assert_eq!(buf, s("echo $ echo run\necho run\n"));
}

#[test]
fn flatten_sequence_keeps_sibling_order() {
    let mut buf = String::new();
    let cmd = Cmd::Consecutive(vec![Cmd::Literal(s("echo a")), Cmd::Literal(s("echo b"))]);
    write_commands(&mut buf, &cmd);
    assert_eq!(buf, s("echo $ echo a\necho a\necho $ echo b\necho b\n"));
}

#[test]
fn flatten_nested_is_depth_first() {
    let mut buf = String::new();
    let cmd = Cmd::Consecutive(vec![
        Cmd::Literal(s("a")),
        Cmd::Consecutive(vec![Cmd::Literal(s("b")), Cmd::Literal(s("c"))]),
        Cmd::Literal(s("d")),
    ]);
    write_commands(&mut buf, &cmd);
    assert_eq!(
        buf,
        s("echo $ a\na\necho $ b\nb\necho $ c\nc\necho $ d\nd\n")
    );
}

#[test]
fn flatten_empty_sequence_is_empty() {
    let mut buf = String::new();
    write_commands(&mut buf, &Cmd::Consecutive(vec![]));
    assert_eq!(buf, s(""));
}

#[test]
fn compose_exports_global_before_local() {
    let script = Script {
        cmd: Cmd::Literal(s("echo run")),
        cwd: None,
        env: Env(vec![s("NAME=LOCAL")]),
    };
    let global = Env(vec![s("NAME=GLOBAL")]);
    let sh = compose_script(&script, &global);
    assert_eq!(
        sh,
        s("export NAME=GLOBAL\nexport NAME=LOCAL\necho $ echo run\necho run\n")
    );
}

#[test]
fn compose_opens_with_directory_change() {
    let script = Script {
        cmd: Cmd::Literal(s("make")),
        cwd: Some(s("./subdir")),
        env: Env(vec![]),
    };
    let sh = compose_script(&script, &Env(vec![]));
    assert_eq!(sh, s("cd ./subdir\necho $ make\nmake\n"));
}

#[test]
fn compose_end_to_end_global_env() {
    let text = "
    [config]
    NAME = \"GLOBAL\"

    [[scripts]]
    name = \"s\"
    cmd = \"echo run\"
    ";
    let config = Config::from_manifest_str(text).unwrap();
    let script = config.get("s").unwrap();
    let sh = compose_script(script, &config.config);
    assert_eq!(sh, s("export NAME=GLOBAL\necho $ echo run\necho run\n"));
}

#[test]
fn decimal_rendering_is_exact() {
    assert_eq!(u64_to_string(0), s("0"));
    assert_eq!(u64_to_string(10), s("10"));
    assert_eq!(u64_to_string(9876543210), s("9876543210"));
    assert_eq!(u64_to_string(u64::MAX), s("18446744073709551615"));
    assert_eq!(u128_to_string(340282366920938463463374607431768211455), s("340282366920938463463374607431768211455"));
}

#[test]
fn temp_file_name_is_tilde_nanos_sh() {
    assert_eq!(temp_file_name(0), s("~0.sh"));
    assert_eq!(temp_file_name(1234567890), s("~1234567890.sh"));
}
