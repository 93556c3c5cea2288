use cargo_php::config::{
    entry_line, installed_file_name, reconcile, render, retain_without, IniAction, Installation,
    RemoveError,
};

fn lines(v: &[&str]) -> Vec<String> {
    v.iter().map(|l| l.to_string()).collect()
}

#[test]
fn enabling_twice_keeps_one_line() {
    let once = reconcile(&lines(&["memory_limit=1G"]), "libfoo.so", IniAction::Enable);
    let twice = reconcile(&once, "libfoo.so", IniAction::Enable);
    assert_eq!(twice, lines(&["memory_limit=1G", "extension=libfoo.so"]));
    assert_eq!(twice.iter().filter(|l| l.contains("extension=libfoo.so")).count(), 1);
}

#[test]
fn disabling_comments_the_line_out() {
    let enabled = lines(&["extension=libfoo.so", "extension=libbar.so"]);
    let disabled = reconcile(&enabled, "libfoo.so", IniAction::Disable);
    assert_eq!(disabled, lines(&["extension=libbar.so", ";extension=libfoo.so"]));
}

#[test]
fn removing_leaves_no_reference() {
    let before = lines(&[";extension=libfoo.so", "; libfoo.so notes", "x=1"]);
    let after = reconcile(&before, "libfoo.so", IniAction::Remove);
    assert_eq!(after, lines(&["x=1"]));
}

#[test]
fn enable_disable_enable_on_empty_file() {
    let mut ini: Vec<String> = Vec::new();
    ini = reconcile(&ini, "libfoo.so", IniAction::Enable);
    ini = reconcile(&ini, "libfoo.so", IniAction::Disable);
    ini = reconcile(&ini, "libfoo.so", IniAction::Enable);
    assert_eq!(render(&ini), "extension=libfoo.so");
}

#[test]
fn removing_twice_is_an_error() {
    let mut inst = Installation { library_present: false, config: lines(&["x=1"]) };
    inst.install("libfoo.so", true);
    assert_eq!(inst.config, lines(&["x=1", "extension=libfoo.so"]));
    assert_eq!(inst.remove("libfoo.so"), Ok(()));
    assert!(!inst.library_present);
    assert_eq!(inst.config, lines(&["x=1"]));
    assert_eq!(inst.remove("libfoo.so"), Err(RemoveError::NotInstalled));
    assert_eq!(inst.config, lines(&["x=1"]));
}

#[test]
fn install_disabled_writes_commented_line() {
    let mut inst = Installation { library_present: false, config: Vec::new() };
    inst.install("libfoo.so", false);
    assert!(inst.library_present);
    assert_eq!(inst.config, lines(&[";extension=libfoo.so"]));
}

#[test]
fn rendering_joins_with_line_feeds() {
    assert_eq!(render(&lines(&["a", "b", "c"])), "a\nb\nc");
    assert_eq!(render(&Vec::new()), "");
}

#[test]
fn entry_lines() {
    assert_eq!(entry_line("libfoo.so", true), "extension=libfoo.so");
    assert_eq!(entry_line("libfoo.so", false), ";extension=libfoo.so");
}

#[test]
fn file_name_turns_hyphens_into_underscores() {
    assert_eq!(installed_file_name("lib", "my-ext-rs", ".so"), "libmy_ext_rs.so");
    assert_eq!(installed_file_name("", "plain", ".dll"), "plain.dll");
}

#[test]
fn retained_lines_skip_the_key() {
    assert_eq!(retain_without(&lines(&["ab", "bc", "cd"]), "b"), lines(&["cd"]));
}
