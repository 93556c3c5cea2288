use cargo_php::target::{library_targets, resolve_target, BuildTarget, ResolveError};

fn target(name: &str, crate_types: &[&str]) -> BuildTarget {
    BuildTarget {
        name: name.to_string(),
        kind: crate_types.iter().map(|t| t.to_string()).collect(),
        crate_types: crate_types.iter().map(|t| t.to_string()).collect(),
        src_path: format!("/project/src/{}.rs", name),
    }
}

#[test]
fn no_library_target_fails_whatever_the_choice() {
    let targets = vec![target("tool", &["bin"]), target("helper", &["rlib"])];
    assert_eq!(resolve_target(&targets, None).err(), Some(ResolveError::NoLibraryTarget));
    assert_eq!(resolve_target(&targets, Some(0)).err(), Some(ResolveError::NoLibraryTarget));
    assert_eq!(resolve_target(&Vec::new(), None).err(), Some(ResolveError::NoLibraryTarget));
}

#[test]
fn single_library_target_is_returned_without_choice() {
    let targets = vec![target("tool", &["bin"]), target("ext", &["cdylib"])];
    assert_eq!(resolve_target(&targets, None).unwrap().name, "ext");
    assert_eq!(resolve_target(&targets, Some(7)).unwrap().name, "ext");
}

#[test]
fn several_library_targets_follow_the_choice() {
    let targets = vec![
        target("first", &["dylib"]),
        target("tool", &["bin"]),
        target("second", &["rlib", "cdylib"]),
    ];
    assert_eq!(resolve_target(&targets, Some(1)).unwrap().name, "second");
    assert_eq!(resolve_target(&targets, Some(0)).unwrap().name, "first");
    assert_eq!(resolve_target(&targets, None).err(), Some(ResolveError::SelectionRequired));
    assert_eq!(resolve_target(&targets, Some(2)).err(), Some(ResolveError::SelectionOutOfRange));
}

#[test]
fn library_targets_keep_order_and_drop_others() {
    let targets = vec![
        target("a", &["cdylib"]),
        target("b", &["staticlib"]),
        target("c", &["dylib"]),
    ];
    let libs = library_targets(&targets);
    let names: Vec<&str> = libs.iter().map(|t| t.name.as_str()).collect();
    assert_eq!(names, vec!["a", "c"]);
}

#[test]
fn target_identity_compares_all_fields() {
    let a = target("ext", &["cdylib"]);
    let mut b = target("ext", &["cdylib"]);
    assert!(a.same_as(&b));
    b.src_path = "/elsewhere/lib.rs".to_string();
    assert!(!a.same_as(&b));
    assert!(a.is_library());
    assert!(!target("x", &["lib"]).is_library());
}
