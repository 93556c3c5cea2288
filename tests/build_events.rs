use cargo_php::events::{
    correlate_build, first_with_extension, locate_library, BuildError, BuildEvent, BuildScan,
    ScanStatus,
};
use cargo_php::target::BuildTarget;

fn target(name: &str) -> BuildTarget {
    BuildTarget {
        name: name.to_string(),
        kind: vec!["cdylib".to_string()],
        crate_types: vec!["cdylib".to_string()],
        src_path: format!("/project/{}/src/lib.rs", name),
    }
}

fn artifact(name: &str, files: &[&str]) -> BuildEvent {
    BuildEvent::ArtifactProduced {
        target: target(name),
        files: files.iter().map(|f| f.to_string()).collect(),
    }
}

#[test]
fn artifact_of_requested_target_is_found() {
    let events = vec![
        artifact("a", &["/t/liba.rlib", "/t/liba.so"]),
        artifact("b", &["/t/libb.d", "/t/libb.so"]),
        BuildEvent::BuildFinished { success: true },
    ];
    assert_eq!(correlate_build(&target("b"), &events, "so"), Ok("/t/libb.so".to_string()));
    assert_eq!(correlate_build(&target("a"), &events, "so"), Ok("/t/liba.so".to_string()));
}

#[test]
fn missing_artifact_is_reported() {
    let events = vec![
        artifact("b", &["/t/libb.so"]),
        BuildEvent::BuildFinished { success: true },
    ];
    assert_eq!(correlate_build(&target("a"), &events, "so"), Err(BuildError::ArtifactNotProduced));
    assert_eq!(correlate_build(&target("a"), &Vec::new(), "so"), Err(BuildError::ArtifactNotProduced));
}

#[test]
fn failed_build_wins_over_matching_artifact() {
    let events = vec![
        artifact("a", &["/t/liba.so"]),
        BuildEvent::Other,
        BuildEvent::BuildFinished { success: false },
    ];
    assert_eq!(correlate_build(&target("a"), &events, "so"), Err(BuildError::CompilationFailed));
}

#[test]
fn events_after_the_end_are_not_read() {
    let events = vec![
        BuildEvent::BuildFinished { success: true },
        artifact("a", &["/t/liba.so"]),
        BuildEvent::BuildFinished { success: false },
    ];
    assert_eq!(correlate_build(&target("a"), &events, "so"), Err(BuildError::ArtifactNotProduced));
}

#[test]
fn last_matching_artifact_wins() {
    let events = vec![
        artifact("a", &["/t/old/liba.so"]),
        artifact("a", &["/t/new/liba.so"]),
        BuildEvent::BuildFinished { success: true },
    ];
    assert_eq!(correlate_build(&target("a"), &events, "so"), Ok("/t/new/liba.so".to_string()));
}

#[test]
fn artifact_without_library_file_is_reported() {
    let events = vec![artifact("a", &["/t/liba.rlib", "/t/liba.d"])];
    assert_eq!(correlate_build(&target("a"), &events, "so"), Err(BuildError::LibraryPathNotFound));
}

#[test]
fn library_file_is_found_by_extension() {
    let files = vec![
        "/t/libso.rlib".to_string(),
        "/t/so".to_string(),
        "/t/libx.dylib".to_string(),
        "/t/liby.dylib".to_string(),
    ];
    assert_eq!(locate_library(&files, "dylib"), Ok("/t/libx.dylib".to_string()));
    assert_eq!(locate_library(&files, "so"), Err(BuildError::LibraryPathNotFound));
    assert_eq!(locate_library(&files, "rlib"), Ok("/t/libso.rlib".to_string()));
}

#[test]
fn first_extension_index() {
    let exts = vec![None, Some("rlib".to_string()), Some("so".to_string()), Some("so".to_string())];
    assert_eq!(first_with_extension(&exts, "so"), Some(2));
    assert_eq!(first_with_extension(&exts, "dll"), None);
}

#[test]
fn scan_stops_at_the_end_of_the_build() {
    let mut scan = BuildScan::new(target("a"));
    assert_eq!(scan.observe(&artifact("a", &["/t/liba.so"])), ScanStatus::Running);
    assert_eq!(scan.observe(&BuildEvent::BuildFinished { success: true }), ScanStatus::Finished);
    assert_eq!(scan.observe(&BuildEvent::BuildFinished { success: false }), ScanStatus::Finished);
    assert_eq!(scan.finish("so"), Ok("/t/liba.so".to_string()));
}
