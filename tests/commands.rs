use cargo_php::commands::{
    stub_file_name, Args, CommandError, HostPaths, Install, Plan, Remove, StubOutput, StubSource,
    Stubs,
};

fn host() -> Option<HostPaths> {
    Some(HostPaths { ext_dir: "/usr/lib/php".to_string(), ini: "/etc/php/php.ini".to_string() })
}

#[test]
fn install_uses_host_defaults() {
    let args = Args::Install(Install {
        install_dir: None,
        ini_path: None,
        disable: true,
        release: true,
        manifest: None,
    });
    assert!(args.needs_host_paths());
    match args.handle(host()) {
        Ok(Plan::Install { ext_dir, ini, enabled, release, .. }) => {
            assert_eq!(ext_dir, "/usr/lib/php");
            assert_eq!(ini.as_deref(), Some("/etc/php/php.ini"));
            assert!(!enabled);
            assert!(release);
        }
        _ => panic!("expected an install plan"),
    }
}

#[test]
fn install_dir_comes_without_config_file() {
    let args = Args::Install(Install {
        install_dir: Some("/opt/ext".to_string()),
        ini_path: None,
        disable: false,
        release: false,
        manifest: None,
    });
    assert!(!args.needs_host_paths());
    match args.handle(None) {
        Ok(Plan::Install { ext_dir, ini, enabled, .. }) => {
            assert_eq!(ext_dir, "/opt/ext");
            assert_eq!(ini, None);
            assert!(enabled);
        }
        _ => panic!("expected an install plan"),
    }
}

#[test]
fn remove_ini_path_overrides_default() {
    let args = Args::Remove(Remove {
        install_dir: None,
        ini_path: Some("/tmp/php.ini".to_string()),
        manifest: None,
    });
    match args.handle(host()) {
        Ok(Plan::Remove { ext_dir, ini, .. }) => {
            assert_eq!(ext_dir, "/usr/lib/php");
            assert_eq!(ini.as_deref(), Some("/tmp/php.ini"));
        }
        _ => panic!("expected a remove plan"),
    }
}

#[test]
fn missing_host_paths_is_an_error() {
    let args = Args::Remove(Remove { install_dir: None, ini_path: None, manifest: None });
    assert_eq!(args.handle(None).err(), Some(CommandError::HostPathsMissing));
}

#[test]
fn stubs_plans() {
    let args = Args::Stubs(Stubs { ext: None, out: None, stdout: false, manifest: None });
    match args.handle(None) {
        Ok(Plan::Stubs { source: StubSource::Build(None), output: StubOutput::WorkingDir }) => {}
        _ => panic!("expected a build into the working directory"),
    }
    let args = Args::Stubs(Stubs {
        ext: Some("/t/libx.so".to_string()),
        out: None,
        stdout: true,
        manifest: None,
    });
    match args.handle(None) {
        Ok(Plan::Stubs { source: StubSource::Library(p), output: StubOutput::Stdout }) => {
            assert_eq!(p, "/t/libx.so")
        }
        _ => panic!("expected a library printed to stdout"),
    }
    let args = Args::Stubs(Stubs {
        ext: None,
        out: Some("x.php".to_string()),
        stdout: true,
        manifest: None,
    });
    assert_eq!(args.handle(None).err(), Some(CommandError::ConflictingOptions));
}

#[test]
fn stub_file_is_named_after_the_module() {
    assert_eq!(stub_file_name("hello"), "hello.stubs.php");
}
