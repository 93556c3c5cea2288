//! The tool's commands, and the plan each one resolves to before any work
//! is done.

use vstd::prelude::*;

verus! {

/// Build and install the extension, and reference it in the configuration.
pub struct Install {
    /// Where to copy the library instead of the host's extension directory.
    pub install_dir: Option<String>,
    /// The configuration file to update.
    pub ini_path: Option<String>,
    /// Reference the extension commented out.
    pub disable: bool,
    /// Build in release mode.
    pub release: bool,
    /// The project manifest to build.
    pub manifest: Option<String>,
}

/// Remove the installed extension and its configuration entry.
pub struct Remove {
    /// Where the library was copied instead of the host's extension directory.
    pub install_dir: Option<String>,
    /// The configuration file to update.
    pub ini_path: Option<String>,
    /// The project manifest that names the extension.
    pub manifest: Option<String>,
}

/// Generate a stub file from the extension's metadata.
pub struct Stubs {
    /// A library to read, instead of building the project.
    pub ext: Option<String>,
    /// Where to write the stubs.
    pub out: Option<String>,
    /// Print the stubs instead of writing them.
    pub stdout: bool,
    /// The project manifest to build.
    pub manifest: Option<String>,
}

/// A command of the tool.
pub enum Args {
    Install(Install),
    Remove(Remove),
    Stubs(Stubs),
}

/// The host runtime's default places, as its configuration helper reports
/// them.
pub struct HostPaths {
    /// The directory extensions are installed into.
    pub ext_dir: String,
    /// The main configuration file.
    pub ini: String,
}

/// Where the library that stubs are made from comes from.
pub enum StubSource {
    /// A library file given directly.
    Library(String),
    /// A debug build of the project at this manifest (or the current one).
    Build(Option<String>),
}

/// Where stubs go.
pub enum StubOutput {
    Stdout,
    File(String),
    /// `<module>.stubs.php` in the working directory.
    WorkingDir,
}

/// The work a command comes down to.
pub enum Plan {
    Install {
        manifest: Option<String>,
        release: bool,
        ext_dir: String,
        ini: Option<String>,
        enabled: bool,
    },
    Remove { manifest: Option<String>, ext_dir: String, ini: Option<String> },
    Stubs { source: StubSource, output: StubOutput },
}

/// Why a command has no plan.
#[derive(Clone, Copy, Debug, PartialEq, Eq, Structural)]
pub enum CommandError {
    /// The host's default places are needed and were not given.
    HostPathsMissing,
    /// Options that exclude each other were both given.
    ConflictingOptions,
}

/// The installation directory and configuration file: an explicit
/// directory comes with no configuration file, the host's defaults with
/// its own; an explicit configuration file wins over both.
pub open spec fn locations(
    install_dir: Option<String>,
    ini_path: Option<String>,
    host: Option<HostPaths>,
) -> Result<(String, Option<String>), CommandError> {
    match install_dir {
        Some(dir) => Ok((dir, ini_path)),
        None => match host {
            None => Err(CommandError::HostPathsMissing),
            Some(h) => Ok(
                (
                    h.ext_dir,
                    match ini_path {
                        Some(p) => Some(p),
                        None => Some(h.ini),
                    },
                ),
            ),
        },
    }
}

/// The plan of a command, given the host's defaults where they were asked.
pub open spec fn plan_of(args: Args, host: Option<HostPaths>) -> Result<Plan, CommandError> {
    match args {
        Args::Install(c) => match locations(c.install_dir, c.ini_path, host) {
            Err(e) => Err(e),
            Ok((dir, ini)) => Ok(
                Plan::Install {
                    manifest: c.manifest,
                    release: c.release,
                    ext_dir: dir,
                    ini,
                    enabled: !c.disable,
                },
            ),
        },
        Args::Remove(c) => match locations(c.install_dir, c.ini_path, host) {
            Err(e) => Err(e),
            Ok((dir, ini)) => Ok(Plan::Remove { manifest: c.manifest, ext_dir: dir, ini }),
        },
        Args::Stubs(c) => if (c.stdout && c.out is Some) || (c.ext is Some && c.manifest is Some) {
            Err(CommandError::ConflictingOptions)
        } else {
            Ok(
                Plan::Stubs {
                    source: match c.ext {
                        Some(p) => StubSource::Library(p),
                        None => StubSource::Build(c.manifest),
                    },
                    output: if c.stdout {
                        StubOutput::Stdout
                    } else {
                        match c.out {
                            Some(p) => StubOutput::File(p),
                            None => StubOutput::WorkingDir,
                        }
                    },
                },
            )
        },
    }
}

/// Whether the command needs the host's default places.
pub open spec fn wants_host_paths(args: Args) -> bool {
    match args {
        Args::Install(c) => c.install_dir is None,
        Args::Remove(c) => c.install_dir is None,
        Args::Stubs(_) => false,
    }
}

fn locate(install_dir: Option<String>, ini_path: Option<String>, host: Option<HostPaths>) -> (r:
    Result<(String, Option<String>), CommandError>)
    ensures
        r == locations(install_dir, ini_path, host),
{
    match install_dir {
        Some(dir) => Ok((dir, ini_path)),
        None => match host {
            None => Err(CommandError::HostPathsMissing),
            Some(h) => {
                let ini = match ini_path {
                    Some(p) => Some(p),
                    None => Some(h.ini),
                };
                Ok((h.ext_dir, ini))
            },
        },
    }
}

impl Args {
    /// Whether `handle` needs the host's default places for this command.
    pub fn needs_host_paths(&self) -> (r: bool)
        ensures
            r == wants_host_paths(*self),
    {
        match self {
            Args::Install(c) => c.install_dir.is_none(),
            Args::Remove(c) => c.install_dir.is_none(),
            Args::Stubs(_) => false,
        }
    }

    /// Resolves the command into the work it comes down to.
    pub fn handle(self, host: Option<HostPaths>) -> (r: Result<Plan, CommandError>)
        ensures
            r == plan_of(self, host),
    {
        match self {
            Args::Install(c) => match locate(c.install_dir, c.ini_path, host) {
                Err(e) => Err(e),
                Ok((dir, ini)) => Ok(
                    Plan::Install {
                        manifest: c.manifest,
                        release: c.release,
                        ext_dir: dir,
                        ini,
                        enabled: !c.disable,
                    },
                ),
            },
            Args::Remove(c) => match locate(c.install_dir, c.ini_path, host) {
                Err(e) => Err(e),
                Ok((dir, ini)) => Ok(Plan::Remove { manifest: c.manifest, ext_dir: dir, ini }),
            },
            Args::Stubs(c) => {
                if (c.stdout && c.out.is_some()) || (c.ext.is_some() && c.manifest.is_some()) {
                    return Err(CommandError::ConflictingOptions);
                }
                let source = match c.ext {
                    Some(p) => StubSource::Library(p),
                    None => StubSource::Build(c.manifest),
                };
                let output = if c.stdout {
                    StubOutput::Stdout
                } else {
                    match c.out {
                        Some(p) => StubOutput::File(p),
                        None => StubOutput::WorkingDir,
                    }
                };
                Ok(Plan::Stubs { source, output })
            },
        }
    }
}

/// The default name of the stub file for a module: `<module>.stubs.php`.
pub fn stub_file_name(module: &str) -> (r: String)
    ensures
        r@ == module@ + ".stubs.php"@,
{
    let mut name = String::from_str(module);
    name.append(".stubs.php");
    name
}

} // verus!
