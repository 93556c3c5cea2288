//! Correlating a compiler's progress events with the requested target.

use vstd::prelude::*;
use crate::target::{BuildTarget, TargetView, copy_strings};

verus! {

/// One message of the compiler's progress stream.
pub enum BuildEvent {
    /// A target was compiled into these files.
    ArtifactProduced { target: BuildTarget, files: Vec<String> },
    /// The build ended, successfully or not.
    BuildFinished { success: bool },
    /// Anything else.
    Other,
}

/// Why a build gave no library path.
#[derive(Clone, Copy, Debug, PartialEq, Eq, Structural)]
pub enum BuildError {
    /// The compiler reported that the build failed.
    CompilationFailed,
    /// No artifact of the requested target was reported.
    ArtifactNotProduced,
    /// The artifact holds no file with the dynamic-library extension.
    LibraryPathNotFound,
}

/// Where a scan of the event stream stands.
#[derive(Clone, Copy, Debug, PartialEq, Eq, Structural)]
pub enum ScanStatus {
    /// More events are wanted.
    Running,
    /// The build ended successfully: later events are not read.
    Finished,
    /// The build failed: later events are not read.
    Failed,
}

/// The abstract state of a scan: the files of the last matching artifact,
/// and the status.
pub struct ScanState {
    pub artifact: Option<Seq<Seq<char>>>,
    pub status: ScanStatus,
}

/// The extension of a path, as the file-path library computes it.
pub uninterp spec fn extension_of(path: Seq<char>) -> Option<Seq<char>>;

/// Relies on `camino::Utf8Path::extension` (through `cargo_metadata::camino`):
/// the extension depends on the path's text alone.
#[verifier::external_body]
fn path_extension(path: &str) -> (r: Option<String>)
    ensures
        match r {
            Some(e) => extension_of(path@) == Some(e@),
            None => extension_of(path@) is None,
        },
{
    cargo_metadata::camino::Utf8Path::new(path).extension().map(|e| e.to_string())
}

/// The state before any event.
pub open spec fn initial_state() -> ScanState {
    ScanState { artifact: None, status: ScanStatus::Running }
}

/// The state after one more event: a matching artifact replaces the one
/// recorded; the end of the build fixes the status; a stopped scan ignores
/// everything.
pub open spec fn scan_step(target: TargetView, s: ScanState, e: BuildEvent) -> ScanState {
    if s.status != ScanStatus::Running {
        s
    } else {
        match e {
            BuildEvent::ArtifactProduced { target: t, files } => if t@ == target {
                ScanState { artifact: Some(files.deep_view()), status: s.status }
            } else {
                s
            },
            BuildEvent::BuildFinished { success } => ScanState {
                artifact: s.artifact,
                status: if success {
                    ScanStatus::Finished
                } else {
                    ScanStatus::Failed
                },
            },
            BuildEvent::Other => s,
        }
    }
}

/// The state after all of `events`.
pub open spec fn scan_all(target: TargetView, events: Seq<BuildEvent>) -> ScanState
    decreases events.len(),
{
    if events.len() == 0 {
        initial_state()
    } else {
        scan_step(target, scan_all(target, events.drop_last()), events.last())
    }
}

/// `i` is the first index whose extension is `ext`.
pub open spec fn is_first_with(exts: Seq<Option<Seq<char>>>, ext: Seq<char>, i: int) -> bool {
    &&& 0 <= i < exts.len()
    &&& exts[i] == Some(ext)
    &&& forall|j: int| 0 <= j < i ==> exts[j] != Some(ext)
}

/// The extensions of a list of paths.
pub open spec fn extensions(files: Seq<Seq<char>>) -> Seq<Option<Seq<char>>> {
    files.map_values(|f: Seq<char>| extension_of(f))
}

/// The first of `files` whose extension is `ext`.
pub open spec fn library_file(files: Seq<Seq<char>>, ext: Seq<char>) -> Result<
    Seq<char>,
    BuildError,
> {
    if exists|i: int| is_first_with(extensions(files), ext, i) {
        Ok(files[choose|i: int| is_first_with(extensions(files), ext, i)])
    } else {
        Err(BuildError::LibraryPathNotFound)
    }
}

/// What a scan that stopped in state `s` yields.
pub open spec fn scan_result(s: ScanState, ext: Seq<char>) -> Result<Seq<char>, BuildError> {
    if s.status == ScanStatus::Failed {
        Err(BuildError::CompilationFailed)
    } else {
        match s.artifact {
            None => Err(BuildError::ArtifactNotProduced),
            Some(files) => library_file(files, ext),
        }
    }
}

/// What a build with these events yields for `target`.
pub open spec fn build_outcome(target: TargetView, events: Seq<BuildEvent>, ext: Seq<char>) -> Result<
    Seq<char>,
    BuildError,
> {
    scan_result(scan_all(target, events), ext)
}

/// A path result seen through the view of its path.
pub open spec fn path_view<E>(r: Result<String, E>) -> Result<Seq<char>, E> {
    match r {
        Ok(p) => Ok(p@),
        Err(e) => Err(e),
    }
}

proof fn lemma_first_unique(exts: Seq<Option<Seq<char>>>, ext: Seq<char>, i: int, j: int)
    requires
        is_first_with(exts, ext, i),
        is_first_with(exts, ext, j),
    ensures
        i == j,
{
}

/// The index of the first of `exts` that is `Some(dll_ext)`.
pub fn first_with_extension(exts: &Vec<Option<String>>, dll_ext: &str) -> (r: Option<usize>)
    ensures
        match r {
            Some(i) => is_first_with(exts.deep_view(), dll_ext@, i as int),
            None => forall|k: int| 0 <= k < exts@.len() ==> exts.deep_view()[k] != Some(dll_ext@),
        },
{
    let mut i: usize = 0;
    while i < exts.len()
        invariant
            i <= exts@.len(),
            forall|k: int| 0 <= k < i ==> exts.deep_view()[k] != Some(dll_ext@),
        decreases exts@.len() - i,
    {
        match &exts[i] {
            Some(e) => {
                if crate::text::same_text(e.as_str(), dll_ext) {
                    return Some(i);
                }
            },
            None => {},
        }
        i = i + 1;
    }
    None
}

/// The first of `files` whose extension is `dll_ext`.
pub fn locate_library(files: &Vec<String>, dll_ext: &str) -> (r: Result<String, BuildError>)
    ensures
        path_view(r) == library_file(files.deep_view(), dll_ext@),
{
    let mut exts: Vec<Option<String>> = Vec::new();
    let mut i: usize = 0;
    while i < files.len()
        invariant
            i <= files@.len(),
            exts.deep_view() == extensions(files.deep_view()).subrange(0, i as int),
        decreases files@.len() - i,
    {
        let e = path_extension(files[i].as_str());
        let ghost before = exts.deep_view();
        assert(e.deep_view() == extension_of(files.deep_view()[i as int]));
        exts.push(e);
        assert(exts.deep_view() =~= before.push(e.deep_view()));
        assert(exts.deep_view() =~= extensions(files.deep_view()).subrange(0, i + 1));
        i = i + 1;
    }
    assert(exts.deep_view() =~= extensions(files.deep_view()));
    match first_with_extension(&exts, dll_ext) {
        Some(k) => {
            proof {
                let ex = extensions(files.deep_view());
                let c = choose|j: int| is_first_with(ex, dll_ext@, j);
                lemma_first_unique(ex, dll_ext@, k as int, c);
            }
            Ok(files[k].clone())
        },
        None => Err(BuildError::LibraryPathNotFound),
    }
}

/// A scan of one build's event stream for the artifact of one target.
pub struct BuildScan {
    pub target: BuildTarget,
    pub artifact: Option<Vec<String>>,
    pub status: ScanStatus,
}

impl BuildScan {
    /// The abstract state of this scan.
    pub open spec fn state(&self) -> ScanState {
        ScanState {
            artifact: match self.artifact {
                Some(files) => Some(files.deep_view()),
                None => None,
            },
            status: self.status,
        }
    }

    /// A scan for `target` that has seen no event yet.
    pub fn new(target: BuildTarget) -> (r: BuildScan)
        ensures
            r.target@ == target@,
            r.state() == initial_state(),
    {
        BuildScan { target, artifact: None, status: ScanStatus::Running }
    }

    /// Takes one event into account and says whether more are wanted.
    pub fn observe(&mut self, event: &BuildEvent) -> (r: ScanStatus)
        ensures
            final(self).target@ == old(self).target@,
            final(self).state() == scan_step(old(self).target@, old(self).state(), *event),
            r == final(self).status,
    {
        if self.status == ScanStatus::Running {
            match event {
                BuildEvent::ArtifactProduced { target, files } => {
                    if target.same_as(&self.target) {
                        self.artifact = Some(copy_strings(files));
                    }
                },
                BuildEvent::BuildFinished { success } => {
                    self.status = if *success {
                        ScanStatus::Finished
                    } else {
                        ScanStatus::Failed
                    };
                },
                BuildEvent::Other => {},
            }
        }
        self.status
    }

    /// The library path that the scan yields, with `dll_ext` the platform's
    /// dynamic-library extension.
    pub fn finish(&self, dll_ext: &str) -> (r: Result<String, BuildError>)
        ensures
            path_view(r) == scan_result(self.state(), dll_ext@),
    {
        if self.status == ScanStatus::Failed {
            return Err(BuildError::CompilationFailed);
        }
        match &self.artifact {
            None => Err(BuildError::ArtifactNotProduced),
            Some(files) => locate_library(files, dll_ext),
        }
    }
}

/// Once a scan has stopped, later events change nothing.
proof fn lemma_stopped_stays(target: TargetView, events: Seq<BuildEvent>, i: int)
    requires
        0 <= i <= events.len(),
        scan_all(target, events.subrange(0, i)).status != ScanStatus::Running,
    ensures
        scan_all(target, events) == scan_all(target, events.subrange(0, i)),
    decreases events.len(),
{
    if events.len() == i {
        assert(events.subrange(0, i) =~= events);
    } else {
        let rest = events.drop_last();
        assert(rest.subrange(0, i) =~= events.subrange(0, i));
        lemma_stopped_stays(target, rest, i);
    }
}

/// Without an end-of-build event the scan is still running.
proof fn lemma_running_without_finish(target: TargetView, events: Seq<BuildEvent>)
    requires
        forall|j: int| 0 <= j < events.len() ==> !(#[trigger] events[j] is BuildFinished),
    ensures
        scan_all(target, events).status == ScanStatus::Running,
    decreases events.len(),
{
    if events.len() > 0 {
        let rest = events.drop_last();
        assert forall|j: int| 0 <= j < rest.len() implies !(#[trigger] rest[j] is BuildFinished) by {
            assert(rest[j] == events[j]);
        }
        lemma_running_without_finish(target, rest);
    }
}

/// The library path that a build with `events` yields for `target`: the
/// stream is read up to its first end-of-build event.
pub fn correlate_build(target: &BuildTarget, events: &Vec<BuildEvent>, dll_ext: &str) -> (r: Result<
    String,
    BuildError,
>)
    ensures
        path_view(r) == build_outcome(target@, events@, dll_ext@),
{
    let mut scan = BuildScan::new(target.duplicate());
    let mut i: usize = 0;
    while i < events.len()
        invariant
            i <= events@.len(),
            scan.target@ == target@,
            scan.state() == scan_all(target@, events@.subrange(0, i as int)),
            scan.status == ScanStatus::Running,
        decreases events@.len() - i,
    {
        let status = scan.observe(&events[i]);
        proof {
            assert(events@.subrange(0, i + 1).drop_last() =~= events@.subrange(0, i as int));
        }
        i = i + 1;
        if status != ScanStatus::Running {
            proof {
                lemma_stopped_stays(target@, events@, i as int);
            }
            return scan.finish(dll_ext);
        }
    }
    assert(events@.subrange(0, i as int) =~= events@);
    scan.finish(dll_ext)
}

/// A failed end of build decides the outcome, whatever artifacts came
/// before it: the build yields a compilation failure.
pub proof fn failure_takes_precedence(target: TargetView, events: Seq<BuildEvent>, k: int, ext: Seq<char>)
    requires
        0 <= k < events.len(),
        events[k] == (BuildEvent::BuildFinished { success: false }),
        forall|j: int| 0 <= j < k ==> !(#[trigger] events[j] is BuildFinished),
    ensures
        build_outcome(target, events, ext) == Err::<Seq<char>, BuildError>(
            BuildError::CompilationFailed,
        ),
{
    let pre = events.subrange(0, k);
    assert forall|j: int| 0 <= j < pre.len() implies !(#[trigger] pre[j] is BuildFinished) by {
        assert(pre[j] == events[j]);
    }
    lemma_running_without_finish(target, pre);
    assert(events.subrange(0, k + 1).drop_last() =~= pre);
    lemma_stopped_stays(target, events, k + 1);
}

/// Artifacts are matched to the requested target: with an artifact of `a`
/// then one of `b` then a successful end, asking for `b` yields the library
/// file among `b`'s files; with only `b`'s artifact, asking for `a` yields
/// that no artifact was produced.
pub proof fn artifacts_follow_their_target(
    a: BuildTarget,
    b: BuildTarget,
    a_files: Vec<String>,
    b_files: Vec<String>,
    ext: Seq<char>,
)
    requires
        a@ != b@,
    ensures
        build_outcome(
            b@,
            seq![
                BuildEvent::ArtifactProduced { target: a, files: a_files },
                BuildEvent::ArtifactProduced { target: b, files: b_files },
                BuildEvent::BuildFinished { success: true },
            ],
            ext,
        ) == library_file(b_files.deep_view(), ext),
        build_outcome(
            a@,
            seq![
                BuildEvent::ArtifactProduced { target: b, files: b_files },
                BuildEvent::BuildFinished { success: true },
            ],
            ext,
        ) == Err::<Seq<char>, BuildError>(BuildError::ArtifactNotProduced),
{
    let ea = BuildEvent::ArtifactProduced { target: a, files: a_files };
    let eb = BuildEvent::ArtifactProduced { target: b, files: b_files };
    let ef = BuildEvent::BuildFinished { success: true };
    let three = seq![ea, eb, ef];
    let two = seq![eb, ef];
    assert(three.drop_last() =~= seq![ea, eb]);
    assert(seq![ea, eb].drop_last() =~= seq![ea]);
    assert(seq![ea].drop_last() =~= Seq::<BuildEvent>::empty());
    assert(two.drop_last() =~= seq![eb]);
    assert(seq![eb].drop_last() =~= Seq::<BuildEvent>::empty());
    reveal_with_fuel(scan_all, 4);
}

} // verus!
