//! Build targets of a project and the choice of the one library to build.

use vstd::prelude::*;
use crate::text::same_text;

verus! {

/// One compilable target of a project, as the build metadata describes it.
pub struct BuildTarget {
    pub name: String,
    pub kind: Vec<String>,
    pub crate_types: Vec<String>,
    pub src_path: String,
}

/// What identifies a target: all of its fields, as character sequences.
pub struct TargetView {
    pub name: Seq<char>,
    pub kind: Seq<Seq<char>>,
    pub crate_types: Seq<Seq<char>>,
    pub src_path: Seq<char>,
}

impl View for BuildTarget {
    type V = TargetView;

    open spec fn view(&self) -> TargetView {
        TargetView {
            name: self.name@,
            kind: self.kind.deep_view(),
            crate_types: self.crate_types.deep_view(),
            src_path: self.src_path@,
        }
    }
}

/// A crate type whose output the host can load as a shared library.
pub open spec fn is_loadable_type(ty: Seq<char>) -> bool {
    ty == "dylib"@ || ty == "cdylib"@
}

/// The target produces a dynamically loadable library.
pub open spec fn is_library(t: TargetView) -> bool {
    exists|i: int| 0 <= i < t.crate_types.len() && is_loadable_type(#[trigger] t.crate_types[i])
}

/// The views of a sequence of targets.
pub open spec fn views_of(ts: Seq<BuildTarget>) -> Seq<TargetView> {
    ts.map_values(|t: BuildTarget| t@)
}

/// The library targets among `ts`, in their order.
pub open spec fn library_views(ts: Seq<TargetView>) -> Seq<TargetView> {
    ts.filter(|t: TargetView| is_library(t))
}

/// Why no target could be chosen.
#[derive(Clone, Copy, Debug, PartialEq, Eq, Structural)]
pub enum ResolveError {
    /// The project declares no library target.
    NoLibraryTarget,
    /// Several library targets exist and no choice was given.
    SelectionRequired,
    /// The choice given is not an index into the library targets.
    SelectionOutOfRange,
}

/// What resolution yields, given the library targets and the choice.
pub open spec fn resolution(
    libs: Seq<TargetView>,
    choice: Option<usize>,
) -> Result<TargetView, ResolveError> {
    if libs.len() == 0 {
        Err(ResolveError::NoLibraryTarget)
    } else if libs.len() == 1 {
        Ok(libs[0])
    } else {
        match choice {
            None => Err(ResolveError::SelectionRequired),
            Some(i) => if i < libs.len() {
                Ok(libs[i as int])
            } else {
                Err(ResolveError::SelectionOutOfRange)
            },
        }
    }
}

/// The result of a resolution, seen through the targets' views.
pub open spec fn resolution_view(r: Result<BuildTarget, ResolveError>) -> Result<
    TargetView,
    ResolveError,
> {
    match r {
        Ok(t) => Ok(t@),
        Err(e) => Err(e),
    }
}

/// A copy of a list of strings.
pub fn copy_strings(v: &Vec<String>) -> (r: Vec<String>)
    ensures
        r@ == v@,
        r.deep_view() == v.deep_view(),
{
    let mut out: Vec<String> = Vec::new();
    let mut i: usize = 0;
    while i < v.len()
        invariant
            i <= v@.len(),
            out@ == v@.subrange(0, i as int),
        decreases v@.len() - i,
    {
        out.push(v[i].clone());
        i = i + 1;
    }
    assert(out@ =~= v@);
    assert(out.deep_view() =~= v.deep_view());
    out
}

impl BuildTarget {
    /// A copy of this target with the same identity.
    pub fn duplicate(&self) -> (r: BuildTarget)
        ensures
            r@ == self@,
    {
        BuildTarget {
            name: self.name.clone(),
            kind: copy_strings(&self.kind),
            crate_types: copy_strings(&self.crate_types),
            src_path: self.src_path.clone(),
        }
    }

    /// Whether `self` and `other` name the same target.
    pub fn same_as(&self, other: &BuildTarget) -> (r: bool)
        ensures
            r == (self@ == other@),
    {
        same_text(self.name.as_str(), other.name.as_str()) && same_strings(&self.kind, &other.kind)
            && same_strings(&self.crate_types, &other.crate_types) && same_text(
            self.src_path.as_str(),
            other.src_path.as_str(),
        )
    }

    /// Whether this target produces a dynamically loadable library.
    pub fn is_library(&self) -> (r: bool)
        ensures
            r == is_library(self@),
    {
        let mut i: usize = 0;
        while i < self.crate_types.len()
            invariant
                i <= self.crate_types@.len(),
                forall|k: int|
                    0 <= k < i ==> !is_loadable_type(#[trigger] self@.crate_types[k]),
            decreases self.crate_types@.len() - i,
        {
            let ty = self.crate_types[i].as_str();
            if same_text(ty, "dylib") || same_text(ty, "cdylib") {
                assert(is_loadable_type(self@.crate_types[i as int]));
                return true;
            }
            i = i + 1;
        }
        false
    }
}

/// Whether two lists of strings hold the same strings in the same order.
pub fn same_strings(a: &Vec<String>, b: &Vec<String>) -> (r: bool)
    ensures
        r == (a.deep_view() == b.deep_view()),
{
    if a.len() != b.len() {
        assert(a.deep_view().len() != b.deep_view().len());
        return false;
    }
    let mut i: usize = 0;
    while i < a.len()
        invariant
            a@.len() == b@.len(),
            i <= a@.len(),
            forall|k: int| 0 <= k < i ==> a@[k]@ == b@[k]@,
        decreases a@.len() - i,
    {
        if !same_text(a[i].as_str(), b[i].as_str()) {
            assert(a.deep_view()[i as int] != b.deep_view()[i as int]);
            return false;
        }
        i = i + 1;
    }
    assert(a.deep_view() =~= b.deep_view());
    true
}

/// The targets of `targets` that produce a loadable library, in their order.
pub fn library_targets(targets: &Vec<BuildTarget>) -> (r: Vec<BuildTarget>)
    ensures
        views_of(r@) == library_views(views_of(targets@)),
{
    let mut out: Vec<BuildTarget> = Vec::new();
    let mut i: usize = 0;
    while i < targets.len()
        invariant
            i <= targets@.len(),
            views_of(out@) == library_views(views_of(targets@.subrange(0, i as int))),
        decreases targets@.len() - i,
    {
        let t = &targets[i];
        let ghost before = out@;
        proof {
            let pre = targets@.subrange(0, i as int);
            let next = targets@.subrange(0, i + 1);
            assert(views_of(next).drop_last() =~= views_of(pre));
            assert(views_of(next).last() == t@);
            reveal(Seq::filter);
        }
        if t.is_library() {
            out.push(t.duplicate());
            assert(views_of(out@) =~= views_of(before).push(t@));
        }
        i = i + 1;
    }
    assert(targets@.subrange(0, targets@.len() as int) =~= targets@);
    out
}

/// Picks the one library target to build: the only one if there is one, else
/// the one at `choice` among the library targets.
pub fn resolve_target(targets: &Vec<BuildTarget>, choice: Option<usize>) -> (r: Result<
    BuildTarget,
    ResolveError,
>)
    ensures
        resolution_view(r) == resolution(library_views(views_of(targets@)), choice),
{
    let libs = library_targets(targets);
    proof {
        assert(views_of(libs@).len() == libs@.len());
    }
    if libs.len() == 0 {
        Err(ResolveError::NoLibraryTarget)
    } else if libs.len() == 1 {
        assert(views_of(libs@)[0] == libs@[0]@);
        Ok(libs[0].duplicate())
    } else {
        match choice {
            None => Err(ResolveError::SelectionRequired),
            Some(i) => {
                if i < libs.len() {
                    assert(views_of(libs@)[i as int] == libs@[i as int]@);
                    Ok(libs[i].duplicate())
                } else {
                    Err(ResolveError::SelectionOutOfRange)
                }
            },
        }
    }
}

/// Resolution fails with no library target whatever the choice; with one,
/// that one is returned whatever the choice; with several, the chosen one.
pub proof fn resolution_follows_count(targets: Seq<BuildTarget>, choice: Option<usize>)
    ensures
        library_views(views_of(targets)).len() == 0 ==> resolution(
            library_views(views_of(targets)),
            choice,
        ) == Err::<TargetView, ResolveError>(ResolveError::NoLibraryTarget),
        library_views(views_of(targets)).len() == 1 ==> resolution(
            library_views(views_of(targets)),
            choice,
        ) == Ok::<TargetView, ResolveError>(library_views(views_of(targets))[0]),
        forall|i: usize|
            library_views(views_of(targets)).len() > 1 && i < library_views(views_of(targets)).len()
                ==> #[trigger] resolution(library_views(views_of(targets)), Some(i)) == Ok::<
                TargetView,
                ResolveError,
            >(library_views(views_of(targets))[i as int]),
{
}

} // verus!
