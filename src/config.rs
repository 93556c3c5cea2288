//! Reconciling the host's line-oriented configuration file with one
//! extension, and the model of an installation that it belongs to.

use vstd::prelude::*;
use crate::text::{chars_of, occurs_in, text_contains};

verus! {

/// The directive that enables the extension installed as `file`.
pub open spec fn reference_line(file: Seq<char>) -> Seq<char> {
    "extension="@ + file
}

/// The directive, commented out: declared but not loaded.
pub open spec fn disabled_line(file: Seq<char>) -> Seq<char> {
    ";"@ + reference_line(file)
}

/// What to do with the extension's entry.
#[derive(Clone, Copy, Debug, PartialEq, Eq, Structural)]
pub enum IniAction {
    Enable,
    Disable,
    Remove,
}

/// The lines that do not mention `key`.
pub open spec fn lines_without(lines: Seq<Seq<char>>, key: Seq<char>) -> Seq<Seq<char>> {
    lines.filter(|l: Seq<char>| !occurs_in(l, key))
}

/// The lines that mention `key`.
pub open spec fn lines_with(lines: Seq<Seq<char>>, key: Seq<char>) -> Seq<Seq<char>> {
    lines.filter(|l: Seq<char>| occurs_in(l, key))
}

/// The configuration after `action` on the extension installed as `file`:
/// enabling or disabling drops every line holding the directive (commented
/// or not) and appends the new one; removing drops every line that names
/// the file.
pub open spec fn reconciled(lines: Seq<Seq<char>>, file: Seq<char>, action: IniAction) -> Seq<
    Seq<char>,
> {
    match action {
        IniAction::Enable => lines_without(lines, reference_line(file)).push(reference_line(file)),
        IniAction::Disable => lines_without(lines, reference_line(file)).push(disabled_line(file)),
        IniAction::Remove => lines_without(lines, file),
    }
}

/// The lines joined by line feeds.
pub open spec fn joined(lines: Seq<Seq<char>>) -> Seq<char>
    decreases lines.len(),
{
    if lines.len() == 0 {
        Seq::empty()
    } else if lines.len() == 1 {
        lines[0]
    } else {
        joined(lines.drop_last()) + "\n"@ + lines.last()
    }
}

/// The directive for `file`, commented out unless `enabled`.
pub fn entry_line(file: &str, enabled: bool) -> (r: String)
    ensures
        r@ == if enabled {
            reference_line(file@)
        } else {
            disabled_line(file@)
        },
{
    let mut line = String::from_str("extension=");
    line.append(file);
    if enabled {
        line
    } else {
        let mut commented = String::from_str(";");
        commented.append(line.as_str());
        commented
    }
}

/// The lines of `lines` that do not mention `key`, in their order.
pub fn retain_without(lines: &Vec<String>, key: &str) -> (r: Vec<String>)
    ensures
        r.deep_view() == lines_without(lines.deep_view(), key@),
{
    let mut out: Vec<String> = Vec::new();
    let mut i: usize = 0;
    while i < lines.len()
        invariant
            i <= lines@.len(),
            out.deep_view() == lines_without(lines.deep_view().subrange(0, i as int), key@),
        decreases lines@.len() - i,
    {
        let ghost before = out.deep_view();
        proof {
            let next = lines.deep_view().subrange(0, i + 1);
            assert(next.drop_last() =~= lines.deep_view().subrange(0, i as int));
            assert(next.last() == lines@[i as int]@);
            reveal(Seq::filter);
        }
        if !text_contains(lines[i].as_str(), key) {
            out.push(lines[i].clone());
            assert(out.deep_view() =~= before.push(lines@[i as int]@));
        }
        i = i + 1;
    }
    assert(lines.deep_view().subrange(0, lines@.len() as int) =~= lines.deep_view());
    out
}

/// The configuration lines after `action` on the extension installed as
/// `file`.
pub fn reconcile(lines: &Vec<String>, file: &str, action: IniAction) -> (r: Vec<String>)
    ensures
        r.deep_view() == reconciled(lines.deep_view(), file@, action),
{
    match action {
        IniAction::Remove => retain_without(lines, file),
        _ => {
            let reference = entry_line(file, true);
            let mut out = retain_without(lines, reference.as_str());
            let line = entry_line(file, action == IniAction::Enable);
            let ghost before = out.deep_view();
            out.push(line);
            assert(out.deep_view() =~= before.push(line@));
            out
        },
    }
}

/// The configuration file's text: the lines joined by line feeds.
pub fn render(lines: &Vec<String>) -> (r: String)
    ensures
        r@ == joined(lines.deep_view()),
{
    let mut out = String::new();
    let mut i: usize = 0;
    while i < lines.len()
        invariant
            i <= lines@.len(),
            out@ == joined(lines.deep_view().subrange(0, i as int)),
        decreases lines@.len() - i,
    {
        proof {
            let next = lines.deep_view().subrange(0, i + 1);
            assert(next.drop_last() =~= lines.deep_view().subrange(0, i as int));
        }
        if i > 0 {
            out.append("\n");
        }
        out.append(lines[i].as_str());
        i = i + 1;
    }
    assert(lines.deep_view().subrange(0, lines@.len() as int) =~= lines.deep_view());
    out
}

/// The name `name` takes as a file: hyphens become underscores.
pub open spec fn underscored(name: Seq<char>) -> Seq<char> {
    name.map_values(|c: char| if c == '-' { '_' } else { c })
}

/// The file name of an installed extension: the platform's library prefix,
/// the name with hyphens turned into underscores, and the library suffix.
pub fn installed_file_name(prefix: &str, name: &str, suffix: &str) -> (r: String)
    ensures
        r@ == prefix@ + underscored(name@) + suffix@,
{
    let chars = chars_of(name);
    let mut out = String::from_str(prefix);
    let mut i: usize = 0;
    while i < chars.len()
        invariant
            chars@ == name@,
            i <= chars@.len(),
            out@ == prefix@ + underscored(name@.subrange(0, i as int)),
        decreases chars@.len() - i,
    {
        proof {
            reveal_strlit("_");
        }
        if chars[i] == '-' {
            out.append("_");
        } else {
            out.append(name.substring_char(i, i + 1));
        }
        assert(underscored(name@.subrange(0, i + 1)) =~= underscored(name@.subrange(0, i as int))
            + underscored(name@.subrange(i as int, i + 1)));
        assert(out@ =~= prefix@ + underscored(name@.subrange(0, i + 1)));
        i = i + 1;
    }
    assert(name@.subrange(0, chars@.len() as int) =~= name@);
    out.append(suffix);
    out
}

/// Why a removal cannot go ahead.
#[derive(Clone, Copy, Debug, PartialEq, Eq, Structural)]
pub enum RemoveError {
    /// No library file is installed at the expected place.
    NotInstalled,
}

/// An extension's installation: whether its library file is present, and
/// the lines of the host's configuration file.
pub struct Installation {
    pub library_present: bool,
    pub config: Vec<String>,
}

/// The abstract state of an installation.
pub struct InstallationView {
    pub library_present: bool,
    pub config: Seq<Seq<char>>,
}

impl View for Installation {
    type V = InstallationView;

    open spec fn view(&self) -> InstallationView {
        InstallationView { library_present: self.library_present, config: self.config.deep_view() }
    }
}

/// The state after installing the library `file` and writing its directive,
/// enabled or not.
pub open spec fn installed(s: InstallationView, file: Seq<char>, enabled: bool) -> InstallationView {
    InstallationView {
        library_present: true,
        config: reconciled(
            s.config,
            file,
            if enabled {
                IniAction::Enable
            } else {
                IniAction::Disable
            },
        ),
    }
}

/// The state after removing `file`: refused when no library is installed.
pub open spec fn removed(s: InstallationView, file: Seq<char>) -> Result<
    InstallationView,
    RemoveError,
> {
    if !s.library_present {
        Err(RemoveError::NotInstalled)
    } else {
        Ok(InstallationView { library_present: false, config: reconciled(s.config, file, IniAction::Remove) })
    }
}

impl Installation {
    /// Installs the library `file` and writes its directive, commented out
    /// unless `enabled`.
    pub fn install(&mut self, file: &str, enabled: bool)
        ensures
            final(self)@ == installed(old(self)@, file@, enabled),
    {
        let action = if enabled {
            IniAction::Enable
        } else {
            IniAction::Disable
        };
        self.config = reconcile(&self.config, file, action);
        self.library_present = true;
    }

    /// Removes the library `file` and every line that names it; fails, and
    /// changes nothing, when the library is not installed.
    pub fn remove(&mut self, file: &str) -> (r: Result<(), RemoveError>)
        ensures
            match removed(old(self)@, file@) {
                Ok(s) => r is Ok && final(self)@ == s,
                Err(e) => r == Err::<(), RemoveError>(e) && final(self)@ == old(self)@,
            },
    {
        if !self.library_present {
            return Err(RemoveError::NotInstalled);
        }
        self.config = reconcile(&self.config, file, IniAction::Remove);
        self.library_present = false;
        Ok(())
    }
}

proof fn lemma_occurs_in_self(key: Seq<char>)
    ensures
        occurs_in(key, key),
{
    assert(key.subrange(0int, 0int + key.len()) =~= key);
}

proof fn lemma_occurs_in_disabled(file: Seq<char>)
    ensures
        occurs_in(disabled_line(file), reference_line(file)),
{
    reveal_strlit(";");
    let d = disabled_line(file);
    let r = reference_line(file);
    assert(d.subrange(1int, 1int + r.len()) =~= r);
}

/// Dropping the lines that mention `key` twice drops no more than once, and
/// leaves no line that mentions it.
proof fn lemma_without(lines: Seq<Seq<char>>, key: Seq<char>)
    ensures
        lines_without(lines_without(lines, key), key) == lines_without(lines, key),
        lines_with(lines_without(lines, key), key) == Seq::<Seq<char>>::empty(),
    decreases lines.len(),
{
    reveal(Seq::filter);
    if lines.len() > 0 {
        let rest = lines.drop_last();
        lemma_without(rest, key);
        if !occurs_in(lines.last(), key) {
            let w = lines_without(lines, key);
            assert(w =~= lines_without(rest, key).push(lines.last()));
            assert(w.drop_last() =~= lines_without(rest, key));
        }
    }
}

/// Appending a line that mentions `key` to lines that do not.
proof fn lemma_push_mentioning(kept: Seq<Seq<char>>, line: Seq<char>, key: Seq<char>)
    requires
        occurs_in(line, key),
    ensures
        lines_without(kept.push(line), key) == lines_without(kept, key),
        lines_with(kept.push(line), key) == lines_with(kept, key).push(line),
{
    reveal(Seq::filter);
    assert(kept.push(line).drop_last() =~= kept);
}

/// After an enable or a disable exactly one line holds the directive, in
/// the requested form; after a removal no line names the file.
pub proof fn reconcile_leaves_one_entry(lines: Seq<Seq<char>>, file: Seq<char>)
    ensures
        lines_with(reconciled(lines, file, IniAction::Enable), reference_line(file)) == seq![
            reference_line(file),
        ],
        lines_with(reconciled(lines, file, IniAction::Disable), reference_line(file)) == seq![
            disabled_line(file),
        ],
        lines_with(reconciled(lines, file, IniAction::Remove), file) == Seq::<Seq<char>>::empty(),
{
    let r = reference_line(file);
    let kept = lines_without(lines, r);
    lemma_without(lines, r);
    lemma_without(lines, file);
    lemma_occurs_in_self(r);
    lemma_occurs_in_disabled(file);
    lemma_push_mentioning(kept, r, r);
    lemma_push_mentioning(kept, disabled_line(file), r);
    assert(Seq::<Seq<char>>::empty().push(r) =~= seq![r]);
    assert(Seq::<Seq<char>>::empty().push(disabled_line(file)) =~= seq![disabled_line(file)]);
}

/// Enabling an entry that is already enabled changes nothing.
pub proof fn enable_is_idempotent(lines: Seq<Seq<char>>, file: Seq<char>)
    ensures
        reconciled(reconciled(lines, file, IniAction::Enable), file, IniAction::Enable)
            == reconciled(lines, file, IniAction::Enable),
{
    let r = reference_line(file);
    lemma_without(lines, r);
    lemma_occurs_in_self(r);
    lemma_push_mentioning(lines_without(lines, r), r, r);
}

/// Enable, then disable, then enable again gives what one enable gives; on
/// an empty file, exactly the enabled directive.
pub proof fn enable_disable_enable(lines: Seq<Seq<char>>, file: Seq<char>)
    ensures
        reconciled(
            reconciled(reconciled(lines, file, IniAction::Enable), file, IniAction::Disable),
            file,
            IniAction::Enable,
        ) == reconciled(lines, file, IniAction::Enable),
        reconciled(
            reconciled(
                reconciled(Seq::<Seq<char>>::empty(), file, IniAction::Enable),
                file,
                IniAction::Disable,
            ),
            file,
            IniAction::Enable,
        ) == seq![reference_line(file)],
{
    let r = reference_line(file);
    lemma_without(lines, r);
    lemma_occurs_in_self(r);
    lemma_occurs_in_disabled(file);
    let kept = lines_without(lines, r);
    lemma_push_mentioning(kept, r, r);
    lemma_push_mentioning(kept, disabled_line(file), r);
    reveal(Seq::filter);
    let e: Seq<Seq<char>> = Seq::empty();
    assert(lines_without(e, r) =~= e);
    lemma_push_mentioning(e, r, r);
    lemma_push_mentioning(e, disabled_line(file), r);
    assert(e.push(r) =~= seq![r]);
}

/// A second removal in a row is refused: the first took the library away.
pub proof fn remove_twice_fails(s: InstallationView, file: Seq<char>)
    requires
        removed(s, file) is Ok,
    ensures
        removed(removed(s, file)->Ok_0, file) == Err::<InstallationView, RemoveError>(
            RemoveError::NotInstalled,
        ),
{
}

} // verus!
