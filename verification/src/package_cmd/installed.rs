//! Commands on installed packs.

use crate::assoc::{find_key, has_key, key_index, key_list, keys, lookup};
use crate::error::{ErrorView, NonoError};
use crate::json::{
    add_element, elements, field, json_array, json_object, json_opt_text, json_text, no_members,
    opt_text, put_field, Json, JsonView,
};
use crate::package::{
    parse_package_ref, parsed_ref, remove_package_from_lockfile, LockedPackage, Lockfile,
    PackageRef, PackageRefView, PackageSearchResult, PackageStatusResponse,
};
use crate::text::{
    chars_of, concat2, concat3, concat4, concat5, concat6, concat7, concat8, copy_str, decimal,
    extend_strings, find_first, first_index, from_chars, lemma_first_index, opt_view, pad_right, padded, push_copy, str_eq,
    sub_chars, usize_to_string, views,
};
use vstd::prelude::*;

verus! {

// ---------------------------------------------------------------------------
// Removing
// ---------------------------------------------------------------------------

/// A pack that is neither in the lockfile nor on disk cannot be removed.
pub fn check_removable(package_ref: &PackageRef, locked: bool, on_disk: bool) -> (r: Result<
    (),
    NonoError,
>)
    ensures
        r is Ok <==> locked || on_disk,
        r is Err ==> (r->Err_0)@ == ErrorView::PackageInstall(
            "package "@ + package_ref@.key() + " is not installed"@,
        ),
{
    if locked || on_disk {
        return Ok(());
    }
    let key = package_ref.key();
    Err(NonoError::PackageInstall(concat3("package ", key.as_str(), " is not installed")))
}

/// What is said after the installation steps of a pack were undone.
#[derive(Debug)]
pub struct ReversalReport {
    pub summary: String,
    /// A line for the case that the pack is removed although some steps could not be undone.
    pub forced: Option<String>,
}

pub open spec fn reversal_summary(total: nat, failures: nat) -> Seq<char> {
    "  reversed "@ + decimal(
        if failures <= total {
            (total - failures) as nat
        } else {
            0
        },
    ) + "/"@ + decimal(total) + " wiring directive(s)"@
}

/// What is said of undoing the steps of a pack.
pub fn reversal_report(total: usize, failures: usize, force: bool) -> (r: ReversalReport)
    ensures
        r.summary@ == reversal_summary(total as nat, failures as nat),
        r.forced is Some <==> failures > 0 && force,
        r.forced is Some ==> (r.forced->0)@ == "  --force: dropping lockfile entry despite "@
            + decimal(failures as nat) + " failed reversal(s)"@,
{
    let succeeded: usize = if failures <= total {
        total - failures
    } else {
        0
    };
    let a = usize_to_string(succeeded);
    let b = usize_to_string(total);
    let summary = concat5("  reversed ", a.as_str(), "/", b.as_str(), " wiring directive(s)");
    let forced = if failures > 0 && force {
        let n = usize_to_string(failures);
        Some(
            concat3(
                "  --force: dropping lockfile entry despite ",
                n.as_str(),
                " failed reversal(s)",
            ),
        )
    } else {
        None
    };
    ReversalReport { summary, forced }
}

/// Whether the removal goes on after its steps were undone.
pub fn check_reversal(package_ref: &PackageRef, failures: usize, force: bool) -> (r: Result<
    (),
    NonoError,
>)
    ensures
        r is Ok <==> failures == 0 || force,
        r is Err ==> (r->Err_0)@ == ErrorView::PackageInstall(
            "remove of "@ + package_ref@.key() + " aborted — "@ + decimal(failures as nat)
                + " wiring directive(s) failed to reverse. The lockfile entry has been preserved so you can retry. Inspect the failures above and either resolve them and re-run, or pass --force to drop the lockfile entry and accept any orphaned wiring."@,
        ),
{
    if failures == 0 || force {
        return Ok(());
    }
    let key = package_ref.key();
    let n = usize_to_string(failures);
    Err(
        NonoError::PackageInstall(
            concat5(
                "remove of ",
                key.as_str(),
                " aborted — ",
                n.as_str(),
                " wiring directive(s) failed to reverse. The lockfile entry has been preserved so you can retry. Inspect the failures above and either resolve them and re-run, or pass --force to drop the lockfile entry and accept any orphaned wiring.",
            ),
        ),
    )
}

/// The steps of a pack that are undone before it is removed.
pub open spec fn undone_steps(packages: Seq<(String, LockedPackage)>, key: Seq<char>) -> nat {
    match lookup(packages, key) {
        Some(p) => p.wiring_record@.len(),
        None => 0,
    }
}

/// Why a pack is not removed: the text names none, it is not installed, or some of its steps could
/// not be undone.
pub open spec fn removal_failure(
    packages: Seq<(String, LockedPackage)>,
    input: Seq<char>,
    on_disk: bool,
    failures: nat,
    force: bool,
) -> Option<ErrorView> {
    match parsed_ref(input) {
        Err(e) => Some(e),
        Ok(p) => if !has_key(packages, p.key()) && !on_disk {
            Some(ErrorView::PackageInstall("package "@ + p.key() + " is not installed"@))
        } else if undone_steps(packages, p.key()) > 0 && failures > 0 && !force {
            Some(
                ErrorView::PackageInstall(
                    "remove of "@ + p.key() + " aborted — "@ + decimal(failures)
                        + " wiring directive(s) failed to reverse. The lockfile entry has been preserved so you can retry. Inspect the failures above and either resolve them and re-run, or pass --force to drop the lockfile entry and accept any orphaned wiring."@,
                ),
            )
        } else {
            None
        },
    }
}

/// Removes a pack from the lockfile, once its files are looked for and its steps are undone. With
/// what is said of undoing them, where there were any. A removal that fails changes nothing.
pub fn run_remove(
    lockfile: &mut Lockfile,
    input: &str,
    on_disk: bool,
    failures: usize,
    force: bool,
) -> (r: (Option<ReversalReport>, Result<String, NonoError>))
    requires
        old(lockfile).wf(),
    ensures
        final(lockfile).wf(),
        ({
            let before = old(lockfile).packages@;
            let failure = removal_failure(before, input@, on_disk, failures as nat, force);
            let key = (parsed_ref(input@)->Ok_0).key();
            &&& match r.1 {
                Ok(line) => {
                    &&& failure is None
                    &&& line@ == "Removed "@ + key
                    &&& !has_key(final(lockfile).packages@, key)
                    &&& final(lockfile).packages@ == if has_key(before, key) {
                        before.remove(key_index(before, key))
                    } else {
                        before
                    }
                    &&& final(lockfile).registry == old(lockfile).registry
                },
                Err(e) => failure == Some(e@) && *final(lockfile) == *old(lockfile),
            }
            &&& r.0 is Some <==> parsed_ref(input@) is Ok && undone_steps(before, key) > 0
            &&& r.0 is Some ==> (r.0->0).summary@ == reversal_summary(
                undone_steps(before, key),
                failures as nat,
            )
            &&& r.0 is Some ==> ((r.0->0).forced is Some <==> failures > 0 && force)
            &&& r.0 is Some && (r.0->0).forced is Some ==> ((r.0->0).forced->0)@
                == "  --force: dropping lockfile entry despite "@ + decimal(failures as nat)
                + " failed reversal(s)"@
        }),
{
    let package_ref = match parse_package_ref(input) {
        Ok(p) => p,
        Err(e) => {
            return (None, Err(e));
        },
    };
    let key = package_ref.key();
    let place = find_key(&lockfile.packages, key.as_str());
    if let Err(e) = check_removable(&package_ref, place.is_some(), on_disk) {
        return (None, Err(e));
    }
    let total: usize = match place {
        Some(i) => lockfile.packages[i].1.wiring_record.len(),
        None => 0,
    };
    let report = if total > 0 {
        Some(reversal_report(total, failures, force))
    } else {
        None
    };
    if total > 0 {
        if let Err(e) = check_reversal(&package_ref, failures, force) {
            return (report, Err(e));
        }
    }
    remove_package_from_lockfile(lockfile, &package_ref);
    (report, Ok(concat2("Removed ", key.as_str())))
}

// ---------------------------------------------------------------------------
// Pinning
// ---------------------------------------------------------------------------

/// A pack without a version that is installed, or why a text names none.
pub open spec fn installed_pack(
    packages: Seq<(String, LockedPackage)>,
    input: Seq<char>,
    version_message: Seq<char>,
) -> Result<PackageRefView, ErrorView> {
    match parsed_ref(input) {
        Err(e) => Err(e),
        Ok(p) => if p.version is Some {
            Err(ErrorView::PackageInstall(version_message))
        } else if !has_key(packages, p.key()) {
            Err(ErrorView::PackageInstall(p.key() + " is not installed"@))
        } else {
            Ok(p)
        },
    }
}

fn find_installed(lockfile: &Lockfile, input: &str, version_message: &str) -> (r: Result<
    (PackageRef, usize),
    NonoError,
>)
    ensures
        match r {
            Ok(x) => {
                &&& installed_pack(lockfile.packages@, input@, version_message@) == Ok::<
                    PackageRefView,
                    ErrorView,
                >(x.0@)
                &&& x.1 == key_index(lockfile.packages@, x.0@.key())
                &&& x.1 < lockfile.packages@.len()
            },
            Err(e) => installed_pack(lockfile.packages@, input@, version_message@) == Err::<
                PackageRefView,
                ErrorView,
            >(e@),
        },
{
    let p = match parse_package_ref(input) {
        Ok(p) => p,
        Err(e) => {
            return Err(e);
        },
    };
    if p.version.is_some() {
        return Err(NonoError::PackageInstall(copy_str(version_message)));
    }
    let key = p.key();
    match find_key(&lockfile.packages, key.as_str()) {
        Some(i) => Ok((p, i)),
        None => Err(NonoError::PackageInstall(concat2(key.as_str(), " is not installed"))),
    }
}

/// The packs with one of them pinned or not.
pub open spec fn with_pin(packages: Seq<(String, LockedPackage)>, n: int, pinned: bool) -> Seq<
    (String, LockedPackage),
> {
    packages.update(n, (packages[n].0, LockedPackage { pinned, ..packages[n].1 }))
}

fn set_pin(lockfile: &mut Lockfile, n: usize, pinned: bool)
    requires
        n < old(lockfile).packages@.len(),
    ensures
        final(lockfile).packages@ == with_pin(old(lockfile).packages@, n as int, pinned),
        final(lockfile).lockfile_version == old(lockfile).lockfile_version,
        final(lockfile).registry == old(lockfile).registry,
{
    let (key, p) = lockfile.packages.remove(n);
    let changed = LockedPackage {
        version: p.version,
        installed_at: p.installed_at,
        pinned,
        provenance: p.provenance,
        artifacts: p.artifacts,
        wiring_record: p.wiring_record,
    };
    lockfile.packages.insert(n, (key, changed));
    assert(lockfile.packages@ =~= with_pin(old(lockfile).packages@, n as int, pinned));
}

/// Pins a pack to the version that is installed; gives the line that says so.
pub fn run_pin(lockfile: &mut Lockfile, input: &str) -> (r: Result<String, NonoError>)
    ensures
        match installed_pack(
            old(lockfile).packages@,
            input@,
            "pin takes a pack name without a version — it pins the currently installed version"@,
        ) {
            Ok(p) => {
                let n = key_index(old(lockfile).packages@, p.key());
                &&& r is Ok && (r->Ok_0)@ == "  pinned "@ + p.key() + "@"@
                    + old(lockfile).packages@[n].1.version@ + " — excluded from nono update"@
                &&& final(lockfile).packages@ == with_pin(old(lockfile).packages@, n, true)
                &&& final(lockfile).lockfile_version == old(lockfile).lockfile_version
                &&& final(lockfile).registry == old(lockfile).registry
            },
            Err(e) => r is Err && (r->Err_0)@ == e && *final(lockfile) == *old(lockfile),
        },
{
    match find_installed(
        lockfile,
        input,
        "pin takes a pack name without a version — it pins the currently installed version",
    ) {
        Ok((p, n)) => {
            let key = p.key();
            let line = concat5(
                "  pinned ",
                key.as_str(),
                "@",
                lockfile.packages[n].1.version.as_str(),
                " — excluded from nono update",
            );
            set_pin(lockfile, n, true);
            Ok(line)
        },
        Err(e) => Err(e),
    }
}

/// Lets a pack be updated again; gives the line that says so.
pub fn run_unpin(lockfile: &mut Lockfile, input: &str) -> (r: Result<String, NonoError>)
    ensures
        match installed_pack(
            old(lockfile).packages@,
            input@,
            "unpin takes a pack name without a version"@,
        ) {
            Ok(p) => {
                let n = key_index(old(lockfile).packages@, p.key());
                &&& r is Ok && (r->Ok_0)@ == "  unpinned "@ + p.key()
                    + " — will be included in nono update"@
                &&& final(lockfile).packages@ == with_pin(old(lockfile).packages@, n, false)
                &&& final(lockfile).lockfile_version == old(lockfile).lockfile_version
                &&& final(lockfile).registry == old(lockfile).registry
            },
            Err(e) => r is Err && (r->Err_0)@ == e && *final(lockfile) == *old(lockfile),
        },
{
    match find_installed(lockfile, input, "unpin takes a pack name without a version") {
        Ok((p, n)) => {
            let key = p.key();
            let line = concat3(
                "  unpinned ",
                key.as_str(),
                " — will be included in nono update",
            );
            set_pin(lockfile, n, false);
            Ok(line)
        },
        Err(e) => Err(e),
    }
}

/// Pinning and unpinning change nothing but the pin of that pack, and unpinning takes back what
/// pinning a pack did that was not pinned.
pub proof fn law_unpin_undoes_pin(packages: Seq<(String, LockedPackage)>, n: int)
    requires
        0 <= n < packages.len(),
        !packages[n].1.pinned,
    ensures
        with_pin(with_pin(packages, n, true), n, false) == packages,
        forall|i: int|
            0 <= i < packages.len() && i != n ==> #[trigger] with_pin(packages, n, true)[i]
                == packages[i],
        keys(with_pin(packages, n, true)) == keys(packages),
{
    assert(with_pin(with_pin(packages, n, true), n, false) =~= packages);
    assert(keys(with_pin(packages, n, true)) =~= keys(packages));
}

// ---------------------------------------------------------------------------
// Updating
// ---------------------------------------------------------------------------

/// The packs to update, or why there are none.
pub open spec fn update_selection(packages: Seq<(String, LockedPackage)>, requested: Option<Seq<char>>) -> Result<
    Seq<Seq<char>>,
    ErrorView,
> {
    match requested {
        None => Ok(keys(packages)),
        Some(input) => match installed_pack(
            packages,
            input,
            "nono update does not accept a version — use `nono pull <ns>/<name>@<version>` for exact installs"@,
        ) {
            Ok(p) => Ok(seq![p.key()]),
            Err(e) => Err(e),
        },
    }
}

pub fn update_keys(lockfile: &Lockfile, requested: &Option<String>) -> (r: Result<
    Vec<String>,
    NonoError,
>)
    ensures
        match r {
            Ok(v) => update_selection(lockfile.packages@, opt_view(*requested)) == Ok::<
                Seq<Seq<char>>,
                ErrorView,
            >(views(v@)),
            Err(e) => update_selection(lockfile.packages@, opt_view(*requested)) == Err::<
                Seq<Seq<char>>,
                ErrorView,
            >(e@),
        },
{
    match requested {
        None => Ok(key_list(&lockfile.packages)),
        Some(input) => match find_installed(
            lockfile,
            input.as_str(),
            "nono update does not accept a version — use `nono pull <ns>/<name>@<version>` for exact installs",
        ) {
            Ok((p, _)) => {
                let mut v: Vec<String> = Vec::new();
                let key = p.key();
                push_copy(&mut v, key.as_str());
                assert(views(v@) =~= seq![p@.key()]);
                Ok(v)
            },
            Err(e) => Err(e),
        },
    }
}

/// A key parted at its first slash; nothing where it has none.
pub open spec fn key_parts(key: Seq<char>) -> Option<(Seq<char>, Seq<char>)> {
    let i = first_index(key, '/');
    if 0 <= i < key.len() {
        Some((key.take(i), key.skip(i + 1)))
    } else {
        None
    }
}

pub fn split_key(key: &str) -> (r: Option<(String, String)>)
    ensures
        match r {
            Some(p) => key_parts(key@) == Some((p.0@, p.1@)),
            None => key_parts(key@) is None,
        },
{
    let v = chars_of(key);
    let i = find_first(&v, '/');
    proof {
        lemma_first_index(key@, '/');
    }
    if i < v.len() {
        let a = sub_chars(&v, 0, i);
        let b = sub_chars(&v, i + 1, v.len());
        assert(a@ =~= key@.take(i as int));
        assert(b@ =~= key@.skip(i + 1));
        Some((from_chars(&a), from_chars(&b)))
    } else {
        None
    }
}

/// What comes of a pack before the registry is asked.
#[derive(Debug)]
pub enum UpdateCheck {
    /// The lockfile holds a key that names no pack; the warning.
    Malformed(String),
    /// The pack is pinned; the line that says so.
    Pinned(String),
    /// The registry is asked for this pack.
    Ask { namespace: String, name: String },
}

/// How many packs were updated, skipped, and not updated though they should have been.
#[derive(Clone, Copy, Debug, PartialEq, Eq, Structural)]
pub struct UpdateTally {
    pub updated: usize,
    pub skipped: usize,
    pub failed: usize,
}

/// What became of a pack.
#[derive(Clone, Copy, Debug, PartialEq, Eq, Structural)]
pub enum UpdateFate {
    Updated,
    Skipped,
    Failed,
    /// It is pulled now; the outcome is counted then.
    Pulling,
}

pub open spec fn saturated(n: int) -> usize {
    if n <= usize::MAX {
        n as usize
    } else {
        usize::MAX
    }
}

fn one_more(n: usize) -> (r: usize)
    ensures
        r == saturated(n + 1),
{
    if n < usize::MAX {
        n + 1
    } else {
        n
    }
}

/// What the registry's answer means for a pack, with the lines to print.
pub open spec fn status_outcome(
    key: Seq<char>,
    version: Seq<char>,
    pinned: bool,
    status: Result<PackageStatusResponse, String>,
    dry_run: bool,
) -> (UpdateFate, Seq<Seq<char>>) {
    match status {
        Err(e) => (
            UpdateFate::Failed,
            seq!["  warning: could not check status for "@ + key + ": "@ + e@],
        ),
        Ok(s) => {
            let word = opt_view(s.installed_status);
            if word == Some("current"@) {
                (UpdateFate::Skipped, seq!["  "@ + key + " "@ + version + " — up to date"@])
            } else if word == Some("ahead"@) {
                (
                    UpdateFate::Skipped,
                    seq!["  "@ + key + " "@ + version + " is ahead of registry — skipped"@],
                )
            } else if word == Some("yanked"@) {
                (
                    UpdateFate::Failed,
                    seq![
                        "  "@ + key + "@"@ + version + " has been yanked — run `nono pull "@ + key
                            + "` to install the latest safe release"@,
                    ],
                )
            } else {
                let latest = match s.latest {
                    Some(l) => l@,
                    None => "latest"@,
                };
                if dry_run {
                    (
                        UpdateFate::Updated,
                        seq!["  "@ + key + " "@ + version + " → "@ + latest + " (dry run)"@],
                    )
                } else {
                    let line = "  updating "@ + key + " "@ + version + " → "@ + latest;
                    (
                        UpdateFate::Pulling,
                        if pinned {
                            seq![
                                "  "@ + key + "@"@ + version
                                    + " is pinned — updating anyway (--force)"@,
                                line,
                            ]
                        } else {
                            seq![line]
                        },
                    )
                }
            }
        },
    }
}

fn one_line(s: String) -> (r: Vec<String>)
    ensures
        views(r@) == seq![s@],
{
    let mut v: Vec<String> = Vec::new();
    v.push(s);
    assert(views(v@) =~= seq![s@]);
    v
}

fn has_status(s: &PackageStatusResponse, word: &str) -> (r: bool)
    ensures
        r == (opt_view(s.installed_status) == Some(word@)),
{
    match &s.installed_status {
        Some(w) => str_eq(w.as_str(), word),
        None => false,
    }
}

impl UpdateTally {
    pub fn new() -> (r: Self)
        ensures
            r == (UpdateTally { updated: 0, skipped: 0, failed: 0 }),
    {
        UpdateTally { updated: 0, skipped: 0, failed: 0 }
    }

    /// The tally with one pack more.
    pub open spec fn plus(self, fate: UpdateFate) -> UpdateTally {
        match fate {
            UpdateFate::Updated => UpdateTally { updated: saturated(self.updated + 1), ..self },
            UpdateFate::Skipped => UpdateTally { skipped: saturated(self.skipped + 1), ..self },
            UpdateFate::Failed => UpdateTally { failed: saturated(self.failed + 1), ..self },
            UpdateFate::Pulling => self,
        }
    }

    pub fn count(&mut self, fate: UpdateFate)
        ensures
            *final(self) == old(self).plus(fate),
    {
        match fate {
            UpdateFate::Updated => {
                self.updated = one_more(self.updated);
            },
            UpdateFate::Skipped => {
                self.skipped = one_more(self.skipped);
            },
            UpdateFate::Failed => {
                self.failed = one_more(self.failed);
            },
            UpdateFate::Pulling => {},
        }
    }

    /// Looks at a pack before the registry is asked.
    pub fn before_status(&mut self, key: &str, version: &str, pinned: bool, force: bool) -> (r: UpdateCheck)
        ensures
            match key_parts(key@) {
                None => {
                    &&& r is Malformed && r->Malformed_0@
                        == "  warning: skipping malformed lockfile key '"@ + key@ + "'"@
                    &&& *final(self) == *old(self)
                },
                Some(parts) => if pinned && !force {
                    &&& r is Pinned && r->Pinned_0@ == "  "@ + key@ + "@"@ + version@
                        + " pinned — skipped (use --force to update pinned packs)"@
                    &&& *final(self) == old(self).plus(UpdateFate::Skipped)
                } else {
                    &&& r is Ask && r->namespace@ == parts.0 && r->name@ == parts.1
                    &&& *final(self) == *old(self)
                },
            },
    {
        match split_key(key) {
            None => UpdateCheck::Malformed(
                concat3("  warning: skipping malformed lockfile key '", key, "'"),
            ),
            Some((namespace, name)) => {
                if pinned && !force {
                    self.count(UpdateFate::Skipped);
                    UpdateCheck::Pinned(
                        concat5(
                            "  ",
                            key,
                            "@",
                            version,
                            " pinned — skipped (use --force to update pinned packs)",
                        ),
                    )
                } else {
                    UpdateCheck::Ask { namespace, name }
                }
            },
        }
    }

    /// Takes the registry's answer; says whether the pack is pulled now, and what to print.
    pub fn on_status(
        &mut self,
        key: &str,
        version: &str,
        pinned: bool,
        status: &Result<PackageStatusResponse, String>,
        dry_run: bool,
    ) -> (r: (UpdateFate, Vec<String>))
        ensures
            (r.0, views(r.1@)) == status_outcome(key@, version@, pinned, *status, dry_run),
            *final(self) == old(self).plus(r.0),
    {
        let (fate, lines) = match status {
            Err(e) => (
                UpdateFate::Failed,
                one_line(
                    concat4("  warning: could not check status for ", key, ": ", e.as_str()),
                ),
            ),
            Ok(s) => {
                if has_status(s, "current") {
                    (
                        UpdateFate::Skipped,
                        one_line(concat5("  ", key, " ", version, " — up to date")),
                    )
                } else if has_status(s, "ahead") {
                    (
                        UpdateFate::Skipped,
                        one_line(
                            concat5("  ", key, " ", version, " is ahead of registry — skipped"),
                        ),
                    )
                } else if has_status(s, "yanked") {
                    (
                        UpdateFate::Failed,
                        one_line(
                            concat7(
                                "  ",
                                key,
                                "@",
                                version,
                                " has been yanked — run `nono pull ",
                                key,
                                "` to install the latest safe release",
                            ),
                        ),
                    )
                } else {
                    let latest = match &s.latest {
                        Some(l) => l.as_str(),
                        None => "latest",
                    };
                    if dry_run {
                        (
                            UpdateFate::Updated,
                            one_line(
                                concat7("  ", key, " ", version, " → ", latest, " (dry run)"),
                            ),
                        )
                    } else {
                        let line = concat6("  updating ", key, " ", version, " → ", latest);
                        if pinned {
                            let first = concat5(
                                "  ",
                                key,
                                "@",
                                version,
                                " is pinned — updating anyway (--force)",
                            );
                            let mut v = one_line(first);
                            push_copy(&mut v, line.as_str());
                            assert(views(v@) =~= seq![first@, line@]);
                            (UpdateFate::Pulling, v)
                        } else {
                            (UpdateFate::Pulling, one_line(line))
                        }
                    }
                }
            },
        };
        self.count(fate);
        (fate, lines)
    }

    /// Takes the outcome of a pull; the line to print where it failed.
    pub fn on_pull(&mut self, key: &str, outcome: &Result<(), String>) -> (r: Option<String>)
        ensures
            match outcome {
                Ok(()) => r is None && *final(self) == old(self).plus(UpdateFate::Updated),
                Err(e) => {
                    &&& r is Some && (r->0)@ == "  failed to update "@ + key@ + ": "@ + e@
                    &&& *final(self) == old(self).plus(UpdateFate::Failed)
                },
            },
    {
        match outcome {
            Ok(()) => {
                self.count(UpdateFate::Updated);
                None
            },
            Err(e) => {
                self.count(UpdateFate::Failed);
                Some(concat4("  failed to update ", key, ": ", e.as_str()))
            },
        }
    }

    pub open spec fn summary_text(self, dry_run: bool) -> Seq<char> {
        if dry_run {
            "\n  dry run: "@ + decimal(self.updated as nat) + " would be updated, "@ + decimal(
                self.skipped as nat,
            ) + " skipped"@
        } else {
            "\n  "@ + decimal(self.updated as nat) + " updated, "@ + decimal(self.skipped as nat)
                + " skipped, "@ + decimal(self.failed as nat) + " failed"@
        }
    }

    /// The line at the end.
    pub fn summary(&self, dry_run: bool) -> (r: String)
        ensures
            r@ == self.summary_text(dry_run),
    {
        let updated = usize_to_string(self.updated);
        let skipped = usize_to_string(self.skipped);
        let failed = usize_to_string(self.failed);
        if dry_run {
            concat5(
                "\n  dry run: ",
                updated.as_str(),
                " would be updated, ",
                skipped.as_str(),
                " skipped",
            )
        } else {
            concat7(
                "\n  ",
                updated.as_str(),
                " updated, ",
                skipped.as_str(),
                " skipped, ",
                failed.as_str(),
                " failed",
            )
        }
    }

    /// The outcome of the command: a failure where a pack failed, but not in a dry run.
    pub fn verdict(&self, dry_run: bool) -> (r: Result<(), NonoError>)
        ensures
            r is Err <==> self.failed > 0 && !dry_run,
            r is Err ==> (r->Err_0)@ == ErrorView::PackageInstall(
                decimal(self.failed as nat) + " pack(s) failed to update"@,
            ),
    {
        if self.failed > 0 && !dry_run {
            let n = usize_to_string(self.failed);
            Err(NonoError::PackageInstall(concat2(n.as_str(), " pack(s) failed to update")))
        } else {
            Ok(())
        }
    }
}

/// What the registry says of a pack, and what comes of pulling it where that is tried.
#[derive(Debug)]
pub struct UpdateAnswer {
    pub status: Result<PackageStatusResponse, String>,
    pub pull: Result<(), String>,
}

/// What becomes of one pack, with the lines to print. A key that names no pack has no fate.
pub open spec fn pack_outcome(
    key: Seq<char>,
    pkg: LockedPackage,
    answer: UpdateAnswer,
    force: bool,
    dry_run: bool,
) -> (Option<UpdateFate>, Seq<Seq<char>>) {
    if key_parts(key) is None {
        (None, seq!["  warning: skipping malformed lockfile key '"@ + key + "'"@])
    } else if pkg.pinned && !force {
        (
            Some(UpdateFate::Skipped),
            seq![
                "  "@ + key + "@"@ + pkg.version@
                    + " pinned — skipped (use --force to update pinned packs)"@,
            ],
        )
    } else {
        let (fate, lines) = status_outcome(
            key,
            pkg.version@,
            pkg.pinned,
            answer.status,
            dry_run,
        );
        if fate == UpdateFate::Pulling {
            match answer.pull {
                Ok(()) => (Some(UpdateFate::Updated), lines),
                Err(e) => (
                    Some(UpdateFate::Failed),
                    lines.push("  failed to update "@ + key + ": "@ + e@),
                ),
            }
        } else {
            (Some(fate), lines)
        }
    }
}

/// What becomes of the first `n` of some packs: how many have which fate, and the lines to print.
pub open spec fn update_run(
    packages: Seq<(String, LockedPackage)>,
    names: Seq<Seq<char>>,
    answers: Seq<UpdateAnswer>,
    force: bool,
    dry_run: bool,
    n: nat,
) -> (UpdateTally, Seq<Seq<char>>)
    decreases n,
{
    if n == 0 {
        (UpdateTally { updated: 0, skipped: 0, failed: 0 }, Seq::empty())
    } else {
        let (tally, lines) = update_run(packages, names, answers, force, dry_run, (n - 1) as nat);
        let key = names[n - 1];
        let i = key_index(packages, key);
        let (fate, more) = pack_outcome(key, packages[i].1, answers[i], force, dry_run);
        (
            match fate {
                Some(f) => tally.plus(f),
                None => tally,
            },
            lines + more,
        )
    }
}

/// How many of the first `n` names are those of packs.
pub open spec fn well_formed_names(names: Seq<Seq<char>>, n: nat) -> nat
    decreases n,
{
    if n == 0 {
        0
    } else {
        well_formed_names(names, (n - 1) as nat) + if key_parts(names[n - 1]) is Some {
            1nat
        } else {
            0
        }
    }
}

fn update_pack(
    tally: &mut UpdateTally,
    lines: &mut Vec<String>,
    key: &str,
    pkg: &LockedPackage,
    answer: &UpdateAnswer,
    force: bool,
    dry_run: bool,
)
    ensures
        ({
            let (fate, more) = pack_outcome(key@, *pkg, *answer, force, dry_run);
            &&& *final(tally) == match fate {
                Some(f) => old(tally).plus(f),
                None => *old(tally),
            }
            &&& views(final(lines)@) == views(old(lines)@) + more
        }),
{
    let ghost start = views(lines@);
    let version = pkg.version.as_str();
    match tally.before_status(key, version, pkg.pinned, force) {
        UpdateCheck::Malformed(line) => {
            push_copy(lines, line.as_str());
            assert(views(lines@) =~= start + seq![line@]);
        },
        UpdateCheck::Pinned(line) => {
            push_copy(lines, line.as_str());
            assert(views(lines@) =~= start + seq![line@]);
        },
        UpdateCheck::Ask { .. } => {
            let (fate, more) = tally.on_status(key, version, pkg.pinned, &answer.status, dry_run);
            extend_strings(lines, &more);
            if matches!(fate, UpdateFate::Pulling) {
                if let Some(line) = tally.on_pull(key, &answer.pull) {
                    push_copy(lines, line.as_str());
                    assert(views(lines@) =~= start + views(more@).push(line@));
                }
            }
        },
    }
}

/// What an update comes to.
#[derive(Debug)]
pub struct UpdateRun {
    pub lines: Vec<String>,
    pub tally: UpdateTally,
    pub outcome: Result<(), NonoError>,
}

/// Updates the pack that is asked for, or all. The answers stand in the order of the lockfile.
pub fn run_update(
    lockfile: &Lockfile,
    requested: &Option<String>,
    answers: &Vec<UpdateAnswer>,
    force: bool,
    dry_run: bool,
) -> (r: UpdateRun)
    requires
        answers@.len() == lockfile.packages@.len(),
    ensures
        ({
            let packages = lockfile.packages@;
            if packages.len() == 0 {
                &&& r.outcome is Ok
                &&& views(r.lines@) == seq!["No installed nono packs."@]
                &&& r.tally == (UpdateTally { updated: 0, skipped: 0, failed: 0 })
            } else {
                match update_selection(packages, opt_view(*requested)) {
                    Err(e) => {
                        &&& r.outcome matches Err(f) && f@ == e
                        &&& r.lines@.len() == 0
                        &&& r.tally == (UpdateTally { updated: 0, skipped: 0, failed: 0 })
                    },
                    Ok(names) => {
                        let (tally, lines) = update_run(
                            packages,
                            names,
                            answers@,
                            force,
                            dry_run,
                            names.len(),
                        );
                        &&& r.tally == tally
                        &&& views(r.lines@) == lines.push(tally.summary_text(dry_run))
                        &&& r.outcome is Err <==> tally.failed > 0 && !dry_run
                        &&& r.outcome is Err ==> (r.outcome->Err_0)@ == ErrorView::PackageInstall(
                            decimal(tally.failed as nat) + " pack(s) failed to update"@,
                        )
                    },
                }
            }
        }),
{
    let mut tally = UpdateTally::new();
    let mut lines: Vec<String> = Vec::new();
    assert(views(lines@) =~= Seq::<Seq<char>>::empty());
    if lockfile.packages.len() == 0 {
        push_copy(&mut lines, "No installed nono packs.");
        assert(views(lines@) =~= seq!["No installed nono packs."@]);
        return UpdateRun { lines, tally, outcome: Ok(()) };
    }
    let keys = match update_keys(lockfile, requested) {
        Ok(k) => k,
        Err(e) => {
            return UpdateRun { lines, tally, outcome: Err(e) };
        },
    };
    let ghost packages = lockfile.packages@;
    let ghost names = views(keys@);
    proof {
        lemma_selection_is_installed(packages, opt_view(*requested));
        assert(update_selection(packages, opt_view(*requested))->Ok_0 == names);
    }
    let mut i: usize = 0;
    while i < keys.len()
        invariant
            i <= keys@.len(),
            packages == lockfile.packages@,
            names == views(keys@),
            answers@.len() == packages.len(),
            forall|k: int| 0 <= k < names.len() ==> has_key(packages, #[trigger] names[k]),
            (tally, views(lines@)) == update_run(packages, names, answers@, force, dry_run, i as nat),
        decreases keys@.len() - i,
    {
        let key = keys[i].as_str();
        assert(names[i as int] == key@);
        if let Some(p) = find_key(&lockfile.packages, key) {
            update_pack(
                &mut tally,
                &mut lines,
                key,
                &lockfile.packages[p].1,
                &answers[p],
                force,
                dry_run,
            );
        }
        i += 1;
    }
    let summary = tally.summary(dry_run);
    push_copy(&mut lines, summary.as_str());
    let outcome = tally.verdict(dry_run);
    UpdateRun { lines, tally, outcome }
}

proof fn lemma_selection_is_installed(
    packages: Seq<(String, LockedPackage)>,
    requested: Option<Seq<char>>,
)
    ensures
        match update_selection(packages, requested) {
            Ok(names) => forall|k: int|
                0 <= k < names.len() ==> has_key(packages, #[trigger] names[k]),
            Err(_) => true,
        },
{
    if let Ok(names) = update_selection(packages, requested) {
        assert forall|k: int| 0 <= k < names.len() implies has_key(
            packages,
            #[trigger] names[k],
        ) by {
            if requested is None {
                assert(names[k] == packages[k].0@);
                lemma_key_index_at_most(packages, k);
            }
        }
    }
}

proof fn lemma_key_index_at_most(packages: Seq<(String, LockedPackage)>, k: int)
    requires
        0 <= k < packages.len(),
    ensures
        key_index(packages, packages[k].0@) <= k,
    decreases packages.len(),
{
    if k > 0 && packages[0].0@ != packages[k].0@ {
        let rest = packages.skip(1);
        assert(rest[k - 1] == packages[k]);
        lemma_key_index_at_most(rest, k - 1);
    }
}

/// Every pack that is looked at is counted, once and under one fate; no other is.
pub proof fn law_each_pack_is_counted_once(
    packages: Seq<(String, LockedPackage)>,
    names: Seq<Seq<char>>,
    answers: Seq<UpdateAnswer>,
    force: bool,
    dry_run: bool,
    n: nat,
)
    requires
        n <= names.len(),
        names.len() <= usize::MAX,
    ensures
        ({
            let t = update_run(packages, names, answers, force, dry_run, n).0;
            &&& t.updated + t.skipped + t.failed == well_formed_names(names, n)
            &&& well_formed_names(names, n) <= n
        }),
    decreases n,
{
    if n > 0 {
        law_each_pack_is_counted_once(packages, names, answers, force, dry_run, (n - 1) as nat);
    }
}

// ---------------------------------------------------------------------------
// Outdated packs
// ---------------------------------------------------------------------------

/// An installed pack with what the registry says of it.
#[derive(Debug)]
pub struct OutdatedEntry {
    pub key: String,
    pub installed: String,
    pub latest: Option<String>,
    pub status: String,
    pub pinned: bool,
}

pub struct OutdatedView {
    pub key: Seq<char>,
    pub installed: Seq<char>,
    pub latest: Option<Seq<char>>,
    pub status: Seq<char>,
    pub pinned: bool,
}

impl View for OutdatedEntry {
    type V = OutdatedView;

    open spec fn view(&self) -> OutdatedView {
        OutdatedView {
            key: self.key@,
            installed: self.installed@,
            latest: opt_view(self.latest),
            status: self.status@,
            pinned: self.pinned,
        }
    }
}

pub open spec fn outdated_views(v: Seq<OutdatedEntry>) -> Seq<OutdatedView> {
    v.map_values(|e: OutdatedEntry| e@)
}

pub open spec fn outdated_view(
    key: Seq<char>,
    pkg: LockedPackage,
    status: Result<PackageStatusResponse, String>,
) -> OutdatedView {
    OutdatedView {
        key,
        installed: pkg.version@,
        latest: match status {
            Ok(s) => opt_view(s.latest),
            Err(_) => None,
        },
        status: match status {
            Ok(s) => match s.installed_status {
                Some(w) => w@,
                None => "unknown"@,
            },
            Err(_) => "unknown"@,
        },
        pinned: pkg.pinned,
    }
}

/// The entry of a pack; where the registry could not be asked, its state is unknown.
pub fn outdated_entry(
    key: &str,
    pkg: &LockedPackage,
    status: &Result<PackageStatusResponse, String>,
) -> (r: OutdatedEntry)
    ensures
        r@ == outdated_view(key@, *pkg, *status),
{
    let (latest, word) = match status {
        Ok(s) => {
            let word = match &s.installed_status {
                Some(w) => copy_str(w.as_str()),
                None => copy_str("unknown"),
            };
            let latest = match &s.latest {
                Some(l) => Some(copy_str(l.as_str())),
                None => None,
            };
            (latest, word)
        },
        Err(_) => (None, copy_str("unknown")),
    };
    OutdatedEntry {
        key: copy_str(key),
        installed: copy_str(pkg.version.as_str()),
        latest,
        status: word,
        pinned: pkg.pinned,
    }
}

/// The packs that were looked at, with their state, and the warnings on the way.
#[derive(Debug)]
pub struct OutdatedScan {
    pub entries: Vec<OutdatedEntry>,
    pub warnings: Vec<String>,
}

pub open spec fn scan_entries(
    packages: Seq<(String, LockedPackage)>,
    statuses: Seq<Result<PackageStatusResponse, String>>,
    n: nat,
) -> Seq<OutdatedView>
    decreases n,
{
    if n == 0 {
        Seq::empty()
    } else {
        let front = scan_entries(packages, statuses, (n - 1) as nat);
        let p = packages[n - 1];
        if key_parts(p.0@) is None {
            front
        } else {
            front.push(outdated_view(p.0@, p.1, statuses[n - 1]))
        }
    }
}

pub open spec fn scan_warnings(
    packages: Seq<(String, LockedPackage)>,
    statuses: Seq<Result<PackageStatusResponse, String>>,
    n: nat,
) -> Seq<Seq<char>>
    decreases n,
{
    if n == 0 {
        Seq::empty()
    } else {
        let front = scan_warnings(packages, statuses, (n - 1) as nat);
        let key = packages[n - 1].0@;
        if key_parts(key) is None {
            front.push("  warning: skipping malformed lockfile key '"@ + key + "'"@)
        } else {
            match statuses[n - 1] {
                Ok(_) => front,
                Err(e) => front.push(
                    "  warning: could not check status for "@ + key + ": "@ + e@,
                ),
            }
        }
    }
}

/// Looks at the installed packs, each with what the registry said of it. A key without a slash is
/// passed over, with a warning.
pub fn run_outdated(
    lockfile: &Lockfile,
    statuses: &Vec<Result<PackageStatusResponse, String>>,
) -> (r: OutdatedScan)
    requires
        statuses@.len() == lockfile.packages@.len(),
    ensures
        outdated_views(r.entries@) == scan_entries(
            lockfile.packages@,
            statuses@,
            lockfile.packages@.len(),
        ),
        views(r.warnings@) == scan_warnings(
            lockfile.packages@,
            statuses@,
            lockfile.packages@.len(),
        ),
{
    let mut entries: Vec<OutdatedEntry> = Vec::new();
    let mut warnings: Vec<String> = Vec::new();
    let ghost all = lockfile.packages@;
    let mut i: usize = 0;
    assert(outdated_views(entries@) =~= Seq::<OutdatedView>::empty());
    assert(views(warnings@) =~= Seq::<Seq<char>>::empty());
    while i < lockfile.packages.len()
        invariant
            i <= all.len(),
            all == lockfile.packages@,
            statuses@.len() == all.len(),
            outdated_views(entries@) == scan_entries(all, statuses@, i as nat),
            views(warnings@) == scan_warnings(all, statuses@, i as nat),
        decreases all.len() - i,
    {
        let key = lockfile.packages[i].0.as_str();
        match split_key(key) {
            None => {
                let line = concat3("  warning: skipping malformed lockfile key '", key, "'");
                push_copy(&mut warnings, line.as_str());
            },
            Some(_) => {
                if let Err(e) = &statuses[i] {
                    let line = concat4(
                        "  warning: could not check status for ",
                        key,
                        ": ",
                        e.as_str(),
                    );
                    push_copy(&mut warnings, line.as_str());
                }
                let ghost before = entries@;
                let entry = outdated_entry(key, &lockfile.packages[i].1, &statuses[i]);
                entries.push(entry);
                assert(outdated_views(entries@) =~= outdated_views(before).push(entry@));
            },
        }
        i += 1;
    }
    OutdatedScan { entries, warnings }
}

pub open spec fn outdated_json(e: OutdatedView) -> JsonView {
    JsonView::Object(
        Seq::<(Seq<char>, JsonView)>::empty() + field("key"@, JsonView::Text(e.key)) + field(
            "installed"@,
            JsonView::Text(e.installed),
        ) + field("latest"@, opt_text(e.latest)) + field("status"@, JsonView::Text(e.status))
            + field("pinned"@, JsonView::Bool(e.pinned)),
    )
}

/// The entries for programs.
pub fn outdated_to_json(entries: &Vec<OutdatedEntry>) -> (r: Json)
    ensures
        r@ == JsonView::Array(
            outdated_views(entries@).map_values(|e: OutdatedView| outdated_json(e)),
        ),
{
    let ghost all = outdated_views(entries@).map_values(|e: OutdatedView| outdated_json(e));
    let mut a: Vec<Json> = Vec::new();
    let mut i: usize = 0;
    assert(elements(a@) =~= all.take(0));
    while i < entries.len()
        invariant
            i <= entries@.len(),
            all == outdated_views(entries@).map_values(|e: OutdatedView| outdated_json(e)),
            elements(a@) == all.take(i as int),
        decreases entries@.len() - i,
    {
        let e = &entries[i];
        let mut o = no_members();
        put_field(&mut o, "key", json_text(e.key.as_str()));
        put_field(&mut o, "installed", json_text(e.installed.as_str()));
        put_field(&mut o, "latest", json_opt_text(&e.latest));
        put_field(&mut o, "status", json_text(e.status.as_str()));
        put_field(&mut o, "pinned", Json::Bool(e.pinned));
        add_element(&mut a, json_object(o));
        i += 1;
        assert(all[i - 1] == outdated_json(e@));
        assert(all.take(i as int) =~= all.take(i - 1).push(all[i - 1]));
    }
    assert(all.take(i as int) =~= all);
    json_array(a)
}

pub open spec fn outdated_line(e: OutdatedView) -> Seq<char> {
    padded(e.key, 40) + " "@ + padded(e.installed, 12) + " "@ + padded(
        match e.latest {
            Some(l) => l,
            None => "-"@,
        },
        12,
    ) + " "@ + e.status + if e.pinned {
        " (pinned)"@
    } else {
        ""@
    }
}

fn line_of(e: &OutdatedEntry) -> (r: String)
    ensures
        r@ == outdated_line(e@),
{
    let latest = match &e.latest {
        Some(l) => l.as_str(),
        None => "-",
    };
    let pin = if e.pinned {
        " (pinned)"
    } else {
        ""
    };
    let a = pad_right(e.key.as_str(), 40);
    let b = pad_right(e.installed.as_str(), 12);
    let c = pad_right(latest, 12);
    concat8(
        a.as_str(),
        " ",
        b.as_str(),
        " ",
        c.as_str(),
        " ",
        e.status.as_str(),
        pin,
    )
}

pub open spec fn all_current(e: Seq<OutdatedView>) -> bool {
    forall|i: int| 0 <= i < e.len() ==> (#[trigger] e[i]).status == "current"@
}

pub open spec fn outdated_lines(e: Seq<OutdatedView>) -> Seq<Seq<char>> {
    if all_current(e) {
        seq!["All installed packs are up to date."@]
    } else {
        seq![
            padded("PACK"@, 40) + " "@ + padded("INSTALLED"@, 12) + " "@ + padded("LATEST"@, 12)
                + " STATUS"@,
        ] + e.map_values(|x: OutdatedView| outdated_line(x))
    }
}

fn are_all_current(entries: &Vec<OutdatedEntry>) -> (r: bool)
    ensures
        r == all_current(outdated_views(entries@)),
{
    let mut i: usize = 0;
    while i < entries.len()
        invariant
            i <= entries@.len(),
            forall|k: int|
                0 <= k < i ==> (#[trigger] outdated_views(entries@)[k]).status == "current"@,
        decreases entries@.len() - i,
    {
        assert(outdated_views(entries@)[i as int] == entries@[i as int]@);
        if !str_eq(entries[i].status.as_str(), "current") {
            return false;
        }
        i += 1;
    }
    true
}

/// What is printed of the installed packs.
pub fn outdated_output(lockfile: &Lockfile, scan: &OutdatedScan) -> (r: Vec<String>)
    ensures
        views(r@) == if lockfile.packages@.len() == 0 {
            seq!["No installed nono packs."@]
        } else {
            outdated_lines(outdated_views(scan.entries@))
        },
{
    if lockfile.packages.len() == 0 {
        return one_line(copy_str("No installed nono packs."));
    }
    outdated_report(&scan.entries)
}

/// The entries for people.
pub fn outdated_report(entries: &Vec<OutdatedEntry>) -> (r: Vec<String>)
    ensures
        views(r@) == outdated_lines(outdated_views(entries@)),
{
    let mut r: Vec<String> = Vec::new();
    assert(views(r@) =~= Seq::<Seq<char>>::empty());
    if are_all_current(entries) {
        push_copy(&mut r, "All installed packs are up to date.");
        assert(views(r@) =~= outdated_lines(outdated_views(entries@)));
        return r;
    }
    let a = pad_right("PACK", 40);
    let b = pad_right("INSTALLED", 12);
    let c = pad_right("LATEST", 12);
    let head = concat6(a.as_str(), " ", b.as_str(), " ", c.as_str(), " STATUS");
    push_copy(&mut r, head.as_str());
    let ghost start = views(r@);
    assert(start =~= seq![head@]);
    let ghost all = outdated_views(entries@).map_values(|x: OutdatedView| outdated_line(x));
    let mut i: usize = 0;
    assert(start + all.take(0) =~= start);
    while i < entries.len()
        invariant
            i <= entries@.len(),
            all == outdated_views(entries@).map_values(|x: OutdatedView| outdated_line(x)),
            views(r@) == start + all.take(i as int),
        decreases entries@.len() - i,
    {
        let line = line_of(&entries[i]);
        assert(all[i as int] == line@);
        push_copy(&mut r, line.as_str());
        i += 1;
        assert(all.take(i as int) =~= all.take(i - 1).push(all[i - 1]));
        assert(views(r@) =~= start + all.take(i as int));
    }
    assert(all.take(i as int) =~= all);
    r
}

// ---------------------------------------------------------------------------
// Listing and searching
// ---------------------------------------------------------------------------

pub open spec fn listed_line(key: Seq<char>, version: Seq<char>, installed_at: Seq<char>) -> Seq<char> {
    key + "\t"@ + version + "\t"@ + installed_at
}

/// The installed packs, one line each. `times` holds when each was installed, as people read it.
pub fn run_list(lockfile: &Lockfile, times: &Vec<String>) -> (r: Vec<String>)
    requires
        times@.len() == lockfile.packages@.len(),
    ensures
        lockfile.packages@.len() == 0 ==> views(r@) == seq!["No installed nono packs."@],
        lockfile.packages@.len() > 0 ==> views(r@) == Seq::new(
            lockfile.packages@.len(),
            |i: int|
                listed_line(
                    lockfile.packages@[i].0@,
                    lockfile.packages@[i].1.version@,
                    times@[i]@,
                ),
        ),
{
    let mut r: Vec<String> = Vec::new();
    if lockfile.packages.len() == 0 {
        push_copy(&mut r, "No installed nono packs.");
        assert(views(r@) =~= seq!["No installed nono packs."@]);
        return r;
    }
    let p = &lockfile.packages;
    let mut i: usize = 0;
    while i < p.len()
        invariant
            i <= p@.len(),
            p@ == lockfile.packages@,
            times@.len() == p@.len(),
            r@.len() == i,
            forall|k: int|
                0 <= k < i ==> (#[trigger] r@[k])@ == listed_line(
                    p@[k].0@,
                    p@[k].1.version@,
                    times@[k]@,
                ),
        decreases p@.len() - i,
    {
        r.push(
            concat5(
                p[i].0.as_str(),
                "\t",
                p[i].1.version.as_str(),
                "\t",
                times[i].as_str(),
            ),
        );
        i += 1;
    }
    assert(views(r@) =~= Seq::new(
        lockfile.packages@.len(),
        |i: int|
            listed_line(lockfile.packages@[i].0@, lockfile.packages@[i].1.version@, times@[i]@),
    ));
    r
}

/// Only installed packs can be listed.
pub fn check_list_request(installed: bool) -> (r: Result<(), NonoError>)
    ensures
        r is Ok <==> installed,
        r is Err ==> (r->Err_0)@ == ErrorView::PackageInstall(
            "only `nono list --installed` is currently supported"@,
        ),
{
    if installed {
        Ok(())
    } else {
        Err(
            NonoError::PackageInstall(
                copy_str("only `nono list --installed` is currently supported"),
            ),
        )
    }
}

pub open spec fn search_line(s: PackageSearchResult) -> Seq<char> {
    s.namespace@ + "/"@ + s.name@ + "\t"@ + (match s.latest_version {
        Some(v) => v@,
        None => "-"@,
    }) + "\t"@ + (match s.description {
        Some(d) => d@,
        None => ""@,
    })
}

/// What a search found, one line each.
pub fn run_search(results: &Vec<PackageSearchResult>) -> (r: Vec<String>)
    ensures
        results@.len() == 0 ==> views(r@) == seq!["No nono packs found."@],
        results@.len() > 0 ==> views(r@) == results@.map_values(
            |s: PackageSearchResult| search_line(s),
        ),
{
    let mut r: Vec<String> = Vec::new();
    if results.len() == 0 {
        push_copy(&mut r, "No nono packs found.");
        assert(views(r@) =~= seq!["No nono packs found."@]);
        return r;
    }
    let mut i: usize = 0;
    while i < results.len()
        invariant
            i <= results@.len(),
            r@.len() == i,
            forall|k: int| 0 <= k < i ==> (#[trigger] r@[k])@ == search_line(results@[k]),
        decreases results@.len() - i,
    {
        let s = &results[i];
        let version = match &s.latest_version {
            Some(v) => v.as_str(),
            None => "-",
        };
        let description = match &s.description {
            Some(d) => d.as_str(),
            None => "",
        };
        r.push(
            concat7(
                s.namespace.as_str(),
                "/",
                s.name.as_str(),
                "\t",
                version,
                "\t",
                description,
            ),
        );
        i += 1;
    }
    assert(views(r@) =~= results@.map_values(|s: PackageSearchResult| search_line(s)));
    r
}

} // verus!
