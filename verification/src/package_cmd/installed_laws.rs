//! What becomes of installed packs.

use crate::assoc::{
    has_key, key_index, keys, lemma_key_index, lemma_key_index_is, lookup,
};
use crate::package::{parsed_ref, LockedPackage, PackageStatusResponse};
use crate::package_cmd::installed::{
    installed_pack, key_parts, outdated_json, outdated_lines, outdated_view, pack_outcome,
    removal_failure, scan_entries, status_outcome, update_run, update_selection, with_pin,
    OutdatedView, UpdateAnswer, UpdateFate,
};
use crate::json::JsonView;
use crate::text::{first_index, lemma_filter_step, lemma_first_index, opt_view};
use vstd::prelude::*;

verus! {

/// A key names a pack: it has a slash.
pub open spec fn names_pack(key: Seq<char>) -> bool {
    key.contains('/')
}

proof fn lemma_key_parts(key: Seq<char>)
    ensures
        key_parts(key) is Some <==> names_pack(key),
        key_parts(key) is Some ==> ({
            let p = key_parts(key)->0;
            !p.0.contains('/') && key == p.0 + seq!['/'] + p.1
        }),
{
    lemma_first_index(key, '/');
    let i = first_index(key, '/');
    if 0 <= i < key.len() {
        assert(key[i] == '/');
        assert(key =~= key.take(i) + seq!['/'] + key.skip(i + 1));
        assert forall|k: int| 0 <= k < key.take(i).len() implies key.take(i)[k] != '/' by {
            assert(key.take(i)[k] == key[k]);
        }
    }
}

/// A key is parted at its first slash.
pub proof fn law_keys_are_parted(key: Seq<char>)
    ensures
        key_parts(key) is Some <==> key.contains('/'),
        key_parts(key) is Some ==> ({
            let p = key_parts(key)->0;
            !p.0.contains('/') && key == p.0 + seq!['/'] + p.1
        }),
{
    lemma_key_parts(key);
}

/// The registry says a word of an installed pack.
pub open spec fn says(status: Result<PackageStatusResponse, String>, word: Seq<char>) -> bool {
    status is Ok && (status->Ok_0).installed_status is Some && ((
    status->Ok_0).installed_status->0)@ == word
}

/// What becomes of a pack in an update. One that is pinned is skipped unless that is forced; one of
/// which the registry could not be asked or that was withdrawn counts as failed; one that is current
/// or ahead is skipped; and any other is updated, unless pulling it fails. A dry run pulls nothing.
pub proof fn law_update_fates(
    key: Seq<char>,
    pkg: LockedPackage,
    answer: UpdateAnswer,
    force: bool,
    dry_run: bool,
)
    ensures
        ({
            let fate = pack_outcome(key, pkg, answer, force, dry_run).0;
            let s = answer.status;
            let held = pkg.pinned && !force;
            let settled = says(s, "current"@) || says(s, "ahead"@);
            let yanked = says(s, "yanked"@);
            &&& !key.contains('/') ==> fate is None
            &&& key.contains('/') && held ==> fate == Some(UpdateFate::Skipped)
            &&& key.contains('/') && !held && s is Err ==> fate == Some(UpdateFate::Failed)
            &&& key.contains('/') && !held && settled ==> fate == Some(UpdateFate::Skipped)
            &&& key.contains('/') && !held && yanked ==> fate == Some(UpdateFate::Failed)
            &&& key.contains('/') && !held && s is Ok && !settled && !yanked ==> {
                &&& dry_run ==> fate == Some(UpdateFate::Updated)
                &&& !dry_run && answer.pull is Ok ==> fate == Some(UpdateFate::Updated)
                &&& !dry_run && answer.pull is Err ==> fate == Some(UpdateFate::Failed)
            }
        }),
{
    lemma_key_parts(key);
    reveal_strlit("current");
    reveal_strlit("ahead");
    reveal_strlit("yanked");
    assert("current"@.len() == 7 && "ahead"@.len() == 5 && "yanked"@.len() == 6);
    if answer.status is Ok {
        let s = answer.status->Ok_0;
        assert forall|w: Seq<char>| says(answer.status, w) == (opt_view(s.installed_status) == Some(w)) by {}
    }
}

/// Whether a pack is pulled in an update: it names a pack, it is not held back by a pin, the registry
/// knows of something newer, and it is no dry run.
pub proof fn law_pulled_packs(
    key: Seq<char>,
    version: Seq<char>,
    pinned: bool,
    status: Result<PackageStatusResponse, String>,
    dry_run: bool,
)
    ensures
        status_outcome(key, version, pinned, status, dry_run).0 == UpdateFate::Pulling <==> {
            &&& status is Ok
            &&& !says(status, "current"@) && !says(status, "ahead"@) && !says(status, "yanked"@)
            &&& !dry_run
        },
        status_outcome(key, version, pinned, status, dry_run).1.len() >= 1,
{
    if status is Ok {
        let s = status->Ok_0;
        assert forall|w: Seq<char>| says(status, w) == (opt_view(s.installed_status) == Some(w)) by {}
    }
}

/// The fate of one of the packs that are looked at.
pub open spec fn fate_of(
    packages: Seq<(String, LockedPackage)>,
    answers: Seq<UpdateAnswer>,
    force: bool,
    dry_run: bool,
    key: Seq<char>,
) -> Option<UpdateFate> {
    let i = key_index(packages, key);
    pack_outcome(key, packages[i].1, answers[i], force, dry_run).0
}

/// The tally of an update counts the packs with each fate.
pub proof fn law_tally_counts_fates(
    packages: Seq<(String, LockedPackage)>,
    names: Seq<Seq<char>>,
    answers: Seq<UpdateAnswer>,
    force: bool,
    dry_run: bool,
    n: nat,
)
    requires
        n <= names.len() <= usize::MAX,
    ensures
        ({
            let t = update_run(packages, names, answers, force, dry_run, n).0;
            let looked_at = names.take(n as int);
            &&& t.updated == looked_at.filter(
                |k: Seq<char>|
                    fate_of(packages, answers, force, dry_run, k) == Some(UpdateFate::Updated),
            ).len()
            &&& t.skipped == looked_at.filter(
                |k: Seq<char>|
                    fate_of(packages, answers, force, dry_run, k) == Some(UpdateFate::Skipped),
            ).len()
            &&& t.failed == looked_at.filter(
                |k: Seq<char>|
                    fate_of(packages, answers, force, dry_run, k) == Some(UpdateFate::Failed),
            ).len()
            &&& t.updated <= n && t.skipped <= n && t.failed <= n
        }),
    decreases n,
{
    let up = |k: Seq<char>|
        fate_of(packages, answers, force, dry_run, k) == Some(UpdateFate::Updated);
    let sk = |k: Seq<char>|
        fate_of(packages, answers, force, dry_run, k) == Some(UpdateFate::Skipped);
    let fa = |k: Seq<char>|
        fate_of(packages, answers, force, dry_run, k) == Some(UpdateFate::Failed);
    if n == 0 {
        reveal(Seq::filter);
        assert(names.take(0).filter(up).len() == 0);
        assert(names.take(0).filter(sk).len() == 0);
        assert(names.take(0).filter(fa).len() == 0);
    } else {
        let m = (n - 1) as nat;
        law_tally_counts_fates(packages, names, answers, force, dry_run, m);
        lemma_filter_step(names, m as int, up);
        lemma_filter_step(names, m as int, sk);
        lemma_filter_step(names, m as int, fa);
        assert(names.take(m as int + 1) =~= names.take(n as int));
    }
}

/// All installed packs are updated where none is asked for, and else the one that is, if it is
/// installed and named without a version.
pub proof fn law_selected_packs(packages: Seq<(String, LockedPackage)>, requested: Option<Seq<char>>)
    ensures
        match update_selection(packages, requested) {
            Ok(names) => match requested {
                None => names == keys(packages),
                Some(input) => {
                    &&& parsed_ref(input) is Ok
                    &&& (parsed_ref(input)->Ok_0).version is None
                    &&& has_key(packages, (parsed_ref(input)->Ok_0).key())
                    &&& names == seq![(parsed_ref(input)->Ok_0).key()]
                },
            },
            Err(_) => requested is Some && (parsed_ref(requested->0) is Err || (parsed_ref(
                requested->0,
            )->Ok_0).version is Some || !has_key(
                packages,
                (parsed_ref(requested->0)->Ok_0).key(),
            )),
        },
{
}

/// A pack is pinned or unpinned exactly where it is installed and named without a version. Then its
/// pin is set as asked for, and nothing else of it or of any other pack changes.
pub proof fn law_pins(
    packages: Seq<(String, LockedPackage)>,
    input: Seq<char>,
    message: Seq<char>,
    pinned: bool,
    other: Seq<char>,
)
    ensures
        installed_pack(packages, input, message) is Ok <==> {
            &&& parsed_ref(input) is Ok
            &&& (parsed_ref(input)->Ok_0).version is None
            &&& has_key(packages, (parsed_ref(input)->Ok_0).key())
        },
        installed_pack(packages, input, message) is Ok ==> ({
            let key = (parsed_ref(input)->Ok_0).key();
            let after = with_pin(packages, key_index(packages, key), pinned);
            &&& (installed_pack(packages, input, message)->Ok_0).key() == key
            &&& lookup(after, key) is Some
            &&& {
                let (p, q) = (lookup(packages, key)->0, lookup(after, key)->0);
                &&& q.pinned == pinned
                &&& q.version == p.version && q.installed_at == p.installed_at
                &&& q.provenance == p.provenance && q.artifacts == p.artifacts
                &&& q.wiring_record == p.wiring_record
            }
            &&& other != key ==> lookup(after, other) == lookup(packages, other)
        }),
{
    if installed_pack(packages, input, message) is Ok {
        let key = (parsed_ref(input)->Ok_0).key();
        let n = key_index(packages, key);
        let after = with_pin(packages, n, pinned);
        lemma_key_index(packages, key);
        lemma_same_keys(packages, after, key);
        lemma_same_keys(packages, after, other);
        lemma_key_index(packages, other);
    }
}

proof fn lemma_same_keys(a: Seq<(String, LockedPackage)>, b: Seq<(String, LockedPackage)>, k: Seq<char>)
    requires
        a.len() == b.len(),
        forall|i: int| 0 <= i < a.len() ==> (#[trigger] b[i]).0 == a[i].0,
    ensures
        key_index(a, k) == key_index(b, k),
{
    lemma_key_index(a, k);
    let n = key_index(a, k);
    assert forall|i: int| 0 <= i < n implies (#[trigger] b[i]).0@ != k by {
        assert(a[i].0@ != k);
    }
    lemma_key_index_is(b, k, n);
}

/// A pack is removed exactly where the text names one, it is in the lockfile or on disk, and all its
/// steps could be undone or that is of no matter.
pub proof fn law_removed_packs(
    packages: Seq<(String, LockedPackage)>,
    input: Seq<char>,
    on_disk: bool,
    failures: nat,
    force: bool,
)
    ensures
        removal_failure(packages, input, on_disk, failures, force) is None <==> {
            &&& parsed_ref(input) is Ok
            &&& {
                let key = (parsed_ref(input)->Ok_0).key();
                &&& has_key(packages, key) || on_disk
                &&& failures == 0 || force || !has_key(packages, key) || (lookup(
                    packages,
                    key,
                )->0).wiring_record@.len() == 0
            }
        },
{
}

/// An entry on an installed pack says what is installed and what the registry says of it; where the
/// registry could not be asked, or said nothing, its state is unknown.
pub proof fn law_outdated_entries(
    key: Seq<char>,
    pkg: LockedPackage,
    status: Result<PackageStatusResponse, String>,
)
    ensures
        ({
            let e = outdated_view(key, pkg, status);
            &&& e.key == key
            &&& e.installed == pkg.version@
            &&& e.pinned == pkg.pinned
            &&& status is Err ==> e.latest is None && e.status == "unknown"@
            &&& status is Ok && (status->Ok_0).installed_status is None ==> e.status == "unknown"@
            &&& status is Ok && (status->Ok_0).installed_status is Some ==> e.status == ((
            status->Ok_0).installed_status->0)@
            &&& status is Ok && (status->Ok_0).latest is Some ==> e.latest == Some(
                ((status->Ok_0).latest->0)@,
            )
            &&& status is Ok && (status->Ok_0).latest is None ==> e.latest is None
        }),
{
}

/// There is one entry for each installed pack whose key names one, in the order of the lockfile.
pub proof fn law_scanned_packs(
    packages: Seq<(String, LockedPackage)>,
    statuses: Seq<Result<PackageStatusResponse, String>>,
    n: nat,
)
    requires
        n <= packages.len(),
        forall|i: int| 0 <= i < n ==> (#[trigger] packages[i]).0@.contains('/'),
    ensures
        scan_entries(packages, statuses, n).len() == n,
        forall|i: int|
            0 <= i < n ==> #[trigger] scan_entries(packages, statuses, n)[i] == outdated_view(
                packages[i].0@,
                packages[i].1,
                statuses[i],
            ),
    decreases n,
{
    if n > 0 {
        lemma_key_parts(packages[n - 1].0@);
        law_scanned_packs(packages, statuses, (n - 1) as nat);
    }
}

/// A report says that all is up to date exactly where every pack is current; else each pack has a
/// line below the heading.
pub proof fn law_outdated_reports(e: Seq<OutdatedView>)
    ensures
        (forall|i: int| 0 <= i < e.len() ==> (#[trigger] e[i]).status == "current"@)
            ==> outdated_lines(e) == seq!["All installed packs are up to date."@],
        !(forall|i: int| 0 <= i < e.len() ==> (#[trigger] e[i]).status == "current"@)
            ==> outdated_lines(e).len() == e.len() + 1,
{
}

/// For programs an entry has its key, its versions, its state and its pin.
pub proof fn law_outdated_members(e: OutdatedView)
    ensures
        outdated_json(e) is Object,
        ({
            let m = outdated_json(e)->Object_0;
            &&& m.len() == 5
            &&& m[0] == ("key"@, JsonView::Text(e.key))
            &&& m[1] == ("installed"@, JsonView::Text(e.installed))
            &&& m[2].0 == "latest"@
            &&& e.latest is Some ==> m[2].1 == JsonView::Text(e.latest->0)
            &&& e.latest is None ==> m[2].1 is Null
            &&& m[3] == ("status"@, JsonView::Text(e.status))
            &&& m[4] == ("pinned"@, JsonView::Bool(e.pinned))
        }),
{
}

/// What a search finds is shown by its key, its newest version or a dash, and its description.
pub proof fn law_found_packs(s: crate::package::PackageSearchResult)
    ensures
        s.latest_version is Some && s.description is Some
            ==> crate::package_cmd::installed::search_line(s) == s.namespace@ + "/"@ + s.name@ + "\t"@
            + (s.latest_version->0)@ + "\t"@ + (s.description->0)@,
        s.latest_version is None && s.description is Some
            ==> crate::package_cmd::installed::search_line(s) == s.namespace@ + "/"@ + s.name@ + "\t"@
            + "-"@ + "\t"@ + (s.description->0)@,
        s.latest_version is Some && s.description is None
            ==> crate::package_cmd::installed::search_line(s) == s.namespace@ + "/"@ + s.name@ + "\t"@
            + (s.latest_version->0)@ + "\t"@ + ""@,
{
}

/// Of the wiring that was to be undone it is said how much was, and of how much.
pub proof fn law_undone_wiring(undone: nat, failures: nat)
    ensures
        crate::package_cmd::installed::reversal_summary(undone + failures, failures)
            == "  reversed "@ + crate::text::decimal(undone) + "/"@ + crate::text::decimal(
            undone + failures,
        ) + " wiring directive(s)"@,
{
}

} // verus!
