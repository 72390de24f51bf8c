//! Which packs stop a run.

use crate::assoc::has_key;
use crate::extends::reached;
use crate::package::{Lockfile, PackageStatusResponse};
use crate::package_status::{
    active_failure, depends_on, enforced_version, known_targets, status_failure, status_lines,
    OfficialPackStatusTarget,
};
use crate::text::laws::law_parts_of_texts;
use crate::text::{lemma_in_views, views};
use vstd::prelude::*;

verus! {

/// A profile is, or builds on, one of the profiles of a pack; or it is the pack itself that is asked
/// for, perhaps in a given version.
pub open spec fn rests_on(
    target: OfficialPackStatusTarget,
    name: Seq<char>,
    bases: Seq<(String, Vec<String>)>,
) -> bool {
    let key = target.namespace@ + "/"@ + target.name@;
    ||| name == key
    ||| exists|version: Seq<char>| name == #[trigger] (key + "@"@ + version)
    ||| exists|i: int, k: int|
        0 <= i < reached(bases, name).len() && 0 <= k < target.profiles@.len() && (
        #[trigger] target.profiles@[k])@ == #[trigger] reached(bases, name)[i]
}

proof fn lemma_rests_on(
    target: OfficialPackStatusTarget,
    name: Seq<char>,
    bases: Seq<(String, Vec<String>)>,
)
    ensures
        depends_on(target, name, bases) == rests_on(target, name, bases),
{
    let key = target.namespace@ + "/"@ + target.name@;
    law_parts_of_texts(name, key + "@"@);
    let r = reached(bases, name);
    assert forall|i: int| 0 <= i < r.len() implies (views(target.profiles@).contains(#[trigger] r[i])
        <==> exists|k: int| 0 <= k < target.profiles@.len() && (#[trigger] target.profiles@[k])@
        == r[i]) by {
        lemma_in_views(target.profiles@, r[i]);
    }
    if exists|i: int, k: int|
        0 <= i < r.len() && 0 <= k < target.profiles@.len() && (#[trigger] target.profiles@[k])@
            == #[trigger] r[i] {
        let (i, k) = choose|i: int, k: int|
            0 <= i < r.len() && 0 <= k < target.profiles@.len() && (#[trigger] target.profiles@[k])@
                == #[trigger] r[i];
        lemma_in_views(target.profiles@, r[i]);
        assert(views(target.profiles@).contains(r[i]));
    }
    if exists|i: int| 0 <= i < r.len() && views(target.profiles@).contains(#[trigger] r[i]) {
        let i = choose|i: int| 0 <= i < r.len() && views(target.profiles@).contains(#[trigger] r[i]);
        lemma_in_views(target.profiles@, r[i]);
        let k = choose|k: int|
            0 <= k < target.profiles@.len() && (#[trigger] target.profiles@[k])@ == r[i];
        assert(target.profiles@[k]@ == r[i]);
    }
}

/// The registry says that an installed release was withdrawn.
pub open spec fn is_withdrawn(status: Option<PackageStatusResponse>) -> bool {
    status is Some && (status->0).installed_status is Some && ((status->0).installed_status->0)@
        == "yanked"@
}

/// A pack stops a run with a profile: the profile rests on it, it is installed, and the installed
/// release was withdrawn.
pub open spec fn stops(
    target: OfficialPackStatusTarget,
    name: Seq<char>,
    bases: Seq<(String, Vec<String>)>,
    lockfile: Lockfile,
    status: Option<PackageStatusResponse>,
) -> bool {
    &&& rests_on(target, name, bases)
    &&& has_key(lockfile.packages@, target.namespace@ + "/"@ + target.name@)
    &&& is_withdrawn(status)
}

/// A run is stopped exactly where a pack stops it: not by a pack that is not installed, or on which
/// the profile does not rest, nor where the registry could not be asked.
pub proof fn law_withdrawn_packs_stop_runs(
    targets: Seq<OfficialPackStatusTarget>,
    name: Seq<char>,
    bases: Seq<(String, Vec<String>)>,
    lockfile: Lockfile,
    statuses: Seq<Option<PackageStatusResponse>>,
    n: nat,
)
    requires
        n <= targets.len(),
    ensures
        active_failure(targets, name, bases, lockfile, statuses, n) is Some <==> exists|i: int|
            0 <= i < n && stops(#[trigger] targets[i], name, bases, lockfile, statuses[i]),
    decreases n,
{
    if n > 0 {
        law_withdrawn_packs_stop_runs(targets, name, bases, lockfile, statuses, (n - 1) as nat);
        let k = n - 1;
        lemma_rests_on(targets[k], name, bases);
        assert(stops(targets[k], name, bases, lockfile, statuses[k]) <==> (match enforced_version(
            targets[k],
            name,
            bases,
            lockfile,
        ) {
            Some(v) => status_failure(targets[k], v, statuses[k]) is Some,
            None => false,
        }));
    }
}

/// What is said of a pack that does not stop a run: nothing where it is current, where nothing is to
/// be said or nothing is known; else its state, and how to update it where there is something newer.
pub proof fn law_said_of_packs(
    target: OfficialPackStatusTarget,
    version: Seq<char>,
    status: Option<PackageStatusResponse>,
    silent: bool,
)
    ensures
        ({
            let key = target.namespace@ + "/"@ + target.name@;
            let lines = status_lines(target, version, status, silent);
            let known = status is Some && (status->0).installed_status is Some;
            &&& silent || !known ==> lines.len() == 0
            &&& known && ((status->0).installed_status->0)@ == "current"@ ==> lines.len() == 0
            &&& known && !silent && ((status->0).installed_status->0)@ != "current"@ ==> {
                &&& lines.len() >= 1
                &&& lines[0] == "  [nono] official pack "@ + key + "@"@ + version + " status: "@ + (
                (status->0).installed_status->0)@
                &&& (status->0).latest is None ==> lines.len() == 1
                &&& (status->0).latest is Some ==> lines.len() == 2 && lines[1]
                    == "  [nono] update with: nono pull "@ + key + "@"@ + ((status->0).latest->0)@
                    + " --force"@
            }
        }),
{
}

/// The packs that are looked at are the agent's, for its profile under the new name and the old one,
/// and that for Codex.
pub proof fn law_known_targets(targets: Seq<OfficialPackStatusTarget>, pack: Seq<char>, name: Seq<char>)
    requires
        known_targets(targets, pack),
    ensures
        targets.len() == 2,
        targets[0].namespace@ == "always-further"@ && targets[0].name@ == pack,
        targets[1].namespace@ == "always-further"@ && targets[1].name@ == "codex"@,
        views(targets[0].profiles@).contains(name) <==> name == pack || name == pack + "-code"@,
        views(targets[1].profiles@).contains(name) <==> name == "codex"@,
{
    let a = views(targets[0].profiles@);
    let b = views(targets[1].profiles@);
    assert(a[0] == pack && a[1] == pack + "-code"@);
    assert(b[0] == "codex"@);
}

} // verus!
