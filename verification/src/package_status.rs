//! Whether official packs may still be used.

pub mod laws;

use crate::assoc::{find_key, lookup};
use crate::error::{ErrorView, NonoError};
use crate::extends::{reached, walk_bases, BaseTable};
use crate::migration::{AgentNames, OFFICIAL_NAMESPACE};
use crate::package::{slashed, Lockfile, PackageRef, PackageStatusResponse};
use crate::text::{
    concat2, concat3, concat4, concat5, contains_str, copy_str, extend_strings, has_prefix, no_strings, opt_view, push_copy, str_eq,
    str_is_blank, str_starts_with, trim, views,
};
use vstd::prelude::*;

verus! {

/// A pack that is maintained with the program, with the names of the profiles that it provides.
#[derive(Debug)]
pub struct OfficialPackStatusTarget {
    pub namespace: String,
    pub name: String,
    pub profiles: Vec<String>,
}

impl OfficialPackStatusTarget {
    pub open spec fn key_text(self) -> Seq<char> {
        slashed(self.namespace@, self.name@)
    }

    /// The name under which the lockfile holds the pack.
    pub fn key(&self) -> (r: String)
        ensures
            r@ == self.key_text(),
    {
        concat3(self.namespace.as_str(), "/", self.name.as_str())
    }

    pub fn package_ref(&self) -> (r: PackageRef)
        ensures
            r.namespace@ == self.namespace@,
            r.name@ == self.name@,
            r.version is None,
    {
        PackageRef {
            namespace: copy_str(self.namespace.as_str()),
            name: copy_str(self.name.as_str()),
            version: None,
        }
    }
}

/// The packs whose state is looked at, the profiles of each: the agent's, with the name it had
/// before, and that for Codex.
pub open spec fn known_targets(targets: Seq<OfficialPackStatusTarget>, pack: Seq<char>) -> bool {
    &&& targets.len() == 2
    &&& targets[0].namespace@ == OFFICIAL_NAMESPACE@ && targets[0].name@ == pack
    &&& views(targets[0].profiles@) == seq![pack, pack + "-code"@]
    &&& targets[1].namespace@ == OFFICIAL_NAMESPACE@ && targets[1].name@ == "codex"@
    &&& views(targets[1].profiles@) == seq!["codex"@]
}

/// The official packs whose state is looked at before a run.
pub fn official_pack_status_targets(agent: &AgentNames) -> (r: Vec<OfficialPackStatusTarget>)
    ensures
        known_targets(r@, agent.pack@),
{
    let pack = agent.pack.as_str();
    let old_name = concat2(pack, "-code");
    let mut names = no_strings();
    push_copy(&mut names, pack);
    push_copy(&mut names, old_name.as_str());
    assert(views(names@) =~= seq![pack@, pack@ + "-code"@]);
    let mut codex = no_strings();
    push_copy(&mut codex, "codex");
    assert(views(codex@) =~= seq!["codex"@]);
    let mut r: Vec<OfficialPackStatusTarget> = Vec::new();
    r.push(
        OfficialPackStatusTarget {
            namespace: copy_str(OFFICIAL_NAMESPACE),
            name: copy_str(pack),
            profiles: names,
        },
    );
    r.push(
        OfficialPackStatusTarget {
            namespace: copy_str(OFFICIAL_NAMESPACE),
            name: copy_str("codex"),
            profiles: codex,
        },
    );
    r
}

/// The names of the profiles that a pack provides.
pub open spec fn official_name(target: OfficialPackStatusTarget, name: Seq<char>) -> bool {
    views(target.profiles@).contains(name)
}

pub fn is_official_profile_name(target: &OfficialPackStatusTarget, name: &str) -> (r: bool)
    ensures
        r == official_name(*target, name@),
{
    contains_str(&target.profiles, name)
}

/// A reference to the pack, perhaps in a given version.
pub open spec fn official_ref(target: OfficialPackStatusTarget, value: Seq<char>) -> bool {
    value == target.key_text() || has_prefix(value, target.key_text() + "@"@)
}

pub fn is_official_package_ref(target: &OfficialPackStatusTarget, value: &str) -> (r: bool)
    ensures
        r == official_ref(*target, value@),
{
    let key = target.key();
    let versioned = concat2(key.as_str(), "@");
    str_eq(value, key.as_str()) || str_starts_with(value, versioned.as_str())
}

/// A profile depends on a pack: it is named by the pack, or it builds on a profile of the pack,
/// directly or not.
pub open spec fn depends_on(
    target: OfficialPackStatusTarget,
    name: Seq<char>,
    t: Seq<(String, Vec<String>)>,
) -> bool {
    official_ref(target, name) || exists|i: int|
        0 <= i < reached(t, name).len() && official_name(target, #[trigger] reached(t, name)[i])
}

/// Whether a profile depends on an official pack.
pub fn depends_on_official_pack_profile(target: &OfficialPackStatusTarget, name: &str, t: &BaseTable) -> (r: bool)
    ensures
        r == depends_on(*target, name@, t@),
{
    if is_official_package_ref(target, name) {
        return true;
    }
    let all = walk_bases(t, name);
    let ghost l = views(all@);
    let mut i: usize = 0;
    while i < all.len()
        invariant
            i <= all@.len(),
            l == views(all@),
            l == reached(t@, name@),
            !official_ref(*target, name@),
            forall|k: int| 0 <= k < i ==> !official_name(*target, #[trigger] l[k]),
        decreases all@.len() - i,
    {
        assert(l[i as int] == all@[i as int]@);
        if is_official_profile_name(target, all[i].as_str()) {
            return true;
        }
        i += 1;
    }
    false
}

/// The places of the official packs, among the first `n`, on which a profile depends.
pub open spec fn needed_packs(
    targets: Seq<OfficialPackStatusTarget>,
    name: Seq<char>,
    t: Seq<(String, Vec<String>)>,
    n: nat,
) -> Seq<int>
    decreases n,
{
    if n == 0 {
        Seq::empty()
    } else {
        let front = needed_packs(targets, name, t, (n - 1) as nat);
        if depends_on(targets[n - 1], name, t) {
            front.push(n - 1)
        } else {
            front
        }
    }
}

/// The official packs on which the active profile depends.
pub open spec fn packs_to_enforce(
    targets: Seq<OfficialPackStatusTarget>,
    name: Option<Seq<char>>,
    t: Seq<(String, Vec<String>)>,
) -> Seq<int> {
    match name {
        None => Seq::empty(),
        Some(n) => needed_packs(targets, n, t, targets.len()),
    }
}

/// Chooses, by their places, the packs whose state has to be looked at before a run.
pub fn packs_to_look_at(
    targets: &Vec<OfficialPackStatusTarget>,
    name: &Option<String>,
    t: &BaseTable,
) -> (r: Vec<usize>)
    ensures
        r@.map_values(|i: usize| i as int) == packs_to_enforce(targets@, opt_view(*name), t@),
{
    let mut r: Vec<usize> = Vec::new();
    let ghost places = |i: usize| i as int;
    assert(r@.map_values(places) =~= Seq::<int>::empty());
    if let Some(n) = name {
        let mut i: usize = 0;
        while i < targets.len()
            invariant
                i <= targets@.len(),
                places == |i: usize| i as int,
                r@.map_values(places) == needed_packs(targets@, n@, t@, i as nat),
            decreases targets@.len() - i,
        {
            if depends_on_official_pack_profile(&targets[i], n.as_str(), t) {
                let ghost before = r@;
                r.push(i);
                assert(r@.map_values(places) =~= before.map_values(places).push(i as int));
            }
            i += 1;
        }
    }
    r
}

/// Every official pack on which the active profile depends is looked at, and no other.
pub proof fn law_needed_packs_are_looked_at(
    targets: Seq<OfficialPackStatusTarget>,
    name: Seq<char>,
    t: Seq<(String, Vec<String>)>,
    i: int,
)
    requires
        0 <= i < targets.len(),
    ensures
        packs_to_enforce(targets, Some(name), t).contains(i) <==> depends_on(targets[i], name, t),
{
    lemma_needed_packs(targets, name, t, targets.len(), i);
}

proof fn lemma_needed_packs(
    targets: Seq<OfficialPackStatusTarget>,
    name: Seq<char>,
    t: Seq<(String, Vec<String>)>,
    n: nat,
    i: int,
)
    requires
        n <= targets.len(),
    ensures
        needed_packs(targets, name, t, n).contains(i) <==> 0 <= i < n && depends_on(
            targets[i],
            name,
            t,
        ),
    decreases n,
{
    if n > 0 {
        lemma_needed_packs(targets, name, t, (n - 1) as nat, i);
        let front = needed_packs(targets, name, t, (n - 1) as nat);
        if depends_on(targets[n - 1], name, t) {
            let all = front.push(n - 1);
            assert(all.last() == n - 1);
            if front.contains(i) {
                let k = choose|k: int| 0 <= k < front.len() && front[k] == i;
                assert(all[k] == i);
            }
            if all.contains(i) && i != n - 1 {
                let k = choose|k: int| 0 <= k < all.len() && all[k] == i;
                assert(front[k] == i);
            }
        }
    }
}

/// What is appended to a message.
pub open spec fn yank_reason_text(s: PackageStatusResponse) -> Seq<char> {
    match s.yank_reason {
        Some(r) => " (reason: "@ + r@ + ")"@,
        None => ""@,
    }
}

pub open spec fn advisory_text(s: PackageStatusResponse) -> Seq<char> {
    match s.advisory {
        Some(a) => "\nadvisory: "@ + (match a.severity {
            Some(x) => x@,
            None => "unknown"@,
        }) + " - "@ + (match a.summary {
            Some(x) => x@,
            None => "no summary provided"@,
        }),
        None => ""@,
    }
}

pub open spec fn remedy_text(key: Seq<char>, s: PackageStatusResponse) -> Seq<char> {
    match s.latest {
        Some(l) => "\nupdate before launching this profile: nono pull "@ + key + "@"@ + l@
            + " --force"@,
        None => {
            "\nno replacement version was returned by the registry; inspect package versions before launching this profile"@
        },
    }
}

/// The message for a pack that was withdrawn.
pub open spec fn yanked_text(key: Seq<char>, installed: Seq<char>, s: PackageStatusResponse) -> Seq<char> {
    "official pack "@ + key + "@"@ + installed + " has been yanked by the registry"@
        + yank_reason_text(s) + advisory_text(s) + remedy_text(key, s)
}

pub fn yanked_message(key: &str, installed: &str, s: &PackageStatusResponse) -> (r: String)
    ensures
        r@ == yanked_text(key@, installed@, *s),
{
    let reason = match &s.yank_reason {
        Some(x) => concat3(" (reason: ", x.as_str(), ")"),
        None => copy_str(""),
    };
    let advisory = match &s.advisory {
        Some(a) => {
            let severity = match &a.severity {
                Some(x) => x.as_str(),
                None => "unknown",
            };
            let summary = match &a.summary {
                Some(x) => x.as_str(),
                None => "no summary provided",
            };
            concat4("\nadvisory: ", severity, " - ", summary)
        },
        None => copy_str(""),
    };
    let remedy = match &s.latest {
        Some(l) => concat5(
            "\nupdate before launching this profile: nono pull ",
            key,
            "@",
            l.as_str(),
            " --force",
        ),
        None => copy_str(
            "\nno replacement version was returned by the registry; inspect package versions before launching this profile",
        ),
    };
    let head = concat5(
        "official pack ",
        key,
        "@",
        installed,
        " has been yanked by the registry",
    );
    concat4(head.as_str(), reason.as_str(), advisory.as_str(), remedy.as_str())
}

/// The registry to ask: the one of the lockfile, unless it names none.
pub fn status_registry(lockfile: &Lockfile) -> (r: Option<String>)
    ensures
        opt_view(r) == if trim(lockfile.registry@).len() == 0 {
            None
        } else {
            Some(lockfile.registry@)
        },
{
    if str_is_blank(lockfile.registry.as_str()) {
        None
    } else {
        Some(copy_str(lockfile.registry.as_str()))
    }
}

/// What is said of a pack that is neither current nor withdrawn.
pub open spec fn status_notes(
    key: Seq<char>,
    version: Seq<char>,
    word: Seq<char>,
    latest: Option<Seq<char>>,
) -> Seq<Seq<char>> {
    let head = Seq::<Seq<char>>::empty().push(
        "  [nono] official pack "@ + key + "@"@ + version + " status: "@ + word,
    );
    match latest {
        Some(l) => head.push(
            "  [nono] update with: nono pull "@ + key + "@"@ + l + " --force"@,
        ),
        None => head,
    }
}

/// Why a pack stops a run: the installed release was withdrawn. Where the registry could not be
/// asked, nothing is held against the pack.
pub open spec fn status_failure(
    target: OfficialPackStatusTarget,
    version: Seq<char>,
    status: Option<PackageStatusResponse>,
) -> Option<ErrorView> {
    match status {
        Some(s) => if opt_view(s.installed_status) == Some("yanked"@) {
            Some(ErrorView::ActionRequired(yanked_text(target.key_text(), version, s)))
        } else {
            None
        },
        None => None,
    }
}

/// What is said of a pack that does not stop a run.
pub open spec fn status_lines(
    target: OfficialPackStatusTarget,
    version: Seq<char>,
    status: Option<PackageStatusResponse>,
    silent: bool,
) -> Seq<Seq<char>> {
    match status {
        Some(s) => match s.installed_status {
            Some(w) => if w@ == "current"@ || silent {
                Seq::empty()
            } else {
                status_notes(target.key_text(), version, w@, opt_view(s.latest))
            },
            None => Seq::empty(),
        },
        None => Seq::empty(),
    }
}

/// What the registry's answer means for a run: a failure where the installed release was
/// withdrawn, else what is said.
pub fn enforce_official_pack_status(
    target: &OfficialPackStatusTarget,
    version: &str,
    status: &Option<PackageStatusResponse>,
    silent: bool,
) -> (r: Result<Vec<String>, NonoError>)
    ensures
        match r {
            Ok(v) => {
                &&& status_failure(*target, version@, *status) is None
                &&& views(v@) == status_lines(*target, version@, *status, silent)
            },
            Err(e) => status_failure(*target, version@, *status) == Some(e@),
        },
{
    let mut notes: Vec<String> = Vec::new();
    assert(views(notes@) =~= Seq::<Seq<char>>::empty());
    let s = match status {
        Some(s) => s,
        None => {
            return Ok(notes);
        },
    };
    let w = match &s.installed_status {
        Some(w) => w.as_str(),
        None => {
            return Ok(notes);
        },
    };
    let key = target.key();
    if str_eq(w, "yanked") {
        return Err(NonoError::ActionRequired(yanked_message(key.as_str(), version, s)));
    }
    if str_eq(w, "current") || silent {
        return Ok(notes);
    }
    let head = concat5("  [nono] official pack ", key.as_str(), "@", version, " status: ");
    let line = concat2(head.as_str(), w);
    push_copy(&mut notes, line.as_str());
    if let Some(l) = &s.latest {
        let line = concat5(
            "  [nono] update with: nono pull ",
            key.as_str(),
            "@",
            l.as_str(),
            " --force",
        );
        push_copy(&mut notes, line.as_str());
    }
    Ok(notes)
}

/// The version in which the lockfile holds a pack on which the profile depends.
pub open spec fn enforced_version(
    target: OfficialPackStatusTarget,
    name: Seq<char>,
    t: Seq<(String, Vec<String>)>,
    lockfile: Lockfile,
) -> Option<Seq<char>> {
    if depends_on(target, name, t) {
        match lookup(lockfile.packages@, target.key_text()) {
            Some(p) => Some(p.version@),
            None => None,
        }
    } else {
        None
    }
}

/// Why one of the first `n` official packs stops a run with a profile.
pub open spec fn active_failure(
    targets: Seq<OfficialPackStatusTarget>,
    name: Seq<char>,
    t: Seq<(String, Vec<String>)>,
    lockfile: Lockfile,
    statuses: Seq<Option<PackageStatusResponse>>,
    n: nat,
) -> Option<ErrorView>
    decreases n,
{
    if n == 0 {
        None
    } else {
        match active_failure(targets, name, t, lockfile, statuses, (n - 1) as nat) {
            Some(e) => Some(e),
            None => match enforced_version(targets[n - 1], name, t, lockfile) {
                Some(v) => status_failure(targets[n - 1], v, statuses[n - 1]),
                None => None,
            },
        }
    }
}

/// What is said of the first `n` official packs in a run with a profile.
pub open spec fn active_lines(
    targets: Seq<OfficialPackStatusTarget>,
    name: Seq<char>,
    t: Seq<(String, Vec<String>)>,
    lockfile: Lockfile,
    statuses: Seq<Option<PackageStatusResponse>>,
    silent: bool,
    n: nat,
) -> Seq<Seq<char>>
    decreases n,
{
    if n == 0 {
        Seq::empty()
    } else {
        active_lines(targets, name, t, lockfile, statuses, silent, (n - 1) as nat)
            + match enforced_version(targets[n - 1], name, t, lockfile) {
            Some(v) => status_lines(targets[n - 1], v, statuses[n - 1], silent),
            None => Seq::empty(),
        }
    }
}

proof fn lemma_active_failure(
    targets: Seq<OfficialPackStatusTarget>,
    name: Seq<char>,
    t: Seq<(String, Vec<String>)>,
    lockfile: Lockfile,
    statuses: Seq<Option<PackageStatusResponse>>,
    i: int,
    n: nat,
)
    requires
        0 <= i <= n,
        active_failure(targets, name, t, lockfile, statuses, i as nat) is Some,
    ensures
        active_failure(targets, name, t, lockfile, statuses, n) == active_failure(
            targets,
            name,
            t,
            lockfile,
            statuses,
            i as nat,
        ),
    decreases n,
{
    if i < n {
        lemma_active_failure(targets, name, t, lockfile, statuses, i, (n - 1) as nat);
    }
}

/// Holds the official packs on which a profile depends to what the registry says of them, each
/// target with its own answer.
pub fn enforce_for_active_profile(
    targets: &Vec<OfficialPackStatusTarget>,
    name: &str,
    t: &BaseTable,
    lockfile: &Lockfile,
    statuses: &Vec<Option<PackageStatusResponse>>,
    silent: bool,
) -> (r: Result<Vec<String>, NonoError>)
    requires
        statuses@.len() == targets@.len(),
    ensures
        match r {
            Ok(v) => {
                &&& active_failure(targets@, name@, t@, *lockfile, statuses@, targets@.len()) is None
                &&& views(v@) == active_lines(
                    targets@,
                    name@,
                    t@,
                    *lockfile,
                    statuses@,
                    silent,
                    targets@.len(),
                )
            },
            Err(e) => active_failure(targets@, name@, t@, *lockfile, statuses@, targets@.len())
                == Some(e@),
        },
{
    let mut lines: Vec<String> = Vec::new();
    assert(views(lines@) =~= Seq::<Seq<char>>::empty());
    let mut i: usize = 0;
    while i < targets.len()
        invariant
            i <= targets@.len(),
            statuses@.len() == targets@.len(),
            active_failure(targets@, name@, t@, *lockfile, statuses@, i as nat) is None,
            views(lines@) == active_lines(
                targets@,
                name@,
                t@,
                *lockfile,
                statuses@,
                silent,
                i as nat,
            ),
        decreases targets@.len() - i,
    {
        let ghost before = views(lines@);
        let mut more: Vec<String> = Vec::new();
        assert(views(more@) =~= Seq::<Seq<char>>::empty());
        if depends_on_official_pack_profile(&targets[i], name, t) {
            let key = targets[i].key();
            if let Some(p) = find_key(&lockfile.packages, key.as_str()) {
                match enforce_official_pack_status(
                    &targets[i],
                    lockfile.packages[p].1.version.as_str(),
                    &statuses[i],
                    silent,
                ) {
                    Ok(v) => {
                        more = v;
                    },
                    Err(e) => {
                        proof {
                            lemma_active_failure(
                                targets@,
                                name@,
                                t@,
                                *lockfile,
                                statuses@,
                                i + 1,
                                targets@.len(),
                            );
                        }
                        return Err(e);
                    },
                }
            }
        }
        extend_strings(&mut lines, &more);
        assert(views(lines@) =~= before + views(more@));
        i += 1;
    }
    Ok(lines)
}

/// The message for a withdrawn release ends with the command that installs the latest one, where
/// there is one.
pub proof fn law_yanked_message_names_the_remedy(key: Seq<char>, installed: Seq<char>, s: PackageStatusResponse)
    requires
        s.latest is Some,
    ensures
        ({
            let command = "nono pull "@ + key + "@"@ + (s.latest->0)@ + " --force"@;
            exists|front: Seq<char>| yanked_text(key, installed, s) == #[trigger] (front + command)
        }),
{
    reveal_strlit("\nupdate before launching this profile: nono pull ");
    reveal_strlit("\nupdate before launching this profile: ");
    reveal_strlit("nono pull ");
    let command = "nono pull "@ + key + "@"@ + (s.latest->0)@ + " --force"@;
    let lead = "\nupdate before launching this profile: "@;
    assert("\nupdate before launching this profile: nono pull "@ =~= lead + "nono pull "@);
    assert(remedy_text(key, s) =~= lead + command);
    let front = "official pack "@ + key + "@"@ + installed + " has been yanked by the registry"@
        + yank_reason_text(s) + advisory_text(s) + lead;
    assert(yanked_text(key, installed, s) =~= front + command);
}

} // verus!
