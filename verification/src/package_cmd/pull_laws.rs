//! What a pack must be to be installed, and where its files go.

use crate::assoc::{has_key, lookup};
use crate::error::ErrorView;
use crate::package::{
    install_dir, ArtifactEntry, ArtifactType, LockedArtifact, LockedPackage, PackageManifest,
    PackageRef, PullResponse, WiringRecord,
};
use crate::package_cmd::pull::{
    artifact_target, artifacts_are, download_failure, filenames, files_failure, files_untrusted,
    groups_failure, install_plan, install_step, is_subject, law_releases_share_a_signer,
    locked_digest, manifest_failure, namespace_failure, path_failure, pinning_failure,
    pull_failure, release_untrusted, signer_uri, written_files, DownloadFacts, DownloadedArtifact,
    FileContents, InstallStepView, SignerIdentity,
};
use crate::package_cmd::versions::{normalized, semver_error, semver_order};
use crate::paths::{components, file_name, is_absolute, is_part, joined};
use crate::text::laws::{law_parts_of_texts, law_split_at_separator, law_split_without_separator};
use crate::text::{
    first_index, has_prefix, lemma_first_index, lemma_in_either, lemma_in_filtered, lemma_in_views,
    split_on, views,
};
use core::cmp::Ordering;
use vstd::prelude::*;

verus! {

// ---------------------------------------------------------------------------
// The registry's answer
// ---------------------------------------------------------------------------

/// A path that stays below the directory that it is put in: it does not begin at the root, and no
/// part of it leads up.
pub open spec fn stays_below(path: Seq<char>) -> bool {
    &&& !(path.len() > 0 && path[0] == '/')
    &&& !split_on(path, '/').contains(".."@)
}

proof fn lemma_stays_below(path: Seq<char>)
    ensures
        path_failure(path) is None <==> stays_below(path),
{
    reveal_strlit("..");
    reveal_strlit(".");
    reveal_strlit("/");
    let parts = split_on(path, '/');
    let keep = |p: Seq<char>| is_part(p);
    lemma_in_filtered(parts, keep, ".."@);
    assert(".."@.len() == 2 && "."@.len() == 1 && "/"@.len() == 1);
    assert(".."@ != "."@ && ".."@ != "/"@);
    assert(keep(".."@));
    let head = if is_absolute(path) {
        seq!["/"@]
    } else if parts[0] == "."@ {
        seq!["."@]
    } else {
        Seq::<Seq<char>>::empty()
    };
    lemma_in_either(head, parts.filter(keep), ".."@);
    assert(!head.contains(".."@));
    assert(components(path) == head + parts.filter(keep));
}

proof fn lemma_accepted(key: Seq<char>, names: Seq<Seq<char>>)
    ensures
        files_failure(key, names) is None <==> {
            &&& forall|i: int| 0 <= i < names.len() ==> stays_below(#[trigger] names[i])
            &&& forall|i: int, j: int|
                0 <= i < j < names.len() ==> #[trigger] names[i] != #[trigger] names[j]
        },
    decreases names.len(),
{
    if names.len() > 0 {
        let front = names.drop_last();
        lemma_accepted(key, front);
        lemma_stays_below(names.last());
        assert(names[names.len() - 1] == names.last());
        if files_failure(key, names) is None {
            assert forall|i: int| 0 <= i < names.len() implies stays_below(#[trigger] names[i]) by {
                if i < front.len() {
                    assert(front[i] == names[i]);
                }
            }
            assert forall|i: int, j: int| 0 <= i < j < names.len() implies #[trigger] names[i]
                != #[trigger] names[j] by {
                assert(front[i] == names[i]);
                if j < front.len() {
                    assert(front[j] == names[j]);
                } else {
                    assert(front.contains(front[i]));
                }
            }
        } else if (forall|i: int| 0 <= i < names.len() ==> stays_below(#[trigger] names[i])) && (
        forall|i: int, j: int|
            0 <= i < j < names.len() ==> #[trigger] names[i] != #[trigger] names[j]) {
            assert forall|i: int| 0 <= i < front.len() implies stays_below(#[trigger] front[i]) by {
                assert(front[i] == names[i]);
            }
            assert forall|i: int, j: int| 0 <= i < j < front.len() implies #[trigger] front[i]
                != #[trigger] front[j] by {
                assert(front[i] == names[i] && front[j] == names[j]);
            }
            if front.contains(names.last()) {
                let i = choose|i: int| 0 <= i < front.len() && front[i] == names.last();
                assert(names[i] == names[names.len() - 1]);
            }
        }
    }
}

/// The registry's answer is accepted exactly where it is on the pack that was asked for, names some
/// file, names each once, and none outside the pack's directory.
pub proof fn law_accepted_answers(package_ref: PackageRef, pull: PullResponse)
    ensures
        pull_failure(package_ref, pull) is None <==> {
            &&& pull.namespace@ == package_ref.namespace@
            &&& pull.name@ == package_ref.name@
            &&& pull.artifacts@.len() > 0
            &&& forall|i: int|
                0 <= i < pull.artifacts@.len() ==> stays_below(
                    (#[trigger] pull.artifacts@[i]).filename@,
                )
            &&& forall|i: int, j: int|
                0 <= i < j < pull.artifacts@.len() ==> (#[trigger] pull.artifacts@[i]).filename@
                    != (#[trigger] pull.artifacts@[j]).filename@
        },
{
    let a = pull.artifacts@;
    let names = filenames(a);
    lemma_accepted(package_ref@.key(), names);
    assert forall|i: int| 0 <= i < a.len() implies names[i] == (#[trigger] a[i]).filename@ by {}
    if forall|i: int| 0 <= i < names.len() ==> stays_below(#[trigger] names[i]) {
        assert forall|i: int| 0 <= i < a.len() implies stays_below((#[trigger] a[i]).filename@) by {
            assert(stays_below(names[i]));
        }
    }
    if forall|i: int| 0 <= i < a.len() ==> stays_below((#[trigger] a[i]).filename@) {
        assert forall|i: int| 0 <= i < names.len() implies stays_below(#[trigger] names[i]) by {
            assert(stays_below(a[i].filename@));
        }
    }
    if forall|i: int, j: int|
        0 <= i < j < names.len() ==> #[trigger] names[i] != #[trigger] names[j] {
        assert forall|i: int, j: int| 0 <= i < j < a.len() implies (#[trigger] a[i]).filename@ != (
        #[trigger] a[j]).filename@ by {
            assert(names[i] != names[j]);
        }
    }
    if forall|i: int, j: int|
        0 <= i < j < a.len() ==> (#[trigger] a[i]).filename@ != (#[trigger] a[j]).filename@ {
        assert forall|i: int, j: int| 0 <= i < j < names.len() implies #[trigger] names[i]
            != #[trigger] names[j] by {
            assert(a[i].filename@ != a[j].filename@);
        }
    }
}

// ---------------------------------------------------------------------------
// Signers
// ---------------------------------------------------------------------------

/// A signer may sign for a namespace exactly where it is a workflow in a repository of that
/// namespace.
pub proof fn law_owners_sign(package_ref: PackageRef, signer: SignerIdentity)
    requires
        !package_ref.namespace@.contains('/'),
    ensures
        namespace_failure(package_ref, signer) is None <==> match signer {
            SignerIdentity::Keyed { .. } => false,
            SignerIdentity::Keyless { repository, .. } => {
                ||| repository@ == package_ref.namespace@
                ||| exists|name: Seq<char>|
                    repository@ == #[trigger] (package_ref.namespace@ + seq!['/'] + name)
            },
        },
{
    if let SignerIdentity::Keyless { repository, .. } = signer {
        let ns = package_ref.namespace@;
        let r = repository@;
        lemma_first_index(r, '/');
        let i = first_index(r, '/');
        if split_on(r, '/')[0] == ns {
            if 0 <= i < r.len() {
                assert(split_on(r, '/')[0] =~= r.take(i));
                assert(r =~= ns + seq!['/'] + r.skip(i + 1));
            }
        }
        if r == ns {
            law_split_without_separator(r, '/');
        }
        if exists|name: Seq<char>| r == #[trigger] (ns + seq!['/'] + name) {
            let name = choose|name: Seq<char>| r == #[trigger] (ns + seq!['/'] + name);
            law_split_at_separator(ns, '/', name);
        }
    }
}

/// A release is trusted exactly where something is signed, the signature holds, a workflow of the
/// namespace signed, and every file was read with the digest that the registry names, which is one
/// of those that were signed.
pub proof fn law_trusted_releases(package_ref: PackageRef, pull: PullResponse, f: DownloadFacts)
    ensures
        release_untrusted(package_ref, pull, f) is None <==> {
            &&& f.subjects@.len() > 0
            &&& f.signature is Ok
            &&& f.signer is Ok
            &&& namespace_failure(package_ref, f.signer->Ok_0) is None
            &&& forall|i: int| 0 <= i < pull.artifacts@.len() ==> #[trigger] is_trusted(pull, f, i)
        },
{
    lemma_trusted(package_ref@.key(), pull, f, pull.artifacts@.len());
}

/// A file was read with the digest that the registry names, and that was signed.
pub open spec fn is_trusted(pull: PullResponse, f: DownloadFacts, i: int) -> bool {
    &&& f.digests@[i] is Ok
    &&& (f.digests@[i]->Ok_0)@ == pull.artifacts@[i].sha256_digest@
    &&& exists|k: int|
        0 <= k < f.subjects@.len() && (#[trigger] f.subjects@[k]).1@
            == pull.artifacts@[i].sha256_digest@
}

proof fn lemma_trusted(key: Seq<char>, pull: PullResponse, f: DownloadFacts, n: nat)
    ensures
        files_untrusted(key, pull.artifacts@, f.digests@, f.subjects@, n) is None <==> forall|
            i: int,
        |
            0 <= i < n ==> #[trigger] is_trusted(pull, f, i),
    decreases n,
{
    if n > 0 {
        lemma_trusted(key, pull, f, (n - 1) as nat);
        let k = n - 1;
        assert(is_trusted(pull, f, k) <==> f.digests@[k] is Ok && download_failure(
            key,
            pull.artifacts@[k].filename@,
            pull.artifacts@[k].sha256_digest@,
            (f.digests@[k]->Ok_0)@,
            f.subjects@,
        ) is None) by {
            assert(is_subject(f.subjects@, pull.artifacts@[k].sha256_digest@) <==> exists|i: int|
                0 <= i < f.subjects@.len() && (#[trigger] f.subjects@[i]).1@
                    == pull.artifacts@[k].sha256_digest@);
        }
    }
}

/// An installed pack is replaced by one that another workflow or repository signed only where that
/// is forced; one without a known signer is replaced in any case, and a new tag is no new signer.
pub proof fn law_signers_are_pinned(
    existing: LockedPackage,
    repo1: Seq<char>,
    workflow1: Seq<char>,
    tag1: Seq<char>,
    signer: SignerIdentity,
    force: bool,
)
    requires
        existing.provenance is Some,
        (existing.provenance->0).signer_identity@ == "https://github.com/"@ + repo1 + "/"@
            + workflow1 + "@"@ + tag1,
        !tag1.contains('@'),
        signer is Keyless ==> !signer->git_ref@.contains('@'),
    ensures
        signer is Keyless ==> (pinning_failure(Some(existing), signer_uri(signer), force) is None
            <==> force || repo1 + "/"@ + workflow1 == signer->repository@ + "/"@
            + signer->workflow@),
        pinning_failure(None, signer_uri(signer), force) is None,
{
    if let SignerIdentity::Keyless { repository, workflow, git_ref } = signer {
        let host = "https://github.com/"@;
        let a = host + repo1 + "/"@ + workflow1;
        let b = host + repository@ + "/"@ + workflow@;
        law_releases_share_a_signer(a, tag1, tag1);
        law_releases_share_a_signer(b, git_ref@, git_ref@);
        let (x, y) = (repo1 + "/"@ + workflow1, repository@ + "/"@ + workflow@);
        assert(a =~= host + x);
        assert(b =~= host + y);
        assert(a.skip(host.len() as int) =~= x);
        assert(b.skip(host.len() as int) =~= y);
    }
}

/// A pack can be used exactly where it names no platforms or this one, and asks for no version of
/// the program or for one that is not later.
pub proof fn law_usable_packs(m: PackageManifest, platform: Seq<char>, current: Seq<char>)
    ensures
        manifest_failure(m, platform, current) is None <==> {
            &&& m.platforms@.len() == 0 || exists|i: int|
                0 <= i < m.platforms@.len() && (#[trigger] m.platforms@[i])@ == platform
            &&& m.min_nono_version is Some ==> {
                let min = normalized((m.min_nono_version->0)@);
                &&& semver_error(normalized(current)) is None
                &&& semver_error(min) is None
                &&& semver_order(normalized(current), min) == Ordering::Equal || semver_order(
                    normalized(current),
                    min,
                ) == Ordering::Greater
            }
        },
{
    lemma_in_views(m.platforms@, platform);
}

// ---------------------------------------------------------------------------
// Installing
// ---------------------------------------------------------------------------

/// A name that is one plain part of a path.
pub open spec fn plain_name(n: Seq<char>) -> bool {
    &&& n.len() > 0
    &&& forall|i: int| 0 <= i < n.len() ==> #[trigger] n[i] != '/' && n[i] != '\\'
    &&& n != "."@
    &&& !exists|a: Seq<char>, b: Seq<char>| n == #[trigger] (a + ".."@ + b)
}

/// Where a file belongs, below the directory of the pack.
pub open spec fn belongs_at(a: ArtifactEntry, target: Seq<char>) -> bool {
    match a.artifact_type {
        ArtifactType::Profile => a.install_as is Some && target == "profiles/"@
            + (a.install_as->0)@ + ".json"@ && plain_name((a.install_as->0)@),
        ArtifactType::Instruction => file_name(a.path@) is Some && target == "instructions/"@
            + file_name(a.path@)->0,
        ArtifactType::TrustPolicy => target == "trust-policy.json"@,
        ArtifactType::Groups => a.prefix is Some && target == "groups.json"@,
        ArtifactType::Plugin => target == a.path@ && stays_below(a.path@),
    }
}

/// A plugin that is a program: a script, or a file in a directory `bin`.
pub open spec fn is_program(a: ArtifactEntry) -> bool {
    &&& a.artifact_type == ArtifactType::Plugin
    &&& (exists|x: Seq<char>| a.path@ == #[trigger] (x + ".sh"@)) || (exists|
        x: Seq<char>,
        y: Seq<char>,
    |
        a.path@ == #[trigger] (x + "/bin/"@ + y))
}

/// A file of groups holds only groups with the prefix that the manifest demands, and none that the
/// program has itself.
pub open spec fn holds_own_groups(a: ArtifactEntry, c: FileContents, embedded: Seq<Seq<char>>) -> bool {
    forall|k: int|
        0 <= k < c.groups@.len() ==> has_prefix((#[trigger] c.groups@[k])@, (a.prefix->0)@)
            && !embedded.contains(c.groups@[k]@)
}

proof fn lemma_own_groups(names: Seq<Seq<char>>, prefix: Seq<char>, embedded: Seq<Seq<char>>)
    ensures
        groups_failure(names, prefix, embedded) is None <==> forall|k: int|
            0 <= k < names.len() ==> has_prefix(#[trigger] names[k], prefix) && !embedded.contains(
                names[k],
            ),
    decreases names.len(),
{
    if names.len() > 0 {
        let rest = names.skip(1);
        lemma_own_groups(rest, prefix, embedded);
        if groups_failure(names, prefix, embedded) is None {
            assert forall|k: int| 0 <= k < names.len() implies has_prefix(
                #[trigger] names[k],
                prefix,
            ) && !embedded.contains(names[k]) by {
                if k > 0 {
                    assert(rest[k - 1] == names[k]);
                }
            }
        } else if forall|k: int|
            0 <= k < names.len() ==> has_prefix(#[trigger] names[k], prefix) && !embedded.contains(
                names[k],
            ) {
            assert(has_prefix(names[0], prefix));
            assert forall|k: int| 0 <= k < rest.len() implies has_prefix(#[trigger] rest[k], prefix)
                && !embedded.contains(rest[k]) by {
                assert(rest[k] == names[k + 1]);
            }
        }
    }
}

proof fn lemma_plain_name(n: Seq<char>)
    ensures
        crate::package_cmd::pull::unsafe_name(n) == !plain_name(n),
{
    law_parts_of_texts(n, ".."@);
    if n.contains('/') {
        let i = choose|i: int| 0 <= i < n.len() && n[i] == '/';
        assert(n[i] == '/');
    }
    if n.contains('\\') {
        let i = choose|i: int| 0 <= i < n.len() && n[i] == '\\';
        assert(n[i] == '\\');
    }
    if !n.contains('/') && !n.contains('\\') {
        assert forall|i: int| 0 <= i < n.len() implies #[trigger] n[i] != '/' && n[i] != '\\' by {
            assert(n.contains(n[i]));
        }
    }
}

/// Where a pack is installed, each file of its manifest was downloaded and goes where files of its
/// kind belong; only plugins that are programs are made executable; and only instructions that are
/// meant for the project are copied there, where that is asked for.
pub proof fn law_files_go_where_they_belong(
    a: Seq<ArtifactEntry>,
    downloaded: Seq<(String, FileContents)>,
    embedded: Seq<Seq<char>>,
    init: bool,
    i: int,
)
    requires
        install_plan(a, downloaded, embedded, init) is Ok,
        0 <= i < a.len(),
    ensures
        (install_plan(a, downloaded, embedded, init)->Ok_0).len() == a.len(),
        has_key(downloaded, a[i].path@),
        ({
            let s = (install_plan(a, downloaded, embedded, init)->Ok_0)[i];
            let c = lookup(downloaded, a[i].path@)->0;
            let for_project = init && a[i].artifact_type == ArtifactType::Instruction
                && a[i].placement is Some && (a[i].placement->0)@ == "project"@;
            &&& s.source == a[i].path@
            &&& belongs_at(a[i], s.target)
            &&& s.executable == is_program(a[i])
            &&& for_project ==> s.project_name == file_name(a[i].path@)
            &&& !for_project ==> s.project_name is None
            &&& a[i].artifact_type == ArtifactType::Profile || a[i].artifact_type
                == ArtifactType::TrustPolicy || a[i].artifact_type == ArtifactType::Groups
                ==> c.readable is Ok
            &&& a[i].artifact_type == ArtifactType::Groups ==> holds_own_groups(a[i], c, embedded)
        }),
{
    lemma_step_of(a, downloaded, embedded, init, i);
    let e = a[i];
    lemma_stays_below(e.path@);
    law_parts_of_texts(e.path@, ".sh"@);
    law_parts_of_texts(e.path@, "/bin/"@);
    if e.install_as is Some {
        lemma_plain_name((e.install_as->0)@);
    }
    let c = lookup(downloaded, e.path@)->0;
    let names = views(c.groups@);
    lemma_own_groups(names, (e.prefix->0)@, embedded);
    if e.artifact_type == ArtifactType::Groups {
        assert forall|k: int| 0 <= k < c.groups@.len() implies has_prefix(
            (#[trigger] c.groups@[k])@,
            (e.prefix->0)@,
        ) && !embedded.contains(c.groups@[k]@) by {
            assert(names[k] == c.groups@[k]@);
        }
    }
}

proof fn lemma_step_of(
    a: Seq<ArtifactEntry>,
    downloaded: Seq<(String, FileContents)>,
    embedded: Seq<Seq<char>>,
    init: bool,
    i: int,
)
    requires
        install_plan(a, downloaded, embedded, init) is Ok,
        0 <= i < a.len(),
    ensures
        (install_plan(a, downloaded, embedded, init)->Ok_0).len() == a.len(),
        install_step(a[i], downloaded, embedded, init) == Ok::<InstallStepView, ErrorView>(
            (install_plan(a, downloaded, embedded, init)->Ok_0)[i],
        ),
    decreases a.len(),
{
    let front = a.drop_last();
    if front.len() > 0 {
        lemma_step_of(
            front,
            downloaded,
            embedded,
            init,
            if i < front.len() {
                i
            } else {
                0
            },
        );
    } else {
        assert(install_plan(front, downloaded, embedded, init) == Ok::<
            Seq<InstallStepView>,
            ErrorView,
        >(Seq::empty()));
    }
    if i < front.len() {
        assert(front[i] == a[i]);
    }
}

/// A file can be installed exactly where it was downloaded, belongs somewhere, and holds what its
/// kind asks for.
pub proof fn law_installable_files(
    a: ArtifactEntry,
    downloaded: Seq<(String, FileContents)>,
    embedded: Seq<Seq<char>>,
    init: bool,
)
    ensures
        install_step(a, downloaded, embedded, init) is Ok <==> {
            &&& has_key(downloaded, a.path@)
            &&& exists|target: Seq<char>| #[trigger] belongs_at(a, target)
            &&& {
                let c = lookup(downloaded, a.path@)->0;
                match a.artifact_type {
                    ArtifactType::Profile | ArtifactType::TrustPolicy => c.readable is Ok,
                    ArtifactType::Groups => c.readable is Ok && holds_own_groups(a, c, embedded),
                    ArtifactType::Instruction | ArtifactType::Plugin => true,
                }
            }
        },
{
    lemma_stays_below(a.path@);
    if a.install_as is Some {
        lemma_plain_name((a.install_as->0)@);
    }
    if artifact_target(a) is Ok {
        assert(belongs_at(a, (artifact_target(a)->Ok_0).0));
    }
    if has_key(downloaded, a.path@) {
        let c = lookup(downloaded, a.path@)->0;
        let names = views(c.groups@);
        lemma_own_groups(names, (a.prefix->0)@, embedded);
        assert(holds_own_groups(a, c, embedded) <==> forall|k: int|
            0 <= k < names.len() ==> has_prefix(#[trigger] names[k], (a.prefix->0)@)
                && !embedded.contains(names[k])) by {
            if holds_own_groups(a, c, embedded) {
                assert forall|k: int| 0 <= k < names.len() implies has_prefix(
                    #[trigger] names[k],
                    (a.prefix->0)@,
                ) && !embedded.contains(names[k]) by {
                    assert(c.groups@[k]@ == names[k]);
                }
            }
            if forall|k: int|
                0 <= k < names.len() ==> has_prefix(#[trigger] names[k], (a.prefix->0)@)
                    && !embedded.contains(names[k]) {
                assert forall|k: int| 0 <= k < c.groups@.len() implies has_prefix(
                    (#[trigger] c.groups@[k])@,
                    (a.prefix->0)@,
                ) && !embedded.contains(c.groups@[k]@) by {
                    assert(names[k] == c.groups@[k]@);
                }
            }
        }
    }
}

/// The groups of an installed pack are found where the groups of a pack are looked for, and no
/// trust policy is put there.
pub proof fn law_installed_groups_are_found(
    a: Seq<ArtifactEntry>,
    downloaded: Seq<(String, FileContents)>,
    embedded: Seq<Seq<char>>,
    init: bool,
    i: int,
    config_dir: Seq<char>,
    namespace: Seq<char>,
    name: Seq<char>,
    groups_path: Seq<char>,
)
    requires
        install_plan(a, downloaded, embedded, init) is Ok,
        0 <= i < a.len(),
        groups_path == joined(install_dir(config_dir, namespace, name), "groups.json"@),
    ensures
        ({
            let target = (install_plan(a, downloaded, embedded, init)->Ok_0)[i].target;
            let path = joined(install_dir(config_dir, namespace, name), target);
            &&& a[i].artifact_type == ArtifactType::Groups ==> path == groups_path
            &&& a[i].artifact_type == ArtifactType::TrustPolicy ==> target != "groups.json"@
            &&& a[i].artifact_type == ArtifactType::Groups ==> target != "trust-policy.json"@
        }),
{
    law_files_go_where_they_belong(a, downloaded, embedded, init, i);
    reveal_strlit("groups.json");
    reveal_strlit("trust-policy.json");
    assert("groups.json"@.len() != "trust-policy.json"@.len());
}

/// The lockfile holds every file that was downloaded but the manifest, under its name and with its
/// digest, as groups, a trust policy, a profile, an instruction or a plugin; and no other file.
pub proof fn law_downloads_are_locked(
    artifacts: Seq<(String, LockedArtifact)>,
    downloads: Seq<DownloadedArtifact>,
    name: Seq<char>,
)
    requires
        artifacts_are(artifacts, downloads),
        forall|i: int, j: int|
            0 <= i < j < downloads.len() ==> (#[trigger] downloads[i]).filename@ != (
            #[trigger] downloads[j]).filename@,
    ensures
        has_key(artifacts, name) <==> name != "package.json"@ && exists|i: int|
            0 <= i < downloads.len() && (#[trigger] downloads[i]).filename@ == name,
        forall|i: int|
            0 <= i < downloads.len() && (#[trigger] downloads[i]).filename@ == name && name
                != "package.json"@ ==> (lookup(artifacts, name)->0).sha256@
                == downloads[i].sha256_digest@,
        has_key(artifacts, name) ==> {
            let t = (lookup(artifacts, name)->0).artifact_type;
            let is_profile = exists|x: Seq<char>| name == #[trigger] (x + ".profile.json"@);
            let is_text = exists|x: Seq<char>| name == #[trigger] (x + ".md"@);
            &&& name == "groups.json"@ ==> t == ArtifactType::Groups
            &&& name == "trust-policy.json"@ ==> t == ArtifactType::TrustPolicy
            &&& name != "groups.json"@ && name != "trust-policy.json"@ ==> {
                &&& is_profile ==> t == ArtifactType::Profile
                &&& !is_profile && is_text ==> t == ArtifactType::Instruction
                &&& !is_profile && !is_text ==> t == ArtifactType::Plugin
            }
        },
{
    lemma_locked(downloads, name);
    law_parts_of_texts(name, ".profile.json"@);
    law_parts_of_texts(name, ".md"@);
    reveal_strlit("groups.json");
    reveal_strlit("trust-policy.json");
    assert("groups.json"@.len() != "trust-policy.json"@.len());
    assert(has_key(artifacts, name) <==> lookup(artifacts, name) is Some);
}

proof fn lemma_locked(downloads: Seq<DownloadedArtifact>, name: Seq<char>)
    requires
        forall|i: int, j: int|
            0 <= i < j < downloads.len() ==> (#[trigger] downloads[i]).filename@ != (
            #[trigger] downloads[j]).filename@,
    ensures
        locked_digest(downloads, name) is Some <==> name != "package.json"@ && exists|i: int|
            0 <= i < downloads.len() && (#[trigger] downloads[i]).filename@ == name,
        forall|i: int|
            0 <= i < downloads.len() && (#[trigger] downloads[i]).filename@ == name && name
                != "package.json"@ ==> locked_digest(downloads, name) == Some(
                downloads[i].sha256_digest@,
            ),
    decreases downloads.len(),
{
    if downloads.len() > 0 {
        let front = downloads.drop_last();
        assert forall|i: int, j: int| 0 <= i < j < front.len() implies (
        #[trigger] front[i]).filename@ != (#[trigger] front[j]).filename@ by {
            assert(front[i] == downloads[i] && front[j] == downloads[j]);
        }
        lemma_locked(front, name);
        assert forall|i: int|
            0 <= i < downloads.len() && (#[trigger] downloads[i]).filename@ == name && name
                != "package.json"@ implies locked_digest(downloads, name) == Some(
            downloads[i].sha256_digest@,
        ) by {
            if i < front.len() {
                assert(front[i] == downloads[i]);
                assert(downloads[i].filename@ != downloads[downloads.len() - 1].filename@);
            }
        }
        if exists|i: int| 0 <= i < front.len() && (#[trigger] front[i]).filename@ == name {
            let i = choose|i: int| 0 <= i < front.len() && (#[trigger] front[i]).filename@ == name;
            assert(downloads[i] == front[i]);
        }
        assert(downloads[downloads.len() - 1] == downloads.last());
    }
}

/// What a pack owns are the files that its record says were written, with the digests they had.
pub proof fn law_owned_files(records: Seq<WiringRecord>, path: Seq<char>, digest: Seq<char>)
    ensures
        written_files(records).contains((path, digest)) <==> exists|i: int|
            0 <= i < records.len() && ({
                let r = #[trigger] records[i];
                r is WriteFile && r->dest@ == path && r->WriteFile_sha256@ == digest
            }),
    decreases records.len(),
{
    if records.len() > 0 {
        let front = records.drop_last();
        law_owned_files(front, path, digest);
        let w = written_files(front);
        let x = (path, digest);
        assert(records[records.len() - 1] == records.last());
        if let WiringRecord::WriteFile { dest, sha256 } = records.last() {
            let all = w.push((dest@, sha256@));
            assert(all.contains(x) <==> w.contains(x) || x == (dest@, sha256@)) by {
                if w.contains(x) {
                    let i = choose|i: int| 0 <= i < w.len() && w[i] == x;
                    assert(all[i] == x);
                }
                if x == (dest@, sha256@) {
                    assert(all[w.len() as int] == x);
                }
            }
        }
        if exists|i: int|
            0 <= i < front.len() && ({
                let r = #[trigger] front[i];
                r is WriteFile && r->dest@ == path && r->WriteFile_sha256@ == digest
            }) {
            let i = choose|i: int|
                0 <= i < front.len() && ({
                    let r = #[trigger] front[i];
                    r is WriteFile && r->dest@ == path && r->WriteFile_sha256@ == digest
                });
            assert(records[i] == front[i]);
        }
        if exists|i: int|
            0 <= i < records.len() && ({
                let r = #[trigger] records[i];
                r is WriteFile && r->dest@ == path && r->WriteFile_sha256@ == digest
            }) {
            let i = choose|i: int|
                0 <= i < records.len() && ({
                    let r = #[trigger] records[i];
                    r is WriteFile && r->dest@ == path && r->WriteFile_sha256@ == digest
                });
            if i < front.len() {
                assert(front[i] == records[i]);
            }
        }
    }
}

/// A pack counts as installed exactly where the very version is and nothing forces it to be installed
/// anew; and a pack that is not there was not pinned.
pub proof fn law_packs_that_are_there(
    lockfile: crate::package::Lockfile,
    key: Seq<char>,
    version: Seq<char>,
    force: bool,
)
    ensures
        ({
            let entry = lookup(lockfile.packages@, key);
            &&& crate::package_cmd::pull::is_installed(lockfile, key, version, force) <==> !force
                && entry is Some && (entry->0).version@ == version
            &&& crate::package_cmd::pull::was_pinned(lockfile.packages@, key) <==> entry is Some && (
            entry->0).pinned
        }),
{
}

} // verus!
