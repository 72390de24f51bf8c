//! Fetching and installing a pack.

use crate::assoc::{find_key, has_key, in_key_order, law_set_then_get, lookup, set_entry};
use crate::error::{ErrorView, NonoError};
use crate::json::{
    add_element, copy_json, elements, field, json_array, json_object, json_text, no_members,
    put_field, Json, JsonView,
};
use crate::migration::{is_hook_pack_name, names_hook_pack, AgentNames};
use crate::package::{
    ArtifactEntry, ArtifactType, LockedArtifact, LockedPackage, Lockfile, PackageManifest,
    PackageProvenance, PackageRef, PullArtifact, PullResponse, WiringRecord, LOCKFILE_VERSION,
};
use crate::package_cmd::versions::{
    check_version_order, compare_versions, normalized, semver_error, semver_order, version_failure,
};
use crate::paths::{components, file_name, is_absolute, is_absolute_path, path_components, path_file_name};
use crate::text::{
    chars_of, concat2, concat3, concat4, concat5, concat6, contains_char, contains_str, copy_str,
    decimal, find_last, from_chars, has_prefix, has_sub, has_suffix, last_index, lemma_last_index,
    lemma_last_index_is, opt_view, split_on, str_contains, str_ends_with, str_eq, str_split,
    str_starts_with, sub_chars, usize_to_string, views,
};
use core::cmp::Ordering;
use vstd::prelude::*;

verus! {

// ---------------------------------------------------------------------------
// The registry's answer
// ---------------------------------------------------------------------------

/// The version to ask the registry for.
pub fn requested_version(package_ref: &PackageRef) -> (r: String)
    ensures
        r@ == match package_ref@.version {
            Some(v) => v,
            None => "latest"@,
        },
{
    match &package_ref.version {
        Some(v) => copy_str(v.as_str()),
        None => copy_str("latest"),
    }
}

/// Why a path cannot be the place of an artifact.
pub open spec fn path_failure(path: Seq<char>) -> Option<ErrorView> {
    if is_absolute(path) {
        Some(
            ErrorView::PackageInstall(
                "artifact path must be relative, got '"@ + path + "'"@,
            ),
        )
    } else if components(path).contains(".."@) {
        Some(ErrorView::PackageInstall("artifact path contains '..': '"@ + path + "'"@))
    } else {
        None
    }
}

/// An artifact must stay below the directory that it is put in.
pub fn validate_relative_path(path: &str) -> (r: Result<(), NonoError>)
    ensures
        match r {
            Ok(()) => path_failure(path@) is None,
            Err(e) => path_failure(path@) == Some(e@),
        },
{
    if is_absolute_path(path) {
        return Err(
            NonoError::PackageInstall(
                concat3("artifact path must be relative, got '", path, "'"),
            ),
        );
    }
    if contains_str(&path_components(path), "..") {
        return Err(
            NonoError::PackageInstall(concat3("artifact path contains '..': '", path, "'")),
        );
    }
    Ok(())
}

/// The names of the files.
pub open spec fn filenames(a: Seq<PullArtifact>) -> Seq<Seq<char>> {
    a.map_values(|x: PullArtifact| x.filename@)
}

/// The failure of the first file that has a bad path or a name that occurred before.
pub open spec fn files_failure(key: Seq<char>, names: Seq<Seq<char>>) -> Option<ErrorView>
    decreases names.len(),
{
    if names.len() == 0 {
        None
    } else {
        match files_failure(key, names.drop_last()) {
            Some(e) => Some(e),
            None => match path_failure(names.last()) {
                Some(e) => Some(e),
                None => if names.drop_last().contains(names.last()) {
                    Some(
                        ErrorView::PackageVerification {
                            package: key,
                            reason: "pull response includes duplicate artifact '"@ + names.last()
                                + "'"@,
                        },
                    )
                } else {
                    None
                },
            },
        }
    }
}

/// Why an answer of the registry cannot be used.
pub open spec fn pull_failure(package_ref: PackageRef, pull: PullResponse) -> Option<ErrorView> {
    let key = package_ref@.key();
    if pull.namespace@ != package_ref.namespace@ || pull.name@ != package_ref.name@ {
        Some(
            ErrorView::PackageVerification {
                package: key,
                reason: "registry returned "@ + pull.namespace@ + " / "@ + pull.name@
                    + " for requested package "@ + key,
            },
        )
    } else if pull.artifacts@.len() == 0 {
        Some(
            ErrorView::PackageVerification {
                package: key,
                reason: "pull response did not include any artifacts"@,
            },
        )
    } else {
        files_failure(key, filenames(pull.artifacts@))
    }
}

proof fn lemma_files_failure(key: Seq<char>, names: Seq<Seq<char>>, i: int)
    requires
        0 <= i <= names.len(),
        files_failure(key, names.take(i)) is Some,
    ensures
        files_failure(key, names) == files_failure(key, names.take(i)),
    decreases names.len(),
{
    if i == names.len() {
        assert(names.take(i) =~= names);
    } else {
        assert(names.drop_last().take(i) =~= names.take(i));
        lemma_files_failure(key, names.drop_last(), i);
    }
}

fn is_earlier_name(artifacts: &Vec<PullArtifact>, n: usize) -> (r: bool)
    requires
        n < artifacts@.len(),
    ensures
        r == filenames(artifacts@).take(n as int).contains(artifacts@[n as int].filename@),
{
    let ghost names = filenames(artifacts@);
    let mut i: usize = 0;
    while i < n
        invariant
            i <= n < artifacts@.len(),
            names == filenames(artifacts@),
            forall|k: int| 0 <= k < i ==> #[trigger] names[k] != artifacts@[n as int].filename@,
        decreases n - i,
    {
        assert(names[i as int] == artifacts@[i as int].filename@);
        if str_eq(artifacts[i].filename.as_str(), artifacts[n].filename.as_str()) {
            assert(names.take(n as int)[i as int] == artifacts@[n as int].filename@);
            return true;
        }
        i += 1;
    }
    assert forall|k: int| 0 <= k < n implies names.take(n as int)[k]
        != artifacts@[n as int].filename@ by {
        assert(names.take(n as int)[k] == names[k]);
    }
    false
}

/// Checks the registry's answer against what was asked for.
pub fn validate_pull_response(package_ref: &PackageRef, pull: &PullResponse) -> (r: Result<
    (),
    NonoError,
>)
    ensures
        match r {
            Ok(()) => pull_failure(*package_ref, *pull) is None,
            Err(e) => pull_failure(*package_ref, *pull) == Some(e@),
        },
{
    let key = package_ref.key();
    if !str_eq(pull.namespace.as_str(), package_ref.namespace.as_str()) || !str_eq(
        pull.name.as_str(),
        package_ref.name.as_str(),
    ) {
        return Err(
            NonoError::PackageVerification {
                reason: concat6(
                    "registry returned ",
                    pull.namespace.as_str(),
                    " / ",
                    pull.name.as_str(),
                    " for requested package ",
                    key.as_str(),
                ),
                package: key,
            },
        );
    }
    if pull.artifacts.len() == 0 {
        return Err(
            NonoError::PackageVerification {
                package: key,
                reason: copy_str("pull response did not include any artifacts"),
            },
        );
    }
    let ghost names = filenames(pull.artifacts@);
    let mut i: usize = 0;
    while i < pull.artifacts.len()
        invariant
            i <= pull.artifacts@.len(),
            key@ == package_ref@.key(),
            names == filenames(pull.artifacts@),
            files_failure(key@, names.take(i as int)) is None,
            pull_failure(*package_ref, *pull) == files_failure(key@, names),
        decreases pull.artifacts@.len() - i,
    {
        let name = pull.artifacts[i].filename.as_str();
        proof {
            assert(names.take(i + 1).drop_last() =~= names.take(i as int));
            assert(names.take(i + 1).last() == name@);
        }
        if let Err(e) = validate_relative_path(name) {
            proof {
                lemma_files_failure(key@, names, i + 1);
            }
            return Err(e);
        }
        if is_earlier_name(&pull.artifacts, i) {
            proof {
                lemma_files_failure(key@, names, i + 1);
            }
            return Err(
                NonoError::PackageVerification {
                    package: key,
                    reason: concat3("pull response includes duplicate artifact '", name, "'"),
                },
            );
        }
        i += 1;
    }
    assert(names.take(i as int) =~= names);
    Ok(())
}

/// An answer that is accepted names each file once, and none outside the pack's directory.
pub proof fn law_accepted_files(package_ref: PackageRef, pull: PullResponse)
    requires
        pull_failure(package_ref, pull) is None,
    ensures
        forall|i: int|
            0 <= i < pull.artifacts@.len() ==> path_failure(
                (#[trigger] pull.artifacts@[i]).filename@,
            ) is None,
        forall|i: int, j: int|
            0 <= i < j < pull.artifacts@.len() ==> (#[trigger] pull.artifacts@[i]).filename@ != (
            #[trigger] pull.artifacts@[j]).filename@,
{
    let names = filenames(pull.artifacts@);
    lemma_accepted_names(package_ref@.key(), names);
    assert forall|i: int| 0 <= i < pull.artifacts@.len() implies path_failure(
        (#[trigger] pull.artifacts@[i]).filename@,
    ) is None by {
        assert(names[i] == pull.artifacts@[i].filename@);
    }
    assert forall|i: int, j: int| 0 <= i < j < pull.artifacts@.len() implies (
    #[trigger] pull.artifacts@[i]).filename@ != (#[trigger] pull.artifacts@[j]).filename@ by {
        assert(names[i] != names[j]);
    }
}

proof fn lemma_accepted_names(key: Seq<char>, names: Seq<Seq<char>>)
    requires
        files_failure(key, names) is None,
    ensures
        forall|i: int| 0 <= i < names.len() ==> path_failure(#[trigger] names[i]) is None,
        forall|i: int, j: int|
            0 <= i < j < names.len() ==> #[trigger] names[i] != #[trigger] names[j],
    decreases names.len(),
{
    if names.len() > 0 {
        let front = names.drop_last();
        lemma_accepted_names(key, front);
        assert forall|i: int| 0 <= i < names.len() implies path_failure(
            #[trigger] names[i],
        ) is None by {
            if i < front.len() {
                assert(front[i] == names[i]);
            }
        }
        assert forall|i: int, j: int| 0 <= i < j < names.len() implies #[trigger] names[i]
            != #[trigger] names[j] by {
            assert(front[i] == names[i]);
            if j < front.len() {
                assert(front[j] == names[j]);
            } else {
                assert(!front.contains(names[j]));
            }
        }
    }
}

/// The message for a pack that is installed in the version asked for.
pub fn already_installed(lockfile: &Lockfile, package_ref: &PackageRef, version: &str, force: bool) -> (r: Option<
    String,
>)
    ensures
        r is Some <==> !force && has_key(lockfile.packages@, package_ref@.key()) && (lookup(
            lockfile.packages@,
            package_ref@.key(),
        )->0).version@ == version@,
        r is Some ==> (r->0)@ == "  "@ + package_ref@.key() + " is already at "@ + version@
            + " (use --force to reinstall)"@,
{
    let key = package_ref.key();
    match find_key(&lockfile.packages, key.as_str()) {
        Some(i) => if !force && str_eq(lockfile.packages[i].1.version.as_str(), version) {
            Some(
                concat5(
                    "  ",
                    key.as_str(),
                    " is already at ",
                    version,
                    " (use --force to reinstall)",
                ),
            )
        } else {
            None
        },
        None => None,
    }
}

// ---------------------------------------------------------------------------
// Signers
// ---------------------------------------------------------------------------

/// Who signed a pack.
#[derive(Debug)]
pub enum SignerIdentity {
    Keyless { repository: String, workflow: String, git_ref: String },
    Keyed { key_id: String },
}

pub open spec fn signer_uri(s: SignerIdentity) -> Seq<char> {
    match s {
        SignerIdentity::Keyless { repository, workflow, git_ref } => "https://github.com/"@
            + repository@ + "/"@ + workflow@ + "@"@ + git_ref@,
        SignerIdentity::Keyed { key_id } => "keyed:"@ + key_id@,
    }
}

/// A signer as a text that can be compared.
pub fn signer_identity_uri(identity: &SignerIdentity) -> (r: String)
    ensures
        r@ == signer_uri(*identity),
{
    match identity {
        SignerIdentity::Keyless { repository, workflow, git_ref } => concat6(
            "https://github.com/",
            repository.as_str(),
            "/",
            workflow.as_str(),
            "@",
            git_ref.as_str(),
        ),
        SignerIdentity::Keyed { key_id } => concat2("keyed:", key_id.as_str()),
    }
}

/// A signer without the part behind the last at sign, which changes from release to release.
pub open spec fn canonical(uri: Seq<char>) -> Seq<char> {
    let i = last_index(uri, '@');
    if 0 <= i < uri.len() {
        uri.take(i)
    } else {
        uri
    }
}

pub fn canonical_signer_identity(uri: &str) -> (r: String)
    ensures
        r@ == canonical(uri@),
{
    let v = chars_of(uri);
    proof {
        lemma_last_index(uri@, '@');
    }
    match find_last(&v, '@') {
        Some(i) => {
            let front = sub_chars(&v, 0, i);
            assert(front@ =~= uri@.take(i as int));
            from_chars(&front)
        },
        None => copy_str(uri),
    }
}

/// Two releases of one workflow have the same signer, whatever tags they were made from.
pub proof fn law_releases_share_a_signer(prefix: Seq<char>, ref1: Seq<char>, ref2: Seq<char>)
    requires
        !ref1.contains('@'),
        !ref2.contains('@'),
    ensures
        canonical(prefix + "@"@ + ref1) == prefix,
        canonical(prefix + "@"@ + ref2) == prefix,
{
    lemma_canonical(prefix, ref1);
    lemma_canonical(prefix, ref2);
}

proof fn lemma_canonical(prefix: Seq<char>, git_ref: Seq<char>)
    requires
        !git_ref.contains('@'),
    ensures
        canonical(prefix + "@"@ + git_ref) == prefix,
{
    reveal_strlit("@");
    let s = prefix + "@"@ + git_ref;
    assert(s[prefix.len() as int] == '@');
    assert forall|k: int| prefix.len() < k < s.len() implies s[k] != '@' by {
        assert(s[k] == git_ref[k - prefix.len() - 1]);
        assert(git_ref.contains(git_ref[k - prefix.len() - 1]));
    }
    lemma_last_index_is(s, '@', prefix.len() as int);
    assert(s.take(prefix.len() as int) =~= prefix);
}

/// Why a signer may not sign for a namespace.
pub open spec fn namespace_failure(package_ref: PackageRef, signer: SignerIdentity) -> Option<
    ErrorView,
> {
    match signer {
        SignerIdentity::Keyless { repository, .. } => {
            let namespace = split_on(repository@, '/')[0];
            if namespace == package_ref.namespace@ {
                None
            } else {
                Some(
                    ErrorView::PackageVerification {
                        package: package_ref@.key(),
                        reason: "signer namespace '"@ + namespace
                            + "' does not match requested namespace '"@ + package_ref.namespace@
                            + "'"@,
                    },
                )
            }
        },
        SignerIdentity::Keyed { .. } => Some(
            ErrorView::PackageVerification {
                package: package_ref@.key(),
                reason: "registry packages must use keyless Sigstore signing"@,
            },
        ),
    }
}

pub fn enforce_namespace_assertion(package_ref: &PackageRef, signer: &SignerIdentity) -> (r: Result<
    (),
    NonoError,
>)
    ensures
        match r {
            Ok(()) => namespace_failure(*package_ref, *signer) is None,
            Err(e) => namespace_failure(*package_ref, *signer) == Some(e@),
        },
{
    match signer {
        SignerIdentity::Keyless { repository, workflow: _, git_ref: _ } => {
            let parts = str_split(repository.as_str(), '/');
            let namespace = parts[0].as_str();
            assert(views(parts@)[0] == namespace@);
            if str_eq(namespace, package_ref.namespace.as_str()) {
                Ok(())
            } else {
                Err(
                    NonoError::PackageVerification {
                        package: package_ref.key(),
                        reason: concat5(
                            "signer namespace '",
                            namespace,
                            "' does not match requested namespace '",
                            package_ref.namespace.as_str(),
                            "'",
                        ),
                    },
                )
            }
        },
        SignerIdentity::Keyed { key_id: _ } => Err(
            NonoError::PackageVerification {
                package: package_ref.key(),
                reason: copy_str("registry packages must use keyless Sigstore signing"),
            },
        ),
    }
}

/// Why a signer may not replace the one of the installed pack.
pub open spec fn pinning_failure(existing: Option<LockedPackage>, signer: Seq<char>, force: bool) -> Option<
    ErrorView,
> {
    if force || existing is None || (existing->0).provenance is None {
        None
    } else {
        let p = (existing->0).provenance->0;
        if canonical(p.signer_identity@) == canonical(signer) {
            None
        } else {
            Some(
                ErrorView::PackageVerification {
                    package: p.repository@,
                    reason: "signer identity changed from '"@ + p.signer_identity@ + "' to '"@
                        + signer + "'"@,
                },
            )
        }
    }
}

pub fn enforce_signer_pinning(lockfile: &Lockfile, package_ref: &PackageRef, signer: &str, force: bool) -> (r: Result<
    (),
    NonoError,
>)
    ensures
        match r {
            Ok(()) => pinning_failure(
                lookup(lockfile.packages@, package_ref@.key()),
                signer@,
                force,
            ) is None,
            Err(e) => pinning_failure(
                lookup(lockfile.packages@, package_ref@.key()),
                signer@,
                force,
            ) == Some(e@),
        },
{
    if force {
        return Ok(());
    }
    let key = package_ref.key();
    if let Some(i) = find_key(&lockfile.packages, key.as_str()) {
        if let Some(p) = &lockfile.packages[i].1.provenance {
            let before = canonical_signer_identity(p.signer_identity.as_str());
            let now = canonical_signer_identity(signer);
            if !str_eq(before.as_str(), now.as_str()) {
                return Err(
                    NonoError::PackageVerification {
                        package: copy_str(p.repository.as_str()),
                        reason: concat5(
                            "signer identity changed from '",
                            p.signer_identity.as_str(),
                            "' to '",
                            signer,
                            "'",
                        ),
                    },
                );
            }
        }
    }
    Ok(())
}

// ---------------------------------------------------------------------------
// Downloads
// ---------------------------------------------------------------------------

/// The digest with which the signature of a bundle is checked: that of its first subject. The
/// subjects are names with digests.
pub fn first_subject_digest(package_ref: &PackageRef, subjects: &Vec<(String, String)>) -> (r: Result<
    String,
    NonoError,
>)
    ensures
        match r {
            Ok(d) => subjects@.len() > 0 && d@ == subjects@[0].1@,
            Err(e) => subjects@.len() == 0 && e@ == (ErrorView::PackageVerification {
                package: package_ref@.key(),
                reason: "bundle contains no subjects"@,
            }),
        },
{
    if subjects.len() == 0 {
        Err(
            NonoError::PackageVerification {
                package: package_ref.key(),
                reason: copy_str("bundle contains no subjects"),
            },
        )
    } else {
        Ok(copy_str(subjects[0].1.as_str()))
    }
}

/// Some subject of the bundle has the digest.
pub open spec fn is_subject(subjects: Seq<(String, String)>, digest: Seq<char>) -> bool {
    exists|i: int| 0 <= i < subjects.len() && (#[trigger] subjects[i]).1@ == digest
}

/// Why a downloaded file cannot be trusted.
pub open spec fn download_failure(
    key: Seq<char>,
    filename: Seq<char>,
    registry: Seq<char>,
    digest: Seq<char>,
    subjects: Seq<(String, String)>,
) -> Option<ErrorView> {
    if digest != registry {
        Some(
            ErrorView::PackageVerification {
                package: key,
                reason: "artifact "@ + filename + " digest mismatch: registry="@ + registry
                    + ", local="@ + digest,
            },
        )
    } else if !is_subject(subjects, digest) {
        Some(
            ErrorView::PackageVerification {
                package: key,
                reason: "artifact "@ + filename + " digest not found in bundle subjects"@,
            },
        )
    } else {
        None
    }
}

/// Checks a file that was downloaded: its digest must be the one that the registry names, and one
/// that was signed.
pub fn verify_download(
    package_ref: &PackageRef,
    artifact: &PullArtifact,
    digest: &str,
    subjects: &Vec<(String, String)>,
) -> (r: Result<(), NonoError>)
    ensures
        match r {
            Ok(()) => download_failure(
                package_ref@.key(),
                artifact.filename@,
                artifact.sha256_digest@,
                digest@,
                subjects@,
            ) is None,
            Err(e) => download_failure(
                package_ref@.key(),
                artifact.filename@,
                artifact.sha256_digest@,
                digest@,
                subjects@,
            ) == Some(e@),
        },
{
    let filename = artifact.filename.as_str();
    let registry = artifact.sha256_digest.as_str();
    if !str_eq(digest, registry) {
        return Err(
            NonoError::PackageVerification {
                package: package_ref.key(),
                reason: concat6(
                    "artifact ",
                    filename,
                    " digest mismatch: registry=",
                    registry,
                    ", local=",
                    digest,
                ),
            },
        );
    }
    let mut i: usize = 0;
    while i < subjects.len()
        invariant
            i <= subjects@.len(),
            forall|k: int| 0 <= k < i ==> (#[trigger] subjects@[k]).1@ != digest@,
            digest@ == registry@,
            registry@ == artifact.sha256_digest@,
            filename@ == artifact.filename@,
        decreases subjects@.len() - i,
    {
        if str_eq(subjects[i].1.as_str(), digest) {
            return Ok(());
        }
        i += 1;
    }
    Err(
        NonoError::PackageVerification {
            package: package_ref.key(),
            reason: concat3("artifact ", filename, " digest not found in bundle subjects"),
        },
    )
}

/// A file that was downloaded and checked.
#[derive(Debug)]
pub struct DownloadedArtifact {
    pub filename: String,
    pub sha256_digest: String,
}

/// What the signatures and the downloads gave: the signed files with their digests, whether the
/// signature holds, who signed, and the digest of each file that the registry's answer names.
#[derive(Debug)]
pub struct DownloadFacts {
    pub subjects: Vec<(String, String)>,
    pub signature: Result<(), NonoError>,
    pub signer: Result<SignerIdentity, NonoError>,
    pub digests: Vec<Result<String, NonoError>>,
}

/// Why the first `n` files cannot be trusted, by the first of them that fails.
pub open spec fn files_untrusted(
    key: Seq<char>,
    artifacts: Seq<PullArtifact>,
    digests: Seq<Result<String, NonoError>>,
    subjects: Seq<(String, String)>,
    n: nat,
) -> Option<ErrorView>
    decreases n,
{
    if n == 0 {
        None
    } else {
        match files_untrusted(key, artifacts, digests, subjects, (n - 1) as nat) {
            Some(e) => Some(e),
            None => match digests[n - 1] {
                Err(e) => Some(e@),
                Ok(d) => download_failure(
                    key,
                    artifacts[n - 1].filename@,
                    artifacts[n - 1].sha256_digest@,
                    d@,
                    subjects,
                ),
            },
        }
    }
}

/// Why a release cannot be trusted: it holds nothing signed, the signature does not hold, the
/// signer is unknown or not the owner of the namespace, or a file is not what was signed.
pub open spec fn release_untrusted(package_ref: PackageRef, pull: PullResponse, f: DownloadFacts) -> Option<
    ErrorView,
> {
    if f.subjects@.len() == 0 {
        Some(
            ErrorView::PackageVerification {
                package: package_ref@.key(),
                reason: "bundle contains no subjects"@,
            },
        )
    } else if f.signature is Err {
        Some((f.signature->Err_0)@)
    } else if f.signer is Err {
        Some((f.signer->Err_0)@)
    } else if namespace_failure(package_ref, f.signer->Ok_0) is Some {
        namespace_failure(package_ref, f.signer->Ok_0)
    } else {
        files_untrusted(
            package_ref@.key(),
            pull.artifacts@,
            f.digests@,
            f.subjects@,
            pull.artifacts@.len(),
        )
    }
}

/// Accepts the files of a release, each with its digest, or says why it cannot be trusted.
pub fn download_and_verify_artifacts(package_ref: &PackageRef, pull: &PullResponse, f: &DownloadFacts) -> (r: Result<
    Vec<DownloadedArtifact>,
    NonoError,
>)
    requires
        f.digests@.len() == pull.artifacts@.len(),
    ensures
        match r {
            Ok(v) => {
                &&& release_untrusted(*package_ref, *pull, *f) is None
                &&& v@.len() == pull.artifacts@.len()
                &&& forall|i: int|
                    0 <= i < v@.len() ==> (#[trigger] v@[i]).filename@
                        == pull.artifacts@[i].filename@ && v@[i].sha256_digest@
                        == pull.artifacts@[i].sha256_digest@
            },
            Err(e) => release_untrusted(*package_ref, *pull, *f) == Some(e@),
        },
{
    if let Err(e) = first_subject_digest(package_ref, &f.subjects) {
        return Err(e);
    }
    if let Err(e) = &f.signature {
        return Err(e.copy());
    }
    match &f.signer {
        Err(e) => {
            return Err(e.copy());
        },
        Ok(signer) => {
            if let Err(e) = enforce_namespace_assertion(package_ref, signer) {
                return Err(e);
            }
        },
    }
    let mut v: Vec<DownloadedArtifact> = Vec::new();
    let mut i: usize = 0;
    let ghost key = package_ref@.key();
    let ghost all = pull.artifacts@;
    while i < pull.artifacts.len()
        invariant
            i <= all.len(),
            key == package_ref@.key(),
            all == pull.artifacts@,
            f.digests@.len() == all.len(),
            f.subjects@.len() > 0,
            f.signature is Ok,
            f.signer is Ok,
            namespace_failure(*package_ref, f.signer->Ok_0) is None,
            files_untrusted(key, all, f.digests@, f.subjects@, i as nat) is None,
            v@.len() == i,
            forall|k: int|
                0 <= k < i ==> (#[trigger] v@[k]).filename@ == all[k].filename@
                    && v@[k].sha256_digest@ == all[k].sha256_digest@,
        decreases all.len() - i,
    {
        let a = &pull.artifacts[i];
        let digest = match &f.digests[i] {
            Ok(d) => d,
            Err(e) => {
                proof {
                    lemma_first_untrusted(key, all, f.digests@, f.subjects@, i + 1, all.len());
                }
                return Err(e.copy());
            },
        };
        if let Err(e) = verify_download(package_ref, a, digest.as_str(), &f.subjects) {
            proof {
                lemma_first_untrusted(key, all, f.digests@, f.subjects@, i + 1, all.len());
            }
            return Err(e);
        }
        v.push(
            DownloadedArtifact {
                filename: copy_str(a.filename.as_str()),
                sha256_digest: copy_str(digest.as_str()),
            },
        );
        i += 1;
    }
    Ok(v)
}

proof fn lemma_first_untrusted(
    key: Seq<char>,
    artifacts: Seq<PullArtifact>,
    digests: Seq<Result<String, NonoError>>,
    subjects: Seq<(String, String)>,
    i: int,
    n: nat,
)
    requires
        0 <= i <= n,
        files_untrusted(key, artifacts, digests, subjects, i as nat) is Some,
    ensures
        files_untrusted(key, artifacts, digests, subjects, n) == files_untrusted(
            key,
            artifacts,
            digests,
            subjects,
            i as nat,
        ),
    decreases n,
{
    if i < n {
        lemma_first_untrusted(key, artifacts, digests, subjects, i, (n - 1) as nat);
    }
}

/// Every file of a release that is trusted was downloaded with the digest that the registry names,
/// and that digest was signed by the owner of the namespace.
pub proof fn law_trusted_files_are_signed(
    package_ref: PackageRef,
    pull: PullResponse,
    f: DownloadFacts,
    i: int,
)
    requires
        release_untrusted(package_ref, pull, f) is None,
        0 <= i < pull.artifacts@.len(),
    ensures
        f.signature is Ok,
        f.signer is Ok,
        namespace_failure(package_ref, f.signer->Ok_0) is None,
        f.digests@[i] is Ok,
        (f.digests@[i]->Ok_0)@ == pull.artifacts@[i].sha256_digest@,
        is_subject(f.subjects@, pull.artifacts@[i].sha256_digest@),
{
    let key = package_ref@.key();
    let all = pull.artifacts@;
    if files_untrusted(key, all, f.digests@, f.subjects@, (i + 1) as nat) is Some {
        lemma_first_untrusted(key, all, f.digests@, f.subjects@, i + 1, all.len());
    }
}

/// Position of the manifest among the files, where it is one of them.
pub fn find_manifest(downloads: &Vec<DownloadedArtifact>) -> (r: Result<usize, NonoError>)
    ensures
        match r {
            Ok(n) => {
                &&& n < downloads@.len() && downloads@[n as int].filename@ == "package.json"@
                &&& forall|k: int|
                    0 <= k < n ==> (#[trigger] downloads@[k]).filename@ != "package.json"@
            },
            Err(e) => {
                &&& forall|k: int|
                    0 <= k < downloads@.len() ==> (#[trigger] downloads@[k]).filename@
                        != "package.json"@
                &&& e@ == ErrorView::PackageInstall("package is missing package.json"@)
            },
        },
{
    let mut i: usize = 0;
    while i < downloads.len()
        invariant
            i <= downloads@.len(),
            forall|k: int| 0 <= k < i ==> (#[trigger] downloads@[k]).filename@ != "package.json"@,
        decreases downloads@.len() - i,
    {
        if str_eq(downloads[i].filename.as_str(), "package.json") {
            return Ok(i);
        }
        i += 1;
    }
    Err(NonoError::PackageInstall(copy_str("package is missing package.json")))
}

// ---------------------------------------------------------------------------
// The manifest
// ---------------------------------------------------------------------------

/// Why a pack cannot be used here: its platforms, then the version that it asks for.
pub open spec fn manifest_failure(m: PackageManifest, platform: Seq<char>, current: Seq<char>) -> Option<
    ErrorView,
> {
    if m.platforms@.len() > 0 && !views(m.platforms@).contains(platform) {
        Some(ErrorView::PackageInstall("package does not support "@ + platform))
    } else if m.min_nono_version is None {
        None
    } else {
        let min = (m.min_nono_version->0)@;
        if semver_error(normalized(current)) is Some {
            Some(
                version_failure(
                    current,
                    "current nono version"@,
                    semver_error(normalized(current))->0,
                ),
            )
        } else if semver_error(normalized(min)) is Some {
            Some(
                version_failure(min, "min_nono_version"@, semver_error(normalized(min))->0),
            )
        } else if semver_order(normalized(current), normalized(min)) == Ordering::Less {
            Some(
                ErrorView::PackageInstall(
                    "package requires nono >= "@ + min + ", current version is "@ + current,
                ),
            )
        } else {
            None
        }
    }
}

/// Checks that a pack can be used on this platform with this version.
pub fn validate_manifest(m: &PackageManifest, platform: &str, current: &str) -> (r: Result<
    (),
    NonoError,
>)
    ensures
        match r {
            Ok(()) => manifest_failure(*m, platform@, current@) is None,
            Err(e) => manifest_failure(*m, platform@, current@) == Some(e@),
        },
{
    if m.platforms.len() > 0 && !contains_str(&m.platforms, platform) {
        return Err(
            NonoError::PackageInstall(concat2("package does not support ", platform)),
        );
    }
    match &m.min_nono_version {
        None => Ok(()),
        Some(min) => match compare_versions(current, min.as_str()) {
            Ok(order) => check_version_order(order, min.as_str(), current),
            Err(e) => Err(e),
        },
    }
}

// ---------------------------------------------------------------------------
// Installing
// ---------------------------------------------------------------------------

/// A name that could lead somewhere else as part of a path.
pub open spec fn unsafe_name(name: Seq<char>) -> bool {
    name.len() == 0 || name.contains('/') || name.contains('\\') || name == "."@ || has_sub(
        name,
        ".."@,
    )
}

pub fn validate_safe_name(name: &str, field: &str) -> (r: Result<(), NonoError>)
    ensures
        r is Ok <==> !unsafe_name(name@),
        r is Err ==> (r->Err_0)@ == ErrorView::PackageInstall(
            field@ + " contains unsafe path component: '"@ + name@ + "'"@,
        ),
{
    let v = chars_of(name);
    if v.len() == 0 || contains_char(&v, '/') || contains_char(&v, '\\') || str_eq(name, ".")
        || str_contains(name, "..") {
        return Err(
            NonoError::PackageInstall(
                concat4(field, " contains unsafe path component: '", name, "'"),
            ),
        );
    }
    Ok(())
}

pub open spec fn file_name_or_failure(path: Seq<char>) -> Result<Seq<char>, ErrorView> {
    match file_name(path) {
        Some(n) => Ok(n),
        None => Err(ErrorView::PackageInstall("invalid artifact path '"@ + path + "'"@)),
    }
}

fn file_name_of(path: &str) -> (r: Result<String, NonoError>)
    ensures
        match r {
            Ok(n) => file_name_or_failure(path@) == Ok::<Seq<char>, ErrorView>(n@),
            Err(e) => file_name_or_failure(path@) == Err::<Seq<char>, ErrorView>(e@),
        },
{
    match path_file_name(path) {
        Some(n) => Ok(n),
        None => Err(NonoError::PackageInstall(concat3("invalid artifact path '", path, "'"))),
    }
}

/// Where a file of a pack goes, below the pack's directory, and whether it is made executable.
#[derive(Debug)]
pub struct ArtifactTarget {
    pub path: String,
    pub executable: bool,
}

pub open spec fn artifact_target(a: ArtifactEntry) -> Result<(Seq<char>, bool), ErrorView> {
    match a.artifact_type {
        ArtifactType::Profile => match a.install_as {
            None => Err(
                ErrorView::PackageInstall(
                    "profile artifact '"@ + a.path@ + "' is missing install_as"@,
                ),
            ),
            Some(n) => if unsafe_name(n@) {
                Err(
                    ErrorView::PackageInstall(
                        "install_as"@ + " contains unsafe path component: '"@ + n@ + "'"@,
                    ),
                )
            } else {
                Ok(("profiles/"@ + n@ + ".json"@, false))
            },
        },
        ArtifactType::Instruction => match file_name_or_failure(a.path@) {
            Ok(n) => Ok(("instructions/"@ + n, false)),
            Err(e) => Err(e),
        },
        ArtifactType::TrustPolicy => Ok(("trust-policy.json"@, false)),
        ArtifactType::Groups => match a.prefix {
            None => Err(
                ErrorView::PackageInstall(
                    "groups artifact '"@ + a.path@ + "' is missing prefix"@,
                ),
            ),
            Some(_) => Ok(("groups.json"@, false)),
        },
        ArtifactType::Plugin => match path_failure(a.path@) {
            Some(e) => Err(e),
            None => Ok((a.path@, has_sub(a.path@, "/bin/"@) || has_suffix(a.path@, ".sh"@))),
        },
    }
}

/// Decides where a file of a pack goes.
pub fn install_manifest_artifact(a: &ArtifactEntry) -> (r: Result<ArtifactTarget, NonoError>)
    ensures
        match r {
            Ok(t) => artifact_target(*a) == Ok::<(Seq<char>, bool), ErrorView>(
                (t.path@, t.executable),
            ),
            Err(e) => artifact_target(*a) == Err::<(Seq<char>, bool), ErrorView>(e@),
        },
{
    match a.artifact_type {
        ArtifactType::Profile => match &a.install_as {
            None => Err(
                NonoError::PackageInstall(
                    concat3("profile artifact '", a.path.as_str(), "' is missing install_as"),
                ),
            ),
            Some(n) => match validate_safe_name(n.as_str(), "install_as") {
                Ok(()) => Ok(
                    ArtifactTarget {
                        path: concat3("profiles/", n.as_str(), ".json"),
                        executable: false,
                    },
                ),
                Err(e) => Err(e),
            },
        },
        ArtifactType::Instruction => match file_name_of(a.path.as_str()) {
            Ok(n) => Ok(
                ArtifactTarget { path: concat2("instructions/", n.as_str()), executable: false },
            ),
            Err(e) => Err(e),
        },
        ArtifactType::TrustPolicy => Ok(
            ArtifactTarget { path: copy_str("trust-policy.json"), executable: false },
        ),
        ArtifactType::Groups => match &a.prefix {
            None => Err(
                NonoError::PackageInstall(
                    concat3("groups artifact '", a.path.as_str(), "' is missing prefix"),
                ),
            ),
            Some(_) => Ok(ArtifactTarget { path: copy_str("groups.json"), executable: false }),
        },
        ArtifactType::Plugin => match validate_relative_path(a.path.as_str()) {
            Ok(()) => Ok(
                ArtifactTarget {
                    path: copy_str(a.path.as_str()),
                    executable: str_contains(a.path.as_str(), "/bin/") || str_ends_with(
                        a.path.as_str(),
                        ".sh",
                    ),
                },
            ),
            Err(e) => Err(e),
        },
    }
}

/// An instruction that is also copied into the project when that is asked for.
pub open spec fn goes_to_project(a: ArtifactEntry, init: bool) -> bool {
    init && a.artifact_type == ArtifactType::Instruction && opt_view(a.placement) == Some(
        "project"@,
    )
}

fn is_for_project(a: &ArtifactEntry, init: bool) -> (r: bool)
    ensures
        r == goes_to_project(*a, init),
{
    init && a.artifact_type == ArtifactType::Instruction && match &a.placement {
        Some(p) => str_eq(p.as_str(), "project"),
        None => false,
    }
}

/// One file to install: where it goes, and its name in the project where it is copied there.
#[derive(Debug)]
pub struct InstallStep {
    pub source: String,
    pub target: ArtifactTarget,
    pub project_name: Option<String>,
}

pub struct InstallStepView {
    pub source: Seq<char>,
    pub target: Seq<char>,
    pub executable: bool,
    pub project_name: Option<Seq<char>>,
}

impl View for InstallStep {
    type V = InstallStepView;

    open spec fn view(&self) -> InstallStepView {
        InstallStepView {
            source: self.source@,
            target: self.target.path@,
            executable: self.target.executable,
            project_name: opt_view(self.project_name),
        }
    }
}

pub open spec fn step_views(v: Seq<InstallStep>) -> Seq<InstallStepView> {
    v.map_values(|s: InstallStep| s@)
}

/// What a downloaded file holds: whether it reads as what its kind asks for, and, of a file of
/// groups, their names.
#[derive(Debug)]
pub struct FileContents {
    pub readable: Result<(), NonoError>,
    pub groups: Vec<String>,
}

/// Why the contents of a file cannot be installed. Instructions and plugins may hold anything.
pub open spec fn contents_failure(a: ArtifactEntry, c: FileContents, embedded: Seq<Seq<char>>) -> Option<
    ErrorView,
> {
    match a.artifact_type {
        ArtifactType::Profile | ArtifactType::TrustPolicy => match c.readable {
            Err(e) => Some(e@),
            Ok(()) => None,
        },
        ArtifactType::Groups => match c.readable {
            Err(e) => Some(e@),
            Ok(()) => groups_failure(views(c.groups@), (a.prefix->0)@, embedded),
        },
        ArtifactType::Instruction | ArtifactType::Plugin => None,
    }
}

fn check_contents(a: &ArtifactEntry, c: &FileContents, embedded: &Vec<String>) -> (r: Result<
    (),
    NonoError,
>)
    requires
        a.artifact_type == ArtifactType::Groups ==> a.prefix is Some,
    ensures
        match r {
            Ok(()) => contents_failure(*a, *c, views(embedded@)) is None,
            Err(e) => contents_failure(*a, *c, views(embedded@)) == Some(e@),
        },
{
    match a.artifact_type {
        ArtifactType::Profile | ArtifactType::TrustPolicy => match &c.readable {
            Err(e) => Err(e.copy()),
            Ok(()) => Ok(()),
        },
        ArtifactType::Groups => match &c.readable {
            Err(e) => Err(e.copy()),
            Ok(()) => match &a.prefix {
                Some(prefix) => validate_groups(&c.groups, prefix.as_str(), embedded),
                None => Ok(()),
            },
        },
        ArtifactType::Instruction | ArtifactType::Plugin => Ok(()),
    }
}

/// What is done with one file of the manifest.
pub open spec fn install_step(
    a: ArtifactEntry,
    downloaded: Seq<(String, FileContents)>,
    embedded: Seq<Seq<char>>,
    init: bool,
) -> Result<InstallStepView, ErrorView> {
    match lookup(downloaded, a.path@) {
        None => Err(
            ErrorView::PackageInstall(
                "manifest references missing artifact '"@ + a.path@ + "'"@,
            ),
        ),
        Some(c) => match artifact_target(a) {
            Err(e) => Err(e),
            Ok(t) => match contents_failure(a, c, embedded) {
                Some(e) => Err(e),
                None => Ok(
                    InstallStepView {
                        source: a.path@,
                        target: t.0,
                        executable: t.1,
                        project_name: if goes_to_project(a, init) {
                            file_name(a.path@)
                        } else {
                            None
                        },
                    },
                ),
            },
        },
    }
}

/// What is done with all of them, or the first failure.
pub open spec fn install_plan(
    a: Seq<ArtifactEntry>,
    downloaded: Seq<(String, FileContents)>,
    embedded: Seq<Seq<char>>,
    init: bool,
) -> Result<Seq<InstallStepView>, ErrorView>
    decreases a.len(),
{
    if a.len() == 0 {
        Ok(Seq::empty())
    } else {
        match install_plan(a.drop_last(), downloaded, embedded, init) {
            Err(e) => Err(e),
            Ok(done) => match install_step(a.last(), downloaded, embedded, init) {
                Err(e) => Err(e),
                Ok(s) => Ok(done.push(s)),
            },
        }
    }
}

proof fn lemma_install_failure(
    a: Seq<ArtifactEntry>,
    downloaded: Seq<(String, FileContents)>,
    embedded: Seq<Seq<char>>,
    init: bool,
    i: int,
)
    requires
        0 <= i <= a.len(),
        install_plan(a.take(i), downloaded, embedded, init) is Err,
    ensures
        install_plan(a, downloaded, embedded, init) == install_plan(
            a.take(i),
            downloaded,
            embedded,
            init,
        ),
    decreases a.len(),
{
    if i == a.len() {
        assert(a.take(i) =~= a);
    } else {
        assert(a.drop_last().take(i) =~= a.take(i));
        lemma_install_failure(a.drop_last(), downloaded, embedded, init, i);
    }
}

proof fn lemma_install_next(
    a: Seq<ArtifactEntry>,
    downloaded: Seq<(String, FileContents)>,
    embedded: Seq<Seq<char>>,
    init: bool,
    i: int,
)
    requires
        0 <= i < a.len(),
        install_plan(a.take(i), downloaded, embedded, init) is Ok,
    ensures
        match install_step(a[i], downloaded, embedded, init) {
            Ok(s) => install_plan(a.take(i + 1), downloaded, embedded, init) == Ok::<
                Seq<InstallStepView>,
                ErrorView,
            >((install_plan(a.take(i), downloaded, embedded, init)->Ok_0).push(s)),
            Err(e) => install_plan(a.take(i + 1), downloaded, embedded, init) == Err::<
                Seq<InstallStepView>,
                ErrorView,
            >(e) && install_plan(a, downloaded, embedded, init) == Err::<
                Seq<InstallStepView>,
                ErrorView,
            >(e),
        },
{
    assert(a.take(i + 1).drop_last() =~= a.take(i));
    assert(a.take(i + 1).last() == a[i]);
    if install_step(a[i], downloaded, embedded, init) is Err {
        lemma_install_failure(a, downloaded, embedded, init, i + 1);
    }
}

fn plan_step(
    a: &ArtifactEntry,
    downloaded: &Vec<(String, FileContents)>,
    embedded: &Vec<String>,
    init: bool,
) -> (r: Result<InstallStep, NonoError>)
    ensures
        match r {
            Ok(s) => install_step(*a, downloaded@, views(embedded@), init) == Ok::<
                InstallStepView,
                ErrorView,
            >(s@),
            Err(e) => install_step(*a, downloaded@, views(embedded@), init) == Err::<
                InstallStepView,
                ErrorView,
            >(e@),
        },
{
    let path = a.path.as_str();
    let n = match find_key(downloaded, path) {
        Some(n) => n,
        None => {
            return Err(
                NonoError::PackageInstall(
                    concat3("manifest references missing artifact '", path, "'"),
                ),
            );
        },
    };
    let target = match install_manifest_artifact(a) {
        Ok(target) => target,
        Err(e) => {
            return Err(e);
        },
    };
    if let Err(e) = check_contents(a, &downloaded[n].1, embedded) {
        return Err(e);
    }
    let project_name = if is_for_project(a, init) {
        path_file_name(path)
    } else {
        None
    };
    Ok(InstallStep { source: copy_str(path), target, project_name })
}

/// Decides what is done with every file that the manifest names. `embedded` holds the groups that
/// the program has itself.
pub fn install_package(
    manifest: &PackageManifest,
    downloaded: &Vec<(String, FileContents)>,
    embedded: &Vec<String>,
    init: bool,
) -> (r: Result<Vec<InstallStep>, NonoError>)
    ensures
        match r {
            Ok(v) => install_plan(manifest.artifacts@, downloaded@, views(embedded@), init) == Ok::<
                Seq<InstallStepView>,
                ErrorView,
            >(step_views(v@)),
            Err(e) => install_plan(manifest.artifacts@, downloaded@, views(embedded@), init)
                == Err::<Seq<InstallStepView>, ErrorView>(e@),
        },
{
    let a = &manifest.artifacts;
    let ghost known = views(embedded@);
    let mut v: Vec<InstallStep> = Vec::new();
    let mut i: usize = 0;
    assert(step_views(v@) =~= Seq::<InstallStepView>::empty());
    while i < a.len()
        invariant
            i <= a@.len(),
            known == views(embedded@),
            a@ == manifest.artifacts@,
            install_plan(a@.take(i as int), downloaded@, known, init) == Ok::<
                Seq<InstallStepView>,
                ErrorView,
            >(step_views(v@)),
        decreases a@.len() - i,
    {
        proof {
            lemma_install_next(a@, downloaded@, known, init, i as int);
        }
        match plan_step(&a[i], downloaded, embedded, init) {
            Ok(s) => {
                let ghost before = step_views(v@);
                v.push(s);
                assert(step_views(v@) =~= before.push(s@));
            },
            Err(e) => {
                return Err(e);
            },
        }
        i += 1;
    }
    assert(a@.take(i as int) =~= a@);
    Ok(v)
}

/// Where a pack is installed, every group that it brings has the prefix that the manifest demands,
/// and none takes the name of a group of the program.
pub proof fn law_installed_groups_have_the_prefix(
    a: Seq<ArtifactEntry>,
    downloaded: Seq<(String, FileContents)>,
    embedded: Seq<Seq<char>>,
    init: bool,
    i: int,
    k: int,
)
    requires
        install_plan(a, downloaded, embedded, init) is Ok,
        0 <= i < a.len(),
        a[i].artifact_type == ArtifactType::Groups,
        lookup(downloaded, a[i].path@) is Some,
        0 <= k < (lookup(downloaded, a[i].path@)->0).groups@.len(),
    ensures
        a[i].prefix is Some,
        has_prefix((lookup(downloaded, a[i].path@)->0).groups@[k]@, (a[i].prefix->0)@),
        !embedded.contains((lookup(downloaded, a[i].path@)->0).groups@[k]@),
{
    if install_plan(a.take(i), downloaded, embedded, init) is Err {
        lemma_install_failure(a, downloaded, embedded, init, i);
    }
    lemma_install_next(a, downloaded, embedded, init, i);
    if install_plan(a.take(i + 1), downloaded, embedded, init) is Err {
        lemma_install_failure(a, downloaded, embedded, init, i + 1);
    }
    let names = views((lookup(downloaded, a[i].path@)->0).groups@);
    lemma_accepted_groups(names, (a[i].prefix->0)@, embedded, k);
    assert(names[k] == (lookup(downloaded, a[i].path@)->0).groups@[k]@);
}

proof fn lemma_accepted_groups(
    names: Seq<Seq<char>>,
    prefix: Seq<char>,
    embedded: Seq<Seq<char>>,
    k: int,
)
    requires
        groups_failure(names, prefix, embedded) is None,
        0 <= k < names.len(),
    ensures
        has_prefix(names[k], prefix),
        !embedded.contains(names[k]),
    decreases names.len(),
{
    if k > 0 {
        lemma_accepted_groups(names.skip(1), prefix, embedded, k - 1);
        assert(names.skip(1)[k - 1] == names[k]);
    }
}

/// The entry of a trust bundle for one file.
pub open spec fn bundle_entry(d: DownloadedArtifact, bundle: JsonView) -> JsonView {
    JsonView::Object(
        Seq::<(Seq<char>, JsonView)>::empty() + field("artifact"@, JsonView::Text(d.filename@))
            + field("digest"@, JsonView::Text(d.sha256_digest@)) + field("bundle"@, bundle),
    )
}

/// The trust bundle that is kept with a pack: one entry for each file, all with the bundle that the
/// registry gave.
pub fn trust_bundle(downloads: &Vec<DownloadedArtifact>, bundle: &Json) -> (r: Json)
    ensures
        r@ == JsonView::Array(
            downloads@.map_values(|d: DownloadedArtifact| bundle_entry(d, bundle@)),
        ),
{
    let ghost all = downloads@.map_values(|d: DownloadedArtifact| bundle_entry(d, bundle@));
    let mut a: Vec<Json> = Vec::new();
    let mut i: usize = 0;
    assert(elements(a@) =~= all.take(0));
    while i < downloads.len()
        invariant
            i <= downloads@.len(),
            all == downloads@.map_values(|d: DownloadedArtifact| bundle_entry(d, bundle@)),
            elements(a@) == all.take(i as int),
        decreases downloads@.len() - i,
    {
        let d = &downloads[i];
        let mut o = no_members();
        put_field(&mut o, "artifact", json_text(d.filename.as_str()));
        put_field(&mut o, "digest", json_text(d.sha256_digest.as_str()));
        put_field(&mut o, "bundle", copy_json(bundle));
        add_element(&mut a, json_object(o));
        i += 1;
        assert(all[i - 1] == bundle_entry(downloads@[i - 1], bundle@));
        assert(all.take(i as int) =~= all.take(i - 1).push(all[i - 1]));
    }
    assert(all.take(i as int) =~= all);
    json_array(a)
}

/// Why the groups of a pack cannot be used: the first name without the prefix, or that the program
/// has itself.
pub open spec fn groups_failure(names: Seq<Seq<char>>, prefix: Seq<char>, embedded: Seq<Seq<char>>) -> Option<
    ErrorView,
>
    decreases names.len(),
{
    if names.len() == 0 {
        None
    } else if !has_prefix(names[0], prefix) {
        Some(
            ErrorView::PackageInstall(
                "group '"@ + names[0] + "' does not start with required prefix '"@ + prefix + "'"@,
            ),
        )
    } else if embedded.contains(names[0]) {
        Some(
            ErrorView::PackageInstall(
                "group '"@ + names[0] + "' collides with an embedded policy group"@,
            ),
        )
    } else {
        groups_failure(names.skip(1), prefix, embedded)
    }
}

pub fn validate_groups(names: &Vec<String>, prefix: &str, embedded: &Vec<String>) -> (r: Result<
    (),
    NonoError,
>)
    ensures
        match r {
            Ok(()) => groups_failure(views(names@), prefix@, views(embedded@)) is None,
            Err(e) => groups_failure(views(names@), prefix@, views(embedded@)) == Some(e@),
        },
{
    let ghost n = views(names@);
    let ghost known = views(embedded@);
    let mut i: usize = 0;
    assert(n.skip(0) =~= n);
    while i < names.len()
        invariant
            i <= names@.len(),
            n == views(names@),
            known == views(embedded@),
            groups_failure(n, prefix@, known) == groups_failure(
                n.skip(i as int),
                prefix@,
                known,
            ),
        decreases names@.len() - i,
    {
        let name = names[i].as_str();
        proof {
            assert(n.skip(i as int)[0] == name@);
            assert(n.skip(i as int).skip(1) =~= n.skip(i + 1));
        }
        if !str_starts_with(name, prefix) {
            return Err(
                NonoError::PackageInstall(
                    concat5(
                        "group '",
                        name,
                        "' does not start with required prefix '",
                        prefix,
                        "'",
                    ),
                ),
            );
        }
        if contains_str(embedded, name) {
            return Err(
                NonoError::PackageInstall(
                    concat3("group '", name, "' collides with an embedded policy group"),
                ),
            );
        }
        i += 1;
    }
    Ok(())
}

// ---------------------------------------------------------------------------
// The lockfile
// ---------------------------------------------------------------------------

/// The kind of a file, judged by its name.
pub open spec fn inferred_type(filename: Seq<char>) -> ArtifactType {
    if filename == "groups.json"@ {
        ArtifactType::Groups
    } else if filename == "trust-policy.json"@ {
        ArtifactType::TrustPolicy
    } else if has_suffix(filename, ".profile.json"@) {
        ArtifactType::Profile
    } else if has_suffix(filename, ".md"@) {
        ArtifactType::Instruction
    } else {
        ArtifactType::Plugin
    }
}

pub fn infer_artifact_type(filename: &str) -> (r: ArtifactType)
    ensures
        r == inferred_type(filename@),
{
    if str_eq(filename, "groups.json") {
        ArtifactType::Groups
    } else if str_eq(filename, "trust-policy.json") {
        ArtifactType::TrustPolicy
    } else if str_ends_with(filename, ".profile.json") {
        ArtifactType::Profile
    } else if str_ends_with(filename, ".md") {
        ArtifactType::Instruction
    } else {
        ArtifactType::Plugin
    }
}

/// The digest under which the lockfile holds a file: that of the last download of the name. The
/// manifest is not held.
pub open spec fn locked_digest(downloads: Seq<DownloadedArtifact>, name: Seq<char>) -> Option<
    Seq<char>,
>
    decreases downloads.len(),
{
    if downloads.len() == 0 || name == "package.json"@ {
        None
    } else if downloads.last().filename@ == name {
        Some(downloads.last().sha256_digest@)
    } else {
        locked_digest(downloads.drop_last(), name)
    }
}

/// The files that the lockfile holds of a pack are the downloads.
pub open spec fn artifacts_are(
    artifacts: Seq<(String, LockedArtifact)>,
    downloads: Seq<DownloadedArtifact>,
) -> bool {
    &&& in_key_order(artifacts)
    &&& forall|name: Seq<char>|
        match #[trigger] lookup(artifacts, name) {
            Some(a) => locked_digest(downloads, name) == Some(a.sha256@) && a.artifact_type
                == inferred_type(name),
            None => locked_digest(downloads, name) is None,
        }
}

fn locked_artifacts(downloads: &Vec<DownloadedArtifact>) -> (r: Vec<(String, LockedArtifact)>)
    ensures
        artifacts_are(r@, downloads@),
{
    let mut r: Vec<(String, LockedArtifact)> = Vec::new();
    let mut i: usize = 0;
    while i < downloads.len()
        invariant
            i <= downloads@.len(),
            artifacts_are(r@, downloads@.take(i as int)),
        decreases downloads@.len() - i,
    {
        let filename = downloads[i].filename.as_str();
        let ghost before = r@;
        proof {
            assert(downloads@.take(i + 1).drop_last() =~= downloads@.take(i as int));
            assert(downloads@.take(i + 1).last() == downloads@[i as int]);
        }
        if !str_eq(filename, "package.json") {
            let key = copy_str(filename);
            let entry = LockedArtifact {
                sha256: copy_str(downloads[i].sha256_digest.as_str()),
                artifact_type: infer_artifact_type(filename),
            };
            let ghost k = key;
            let ghost e = entry;
            set_entry(&mut r, key, entry);
            proof {
                assert forall|name: Seq<char>|
                    match #[trigger] lookup(r@, name) {
                        Some(a) => locked_digest(downloads@.take(i + 1), name) == Some(a.sha256@)
                            && a.artifact_type == inferred_type(name),
                        None => locked_digest(downloads@.take(i + 1), name) is None,
                    } by {
                    law_set_then_get(before, k, e, name);
                    if name != k@ {
                        assert(lookup(before, name) == lookup(r@, name));
                    }
                }
                law_set_then_get(before, k, e, k@);
            }
        } else {
            proof {
                assert forall|name: Seq<char>|
                    match #[trigger] lookup(r@, name) {
                        Some(a) => locked_digest(downloads@.take(i + 1), name) == Some(a.sha256@)
                            && a.artifact_type == inferred_type(name),
                        None => locked_digest(downloads@.take(i + 1), name) is None,
                    } by {
                    assert(lookup(before, name) == lookup(r@, name));
                }
            }
        }
        i += 1;
    }
    assert(downloads@.take(i as int) =~= downloads@);
    r
}

/// A signed number read as an unsigned one of the same width.
pub open spec fn as_unsigned(n: i64) -> int {
    if n >= 0 {
        n as int
    } else {
        n + 0x1_0000_0000_0000_0000
    }
}

fn to_unsigned(n: i64) -> (r: u64)
    ensures
        r == as_unsigned(n),
{
    if n >= 0 {
        n as u64
    } else {
        let m: i64 = -(n + 1);
        0xffff_ffff_ffff_ffff - (m as u64)
    }
}

/// The entry of a pack that was just installed.
pub open spec fn locked_is(
    e: LockedPackage,
    pull: PullResponse,
    signer: Seq<char>,
    downloads: Seq<DownloadedArtifact>,
    wiring: Seq<WiringRecord>,
    pinned: bool,
    now: Seq<char>,
) -> bool {
    &&& e.version@ == pull.version@
    &&& e.installed_at@ == now
    &&& e.pinned == pinned
    &&& artifacts_are(e.artifacts@, downloads)
    &&& e.wiring_record@ == wiring
    &&& e.provenance is Some
    &&& {
        let p = e.provenance->0;
        &&& p.signer_identity@ == signer
        &&& p.repository@ == pull.provenance.repository@
        &&& p.workflow@ == pull.provenance.workflow@
        &&& p.git_ref@ == pull.provenance.git_ref@
        &&& p.rekor_log_index == match pull.provenance.rekor_log_index {
            Some(n) => as_unsigned(n),
            None => 0,
        }
        &&& p.signed_at@ == match pull.provenance.signed_at {
            Some(t) => t@,
            None => now,
        }
    }
}

/// A pack was pinned before.
pub open spec fn was_pinned(packages: Seq<(String, LockedPackage)>, key: Seq<char>) -> bool {
    has_key(packages, key) && (lookup(packages, key)->0).pinned
}

/// Writes down that a pack is installed. Whether it is pinned does not change; `now` is the time
/// as an RFC 3339 text.
pub fn update_lockfile(
    lockfile: &mut Lockfile,
    package_ref: &PackageRef,
    registry_url: &str,
    pull: &PullResponse,
    signer: &str,
    downloads: &Vec<DownloadedArtifact>,
    wiring: Vec<WiringRecord>,
    now: &str,
)
    requires
        old(lockfile).wf(),
    ensures
        final(lockfile).wf(),
        final(lockfile).lockfile_version == LOCKFILE_VERSION,
        final(lockfile).registry@ == registry_url@,
        has_key(final(lockfile).packages@, package_ref@.key()),
        locked_is(
            lookup(final(lockfile).packages@, package_ref@.key())->0,
            *pull,
            signer@,
            downloads@,
            wiring@,
            was_pinned(old(lockfile).packages@, package_ref@.key()),
            now@,
        ),
        forall|other: Seq<char>|
            other != package_ref@.key() ==> #[trigger] lookup(final(lockfile).packages@, other)
                == lookup(old(lockfile).packages@, other),
{
    let key = package_ref.key();
    lockfile.lockfile_version = LOCKFILE_VERSION;
    lockfile.registry = copy_str(registry_url);
    let pinned = match find_key(&lockfile.packages, key.as_str()) {
        Some(i) => lockfile.packages[i].1.pinned,
        None => false,
    };
    let rekor_log_index: u64 = match pull.provenance.rekor_log_index {
        Some(n) => to_unsigned(n),
        None => 0,
    };
    let signed_at = match &pull.provenance.signed_at {
        Some(t) => copy_str(t.as_str()),
        None => copy_str(now),
    };
    let provenance = PackageProvenance {
        signer_identity: copy_str(signer),
        repository: copy_str(pull.provenance.repository.as_str()),
        workflow: copy_str(pull.provenance.workflow.as_str()),
        git_ref: copy_str(pull.provenance.git_ref.as_str()),
        rekor_log_index,
        signed_at,
    };
    let entry = LockedPackage {
        version: copy_str(pull.version.as_str()),
        installed_at: copy_str(now),
        pinned,
        provenance: Some(provenance),
        artifacts: locked_artifacts(downloads),
        wiring_record: wiring,
    };
    let ghost k = key;
    let ghost e = entry;
    let ghost before = lockfile.packages@;
    set_entry(&mut lockfile.packages, key, entry);
    proof {
        law_set_then_get(before, k, e, k@);
        assert forall|other: Seq<char>| other != k@ implies #[trigger] lookup(
            lockfile.packages@,
            other,
        ) == lookup(before, other) by {
            law_set_then_get(before, k, e, other);
        }
    }
}

/// The files that a pack wrote when it was installed, with their digests, in the order written; of
/// two entries for one file the later counts.
pub open spec fn written_files(records: Seq<WiringRecord>) -> Seq<(Seq<char>, Seq<char>)>
    decreases records.len(),
{
    if records.len() == 0 {
        Seq::empty()
    } else {
        match records.last() {
            WiringRecord::WriteFile { dest, sha256 } => written_files(records.drop_last()).push(
                (dest@, sha256@),
            ),
            WiringRecord::Other { .. } => written_files(records.drop_last()),
        }
    }
}

pub open spec fn pair_views(v: Seq<(String, String)>) -> Seq<(Seq<char>, Seq<char>)> {
    v.map_values(|p: (String, String)| (p.0@, p.1@))
}

pub fn pack_owned_write_file_paths(lockfile: &Lockfile, package_ref: &PackageRef) -> (r: Vec<
    (String, String),
>)
    ensures
        pair_views(r@) == match lookup(lockfile.packages@, package_ref@.key()) {
            Some(p) => written_files(p.wiring_record@),
            None => Seq::empty(),
        },
{
    let mut r: Vec<(String, String)> = Vec::new();
    assert(pair_views(r@) =~= Seq::<(Seq<char>, Seq<char>)>::empty());
    let key = package_ref.key();
    if let Some(n) = find_key(&lockfile.packages, key.as_str()) {
        let records = &lockfile.packages[n].1.wiring_record;
        let mut i: usize = 0;
        while i < records.len()
            invariant
                i <= records@.len(),
                pair_views(r@) == written_files(records@.take(i as int)),
            decreases records@.len() - i,
        {
            proof {
                assert(records@.take(i + 1).drop_last() =~= records@.take(i as int));
                assert(records@.take(i + 1).last() == records@[i as int]);
            }
            if let WiringRecord::WriteFile { dest, sha256 } = &records[i] {
                let ghost before = pair_views(r@);
                r.push((copy_str(dest.as_str()), copy_str(sha256.as_str())));
                assert(pair_views(r@) =~= before.push((dest@, sha256@)));
            }
            i += 1;
        }
        assert(records@.take(i as int) =~= records@);
    }
    r
}

/// Why a pack cannot be installed again: some earlier step could not be undone.
pub fn check_repull(package_ref: &PackageRef, failures: usize) -> (r: Result<(), NonoError>)
    ensures
        r is Ok <==> failures == 0,
        r is Err ==> (r->Err_0)@ == ErrorView::PackageInstall(
            "re-pull of "@ + package_ref@.key() + " aborted — "@ + decimal(failures as nat)
                + " prior wiring directive(s) failed to reverse. Resolve the failures above (or `nono remove --force` first) before retrying."@,
        ),
{
    if failures == 0 {
        return Ok(());
    }
    let key = package_ref.key();
    let n = usize_to_string(failures);
    Err(
        NonoError::PackageInstall(
            concat5(
                "re-pull of ",
                key.as_str(),
                " aborted — ",
                n.as_str(),
                " prior wiring directive(s) failed to reverse. Resolve the failures above (or `nono remove --force` first) before retrying.",
            ),
        ),
    )
}

/// Whether installing a pack is followed by an offer to clean up the hooks that earlier releases of
/// it put into the user's settings.
pub fn offers_legacy_cleanup(package_ref: &PackageRef, agent: &AgentNames) -> (r: bool)
    ensures
        r == names_hook_pack(*agent, package_ref.namespace@, package_ref.name@),
{
    is_hook_pack_name(agent, package_ref.namespace.as_str(), package_ref.name.as_str())
}

// ---------------------------------------------------------------------------
// The steps of a request
// ---------------------------------------------------------------------------

/// How a request goes on once the registry has answered.
#[derive(Debug)]
pub enum PullStep {
    /// The release is installed already; with what is said.
    AlreadyInstalled(String),
    Download,
}

/// The release is installed already, and not asked for again.
pub open spec fn is_installed(lockfile: Lockfile, key: Seq<char>, version: Seq<char>, force: bool) -> bool {
    !force && has_key(lockfile.packages@, key) && (lookup(lockfile.packages@, key)->0).version@
        == version
}

/// Decides, on the registry's answer, whether anything has to be downloaded.
pub fn run_pull(package_ref: &PackageRef, pull: &PullResponse, lockfile: &Lockfile, force: bool) -> (r: Result<
    PullStep,
    NonoError,
>)
    ensures
        match r {
            Err(e) => pull_failure(*package_ref, *pull) == Some(e@),
            Ok(PullStep::AlreadyInstalled(line)) => {
                &&& pull_failure(*package_ref, *pull) is None
                &&& is_installed(*lockfile, package_ref@.key(), pull.version@, force)
                &&& line@ == "  "@ + package_ref@.key() + " is already at "@ + pull.version@
                    + " (use --force to reinstall)"@
            },
            Ok(PullStep::Download) => {
                &&& pull_failure(*package_ref, *pull) is None
                &&& !is_installed(*lockfile, package_ref@.key(), pull.version@, force)
            },
        },
{
    if let Err(e) = validate_pull_response(package_ref, pull) {
        return Err(e);
    }
    match already_installed(lockfile, package_ref, pull.version.as_str(), force) {
        Some(line) => Ok(PullStep::AlreadyInstalled(line)),
        None => Ok(PullStep::Download),
    }
}

/// How the files of a release are installed: on whose behalf, and whether what an earlier release
/// changed is taken back first.
#[derive(Debug)]
pub struct InstallOrder {
    pub signer: String,
    pub reverse_prior: bool,
}

/// Why a release that was downloaded is not installed.
pub open spec fn install_failure(
    existing: Option<LockedPackage>,
    signer: SignerIdentity,
    m: PackageManifest,
    platform: Seq<char>,
    current: Seq<char>,
    force: bool,
) -> Option<ErrorView> {
    match manifest_failure(m, platform, current) {
        Some(e) => Some(e),
        None => pinning_failure(existing, signer_uri(signer), force),
    }
}

/// Decides whether a release that was downloaded is installed, and how.
pub fn admit_release(
    package_ref: &PackageRef,
    lockfile: &Lockfile,
    signer: &SignerIdentity,
    m: &PackageManifest,
    platform: &str,
    current: &str,
    force: bool,
) -> (r: Result<InstallOrder, NonoError>)
    ensures
        ({
            let existing = lookup(lockfile.packages@, package_ref@.key());
            match r {
                Ok(o) => {
                    &&& install_failure(existing, *signer, *m, platform@, current@, force) is None
                    &&& o.signer@ == signer_uri(*signer)
                    &&& o.reverse_prior == (existing is Some
                        && (existing->0).wiring_record@.len() > 0)
                },
                Err(e) => install_failure(existing, *signer, *m, platform@, current@, force)
                    == Some(e@),
            }
        }),
{
    if let Err(e) = validate_manifest(m, platform, current) {
        return Err(e);
    }
    let uri = signer_identity_uri(signer);
    if let Err(e) = enforce_signer_pinning(lockfile, package_ref, uri.as_str(), force) {
        return Err(e);
    }
    let key = package_ref.key();
    let reverse_prior = match find_key(&lockfile.packages, key.as_str()) {
        Some(i) => lockfile.packages[i].1.wiring_record.len() > 0,
        None => false,
    };
    Ok(InstallOrder { signer: uri, reverse_prior })
}

/// Unless it is forced, a release replaces an installed one only where the same identity signed
/// both, whatever commits or tags they were built from.
pub proof fn law_updates_keep_the_signer(
    existing: LockedPackage,
    signer: SignerIdentity,
    m: PackageManifest,
    platform: Seq<char>,
    current: Seq<char>,
)
    requires
        existing.provenance is Some,
        install_failure(Some(existing), signer, m, platform, current, false) is None,
    ensures
        canonical((existing.provenance->0).signer_identity@) == canonical(signer_uri(signer)),
{
}

} // verus!
