//! Preparing a profile for a run: checking its packs and reading its settings.

pub mod laws;

use crate::assoc::{find_key, key_list, keys, lookup};
use crate::digest::{sha256_digest, sha256_hex};
use crate::error::{ErrorView, NonoError};
use crate::extends::BaseTable;
use crate::package::{LockedArtifact, LockedPackage, Lockfile, PackageStatusResponse};
use crate::package_cmd::installed::{key_parts, split_key};
use crate::package_cmd::pull::{
    canonical, canonical_signer_identity, signer_identity_uri, signer_uri, SignerIdentity,
};
use crate::package_status::{
    active_failure, active_lines, enforce_for_active_profile, OfficialPackStatusTarget,
};
use crate::paths::{law_union_spells_both, lists_path, push_new_paths, union_paths};
use crate::profile::{
    clone_credential, CredentialView, CustomCredentialDef, Profile, Setting, WorkdirAccess,
};
use crate::text::{
    chars_of, clone_opt_string, clone_strings, concat2, concat3, concat4, concat5, concat6, concat7,
    concat9, contains_str, copy_str, decimal, extend_strings, find_first, first_index, from_chars,
    hex_text, lemma_first_index, no_strings, opt_view, push_copy, push_wrapped, str_eq, sub_chars,
    usize_to_string, views, wrapped,
};
use vstd::prelude::*;

verus! {

// ---------------------------------------------------------------------------
// Files of a pack
// ---------------------------------------------------------------------------

/// What reading a file gave.
#[derive(Debug)]
pub enum FileOnDisk {
    Missing,
    /// It is there but could not be read; the reason.
    Unreadable(String),
    Present(Vec<u8>),
}

pub open spec fn tampered_message(
    pack: Seq<char>,
    artifact: Seq<char>,
    expected: Seq<char>,
    found: Seq<char>,
) -> Seq<char> {
    "pack '"@ + pack + "' artifact '"@ + artifact + "' has been tampered with.\nExpected: "@
        + expected + "\nFound:    "@ + found + "\nReinstall with: nono pull "@ + pack
        + " --force"@
}

/// Compares the digest of a file with the one in the lockfile.
pub fn check_artifact_hash(pack: &str, artifact: &str, expected: &str, found: &str) -> (r: Result<
    (),
    NonoError,
>)
    ensures
        r is Ok <==> expected@ == found@,
        r is Err ==> (r->Err_0)@ == ErrorView::PackageInstall(
            tampered_message(pack@, artifact@, expected@, found@),
        ),
{
    if str_eq(expected, found) {
        return Ok(());
    }
    let head = concat9(
        "pack '",
        pack,
        "' artifact '",
        artifact,
        "' has been tampered with.\nExpected: ",
        expected,
        "\nFound:    ",
        found,
        "\nReinstall with: nono pull ",
    );
    let all = concat3(head.as_str(), pack, " --force");
    Err(NonoError::PackageInstall(all))
}

/// Why a file of a pack is not as it was installed.
pub open spec fn artifact_failure(
    pack: Seq<char>,
    artifact: Seq<char>,
    expected: Seq<char>,
    file: Option<FileOnDisk>,
) -> Option<ErrorView> {
    match file {
        Some(FileOnDisk::Present(bytes)) => {
            let found = hex_text(sha256_digest(bytes@));
            if found == expected {
                None
            } else {
                Some(
                    ErrorView::PackageInstall(
                        tampered_message(pack, artifact, expected, found),
                    ),
                )
            }
        },
        Some(FileOnDisk::Unreadable(reason)) => Some(
            ErrorView::PackageInstall(
                "failed to read artifact '"@ + artifact + "' in pack '"@ + pack + "': "@ + reason@,
            ),
        ),
        _ => Some(
            ErrorView::PackageInstall(
                "pack '"@ + pack + "' is missing artifact '"@ + artifact
                    + "'. Reinstall with: nono pull "@ + pack + " --force"@,
            ),
        ),
    }
}

fn check_artifact(pack: &str, artifact: &str, expected: &str, files: &Vec<(String, FileOnDisk)>) -> (r: Option<
    NonoError,
>)
    ensures
        match r {
            Some(e) => artifact_failure(pack@, artifact@, expected@, lookup(files@, artifact@))
                == Some(e@),
            None => artifact_failure(
                pack@,
                artifact@,
                expected@,
                lookup(files@, artifact@),
            ) is None,
        },
{
    if let Some(i) = find_key(files, artifact) {
        match &files[i].1 {
            FileOnDisk::Present(bytes) => {
                let found = sha256_hex(bytes);
                return match check_artifact_hash(pack, artifact, expected, found.as_str()) {
                    Ok(()) => None,
                    Err(e) => Some(e),
                };
            },
            FileOnDisk::Unreadable(reason) => {
                let text = concat6(
                    "failed to read artifact '",
                    artifact,
                    "' in pack '",
                    pack,
                    "': ",
                    reason.as_str(),
                );
                return Some(NonoError::PackageInstall(text));
            },
            FileOnDisk::Missing => {},
        }
    }
    Some(
        NonoError::PackageInstall(
            concat7(
                "pack '",
                pack,
                "' is missing artifact '",
                artifact,
                "'. Reinstall with: nono pull ",
                pack,
                " --force",
            ),
        ),
    )
}

/// The failure of the first of the locked files that has one.
pub open spec fn artifacts_failure(
    pack: Seq<char>,
    locked: Seq<(String, LockedArtifact)>,
    files: Seq<(String, FileOnDisk)>,
) -> Option<ErrorView>
    decreases locked.len(),
{
    if locked.len() == 0 {
        None
    } else {
        match artifact_failure(
            pack,
            locked[0].0@,
            locked[0].1.sha256@,
            lookup(files, locked[0].0@),
        ) {
            Some(e) => Some(e),
            None => artifacts_failure(pack, locked.skip(1), files),
        }
    }
}

fn check_artifacts(
    pack: &str,
    locked: &Vec<(String, LockedArtifact)>,
    files: &Vec<(String, FileOnDisk)>,
) -> (r: Option<NonoError>)
    ensures
        match r {
            Some(e) => artifacts_failure(pack@, locked@, files@) == Some(e@),
            None => artifacts_failure(pack@, locked@, files@) is None,
        },
{
    let mut i: usize = 0;
    assert(locked@.skip(0) =~= locked@);
    while i < locked.len()
        invariant
            i <= locked@.len(),
            artifacts_failure(pack@, locked@, files@) == artifacts_failure(
                pack@,
                locked@.skip(i as int),
                files@,
            ),
        decreases locked@.len() - i,
    {
        proof {
            assert(locked@.skip(i as int)[0] == locked@[i as int]);
            assert(locked@.skip(i as int).skip(1) =~= locked@.skip(i + 1));
        }
        if let Some(e) = check_artifact(
            pack,
            locked[i].0.as_str(),
            locked[i].1.sha256.as_str(),
            files,
        ) {
            return Some(e);
        }
        i += 1;
    }
    None
}

// ---------------------------------------------------------------------------
// Trust bundles
// ---------------------------------------------------------------------------

/// An entry of a trust bundle with what the checks of its signature gave, each as far as it can
/// be made: whether the file is there and can be read, whether the entry's bundle is for it, the
/// verification, and who signed.
#[derive(Debug)]
pub struct BundleEntry {
    pub artifact: Option<String>,
    pub has_bundle: bool,
    pub present: bool,
    pub readable: Result<(), String>,
    pub loaded: Result<(), NonoError>,
    pub verified: Result<(), String>,
    pub signer: Result<SignerIdentity, NonoError>,
}

/// Why an entry of a bundle does not speak for its file.
pub open spec fn entry_failure(pack: Seq<char>, e: BundleEntry, pinned: Seq<char>) -> Option<ErrorView> {
    if e.artifact is None {
        Some(
            ErrorView::PackageInstall(
                "trust bundle entry missing 'artifact' field in pack '"@ + pack + "'"@,
            ),
        )
    } else {
        let artifact = (e.artifact->0)@;
        if !e.has_bundle {
            Some(
                ErrorView::PackageInstall(
                    "trust bundle entry missing 'bundle' field for '"@ + artifact + "' in pack '"@
                        + pack + "'"@,
                ),
            )
        } else if !e.present {
            None
        } else if e.readable is Err {
            Some(
                ErrorView::PackageInstall(
                    "failed to read '"@ + artifact + "' for bundle verification in pack '"@ + pack
                        + "': "@ + (e.readable->Err_0)@,
                ),
            )
        } else if e.loaded is Err {
            Some((e.loaded->Err_0)@)
        } else if e.verified is Err {
            Some(
                ErrorView::PackageInstall(
                    "Sigstore verification failed for '"@ + artifact + "' in pack '"@ + pack
                        + "': "@ + (e.verified->Err_0)@ + "\nReinstall with: nono pull "@ + pack
                        + " --force"@,
                ),
            )
        } else if e.signer is Err {
            Some((e.signer->Err_0)@)
        } else if canonical(signer_uri(e.signer->Ok_0)) != canonical(pinned) {
            Some(
                ErrorView::PackageVerification {
                    package: pack,
                    reason: "signer identity mismatch for '"@ + artifact
                        + "': bundle was signed by '"@ + signer_uri(e.signer->Ok_0)
                        + "' but lockfile pins '"@ + pinned + "'. Reinstall with: nono pull "@
                        + pack + " --force"@,
                },
            )
        } else {
            None
        }
    }
}

fn check_entry(pack: &str, e: &BundleEntry, pinned: &str) -> (r: Option<NonoError>)
    ensures
        match r {
            Some(f) => entry_failure(pack@, *e, pinned@) == Some(f@),
            None => entry_failure(pack@, *e, pinned@) is None,
        },
{
    let artifact = match &e.artifact {
        Some(a) => a.as_str(),
        None => {
            return Some(
                NonoError::PackageInstall(
                    concat3("trust bundle entry missing 'artifact' field in pack '", pack, "'"),
                ),
            );
        },
    };
    if !e.has_bundle {
        return Some(
            NonoError::PackageInstall(
                concat5(
                    "trust bundle entry missing 'bundle' field for '",
                    artifact,
                    "' in pack '",
                    pack,
                    "'",
                ),
            ),
        );
    }
    if !e.present {
        return None;
    }
    if let Err(reason) = &e.readable {
        return Some(
            NonoError::PackageInstall(
                concat6(
                    "failed to read '",
                    artifact,
                    "' for bundle verification in pack '",
                    pack,
                    "': ",
                    reason.as_str(),
                ),
            ),
        );
    }
    if let Err(f) = &e.loaded {
        return Some(f.copy());
    }
    if let Err(reason) = &e.verified {
        return Some(
            NonoError::PackageInstall(
                concat9(
                    "Sigstore verification failed for '",
                    artifact,
                    "' in pack '",
                    pack,
                    "': ",
                    reason.as_str(),
                    "\nReinstall with: nono pull ",
                    pack,
                    " --force",
                ),
            ),
        );
    }
    let uri = match &e.signer {
        Ok(s) => signer_identity_uri(s),
        Err(f) => {
            return Some(f.copy());
        },
    };
    let signed = canonical_signer_identity(uri.as_str());
    let expected = canonical_signer_identity(pinned);
    if !str_eq(signed.as_str(), expected.as_str()) {
        return Some(
            NonoError::PackageVerification {
                package: copy_str(pack),
                reason: concat9(
                    "signer identity mismatch for '",
                    artifact,
                    "': bundle was signed by '",
                    uri.as_str(),
                    "' but lockfile pins '",
                    pinned,
                    "'. Reinstall with: nono pull ",
                    pack,
                    " --force",
                ),
            },
        );
    }
    None
}

/// The failure of the first entry that has one.
pub open spec fn entries_failure(pack: Seq<char>, entries: Seq<BundleEntry>, pinned: Seq<char>) -> Option<
    ErrorView,
>
    decreases entries.len(),
{
    if entries.len() == 0 {
        None
    } else {
        match entry_failure(pack, entries[0], pinned) {
            Some(e) => Some(e),
            None => entries_failure(pack, entries.skip(1), pinned),
        }
    }
}

/// What reading a trust bundle gave.
#[derive(Debug)]
pub enum BundleFile {
    Unreadable(String),
    Unparsable(String),
    /// There is nothing to verify signatures against.
    Untrusted(NonoError),
    Entries(Vec<BundleEntry>),
}

pub open spec fn bundle_failure(pack: Seq<char>, b: BundleFile, pinned: Seq<char>) -> Option<ErrorView> {
    match b {
        BundleFile::Unreadable(reason) => Some(
            ErrorView::PackageInstall(
                "failed to read trust bundle for pack '"@ + pack + "': "@ + reason@,
            ),
        ),
        BundleFile::Unparsable(reason) => Some(
            ErrorView::PackageInstall(
                "failed to parse trust bundle for pack '"@ + pack + "': "@ + reason@,
            ),
        ),
        BundleFile::Untrusted(e) => Some(e@),
        BundleFile::Entries(v) => entries_failure(pack, v@, pinned),
    }
}

/// Checks the trust bundle of a pack against the signer that the lockfile names.
pub fn verify_stored_bundles(pack: &str, bundle: &BundleFile, pinned: &str) -> (r: Result<
    (),
    NonoError,
>)
    ensures
        match r {
            Ok(()) => bundle_failure(pack@, *bundle, pinned@) is None,
            Err(e) => bundle_failure(pack@, *bundle, pinned@) == Some(e@),
        },
{
    match bundle {
        BundleFile::Unreadable(reason) => Err(
            NonoError::PackageInstall(
                concat4(
                    "failed to read trust bundle for pack '",
                    pack,
                    "': ",
                    reason.as_str(),
                ),
            ),
        ),
        BundleFile::Unparsable(reason) => Err(
            NonoError::PackageInstall(
                concat4(
                    "failed to parse trust bundle for pack '",
                    pack,
                    "': ",
                    reason.as_str(),
                ),
            ),
        ),
        BundleFile::Untrusted(e) => Err(e.copy()),
        BundleFile::Entries(entries) => {
            let mut i: usize = 0;
            assert(entries@.skip(0) =~= entries@);
            while i < entries.len()
                invariant
                    i <= entries@.len(),
                    entries_failure(pack@, entries@, pinned@) == entries_failure(
                        pack@,
                        entries@.skip(i as int),
                        pinned@,
                    ),
                    bundle_failure(pack@, *bundle, pinned@) == entries_failure(
                        pack@,
                        entries@,
                        pinned@,
                    ),
                decreases entries@.len() - i,
            {
                proof {
                    assert(entries@.skip(i as int)[0] == entries@[i as int]);
                    assert(entries@.skip(i as int).skip(1) =~= entries@.skip(i + 1));
                }
                if let Some(e) = check_entry(pack, &entries[i], pinned) {
                    return Err(e);
                }
                i += 1;
            }
            Ok(())
        },
    }
}

// ---------------------------------------------------------------------------
// Packs
// ---------------------------------------------------------------------------

/// What is on disk of a pack: whether its directory is there, the files that the lockfile names,
/// and its trust bundle, if it has one.
#[derive(Debug)]
pub struct PackOnDisk {
    pub installed: Result<bool, NonoError>,
    pub files: Vec<(String, FileOnDisk)>,
    pub bundle: Option<BundleFile>,
}

pub open spec fn reinstall_reason(pack: Seq<char>, what: Seq<char>) -> ErrorView {
    ErrorView::PackageVerification {
        package: pack,
        reason: "pack '"@ + pack + what + pack + " --force"@,
    }
}

/// Why a pack cannot be used: its reference is none, it is not installed, its files are not those
/// that were installed, or its trust bundle does not hold.
pub open spec fn pack_failure(pack: Seq<char>, locked: Option<LockedPackage>, disk: PackOnDisk) -> Option<
    ErrorView,
> {
    if key_parts(pack) is None {
        Some(
            ErrorView::PackageInstall(
                "invalid pack reference '"@ + pack + "': expected <namespace>/<name>"@,
            ),
        )
    } else if disk.installed is Err {
        Some((disk.installed->Err_0)@)
    } else if !(disk.installed->Ok_0) {
        Some(
            ErrorView::PackageInstall(
                "Pack '"@ + pack
                    + "' declared by profile but not installed. Install it with: nono pull "@
                    + pack,
            ),
        )
    } else {
        let files = match locked {
            Some(p) => artifacts_failure(pack, p.artifacts@, disk.files@),
            None => None,
        };
        if files is Some {
            files
        } else if disk.bundle is None {
            None
        } else if locked is None {
            Some(
                reinstall_reason(
                    pack,
                    "' has a trust bundle but no lockfile entry — reinstall with: nono pull "@,
                ),
            )
        } else if (locked->0).provenance is None {
            Some(
                reinstall_reason(
                    pack,
                    "' has a trust bundle but no signer identity in the lockfile — reinstall with: nono pull "@,
                ),
            )
        } else {
            bundle_failure(
                pack,
                disk.bundle->0,
                ((locked->0).provenance->0).signer_identity@,
            )
        }
    }
}

fn reinstall_failure(pack: &str, what: &str) -> (r: NonoError)
    ensures
        r@ == reinstall_reason(pack@, what@),
{
    NonoError::PackageVerification {
        package: copy_str(pack),
        reason: concat5("pack '", pack, what, pack, " --force"),
    }
}

fn check_pack(pack: &str, lockfile: &Lockfile, disk: &PackOnDisk) -> (r: Result<(), NonoError>)
    ensures
        match r {
            Ok(()) => pack_failure(pack@, lookup(lockfile.packages@, pack@), *disk) is None,
            Err(e) => pack_failure(pack@, lookup(lockfile.packages@, pack@), *disk) == Some(e@),
        },
{
    if split_key(pack).is_none() {
        return Err(
            NonoError::PackageInstall(
                concat3(
                    "invalid pack reference '",
                    pack,
                    "': expected <namespace>/<name>",
                ),
            ),
        );
    }
    match &disk.installed {
        Err(e) => {
            return Err(e.copy());
        },
        Ok(present) => {
            if !*present {
                return Err(
                    NonoError::PackageInstall(
                        concat4(
                            "Pack '",
                            pack,
                            "' declared by profile but not installed. Install it with: nono pull ",
                            pack,
                        ),
                    ),
                );
            }
        },
    }
    let locked = find_key(&lockfile.packages, pack);
    if let Some(n) = locked {
        if let Some(e) = check_artifacts(pack, &lockfile.packages[n].1.artifacts, &disk.files) {
            return Err(e);
        }
    }
    let bundle = match &disk.bundle {
        Some(b) => b,
        None => {
            return Ok(());
        },
    };
    match locked {
        None => Err(
            reinstall_failure(
                pack,
                "' has a trust bundle but no lockfile entry — reinstall with: nono pull ",
            ),
        ),
        Some(n) => match &lockfile.packages[n].1.provenance {
            None => Err(
                reinstall_failure(
                    pack,
                    "' has a trust bundle but no signer identity in the lockfile — reinstall with: nono pull ",
                ),
            ),
            Some(p) => verify_stored_bundles(pack, bundle, p.signer_identity.as_str()),
        },
    }
}

/// Why the first `n` packs cannot be used, by the first of them that cannot.
pub open spec fn packs_failure(
    packs: Seq<Seq<char>>,
    lockfile: Lockfile,
    disk: Seq<PackOnDisk>,
    n: nat,
) -> Option<ErrorView>
    decreases n,
{
    if n == 0 {
        None
    } else {
        match packs_failure(packs, lockfile, disk, (n - 1) as nat) {
            Some(e) => Some(e),
            None => pack_failure(
                packs[n - 1],
                lookup(lockfile.packages@, packs[n - 1]),
                disk[n - 1],
            ),
        }
    }
}

proof fn lemma_packs_failure(
    packs: Seq<Seq<char>>,
    lockfile: Lockfile,
    disk: Seq<PackOnDisk>,
    i: int,
    n: nat,
)
    requires
        0 <= i <= n,
        packs_failure(packs, lockfile, disk, i as nat) is Some,
    ensures
        packs_failure(packs, lockfile, disk, n) == packs_failure(packs, lockfile, disk, i as nat),
    decreases n,
{
    if i < n {
        lemma_packs_failure(packs, lockfile, disk, i, (n - 1) as nat);
    }
}

/// Checks that the packs of a profile are installed and intact.
pub fn verify_profile_packs(packs: &Vec<String>, lockfile: &Lockfile, disk: &Vec<PackOnDisk>) -> (r: Result<
    (),
    NonoError,
>)
    requires
        disk@.len() == packs@.len(),
    ensures
        match r {
            Ok(()) => packs_failure(views(packs@), *lockfile, disk@, packs@.len()) is None,
            Err(e) => packs_failure(views(packs@), *lockfile, disk@, packs@.len()) == Some(e@),
        },
{
    let ghost all = views(packs@);
    let mut i: usize = 0;
    while i < packs.len()
        invariant
            i <= packs@.len(),
            disk@.len() == packs@.len(),
            all == views(packs@),
            packs_failure(all, *lockfile, disk@, i as nat) is None,
        decreases packs@.len() - i,
    {
        assert(all[i as int] == packs@[i as int]@);
        if let Err(e) = check_pack(packs[i].as_str(), lockfile, &disk[i]) {
            proof {
                lemma_packs_failure(all, *lockfile, disk@, i + 1, packs@.len());
            }
            return Err(e);
        }
        i += 1;
    }
    Ok(())
}

/// Every pack that passes the check is installed.
pub proof fn law_checked_packs_are_installed(
    packs: Seq<Seq<char>>,
    lockfile: Lockfile,
    disk: Seq<PackOnDisk>,
    i: int,
)
    requires
        packs_failure(packs, lockfile, disk, packs.len()) is None,
        0 <= i < packs.len(),
    ensures
        disk[i].installed == Ok::<bool, NonoError>(true),
        pack_failure(packs[i], lookup(lockfile.packages@, packs[i]), disk[i]) is None,
{
    if packs_failure(packs, lockfile, disk, (i + 1) as nat) is Some {
        lemma_packs_failure(packs, lockfile, disk, i + 1, packs.len());
    }
}

/// Where the packs pass, every file that the lockfile names for an installed pack has the digest
/// that the lockfile names.
pub proof fn law_checked_files_match(
    pack: Seq<char>,
    locked: LockedPackage,
    disk: PackOnDisk,
    i: int,
)
    requires
        pack_failure(pack, Some(locked), disk) is None,
        0 <= i < locked.artifacts@.len(),
    ensures
        match lookup(disk.files@, locked.artifacts@[i].0@) {
            Some(FileOnDisk::Present(bytes)) => hex_text(sha256_digest(bytes@))
                == locked.artifacts@[i].1.sha256@,
            _ => false,
        },
{
    lemma_checked_artifacts(pack, locked.artifacts@, disk.files@, i);
}

proof fn lemma_checked_artifacts(
    pack: Seq<char>,
    locked: Seq<(String, LockedArtifact)>,
    files: Seq<(String, FileOnDisk)>,
    i: int,
)
    requires
        artifacts_failure(pack, locked, files) is None,
        0 <= i < locked.len(),
    ensures
        artifact_failure(
            pack,
            locked[i].0@,
            locked[i].1.sha256@,
            lookup(files, locked[i].0@),
        ) is None,
    decreases locked.len(),
{
    if i > 0 {
        lemma_checked_artifacts(pack, locked.skip(1), files, i - 1);
        assert(locked.skip(1)[i - 1] == locked[i]);
    }
}

/// The part of a pack reference before the first at sign.
pub open spec fn reference_key(name: Seq<char>) -> Seq<char> {
    name.take(first_index(name, '@'))
}

/// The packs to check: those of the profile, and the one by which the profile was named.
pub open spec fn packs_to_check(packs: Seq<Seq<char>>, name: Seq<char>, registry_ref: bool) -> Seq<
    Seq<char>,
> {
    if registry_ref && !packs.contains(reference_key(name)) {
        packs.push(reference_key(name))
    } else {
        packs
    }
}

pub fn packs_to_verify(packs: &Vec<String>, name: &str, registry_ref: bool) -> (r: Vec<String>)
    ensures
        views(r@) == packs_to_check(views(packs@), name@, registry_ref),
{
    let mut r = clone_strings(packs);
    if registry_ref {
        let v = chars_of(name);
        let i = find_first(&v, '@');
        proof {
            lemma_first_index(name@, '@');
        }
        let front = sub_chars(&v, 0, i);
        assert(front@ =~= reference_key(name@));
        let key = from_chars(&front);
        if !contains_str(&r, key.as_str()) {
            push_copy(&mut r, key.as_str());
        }
    }
    r
}

/// The line that says how many packs were checked, where there were any and something is said.
pub fn verified_line(count: usize, silent: bool) -> (r: Option<String>)
    ensures
        r is Some <==> count > 0 && !silent,
        r is Some ==> (r->0)@ == "  Verified "@ + decimal(count as nat) + " pack(s)"@,
{
    if count > 0 && !silent {
        let n = usize_to_string(count);
        Some(concat3("  Verified ", n.as_str(), " pack(s)"))
    } else {
        None
    }
}

/// The notes on the hooks that a profile declares, unless nothing is to be said.
pub open spec fn hook_notes(p: Profile, silent: bool) -> Seq<Seq<char>> {
    if silent {
        Seq::empty()
    } else {
        wrapped(
            "  Note: profile declares hooks."@,
            keys(p.hooks.hooks@),
            " but in-profile hook installation has been removed; move the wiring into the pack's package.json `wiring` directives."@,
        )
    }
}

/// One note for each hook that a profile declares.
pub fn install_profile_hooks(p: &Profile, silent: bool) -> (r: Vec<String>)
    ensures
        views(r@) == hook_notes(*p, silent),
{
    let mut r: Vec<String> = Vec::new();
    assert(views(r@) =~= Seq::<Seq<char>>::empty());
    if !silent {
        let targets = key_list(&p.hooks.hooks);
        push_wrapped(
            &mut r,
            "  Note: profile declares hooks.",
            &targets,
            " but in-profile hook installation has been removed; move the wiring into the pack's package.json `wiring` directives.",
        );
        assert(views(r@) =~= hook_notes(*p, silent));
    }
    r
}

// ---------------------------------------------------------------------------
// Settings
// ---------------------------------------------------------------------------

/// The settings of a run as the profile gives them; the profile itself stays with the caller. Where
/// one of the two policies is not given, the default of the runtime that follows it holds.
#[derive(Debug)]
pub struct PreparedProfile {
    pub capability_elevation: bool,
    pub wsl2_proxy_policy: Option<Setting>,
    pub af_unix_mediation: Option<Setting>,
    pub workdir_access: Option<WorkdirAccess>,
    pub rollback_exclude_patterns: Vec<String>,
    pub rollback_exclude_globs: Vec<String>,
    pub network_profile: Option<String>,
    pub allow_domain: Vec<String>,
    pub credentials: Vec<String>,
    pub custom_credentials: Vec<(String, CustomCredentialDef)>,
    pub upstream_proxy: Option<String>,
    pub upstream_bypass: Vec<String>,
    pub listen_ports: Vec<u16>,
    pub open_url_origins: Vec<String>,
    pub open_url_allow_localhost: bool,
    pub allow_launch_services: bool,
    pub allow_gpu: bool,
    pub allow_parent_of_protected: bool,
    pub bypass_protection_paths: Vec<String>,
    pub ignored_denial_paths: Vec<String>,
    pub allowed_env_vars: Option<Vec<String>>,
    pub denied_env_vars: Option<Vec<String>>,
}

/// Settings with their texts as sequences.
pub struct PreparedView {
    pub capability_elevation: bool,
    pub wsl2_proxy_policy: Option<(Seq<char>, Seq<char>)>,
    pub af_unix_mediation: Option<(Seq<char>, Seq<char>)>,
    pub workdir_access: Option<WorkdirAccess>,
    pub rollback_exclude_patterns: Seq<Seq<char>>,
    pub rollback_exclude_globs: Seq<Seq<char>>,
    pub network_profile: Option<Seq<char>>,
    pub allow_domain: Seq<Seq<char>>,
    pub credentials: Seq<Seq<char>>,
    pub custom_credentials: Seq<(Seq<char>, CredentialView)>,
    pub upstream_proxy: Option<Seq<char>>,
    pub upstream_bypass: Seq<Seq<char>>,
    pub listen_ports: Seq<u16>,
    pub open_url_origins: Seq<Seq<char>>,
    pub open_url_allow_localhost: bool,
    pub allow_launch_services: bool,
    pub allow_gpu: bool,
    pub allow_parent_of_protected: bool,
    pub bypass_protection_paths: Seq<Seq<char>>,
    pub ignored_denial_paths: Seq<Seq<char>>,
    pub allowed_env_vars: Option<Seq<Seq<char>>>,
    pub denied_env_vars: Option<Seq<Seq<char>>>,
}

impl View for PreparedProfile {
    type V = PreparedView;

    open spec fn view(&self) -> PreparedView {
        PreparedView {
            capability_elevation: self.capability_elevation,
            wsl2_proxy_policy: setting_view(self.wsl2_proxy_policy),
            af_unix_mediation: setting_view(self.af_unix_mediation),
            workdir_access: self.workdir_access,
            rollback_exclude_patterns: views(self.rollback_exclude_patterns@),
            rollback_exclude_globs: views(self.rollback_exclude_globs@),
            network_profile: opt_view(self.network_profile),
            allow_domain: views(self.allow_domain@),
            credentials: views(self.credentials@),
            custom_credentials: credential_views(self.custom_credentials@),
            upstream_proxy: opt_view(self.upstream_proxy),
            upstream_bypass: views(self.upstream_bypass@),
            listen_ports: self.listen_ports@,
            open_url_origins: views(self.open_url_origins@),
            open_url_allow_localhost: self.open_url_allow_localhost,
            allow_launch_services: self.allow_launch_services,
            allow_gpu: self.allow_gpu,
            allow_parent_of_protected: self.allow_parent_of_protected,
            bypass_protection_paths: views(self.bypass_protection_paths@),
            ignored_denial_paths: views(self.ignored_denial_paths@),
            allowed_env_vars: list_view(self.allowed_env_vars),
            denied_env_vars: list_view(self.denied_env_vars),
        }
    }
}

pub open spec fn credential_views(v: Seq<(String, CustomCredentialDef)>) -> Seq<
    (Seq<char>, CredentialView),
> {
    v.map_values(|e: (String, CustomCredentialDef)| (e.0@, e.1@))
}

/// What a path with variables in it stands for: the path with the variables put in, where they
/// are known, and the path as it is written; both with links followed.
#[derive(Debug)]
pub struct Expansion {
    pub expanded: Option<String>,
    pub literal: String,
}

/// What the paths of a profile and of the command line stand for, by the text of the path. The
/// paths that lift a protection and those whose denials are ignored follow links differently.
#[derive(Debug)]
pub struct PathExpansions {
    pub bypass: Vec<(String, Expansion)>,
    pub ignored: Vec<(String, Expansion)>,
}

/// The paths of the command line.
#[derive(Debug)]
pub struct CliPaths {
    pub bypass_protection: Vec<String>,
    pub suppress_save_prompt: Vec<String>,
}

/// What the paths of a profile stand for. One whose variables are not known is left out.
pub open spec fn profile_paths(templates: Seq<Seq<char>>, table: Seq<(String, Expansion)>) -> Seq<
    Seq<char>,
>
    decreases templates.len(),
{
    if templates.len() == 0 {
        Seq::empty()
    } else {
        let front = profile_paths(templates.drop_last(), table);
        match lookup(table, templates.last()) {
            Some(e) => match e.expanded {
                Some(p) => front.push(p@),
                None => front,
            },
            None => front,
        }
    }
}

/// What a path of the command line stands for: one whose variables are not known, for itself.
pub open spec fn cli_path(path: Seq<char>, table: Seq<(String, Expansion)>) -> Seq<char> {
    match lookup(table, path) {
        Some(e) => match e.expanded {
            Some(p) => p@,
            None => e.literal@,
        },
        None => path,
    }
}

pub open spec fn cli_paths(paths: Seq<Seq<char>>, table: Seq<(String, Expansion)>) -> Seq<Seq<char>> {
    paths.map_values(|p: Seq<char>| cli_path(p, table))
}

/// Lists what the paths of a profile stand for.
pub fn list_profile_paths(templates: &Vec<String>, table: &Vec<(String, Expansion)>) -> (r: Vec<String>)
    ensures
        views(r@) == profile_paths(views(templates@), table@),
{
    let ghost all = views(templates@);
    let mut r: Vec<String> = Vec::new();
    let mut i: usize = 0;
    assert(views(r@) =~= profile_paths(all.take(0), table@));
    while i < templates.len()
        invariant
            i <= templates@.len(),
            all == views(templates@),
            views(r@) == profile_paths(all.take(i as int), table@),
        decreases templates@.len() - i,
    {
        proof {
            assert(all.take(i + 1).drop_last() =~= all.take(i as int));
            assert(all.take(i + 1).last() == templates@[i as int]@);
        }
        if let Some(n) = find_key(table, templates[i].as_str()) {
            if let Some(p) = &table[n].1.expanded {
                push_copy(&mut r, p.as_str());
            }
        }
        i += 1;
    }
    assert(all.take(i as int) =~= all);
    r
}

fn list_cli_paths(paths: &Vec<String>, table: &Vec<(String, Expansion)>) -> (r: Vec<String>)
    ensures
        views(r@) == cli_paths(views(paths@), table@),
{
    let ghost all = cli_paths(views(paths@), table@);
    let mut r: Vec<String> = Vec::new();
    let mut i: usize = 0;
    assert(views(r@) =~= all.take(0));
    while i < paths.len()
        invariant
            i <= paths@.len(),
            all == cli_paths(views(paths@), table@),
            views(r@) == all.take(i as int),
        decreases paths@.len() - i,
    {
        let path = paths[i].as_str();
        let found = find_key(table, path);
        let p = match found {
            Some(n) => match &table[n].1.expanded {
                Some(p) => p.as_str(),
                None => table[n].1.literal.as_str(),
            },
            None => path,
        };
        assert(p@ == all[i as int]);
        push_copy(&mut r, p);
        assert(all.take(i + 1) =~= all.take(i as int).push(all[i as int]));
        i += 1;
    }
    assert(all.take(i as int) =~= all);
    r
}

pub open spec fn setting_view(s: Option<Setting>) -> Option<(Seq<char>, Seq<char>)> {
    match s {
        Some(x) => Some((x.label@, x.key@)),
        None => None,
    }
}

fn clone_setting(s: &Option<Setting>) -> (r: Option<Setting>)
    ensures
        setting_view(r) == setting_view(*s),
{
    match s {
        Some(x) => Some(
            Setting { label: copy_str(x.label.as_str()), key: copy_str(x.key.as_str()) },
        ),
        None => None,
    }
}

pub open spec fn list_view(v: Option<Vec<String>>) -> Option<Seq<Seq<char>>> {
    match v {
        Some(x) => Some(views(x@)),
        None => None,
    }
}

/// Two maps of credentials with equal entries.
pub open spec fn same_credentials(
    a: Seq<(String, CustomCredentialDef)>,
    b: Seq<(String, CustomCredentialDef)>,
) -> bool {
    a.len() == b.len() && forall|i: int|
        0 <= i < a.len() ==> (#[trigger] a[i]).0@ == b[i].0@ && a[i].1@ == b[i].1@
}

pub fn clone_credentials(v: &Vec<(String, CustomCredentialDef)>) -> (r: Vec<
    (String, CustomCredentialDef),
>)
    ensures
        same_credentials(r@, v@),
{
    let mut r: Vec<(String, CustomCredentialDef)> = Vec::new();
    let mut i: usize = 0;
    while i < v.len()
        invariant
            i <= v@.len(),
            r@.len() == i,
            forall|k: int| 0 <= k < i ==> (#[trigger] r@[k]).0@ == v@[k].0@ && r@[k].1@ == v@[k].1@,
        decreases v@.len() - i,
    {
        r.push((copy_str(v[i].0.as_str()), clone_credential(&v[i].1)));
        i += 1;
    }
    r
}

/// The paths of the profile, where there is one, and then those of the command line that are new.
pub open spec fn collected_paths(
    templates: Option<Seq<Seq<char>>>,
    cli: Seq<Seq<char>>,
    table: Seq<(String, Expansion)>,
) -> Seq<Seq<char>> {
    union_paths(
        match templates {
            Some(t) => profile_paths(t, table),
            None => Seq::empty(),
        },
        cli_paths(cli, table),
    )
}

/// The settings that follow from a profile; without one, nothing is granted and nothing
/// restricted, and only the paths of the command line remain.
pub open spec fn settings_of(loaded: Option<Profile>, cli: CliPaths, table: PathExpansions) -> PreparedView {
    let cli_bypass = views(cli.bypass_protection@);
    let cli_ignored = views(cli.suppress_save_prompt@);
    match loaded {
        None => PreparedView {
            capability_elevation: false,
            wsl2_proxy_policy: None,
            af_unix_mediation: None,
            workdir_access: None,
            rollback_exclude_patterns: Seq::empty(),
            rollback_exclude_globs: Seq::empty(),
            network_profile: None,
            allow_domain: Seq::empty(),
            credentials: Seq::empty(),
            custom_credentials: Seq::empty(),
            upstream_proxy: None,
            upstream_bypass: Seq::empty(),
            listen_ports: Seq::empty(),
            open_url_origins: Seq::empty(),
            open_url_allow_localhost: false,
            allow_launch_services: false,
            allow_gpu: false,
            allow_parent_of_protected: false,
            bypass_protection_paths: collected_paths(None, cli_bypass, table.bypass@),
            ignored_denial_paths: collected_paths(None, cli_ignored, table.ignored@),
            allowed_env_vars: None,
            denied_env_vars: None,
        },
        Some(p) => PreparedView {
            capability_elevation: p.security.capability_elevation == Some(true),
            wsl2_proxy_policy: setting_view(p.security.wsl2_proxy_policy),
            af_unix_mediation: setting_view(p.linux.af_unix_mediation),
            workdir_access: Some(p.workdir.access),
            rollback_exclude_patterns: views(p.rollback.exclude_patterns@),
            rollback_exclude_globs: views(p.rollback.exclude_globs@),
            network_profile: opt_view(p.network.network_profile),
            allow_domain: views(p.network.allow_domain@),
            credentials: p.network.credential_names(),
            custom_credentials: credential_views(p.network.custom_credentials@),
            upstream_proxy: opt_view(p.network.upstream_proxy),
            upstream_bypass: views(p.network.upstream_bypass@),
            listen_ports: p.network.listen_port@,
            open_url_origins: match p.open_urls {
                Some(u) => views(u.allow_origins@),
                None => Seq::empty(),
            },
            open_url_allow_localhost: match p.open_urls {
                Some(u) => u.allow_localhost,
                None => false,
            },
            allow_launch_services: p.allow_launch_services == Some(true),
            allow_gpu: p.allow_gpu == Some(true),
            allow_parent_of_protected: p.allow_parent_of_protected == Some(true),
            bypass_protection_paths: collected_paths(
                Some(views(p.filesystem.bypass_protection@)),
                cli_bypass,
                table.bypass@,
            ),
            ignored_denial_paths: collected_paths(
                Some(views(p.filesystem.suppress_save_prompt@)),
                cli_ignored,
                table.ignored@,
            ),
            allowed_env_vars: match p.environment {
                Some(e) => Some(views(e.allow_vars@)),
                None => None,
            },
            denied_env_vars: match p.environment {
                Some(e) => if e.deny_vars@.len() == 0 {
                    None
                } else {
                    Some(views(e.deny_vars@))
                },
                None => None,
            },
        },
    }
}

fn is_true(b: Option<bool>) -> (r: bool)
    ensures
        r == (b == Some(true)),
{
    match b {
        Some(v) => v,
        None => false,
    }
}

fn clone_ports(v: &Vec<u16>) -> (r: Vec<u16>)
    ensures
        r@ == v@,
{
    let mut r: Vec<u16> = Vec::new();
    let mut i: usize = 0;
    while i < v.len()
        invariant
            i <= v@.len(),
            r@ == v@.take(i as int),
        decreases v@.len() - i,
    {
        r.push(v[i]);
        i += 1;
        assert(v@.take(i as int) =~= v@.take(i - 1).push(v@[i - 1]));
    }
    assert(v@.take(i as int) =~= v@);
    r
}

/// Paths of the profile, followed by those of the command line that are new.
fn collect_paths(
    templates: Option<&Vec<String>>,
    cli: &Vec<String>,
    table: &Vec<(String, Expansion)>,
) -> (r: Vec<String>)
    ensures
        views(r@) == collected_paths(
            match templates {
                Some(t) => Some(views(t@)),
                None => None,
            },
            views(cli@),
            table@,
        ),
{
    let mut r = match templates {
        Some(t) => list_profile_paths(t, table),
        None => no_strings(),
    };
    push_new_paths(&mut r, &list_cli_paths(cli, table));
    r
}

fn empty_settings(cli: &CliPaths, table: &PathExpansions) -> (r: PreparedProfile)
    ensures
        r@ == settings_of(None, *cli, *table),
{
    let r = PreparedProfile {
        capability_elevation: false,
        wsl2_proxy_policy: None,
        af_unix_mediation: None,
        workdir_access: None,
        rollback_exclude_patterns: no_strings(),
        rollback_exclude_globs: no_strings(),
        network_profile: None,
        allow_domain: no_strings(),
        credentials: no_strings(),
        custom_credentials: Vec::new(),
        upstream_proxy: None,
        upstream_bypass: no_strings(),
        listen_ports: Vec::new(),
        open_url_origins: no_strings(),
        open_url_allow_localhost: false,
        allow_launch_services: false,
        allow_gpu: false,
        allow_parent_of_protected: false,
        bypass_protection_paths: collect_paths(None, &cli.bypass_protection, &table.bypass),
        ignored_denial_paths: collect_paths(None, &cli.suppress_save_prompt, &table.ignored),
        allowed_env_vars: None,
        denied_env_vars: None,
    };
    assert(credential_views(r.custom_credentials@) =~= Seq::empty());
    r
}

fn settings_from(p: &Profile, cli: &CliPaths, table: &PathExpansions) -> (r: PreparedProfile)
    ensures
        r@ == settings_of(Some(*p), *cli, *table),
{
    let (open_url_origins, open_url_allow_localhost) = match &p.open_urls {
        Some(u) => (clone_strings(&u.allow_origins), u.allow_localhost),
        None => (no_strings(), false),
    };
    let (allowed_env_vars, denied_env_vars) = match &p.environment {
        Some(e) => (
            Some(clone_strings(&e.allow_vars)),
            if e.deny_vars.len() == 0 {
                None
            } else {
                Some(clone_strings(&e.deny_vars))
            },
        ),
        None => (None, None),
    };
    let custom_credentials = clone_credentials(&p.network.custom_credentials);
    assert(credential_views(custom_credentials@) =~= credential_views(
        p.network.custom_credentials@,
    ));
    PreparedProfile {
        capability_elevation: is_true(p.security.capability_elevation),
        wsl2_proxy_policy: clone_setting(&p.security.wsl2_proxy_policy),
        af_unix_mediation: clone_setting(&p.linux.af_unix_mediation),
        workdir_access: Some(p.workdir.access),
        rollback_exclude_patterns: clone_strings(&p.rollback.exclude_patterns),
        rollback_exclude_globs: clone_strings(&p.rollback.exclude_globs),
        network_profile: clone_opt_string(&p.network.network_profile),
        allow_domain: clone_strings(&p.network.allow_domain),
        credentials: p.network.resolved_credentials(),
        custom_credentials,
        upstream_proxy: clone_opt_string(&p.network.upstream_proxy),
        upstream_bypass: clone_strings(&p.network.upstream_bypass),
        listen_ports: clone_ports(&p.network.listen_port),
        open_url_origins,
        open_url_allow_localhost,
        allow_launch_services: is_true(p.allow_launch_services),
        allow_gpu: is_true(p.allow_gpu),
        allow_parent_of_protected: is_true(p.allow_parent_of_protected),
        bypass_protection_paths: collect_paths(
            Some(&p.filesystem.bypass_protection),
            &cli.bypass_protection,
            &table.bypass,
        ),
        ignored_denial_paths: collect_paths(
            Some(&p.filesystem.suppress_save_prompt),
            &cli.suppress_save_prompt,
            &table.ignored,
        ),
        allowed_env_vars,
        denied_env_vars,
    }
}

// ---------------------------------------------------------------------------
// Preparing a run
// ---------------------------------------------------------------------------

/// The profile that a run asks for: its name, whether that refers to a pack, and what loading it
/// gave.
#[derive(Debug)]
pub struct RequestedProfile {
    pub name: String,
    pub registry_ref: bool,
    pub loaded: Result<Profile, NonoError>,
}

/// What is wrong with the patterns of environment variables that a profile allows and denies, if
/// anything.
#[derive(Debug)]
pub struct PatternComplaints {
    pub allow_vars: Option<String>,
    pub deny_vars: Option<String>,
}

/// What a run is held against: the official packs with what the registry says of each, the bases
/// of the profiles, the lockfile, what is on disk of each pack to verify, and what is wrong with the
/// patterns of the profile.
#[derive(Debug)]
pub struct RunFacts {
    pub targets: Vec<OfficialPackStatusTarget>,
    pub statuses: Vec<Option<PackageStatusResponse>>,
    pub bases: BaseTable,
    pub lockfile: Lockfile,
    pub disk: Vec<PackOnDisk>,
    pub patterns: PatternComplaints,
}

/// What is done beside reading the settings.
#[derive(Clone, Copy, Debug, PartialEq, Eq, Structural)]
pub struct PrepareProfileOptions {
    pub install_hooks: bool,
    pub hook_output_silent: bool,
}

impl RunFacts {
    /// There is an answer for each official pack, and a look at the disk for each pack to verify.
    pub open spec fn fits(self, requested: Option<RequestedProfile>) -> bool {
        &&& self.statuses@.len() == self.targets@.len()
        &&& match requested {
            Some(q) => match q.loaded {
                Ok(p) => self.disk@.len() == packs_to_check(
                    views(p.packs@),
                    q.name@,
                    q.registry_ref,
                ).len(),
                Err(_) => true,
            },
            None => true,
        }
    }
}

/// Why a run does not start: the profile cannot be loaded, a pack on which it depends was
/// withdrawn, or a pack of it is not installed and intact.
pub open spec fn run_failure(requested: Option<RequestedProfile>, f: RunFacts) -> Option<ErrorView> {
    match requested {
        None => None,
        Some(q) => match q.loaded {
            Err(e) => Some(e@),
            Ok(p) => match active_failure(
                f.targets@,
                q.name@,
                f.bases@,
                f.lockfile,
                f.statuses@,
                f.targets@.len(),
            ) {
                Some(e) => Some(e),
                None => {
                    let packs = packs_to_check(views(p.packs@), q.name@, q.registry_ref);
                    packs_failure(packs, f.lockfile, f.disk@, packs.len())
                },
            },
        },
    }
}

/// The settings of a run, or why it does not start.
pub open spec fn run_settings(
    requested: Option<RequestedProfile>,
    f: RunFacts,
    cli: CliPaths,
    table: PathExpansions,
) -> Result<PreparedView, ErrorView> {
    match run_failure(requested, f) {
        Some(e) => Err(e),
        None => Ok(
            settings_of(
                match requested {
                    Some(q) => Some(q.loaded->Ok_0),
                    None => None,
                },
                cli,
                table,
            ),
        ),
    }
}

pub open spec fn verified_lines(count: nat, silent: bool) -> Seq<Seq<char>> {
    if count > 0 && !silent {
        seq!["  Verified "@ + decimal(count) + " pack(s)"@]
    } else {
        Seq::empty()
    }
}

pub open spec fn warning(complaint: Option<String>) -> Seq<Seq<char>> {
    match complaint {
        Some(c) => seq!["Warning: "@ + c@],
        None => Seq::empty(),
    }
}

/// The warnings on the patterns of a profile. No denied variables are no patterns.
pub open spec fn pattern_warnings(p: Profile, c: PatternComplaints) -> Seq<Seq<char>> {
    match p.environment {
        Some(env) => warning(c.allow_vars) + if env.deny_vars@.len() == 0 {
            Seq::empty()
        } else {
            warning(c.deny_vars)
        },
        None => Seq::empty(),
    }
}

fn push_warning(lines: &mut Vec<String>, complaint: &Option<String>)
    ensures
        views(final(lines)@) == views(old(lines)@) + warning(*complaint),
{
    if let Some(c) = complaint {
        let line = concat2("Warning: ", c.as_str());
        push_copy(lines, line.as_str());
    }
    assert(views(lines@) =~= views(old(lines)@) + warning(*complaint));
}

/// Warns of the patterns of a profile that do not hold up; in a silent run too.
pub fn warn_of_patterns(p: &Profile, c: &PatternComplaints) -> (r: Vec<String>)
    ensures
        views(r@) == pattern_warnings(*p, *c),
{
    let mut lines = no_strings();
    if let Some(env) = &p.environment {
        push_warning(&mut lines, &c.allow_vars);
        if env.deny_vars.len() > 0 {
            push_warning(&mut lines, &c.deny_vars);
        }
    }
    assert(views(lines@) =~= pattern_warnings(*p, *c));
    lines
}

/// What is said while a run is prepared: on the packs, on hooks, and on patterns.
pub open spec fn run_lines(
    requested: Option<RequestedProfile>,
    f: RunFacts,
    options: PrepareProfileOptions,
) -> Seq<Seq<char>> {
    match requested {
        None => Seq::empty(),
        Some(q) => {
            let p = q.loaded->Ok_0;
            let silent = options.hook_output_silent;
            active_lines(
                f.targets@,
                q.name@,
                f.bases@,
                f.lockfile,
                f.statuses@,
                silent,
                f.targets@.len(),
            ) + verified_lines(
                packs_to_check(views(p.packs@), q.name@, q.registry_ref).len(),
                silent,
            ) + (if options.install_hooks {
                hook_notes(p, silent)
            } else {
                Seq::empty()
            }) + pattern_warnings(p, f.patterns)
        },
    }
}

/// Prepares a run: loads the profile, holds the packs on which it depends to what the registry
/// says, verifies its packs, and only then reads its settings. With what is said on the way.
pub fn prepare_profile_with_options(
    requested: &Option<RequestedProfile>,
    f: &RunFacts,
    cli: &CliPaths,
    table: &PathExpansions,
    options: PrepareProfileOptions,
) -> (r: Result<(PreparedProfile, Vec<String>), NonoError>)
    requires
        f.fits(*requested),
    ensures
        match r {
            Ok((p, lines)) => {
                &&& run_settings(*requested, *f, *cli, *table) == Ok::<PreparedView, ErrorView>(p@)
                &&& views(lines@) == run_lines(*requested, *f, options)
            },
            Err(e) => run_settings(*requested, *f, *cli, *table) == Err::<PreparedView, ErrorView>(
                e@,
            ),
        },
{
    let q = match requested {
        Some(q) => q,
        None => {
            return Ok((empty_settings(cli, table), no_strings()));
        },
    };
    let p = match &q.loaded {
        Ok(p) => p,
        Err(e) => {
            return Err(e.copy());
        },
    };
    let silent = options.hook_output_silent;
    let mut lines = match enforce_for_active_profile(
        &f.targets,
        q.name.as_str(),
        &f.bases,
        &f.lockfile,
        &f.statuses,
        silent,
    ) {
        Ok(lines) => lines,
        Err(e) => {
            return Err(e);
        },
    };
    let ghost first = views(lines@);
    let packs = packs_to_verify(&p.packs, q.name.as_str(), q.registry_ref);
    assert(views(packs@).len() == packs@.len());
    if let Err(e) = verify_profile_packs(&packs, &f.lockfile, &f.disk) {
        return Err(e);
    }
    let ghost second = verified_lines(packs@.len(), silent);
    if let Some(line) = verified_line(packs.len(), silent) {
        push_copy(&mut lines, line.as_str());
    }
    assert(views(lines@) =~= first + second);
    if options.install_hooks {
        let notes = install_profile_hooks(p, silent);
        extend_strings(&mut lines, &notes);
        assert(views(lines@) =~= first + second + views(notes@));
    }
    let ghost third = views(lines@);
    let warnings = warn_of_patterns(p, &f.patterns);
    extend_strings(&mut lines, &warnings);
    assert(views(lines@) =~= third + views(warnings@));
    assert(views(lines@) =~= run_lines(*requested, *f, options));
    Ok((settings_from(p, cli, table), lines))
}

/// Prepares a run that is about to start.
pub fn prepare_profile(
    requested: &Option<RequestedProfile>,
    f: &RunFacts,
    cli: &CliPaths,
    table: &PathExpansions,
    silent: bool,
) -> (r: Result<(PreparedProfile, Vec<String>), NonoError>)
    requires
        f.fits(*requested),
    ensures
        match r {
            Ok((p, lines)) => {
                &&& run_settings(*requested, *f, *cli, *table) == Ok::<PreparedView, ErrorView>(p@)
                &&& views(lines@) == run_lines(
                    *requested,
                    *f,
                    PrepareProfileOptions { install_hooks: true, hook_output_silent: silent },
                )
            },
            Err(e) => run_settings(*requested, *f, *cli, *table) == Err::<PreparedView, ErrorView>(
                e@,
            ),
        },
{
    let options = PrepareProfileOptions { install_hooks: true, hook_output_silent: silent };
    prepare_profile_with_options(requested, f, cli, table, options)
}

/// Prepares a run only to see what its settings would be: no hook is looked at, and nothing is said
/// that can be left out.
pub fn prepare_profile_for_preflight(
    requested: &Option<RequestedProfile>,
    f: &RunFacts,
    cli: &CliPaths,
    table: &PathExpansions,
) -> (r: Result<(PreparedProfile, Vec<String>), NonoError>)
    requires
        f.fits(*requested),
    ensures
        match r {
            Ok((p, lines)) => {
                &&& run_settings(*requested, *f, *cli, *table) == Ok::<PreparedView, ErrorView>(p@)
                &&& views(lines@) == run_lines(
                    *requested,
                    *f,
                    PrepareProfileOptions { install_hooks: false, hook_output_silent: true },
                )
            },
            Err(e) => run_settings(*requested, *f, *cli, *table) == Err::<PreparedView, ErrorView>(
                e@,
            ),
        },
{
    let options = PrepareProfileOptions { install_hooks: false, hook_output_silent: true };
    prepare_profile_with_options(requested, f, cli, table, options)
}

/// Settings are given only where the profile was loaded, no pack on which it depends stops the
/// run, and all its packs are installed and intact.
pub proof fn law_settings_come_after_the_checks(
    q: RequestedProfile,
    f: RunFacts,
    cli: CliPaths,
    table: PathExpansions,
)
    requires
        run_settings(Some(q), f, cli, table) is Ok,
    ensures
        q.loaded is Ok,
        active_failure(f.targets@, q.name@, f.bases@, f.lockfile, f.statuses@, f.targets@.len()) is None,
        ({
            let packs = packs_to_check(views((q.loaded->Ok_0).packs@), q.name@, q.registry_ref);
            packs_failure(packs, f.lockfile, f.disk@, packs.len()) is None
        }),
{
}

/// Without a profile only the paths of the command line are left.
pub proof fn law_no_profile_adds_no_paths(cli: CliPaths, table: PathExpansions, p: Seq<char>)
    ensures
        ({
            let s = settings_of(None, cli, table);
            &&& lists_path(s.bypass_protection_paths, p) <==> lists_path(
                cli_paths(views(cli.bypass_protection@), table.bypass@),
                p,
            )
            &&& lists_path(s.ignored_denial_paths, p) <==> lists_path(
                cli_paths(views(cli.suppress_save_prompt@), table.ignored@),
                p,
            )
        }),
{
    let none = Seq::<Seq<char>>::empty();
    law_union_spells_both(none, cli_paths(views(cli.bypass_protection@), table.bypass@), p);
    law_union_spells_both(none, cli_paths(views(cli.suppress_save_prompt@), table.ignored@), p);
}

} // verus!
