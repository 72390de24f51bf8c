//! When a run starts, and with which settings.

use crate::assoc::lookup;
use crate::digest::sha256_digest;
use crate::package::{LockedArtifact, LockedPackage, Lockfile};
use crate::package_cmd::installed_laws::law_keys_are_parted;
use crate::package_cmd::pull::{canonical, signer_uri};
use crate::paths::{law_union_spells_both, lists_path, same_path};
use crate::profile::Profile;
use crate::profile_runtime::{
    artifact_failure, artifacts_failure, cli_paths, entries_failure, entry_failure, hook_notes,
    pack_failure, packs_failure, packs_to_check, profile_paths, settings_of, BundleEntry,
    BundleFile, CliPaths, Expansion, FileOnDisk, PackOnDisk, PathExpansions,
};
use crate::text::{first_index, hex_text, lemma_first_index, lemma_in_either, opt_view, views};
use vstd::prelude::*;

verus! {

// ---------------------------------------------------------------------------
// Packs
// ---------------------------------------------------------------------------

/// A file that the lockfile names is there and has the digest that the lockfile names.
pub open spec fn is_as_installed(a: (String, LockedArtifact), files: Seq<(String, FileOnDisk)>) -> bool {
    match lookup(files, a.0@) {
        Some(FileOnDisk::Present(bytes)) => hex_text(sha256_digest(bytes@)) == a.1.sha256@,
        _ => false,
    }
}

/// An entry of a trust bundle speaks for its file: the file is gone, or what was signed is this file,
/// and the same identity signed it as signed the installed pack.
pub open spec fn speaks_for_file(e: BundleEntry, pinned: Seq<char>) -> bool {
    &&& e.artifact is Some
    &&& e.has_bundle
    &&& e.present ==> {
        &&& e.readable is Ok
        &&& e.loaded is Ok
        &&& e.verified is Ok
        &&& e.signer is Ok
        &&& canonical(signer_uri(e.signer->Ok_0)) == canonical(pinned)
    }
}

/// A trust bundle holds: it can be read, and each of its entries speaks for its file.
pub open spec fn bundle_holds(b: BundleFile, pinned: Seq<char>) -> bool {
    match b {
        BundleFile::Entries(v) => forall|i: int|
            0 <= i < v@.len() ==> speaks_for_file(#[trigger] v@[i], pinned),
        _ => false,
    }
}

/// A pack can be used: its reference has a slash, it is installed, the files that the lockfile names
/// are as they were installed, and where it has a trust bundle, the lockfile knows the signer and the
/// bundle holds.
pub open spec fn is_usable(pack: Seq<char>, locked: Option<LockedPackage>, disk: PackOnDisk) -> bool {
    &&& pack.contains('/')
    &&& disk.installed is Ok && disk.installed->Ok_0
    &&& locked is Some ==> forall|i: int|
        0 <= i < (locked->0).artifacts@.len() ==> is_as_installed(
            #[trigger] (locked->0).artifacts@[i],
            disk.files@,
        )
    &&& disk.bundle is Some ==> {
        &&& locked is Some
        &&& (locked->0).provenance is Some
        &&& bundle_holds(disk.bundle->0, ((locked->0).provenance->0).signer_identity@)
    }
}

proof fn lemma_files(pack: Seq<char>, locked: Seq<(String, LockedArtifact)>, files: Seq<(String, FileOnDisk)>)
    ensures
        artifacts_failure(pack, locked, files) is None <==> forall|i: int|
            0 <= i < locked.len() ==> is_as_installed(#[trigger] locked[i], files),
    decreases locked.len(),
{
    if locked.len() > 0 {
        let rest = locked.skip(1);
        lemma_files(pack, rest, files);
        assert(artifact_failure(pack, locked[0].0@, locked[0].1.sha256@, lookup(files, locked[0].0@))
            is None <==> is_as_installed(locked[0], files));
        if artifacts_failure(pack, locked, files) is None {
            assert forall|i: int| 0 <= i < locked.len() implies is_as_installed(
                #[trigger] locked[i],
                files,
            ) by {
                if i > 0 {
                    assert(rest[i - 1] == locked[i]);
                }
            }
        }
        if forall|i: int| 0 <= i < locked.len() ==> is_as_installed(#[trigger] locked[i], files) {
            assert(is_as_installed(locked[0], files));
            assert forall|i: int| 0 <= i < rest.len() implies is_as_installed(
                #[trigger] rest[i],
                files,
            ) by {
                assert(rest[i] == locked[i + 1]);
            }
        }
    }
}

proof fn lemma_entries(pack: Seq<char>, v: Seq<BundleEntry>, pinned: Seq<char>)
    ensures
        entries_failure(pack, v, pinned) is None <==> forall|i: int|
            0 <= i < v.len() ==> speaks_for_file(#[trigger] v[i], pinned),
    decreases v.len(),
{
    if v.len() > 0 {
        let rest = v.skip(1);
        lemma_entries(pack, rest, pinned);
        assert(entry_failure(pack, v[0], pinned) is None <==> speaks_for_file(v[0], pinned));
        if entries_failure(pack, v, pinned) is None {
            assert forall|i: int| 0 <= i < v.len() implies speaks_for_file(
                #[trigger] v[i],
                pinned,
            ) by {
                if i > 0 {
                    assert(rest[i - 1] == v[i]);
                }
            }
        }
        if forall|i: int| 0 <= i < v.len() ==> speaks_for_file(#[trigger] v[i], pinned) {
            assert(speaks_for_file(v[0], pinned));
            assert forall|i: int| 0 <= i < rest.len() implies speaks_for_file(
                #[trigger] rest[i],
                pinned,
            ) by {
                assert(rest[i] == v[i + 1]);
            }
        }
    }
}

/// A pack passes the check exactly where it can be used.
pub proof fn law_usable_packs_pass(pack: Seq<char>, locked: Option<LockedPackage>, disk: PackOnDisk)
    ensures
        pack_failure(pack, locked, disk) is None <==> is_usable(pack, locked, disk),
{
    law_keys_are_parted(pack);
    if locked is Some {
        lemma_files(pack, (locked->0).artifacts@, disk.files@);
        if (locked->0).provenance is Some && disk.bundle is Some {
            if let BundleFile::Entries(v) = disk.bundle->0 {
                lemma_entries(pack, v@, ((locked->0).provenance->0).signer_identity@);
            }
        }
    }
}

/// The packs of a profile pass the check exactly where each of them can be used.
pub proof fn law_all_packs_are_checked(
    packs: Seq<Seq<char>>,
    lockfile: Lockfile,
    disk: Seq<PackOnDisk>,
    n: nat,
)
    requires
        n <= packs.len(),
    ensures
        packs_failure(packs, lockfile, disk, n) is None <==> forall|i: int|
            0 <= i < n ==> is_usable(
                #[trigger] packs[i],
                lookup(lockfile.packages@, packs[i]),
                disk[i],
            ),
    decreases n,
{
    if n > 0 {
        law_all_packs_are_checked(packs, lockfile, disk, (n - 1) as nat);
        let k = n - 1;
        law_usable_packs_pass(packs[k], lookup(lockfile.packages@, packs[k]), disk[k]);
    }
}

/// The packs that are checked are those of the profile, and the one by which it was named, without
/// the version.
pub proof fn law_packs_to_check(packs: Seq<Seq<char>>, name: Seq<char>, registry_ref: bool, x: Seq<char>)
    ensures
        packs_to_check(packs, name, registry_ref).contains(x) <==> packs.contains(x) || (
        registry_ref && !x.contains('@') && (name == x || exists|version: Seq<char>|
            name == #[trigger] (x + seq!['@'] + version))),
{
    lemma_first_index(name, '@');
    let n = first_index(name, '@');
    let key = name.take(n);
    assert forall|k: int| 0 <= k < key.len() implies key[k] != '@' by {
        assert(key[k] == name[k]);
    }
    lemma_in_either(packs, seq![key], x);
    assert(packs + seq![key] =~= packs.push(key));
    assert(seq![key].contains(x) <==> x == key) by {
        assert(seq![key][0] == key);
    }
    if x == key {
        assert(!x.contains('@'));
        if n < name.len() {
            assert(name =~= x + seq!['@'] + name.skip(n + 1));
        } else {
            assert(key =~= name);
        }
    }
    if !x.contains('@') && name == x {
        if n < name.len() {
            assert(name[n] == '@');
            assert(x.contains(name[n]));
        }
        assert(key =~= name);
    }
    if !x.contains('@') && exists|version: Seq<char>| name == #[trigger] (x + seq!['@'] + version) {
        let version = choose|version: Seq<char>| name == #[trigger] (x + seq!['@'] + version);
        assert(name[x.len() as int] == '@');
        assert forall|k: int| 0 <= k < x.len() implies name[k] != '@' by {
            assert(x.contains(x[k]));
        }
        crate::text::lemma_first_index_is(name, '@', x.len() as int);
        assert(key =~= x);
    }
}

/// Unless nothing is to be said, there is one note for each program for which the profile declares
/// hooks, and it names it.
pub proof fn law_hook_notes(p: Profile, silent: bool)
    ensures
        silent ==> hook_notes(p, silent).len() == 0,
        !silent ==> hook_notes(p, silent).len() == p.hooks.hooks@.len(),
        !silent ==> forall|i: int|
            0 <= i < p.hooks.hooks@.len() ==> #[trigger] hook_notes(p, silent)[i]
                == "  Note: profile declares hooks."@ + p.hooks.hooks@[i].0@
                + " but in-profile hook installation has been removed; move the wiring into the pack's package.json `wiring` directives."@,
{
}

// ---------------------------------------------------------------------------
// Settings
// ---------------------------------------------------------------------------

/// A path of a profile stands for another, where its variables are known.
pub open spec fn profile_lists(v: Seq<String>, table: Seq<(String, Expansion)>, path: Seq<char>) -> bool {
    exists|i: int|
        0 <= i < v.len() && (match lookup(table, (#[trigger] v[i])@) {
            Some(e) => e.expanded is Some && same_path((e.expanded->0)@, path),
            None => false,
        })
}

/// A path of the command line stands for another; one whose variables are not known, for itself.
pub open spec fn cli_lists(v: Seq<String>, table: Seq<(String, Expansion)>, path: Seq<char>) -> bool {
    exists|i: int|
        0 <= i < v.len() && same_path(
            match lookup(table, (#[trigger] v[i])@) {
                Some(e) => match e.expanded {
                    Some(p) => p@,
                    None => e.literal@,
                },
                None => v[i]@,
            },
            path,
        )
}

proof fn lemma_profile_lists(v: Seq<String>, table: Seq<(String, Expansion)>, path: Seq<char>)
    ensures
        lists_path(profile_paths(views(v), table), path) == profile_lists(v, table, path),
    decreases v.len(),
{
    if v.len() > 0 {
        let front = v.drop_last();
        assert(views(v).drop_last() =~= views(front));
        assert(views(v).last() == v.last()@);
        assert(v[v.len() - 1] == v.last());
        lemma_profile_lists(front, table, path);
        let a = profile_paths(views(front), table);
        let b = profile_paths(views(v), table);
        if lists_path(a, path) {
            let i = choose|i: int| 0 <= i < a.len() && same_path(#[trigger] a[i], path);
            assert(b[i] == a[i]);
        }
        if b.len() > a.len() {
            assert(b[a.len() as int] == b.last());
        }
        if lists_path(b, path) {
            let i = choose|i: int| 0 <= i < b.len() && same_path(#[trigger] b[i], path);
            if i < a.len() {
                assert(a[i] == b[i]);
            }
        }
        if profile_lists(front, table, path) {
            let i = choose|i: int|
                0 <= i < front.len() && (match lookup(table, (#[trigger] front[i])@) {
                    Some(e) => e.expanded is Some && same_path((e.expanded->0)@, path),
                    None => false,
                });
            assert(v[i] == front[i]);
        }
        if profile_lists(v, table, path) {
            let i = choose|i: int|
                0 <= i < v.len() && (match lookup(table, (#[trigger] v[i])@) {
                    Some(e) => e.expanded is Some && same_path((e.expanded->0)@, path),
                    None => false,
                });
            if i < front.len() {
                assert(front[i] == v[i]);
            }
        }
    } else {
        assert(views(v).len() == 0);
    }
}

proof fn lemma_cli_lists(v: Seq<String>, table: Seq<(String, Expansion)>, path: Seq<char>)
    ensures
        lists_path(cli_paths(views(v), table), path) == cli_lists(v, table, path),
{
    let a = cli_paths(views(v), table);
    assert(a.len() == v.len());
    assert forall|i: int| 0 <= i < v.len() implies #[trigger] a[i] == (match lookup(table, v[i]@) {
        Some(e) => match e.expanded {
            Some(p) => p@,
            None => e.literal@,
        },
        None => v[i]@,
    }) by {
        assert(views(v)[i] == v[i]@);
    }
    if lists_path(a, path) {
        let i = choose|i: int| 0 <= i < a.len() && same_path(#[trigger] a[i], path);
        assert(v[i]@ == views(v)[i]);
    }
    if cli_lists(v, table, path) {
        let i = choose|i: int|
            0 <= i < v.len() && same_path(
                match lookup(table, (#[trigger] v[i])@) {
                    Some(e) => match e.expanded {
                        Some(p) => p@,
                        None => e.literal@,
                    },
                    None => v[i]@,
                },
                path,
            );
        assert(same_path(a[i], path));
    }
}

/// The paths whose protection is lifted, and those whose denials are not reported, are those of the
/// profile and of the command line together.
pub proof fn law_paths_of_settings(p: Profile, cli: CliPaths, table: PathExpansions, path: Seq<char>)
    ensures
        ({
            let s = settings_of(Some(p), cli, table);
            &&& lists_path(s.bypass_protection_paths, path) <==> profile_lists(
                p.filesystem.bypass_protection@,
                table.bypass@,
                path,
            ) || cli_lists(cli.bypass_protection@, table.bypass@, path)
            &&& lists_path(s.ignored_denial_paths, path) <==> profile_lists(
                p.filesystem.suppress_save_prompt@,
                table.ignored@,
                path,
            ) || cli_lists(cli.suppress_save_prompt@, table.ignored@, path)
        }),
{
    lemma_profile_lists(p.filesystem.bypass_protection@, table.bypass@, path);
    lemma_profile_lists(p.filesystem.suppress_save_prompt@, table.ignored@, path);
    lemma_cli_lists(cli.bypass_protection@, table.bypass@, path);
    lemma_cli_lists(cli.suppress_save_prompt@, table.ignored@, path);
    law_union_spells_both(
        profile_paths(views(p.filesystem.bypass_protection@), table.bypass@),
        cli_paths(views(cli.bypass_protection@), table.bypass@),
        path,
    );
    law_union_spells_both(
        profile_paths(views(p.filesystem.suppress_save_prompt@), table.ignored@),
        cli_paths(views(cli.suppress_save_prompt@), table.ignored@),
        path,
    );
}

/// The settings of a run are those of its profile; what the profile does not switch on is off.
pub proof fn law_settings_of_profiles(p: Profile, cli: CliPaths, table: PathExpansions)
    ensures
        ({
            let s = settings_of(Some(p), cli, table);
            &&& s.capability_elevation <==> p.security.capability_elevation == Some(true)
            &&& s.allow_gpu <==> p.allow_gpu == Some(true)
            &&& s.allow_launch_services <==> p.allow_launch_services == Some(true)
            &&& s.allow_parent_of_protected <==> p.allow_parent_of_protected == Some(true)
            &&& s.workdir_access == Some(p.workdir.access)
            &&& s.rollback_exclude_patterns == views(p.rollback.exclude_patterns@)
            &&& s.rollback_exclude_globs == views(p.rollback.exclude_globs@)
            &&& s.network_profile == opt_view(p.network.network_profile)
            &&& s.allow_domain == views(p.network.allow_domain@)
            &&& p.network.credentials is Some ==> s.credentials == views(
                (p.network.credentials->0)@,
            )
            &&& p.network.credentials is None ==> s.credentials.len() == 0
            &&& s.custom_credentials.len() == p.network.custom_credentials@.len()
            &&& s.upstream_proxy == opt_view(p.network.upstream_proxy)
            &&& s.upstream_bypass == views(p.network.upstream_bypass@)
            &&& s.listen_ports == p.network.listen_port@
            &&& p.open_urls is None ==> s.open_url_origins.len() == 0 && !s.open_url_allow_localhost
            &&& p.open_urls is Some ==> s.open_url_origins == views(
                (p.open_urls->0).allow_origins@,
            ) && s.open_url_allow_localhost == (p.open_urls->0).allow_localhost
            &&& p.environment is None ==> s.allowed_env_vars is None && s.denied_env_vars is None
            &&& p.environment is Some ==> s.allowed_env_vars == Some(
                views((p.environment->0).allow_vars@),
            )
            &&& p.environment is Some && (p.environment->0).deny_vars@.len() == 0
                ==> s.denied_env_vars is None
            &&& p.environment is Some && (p.environment->0).deny_vars@.len() > 0
                ==> s.denied_env_vars == Some(views((p.environment->0).deny_vars@))
        }),
{
}

/// Without a profile nothing is switched on, allowed or restricted.
pub proof fn law_settings_without_profile(cli: CliPaths, table: PathExpansions)
    ensures
        ({
            let s = settings_of(None, cli, table);
            &&& !s.capability_elevation && !s.allow_gpu && !s.allow_launch_services
            &&& !s.allow_parent_of_protected && !s.open_url_allow_localhost
            &&& s.workdir_access is None && s.network_profile is None && s.upstream_proxy is None
            &&& s.allow_domain.len() == 0 && s.credentials.len() == 0 && s.custom_credentials.len()
                == 0
            &&& s.listen_ports.len() == 0 && s.open_url_origins.len() == 0
            &&& s.allowed_env_vars is None && s.denied_env_vars is None
        }),
{
}

/// It is said how many packs were verified, where there are any and the run is not silent; and
/// complaints about the patterns of variables are told where the profile has such patterns.
pub proof fn law_said_before_runs(
    p: Profile,
    c: crate::profile_runtime::PatternComplaints,
    count: nat,
    silent: bool,
)
    ensures
        crate::profile_runtime::verified_lines(count, silent).len() > 0 <==> count > 0 && !silent,
        count > 0 && !silent ==> crate::profile_runtime::verified_lines(count, silent)[0]
            == "  Verified "@ + crate::text::decimal(count) + " pack(s)"@,
        p.environment is None ==> crate::profile_runtime::pattern_warnings(p, c).len() == 0,
        p.environment is Some && c.allow_vars is Some ==> crate::profile_runtime::pattern_warnings(
            p,
            c,
        )[0] == "Warning: "@ + (c.allow_vars->0)@,
        p.environment is Some && (p.environment->0).deny_vars@.len() > 0 && c.deny_vars is Some
            ==> crate::profile_runtime::pattern_warnings(p, c).last() == "Warning: "@ + (
        c.deny_vars->0)@,
        p.environment is Some && (p.environment->0).deny_vars@.len() == 0 && c.allow_vars is None
            ==> crate::profile_runtime::pattern_warnings(p, c).len() == 0,
{
}

} // verus!
