//! What a manifest grants, denies and says, in terms of the profile that it was made from.

use crate::assoc::lookup;
use crate::error::ErrorView;
use crate::paths::path_within;
use crate::profile::{
    rule_views, CustomCredentialDef, Profile, ProfileIpcMode, ProfileProcessInfoMode,
    ProfileSignalMode, WorkdirAccess,
};
use crate::profile_cmd::manifest::{
    collected, credential_entry, credential_views, expanded_grant, expansion, grant, grant_views,
    group_deny, group_grants, is_bypassed, law_bypassed_is_not_denied, law_merging_keeps_access,
    law_sorting_keeps_grants, listed_deny, listed_grants, manifest_credentials, manifest_is,
    merge_grants, nonzero_ports, profile_grants, sort_grants, workdir_grants, AccessMode,
    CapabilityManifest, ExecStrategy, Expanded, FsEntryType, GrantView, Grants, GroupCapability,
    ManifestCredential, ManifestCredentialView, NetworkMode, Refusals, Surroundings,
};
use crate::profile_runtime::{profile_paths, Expansion};
use crate::text::{
    lemma_in_either, lemma_in_filtered, lemma_in_sorted, lemma_in_views, opt_view, views,
};
use vstd::prelude::*;

verus! {

// ---------------------------------------------------------------------------
// The network
// ---------------------------------------------------------------------------

/// A profile that blocks the network has a manifest that blocks it. The manifest leaves it open
/// exactly where the profile does not block it and asks for nothing that the proxy would have to
/// do; otherwise the proxy stands between. All domains of the profile are let through.
pub proof fn law_network_mode(m: CapabilityManifest, p: Profile, s: Surroundings)
    requires
        manifest_is(m, p, s),
    ensures
        p.network.block ==> m.network.mode == NetworkMode::Blocked,
        m.network.mode == NetworkMode::Unrestricted <==> {
            &&& !p.network.block
            &&& p.network.network_profile is None
            &&& p.network.allow_domain@.len() == 0
            &&& p.network.credentials is None || (p.network.credentials->0)@.len() == 0
            &&& p.network.custom_credentials@.len() == 0
        },
        m.network.mode == NetworkMode::Blocked ==> p.network.block,
        m.network.dns,
        m.network.allow_domains@.len() == p.network.allow_domain@.len(),
        forall|i: int|
            0 <= i < m.network.allow_domains@.len() ==> (#[trigger] m.network.allow_domains@[i])@
                == p.network.allow_domain@[i]@,
{
    let n = p.network;
    assert(views(m.network.allow_domains@).len() == views(n.allow_domain@).len());
    assert forall|i: int| 0 <= i < m.network.allow_domains@.len() implies (
    #[trigger] m.network.allow_domains@[i])@ == n.allow_domain@[i]@ by {
        assert(views(m.network.allow_domains@)[i] == views(n.allow_domain@)[i]);
    }
}

/// The ports on which a command may listen, and those of the machine itself that it may reach, are
/// those of the profile, without zero. It may reach no other port by number.
pub proof fn law_ports(m: CapabilityManifest, p: Profile, s: Surroundings, port: u16)
    requires
        manifest_is(m, p, s),
    ensures
        m.network.ports is None <==> p.network.listen_port@.len() == 0
            && p.network.open_port@.len() == 0,
        m.network.ports is Some ==> {
            let ports = m.network.ports->0;
            &&& ports.connect@.len() == 0
            &&& ports.bind@.contains(port as u64) <==> port != 0 && p.network.listen_port@.contains(
                port,
            )
            &&& ports.localhost@.contains(port as u64) <==> port != 0
                && p.network.open_port@.contains(port)
        },
{
    lemma_ports(p.network.listen_port@, port);
    lemma_ports(p.network.open_port@, port);
}

proof fn lemma_ports(ports: Seq<u16>, port: u16)
    ensures
        nonzero_ports(ports).contains(port as u64) <==> port != 0 && ports.contains(port),
{
    let keep = |p: u16| p != 0;
    let kept = ports.filter(keep);
    let all = nonzero_ports(ports);
    lemma_in_filtered(ports, keep, port);
    assert(all == kept.map_values(|p: u16| p as u64));
    if all.contains(port as u64) {
        let i = choose|i: int| 0 <= i < all.len() && all[i] == port as u64;
        assert(kept[i] == port);
        assert(kept.contains(port));
    }
    if kept.contains(port) {
        let i = choose|i: int| 0 <= i < kept.len() && kept[i] == port;
        assert(all[i] == port as u64);
    }
}

// ---------------------------------------------------------------------------
// Processes
// ---------------------------------------------------------------------------

/// The commands that the profile allows are allowed; blocked are those that it denies and those that
/// its groups block. A command is supervised exactly where something is left out of snapshots.
/// Where the profile does not say otherwise, signals and process information are isolated and only
/// shared memory is let through.
pub proof fn law_processes(m: CapabilityManifest, p: Profile, s: Surroundings, command: Seq<char>)
    requires
        manifest_is(m, p, s),
    ensures
        views(m.process.allowed_commands@) == views(p.commands.allow@),
        views(m.process.blocked_commands@).contains(command) <==> views(
            p.commands.deny@,
        ).contains(command) || (s.groups.access is Ok && views(
            (s.groups.access->Ok_0).blocked_commands@,
        ).contains(command)),
        m.process.exec_strategy == ExecStrategy::Supervised <==> p.rollback.exclude_patterns@.len()
            + p.rollback.exclude_globs@.len() > 0,
        p.security.signal_mode is None ==> m.process.signal_mode == ProfileSignalMode::Isolated,
        p.security.signal_mode is Some ==> m.process.signal_mode == p.security.signal_mode->0,
        p.security.process_info_mode is None ==> m.process.process_info_mode
            == ProfileProcessInfoMode::Isolated,
        p.security.process_info_mode is Some ==> m.process.process_info_mode
            == p.security.process_info_mode->0,
        p.security.ipc_mode is None ==> m.process.ipc_mode == ProfileIpcMode::SharedMemoryOnly,
        p.security.ipc_mode is Some ==> m.process.ipc_mode == p.security.ipc_mode->0,
{
    let blocked = views((s.groups.access->Ok_0).blocked_commands@);
    lemma_in_sorted(blocked + views(p.commands.deny@), command);
    lemma_in_either(blocked, views(p.commands.deny@), command);
}

/// What the profile leaves out of snapshots, the manifest does; a manifest never starts snapshots by
/// itself, and has no such part where there is nothing to leave out.
pub proof fn law_snapshots(m: CapabilityManifest, p: Profile, s: Surroundings)
    requires
        manifest_is(m, p, s),
    ensures
        m.rollback is Some <==> p.rollback.exclude_patterns@.len() > 0
            || p.rollback.exclude_globs@.len() > 0,
        m.rollback is Some ==> {
            let r = m.rollback->0;
            &&& !r.enabled
            &&& views(r.exclude_patterns@) == views(p.rollback.exclude_patterns@)
            &&& views(r.exclude_globs@) == views(p.rollback.exclude_globs@)
        },
{
}

// ---------------------------------------------------------------------------
// Credentials
// ---------------------------------------------------------------------------

pub open spec fn same_text(a: Option<String>, b: Option<String>) -> bool {
    match (a, b) {
        (Some(x), Some(y)) => x@ == y@,
        (None, None) => true,
        _ => false,
    }
}

/// A credential of a manifest says what one of the profile says.
pub open spec fn stands_for_credential(
    m: ManifestCredential,
    name: Seq<char>,
    c: CustomCredentialDef,
    format: Seq<char>,
) -> bool {
    &&& c.credential_key is Some
    &&& m.name@ == name
    &&& m.upstream@ == c.upstream@
    &&& m.source@ == (c.credential_key->0)@
    &&& m.inject.mode == c.inject_mode
    &&& m.inject.header@ == c.inject_header@
    &&& m.inject.format@ == format
    &&& same_text(m.inject.path_pattern, c.path_pattern)
    &&& same_text(m.inject.path_replacement, c.path_replacement)
    &&& same_text(m.inject.query_param_name, c.query_param_name)
    &&& same_text(m.env_var, c.env_var)
    &&& rule_views(m.endpoint_rules@) == rule_views(c.endpoint_rules@)
}

spec fn stands_view(
    v: ManifestCredentialView,
    name: Seq<char>,
    c: CustomCredentialDef,
    format: Seq<char>,
) -> bool {
    &&& c.credential_key is Some
    &&& v.name == name
    &&& v.upstream == c.upstream@
    &&& v.source == (c.credential_key->0)@
    &&& v.mode == c.inject_mode
    &&& v.header == c.inject_header@
    &&& v.format == format
    &&& v.path_pattern == opt_view(c.path_pattern)
    &&& v.path_replacement == opt_view(c.path_replacement)
    &&& v.query_param_name == opt_view(c.query_param_name)
    &&& v.env_var == opt_view(c.env_var)
    &&& v.endpoint_rules == rule_views(c.endpoint_rules@)
}

spec fn comes_from(
    v: ManifestCredentialView,
    creds: Seq<(String, CustomCredentialDef)>,
    formats: Seq<String>,
    n: int,
) -> bool {
    exists|k: int|
        0 <= k < n && stands_view(v, (#[trigger] creds[k]).0@, creds[k].1, formats[k]@)
}

spec fn appears(
    all: Seq<ManifestCredentialView>,
    name: Seq<char>,
    c: CustomCredentialDef,
    format: Seq<char>,
) -> bool {
    exists|j: int| 0 <= j < all.len() && stands_view(#[trigger] all[j], name, c, format)
}

proof fn lemma_appears_push(
    all: Seq<ManifestCredentialView>,
    x: ManifestCredentialView,
    name: Seq<char>,
    c: CustomCredentialDef,
    format: Seq<char>,
)
    requires
        appears(all, name, c, format) || stands_view(x, name, c, format),
    ensures
        appears(all.push(x), name, c, format),
{
    let b = all.push(x);
    if appears(all, name, c, format) {
        let j = choose|j: int| 0 <= j < all.len() && stands_view(#[trigger] all[j], name, c, format);
        assert(stands_view(b[j], name, c, format));
    } else {
        assert(stands_view(b[all.len() as int], name, c, format));
    }
}

proof fn lemma_comes_from_more(
    v: ManifestCredentialView,
    creds: Seq<(String, CustomCredentialDef)>,
    formats: Seq<String>,
    n: int,
)
    requires
        comes_from(v, creds, formats, n - 1),
    ensures
        comes_from(v, creds, formats, n),
{
    let k = choose|k: int|
        0 <= k < n - 1 && stands_view(v, (#[trigger] creds[k]).0@, creds[k].1, formats[k]@);
    assert(stands_view(v, creds[k].0@, creds[k].1, formats[k]@));
}

proof fn lemma_credentials(
    creds: Seq<(String, CustomCredentialDef)>,
    formats: Seq<String>,
    refused: Refusals,
    n: int,
)
    requires
        0 <= n <= creds.len(),
        manifest_credentials(creds, formats, refused, n) is Ok,
    ensures
        ({
            let all = manifest_credentials(creds, formats, refused, n)->Ok_0;
            &&& forall|j: int| 0 <= j < all.len() ==> comes_from(#[trigger] all[j], creds, formats, n)
            &&& forall|k: int|
                0 <= k < n && (#[trigger] creds[k]).1.credential_key is Some ==> appears(
                    all,
                    creds[k].0@,
                    creds[k].1,
                    formats[k]@,
                )
        }),
    decreases n,
{
    if n > 0 {
        let all = manifest_credentials(creds, formats, refused, n)->Ok_0;
        let done = manifest_credentials(creds, formats, refused, n - 1)->Ok_0;
        lemma_credentials(creds, formats, refused, n - 1);
        let e = credential_entry(creds[n - 1].0@, creds[n - 1].1@, formats[n - 1]@, refused)->Ok_0;
        if let Some(x) = e {
            assert(all == done.push(x));
            assert(stands_view(x, creds[n - 1].0@, creds[n - 1].1, formats[n - 1]@));
            assert forall|k: int|
                0 <= k < n && (#[trigger] creds[k]).1.credential_key is Some implies appears(
                all,
                creds[k].0@,
                creds[k].1,
                formats[k]@,
            ) by {
                lemma_appears_push(done, x, creds[k].0@, creds[k].1, formats[k]@);
            }
        }
        assert forall|j: int| 0 <= j < all.len() implies comes_from(
            #[trigger] all[j],
            creds,
            formats,
            n,
        ) by {
            if j < done.len() {
                assert(all[j] == done[j]);
                lemma_comes_from_more(done[j], creds, formats, n);
            } else {
                let k = n - 1;
                assert(stands_view(all[j], creds[k].0@, creds[k].1, formats[k]@));
            }
        }
    }
}

/// A credential of the manifest is one of the profile.
pub open spec fn is_of_profile(c: ManifestCredential, p: Profile, s: Surroundings) -> bool {
    exists|k: int|
        0 <= k < p.network.custom_credentials@.len() && stands_for_credential(
            c,
            (#[trigger] p.network.custom_credentials@[k]).0@,
            p.network.custom_credentials@[k].1,
            s.formats@[k]@,
        )
}

/// A credential of the profile is in the manifest.
pub open spec fn is_in_manifest(m: CapabilityManifest, name: Seq<char>, c: CustomCredentialDef, format: Seq<char>) -> bool {
    exists|j: int|
        0 <= j < m.credentials@.len() && stands_for_credential(
            #[trigger] m.credentials@[j],
            name,
            c,
            format,
        )
}

/// Every custom credential of the profile that has a key of its own is in the manifest, with all
/// that it says, and no other credential is.
pub proof fn law_credentials(m: CapabilityManifest, p: Profile, s: Surroundings)
    requires
        manifest_is(m, p, s),
    ensures
        forall|j: int|
            0 <= j < m.credentials@.len() ==> is_of_profile(#[trigger] m.credentials@[j], p, s),
        forall|k: int|
            0 <= k < p.network.custom_credentials@.len() && (
            #[trigger] p.network.custom_credentials@[k]).1.credential_key is Some
                ==> is_in_manifest(
                m,
                p.network.custom_credentials@[k].0@,
                p.network.custom_credentials@[k].1,
                s.formats@[k]@,
            ),
{
    let creds = p.network.custom_credentials@;
    let formats = s.formats@;
    let n = creds.len() as int;
    let all = credential_views(m.credentials@);
    lemma_credentials(creds, formats, s.refused, n);
    assert forall|j: int| 0 <= j < m.credentials@.len() implies is_of_profile(
        #[trigger] m.credentials@[j],
        p,
        s,
    ) by {
        let c = m.credentials@[j];
        assert(all[j] == c@);
        assert(comes_from(all[j], creds, formats, n));
        let k = choose|k: int|
            0 <= k < n && stands_view(all[j], (#[trigger] creds[k]).0@, creds[k].1, formats[k]@);
        assert(stands_for_credential(c, creds[k].0@, creds[k].1, formats[k]@));
    }
    assert forall|k: int|
        0 <= k < creds.len() && (#[trigger] creds[k]).1.credential_key is Some implies is_in_manifest(
        m,
        creds[k].0@,
        creds[k].1,
        formats[k]@,
    ) by {
        assert(appears(all, creds[k].0@, creds[k].1, formats[k]@));
        let j = choose|j: int|
            0 <= j < all.len() && stands_view(
                #[trigger] all[j],
                creds[k].0@,
                creds[k].1,
                formats[k]@,
            );
        assert(all[j] == m.credentials@[j]@);
        assert(stands_for_credential(m.credentials@[j], creds[k].0@, creds[k].1, formats[k]@));
    }
}

// ---------------------------------------------------------------------------
// Paths
// ---------------------------------------------------------------------------

/// A template stands for a path: for what the table says, or else for itself.
pub open spec fn stands_for(template: Seq<char>, table: Seq<(String, Expanded)>, path: Seq<char>) -> bool {
    match lookup(table, template) {
        Some(Ok(x)) => x@ == path,
        Some(Err(_)) => false,
        None => template == path,
    }
}

/// One of the templates of a list stands for a path.
pub open spec fn lists(v: Seq<String>, table: Seq<(String, Expanded)>, path: Seq<char>) -> bool {
    exists|i: int| 0 <= i < v.len() && stands_for((#[trigger] v[i])@, table, path)
}

/// A group opens a file or a directory, for reading or for writing.
pub open spec fn group_opens(
    caps: Seq<GroupCapability>,
    path: Seq<char>,
    is_file: bool,
    writing: bool,
) -> bool {
    exists|i: int|
        0 <= i < caps.len() && (#[trigger] caps[i]).path@ == path && caps[i].is_file == is_file && (
        caps[i].access == AccessMode::Readwrite || caps[i].access == (if writing {
            AccessMode::Write
        } else {
            AccessMode::Read
        }))
}

/// The profile, in its surroundings, asks for a directory and all below it to be opened.
pub open spec fn asks_for_directory(p: Profile, s: Surroundings, path: Seq<char>, writing: bool) -> bool {
    let table = s.expansions@;
    ||| lists(p.filesystem.allow@, table, path)
    ||| !writing && lists(p.filesystem.read@, table, path)
    ||| writing && lists(p.filesystem.write@, table, path)
    ||| group_opens((s.groups.access->Ok_0).capabilities@, path, false, writing)
    ||| s.workdir@ == path && (p.workdir.access == WorkdirAccess::ReadWrite || p.workdir.access == (
    if writing {
        WorkdirAccess::Write
    } else {
        WorkdirAccess::Read
    }))
}

/// The profile, in its surroundings, asks for a file to be opened.
pub open spec fn asks_for_file(p: Profile, s: Surroundings, path: Seq<char>, writing: bool) -> bool {
    let table = s.expansions@;
    ||| lists(p.filesystem.allow_file@, table, path)
    ||| !writing && lists(p.filesystem.read_file@, table, path)
    ||| writing && lists(p.filesystem.write_file@, table, path)
    ||| group_opens((s.groups.access->Ok_0).capabilities@, path, true, writing)
}

/// Grants open a file or a directory, for reading or for writing.
pub open spec fn opens(g: Seq<GrantView>, path: Seq<char>, type_: FsEntryType, writing: bool) -> bool {
    exists|i: int|
        0 <= i < g.len() && (#[trigger] g[i]).path == path && g[i].type_ == type_ && (g[i].access
            == AccessMode::Readwrite || g[i].access == (if writing {
            AccessMode::Write
        } else {
            AccessMode::Read
        }))
}

/// A manifest opens a file or a directory, for reading or for writing.
pub open spec fn manifest_opens(
    m: CapabilityManifest,
    path: Seq<char>,
    type_: FsEntryType,
    writing: bool,
) -> bool {
    m.filesystem is Some && ({
        let g = (m.filesystem->0).grants@;
        exists|i: int|
            0 <= i < g.len() && (#[trigger] g[i]).path@ == path && g[i].type_ == type_ && (
            g[i].access == AccessMode::Readwrite || g[i].access == (if writing {
                AccessMode::Write
            } else {
                AccessMode::Read
            }))
    })
}

proof fn lemma_opens_push(a: Seq<GrantView>, x: GrantView, path: Seq<char>, type_: FsEntryType, writing: bool)
    ensures
        opens(a.push(x), path, type_, writing) <==> opens(a, path, type_, writing) || opens(
            seq![x],
            path,
            type_,
            writing,
        ),
{
    let b = a.push(x);
    if opens(a, path, type_, writing) {
        let i = choose|i: int|
            0 <= i < a.len() && (#[trigger] a[i]).path == path && a[i].type_ == type_ && (a[i].access
                == AccessMode::Readwrite || a[i].access == (if writing {
                AccessMode::Write
            } else {
                AccessMode::Read
            }));
        assert(b[i] == a[i]);
    }
    if opens(seq![x], path, type_, writing) {
        assert(seq![x][0] == x);
        assert(b[a.len() as int] == x);
    }
    if opens(b, path, type_, writing) {
        let i = choose|i: int|
            0 <= i < b.len() && (#[trigger] b[i]).path == path && b[i].type_ == type_ && (b[i].access
                == AccessMode::Readwrite || b[i].access == (if writing {
                AccessMode::Write
            } else {
                AccessMode::Read
            }));
        if i < a.len() {
            assert(a[i] == b[i]);
        } else {
            assert(seq![x][0] == x);
        }
    }
}

/// An access that allows what is asked for.
pub open spec fn allows(access: AccessMode, writing: bool) -> bool {
    access == AccessMode::Readwrite || access == (if writing {
        AccessMode::Write
    } else {
        AccessMode::Read
    })
}

proof fn lemma_opens_one(x: GrantView, path: Seq<char>, type_: FsEntryType, writing: bool)
    ensures
        opens(seq![x], path, type_, writing) <==> x.path == path && x.type_ == type_ && allows(
            x.access,
            writing,
        ),
{
    assert(seq![x][0] == x);
}

proof fn lemma_listed(
    so_far: Grants,
    v: Seq<String>,
    table: Seq<(String, Expanded)>,
    access: AccessMode,
    is_file: bool,
    refused: Seq<(String, String)>,
    path: Seq<char>,
    type_: FsEntryType,
    writing: bool,
)
    requires
        listed_grants(so_far, views(v), table, access, is_file, refused) is Ok,
    ensures
        so_far is Ok,
        opens(
            listed_grants(so_far, views(v), table, access, is_file, refused)->Ok_0,
            path,
            type_,
            writing,
        ) <==> opens(so_far->Ok_0, path, type_, writing) || (type_ == (if is_file {
            FsEntryType::File
        } else {
            FsEntryType::Directory
        }) && allows(access, writing) && lists(v, table, path)),
    decreases v.len(),
{
    if v.len() > 0 {
        let front = v.drop_last();
        assert(views(v).drop_last() =~= views(front));
        assert(views(v).last() == v.last()@);
        lemma_listed(so_far, front, table, access, is_file, refused, path, type_, writing);
        let a = listed_grants(so_far, views(front), table, access, is_file, refused)->Ok_0;
        let x = expanded_grant(v.last()@, table, access, is_file, refused)->Ok_0;
        lemma_opens_push(a, x, path, type_, writing);
        lemma_opens_one(x, path, type_, writing);
        if lists(front, table, path) {
            let i = choose|i: int|
                0 <= i < front.len() && stands_for((#[trigger] front[i])@, table, path);
            assert(v[i] == front[i]);
        }
        if stands_for(v.last()@, table, path) {
            assert(v[v.len() - 1] == v.last());
        }
        if lists(v, table, path) {
            let i = choose|i: int| 0 <= i < v.len() && stands_for((#[trigger] v[i])@, table, path);
            if i < front.len() {
                assert(front[i] == v[i]);
            }
        }
    } else {
        assert(views(v).len() == 0);
    }
}

proof fn lemma_groups(
    so_far: Grants,
    caps: Seq<GroupCapability>,
    refused: Seq<(String, String)>,
    path: Seq<char>,
    is_file: bool,
    writing: bool,
)
    requires
        group_grants(so_far, caps, refused) is Ok,
    ensures
        so_far is Ok,
        ({
            let type_ = if is_file {
                FsEntryType::File
            } else {
                FsEntryType::Directory
            };
            opens(group_grants(so_far, caps, refused)->Ok_0, path, type_, writing) <==> opens(
                so_far->Ok_0,
                path,
                type_,
                writing,
            ) || group_opens(caps, path, is_file, writing)
        }),
    decreases caps.len(),
{
    let type_ = if is_file {
        FsEntryType::File
    } else {
        FsEntryType::Directory
    };
    if caps.len() > 0 {
        let front = caps.drop_last();
        let c = caps.last();
        lemma_groups(so_far, front, refused, path, is_file, writing);
        let a = group_grants(so_far, front, refused)->Ok_0;
        let x = grant(c.path@, c.access, c.is_file, refused)->Ok_0;
        lemma_opens_push(a, x, path, type_, writing);
        lemma_opens_one(x, path, type_, writing);
        assert(caps[caps.len() - 1] == c);
        if group_opens(front, path, is_file, writing) {
            let i = choose|i: int|
                0 <= i < front.len() && (#[trigger] front[i]).path@ == path && front[i].is_file
                    == is_file && (front[i].access == AccessMode::Readwrite || front[i].access == (
                if writing {
                    AccessMode::Write
                } else {
                    AccessMode::Read
                }));
            assert(caps[i] == front[i]);
        }
        if group_opens(caps, path, is_file, writing) {
            let i = choose|i: int|
                0 <= i < caps.len() && (#[trigger] caps[i]).path@ == path && caps[i].is_file
                    == is_file && (caps[i].access == AccessMode::Readwrite || caps[i].access == (
                if writing {
                    AccessMode::Write
                } else {
                    AccessMode::Read
                }));
            if i < front.len() {
                assert(front[i] == caps[i]);
            }
        }
    }
}

proof fn lemma_collected(p: Profile, s: Surroundings, path: Seq<char>, is_file: bool, writing: bool)
    requires
        collected(p, s) is Ok,
    ensures
        opens(
            (collected(p, s)->Ok_0).0,
            path,
            if is_file {
                FsEntryType::File
            } else {
                FsEntryType::Directory
            },
            writing,
        ) <==> if is_file {
            asks_for_file(p, s, path, writing)
        } else {
            asks_for_directory(p, s, path, writing)
        },
{
    let refused = s.refused.paths@;
    let table = s.expansions@;
    let fs = p.filesystem;
    let rw = AccessMode::Readwrite;
    let rd = AccessMode::Read;
    let wr = AccessMode::Write;
    let t = if is_file {
        FsEntryType::File
    } else {
        FsEntryType::Directory
    };
    let g0 = Ok::<Seq<GrantView>, ErrorView>(Seq::<GrantView>::empty());
    let g1 = listed_grants(g0, views(fs.allow@), table, rw, false, refused);
    let g2 = listed_grants(g1, views(fs.read@), table, rd, false, refused);
    let g3 = listed_grants(g2, views(fs.write@), table, wr, false, refused);
    let g4 = listed_grants(g3, views(fs.allow_file@), table, rw, true, refused);
    let g5 = listed_grants(g4, views(fs.read_file@), table, rd, true, refused);
    let g6 = listed_grants(g5, views(fs.write_file@), table, wr, true, refused);
    assert(g6 == profile_grants(p, s));
    lemma_listed(g5, fs.write_file@, table, wr, true, refused, path, t, writing);
    lemma_listed(g4, fs.read_file@, table, rd, true, refused, path, t, writing);
    lemma_listed(g3, fs.allow_file@, table, rw, true, refused, path, t, writing);
    lemma_listed(g2, fs.write@, table, wr, false, refused, path, t, writing);
    lemma_listed(g1, fs.read@, table, rd, false, refused, path, t, writing);
    lemma_listed(g0, fs.allow@, table, rw, false, refused, path, t, writing);
    let caps = (s.groups.access->Ok_0).capabilities@;
    let g7 = group_grants(g6, caps, refused);
    lemma_groups(g6, caps, refused, path, is_file, writing);
    let g8 = workdir_grants(g7, s.workdir@, p.workdir.access, refused);
    assert(g8 == Ok::<Seq<GrantView>, ErrorView>((collected(p, s)->Ok_0).0));
    if p.workdir.access != WorkdirAccess::NoAccess {
        let x = (g8->Ok_0).last();
        assert(g8->Ok_0 =~= (g7->Ok_0).push(x));
        lemma_opens_push(g7->Ok_0, x, path, t, writing);
        lemma_opens_one(x, path, t, writing);
    }
}

proof fn lemma_merged(all: Seq<GrantView>, path: Seq<char>, type_: FsEntryType, writing: bool)
    ensures
        opens(merge_grants(sort_grants(all)), path, type_, writing) <==> opens(
            all,
            path,
            type_,
            writing,
        ),
{
    broadcast use vstd::seq_lib::group_to_multiset_ensures;

    law_sorting_keeps_grants(all);
    let sorted = sort_grants(all);
    law_merging_keeps_access(sorted);
    let merged = merge_grants(sorted);
    if opens(all, path, type_, writing) {
        let i = choose|i: int|
            0 <= i < all.len() && (#[trigger] all[i]).path == path && all[i].type_ == type_ && (
            all[i].access == AccessMode::Readwrite || all[i].access == (if writing {
                AccessMode::Write
            } else {
                AccessMode::Read
            }));
        let x = all[i];
        assert(all.contains(x));
        assert(all.to_multiset().count(x) > 0);
        assert(sorted.contains(x));
        let k = choose|k: int| 0 <= k < sorted.len() && sorted[k] == x;
        assert(crate::profile_cmd::manifest::covered(merged, sorted[k]));
        let j = choose|j: int|
            0 <= j < merged.len() && crate::profile_cmd::manifest::same_entry(
                #[trigger] merged[j],
                x,
            ) && crate::profile_cmd::manifest::wider(x.access, merged[j].access)
                == merged[j].access;
        assert(merged[j].path == path && merged[j].type_ == type_);
    }
    if opens(merged, path, type_, writing) {
        let i = choose|i: int|
            0 <= i < merged.len() && (#[trigger] merged[i]).path == path && merged[i].type_ == type_
                && (merged[i].access == AccessMode::Readwrite || merged[i].access == (if writing {
                AccessMode::Write
            } else {
                AccessMode::Read
            }));
        let g = merged[i];
        assert(crate::profile_cmd::manifest::backed_by(sorted, g));
        let k = if writing {
            choose|k: int|
                0 <= k < sorted.len() && crate::profile_cmd::manifest::same_entry(
                    #[trigger] sorted[k],
                    g,
                ) && crate::profile_cmd::manifest::may_write(sorted[k].access)
        } else {
            choose|k: int|
                0 <= k < sorted.len() && crate::profile_cmd::manifest::same_entry(
                    #[trigger] sorted[k],
                    g,
                ) && crate::profile_cmd::manifest::may_read(sorted[k].access)
        };
        let x = sorted[k];
        assert(sorted.contains(x));
        assert(sorted.to_multiset().count(x) > 0);
        assert(all.contains(x));
        let n = choose|n: int| 0 <= n < all.len() && all[n] == x;
        assert(all[n].path == path);
    }
}

proof fn lemma_manifest_opens(
    m: CapabilityManifest,
    p: Profile,
    s: Surroundings,
    path: Seq<char>,
    type_: FsEntryType,
    writing: bool,
)
    requires
        manifest_is(m, p, s),
    ensures
        manifest_opens(m, path, type_, writing) <==> opens(
            merge_grants(sort_grants((collected(p, s)->Ok_0).0)),
            path,
            type_,
            writing,
        ),
{
    let all = merge_grants(sort_grants((collected(p, s)->Ok_0).0));
    if m.filesystem is Some {
        let g = (m.filesystem->0).grants@;
        assert(grant_views(g) == all);
        assert forall|i: int| 0 <= i < g.len() implies all[i] == (#[trigger] g[i])@ by {}
        if manifest_opens(m, path, type_, writing) {
            let i = choose|i: int|
                0 <= i < g.len() && (#[trigger] g[i]).path@ == path && g[i].type_ == type_ && (
                g[i].access == AccessMode::Readwrite || g[i].access == (if writing {
                    AccessMode::Write
                } else {
                    AccessMode::Read
                }));
            assert(all[i].path == path);
        }
        if opens(all, path, type_, writing) {
            let i = choose|i: int|
                0 <= i < all.len() && (#[trigger] all[i]).path == path && all[i].type_ == type_ && (
                all[i].access == AccessMode::Readwrite || all[i].access == (if writing {
                    AccessMode::Write
                } else {
                    AccessMode::Read
                }));
            assert(g[i].path@ == path);
        }
    }
}

/// A manifest opens exactly the files and directories that the lists of the profile, its groups or
/// its working directory ask for, for reading and for writing as they ask.
pub proof fn law_grants_are_asked_for(
    m: CapabilityManifest,
    p: Profile,
    s: Surroundings,
    path: Seq<char>,
    writing: bool,
)
    requires
        manifest_is(m, p, s),
    ensures
        manifest_opens(m, path, FsEntryType::Directory, writing) <==> asks_for_directory(
            p,
            s,
            path,
            writing,
        ),
        manifest_opens(m, path, FsEntryType::File, writing) <==> asks_for_file(p, s, path, writing),
{
    let all = (collected(p, s)->Ok_0).0;
    lemma_manifest_opens(m, p, s, path, FsEntryType::Directory, writing);
    lemma_manifest_opens(m, p, s, path, FsEntryType::File, writing);
    lemma_merged(all, path, FsEntryType::Directory, writing);
    lemma_merged(all, path, FsEntryType::File, writing);
    lemma_collected(p, s, path, false, writing);
    lemma_collected(p, s, path, true, writing);
}

// ---------------------------------------------------------------------------
// Denied paths
// ---------------------------------------------------------------------------

/// The profile lifts the protection of a path.
pub open spec fn lifts(p: Profile, s: Surroundings, path: Seq<char>) -> bool {
    exists|i: int|
        0 <= i < p.filesystem.bypass_protection@.len() && template_lifts(
            (#[trigger] p.filesystem.bypass_protection@[i])@,
            s.bypass_expansions@,
            path,
        )
}

/// A template stands for a path that holds another.
pub open spec fn template_lifts(template: Seq<char>, table: Seq<(String, Expansion)>, path: Seq<char>) -> bool {
    match lookup(table, template) {
        Some(e) => e.expanded is Some && path_within(path, (e.expanded->0)@),
        None => false,
    }
}

proof fn lemma_lifted(v: Seq<String>, table: Seq<(String, Expansion)>, path: Seq<char>)
    ensures
        is_bypassed(path, profile_paths(views(v), table)) <==> exists|i: int|
            0 <= i < v.len() && template_lifts((#[trigger] v[i])@, table, path),
    decreases v.len(),
{
    if v.len() > 0 {
        let front = v.drop_last();
        assert(views(v).drop_last() =~= views(front));
        assert(views(v).last() == v.last()@);
        lemma_lifted(front, table, path);
        let a = profile_paths(views(front), table);
        let b = profile_paths(views(v), table);
        assert(v[v.len() - 1] == v.last());
        if is_bypassed(path, a) {
            let i = choose|i: int| 0 <= i < a.len() && path_within(path, #[trigger] a[i]);
            assert(b[i] == a[i]);
        }
        if b.len() > a.len() {
            assert(b[a.len() as int] == b.last());
        }
        if is_bypassed(path, b) {
            let i = choose|i: int| 0 <= i < b.len() && path_within(path, #[trigger] b[i]);
            if i < a.len() {
                assert(a[i] == b[i]);
            }
        }
        if exists|i: int| 0 <= i < front.len() && template_lifts(
            (#[trigger] front[i])@,
            table,
            path,
        ) {
            let i = choose|i: int|
                0 <= i < front.len() && template_lifts((#[trigger] front[i])@, table, path);
            assert(v[i] == front[i]);
        }
        if exists|i: int| 0 <= i < v.len() && template_lifts((#[trigger] v[i])@, table, path) {
            let i = choose|i: int|
                0 <= i < v.len() && template_lifts((#[trigger] v[i])@, table, path);
            if i < front.len() {
                assert(front[i] == v[i]);
            }
        }
    }
}

proof fn lemma_listed_deny(
    v: Seq<String>,
    table: Seq<(String, Expanded)>,
    refused: Seq<(String, String)>,
    path: Seq<char>,
)
    requires
        listed_deny(views(v), table, refused) is Ok,
    ensures
        (listed_deny(views(v), table, refused)->Ok_0).contains(path) <==> lists(v, table, path),
    decreases v.len(),
{
    if v.len() > 0 {
        let front = v.drop_last();
        assert(views(v).drop_last() =~= views(front));
        assert(views(v).last() == v.last()@);
        lemma_listed_deny(front, table, refused, path);
        let a = listed_deny(views(front), table, refused)->Ok_0;
        let b = listed_deny(views(v), table, refused)->Ok_0;
        assert(v[v.len() - 1] == v.last());
        assert(b =~= a.push(expansion(v.last()@, table)->Ok_0));
        if a.contains(path) {
            let i = choose|i: int| 0 <= i < a.len() && a[i] == path;
            assert(b[i] == path);
        }
        if stands_for(v.last()@, table, path) {
            assert(b[a.len() as int] == path);
        }
        if lists(front, table, path) {
            let i = choose|i: int|
                0 <= i < front.len() && stands_for((#[trigger] front[i])@, table, path);
            assert(v[i] == front[i]);
        }
        if lists(v, table, path) {
            let i = choose|i: int| 0 <= i < v.len() && stands_for((#[trigger] v[i])@, table, path);
            if i < front.len() {
                assert(front[i] == v[i]);
            }
        }
    }
}

/// A manifest denies exactly the paths that the profile denies and those that its groups deny and
/// from which it does not lift the protection.
pub proof fn law_denied_paths(m: CapabilityManifest, p: Profile, s: Surroundings, path: Seq<char>)
    requires
        manifest_is(m, p, s),
    ensures
        (m.filesystem is Some && exists|i: int|
            0 <= i < (m.filesystem->0).deny@.len() && (#[trigger] (m.filesystem->0).deny@[i])@
                == path) <==> lists(p.filesystem.deny@, s.expansions@, path) || (!lifts(p, s, path)
            && exists|i: int|
            0 <= i < (s.groups.access->Ok_0).deny_paths@.len() && (
            #[trigger] (s.groups.access->Ok_0).deny_paths@[i])@ == path),
{
    let refused = s.refused.paths@;
    let deny = (collected(p, s)->Ok_0).1;
    let listed = listed_deny(views(p.filesystem.deny@), s.expansions@, refused)->Ok_0;
    let paths = views((s.groups.access->Ok_0).deny_paths@);
    let bypassed = profile_paths(
        views(p.filesystem.bypass_protection@),
        s.bypass_expansions@,
    );
    lemma_in_sorted(deny, path);
    if m.filesystem is Some {
        lemma_in_views((m.filesystem->0).deny@, path);
    }
    lemma_listed_deny(p.filesystem.deny@, s.expansions@, refused, path);
    lemma_lifted(p.filesystem.bypass_protection@, s.bypass_expansions@, path);
    lemma_in_views((s.groups.access->Ok_0).deny_paths@, path);
    law_bypassed_is_not_denied(listed, paths, bypassed, refused);
    assert(group_deny(Ok(listed), paths, bypassed, refused) == Ok::<Seq<Seq<char>>, ErrorView>(
        deny,
    ));
    if listed.contains(path) {
        let i = choose|i: int| 0 <= i < listed.len() && listed[i] == path;
        assert(deny.subrange(0, listed.len() as int)[i] == path);
        assert(deny[i] == path);
    }
    if paths.contains(path) && !is_bypassed(path, bypassed) {
        let k = choose|k: int| 0 <= k < paths.len() && paths[k] == path;
        assert(deny.contains(paths[k]));
    }
    if deny.contains(path) {
        let i = choose|i: int| 0 <= i < deny.len() && deny[i] == path;
        if i < listed.len() {
            assert(deny.subrange(0, listed.len() as int)[i] == listed[i]);
            assert(listed.contains(path));
        } else {
            assert(paths.contains(deny[i]));
        }
    }
    if m.filesystem is None {
        assert(!crate::text::sort_unique(deny).contains(path));
    }
}

} // verus!
