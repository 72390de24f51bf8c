//! What showing a profile says of it.

use crate::assoc::lookup;
use crate::json::{field_if, has_member, lemma_one_more, text_array, JsonView};
use crate::output::laws::{says, told};
use crate::profile::{
    HookConfig, Profile, ProfileIpcMode, ProfileProcessInfoMode, ProfileSignalMode, WorkdirAccess,
};
use crate::profile_cmd::show::{
    blocked_lines, commands_json, filesystem_lines, groups_json, has_network, heading, hook_json,
    ipc_key, network_json, network_lines, open_url_lines, path_line, path_lines, paths_json,
    process_info_key, rollback_json, security_json, signal_key, text_of, urls_json, workdir_json,
    workdir_lines,
};
use crate::report::{LineView, Style};
use crate::text::{padded, views};
use vstd::prelude::*;

verus! {

/// The words for the modes in a profile file.
pub proof fn law_words_of_modes(p: Profile)
    ensures
        p.security.signal_mode == Some(ProfileSignalMode::Isolated) ==> signal_key(
            p.security.signal_mode,
        ) == "isolated"@,
        p.security.signal_mode == Some(ProfileSignalMode::AllowSameSandbox) ==> signal_key(
            p.security.signal_mode,
        ) == "allow_same_sandbox"@,
        p.security.signal_mode == Some(ProfileSignalMode::AllowAll) ==> signal_key(
            p.security.signal_mode,
        ) == "allow_all"@,
        p.security.process_info_mode == Some(ProfileProcessInfoMode::Isolated) ==> process_info_key(
            p.security.process_info_mode,
        ) == "isolated"@,
        p.security.process_info_mode == Some(ProfileProcessInfoMode::AllowSameSandbox)
            ==> process_info_key(p.security.process_info_mode) == "allow_same_sandbox"@,
        p.security.process_info_mode == Some(ProfileProcessInfoMode::AllowAll) ==> process_info_key(
            p.security.process_info_mode,
        ) == "allow_all"@,
        p.security.ipc_mode == Some(ProfileIpcMode::SharedMemoryOnly) ==> ipc_key(
            p.security.ipc_mode,
        ) == "shared_memory_only"@,
        p.security.ipc_mode == Some(ProfileIpcMode::Full) ==> ipc_key(p.security.ipc_mode)
            == "full"@,
        p.workdir.access == WorkdirAccess::NoAccess ==> p.workdir.access.key_text() == "none"@,
        p.workdir.access == WorkdirAccess::Read ==> p.workdir.access.key_text() == "read"@,
        p.workdir.access == WorkdirAccess::Write ==> p.workdir.access.key_text() == "write"@,
        p.workdir.access == WorkdirAccess::ReadWrite ==> p.workdir.access.key_text()
            == "readwrite"@,
{
}

/// The names of the modes for people.
pub proof fn law_names_of_modes(
    s: ProfileSignalMode,
    i: ProfileProcessInfoMode,
    c: ProfileIpcMode,
    w: WorkdirAccess,
)
    ensures
        s == ProfileSignalMode::Isolated ==> s.label_text() == "Isolated"@,
        s == ProfileSignalMode::AllowSameSandbox ==> s.label_text() == "AllowSameSandbox"@,
        s == ProfileSignalMode::AllowAll ==> s.label_text() == "AllowAll"@,
        i == ProfileProcessInfoMode::Isolated ==> i.label_text() == "Isolated"@,
        i == ProfileProcessInfoMode::AllowSameSandbox ==> i.label_text() == "AllowSameSandbox"@,
        i == ProfileProcessInfoMode::AllowAll ==> i.label_text() == "AllowAll"@,
        c == ProfileIpcMode::SharedMemoryOnly ==> c.label_text() == "SharedMemoryOnly"@,
        c == ProfileIpcMode::Full ==> c.label_text() == "Full"@,
        w == WorkdirAccess::NoAccess ==> w.label_text() == "None"@,
        w == WorkdirAccess::Read ==> w.label_text() == "Read"@,
        w == WorkdirAccess::Write ==> w.label_text() == "Write"@,
        w == WorkdirAccess::ReadWrite ==> w.label_text() == "ReadWrite"@,
{
}

/// For programs the modes are members exactly where the profile sets them, and whether capabilities
/// may be raised always is.
pub proof fn law_security_members(p: Profile)
    ensures
        ({
            let v = security_json(p);
            let s = p.security;
            &&& s.signal_mode is Some ==> has_member(
                v,
                "signal_mode"@,
                JsonView::Text((s.signal_mode->0).key_text()),
            )
            &&& s.process_info_mode is Some ==> has_member(
                v,
                "process_info_mode"@,
                JsonView::Text((s.process_info_mode->0).key_text()),
            )
            &&& s.ipc_mode is Some ==> has_member(
                v,
                "ipc_mode"@,
                JsonView::Text((s.ipc_mode->0).key_text()),
            )
            &&& s.capability_elevation is Some ==> has_member(
                v,
                "capability_elevation"@,
                JsonView::Bool(s.capability_elevation->0),
            )
            &&& s.capability_elevation is None ==> has_member(
                v,
                "capability_elevation"@,
                JsonView::Null,
            )
            &&& s.wsl2_proxy_policy is Some ==> has_member(
                v,
                "wsl2_proxy_policy"@,
                JsonView::Text((s.wsl2_proxy_policy->0).key@),
            )
        }),
{
    let s = p.security;
    let s0 = Seq::<(Seq<char>, JsonView)>::empty();
    let s1 = s0 + field_if(
        s.signal_mode is Some,
        "signal_mode"@,
        JsonView::Text(signal_key(s.signal_mode)),
    );
    let s2 = s1 + field_if(
        s.process_info_mode is Some,
        "process_info_mode"@,
        JsonView::Text(process_info_key(s.process_info_mode)),
    );
    let s3 = s2 + field_if(
        s.ipc_mode is Some,
        "ipc_mode"@,
        JsonView::Text(ipc_key(s.ipc_mode)),
    );
    let e = crate::json::opt_bool(s.capability_elevation);
    let s4 = s3 + field_if(true, "capability_elevation"@, e);
    let w = JsonView::Text(text_of(crate::profile::setting_key(s.wsl2_proxy_policy)));
    let s5 = s4 + field_if(s.wsl2_proxy_policy is Some, "wsl2_proxy_policy"@, w);
    lemma_one_more(
        s0,
        s.signal_mode is Some,
        "signal_mode"@,
        JsonView::Text(signal_key(s.signal_mode)),
    );
    lemma_one_more(
        s1,
        s.process_info_mode is Some,
        "process_info_mode"@,
        JsonView::Text(process_info_key(s.process_info_mode)),
    );
    lemma_one_more(s2, s.ipc_mode is Some, "ipc_mode"@, JsonView::Text(ipc_key(s.ipc_mode)));
    lemma_one_more(s3, true, "capability_elevation"@, e);
    lemma_one_more(s4, s.wsl2_proxy_policy is Some, "wsl2_proxy_policy"@, w);
    assert(security_json(p)->Object_0 == s5);
    let m1 = ("signal_mode"@, JsonView::Text(signal_key(s.signal_mode)));
    let m2 = ("process_info_mode"@, JsonView::Text(process_info_key(s.process_info_mode)));
    let m3 = ("ipc_mode"@, JsonView::Text(ipc_key(s.ipc_mode)));
    let m4 = ("capability_elevation"@, e);
    let m5 = ("wsl2_proxy_policy"@, w);
    assert(s.signal_mode is Some ==> s1.contains(m1) && s2.contains(m1) && s3.contains(m1)
        && s4.contains(m1) && s5.contains(m1));
    assert(s.process_info_mode is Some ==> s2.contains(m2) && s3.contains(m2) && s4.contains(m2)
        && s5.contains(m2));
    assert(s.ipc_mode is Some ==> s3.contains(m3) && s4.contains(m3) && s5.contains(m3));
    assert(s4.contains(m4) && s5.contains(m4));
    assert(s.wsl2_proxy_policy is Some ==> s5.contains(m5));
}

/// For programs every list of paths is a member under its own name.
pub proof fn law_path_members(p: Profile)
    ensures
        ({
            let v = paths_json(p);
            let f = p.filesystem;
            &&& has_member(v, "allow"@, text_array(views(f.allow@)))
            &&& has_member(v, "read"@, text_array(views(f.read@)))
            &&& has_member(v, "write"@, text_array(views(f.write@)))
            &&& has_member(v, "allow_file"@, text_array(views(f.allow_file@)))
            &&& has_member(v, "read_file"@, text_array(views(f.read_file@)))
            &&& has_member(v, "write_file"@, text_array(views(f.write_file@)))
            &&& has_member(v, "deny"@, text_array(views(f.deny@)))
            &&& has_member(v, "bypass_protection"@, text_array(views(f.bypass_protection@)))
            &&& has_member(v, "suppress_save_prompt"@, text_array(views(f.suppress_save_prompt@)))
        }),
{
    let f = p.filesystem;
    let o = paths_json(p)->Object_0;
    assert(o[0] == ("allow"@, o[0].1) && o[1] == ("read"@, o[1].1) && o[2] == ("write"@, o[2].1));
    assert(o[3] == ("allow_file"@, o[3].1) && o[4] == ("read_file"@, o[4].1));
    assert(o[5] == ("write_file"@, o[5].1) && o[6] == ("deny"@, o[6].1));
    assert(o[7] == ("bypass_protection"@, o[7].1) && o[8] == ("suppress_save_prompt"@, o[8].1));
}

/// For programs the network has whether it is blocked, and its lists and settings under their names.
pub proof fn law_network_members(p: Profile)
    ensures
        ({
            let v = network_json(p);
            let n = p.network;
            &&& has_member(v, "block"@, JsonView::Bool(n.block))
            &&& n.network_profile is Some ==> has_member(
                v,
                "network_profile"@,
                JsonView::Text((n.network_profile->0)@),
            )
            &&& n.network_profile is None ==> has_member(v, "network_profile"@, JsonView::Null)
            &&& has_member(v, "allow_domain"@, text_array(views(n.allow_domain@)))
            &&& has_member(v, "credentials"@, text_array(n.credential_names()))
            &&& has_member(v, "open_port"@, crate::json::port_array(n.open_port@))
            &&& has_member(v, "listen_port"@, crate::json::port_array(n.listen_port@))
            &&& n.upstream_proxy is Some ==> has_member(
                v,
                "upstream_proxy"@,
                JsonView::Text((n.upstream_proxy->0)@),
            )
            &&& n.upstream_proxy is None ==> has_member(v, "upstream_proxy"@, JsonView::Null)
            &&& has_member(v, "upstream_bypass"@, text_array(views(n.upstream_bypass@)))
        }),
{
    let o = network_json(p)->Object_0;
    assert(o[0] == ("block"@, o[0].1) && o[1] == ("network_profile"@, o[1].1));
    assert(o[2] == ("allow_domain"@, o[2].1) && o[3] == ("credentials"@, o[3].1));
    assert(o[4] == ("open_port"@, o[4].1) && o[5] == ("listen_port"@, o[5].1));
    assert(o[6] == ("upstream_proxy"@, o[6].1) && o[7] == ("upstream_bypass"@, o[7].1));
}

/// For programs groups, commands, exclusions, hooks and URLs keep what belongs to each.
pub proof fn law_other_members(p: Profile, h: HookConfig)
    ensures
        has_member(groups_json(p), "include"@, text_array(views(p.groups.included@))),
        has_member(groups_json(p), "exclude"@, text_array(views(p.groups.excluded@))),
        has_member(commands_json(p), "allow"@, text_array(views(p.commands.allow@))),
        has_member(commands_json(p), "deny"@, text_array(views(p.commands.deny@))),
        has_member(
            rollback_json(p),
            "exclude_patterns"@,
            text_array(views(p.rollback.exclude_patterns@)),
        ),
        has_member(rollback_json(p), "exclude_globs"@, text_array(views(p.rollback.exclude_globs@))),
        has_member(workdir_json(p), "access"@, JsonView::Text(p.workdir.access.key_text())),
        has_member(hook_json(h), "event"@, JsonView::Text(h.event@)),
        has_member(hook_json(h), "matcher"@, JsonView::Text(h.matcher@)),
        has_member(hook_json(h), "script"@, JsonView::Text(h.script@)),
        p.open_urls is Some ==> has_member(
            urls_json(p),
            "allow_origins"@,
            text_array(views((p.open_urls->0).allow_origins@)),
        ) && has_member(
            urls_json(p),
            "allow_localhost"@,
            JsonView::Bool((p.open_urls->0).allow_localhost),
        ),
        p.open_urls is None ==> urls_json(p) is Null,
{
    let g = groups_json(p)->Object_0;
    let c = commands_json(p)->Object_0;
    let r = rollback_json(p)->Object_0;
    let w = workdir_json(p)->Object_0;
    let k = hook_json(h)->Object_0;
    assert(g[0] == ("include"@, g[0].1) && g[1] == ("exclude"@, g[1].1));
    assert(c[0] == ("allow"@, c[0].1) && c[1] == ("deny"@, c[1].1));
    assert(r[0] == ("exclude_patterns"@, r[0].1) && r[1] == ("exclude_globs"@, r[1].1));
    assert(w[0] == ("access"@, w[0].1));
    assert(k[0] == ("event"@, k[0].1) && k[1] == ("matcher"@, k[1].1) && k[2] == ("script"@, k[2].1));
    if p.open_urls is Some {
        let u = urls_json(p)->Object_0;
        assert(u[0] == ("allow_origins"@, u[0].1) && u[1] == ("allow_localhost"@, u[1].1));
    }
}

/// A path is shown as it is where it stands for itself, where nothing is known of it or where that is
/// asked for, and else with what it stands for.
pub proof fn law_shown_paths(x: Seq<char>, raw: bool, expansions: Seq<(String, String)>)
    ensures
        ({
            let l = path_line(x, raw, expansions);
            let e = lookup(expansions, x);
            &&& raw || e is None || (e->0)@ == x ==> l.len() == 2 && l[1].1 == x
            &&& !raw && e is Some && (e->0)@ != x ==> l.len() == 4 && l[1].1 == padded(x, 36)
                && l[3].1 == (e->0)@
        }),
{
}

/// A list of paths is shown below its label.
pub open spec fn shows_list(
    lines: Seq<LineView>,
    label: Seq<char>,
    paths: Seq<String>,
    raw: bool,
    expansions: Seq<(String, String)>,
) -> bool {
    paths.len() > 0 ==> exists|i: int|
        0 <= i && i + paths.len() < lines.len() && (#[trigger] lines[i]).len() == 3 && lines[i][1].1
            == label && forall|k: int|
            i < k <= i + paths.len() ==> #[trigger] lines[k] == path_line(
                paths[k - i - 1]@,
                raw,
                expansions,
            )
}

proof fn lemma_shows_list(
    before: Seq<LineView>,
    label: Seq<char>,
    paths: Seq<String>,
    raw: bool,
    expansions: Seq<(String, String)>,
    after: Seq<LineView>,
)
    ensures
        shows_list(
            before + path_lines(label, views(paths), raw, expansions) + after,
            label,
            paths,
            raw,
            expansions,
        ),
{
    let part = path_lines(label, views(paths), raw, expansions);
    let all = before + part + after;
    assert(views(paths).len() == paths.len());
    if paths.len() > 0 {
        let i = before.len() as int;
        assert(all[i] == part[0]);
        assert(all[i].len() == 3 && all[i][1].1 == label);
        assert forall|k: int| i < k <= i + paths.len() implies #[trigger] all[k] == path_line(
            paths[k - i - 1]@,
            raw,
            expansions,
        ) by {
            assert(all[k] == part[k - i]);
            assert(views(paths)[k - i - 1] == paths[k - i - 1]@);
        }
    }
}

/// Every list of paths is shown below its own label.
pub proof fn law_shown_lists(p: Profile, raw: bool, expansions: Seq<(String, String)>)
    ensures
        ({
            let l = filesystem_lines(p, raw, expansions);
            let f = p.filesystem;
            &&& shows_list(l, "allow (r+w)"@, f.allow@, raw, expansions)
            &&& shows_list(l, "read"@, f.read@, raw, expansions)
            &&& shows_list(l, "write"@, f.write@, raw, expansions)
            &&& shows_list(l, "allow_file (r+w)"@, f.allow_file@, raw, expansions)
            &&& shows_list(l, "read_file"@, f.read_file@, raw, expansions)
            &&& shows_list(l, "write_file"@, f.write_file@, raw, expansions)
            &&& shows_list(l, "deny"@, f.deny@, raw, expansions)
        }),
{
    let f = p.filesystem;
    let all = filesystem_lines(p, raw, expansions);
    let x0 = Seq::<LineView>::empty() + heading(
        crate::profile_cmd::show::has_filesystem(p),
        Style::SubtextBold,
        "Filesystem:"@,
    );
    let y1 = path_lines("allow (r+w)"@, views(f.allow@), raw, expansions);
    let y2 = path_lines("read"@, views(f.read@), raw, expansions);
    let y3 = path_lines("write"@, views(f.write@), raw, expansions);
    let y4 = path_lines("allow_file (r+w)"@, views(f.allow_file@), raw, expansions);
    let y5 = path_lines("read_file"@, views(f.read_file@), raw, expansions);
    let y6 = path_lines("write_file"@, views(f.write_file@), raw, expansions);
    let y7 = path_lines("deny"@, views(f.deny@), raw, expansions);
    let x1 = x0 + y1;
    let x2 = x1 + y2;
    let x3 = x2 + y3;
    let x4 = x3 + y4;
    let x5 = x4 + y5;
    let x6 = x5 + y6;
    let x7 = x6 + y7;
    assert(all.take(x7.len() as int) =~= x7);
    assert(all =~= x7 + all.skip(x7.len() as int));
    lemma_shows_list(x0, "allow (r+w)"@, f.allow@, raw, expansions, all.skip(x1.len() as int));
    lemma_shows_list(x1, "read"@, f.read@, raw, expansions, all.skip(x2.len() as int));
    lemma_shows_list(x2, "write"@, f.write@, raw, expansions, all.skip(x3.len() as int));
    lemma_shows_list(x3, "allow_file (r+w)"@, f.allow_file@, raw, expansions, all.skip(x4.len() as int));
    lemma_shows_list(x4, "read_file"@, f.read_file@, raw, expansions, all.skip(x5.len() as int));
    lemma_shows_list(x5, "write_file"@, f.write_file@, raw, expansions, all.skip(x6.len() as int));
    lemma_shows_list(x6, "deny"@, f.deny@, raw, expansions, all.skip(x7.len() as int));
    assert(all =~= x1 + all.skip(x1.len() as int));
    assert(all =~= x2 + all.skip(x2.len() as int));
    assert(all =~= x3 + all.skip(x3.len() as int));
    assert(all =~= x4 + all.skip(x4.len() as int));
    assert(all =~= x5 + all.skip(x5.len() as int));
    assert(all =~= x6 + all.skip(x6.len() as int));
}

/// A blocked network is shown as such, and no other is; a network of which nothing is set is not
/// shown at all.
pub proof fn law_shown_networks(p: Profile)
    ensures
        p.network.block ==> told(network_lines(p), Style::Red, "network blocked"@),
        has_network(p) <==> {
            ||| p.network.block
            ||| p.network.network_profile is Some
            ||| p.network.allow_domain@.len() > 0
            ||| p.network.credentials is Some && (p.network.credentials->0)@.len() > 0
            ||| p.network.open_port@.len() > 0
            ||| p.network.listen_port@.len() > 0
            ||| p.network.upstream_proxy is Some
            ||| p.network.upstream_bypass@.len() > 0
        },
        !has_network(p) ==> network_lines(p).len() == 0,
{
    if p.network.block {
        let l = network_lines(p);
        let b = blocked_lines(true);
        assert(l[2] == b[0]);
        assert(l[2][1] == (Style::Red, "network blocked"@));
        assert(says(l[2], Style::Red, "network blocked"@));
    }
    if p.network.credentials is Some {
        assert(views((p.network.credentials->0)@).len() == (p.network.credentials->0)@.len());
    }
}

/// The access to the working directory is shown where there is any.
pub proof fn law_shown_working_directories(access: WorkdirAccess)
    ensures
        access == WorkdirAccess::NoAccess <==> workdir_lines(access).len() == 0,
        access != WorkdirAccess::NoAccess ==> told(
            workdir_lines(access),
            Style::Plain,
            access.label_text(),
        ),
{
    if access != WorkdirAccess::NoAccess {
        let l = workdir_lines(access);
        assert(l[1][3] == (Style::Plain, access.label_text()));
        assert(says(l[1], Style::Plain, access.label_text()));
    }
}

/// The URLs that may be opened are shown, with localhost first where it may be.
pub proof fn law_shown_urls(p: Profile, k: int)
    requires
        p.open_urls is Some,
        0 <= k < (p.open_urls->0).allow_origins@.len(),
    ensures
        told(open_url_lines(p), Style::Text, (p.open_urls->0).allow_origins@[k]@),
        (p.open_urls->0).allow_localhost ==> told(
            open_url_lines(p),
            Style::Text,
            "localhost allowed"@,
        ) && open_url_lines(p).len() == 3 + (p.open_urls->0).allow_origins@.len(),
        !(p.open_urls->0).allow_localhost ==> open_url_lines(p).len() == 2 + (
        p.open_urls->0).allow_origins@.len(),
{
    let u = p.open_urls->0;
    let l = open_url_lines(p);
    let t = views(u.allow_origins@);
    assert(t.len() == u.allow_origins@.len());
    assert(t[k] == u.allow_origins@[k]@);
    let i = l.len() - t.len() + k;
    assert(l[i][1] == (Style::Text, t[k]));
    assert(says(l[i], Style::Text, t[k]));
    if u.allow_localhost {
        assert(l[2][1] == (Style::Text, "localhost allowed"@));
        assert(says(l[2], Style::Text, "localhost allowed"@));
    }
}

} // verus!
