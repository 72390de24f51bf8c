//! Showing one profile.

use crate::assoc::{find_key, lookup};
use crate::json::{
    field, field_if, json_object, json_opt_bool, json_opt_text, json_ports, json_text, json_texts,
    members, no_members, opt_bool, opt_text, port_array, put_field, put_field_if, text_array, Json,
    JsonView,
};
use crate::profile::{
    setting_key, setting_label, HookConfig, Profile, ProfileIpcMode, ProfileProcessInfoMode,
    ProfileSignalMode, Setting, WorkdirAccess,
};
use crate::profile_cmd::diff::{port_strings, port_texts};
use crate::profile_cmd::diff_json::{mappings_json, mappings_to_json};
use crate::report::{blank_line, text_lines, LineView, Report, Style};
use crate::text::{clone_strings, join, join_strings, opt_view, pad_right, padded, str_eq, views};
use vstd::prelude::*;

verus! {

/// A line with a label and a value, where there is one to show.
pub open spec fn fact(
    shown: bool,
    indent: Seq<char>,
    style: Style,
    label: Seq<char>,
    gap: Seq<char>,
    value_style: Style,
    value: Seq<char>,
) -> Seq<LineView> {
    if shown {
        seq![seq![(Style::Plain, indent), (style, label), (Style::Plain, gap), (value_style, value)]]
    } else {
        Seq::empty()
    }
}

pub fn add_fact(
    out: &mut Report,
    shown: bool,
    indent: &str,
    style: Style,
    label: &str,
    gap: &str,
    value_style: Style,
    value: &str,
)
    ensures
        final(out)@ == old(out)@ + fact(
            shown,
            indent@,
            style,
            label@,
            gap@,
            value_style,
            value@,
        ),
{
    let ghost before = out@;
    if shown {
        out.line4(Style::Plain, indent, style, label, Style::Plain, gap, value_style, value);
    }
    assert(out@ =~= before + fact(shown, indent@, style, label@, gap@, value_style, value@));
}

/// An empty line and a title, where there is something below it.
pub open spec fn heading(shown: bool, style: Style, title: Seq<char>) -> Seq<LineView> {
    if shown {
        seq![blank_line(), seq![(Style::Plain, "  "@), (style, title)]]
    } else {
        Seq::empty()
    }
}

pub fn add_heading(out: &mut Report, shown: bool, style: Style, title: &str)
    ensures
        final(out)@ == old(out)@ + heading(shown, style, title@),
{
    let ghost before = out@;
    if shown {
        out.blank();
        out.line2(Style::Plain, "  ", style, title);
    }
    assert(out@ =~= before + heading(shown, style, title@));
}

/// A titled list; nothing where the list is empty.
pub open spec fn listing(
    title_style: Style,
    title: Seq<char>,
    style: Style,
    items: Seq<Seq<char>>,
) -> Seq<LineView> {
    heading(items.len() > 0, title_style, title) + text_lines("    "@, style, items)
}

pub fn add_listing(out: &mut Report, title_style: Style, title: &str, style: Style, items: &Vec<String>)
    ensures
        final(out)@ == old(out)@ + listing(title_style, title@, style, views(items@)),
{
    let ghost before = out@;
    add_heading(out, items.len() > 0, title_style, title);
    out.texts("    ", style, items);
    assert(out@ =~= before + listing(title_style, title@, style, views(items@)));
}

/// The text of an optional value; empty where there is none.
pub open spec fn text_of(v: Option<Seq<char>>) -> Seq<char> {
    match v {
        Some(x) => x,
        None => ""@,
    }
}

fn str_of(v: &Option<String>) -> (r: &str)
    ensures
        r@ == text_of(opt_view(*v)),
{
    match v {
        Some(x) => x.as_str(),
        None => "",
    }
}

fn setting_str(v: &Option<Setting>) -> (r: &str)
    ensures
        r@ == text_of(setting_label(*v)),
{
    match v {
        Some(x) => x.label.as_str(),
        None => "",
    }
}

fn setting_key_str(v: &Option<Setting>) -> (r: &str)
    ensures
        r@ == text_of(setting_key(*v)),
{
    match v {
        Some(x) => x.key.as_str(),
        None => "",
    }
}

/// A path as the profile spells it, with what it expands to where that differs.
pub open spec fn path_line(p: Seq<char>, raw: bool, expansions: Seq<(String, String)>) -> LineView {
    match lookup(expansions, p) {
        Some(e) => if raw || e@ == p {
            seq![(Style::Plain, "      "@), (Style::Text, p)]
        } else {
            seq![
                (Style::Plain, "      "@),
                (Style::Text, padded(p, 36)),
                (Style::Plain, " -> "@),
                (Style::Subtext, e@),
            ]
        },
        None => seq![(Style::Plain, "      "@), (Style::Text, p)],
    }
}

pub open spec fn path_lines(
    label: Seq<char>,
    paths: Seq<Seq<char>>,
    raw: bool,
    expansions: Seq<(String, String)>,
) -> Seq<LineView> {
    if paths.len() == 0 {
        Seq::empty()
    } else {
        seq![seq![(Style::Plain, "    "@), (Style::Subtext, label), (Style::Plain, ":"@)]]
            + paths.map_values(|p: Seq<char>| path_line(p, raw, expansions))
    }
}

fn print_fs_paths(
    out: &mut Report,
    label: &str,
    paths: &Vec<String>,
    raw: bool,
    expansions: &Vec<(String, String)>,
)
    ensures
        final(out)@ == old(out)@ + path_lines(label@, views(paths@), raw, expansions@),
{
    let ghost before = out@;
    if paths.len() == 0 {
        assert(out@ =~= before + path_lines(label@, views(paths@), raw, expansions@));
        return ;
    }
    out.line3(Style::Plain, "    ", Style::Subtext, label, Style::Plain, ":");
    let ghost start = out@;
    let ghost all = views(paths@).map_values(|p: Seq<char>| path_line(p, raw, expansions@));
    let mut i: usize = 0;
    assert(start + all.take(0) =~= start);
    while i < paths.len()
        invariant
            i <= paths@.len(),
            all == views(paths@).map_values(|p: Seq<char>| path_line(p, raw, expansions@)),
            out@ == start + all.take(i as int),
        decreases paths@.len() - i,
    {
        let p = paths[i].as_str();
        assert(all[i as int] == path_line(p@, raw, expansions@));
        let expanded = match find_key(expansions, p) {
            Some(k) => if raw || str_eq(expansions[k].1.as_str(), p) {
                None
            } else {
                Some(k)
            },
            None => None,
        };
        match expanded {
            Some(k) => {
                let left = pad_right(p, 36);
                out.line4(
                    Style::Plain,
                    "      ",
                    Style::Text,
                    left.as_str(),
                    Style::Plain,
                    " -> ",
                    Style::Subtext,
                    expansions[k].1.as_str(),
                );
            },
            None => {
                out.line2(Style::Plain, "      ", Style::Text, p);
            },
        }
        i += 1;
        assert(all.take(i as int) =~= all.take(i - 1).push(all[i - 1]));
        assert(out@ =~= start + all.take(i as int));
    }
    assert(all.take(i as int) =~= all);
    assert(out@ =~= before + path_lines(label@, views(paths@), raw, expansions@));
}

/// The name of a mode; empty where none is set.
pub open spec fn signal_label(m: Option<ProfileSignalMode>) -> Seq<char> {
    match m {
        Some(x) => x.label_text(),
        None => ""@,
    }
}

fn signal_label_str(m: Option<ProfileSignalMode>) -> (r: &'static str)
    ensures
        r@ == signal_label(m),
{
    match m {
        Some(x) => x.label(),
        None => "",
    }
}

pub open spec fn signal_key(m: Option<ProfileSignalMode>) -> Seq<char> {
    match m {
        Some(x) => x.key_text(),
        None => ""@,
    }
}

fn signal_key_str(m: Option<ProfileSignalMode>) -> (r: &'static str)
    ensures
        r@ == signal_key(m),
{
    match m {
        Some(x) => x.key(),
        None => "",
    }
}

pub open spec fn process_info_label(m: Option<ProfileProcessInfoMode>) -> Seq<char> {
    match m {
        Some(x) => x.label_text(),
        None => ""@,
    }
}

fn process_info_label_str(m: Option<ProfileProcessInfoMode>) -> (r: &'static str)
    ensures
        r@ == process_info_label(m),
{
    match m {
        Some(x) => x.label(),
        None => "",
    }
}

pub open spec fn process_info_key(m: Option<ProfileProcessInfoMode>) -> Seq<char> {
    match m {
        Some(x) => x.key_text(),
        None => ""@,
    }
}

fn process_info_key_str(m: Option<ProfileProcessInfoMode>) -> (r: &'static str)
    ensures
        r@ == process_info_key(m),
{
    match m {
        Some(x) => x.key(),
        None => "",
    }
}

pub open spec fn ipc_label(m: Option<ProfileIpcMode>) -> Seq<char> {
    match m {
        Some(x) => x.label_text(),
        None => ""@,
    }
}

fn ipc_label_str(m: Option<ProfileIpcMode>) -> (r: &'static str)
    ensures
        r@ == ipc_label(m),
{
    match m {
        Some(x) => x.label(),
        None => "",
    }
}

pub open spec fn ipc_key(m: Option<ProfileIpcMode>) -> Seq<char> {
    match m {
        Some(x) => x.key_text(),
        None => ""@,
    }
}

fn ipc_key_str(m: Option<ProfileIpcMode>) -> (r: &'static str)
    ensures
        r@ == ipc_key(m),
{
    match m {
        Some(x) => x.key(),
        None => "",
    }
}

pub open spec fn description_lines(description: Option<Seq<char>>) -> Seq<LineView> {
    match description {
        Some(d) => seq![
            blank_line(),
            seq![
                (Style::Plain, "  "@),
                (Style::Subtext, "Description:"@),
                (Style::Plain, "  "@),
                (Style::Text, d),
            ],
        ],
        None => Seq::empty(),
    }
}

fn add_description(out: &mut Report, description: &Option<String>)
    ensures
        final(out)@ == old(out)@ + description_lines(opt_view(*description)),
{
    let ghost before = out@;
    if let Some(d) = description {
        out.blank();
        out.line4(
            Style::Plain,
            "  ",
            Style::Subtext,
            "Description:",
            Style::Plain,
            "  ",
            Style::Text,
            d.as_str(),
        );
    }
    assert(out@ =~= before + description_lines(opt_view(*description)));
}

/// The names of the profiles that another builds on.
pub open spec fn base_names(extends: Option<Vec<String>>) -> Seq<Seq<char>> {
    match extends {
        Some(v) => views(v@),
        None => Seq::empty(),
    }
}

fn base_list(extends: &Option<Vec<String>>) -> (r: Vec<String>)
    ensures
        views(r@) == base_names(*extends),
{
    match extends {
        Some(v) => clone_strings(v),
        None => {
            let r: Vec<String> = Vec::new();
            assert(views(r@) =~= Seq::<Seq<char>>::empty());
            r
        },
    }
}

pub open spec fn enabled_text(b: Option<bool>) -> Seq<char> {
    if b == Some(true) {
        "enabled"@
    } else {
        "disabled"@
    }
}

fn enabled_str(b: Option<bool>) -> (r: &'static str)
    ensures
        r@ == enabled_text(b),
{
    match b {
        Some(true) => "enabled",
        _ => "disabled",
    }
}

/// What a profile is called and how it treats processes.
pub open spec fn header_lines(p: Profile, extends: Option<Vec<String>>) -> Seq<LineView> {
    Seq::<LineView>::empty()
        + description_lines(opt_view(p.meta.description))
        + fact(extends is Some, "  "@, Style::Subtext, "Extends:"@, "      "@, Style::Text, join(base_names(extends), ", "@))
        + listing(Style::SubtextBold, "Security groups:"@, Style::Text, views(p.groups.included@))
        + listing(Style::SubtextBold, "Excluded security groups:"@, Style::Yellow, views(p.groups.excluded@))
        + listing(Style::SubtextBold, "Allowed commands (deprecated, startup-only):"@, Style::Text, views(p.commands.allow@))
        + listing(Style::SubtextBold, "Denied commands (deprecated, startup-only):"@, Style::Yellow, views(p.commands.deny@))
        + fact(p.security.signal_mode is Some, "  "@, Style::Subtext, "Signal mode:"@, "   "@, Style::Plain, signal_label(p.security.signal_mode))
        + fact(p.security.process_info_mode is Some, "  "@, Style::Subtext, "Process info:"@, " "@, Style::Plain, process_info_label(p.security.process_info_mode))
        + fact(p.security.ipc_mode is Some, "  "@, Style::Subtext, "IPC mode:"@, "     "@, Style::Plain, ipc_label(p.security.ipc_mode))
        + fact(p.security.capability_elevation is Some, "  "@, Style::Subtext, "Capability elevation:"@, " "@, Style::Text, enabled_text(p.security.capability_elevation))
        + fact(p.security.wsl2_proxy_policy is Some, "  "@, Style::Subtext, "WSL2 proxy policy:"@, " "@, Style::Text, text_of(setting_label(p.security.wsl2_proxy_policy)))
        + fact(p.linux.af_unix_mediation is Some, "  "@, Style::Subtext, "Linux AF_UNIX mediation:"@, " "@, Style::Text, text_of(setting_label(p.linux.af_unix_mediation)))
}

fn header_report(p: &Profile, extends: &Option<Vec<String>>) -> (out: Report)
    ensures
        out@ == header_lines(*p, *extends),
{
    let bases = join_strings(&base_list(extends), ", ");
    let mut out = Report::new();
    add_description(&mut out, &p.meta.description);
    add_fact(&mut out, extends.is_some(), "  ", Style::Subtext, "Extends:", "      ", Style::Text, bases.as_str());
    add_listing(&mut out, Style::SubtextBold, "Security groups:", Style::Text, &p.groups.included);
    add_listing(&mut out, Style::SubtextBold, "Excluded security groups:", Style::Yellow, &p.groups.excluded);
    add_listing(&mut out, Style::SubtextBold, "Allowed commands (deprecated, startup-only):", Style::Text, &p.commands.allow);
    add_listing(&mut out, Style::SubtextBold, "Denied commands (deprecated, startup-only):", Style::Yellow, &p.commands.deny);
    add_fact(&mut out, p.security.signal_mode.is_some(), "  ", Style::Subtext, "Signal mode:", "   ", Style::Plain, signal_label_str(p.security.signal_mode));
    add_fact(&mut out, p.security.process_info_mode.is_some(), "  ", Style::Subtext, "Process info:", " ", Style::Plain, process_info_label_str(p.security.process_info_mode));
    add_fact(&mut out, p.security.ipc_mode.is_some(), "  ", Style::Subtext, "IPC mode:", "     ", Style::Plain, ipc_label_str(p.security.ipc_mode));
    add_fact(&mut out, p.security.capability_elevation.is_some(), "  ", Style::Subtext, "Capability elevation:", " ", Style::Text, enabled_str(p.security.capability_elevation));
    add_fact(&mut out, p.security.wsl2_proxy_policy.is_some(), "  ", Style::Subtext, "WSL2 proxy policy:", " ", Style::Text, setting_str(&p.security.wsl2_proxy_policy));
    add_fact(&mut out, p.linux.af_unix_mediation.is_some(), "  ", Style::Subtext, "Linux AF_UNIX mediation:", " ", Style::Text, setting_str(&p.linux.af_unix_mediation));
    out
}

pub open spec fn has_filesystem(p: Profile) -> bool {
    let fs = p.filesystem;
    fs.allow@.len() > 0 || fs.read@.len() > 0 || fs.write@.len() > 0 || fs.allow_file@.len() > 0
        || fs.read_file@.len() > 0 || fs.write_file@.len() > 0 || fs.deny@.len() > 0
        || fs.bypass_protection@.len() > 0 || fs.suppress_save_prompt@.len() > 0
}

fn shows_filesystem(p: &Profile) -> (r: bool)
    ensures
        r == has_filesystem(*p),
{
    let fs = &p.filesystem;
    fs.allow.len() > 0 || fs.read.len() > 0 || fs.write.len() > 0 || fs.allow_file.len() > 0
        || fs.read_file.len() > 0 || fs.write_file.len() > 0 || fs.deny.len() > 0
        || fs.bypass_protection.len() > 0 || fs.suppress_save_prompt.len() > 0
}

/// The paths of a profile.
pub open spec fn filesystem_lines(p: Profile, raw: bool, expansions: Seq<(String, String)>) -> Seq<LineView> {
    Seq::<LineView>::empty()
        + heading(has_filesystem(p), Style::SubtextBold, "Filesystem:"@)
        + path_lines("allow (r+w)"@, views(p.filesystem.allow@), raw, expansions)
        + path_lines("read"@, views(p.filesystem.read@), raw, expansions)
        + path_lines("write"@, views(p.filesystem.write@), raw, expansions)
        + path_lines("allow_file (r+w)"@, views(p.filesystem.allow_file@), raw, expansions)
        + path_lines("read_file"@, views(p.filesystem.read_file@), raw, expansions)
        + path_lines("write_file"@, views(p.filesystem.write_file@), raw, expansions)
        + path_lines("deny"@, views(p.filesystem.deny@), raw, expansions)
        + path_lines("suppress_save_prompt"@, views(p.filesystem.suppress_save_prompt@), raw, expansions)
        + fact(p.filesystem.bypass_protection@.len() > 0, "    "@, Style::Yellow, "bypass_protection"@, ": "@, Style::Plain, join(views(p.filesystem.bypass_protection@), ", "@))
}

fn filesystem_report(p: &Profile, raw: bool, expansions: &Vec<(String, String)>) -> (out: Report)
    ensures
        out@ == filesystem_lines(*p, raw, expansions@),
{
    let bypass = join_strings(&p.filesystem.bypass_protection, ", ");
    let mut out = Report::new();
    add_heading(&mut out, shows_filesystem(p), Style::SubtextBold, "Filesystem:");
    print_fs_paths(&mut out, "allow (r+w)", &p.filesystem.allow, raw, expansions);
    print_fs_paths(&mut out, "read", &p.filesystem.read, raw, expansions);
    print_fs_paths(&mut out, "write", &p.filesystem.write, raw, expansions);
    print_fs_paths(&mut out, "allow_file (r+w)", &p.filesystem.allow_file, raw, expansions);
    print_fs_paths(&mut out, "read_file", &p.filesystem.read_file, raw, expansions);
    print_fs_paths(&mut out, "write_file", &p.filesystem.write_file, raw, expansions);
    print_fs_paths(&mut out, "deny", &p.filesystem.deny, raw, expansions);
    print_fs_paths(&mut out, "suppress_save_prompt", &p.filesystem.suppress_save_prompt, raw, expansions);
    add_fact(&mut out, p.filesystem.bypass_protection.len() > 0, "    ", Style::Yellow, "bypass_protection", ": ", Style::Plain, bypass.as_str());
    out
}

pub open spec fn has_network(p: Profile) -> bool {
    let net = p.network;
    net.block || net.network_profile is Some || net.allow_domain@.len() > 0
        || net.credential_names().len() > 0 || net.open_port@.len() > 0 || net.listen_port@.len()
        > 0 || net.upstream_proxy is Some || net.upstream_bypass@.len() > 0
}

fn shows_network(p: &Profile) -> (r: bool)
    ensures
        r == has_network(*p),
{
    let net = &p.network;
    net.block || net.network_profile.is_some() || net.allow_domain.len() > 0
        || net.resolved_credentials().len() > 0 || net.open_port.len() > 0 || net.listen_port.len()
        > 0 || net.upstream_proxy.is_some() || net.upstream_bypass.len() > 0
}

pub open spec fn blocked_lines(block: bool) -> Seq<LineView> {
    if block {
        seq![seq![(Style::Plain, "    "@), (Style::Red, "network blocked"@)]]
    } else {
        Seq::empty()
    }
}

fn add_blocked(out: &mut Report, block: bool)
    ensures
        final(out)@ == old(out)@ + blocked_lines(block),
{
    let ghost before = out@;
    if block {
        out.line2(Style::Plain, "    ", Style::Red, "network blocked");
    }
    assert(out@ =~= before + blocked_lines(block));
}

/// What a profile says of the network.
pub open spec fn network_lines(p: Profile) -> Seq<LineView> {
    Seq::<LineView>::empty()
        + heading(has_network(p), Style::SubtextBold, "Network:"@)
        + blocked_lines(p.network.block)
        + fact(p.network.network_profile is Some, "    "@, Style::Subtext, "network_profile"@, ": "@, Style::Text, text_of(opt_view(p.network.network_profile)))
        + fact(p.network.allow_domain@.len() > 0, "    "@, Style::Subtext, "allow_domain"@, ": "@, Style::Plain, join(views(p.network.allow_domain@), ", "@))
        + fact(p.network.credential_names().len() > 0, "    "@, Style::Subtext, "credentials"@, ": "@, Style::Plain, join(p.network.credential_names(), ", "@))
        + fact(p.network.open_port@.len() > 0, "    "@, Style::Subtext, "open_port"@, ": "@, Style::Plain, join(port_texts(p.network.open_port@), ", "@))
        + fact(p.network.listen_port@.len() > 0, "    "@, Style::Subtext, "listen_port"@, ": "@, Style::Plain, join(port_texts(p.network.listen_port@), ", "@))
        + fact(p.network.upstream_proxy is Some, "    "@, Style::Subtext, "upstream_proxy"@, ": "@, Style::Text, text_of(opt_view(p.network.upstream_proxy)))
        + fact(p.network.upstream_bypass@.len() > 0, "    "@, Style::Subtext, "upstream_bypass"@, ": "@, Style::Plain, join(views(p.network.upstream_bypass@), ", "@))
}

fn network_report(p: &Profile) -> (out: Report)
    ensures
        out@ == network_lines(*p),
{
    let domains = join_strings(&p.network.allow_domain, ", ");
    let names = p.network.resolved_credentials();
    let credentials = join_strings(&names, ", ");
    let open = join_strings(&port_strings(&p.network.open_port), ", ");
    let listen = join_strings(&port_strings(&p.network.listen_port), ", ");
    let bypass = join_strings(&p.network.upstream_bypass, ", ");
    let mut out = Report::new();
    add_heading(&mut out, shows_network(p), Style::SubtextBold, "Network:");
    add_blocked(&mut out, p.network.block);
    add_fact(&mut out, p.network.network_profile.is_some(), "    ", Style::Subtext, "network_profile", ": ", Style::Text, str_of(&p.network.network_profile));
    add_fact(&mut out, p.network.allow_domain.len() > 0, "    ", Style::Subtext, "allow_domain", ": ", Style::Plain, domains.as_str());
    add_fact(&mut out, names.len() > 0, "    ", Style::Subtext, "credentials", ": ", Style::Plain, credentials.as_str());
    add_fact(&mut out, p.network.open_port.len() > 0, "    ", Style::Subtext, "open_port", ": ", Style::Plain, open.as_str());
    add_fact(&mut out, p.network.listen_port.len() > 0, "    ", Style::Subtext, "listen_port", ": ", Style::Plain, listen.as_str());
    add_fact(&mut out, p.network.upstream_proxy.is_some(), "    ", Style::Subtext, "upstream_proxy", ": ", Style::Text, str_of(&p.network.upstream_proxy));
    add_fact(&mut out, p.network.upstream_bypass.len() > 0, "    ", Style::Subtext, "upstream_bypass", ": ", Style::Plain, bypass.as_str());
    out
}

pub open spec fn workdir_lines(access: WorkdirAccess) -> Seq<LineView> {
    if access == WorkdirAccess::NoAccess {
        Seq::empty()
    } else {
        seq![
            blank_line(),
            seq![
                (Style::Plain, "  "@),
                (Style::SubtextBold, "Workdir access:"@),
                (Style::Plain, "  "@),
                (Style::Plain, access.label_text()),
            ],
        ]
    }
}

fn add_workdir(out: &mut Report, access: WorkdirAccess)
    ensures
        final(out)@ == old(out)@ + workdir_lines(access),
{
    let ghost before = out@;
    if access != WorkdirAccess::NoAccess {
        out.blank();
        out.line4(
            Style::Plain,
            "  ",
            Style::SubtextBold,
            "Workdir access:",
            Style::Plain,
            "  ",
            Style::Plain,
            access.label(),
        );
    }
    assert(out@ =~= before + workdir_lines(access));
}

/// One line for each glob, marked as such.
pub open spec fn glob_lines(globs: Seq<Seq<char>>) -> Seq<LineView> {
    globs.map_values(
        |g: Seq<char>|
            seq![
                (Style::Plain, "    "@),
                (Style::Overlay, "glob:"@),
                (Style::Plain, " "@),
                (Style::Text, g),
            ],
    )
}

fn add_globs(out: &mut Report, globs: &Vec<String>)
    ensures
        final(out)@ == old(out)@ + glob_lines(views(globs@)),
{
    let ghost all = glob_lines(views(globs@));
    let ghost start = out@;
    let mut i: usize = 0;
    assert(start + all.take(0) =~= start);
    while i < globs.len()
        invariant
            i <= globs@.len(),
            all == glob_lines(views(globs@)),
            out@ == start + all.take(i as int),
        decreases globs@.len() - i,
    {
        out.line4(
            Style::Plain,
            "    ",
            Style::Overlay,
            "glob:",
            Style::Plain,
            " ",
            Style::Text,
            globs[i].as_str(),
        );
        i += 1;
        assert(all.take(i as int) =~= all.take(i - 1).push(all[i - 1]));
        assert(out@ =~= start + all.take(i as int));
    }
    assert(all.take(i as int) =~= all);
}

pub open spec fn open_url_lines(p: Profile) -> Seq<LineView> {
    match p.open_urls {
        Some(urls) => heading(true, Style::SubtextBold, "Open URLs:"@) + (if urls.allow_localhost {
            seq![seq![(Style::Plain, "    "@), (Style::Text, "localhost allowed"@)]]
        } else {
            Seq::empty()
        }) + text_lines("    "@, Style::Text, views(urls.allow_origins@)),
        None => Seq::empty(),
    }
}

fn add_open_urls(out: &mut Report, p: &Profile)
    ensures
        final(out)@ == old(out)@ + open_url_lines(*p),
{
    let ghost before = out@;
    if let Some(urls) = &p.open_urls {
        add_heading(out, true, Style::SubtextBold, "Open URLs:");
        if urls.allow_localhost {
            out.line2(Style::Plain, "    ", Style::Text, "localhost allowed");
        }
        out.texts("    ", Style::Text, &urls.allow_origins);
    }
    assert(out@ =~= before + open_url_lines(*p));
}

/// The working directory, what snapshots leave out, what may be opened, and raw rules.
pub open spec fn closing_lines(p: Profile) -> Seq<LineView> {
    Seq::<LineView>::empty()
        + workdir_lines(p.workdir.access)
        + heading(p.rollback.exclude_patterns@.len() > 0 || p.rollback.exclude_globs@.len() > 0, Style::SubtextBold, "Rollback exclusions:"@)
        + text_lines("    "@, Style::Text, views(p.rollback.exclude_patterns@))
        + glob_lines(views(p.rollback.exclude_globs@))
        + open_url_lines(p)
        + listing(Style::YellowBold, "Raw Seatbelt rules (unsafe_macos_seatbelt_rules):"@, Style::Text, views(p.unsafe_macos_seatbelt_rules@))
}

fn closing_report(p: &Profile) -> (out: Report)
    ensures
        out@ == closing_lines(*p),
{
    let mut out = Report::new();
    add_workdir(&mut out, p.workdir.access);
    add_heading(&mut out, p.rollback.exclude_patterns.len() > 0 || p.rollback.exclude_globs.len() > 0, Style::SubtextBold, "Rollback exclusions:");
    out.texts("    ", Style::Text, &p.rollback.exclude_patterns);
    add_globs(&mut out, &p.rollback.exclude_globs);
    add_open_urls(&mut out, p);
    add_listing(&mut out, Style::YellowBold, "Raw Seatbelt rules (unsafe_macos_seatbelt_rules):", Style::Text, &p.unsafe_macos_seatbelt_rules);
    out
}

pub open spec fn show_lines(
    name: Seq<char>,
    extends: Option<Vec<String>>,
    p: Profile,
    raw: bool,
    expansions: Seq<(String, String)>,
) -> Seq<LineView> {
    seq![
        seq![
            (Style::Brand, "nono profile"@),
            (Style::Plain, ": profile '"@),
            (Style::TextBold, name),
            (Style::Plain, "'"@),
        ],
    ] + header_lines(p, extends) + filesystem_lines(p, raw, expansions) + network_lines(p)
        + closing_lines(p)
}

/// Shows a profile for people. `extends` names the profiles that it is written to build on;
/// `expansions` holds what path templates expand to, as far as they can be expanded.
pub fn cmd_show(
    name: &str,
    extends: &Option<Vec<String>>,
    p: &Profile,
    raw: bool,
    expansions: &Vec<(String, String)>,
) -> (out: Report)
    ensures
        out@ == show_lines(name@, *extends, *p, raw, expansions@),
{
    let mut out = Report::new();
    out.line4(
        Style::Brand,
        "nono profile",
        Style::Plain,
        ": profile '",
        Style::TextBold,
        name,
        Style::Plain,
        "'",
    );
    out.extend(header_report(p, extends));
    out.extend(filesystem_report(p, raw, expansions));
    out.extend(network_report(p));
    out.extend(closing_report(p));
    assert(out@ =~= show_lines(name@, *extends, *p, raw, expansions@));
    out
}

// ---------------------------------------------------------------------------
// For programs
// ---------------------------------------------------------------------------

/// The process-level settings; a mode that is not set is left out.
pub open spec fn security_json(p: Profile) -> JsonView {
    JsonView::Object(
        Seq::<(Seq<char>, JsonView)>::empty()
            + field_if(p.security.signal_mode is Some, "signal_mode"@, JsonView::Text(signal_key(p.security.signal_mode)))
            + field_if(p.security.process_info_mode is Some, "process_info_mode"@, JsonView::Text(process_info_key(p.security.process_info_mode)))
            + field_if(p.security.ipc_mode is Some, "ipc_mode"@, JsonView::Text(ipc_key(p.security.ipc_mode)))
            + field("capability_elevation"@, opt_bool(p.security.capability_elevation))
            + field_if(p.security.wsl2_proxy_policy is Some, "wsl2_proxy_policy"@, JsonView::Text(text_of(setting_key(p.security.wsl2_proxy_policy)))),
    )
}

fn security_to_json(p: &Profile) -> (r: Json)
    ensures
        r@ == security_json(*p),
{
    let mut o = no_members();
    put_field_if(&mut o, p.security.signal_mode.is_some(), "signal_mode", json_text(signal_key_str(p.security.signal_mode)));
    put_field_if(&mut o, p.security.process_info_mode.is_some(), "process_info_mode", json_text(process_info_key_str(p.security.process_info_mode)));
    put_field_if(&mut o, p.security.ipc_mode.is_some(), "ipc_mode", json_text(ipc_key_str(p.security.ipc_mode)));
    put_field(&mut o, "capability_elevation", json_opt_bool(p.security.capability_elevation));
    put_field_if(&mut o, p.security.wsl2_proxy_policy.is_some(), "wsl2_proxy_policy", json_text(setting_key_str(&p.security.wsl2_proxy_policy)));
    json_object(o)
}

/// The settings for Linux.
pub open spec fn linux_json(p: Profile) -> JsonView {
    JsonView::Object(
        Seq::<(Seq<char>, JsonView)>::empty()
            + field("af_unix_mediation"@, JsonView::Text(text_of(setting_key(p.linux.af_unix_mediation)))),
    )
}

fn linux_to_json(p: &Profile) -> (r: Json)
    ensures
        r@ == linux_json(*p),
{
    let mut o = no_members();
    put_field(&mut o, "af_unix_mediation", json_text(setting_key_str(&p.linux.af_unix_mediation)));
    json_object(o)
}

/// The paths.
pub open spec fn paths_json(p: Profile) -> JsonView {
    JsonView::Object(
        Seq::<(Seq<char>, JsonView)>::empty()
            + field("allow"@, text_array(views(p.filesystem.allow@)))
            + field("read"@, text_array(views(p.filesystem.read@)))
            + field("write"@, text_array(views(p.filesystem.write@)))
            + field("allow_file"@, text_array(views(p.filesystem.allow_file@)))
            + field("read_file"@, text_array(views(p.filesystem.read_file@)))
            + field("write_file"@, text_array(views(p.filesystem.write_file@)))
            + field("deny"@, text_array(views(p.filesystem.deny@)))
            + field("bypass_protection"@, text_array(views(p.filesystem.bypass_protection@)))
            + field("suppress_save_prompt"@, text_array(views(p.filesystem.suppress_save_prompt@))),
    )
}

fn paths_to_json(p: &Profile) -> (r: Json)
    ensures
        r@ == paths_json(*p),
{
    let mut o = no_members();
    put_field(&mut o, "allow", json_texts(&p.filesystem.allow));
    put_field(&mut o, "read", json_texts(&p.filesystem.read));
    put_field(&mut o, "write", json_texts(&p.filesystem.write));
    put_field(&mut o, "allow_file", json_texts(&p.filesystem.allow_file));
    put_field(&mut o, "read_file", json_texts(&p.filesystem.read_file));
    put_field(&mut o, "write_file", json_texts(&p.filesystem.write_file));
    put_field(&mut o, "deny", json_texts(&p.filesystem.deny));
    put_field(&mut o, "bypass_protection", json_texts(&p.filesystem.bypass_protection));
    put_field(&mut o, "suppress_save_prompt", json_texts(&p.filesystem.suppress_save_prompt));
    json_object(o)
}

/// The groups.
pub open spec fn groups_json(p: Profile) -> JsonView {
    JsonView::Object(
        Seq::<(Seq<char>, JsonView)>::empty()
            + field("include"@, text_array(views(p.groups.included@)))
            + field("exclude"@, text_array(views(p.groups.excluded@))),
    )
}

fn groups_to_json(p: &Profile) -> (r: Json)
    ensures
        r@ == groups_json(*p),
{
    let mut o = no_members();
    put_field(&mut o, "include", json_texts(&p.groups.included));
    put_field(&mut o, "exclude", json_texts(&p.groups.excluded));
    json_object(o)
}

/// The commands.
pub open spec fn commands_json(p: Profile) -> JsonView {
    JsonView::Object(
        Seq::<(Seq<char>, JsonView)>::empty()
            + field("allow"@, text_array(views(p.commands.allow@)))
            + field("deny"@, text_array(views(p.commands.deny@))),
    )
}

fn commands_to_json(p: &Profile) -> (r: Json)
    ensures
        r@ == commands_json(*p),
{
    let mut o = no_members();
    put_field(&mut o, "allow", json_texts(&p.commands.allow));
    put_field(&mut o, "deny", json_texts(&p.commands.deny));
    json_object(o)
}

/// The network.
pub open spec fn network_json(p: Profile) -> JsonView {
    JsonView::Object(
        Seq::<(Seq<char>, JsonView)>::empty()
            + field("block"@, JsonView::Bool(p.network.block))
            + field("network_profile"@, opt_text(opt_view(p.network.network_profile)))
            + field("allow_domain"@, text_array(views(p.network.allow_domain@)))
            + field("credentials"@, text_array(p.network.credential_names()))
            + field("open_port"@, port_array(p.network.open_port@))
            + field("listen_port"@, port_array(p.network.listen_port@))
            + field("upstream_proxy"@, opt_text(opt_view(p.network.upstream_proxy)))
            + field("upstream_bypass"@, text_array(views(p.network.upstream_bypass@))),
    )
}

fn network_to_json(p: &Profile) -> (r: Json)
    ensures
        r@ == network_json(*p),
{
    let mut o = no_members();
    put_field(&mut o, "block", Json::Bool(p.network.block));
    put_field(&mut o, "network_profile", json_opt_text(&p.network.network_profile));
    put_field(&mut o, "allow_domain", json_texts(&p.network.allow_domain));
    put_field(&mut o, "credentials", json_texts(&p.network.resolved_credentials()));
    put_field(&mut o, "open_port", json_ports(&p.network.open_port));
    put_field(&mut o, "listen_port", json_ports(&p.network.listen_port));
    put_field(&mut o, "upstream_proxy", json_opt_text(&p.network.upstream_proxy));
    put_field(&mut o, "upstream_bypass", json_texts(&p.network.upstream_bypass));
    json_object(o)
}

/// The working directory.
pub open spec fn workdir_json(p: Profile) -> JsonView {
    JsonView::Object(
        Seq::<(Seq<char>, JsonView)>::empty()
            + field("access"@, JsonView::Text(p.workdir.access.key_text())),
    )
}

fn workdir_to_json(p: &Profile) -> (r: Json)
    ensures
        r@ == workdir_json(*p),
{
    let mut o = no_members();
    put_field(&mut o, "access", json_text(p.workdir.access.key()));
    json_object(o)
}

/// What snapshots leave out.
pub open spec fn rollback_json(p: Profile) -> JsonView {
    JsonView::Object(
        Seq::<(Seq<char>, JsonView)>::empty()
            + field("exclude_patterns"@, text_array(views(p.rollback.exclude_patterns@)))
            + field("exclude_globs"@, text_array(views(p.rollback.exclude_globs@))),
    )
}

fn rollback_to_json(p: &Profile) -> (r: Json)
    ensures
        r@ == rollback_json(*p),
{
    let mut o = no_members();
    put_field(&mut o, "exclude_patterns", json_texts(&p.rollback.exclude_patterns));
    put_field(&mut o, "exclude_globs", json_texts(&p.rollback.exclude_globs));
    json_object(o)
}

/// One hook.
pub open spec fn hook_json(h: HookConfig) -> JsonView {
    JsonView::Object(
        Seq::<(Seq<char>, JsonView)>::empty()
            + field("event"@, JsonView::Text(h.event@))
            + field("matcher"@, JsonView::Text(h.matcher@))
            + field("script"@, JsonView::Text(h.script@)),
    )
}

fn hook_to_json(h: &HookConfig) -> (r: Json)
    ensures
        r@ == hook_json(*h),
{
    let mut o = no_members();
    put_field(&mut o, "event", json_text(h.event.as_str()));
    put_field(&mut o, "matcher", json_text(h.matcher.as_str()));
    put_field(&mut o, "script", json_text(h.script.as_str()));
    json_object(o)
}

/// The hooks by name.
pub open spec fn hooks_object(hooks: Seq<(String, HookConfig)>) -> JsonView {
    JsonView::Object(hooks.map_values(|e: (String, HookConfig)| (e.0@, hook_json(e.1))))
}

fn hooks_to_json(hooks: &Vec<(String, HookConfig)>) -> (r: Json)
    ensures
        r@ == hooks_object(hooks@),
{
    let ghost all = hooks@.map_values(|e: (String, HookConfig)| (e.0@, hook_json(e.1)));
    let mut o = no_members();
    let mut i: usize = 0;
    assert(members(o@) =~= all.take(0));
    while i < hooks.len()
        invariant
            i <= hooks@.len(),
            all == hooks@.map_values(|e: (String, HookConfig)| (e.0@, hook_json(e.1))),
            members(o@) == all.take(i as int),
        decreases hooks@.len() - i,
    {
        put_field(&mut o, hooks[i].0.as_str(), hook_to_json(&hooks[i].1));
        i += 1;
        assert(all.take(i as int) =~= all.take(i - 1) + field(
            hooks@[i - 1].0@,
            hook_json(hooks@[i - 1].1),
        ));
    }
    assert(all.take(i as int) =~= all);
    json_object(o)
}

pub open spec fn urls_json(p: Profile) -> JsonView {
    match p.open_urls {
        Some(u) => JsonView::Object(
            Seq::<(Seq<char>, JsonView)>::empty() + field(
                "allow_origins"@,
                text_array(views(u.allow_origins@)),
            ) + field("allow_localhost"@, JsonView::Bool(u.allow_localhost)),
        ),
        None => JsonView::Null,
    }
}

fn urls_to_json(p: &Profile) -> (r: Json)
    ensures
        r@ == urls_json(*p),
{
    match &p.open_urls {
        Some(u) => {
            let mut o = no_members();
            put_field(&mut o, "allow_origins", json_texts(&u.allow_origins));
            put_field(&mut o, "allow_localhost", Json::Bool(u.allow_localhost));
            json_object(o)
        },
        None => Json::Null,
    }
}

pub open spec fn extends_json(extends: Option<Vec<String>>) -> JsonView {
    match extends {
        Some(v) => text_array(views(v@)),
        None => JsonView::Null,
    }
}

fn extends_to_json(extends: &Option<Vec<String>>) -> (r: Json)
    ensures
        r@ == extends_json(*extends),
{
    match extends {
        Some(v) => json_texts(v),
        None => Json::Null,
    }
}

/// A profile for programs. The name is the one the profile gives itself.
pub open spec fn profile_json(p: Profile, extends: Option<Vec<String>>) -> JsonView {
    JsonView::Object(
        Seq::<(Seq<char>, JsonView)>::empty()
            + field("name"@, JsonView::Text(p.meta.name@))
            + field("description"@, JsonView::Text(text_of(opt_view(p.meta.description))))
            + field("extends"@, extends_json(extends))
            + field("security"@, security_json(p))
            + field_if(p.linux.af_unix_mediation is Some, "linux"@, linux_json(p))
            + field("filesystem"@, paths_json(p))
            + field_if(p.groups.included@.len() > 0 || p.groups.excluded@.len() > 0, "groups"@, groups_json(p))
            + field_if(p.commands.allow@.len() > 0 || p.commands.deny@.len() > 0, "commands"@, commands_json(p))
            + field("network"@, network_json(p))
            + field("workdir"@, workdir_json(p))
            + field("rollback"@, rollback_json(p))
            + field_if(p.env_credentials.mappings@.len() > 0, "env_credentials"@, mappings_json(p.env_credentials.mappings@))
            + field_if(p.hooks.hooks@.len() > 0, "hooks"@, hooks_object(p.hooks.hooks@))
            + field_if(p.open_urls is Some, "open_urls"@, urls_json(p))
            + field_if(p.allow_launch_services is Some, "allow_launch_services"@, opt_bool(p.allow_launch_services))
            + field_if(p.allow_gpu is Some, "allow_gpu"@, opt_bool(p.allow_gpu))
            + field_if(p.unsafe_macos_seatbelt_rules@.len() > 0, "unsafe_macos_seatbelt_rules"@, text_array(views(p.unsafe_macos_seatbelt_rules@))),
    )
}

/// Shows a profile for programs.
pub fn profile_to_json(p: &Profile, extends: &Option<Vec<String>>) -> (r: Json)
    ensures
        r@ == profile_json(*p, *extends),
{
    let mut o = no_members();
    put_field(&mut o, "name", json_text(p.meta.name.as_str()));
    put_field(&mut o, "description", json_text(str_of(&p.meta.description)));
    put_field(&mut o, "extends", extends_to_json(extends));
    put_field(&mut o, "security", security_to_json(p));
    put_field_if(&mut o, p.linux.af_unix_mediation.is_some(), "linux", linux_to_json(p));
    put_field(&mut o, "filesystem", paths_to_json(p));
    put_field_if(&mut o, p.groups.included.len() > 0 || p.groups.excluded.len() > 0, "groups", groups_to_json(p));
    put_field_if(&mut o, p.commands.allow.len() > 0 || p.commands.deny.len() > 0, "commands", commands_to_json(p));
    put_field(&mut o, "network", network_to_json(p));
    put_field(&mut o, "workdir", workdir_to_json(p));
    put_field(&mut o, "rollback", rollback_to_json(p));
    put_field_if(&mut o, p.env_credentials.mappings.len() > 0, "env_credentials", mappings_to_json(&p.env_credentials.mappings));
    put_field_if(&mut o, p.hooks.hooks.len() > 0, "hooks", hooks_to_json(&p.hooks.hooks));
    put_field_if(&mut o, p.open_urls.is_some(), "open_urls", urls_to_json(p));
    put_field_if(&mut o, p.allow_launch_services.is_some(), "allow_launch_services", json_opt_bool(p.allow_launch_services));
    put_field_if(&mut o, p.allow_gpu.is_some(), "allow_gpu", json_opt_bool(p.allow_gpu));
    put_field_if(&mut o, p.unsafe_macos_seatbelt_rules.len() > 0, "unsafe_macos_seatbelt_rules", json_texts(&p.unsafe_macos_seatbelt_rules));
    json_object(o)
}

} // verus!
