//! Comparing two profiles.

use crate::assoc::{find_key, has_key, key_list, keys, lemma_key_index, lookup};
use crate::profile::{
    credential_eq, setting_label, CredentialView, CustomCredentialDef, HookConfig, Profile, Setting,
};
use crate::report::{blank_line, marked_lines, LineView, Report, Style};
use crate::text::{
    bool_str, bool_text, clone_strings, concat2, copy_str, debug_opt, decimal,
    difference, lemma_is_sort_unique, lemma_sort_unique, opt_str_eq, opt_to_debug, opt_view, sort_unique,
    sorted_difference, sorted_set, str_eq, usize_to_string, views, lemma_filter_none, lemma_filter_step, lemma_no_difference, push_copy,
};
use vstd::prelude::*;

verus! {

// ---------------------------------------------------------------------------
// Lines
// ---------------------------------------------------------------------------

pub open spec fn title_line(title: Seq<char>) -> LineView {
    seq![(Style::Plain, "  "@), (Style::SubtextBold, title), (Style::Plain, ":"@)]
}

/// A section with its title; nothing where it is empty.
pub open spec fn section(title: Seq<char>, body: Seq<LineView>) -> Seq<LineView> {
    if body.len() == 0 {
        Seq::empty()
    } else {
        seq![blank_line(), title_line(title)] + body
    }
}

/// A setting that one side has.
pub open spec fn signed_line(
    sign: Seq<char>,
    style: Style,
    label: Seq<char>,
    value: Seq<char>,
) -> LineView {
    seq![
        (Style::Plain, "    "@),
        (style, sign),
        (Style::Plain, " "@),
        (Style::Subtext, label),
        (Style::Plain, " "@),
        (style, value),
    ]
}

pub open spec fn signed_lines(
    sign: Seq<char>,
    style: Style,
    label: Seq<char>,
    values: Seq<Seq<char>>,
) -> Seq<LineView> {
    values.map_values(|v: Seq<char>| signed_line(sign, style, label, v))
}

/// What only the first list has, then what only the second has, each in order.
pub open spec fn list_lines(label: Seq<char>, a: Seq<Seq<char>>, b: Seq<Seq<char>>) -> Seq<
    LineView,
> {
    signed_lines("-"@, Style::Red, label, difference(a, b)) + signed_lines(
        "+"@,
        Style::Green,
        label,
        difference(b, a),
    )
}

/// As [`list_lines`], without a label.
pub open spec fn set_lines(a: Seq<Seq<char>>, b: Seq<Seq<char>>) -> Seq<LineView> {
    marked_lines("    "@, "-"@, Style::Red, difference(a, b)) + marked_lines(
        "    "@,
        "+"@,
        Style::Green,
        difference(b, a),
    )
}

pub open spec fn value_line(style: Style, text: Seq<char>) -> LineView {
    seq![(Style::Plain, "    "@), (style, text)]
}

/// A setting that may be absent, where the sides differ.
pub open spec fn scalar_lines(
    label: Seq<char>,
    a: Option<Seq<char>>,
    b: Option<Seq<char>>,
) -> Seq<LineView> {
    if a == b {
        Seq::empty()
    } else {
        seq![blank_line(), title_line(label)] + (match a {
            Some(old) => seq![value_line(Style::Red, "- "@ + old)],
            None => Seq::empty(),
        }) + (match b {
            Some(new) => seq![value_line(Style::Green, "+ "@ + new)],
            None => Seq::empty(),
        })
    }
}

fn add_section(out: &mut Report, title: &str, body: Report)
    ensures
        final(out)@ == old(out)@ + section(title@, body@),
{
    if !body.is_empty() {
        out.blank();
        out.line3(Style::Plain, "  ", Style::SubtextBold, title, Style::Plain, ":");
        out.extend(body);
        assert(out@ =~= old(out)@ + section(title@, body@));
    } else {
        assert(out@ =~= old(out)@ + section(title@, body@));
    }
}

fn add_signed(out: &mut Report, sign: &str, style: Style, label: &str, values: &Vec<String>)
    ensures
        final(out)@ == old(out)@ + signed_lines(sign@, style, label@, views(values@)),
{
    let ghost start = out@;
    let ghost all = signed_lines(sign@, style, label@, views(values@));
    let mut i: usize = 0;
    assert(start + all.take(0) =~= start);
    while i < values.len()
        invariant
            i <= values@.len(),
            all == signed_lines(sign@, style, label@, views(values@)),
            out@ == start + all.take(i as int),
        decreases values@.len() - i,
    {
        out.line6(
            Style::Plain,
            "    ",
            style,
            sign,
            Style::Plain,
            " ",
            Style::Subtext,
            label,
            Style::Plain,
            " ",
            style,
            values[i].as_str(),
        );
        i += 1;
        assert(all.take(i as int) =~= all.take(i - 1).push(all[i - 1]));
        assert(out@ =~= start + all.take(i as int));
    }
    assert(all.take(i as int) =~= all);
}

/// Adds the lines for two lists of settings.
fn diff_list(out: &mut Report, label: &str, a: &Vec<String>, b: &Vec<String>)
    ensures
        final(out)@ == old(out)@ + list_lines(label@, views(a@), views(b@)),
{
    let removed = sorted_difference(a, b);
    let added = sorted_difference(b, a);
    let ghost start = out@;
    add_signed(out, "-", Style::Red, label, &removed);
    add_signed(out, "+", Style::Green, label, &added);
    assert(out@ =~= start + list_lines(label@, views(a@), views(b@)));
}

fn diff_set(out: &mut Report, a: &Vec<String>, b: &Vec<String>)
    ensures
        final(out)@ == old(out)@ + set_lines(views(a@), views(b@)),
{
    let removed = sorted_difference(a, b);
    let added = sorted_difference(b, a);
    let ghost start = out@;
    out.marked("    ", "-", Style::Red, &removed);
    out.marked("    ", "+", Style::Green, &added);
    assert(out@ =~= start + set_lines(views(a@), views(b@)));
}

fn diff_scalar_option(out: &mut Report, label: &str, a: &Option<String>, b: &Option<String>)
    ensures
        final(out)@ == old(out)@ + scalar_lines(label@, opt_view(*a), opt_view(*b)),
{
    let ghost start = out@;
    if !opt_str_eq(a, b) {
        out.blank();
        out.line3(Style::Plain, "  ", Style::SubtextBold, label, Style::Plain, ":");
        if let Some(old_value) = a {
            let s = concat2("- ", old_value.as_str());
            out.line2(Style::Plain, "    ", Style::Red, s.as_str());
        }
        if let Some(new_value) = b {
            let s = concat2("+ ", new_value.as_str());
            out.line2(Style::Plain, "    ", Style::Green, s.as_str());
        }
    }
    assert(out@ =~= start + scalar_lines(label@, opt_view(*a), opt_view(*b)));
}

pub open spec fn opt_bool_text(b: Option<bool>) -> Option<Seq<char>> {
    match b {
        Some(v) => Some(bool_text(v)),
        None => None,
    }
}

fn opt_bool_string(b: Option<bool>) -> (r: Option<String>)
    ensures
        opt_view(r) == opt_bool_text(b),
{
    match b {
        Some(v) => Some(copy_str(bool_str(v))),
        None => None,
    }
}

fn setting_name(s: &Option<Setting>) -> (r: Option<String>)
    ensures
        opt_view(r) == setting_label(*s),
{
    match s {
        Some(x) => Some(copy_str(x.label.as_str())),
        None => None,
    }
}

/// Ports as decimal numbers.
pub open spec fn port_texts(ports: Seq<u16>) -> Seq<Seq<char>> {
    ports.map_values(|p: u16| decimal(p as nat))
}

pub fn port_strings(ports: &Vec<u16>) -> (r: Vec<String>)
    ensures
        views(r@) == port_texts(ports@),
{
    let mut r: Vec<String> = Vec::new();
    let mut i: usize = 0;
    while i < ports.len()
        invariant
            i <= ports@.len(),
            r@.len() == i,
            forall|k: int| 0 <= k < i ==> (#[trigger] r@[k])@ == decimal(ports@[k] as nat),
        decreases ports@.len() - i,
    {
        r.push(usize_to_string(ports[i] as usize));
        i += 1;
    }
    assert(views(r@) =~= port_texts(ports@));
    r
}

// ---------------------------------------------------------------------------
// The sections
// ---------------------------------------------------------------------------

pub open spec fn filesystem_lines(p1: Profile, p2: Profile) -> Seq<LineView> {
    let a = p1.filesystem;
    let b = p2.filesystem;
    Seq::<LineView>::empty() + list_lines("allow"@, views(a.allow@), views(b.allow@)) + list_lines(
        "read"@,
        views(a.read@),
        views(b.read@),
    ) + list_lines("write"@, views(a.write@), views(b.write@)) + list_lines(
        "allow_file"@,
        views(a.allow_file@),
        views(b.allow_file@),
    ) + list_lines("read_file"@, views(a.read_file@), views(b.read_file@)) + list_lines(
        "write_file"@,
        views(a.write_file@),
        views(b.write_file@),
    )
}

fn filesystem_report(p1: &Profile, p2: &Profile) -> (r: Report)
    ensures
        r@ == filesystem_lines(*p1, *p2),
{
    let mut out = Report::new();
    diff_list(&mut out, "allow", &p1.filesystem.allow, &p2.filesystem.allow);
    diff_list(&mut out, "read", &p1.filesystem.read, &p2.filesystem.read);
    diff_list(&mut out, "write", &p1.filesystem.write, &p2.filesystem.write);
    diff_list(&mut out, "allow_file", &p1.filesystem.allow_file, &p2.filesystem.allow_file);
    diff_list(&mut out, "read_file", &p1.filesystem.read_file, &p2.filesystem.read_file);
    diff_list(&mut out, "write_file", &p1.filesystem.write_file, &p2.filesystem.write_file);
    out
}

pub open spec fn composition_lines(p1: Profile, p2: Profile) -> Seq<LineView> {
    Seq::<LineView>::empty() + list_lines(
        "groups.exclude"@,
        views(p1.groups.excluded@),
        views(p2.groups.excluded@),
    ) + list_lines("filesystem.deny"@, views(p1.filesystem.deny@), views(p2.filesystem.deny@))
        + list_lines(
        "filesystem.bypass_protection"@,
        views(p1.filesystem.bypass_protection@),
        views(p2.filesystem.bypass_protection@),
    ) + list_lines(
        "filesystem.suppress_save_prompt"@,
        views(p1.filesystem.suppress_save_prompt@),
        views(p2.filesystem.suppress_save_prompt@),
    ) + list_lines("commands.deny"@, views(p1.commands.deny@), views(p2.commands.deny@))
}

fn composition_report(p1: &Profile, p2: &Profile) -> (r: Report)
    ensures
        r@ == composition_lines(*p1, *p2),
{
    let mut out = Report::new();
    diff_list(&mut out, "groups.exclude", &p1.groups.excluded, &p2.groups.excluded);
    diff_list(&mut out, "filesystem.deny", &p1.filesystem.deny, &p2.filesystem.deny);
    diff_list(
        &mut out,
        "filesystem.bypass_protection",
        &p1.filesystem.bypass_protection,
        &p2.filesystem.bypass_protection,
    );
    diff_list(
        &mut out,
        "filesystem.suppress_save_prompt",
        &p1.filesystem.suppress_save_prompt,
        &p2.filesystem.suppress_save_prompt,
    );
    diff_list(&mut out, "commands.deny", &p1.commands.deny, &p2.commands.deny);
    out
}

pub open spec fn signal_text(m: Option<crate::profile::ProfileSignalMode>) -> Option<Seq<char>> {
    match m {
        Some(v) => Some(v.label_text()),
        None => None,
    }
}

fn signal_name(m: Option<crate::profile::ProfileSignalMode>) -> (r: Option<String>)
    ensures
        opt_view(r) == signal_text(m),
{
    match m {
        Some(v) => Some(copy_str(v.label())),
        None => None,
    }
}

pub open spec fn process_info_text(m: Option<crate::profile::ProfileProcessInfoMode>) -> Option<Seq<char>> {
    match m {
        Some(v) => Some(v.label_text()),
        None => None,
    }
}

fn process_info_name(m: Option<crate::profile::ProfileProcessInfoMode>) -> (r: Option<String>)
    ensures
        opt_view(r) == process_info_text(m),
{
    match m {
        Some(v) => Some(copy_str(v.label())),
        None => None,
    }
}

pub open spec fn ipc_text(m: Option<crate::profile::ProfileIpcMode>) -> Option<Seq<char>> {
    match m {
        Some(v) => Some(v.label_text()),
        None => None,
    }
}

fn ipc_name(m: Option<crate::profile::ProfileIpcMode>) -> (r: Option<String>)
    ensures
        opt_view(r) == ipc_text(m),
{
    match m {
        Some(v) => Some(copy_str(v.label())),
        None => None,
    }
}

pub open spec fn security_lines(p1: Profile, p2: Profile) -> Seq<LineView> {
    Seq::<LineView>::empty() + scalar_lines(
        "capability_elevation"@,
        opt_bool_text(p1.security.capability_elevation),
        opt_bool_text(p2.security.capability_elevation),
    ) + scalar_lines(
        "wsl2_proxy_policy"@,
        setting_label(p1.security.wsl2_proxy_policy),
        setting_label(p2.security.wsl2_proxy_policy),
    ) + scalar_lines(
        "linux.af_unix_mediation"@,
        setting_label(p1.linux.af_unix_mediation),
        setting_label(p2.linux.af_unix_mediation),
    ) + scalar_lines(
        "signal_mode"@,
        signal_text(p1.security.signal_mode),
        signal_text(p2.security.signal_mode),
    ) + scalar_lines(
        "process_info_mode"@,
        process_info_text(p1.security.process_info_mode),
        process_info_text(p2.security.process_info_mode),
    ) + scalar_lines("ipc_mode"@, ipc_text(p1.security.ipc_mode), ipc_text(p2.security.ipc_mode))
}

fn security_report(p1: &Profile, p2: &Profile) -> (r: Report)
    ensures
        r@ == security_lines(*p1, *p2),
{
    let mut out = Report::new();
    diff_scalar_option(
        &mut out,
        "capability_elevation",
        &opt_bool_string(p1.security.capability_elevation),
        &opt_bool_string(p2.security.capability_elevation),
    );
    diff_scalar_option(
        &mut out,
        "wsl2_proxy_policy",
        &setting_name(&p1.security.wsl2_proxy_policy),
        &setting_name(&p2.security.wsl2_proxy_policy),
    );
    diff_scalar_option(
        &mut out,
        "linux.af_unix_mediation",
        &setting_name(&p1.linux.af_unix_mediation),
        &setting_name(&p2.linux.af_unix_mediation),
    );
    diff_scalar_option(
        &mut out,
        "signal_mode",
        &signal_name(p1.security.signal_mode),
        &signal_name(p2.security.signal_mode),
    );
    diff_scalar_option(
        &mut out,
        "process_info_mode",
        &process_info_name(p1.security.process_info_mode),
        &process_info_name(p2.security.process_info_mode),
    );
    diff_scalar_option(
        &mut out,
        "ipc_mode",
        &ipc_name(p1.security.ipc_mode),
        &ipc_name(p2.security.ipc_mode),
    );
    out
}

/// The name of a network profile; empty without one.
pub open spec fn network_profile_text(p: Profile) -> Seq<char> {
    match p.network.network_profile {
        Some(n) => n@,
        None => Seq::empty(),
    }
}

/// A switch, where the sides differ.
pub open spec fn switch_lines(label: Seq<char>, a: bool, b: bool) -> Seq<LineView> {
    if a == b {
        Seq::empty()
    } else {
        seq![
            value_line(Style::Red, "- "@ + label + ": "@ + bool_text(a)),
            value_line(Style::Green, "+ "@ + label + ": "@ + bool_text(b)),
        ]
    }
}

fn add_switch(out: &mut Report, label: &str, a: bool, b: bool)
    ensures
        final(out)@ == old(out)@ + switch_lines(label@, a, b),
{
    let ghost start = out@;
    if a != b {
        let s = crate::text::concat4("- ", label, ": ", bool_str(a));
        out.line2(Style::Plain, "    ", Style::Red, s.as_str());
        let s = crate::text::concat4("+ ", label, ": ", bool_str(b));
        out.line2(Style::Plain, "    ", Style::Green, s.as_str());
    }
    assert(out@ =~= start + switch_lines(label@, a, b));
}

pub open spec fn network_profile_lines(a: Seq<char>, b: Seq<char>) -> Seq<LineView> {
    if a == b {
        Seq::empty()
    } else {
        (if a.len() > 0 {
            seq![value_line(Style::Red, "- network_profile: "@ + a)]
        } else {
            Seq::empty()
        }) + (if b.len() > 0 {
            seq![value_line(Style::Green, "+ network_profile: "@ + b)]
        } else {
            Seq::empty()
        })
    }
}

fn add_network_profile(out: &mut Report, p1: &Profile, p2: &Profile)
    ensures
        final(out)@ == old(out)@ + network_profile_lines(
            network_profile_text(*p1),
            network_profile_text(*p2),
        ),
{
    let ghost start = out@;
    let a = match &p1.network.network_profile {
        Some(n) => copy_str(n.as_str()),
        None => String::new(),
    };
    let b = match &p2.network.network_profile {
        Some(n) => copy_str(n.as_str()),
        None => String::new(),
    };
    if !str_eq(a.as_str(), b.as_str()) {
        if !a.as_str().is_empty() {
            let s = concat2("- network_profile: ", a.as_str());
            out.line2(Style::Plain, "    ", Style::Red, s.as_str());
        }
        if !b.as_str().is_empty() {
            let s = concat2("+ network_profile: ", b.as_str());
            out.line2(Style::Plain, "    ", Style::Green, s.as_str());
        }
    }
    assert(out@ =~= start + network_profile_lines(
        network_profile_text(*p1),
        network_profile_text(*p2),
    ));
}

pub open spec fn network_lines(p1: Profile, p2: Profile) -> Seq<LineView> {
    let a = p1.network;
    let b = p2.network;
    Seq::<LineView>::empty() + switch_lines("block"@, a.block, b.block) + network_profile_lines(
        network_profile_text(p1),
        network_profile_text(p2),
    ) + list_lines("allow_domain"@, views(a.allow_domain@), views(b.allow_domain@)) + list_lines(
        "credentials"@,
        a.credential_names(),
        b.credential_names(),
    ) + list_lines("upstream_bypass"@, views(a.upstream_bypass@), views(b.upstream_bypass@))
        + list_lines("open_port"@, port_texts(a.open_port@), port_texts(b.open_port@))
        + list_lines("listen_port"@, port_texts(a.listen_port@), port_texts(b.listen_port@))
}

fn network_report(p1: &Profile, p2: &Profile) -> (r: Report)
    ensures
        r@ == network_lines(*p1, *p2),
{
    let mut out = Report::new();
    add_switch(&mut out, "block", p1.network.block, p2.network.block);
    add_network_profile(&mut out, p1, p2);
    diff_list(&mut out, "allow_domain", &p1.network.allow_domain, &p2.network.allow_domain);
    diff_list(
        &mut out,
        "credentials",
        &p1.network.resolved_credentials(),
        &p2.network.resolved_credentials(),
    );
    diff_list(
        &mut out,
        "upstream_bypass",
        &p1.network.upstream_bypass,
        &p2.network.upstream_bypass,
    );
    diff_list(
        &mut out,
        "open_port",
        &port_strings(&p1.network.open_port),
        &port_strings(&p2.network.open_port),
    );
    diff_list(
        &mut out,
        "listen_port",
        &port_strings(&p1.network.listen_port),
        &port_strings(&p2.network.listen_port),
    );
    out
}

pub open spec fn workdir_lines(p1: Profile, p2: Profile) -> Seq<LineView> {
    if p1.workdir.access == p2.workdir.access {
        Seq::empty()
    } else {
        seq![
            value_line(Style::Red, "- access: "@ + p1.workdir.access.label_text()),
            value_line(Style::Green, "+ access: "@ + p2.workdir.access.label_text()),
        ]
    }
}

fn workdir_report(p1: &Profile, p2: &Profile) -> (r: Report)
    ensures
        r@ == workdir_lines(*p1, *p2),
{
    let mut out = Report::new();
    if p1.workdir.access != p2.workdir.access {
        let s = concat2("- access: ", p1.workdir.access.label());
        out.line2(Style::Plain, "    ", Style::Red, s.as_str());
        let s = concat2("+ access: ", p2.workdir.access.label());
        out.line2(Style::Plain, "    ", Style::Green, s.as_str());
    }
    assert(out@ =~= workdir_lines(*p1, *p2));
    out
}

pub open spec fn rollback_lines(p1: Profile, p2: Profile) -> Seq<LineView> {
    Seq::<LineView>::empty() + list_lines(
        "exclude_patterns"@,
        views(p1.rollback.exclude_patterns@),
        views(p2.rollback.exclude_patterns@),
    ) + list_lines(
        "exclude_globs"@,
        views(p1.rollback.exclude_globs@),
        views(p2.rollback.exclude_globs@),
    )
}

fn rollback_report(p1: &Profile, p2: &Profile) -> (r: Report)
    ensures
        r@ == rollback_lines(*p1, *p2),
{
    let mut out = Report::new();
    diff_list(
        &mut out,
        "exclude_patterns",
        &p1.rollback.exclude_patterns,
        &p2.rollback.exclude_patterns,
    );
    diff_list(&mut out, "exclude_globs", &p1.rollback.exclude_globs, &p2.rollback.exclude_globs);
    out
}

/// The origins that may be opened; none without such a section.
pub open spec fn origins(p: Profile) -> Seq<Seq<char>> {
    match p.open_urls {
        Some(u) => views(u.allow_origins@),
        None => Seq::empty(),
    }
}

pub open spec fn localhost_allowed(p: Profile) -> bool {
    match p.open_urls {
        Some(u) => u.allow_localhost,
        None => false,
    }
}

pub fn origin_list(p: &Profile) -> (r: Vec<String>)
    ensures
        views(r@) == origins(*p),
{
    match &p.open_urls {
        Some(u) => clone_strings(&u.allow_origins),
        None => {
            let r: Vec<String> = Vec::new();
            assert(views(r@) =~= Seq::<Seq<char>>::empty());
            r
        },
    }
}

pub fn allows_localhost(p: &Profile) -> (r: bool)
    ensures
        r == localhost_allowed(*p),
{
    match &p.open_urls {
        Some(u) => u.allow_localhost,
        None => false,
    }
}

pub open spec fn open_url_lines(p1: Profile, p2: Profile) -> Seq<LineView> {
    Seq::<LineView>::empty() + list_lines("allow_origins"@, origins(p1), origins(p2))
        + switch_lines("allow_localhost"@, localhost_allowed(p1), localhost_allowed(p2))
}

fn open_url_report(p1: &Profile, p2: &Profile) -> (r: Report)
    ensures
        r@ == open_url_lines(*p1, *p2),
{
    let mut out = Report::new();
    diff_list(&mut out, "allow_origins", &origin_list(p1), &origin_list(p2));
    add_switch(&mut out, "allow_localhost", allows_localhost(p1), allows_localhost(p2));
    out
}

// ---------------------------------------------------------------------------
// Maps
// ---------------------------------------------------------------------------

/// The first map has, under `k`, what the second does not have there.
pub open spec fn mapping_only_in(
    a: Seq<(String, String)>,
    b: Seq<(String, String)>,
    k: Seq<char>,
) -> bool {
    match lookup(b, k) {
        Some(v) => v@ != lookup(a, k)->0@,
        None => true,
    }
}

pub open spec fn mapping_line(
    sign: Seq<char>,
    style: Style,
    m: Seq<(String, String)>,
    k: Seq<char>,
) -> LineView {
    seq![
        (Style::Plain, "    "@),
        (style, sign),
        (Style::Plain, " "@),
        (style, k),
        (Style::Plain, " -> "@),
        (style, lookup(m, k)->0@),
    ]
}

/// The keys under which the first map differs from the second, in order.
pub open spec fn mapping_keys(a: Seq<(String, String)>, b: Seq<(String, String)>) -> Seq<
    Seq<char>,
> {
    sort_unique(keys(a)).filter(|k: Seq<char>| mapping_only_in(a, b, k))
}

pub open spec fn mapping_lines(
    sign: Seq<char>,
    style: Style,
    a: Seq<(String, String)>,
    b: Seq<(String, String)>,
) -> Seq<LineView> {
    mapping_keys(a, b).map_values(|k: Seq<char>| mapping_line(sign, style, a, k))
}

pub open spec fn env_credential_lines(p1: Profile, p2: Profile) -> Seq<LineView> {
    let a = p1.env_credentials.mappings@;
    let b = p2.env_credentials.mappings@;
    mapping_lines("-"@, Style::Red, a, b) + mapping_lines("+"@, Style::Green, b, a)
}

fn mapping_differs(a: &Vec<(String, String)>, b: &Vec<(String, String)>, k: &str) -> (r: bool)
    requires
        has_key(a@, k@),
    ensures
        r == mapping_only_in(a@, b@, k@),
{
    match (find_key(a, k), find_key(b, k)) {
        (Some(i), Some(j)) => !str_eq(a[i].1.as_str(), b[j].1.as_str()),
        _ => true,
    }
}

fn differing_mappings(a: &Vec<(String, String)>, b: &Vec<(String, String)>) -> (r: Vec<String>)
    ensures
        views(r@) == mapping_keys(a@, b@),
{
    let s = sorted_set(&key_list(a));
    let ghost keep = |k: Seq<char>| mapping_only_in(a@, b@, k);
    proof {
        lemma_is_sort_unique(views(s@), keys(a@));
        assert forall|n: int| 0 <= n < s@.len() implies has_key(a@, (#[trigger] s@[n])@) by {
            assert(views(s@)[n] == s@[n]@);
            assert(views(s@).contains(s@[n]@));
            lemma_key_index(a@, s@[n]@);
        }
    }
    let mut r: Vec<String> = Vec::new();
    let mut i: usize = 0;
    assert(views(r@) =~= views(s@).take(0).filter(keep));
    while i < s.len()
        invariant
            i <= s@.len(),
            keep == |k: Seq<char>| mapping_only_in(a@, b@, k),
            views(r@) == views(s@).take(i as int).filter(keep),
            forall|n: int| 0 <= n < s@.len() ==> has_key(a@, (#[trigger] s@[n])@),
        decreases s@.len() - i,
    {
        proof {
            lemma_filter_step(views(s@), i as int, keep);
            assert(views(s@)[i as int] == s@[i as int]@);
        }
        if mapping_differs(a, b, s[i].as_str()) {
            push_copy(&mut r, s[i].as_str());
        }
        i += 1;
    }
    assert(views(s@).take(i as int) =~= views(s@));
    r
}

fn add_mappings(
    out: &mut Report,
    sign: &str,
    style: Style,
    a: &Vec<(String, String)>,
    b: &Vec<(String, String)>,
)
    ensures
        final(out)@ == old(out)@ + mapping_lines(sign@, style, a@, b@),
{
    let ks = differing_mappings(a, b);
    let ghost start = out@;
    let ghost all = mapping_lines(sign@, style, a@, b@);
    let mut i: usize = 0;
    assert(start + all.take(0) =~= start);
    while i < ks.len()
        invariant
            i <= ks@.len(),
            views(ks@) == mapping_keys(a@, b@),
            all == mapping_lines(sign@, style, a@, b@),
            out@ == start + all.take(i as int),
        decreases ks@.len() - i,
    {
        proof {
            assert(views(ks@)[i as int] == ks@[i as int]@);
            lemma_filtered_key(a@, |k: Seq<char>| mapping_only_in(a@, b@, k), i as int);
        }
        if let Some(n) = find_key(a, ks[i].as_str()) {
            out.line6(
                Style::Plain,
                "    ",
                style,
                sign,
                Style::Plain,
                " ",
                style,
                ks[i].as_str(),
                Style::Plain,
                " -> ",
                style,
                a[n].1.as_str(),
            );
        }
        i += 1;
        assert(all.take(i as int) =~= all.take(i - 1).push(all[i - 1]));
        assert(out@ =~= start + all.take(i as int));
    }
    assert(all.take(i as int) =~= all);
}

/// What is kept of a map's sorted keys is a key.
proof fn lemma_filtered_key<T>(m: Seq<(String, T)>, keep: spec_fn(Seq<char>) -> bool, i: int)
    requires
        0 <= i < sort_unique(keys(m)).filter(keep).len(),
    ensures
        has_key(m, sort_unique(keys(m)).filter(keep)[i]),
{
    let s = sort_unique(keys(m));
    s.lemma_filter_pred(keep, i);
    lemma_sort_unique(keys(m));
    let x = s.filter(keep)[i];
    lemma_filter_subset(s, keep, i);
    assert(s.contains(x));
    lemma_key_index(m, x);
}

proof fn lemma_filter_subset<A>(s: Seq<A>, keep: spec_fn(A) -> bool, i: int)
    requires
        0 <= i < s.filter(keep).len(),
    ensures
        s.contains(s.filter(keep)[i]),
    decreases s.len(),
{
    reveal(Seq::filter);
    if s.len() > 0 {
        let t = s.drop_last();
        if i < t.filter(keep).len() {
            lemma_filter_subset(t, keep, i);
            let k = choose|k: int| 0 <= k < t.len() && t[k] == t.filter(keep)[i];
            assert(s[k] == s.filter(keep)[i]);
        } else {
            assert(s[s.len() - 1] == s.filter(keep)[i]);
        }
    }
}

fn env_credential_report(p1: &Profile, p2: &Profile) -> (r: Report)
    ensures
        r@ == env_credential_lines(*p1, *p2),
{
    let mut out = Report::new();
    add_mappings(
        &mut out,
        "-",
        Style::Red,
        &p1.env_credentials.mappings,
        &p2.env_credentials.mappings,
    );
    add_mappings(
        &mut out,
        "+",
        Style::Green,
        &p2.env_credentials.mappings,
        &p1.env_credentials.mappings,
    );
    assert(out@ =~= env_credential_lines(*p1, *p2));
    out
}

pub open spec fn hook_differs(a: HookConfig, b: HookConfig) -> bool {
    a.event@ != b.event@ || a.matcher@ != b.matcher@ || a.script@ != b.script@
}

/// Both maps have a hook under `k`, and they are not the same.
pub open spec fn hook_changed(
    a: Seq<(String, HookConfig)>,
    b: Seq<(String, HookConfig)>,
    k: Seq<char>,
) -> bool {
    has_key(a, k) && has_key(b, k) && hook_differs(lookup(a, k)->0, lookup(b, k)->0)
}

pub fn is_hook_changed(
    a: &Vec<(String, HookConfig)>,
    b: &Vec<(String, HookConfig)>,
    k: &str,
) -> (r: bool)
    ensures
        r == hook_changed(a@, b@, k@),
{
    match (find_key(a, k), find_key(b, k)) {
        (Some(i), Some(j)) => !str_eq(a[i].1.event.as_str(), b[j].1.event.as_str()) || !str_eq(
            a[i].1.matcher.as_str(),
            b[j].1.matcher.as_str(),
        ) || !str_eq(a[i].1.script.as_str(), b[j].1.script.as_str()),
        _ => false,
    }
}

pub open spec fn changed_line(k: Seq<char>) -> LineView {
    seq![
        (Style::Plain, "    "@),
        (Style::Yellow, "~"@),
        (Style::Plain, " "@),
        (Style::Yellow, k),
        (Style::Plain, " (changed)"@),
    ]
}

pub open spec fn hook_lines(p1: Profile, p2: Profile) -> Seq<LineView> {
    let a = p1.hooks.hooks@;
    let b = p2.hooks.hooks@;
    set_lines(keys(a), keys(b)) + sort_unique(keys(a)).filter(
        |k: Seq<char>| hook_changed(a, b, k),
    ).map_values(|k: Seq<char>| changed_line(k))
}

fn changed_hooks(a: &Vec<(String, HookConfig)>, b: &Vec<(String, HookConfig)>) -> (r: Vec<String>)
    ensures
        views(r@) == sort_unique(keys(a@)).filter(|k: Seq<char>| hook_changed(a@, b@, k)),
{
    let s = sorted_set(&key_list(a));
    let ghost keep = |k: Seq<char>| hook_changed(a@, b@, k);
    proof {
        lemma_is_sort_unique(views(s@), keys(a@));
    }
    let mut r: Vec<String> = Vec::new();
    let mut i: usize = 0;
    assert(views(r@) =~= views(s@).take(0).filter(keep));
    while i < s.len()
        invariant
            i <= s@.len(),
            keep == |k: Seq<char>| hook_changed(a@, b@, k),
            views(r@) == views(s@).take(i as int).filter(keep),
        decreases s@.len() - i,
    {
        proof {
            lemma_filter_step(views(s@), i as int, keep);
            assert(views(s@)[i as int] == s@[i as int]@);
        }
        if is_hook_changed(a, b, s[i].as_str()) {
            push_copy(&mut r, s[i].as_str());
        }
        i += 1;
    }
    assert(views(s@).take(i as int) =~= views(s@));
    r
}

fn hook_report(p1: &Profile, p2: &Profile) -> (r: Report)
    ensures
        r@ == hook_lines(*p1, *p2),
{
    let mut out = Report::new();
    diff_set(&mut out, &key_list(&p1.hooks.hooks), &key_list(&p2.hooks.hooks));
    let changed = changed_hooks(&p1.hooks.hooks, &p2.hooks.hooks);
    let ghost all = views(changed@).map_values(|k: Seq<char>| changed_line(k));
    let ghost start = out@;
    let mut i: usize = 0;
    assert(start + all.take(0) =~= start);
    while i < changed.len()
        invariant
            i <= changed@.len(),
            all == views(changed@).map_values(|k: Seq<char>| changed_line(k)),
            out@ == start + all.take(i as int),
        decreases changed@.len() - i,
    {
        out.line5(
            Style::Plain,
            "    ",
            Style::Yellow,
            "~",
            Style::Plain,
            " ",
            Style::Yellow,
            changed[i].as_str(),
            Style::Plain,
            " (changed)",
        );
        i += 1;
        assert(all.take(i as int) =~= all.take(i - 1).push(all[i - 1]));
        assert(out@ =~= start + all.take(i as int));
    }
    assert(all.take(i as int) =~= all);
    assert(out@ =~= hook_lines(*p1, *p2));
    out
}

// ---------------------------------------------------------------------------
// Custom credentials
// ---------------------------------------------------------------------------

/// One field of a changed credential, where it differs.
pub open spec fn field_lines(
    differs: bool,
    label: Seq<char>,
    a: Seq<char>,
    b: Seq<char>,
    styled: bool,
) -> Seq<LineView> {
    if differs {
        seq![
            seq![
                (Style::Plain, "      "@),
                (Style::Red, "-"@),
                (Style::Plain, " "@ + label + ": "@),
                (if styled {
                    Style::Red
                } else {
                    Style::Plain
                }, a),
            ],
            seq![
                (Style::Plain, "      "@),
                (Style::Green, "+"@),
                (Style::Plain, " "@ + label + ": "@),
                (if styled {
                    Style::Green
                } else {
                    Style::Plain
                }, b),
            ],
        ]
    } else {
        Seq::empty()
    }
}

fn add_field(out: &mut Report, differs: bool, label: &str, a: &str, b: &str, styled: bool)
    ensures
        final(out)@ == old(out)@ + field_lines(differs, label@, a@, b@, styled),
{
    let ghost start = out@;
    if differs {
        let head = crate::text::concat3(" ", label, ": ");
        let (red, green) = if styled {
            (Style::Red, Style::Green)
        } else {
            (Style::Plain, Style::Plain)
        };
        out.line4(Style::Plain, "      ", Style::Red, "-", Style::Plain, head.as_str(), red, a);
        out.line4(Style::Plain, "      ", Style::Green, "+", Style::Plain, head.as_str(), green, b);
    }
    assert(out@ =~= start + field_lines(differs, label@, a@, b@, styled));
}

pub open spec fn text_or(s: Option<Seq<char>>, default_text: Seq<char>) -> Seq<char> {
    match s {
        Some(x) => x,
        None => default_text,
    }
}

fn opt_or(s: &Option<String>, default_text: &str) -> (r: String)
    ensures
        r@ == text_or(opt_view(*s), default_text@),
{
    match s {
        Some(x) => copy_str(x.as_str()),
        None => copy_str(default_text),
    }
}

/// How an absent credential format is shown.
pub fn credential_format_diff_label(f: &Option<String>) -> (r: String)
    ensures
        r@ == text_or(opt_view(*f), "(default)"@),
{
    opt_or(f, "(default)")
}

pub open spec fn credential_field_lines(a: CredentialView, b: CredentialView) -> Seq<LineView> {
    Seq::<LineView>::empty() + field_lines(
        a.upstream != b.upstream,
        "upstream"@,
        a.upstream,
        b.upstream,
        true,
    ) + field_lines(
        a.credential_key != b.credential_key,
        "credential_key"@,
        text_or(a.credential_key, "<none>"@),
        text_or(b.credential_key, "<none>"@),
        true,
    ) + field_lines(
        a.inject_mode != b.inject_mode,
        "inject_mode"@,
        a.inject_mode.label_text(),
        b.inject_mode.label_text(),
        false,
    ) + field_lines(
        a.inject_header != b.inject_header,
        "inject_header"@,
        a.inject_header,
        b.inject_header,
        true,
    ) + field_lines(
        a.credential_format != b.credential_format,
        "credential_format"@,
        text_or(a.credential_format, "(default)"@),
        text_or(b.credential_format, "(default)"@),
        true,
    ) + field_lines(
        a.path_pattern != b.path_pattern,
        "path_pattern"@,
        debug_opt(a.path_pattern),
        debug_opt(b.path_pattern),
        false,
    ) + field_lines(
        a.path_replacement != b.path_replacement,
        "path_replacement"@,
        debug_opt(a.path_replacement),
        debug_opt(b.path_replacement),
        false,
    ) + field_lines(
        a.query_param_name != b.query_param_name,
        "query_param_name"@,
        debug_opt(a.query_param_name),
        debug_opt(b.query_param_name),
        false,
    ) + field_lines(
        a.env_var != b.env_var,
        "env_var"@,
        debug_opt(a.env_var),
        debug_opt(b.env_var),
        false,
    )
}

fn credential_fields(a: &CustomCredentialDef, b: &CustomCredentialDef) -> (r: Report)
    ensures
        r@ == credential_field_lines(a@, b@),
{
    let mut out = Report::new();
    add_field(
        &mut out,
        !str_eq(a.upstream.as_str(), b.upstream.as_str()),
        "upstream",
        a.upstream.as_str(),
        b.upstream.as_str(),
        true,
    );
    add_field(
        &mut out,
        !opt_str_eq(&a.credential_key, &b.credential_key),
        "credential_key",
        opt_or(&a.credential_key, "<none>").as_str(),
        opt_or(&b.credential_key, "<none>").as_str(),
        true,
    );
    add_field(
        &mut out,
        a.inject_mode != b.inject_mode,
        "inject_mode",
        a.inject_mode.label(),
        b.inject_mode.label(),
        false,
    );
    add_field(
        &mut out,
        !str_eq(a.inject_header.as_str(), b.inject_header.as_str()),
        "inject_header",
        a.inject_header.as_str(),
        b.inject_header.as_str(),
        true,
    );
    add_field(
        &mut out,
        !opt_str_eq(&a.credential_format, &b.credential_format),
        "credential_format",
        credential_format_diff_label(&a.credential_format).as_str(),
        credential_format_diff_label(&b.credential_format).as_str(),
        true,
    );
    add_field(
        &mut out,
        !opt_str_eq(&a.path_pattern, &b.path_pattern),
        "path_pattern",
        opt_to_debug(&a.path_pattern).as_str(),
        opt_to_debug(&b.path_pattern).as_str(),
        false,
    );
    add_field(
        &mut out,
        !opt_str_eq(&a.path_replacement, &b.path_replacement),
        "path_replacement",
        opt_to_debug(&a.path_replacement).as_str(),
        opt_to_debug(&b.path_replacement).as_str(),
        false,
    );
    add_field(
        &mut out,
        !opt_str_eq(&a.query_param_name, &b.query_param_name),
        "query_param_name",
        opt_to_debug(&a.query_param_name).as_str(),
        opt_to_debug(&b.query_param_name).as_str(),
        false,
    );
    add_field(
        &mut out,
        !opt_str_eq(&a.env_var, &b.env_var),
        "env_var",
        opt_to_debug(&a.env_var).as_str(),
        opt_to_debug(&b.env_var).as_str(),
        false,
    );
    out
}

/// Both maps have a credential under `k`, and they differ in something.
pub open spec fn credential_changed(
    a: Seq<(String, CustomCredentialDef)>,
    b: Seq<(String, CustomCredentialDef)>,
    k: Seq<char>,
) -> bool {
    has_key(a, k) && has_key(b, k) && (lookup(a, k)->0)@ != (lookup(b, k)->0)@
}

pub fn is_credential_changed(
    a: &Vec<(String, CustomCredentialDef)>,
    b: &Vec<(String, CustomCredentialDef)>,
    k: &str,
) -> (r: bool)
    ensures
        r == credential_changed(a@, b@, k@),
{
    match (find_key(a, k), find_key(b, k)) {
        (Some(i), Some(j)) => !credential_eq(&a[i].1, &b[j].1),
        _ => false,
    }
}

/// A changed credential and its fields.
pub open spec fn credential_lines(
    a: Seq<(String, CustomCredentialDef)>,
    b: Seq<(String, CustomCredentialDef)>,
    k: Seq<char>,
) -> Seq<LineView> {
    seq![changed_line(k)] + credential_field_lines((lookup(a, k)->0)@, (lookup(b, k)->0)@)
}

/// The lines of several changed credentials, one after the other.
pub open spec fn credentials_lines(
    a: Seq<(String, CustomCredentialDef)>,
    b: Seq<(String, CustomCredentialDef)>,
    ks: Seq<Seq<char>>,
) -> Seq<LineView>
    decreases ks.len(),
{
    if ks.len() == 0 {
        Seq::empty()
    } else {
        credentials_lines(a, b, ks.drop_last()) + credential_lines(a, b, ks.last())
    }
}

pub open spec fn custom_credential_lines(p1: Profile, p2: Profile) -> Seq<LineView> {
    let a = p1.network.custom_credentials@;
    let b = p2.network.custom_credentials@;
    set_lines(keys(a), keys(b)) + credentials_lines(
        a,
        b,
        sort_unique(keys(a)).filter(|k: Seq<char>| credential_changed(a, b, k)),
    )
}

fn changed_credentials(a: &Vec<(String, CustomCredentialDef)>, b: &Vec<(String, CustomCredentialDef)>) -> (r: Vec<String>)
    ensures
        views(r@) == sort_unique(keys(a@)).filter(|k: Seq<char>| credential_changed(a@, b@, k)),
{
    let s = sorted_set(&key_list(a));
    let ghost keep = |k: Seq<char>| credential_changed(a@, b@, k);
    proof {
        lemma_is_sort_unique(views(s@), keys(a@));
    }
    let mut r: Vec<String> = Vec::new();
    let mut i: usize = 0;
    assert(views(r@) =~= views(s@).take(0).filter(keep));
    while i < s.len()
        invariant
            i <= s@.len(),
            keep == |k: Seq<char>| credential_changed(a@, b@, k),
            views(r@) == views(s@).take(i as int).filter(keep),
        decreases s@.len() - i,
    {
        proof {
            lemma_filter_step(views(s@), i as int, keep);
            assert(views(s@)[i as int] == s@[i as int]@);
        }
        if is_credential_changed(a, b, s[i].as_str()) {
            push_copy(&mut r, s[i].as_str());
        }
        i += 1;
    }
    assert(views(s@).take(i as int) =~= views(s@));
    r
}

fn custom_credential_report(p1: &Profile, p2: &Profile) -> (r: Report)
    ensures
        r@ == custom_credential_lines(*p1, *p2),
{
    let a = &p1.network.custom_credentials;
    let b = &p2.network.custom_credentials;
    let mut out = Report::new();
    diff_set(&mut out, &key_list(a), &key_list(b));
    let changed = changed_credentials(a, b);
    let ghost ks = views(changed@);
    let ghost keep = |k: Seq<char>| credential_changed(a@, b@, k);
    let ghost start = out@;
    let mut i: usize = 0;
    assert(ks.take(0).len() == 0);
    assert(start + credentials_lines(a@, b@, ks.take(0)) =~= start);
    while i < changed.len()
        invariant
            i <= changed@.len(),
            ks == views(changed@),
            keep == (|k: Seq<char>| credential_changed(a@, b@, k)),
            ks == sort_unique(keys(a@)).filter(keep),
            out@ == start + credentials_lines(a@, b@, ks.take(i as int)),
        decreases changed@.len() - i,
    {
        proof {
            assert(ks[i as int] == changed@[i as int]@);
            sort_unique(keys(a@)).lemma_filter_pred(keep, i as int);
            assert(ks.take(i + 1).drop_last() =~= ks.take(i as int));
            assert(ks.take(i + 1).last() == ks[i as int]);
        }
        let name = changed[i].as_str();
        if let (Some(n), Some(m)) = (find_key(a, name), find_key(b, name)) {
            let ghost before = out@;
            out.line5(
                Style::Plain,
                "    ",
                Style::Yellow,
                "~",
                Style::Plain,
                " ",
                Style::Yellow,
                name,
                Style::Plain,
                " (changed)",
            );
            out.extend(credential_fields(&a[n].1, &b[m].1));
            assert(out@ =~= before + credential_lines(a@, b@, ks[i as int]));
        }
        i += 1;
        assert(out@ =~= start + credentials_lines(a@, b@, ks.take(i as int)));
    }
    assert(ks.take(i as int) =~= ks);
    assert(out@ =~= custom_credential_lines(*p1, *p2));
    out
}

// ---------------------------------------------------------------------------
// The whole comparison
// ---------------------------------------------------------------------------

/// All differences, section by section.
pub open spec fn difference_lines(p1: Profile, p2: Profile) -> Seq<LineView> {
    Seq::<LineView>::empty() + section(
        "Groups"@,
        set_lines(views(p1.groups.included@), views(p2.groups.included@)),
    ) + section("Filesystem"@, filesystem_lines(p1, p2)) + section(
        "Composition"@,
        composition_lines(p1, p2),
    ) + security_lines(p1, p2) + section("Network"@, network_lines(p1, p2)) + scalar_lines(
        "upstream_proxy"@,
        opt_view(p1.network.upstream_proxy),
        opt_view(p2.network.upstream_proxy),
    ) + section("Workdir"@, workdir_lines(p1, p2)) + section(
        "Allowed commands"@,
        set_lines(views(p1.commands.allow@), views(p2.commands.allow@)),
    ) + section("Rollback"@, rollback_lines(p1, p2)) + section(
        "Open URLs"@,
        open_url_lines(p1, p2),
    ) + scalar_lines(
        "allow_launch_services"@,
        opt_bool_text(p1.allow_launch_services),
        opt_bool_text(p2.allow_launch_services),
    ) + scalar_lines("allow_gpu"@, opt_bool_text(p1.allow_gpu), opt_bool_text(p2.allow_gpu))
        + section("Env credentials"@, env_credential_lines(p1, p2)) + section(
        "Hooks"@,
        hook_lines(p1, p2),
    ) + section("Custom credentials"@, custom_credential_lines(p1, p2))
}

pub open spec fn diff_header(name1: Seq<char>, name2: Seq<char>) -> LineView {
    seq![
        (Style::Brand, "nono profile"@),
        (Style::Plain, ": diff '"@),
        (Style::TextBold, name1),
        (Style::Plain, "' vs '"@),
        (Style::TextBold, name2),
        (Style::Plain, "'"@),
    ]
}

pub open spec fn no_differences() -> Seq<LineView> {
    seq![blank_line(), seq![(Style::Plain, "  "@), (Style::Subtext, "(no differences)"@)]]
}

/// The report on two profiles.
pub open spec fn diff_lines(
    name1: Seq<char>,
    name2: Seq<char>,
    p1: Profile,
    p2: Profile,
) -> Seq<LineView> {
    seq![diff_header(name1, name2)] + (if difference_lines(p1, p2).len() == 0 {
        no_differences()
    } else {
        difference_lines(p1, p2)
    })
}

fn difference_report(p1: &Profile, p2: &Profile) -> (r: Report)
    ensures
        r@ == difference_lines(*p1, *p2),
{
    let mut out = Report::new();
    let mut groups = Report::new();
    diff_set(&mut groups, &p1.groups.included, &p2.groups.included);
    assert(groups@ =~= set_lines(views(p1.groups.included@), views(p2.groups.included@)));
    add_section(&mut out, "Groups", groups);
    add_section(&mut out, "Filesystem", filesystem_report(p1, p2));
    add_section(&mut out, "Composition", composition_report(p1, p2));
    out.extend(security_report(p1, p2));
    add_section(&mut out, "Network", network_report(p1, p2));
    diff_scalar_option(
        &mut out,
        "upstream_proxy",
        &p1.network.upstream_proxy,
        &p2.network.upstream_proxy,
    );
    add_section(&mut out, "Workdir", workdir_report(p1, p2));
    let mut commands = Report::new();
    diff_set(&mut commands, &p1.commands.allow, &p2.commands.allow);
    assert(commands@ =~= set_lines(views(p1.commands.allow@), views(p2.commands.allow@)));
    add_section(&mut out, "Allowed commands", commands);
    add_section(&mut out, "Rollback", rollback_report(p1, p2));
    add_section(&mut out, "Open URLs", open_url_report(p1, p2));
    diff_scalar_option(
        &mut out,
        "allow_launch_services",
        &opt_bool_string(p1.allow_launch_services),
        &opt_bool_string(p2.allow_launch_services),
    );
    diff_scalar_option(
        &mut out,
        "allow_gpu",
        &opt_bool_string(p1.allow_gpu),
        &opt_bool_string(p2.allow_gpu),
    );
    add_section(&mut out, "Env credentials", env_credential_report(p1, p2));
    add_section(&mut out, "Hooks", hook_report(p1, p2));
    add_section(&mut out, "Custom credentials", custom_credential_report(p1, p2));
    out
}

/// Compares two profiles for people.
pub fn cmd_diff(name1: &str, name2: &str, p1: &Profile, p2: &Profile) -> (r: Report)
    ensures
        r@ == diff_lines(name1@, name2@, *p1, *p2),
{
    let mut out = Report::new();
    out.line6(
        Style::Brand,
        "nono profile",
        Style::Plain,
        ": diff '",
        Style::TextBold,
        name1,
        Style::Plain,
        "' vs '",
        Style::TextBold,
        name2,
        Style::Plain,
        "'",
    );
    let body = difference_report(p1, p2);
    if body.is_empty() {
        out.blank();
        out.line2(Style::Plain, "  ", Style::Subtext, "(no differences)");
    } else {
        out.extend(body);
    }
    assert(out@ =~= diff_lines(name1@, name2@, *p1, *p2));
    out
}

// ---------------------------------------------------------------------------
// Laws
// ---------------------------------------------------------------------------

proof fn lemma_same_list(label: Seq<char>, a: Seq<Seq<char>>)
    ensures
        list_lines(label, a, a).len() == 0,
        set_lines(a, a).len() == 0,
{
    lemma_no_difference(a);
}

/// A profile does not differ from itself.
pub proof fn law_no_difference_to_itself(p: Profile)
    ensures
        difference_lines(p, p).len() == 0,
{
    let fs = p.filesystem;
    lemma_same_list("allow"@, views(fs.allow@));
    lemma_same_list("read"@, views(fs.read@));
    lemma_same_list("write"@, views(fs.write@));
    lemma_same_list("allow_file"@, views(fs.allow_file@));
    lemma_same_list("read_file"@, views(fs.read_file@));
    lemma_same_list("write_file"@, views(fs.write_file@));
    lemma_same_list("groups.exclude"@, views(p.groups.excluded@));
    lemma_same_list("filesystem.deny"@, views(fs.deny@));
    lemma_same_list("filesystem.bypass_protection"@, views(fs.bypass_protection@));
    lemma_same_list("filesystem.suppress_save_prompt"@, views(fs.suppress_save_prompt@));
    lemma_same_list("commands.deny"@, views(p.commands.deny@));
    lemma_same_list("allow_domain"@, views(p.network.allow_domain@));
    lemma_same_list("credentials"@, p.network.credential_names());
    lemma_same_list("upstream_bypass"@, views(p.network.upstream_bypass@));
    lemma_same_list("open_port"@, port_texts(p.network.open_port@));
    lemma_same_list("listen_port"@, port_texts(p.network.listen_port@));
    lemma_same_list("exclude_patterns"@, views(p.rollback.exclude_patterns@));
    lemma_same_list("exclude_globs"@, views(p.rollback.exclude_globs@));
    lemma_same_list("allow_origins"@, origins(p));
    lemma_same_list(""@, views(p.groups.included@));
    lemma_same_list(""@, views(p.commands.allow@));
    let env = p.env_credentials.mappings@;
    let hooks = p.hooks.hooks@;
    let creds = p.network.custom_credentials@;
    lemma_same_list(""@, keys(hooks));
    lemma_same_list(""@, keys(creds));
    let env_keys = sort_unique(keys(env));
    lemma_sort_unique(keys(env));
    assert forall|i: int| 0 <= i < env_keys.len() implies !mapping_only_in(
        env,
        env,
        #[trigger] env_keys[i],
    ) by {
        assert(env_keys.contains(env_keys[i]));
        lemma_key_index(env, env_keys[i]);
    }
    lemma_filter_none(env_keys, |k: Seq<char>| mapping_only_in(env, env, k));
    lemma_filter_none(sort_unique(keys(hooks)), |k: Seq<char>| hook_changed(hooks, hooks, k));
    lemma_filter_none(sort_unique(keys(creds)), |k: Seq<char>| credential_changed(creds, creds, k));
    assert(filesystem_lines(p, p).len() == 0);
    assert(composition_lines(p, p).len() == 0);
    assert(security_lines(p, p).len() == 0);
    assert(network_lines(p, p).len() == 0);
    assert(rollback_lines(p, p).len() == 0);
    assert(open_url_lines(p, p).len() == 0);
    assert(env_credential_lines(p, p).len() == 0);
    assert(hook_lines(p, p).len() == 0);
    assert(custom_credential_lines(p, p).len() == 0);
}

} // verus!
