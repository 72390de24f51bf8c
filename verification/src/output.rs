//! What the program tells people.

pub mod diagnostic;
pub mod laws;

use crate::capability::{AccessMode, CapabilitySource, FsCapability};
use crate::output::diagnostic::{sanitized, sanitize_terminal_output};
use crate::profile_cmd::diff::{port_strings, port_texts};
use crate::query_ext::ScopePolicy;
use crate::report::{blank_line, line_view, span, text_lines, LineView, Report, Span, Style};
use crate::text::{
    concat2, concat3, concat4, concat5, decimal, has_prefix, has_sub, join, join_strings,
    lemma_filter_step, lower, opt_view, push_copy, str_contains, str_eq, str_lower,
    str_starts_with, str_trim, trim, u64_to_string, usize_to_string, views,
};
use vstd::prelude::*;

verus! {

pub open spec fn rule_line() -> LineView {
    seq![(Style::Plain, "  "@), (Style::Overlay, "────────────────────────────────────────────────────"@)]
}

fn rule(out: &mut Report)
    ensures
        final(out)@ == old(out)@.push(rule_line()),
{
    out.line2(Style::Plain, "  ", Style::Overlay, "────────────────────────────────────────────────────");
}

/// The name of the program and its version.
pub fn print_banner(version: &str, silent: bool) -> (out: Report)
    ensures
        out@ == if silent {
            Seq::<LineView>::empty()
        } else {
            seq![
                blank_line(),
                seq![
                    (Style::Plain, "  "@),
                    (Style::Brand, "nono"@),
                    (Style::Plain, " "@),
                    (Style::Subtext, "v"@ + version@),
                ],
            ]
        },
{
    let mut out = Report::new();
    if !silent {
        out.blank();
        let v = concat2("v", version);
        out.line4(
            Style::Plain,
            "  ",
            Style::Brand,
            "nono",
            Style::Plain,
            " ",
            Style::Subtext,
            v.as_str(),
        );
        assert(out@ =~= seq![
            blank_line(),
            seq![
                (Style::Plain, "  "@),
                (Style::Brand, "nono"@),
                (Style::Plain, " "@),
                (Style::Subtext, "v"@ + version@),
            ],
        ]);
    }
    out
}

// ---------------------------------------------------------------------------
// Capabilities
// ---------------------------------------------------------------------------

/// How far a grant on sockets reaches.
#[derive(Clone, Copy, Debug, PartialEq, Eq, Structural)]
pub enum SocketScope {
    File,
    DirChildren,
    DirSubtree,
}

/// Whether sockets may only be connected to, or also bound.
#[derive(Clone, Copy, Debug, PartialEq, Eq, Structural)]
pub enum UnixSocketMode {
    Connect,
    ConnectBind,
}

/// A grant on sockets.
#[derive(Debug)]
pub struct UnixSocketCapability {
    pub resolved: String,
    pub mode: UnixSocketMode,
    pub scope: SocketScope,
    pub source: CapabilitySource,
}

#[derive(Debug)]
pub enum NetworkSummary {
    Blocked,
    ProxyOnly { port: u16, bind_ports: Vec<u16> },
    AllowAll,
}

/// All that a command may do.
#[derive(Debug)]
pub struct CapabilitySummary {
    pub fs: Vec<FsCapability>,
    pub unix_sockets: Vec<UnixSocketCapability>,
    pub network: NetworkSummary,
    pub localhost_ports: Vec<u16>,
}

/// A grant that the user asked for, on the command line or in a profile.
pub open spec fn user_intent(s: CapabilitySource) -> bool {
    s is User || s is Profile
}

fn is_user_intent(s: &CapabilitySource) -> (r: bool)
    ensures
        r == user_intent(*s),
{
    match s {
        CapabilitySource::User => true,
        CapabilitySource::Profile => true,
        _ => false,
    }
}

/// The badge for an access: a fixed width, whatever the access.
pub open spec fn access_badge(a: AccessMode) -> (Style, Seq<char>) {
    match a {
        AccessMode::Read => (Style::BadgeGreen, "  r  "@),
        AccessMode::Write => (Style::BadgeYellow, "  w  "@),
        AccessMode::ReadWrite => (Style::BadgeBrand, " r+w "@),
    }
}

pub fn format_access_badge(a: AccessMode) -> (r: (Style, &'static str))
    ensures
        (r.0, r.1@) == access_badge(a),
{
    match a {
        AccessMode::Read => (Style::BadgeGreen, "  r  "),
        AccessMode::Write => (Style::BadgeYellow, "  w  "),
        AccessMode::ReadWrite => (Style::BadgeBrand, " r+w "),
    }
}

/// The badge for a grant on sockets, of the same width.
pub open spec fn socket_badge(m: UnixSocketMode) -> (Style, Seq<char>) {
    match m {
        UnixSocketMode::Connect => (Style::BadgeGreen, "sock "@),
        UnixSocketMode::ConnectBind => (Style::BadgeBrand, "sock+"@),
    }
}

pub fn format_unix_socket_mode_badge(m: UnixSocketMode) -> (r: (Style, &'static str))
    ensures
        (r.0, r.1@) == socket_badge(m),
{
    match m {
        UnixSocketMode::Connect => (Style::BadgeGreen, "sock "),
        UnixSocketMode::ConnectBind => (Style::BadgeBrand, "sock+"),
    }
}

/// All badges have the same width, and those of different modes differ.
pub proof fn law_badges_have_one_width(a: AccessMode, m: UnixSocketMode)
    ensures
        access_badge(a).1.len() == 5,
        socket_badge(m).1.len() == 5,
        socket_badge(UnixSocketMode::Connect) != socket_badge(UnixSocketMode::ConnectBind),
{
    reveal_strlit("  r  ");
    reveal_strlit("  w  ");
    reveal_strlit(" r+w ");
    reveal_strlit("sock ");
    reveal_strlit("sock+");
    assert("sock "@[4] != "sock+"@[4]);
}

pub open spec fn fs_line(c: FsCapability, verbose: bool) -> LineView {
    let kind = if c.is_file {
        "file"@
    } else {
        "dir"@
    };
    seq![
        (Style::Plain, "  "@),
        access_badge(c.access),
        (Style::Plain, " "@),
        (Style::Text, c.resolved@),
        (Style::Plain, " "@),
        (
            Style::Subtext,
            if verbose {
                "("@ + kind + ") ["@ + c.source.text() + "]"@
            } else {
                "("@ + kind + ")"@
            },
        ),
    ]
}

/// The grants to show: all, or those that the user asked for.
pub open spec fn shown_fs(caps: Seq<FsCapability>, verbose: bool) -> Seq<FsCapability> {
    caps.filter(|c: FsCapability| verbose || user_intent(c.source))
}

pub open spec fn hidden_line(n: nat, what: Seq<char>) -> Seq<LineView> {
    if n == 0 {
        Seq::empty()
    } else {
        seq![
            seq![
                (Style::Plain, "       "@),
                (Style::Subtext, "+ "@ + decimal(n) + what + " (-v to show)"@),
            ],
        ]
    }
}

fn add_hidden(out: &mut Report, n: usize, what: &str)
    ensures
        final(out)@ == old(out)@ + hidden_line(n as nat, what@),
{
    let ghost before = out@;
    if n > 0 {
        let count = usize_to_string(n);
        let text = concat4("+ ", count.as_str(), what, " (-v to show)");
        out.line2(Style::Plain, "       ", Style::Subtext, text.as_str());
    }
    assert(out@ =~= before + hidden_line(n as nat, what@));
}

pub open spec fn fs_lines(caps: Seq<FsCapability>, verbose: bool) -> Seq<LineView> {
    shown_fs(caps, verbose).map_values(|c: FsCapability| fs_line(c, verbose)) + hidden_line(
        (caps.len() - shown_fs(caps, verbose).len()) as nat,
        " system/group paths"@,
    )
}

fn print_fs(out: &mut Report, c: &FsCapability, verbose: bool)
    ensures
        final(out)@ == old(out)@.push(fs_line(*c, verbose)),
{
    let kind = if c.is_file {
        "file"
    } else {
        "dir"
    };
    let (style, badge) = format_access_badge(c.access);
    let note = if verbose {
        let source = c.source.describe();
        concat5("(", kind, ") [", source.as_str(), "]")
    } else {
        concat3("(", kind, ")")
    };
    out.line6(
        Style::Plain,
        "  ",
        style,
        badge,
        Style::Plain,
        " ",
        Style::Text,
        c.resolved.as_str(),
        Style::Plain,
        " ",
        Style::Subtext,
        note.as_str(),
    );
}

fn add_fs(out: &mut Report, caps: &Vec<FsCapability>, verbose: bool)
    ensures
        final(out)@ == old(out)@ + fs_lines(caps@, verbose),
{
    let ghost before = out@;
    let ghost keep = |c: FsCapability| verbose || user_intent(c.source);
    let ghost shape = |c: FsCapability| fs_line(c, verbose);
    let mut shown: usize = 0;
    let mut i: usize = 0;
    assert(before + caps@.take(0).filter(keep).map_values(shape) =~= before);
    while i < caps.len()
        invariant
            shown <= i <= caps@.len(),
            keep == (|c: FsCapability| verbose || user_intent(c.source)),
            shape == (|c: FsCapability| fs_line(c, verbose)),
            shown == caps@.take(i as int).filter(keep).len(),
            out@ == before + caps@.take(i as int).filter(keep).map_values(shape),
        decreases caps@.len() - i,
    {
        let ghost done = caps@.take(i as int).filter(keep);
        proof {
            lemma_filter_step(caps@, i as int, keep);
            assert(done.push(caps@[i as int]).map_values(shape) =~= done.map_values(shape).push(
                shape(caps@[i as int]),
            ));
            assert(before + done.map_values(shape).push(shape(caps@[i as int])) =~= (before
                + done.map_values(shape)).push(shape(caps@[i as int])));
        }
        if verbose || is_user_intent(&caps[i].source) {
            print_fs(out, &caps[i], verbose);
            shown += 1;
        }
        i += 1;
    }
    assert(caps@.take(i as int) =~= caps@);
    add_hidden(out, caps.len() - shown, " system/group paths");
    assert(out@ =~= before + fs_lines(caps@, verbose));
}

pub open spec fn scope_suffix(s: SocketScope) -> Seq<char> {
    match s {
        SocketScope::File => ""@,
        SocketScope::DirChildren => "  (directory grant — direct child sockets only)"@,
        SocketScope::DirSubtree => "  (subtree grant — recursive socket paths)"@,
    }
}

fn scope_suffix_str(s: SocketScope) -> (r: &'static str)
    ensures
        r@ == scope_suffix(s),
{
    match s {
        SocketScope::File => "",
        SocketScope::DirChildren => "  (directory grant — direct child sockets only)",
        SocketScope::DirSubtree => "  (subtree grant — recursive socket paths)",
    }
}

pub open spec fn socket_line(c: UnixSocketCapability, verbose: bool) -> LineView {
    if verbose {
        seq![
            (Style::Plain, "  "@),
            socket_badge(c.mode),
            (Style::Plain, " "@),
            (Style::Text, c.resolved@),
            (Style::Plain, " "@),
            (Style::Subtext, "["@ + c.source.text() + "]"@),
            (Style::Subtext, scope_suffix(c.scope)),
        ]
    } else {
        seq![
            (Style::Plain, "  "@),
            socket_badge(c.mode),
            (Style::Plain, " "@),
            (Style::Text, c.resolved@),
            (Style::Subtext, scope_suffix(c.scope)),
        ]
    }
}

pub open spec fn shown_sockets(caps: Seq<UnixSocketCapability>, verbose: bool) -> Seq<
    UnixSocketCapability,
> {
    caps.filter(|c: UnixSocketCapability| verbose || user_intent(c.source))
}

pub open spec fn socket_lines(caps: Seq<UnixSocketCapability>, verbose: bool) -> Seq<LineView> {
    shown_sockets(caps, verbose).map_values(|c: UnixSocketCapability| socket_line(c, verbose))
        + hidden_line(
        (caps.len() - shown_sockets(caps, verbose).len()) as nat,
        " system/group unix sockets"@,
    )
}

fn print_socket(out: &mut Report, c: &UnixSocketCapability, verbose: bool)
    ensures
        final(out)@ == old(out)@.push(socket_line(*c, verbose)),
{
    let (style, badge) = format_unix_socket_mode_badge(c.mode);
    let suffix = scope_suffix_str(c.scope);
    if verbose {
        let source = c.source.describe();
        let note = concat3("[", source.as_str(), "]");
        out.line7(
            Style::Plain,
            "  ",
            style,
            badge,
            Style::Plain,
            " ",
            Style::Text,
            c.resolved.as_str(),
            Style::Plain,
            " ",
            Style::Subtext,
            note.as_str(),
            Style::Subtext,
            suffix,
        );
    } else {
        out.line5(
            Style::Plain,
            "  ",
            style,
            badge,
            Style::Plain,
            " ",
            Style::Text,
            c.resolved.as_str(),
            Style::Subtext,
            suffix,
        );
    }
}

fn add_sockets(out: &mut Report, caps: &Vec<UnixSocketCapability>, verbose: bool)
    ensures
        final(out)@ == old(out)@ + socket_lines(caps@, verbose),
{
    let ghost before = out@;
    let ghost keep = |c: UnixSocketCapability| verbose || user_intent(c.source);
    let ghost shape = |c: UnixSocketCapability| socket_line(c, verbose);
    let mut shown: usize = 0;
    let mut i: usize = 0;
    assert(before + caps@.take(0).filter(keep).map_values(shape) =~= before);
    while i < caps.len()
        invariant
            shown <= i <= caps@.len(),
            keep == (|c: UnixSocketCapability| verbose || user_intent(c.source)),
            shape == (|c: UnixSocketCapability| socket_line(c, verbose)),
            shown == caps@.take(i as int).filter(keep).len(),
            out@ == before + caps@.take(i as int).filter(keep).map_values(shape),
        decreases caps@.len() - i,
    {
        let ghost done = caps@.take(i as int).filter(keep);
        proof {
            lemma_filter_step(caps@, i as int, keep);
            assert(done.push(caps@[i as int]).map_values(shape) =~= done.map_values(shape).push(
                shape(caps@[i as int]),
            ));
            assert(before + done.map_values(shape).push(shape(caps@[i as int])) =~= (before
                + done.map_values(shape)).push(shape(caps@[i as int])));
        }
        if verbose || is_user_intent(&caps[i].source) {
            print_socket(out, &caps[i], verbose);
            shown += 1;
        }
        i += 1;
    }
    assert(caps@.take(i as int) =~= caps@);
    add_hidden(out, caps.len() - shown, " system/group unix sockets");
    assert(out@ =~= before + socket_lines(caps@, verbose));
}

pub open spec fn network_line(n: NetworkSummary) -> LineView {
    match n {
        NetworkSummary::Blocked => seq![
            (Style::Plain, "  "@),
            (Style::BadgeRed, " net "@),
            (Style::Plain, " "@),
            (Style::Subtext, "outbound blocked"@),
        ],
        NetworkSummary::ProxyOnly { port, bind_ports } => seq![
            (Style::Plain, "  "@),
            (Style::BadgeYellow, " net "@),
            (Style::Plain, " "@),
            (
                Style::Subtext,
                if bind_ports@.len() == 0 {
                    "proxy localhost:"@ + decimal(port as nat)
                } else {
                    "proxy localhost:"@ + decimal(port as nat) + ", bind: "@ + join(
                        port_texts(bind_ports@),
                        ", "@,
                    )
                },
            ),
        ],
        NetworkSummary::AllowAll => seq![
            (Style::Plain, "  "@),
            (Style::BadgeGreen, " net "@),
            (Style::Plain, " "@),
            (Style::Subtext, "outbound allowed"@),
        ],
    }
}

fn add_network(out: &mut Report, n: &NetworkSummary)
    ensures
        final(out)@ == old(out)@.push(network_line(*n)),
{
    match n {
        NetworkSummary::Blocked => {
            out.line4(
                Style::Plain,
                "  ",
                Style::BadgeRed,
                " net ",
                Style::Plain,
                " ",
                Style::Subtext,
                "outbound blocked",
            );
        },
        NetworkSummary::ProxyOnly { port, bind_ports } => {
            let p = u64_to_string(*port as u64);
            let text = if bind_ports.len() == 0 {
                concat2("proxy localhost:", p.as_str())
            } else {
                let all = join_strings(&port_strings(bind_ports), ", ");
                concat4("proxy localhost:", p.as_str(), ", bind: ", all.as_str())
            };
            out.line4(
                Style::Plain,
                "  ",
                Style::BadgeYellow,
                " net ",
                Style::Plain,
                " ",
                Style::Subtext,
                text.as_str(),
            );
        },
        NetworkSummary::AllowAll => {
            out.line4(
                Style::Plain,
                "  ",
                Style::BadgeGreen,
                " net ",
                Style::Plain,
                " ",
                Style::Subtext,
                "outbound allowed",
            );
        },
    }
}

pub open spec fn localhost_lines(ports: Seq<u16>) -> Seq<LineView> {
    if ports.len() == 0 {
        Seq::empty()
    } else {
        seq![
            seq![
                (Style::Plain, "  "@),
                (Style::BadgeTeal, " ipc "@),
                (Style::Plain, " "@),
                (Style::Subtext, "localhost:"@ + join(port_texts(ports), ", "@)),
            ],
        ]
    }
}

fn add_localhost(out: &mut Report, ports: &Vec<u16>)
    ensures
        final(out)@ == old(out)@ + localhost_lines(ports@),
{
    let ghost before = out@;
    if ports.len() > 0 {
        let all = join_strings(&port_strings(ports), ", ");
        let text = concat2("localhost:", all.as_str());
        out.line4(
            Style::Plain,
            "  ",
            Style::BadgeTeal,
            " ipc ",
            Style::Plain,
            " ",
            Style::Subtext,
            text.as_str(),
        );
    }
    assert(out@ =~= before + localhost_lines(ports@));
}

pub open spec fn capability_lines(caps: CapabilitySummary, verbose: bool) -> Seq<LineView> {
    (Seq::<LineView>::empty().push(
        seq![(Style::Plain, "  "@), (Style::SubtextBold, "Capabilities:"@)],
    ).push(rule_line()) + fs_lines(caps.fs@, verbose) + socket_lines(
        caps.unix_sockets@,
        verbose,
    )).push(network_line(caps.network)) + localhost_lines(caps.localhost_ports@) + seq![
        rule_line(),
        blank_line(),
    ]
}

/// Sums up what a command may do. Unless asked for more, only the grants that the user asked for
/// are shown, and the others are counted.
pub fn print_capabilities(caps: &CapabilitySummary, verbose: u8, silent: bool) -> (out: Report)
    ensures
        out@ == if silent {
            Seq::<LineView>::empty()
        } else {
            capability_lines(*caps, verbose > 0)
        },
{
    let mut out = Report::new();
    if silent {
        return out;
    }
    out.line2(Style::Plain, "  ", Style::SubtextBold, "Capabilities:");
    rule(&mut out);
    add_fs(&mut out, &caps.fs, verbose > 0);
    add_sockets(&mut out, &caps.unix_sockets, verbose > 0);
    add_network(&mut out, &caps.network);
    add_localhost(&mut out, &caps.localhost_ports);
    rule(&mut out);
    out.blank();
    assert(out@ =~= capability_lines(*caps, verbose > 0));
    out
}

// ---------------------------------------------------------------------------
// The kernel
// ---------------------------------------------------------------------------

/// What the kernel can do.
#[derive(Debug)]
pub struct DetectedAbi {
    pub name: String,
    pub has_refer: bool,
    pub has_truncate: bool,
    pub has_network: bool,
    pub has_ioctl_dev: bool,
    pub has_scoping: bool,
}

/// A name where something is missing.
pub open spec fn missing(present: bool, name: Seq<char>) -> Seq<Seq<char>> {
    if present {
        Seq::empty()
    } else {
        seq![name]
    }
}

fn push_missing(v: &mut Vec<String>, present: bool, name: &str)
    ensures
        views(final(v)@) == views(old(v)@) + missing(present, name@),
{
    let ghost before = views(v@);
    if !present {
        push_copy(v, name);
    }
    assert(views(v@) =~= before + missing(present, name@));
}

pub open spec fn missing_features(d: DetectedAbi) -> Seq<Seq<char>> {
    missing(d.has_refer, "Refer"@) + missing(d.has_truncate, "Truncate"@) + missing(
        d.has_network,
        "TCP filtering"@,
    ) + missing(d.has_ioctl_dev, "IoctlDev"@) + missing(d.has_scoping, "Scoping"@)
}

pub open spec fn missing_on_wsl2(d: DetectedAbi) -> Seq<Seq<char>> {
    (missing(d.has_network, "per-port filtering"@) + missing(d.has_ioctl_dev, "device ioctl"@)
        + missing(d.has_scoping, "process scoping"@)).push(
        "capability elevation (seccomp notify)"@,
    )
}

pub open spec fn kernel_hint(d: DetectedAbi, wsl2: bool) -> Seq<char> {
    if wsl2 {
        "degraded: "@ + join(missing_on_wsl2(d), ", "@)
            + " unavailable on WSL2\n          (block-all network via --block-net still works)\n          details: https://nono.sh/docs/cli/internals/wsl2"@
    } else {
        "degraded: "@ + join(missing_features(d), ", "@)
            + " (upgrade kernel for full support)"@
    }
}

pub open spec fn abi_lines(detected: Result<DetectedAbi, String>, wsl2: bool) -> Seq<LineView> {
    match detected {
        Ok(d) => if missing_features(d).len() == 0 && !wsl2 {
            Seq::empty()
        } else {
            seq![
                seq![
                    (Style::Plain, "  "@),
                    (Style::BadgeYellow, " kernel "@),
                    (Style::Plain, " "@),
                    (Style::Text, d.name@),
                ],
                seq![(Style::Plain, "          "@), (Style::Yellow, kernel_hint(d, wsl2))],
            ]
        },
        Err(e) => seq![
            seq![
                (Style::Plain, "  "@),
                (Style::BadgeRed, " kernel "@),
                (Style::Plain, " "@),
                (Style::Red, "Landlock detection failed: "@ + e@),
            ],
        ],
    }
}

/// Says what the kernel lacks; nothing where it lacks nothing.
pub fn print_abi_info(detected: &Result<DetectedAbi, String>, wsl2: bool, silent: bool) -> (out: Report)
    ensures
        out@ == if silent {
            Seq::<LineView>::empty()
        } else {
            abi_lines(*detected, wsl2)
        },
{
    let mut out = Report::new();
    if silent {
        return out;
    }
    match detected {
        Ok(d) => {
            let mut lacking: Vec<String> = Vec::new();
            push_missing(&mut lacking, d.has_refer, "Refer");
            push_missing(&mut lacking, d.has_truncate, "Truncate");
            push_missing(&mut lacking, d.has_network, "TCP filtering");
            push_missing(&mut lacking, d.has_ioctl_dev, "IoctlDev");
            push_missing(&mut lacking, d.has_scoping, "Scoping");
            assert(views(lacking@) =~= missing_features(*d));
            assert(views(lacking@).len() == lacking@.len());
            if lacking.len() == 0 && !wsl2 {
                assert(out@ =~= abi_lines(*detected, wsl2));
                return out;
            }
            let hint = if wsl2 {
                let mut v: Vec<String> = Vec::new();
                push_missing(&mut v, d.has_network, "per-port filtering");
                push_missing(&mut v, d.has_ioctl_dev, "device ioctl");
                push_missing(&mut v, d.has_scoping, "process scoping");
                push_copy(&mut v, "capability elevation (seccomp notify)");
                assert(views(v@) =~= missing_on_wsl2(*d));
                let all = join_strings(&v, ", ");
                concat3(
                    "degraded: ",
                    all.as_str(),
                    " unavailable on WSL2\n          (block-all network via --block-net still works)\n          details: https://nono.sh/docs/cli/internals/wsl2",
                )
            } else {
                let all = join_strings(&lacking, ", ");
                concat3("degraded: ", all.as_str(), " (upgrade kernel for full support)")
            };
            out.line4(
                Style::Plain,
                "  ",
                Style::BadgeYellow,
                " kernel ",
                Style::Plain,
                " ",
                Style::Text,
                d.name.as_str(),
            );
            out.line2(Style::Plain, "          ", Style::Yellow, hint.as_str());
        },
        Err(e) => {
            let text = concat2("Landlock detection failed: ", e.as_str());
            out.line4(
                Style::Plain,
                "  ",
                Style::BadgeRed,
                " kernel ",
                Style::Plain,
                " ",
                Style::Red,
                text.as_str(),
            );
        },
    }
    assert(out@ =~= abi_lines(*detected, wsl2));
    out
}

pub open spec fn scope_status(requested: bool, enforced: bool, supported: bool) -> (Style, Seq<char>) {
    if requested && enforced {
        (Style::Green, "requested, enforced"@)
    } else if requested && supported {
        (Style::Yellow, "requested, not enforced"@)
    } else if requested {
        (Style::Yellow, "requested, unsupported by detected ABI"@)
    } else if supported {
        (Style::Subtext, "not requested"@)
    } else {
        (Style::Subtext, "not requested; detected ABI has no scope support"@)
    }
}

/// The state of a scope in words, and the style that it gets.
pub fn format_scope_status(requested: bool, enforced: bool, supported: bool) -> (r: (
    Style,
    &'static str,
))
    ensures
        (r.0, r.1@) == scope_status(requested, enforced, supported),
{
    match (requested, enforced, supported) {
        (true, true, _) => (Style::Green, "requested, enforced"),
        (true, false, false) => (Style::Yellow, "requested, unsupported by detected ABI"),
        (true, false, true) => (Style::Yellow, "requested, not enforced"),
        (false, _, true) => (Style::Subtext, "not requested"),
        (false, _, false) => {
            (Style::Subtext, "not requested; detected ABI has no scope support")
        },
    }
}

pub open spec fn scope_line(label: Seq<char>, status: (Style, Seq<char>)) -> LineView {
    seq![
        (Style::Plain, "          "@),
        (Style::Subtext, label),
        (Style::Plain, " "@),
        status,
    ]
}

pub open spec fn scope_lines(policy: Result<ScopePolicy, String>) -> Seq<LineView> {
    match policy {
        Ok(p) => seq![
            seq![
                (Style::Plain, "  "@),
                (Style::BadgeBlue, " scope "@),
                (Style::Plain, " "@),
                (Style::Subtext, "Landlock "@ + p.abi_version@ + " detected"@),
            ],
            scope_line(
                "signal:"@,
                scope_status(p.signal_requested, p.signal_enforced, p.scoping_supported),
            ),
            scope_line(
                "abstract-unix-socket:"@,
                scope_status(
                    p.abstract_unix_socket_requested,
                    p.abstract_unix_socket_enforced,
                    p.scoping_supported,
                ),
            ),
        ],
        Err(e) => seq![
            seq![
                (Style::Plain, "  "@),
                (Style::BadgeRed, " scope "@),
                (Style::Plain, " "@),
                (Style::Red, "Landlock scope policy unavailable: "@ + e@),
            ],
        ],
    }
}

/// Says which scopes are asked for and enforced, where more is asked for.
pub fn print_landlock_scope_policy(policy: &Result<ScopePolicy, String>, verbose: u8, silent: bool) -> (out: Report)
    ensures
        out@ == if silent || verbose == 0 {
            Seq::<LineView>::empty()
        } else {
            scope_lines(*policy)
        },
{
    let mut out = Report::new();
    if silent || verbose == 0 {
        return out;
    }
    match policy {
        Ok(p) => {
            let head = concat3("Landlock ", p.abi_version.as_str(), " detected");
            out.line4(
                Style::Plain,
                "  ",
                Style::BadgeBlue,
                " scope ",
                Style::Plain,
                " ",
                Style::Subtext,
                head.as_str(),
            );
            let (s1, t1) = format_scope_status(
                p.signal_requested,
                p.signal_enforced,
                p.scoping_supported,
            );
            out.line4(
                Style::Plain,
                "          ",
                Style::Subtext,
                "signal:",
                Style::Plain,
                " ",
                s1,
                t1,
            );
            let (s2, t2) = format_scope_status(
                p.abstract_unix_socket_requested,
                p.abstract_unix_socket_enforced,
                p.scoping_supported,
            );
            out.line4(
                Style::Plain,
                "          ",
                Style::Subtext,
                "abstract-unix-socket:",
                Style::Plain,
                " ",
                s2,
                t2,
            );
        },
        Err(e) => {
            let text = concat2("Landlock scope policy unavailable: ", e.as_str());
            out.line4(
                Style::Plain,
                "  ",
                Style::BadgeRed,
                " scope ",
                Style::Plain,
                " ",
                Style::Red,
                text.as_str(),
            );
        },
    }
    assert(out@ =~= scope_lines(*policy));
    out
}

// ---------------------------------------------------------------------------
// Messages
// ---------------------------------------------------------------------------

pub open spec fn supervised_features(rollback: bool, proxy: bool) -> Seq<Seq<char>> {
    (missing(!rollback, "snapshots"@) + missing(!proxy, "proxy"@)).push("supervisor"@)
}

/// Says why a run is supervised; nothing where it is not.
pub fn print_supervised_info(silent: bool, rollback: bool, proxy_active: bool) -> (r: Option<String>)
    ensures
        r is Some <==> !silent && (rollback || proxy_active),
        r is Some ==> (r->0)@ == "supervised ("@ + join(
            supervised_features(rollback, proxy_active),
            ", "@,
        ) + ")"@,
{
    if silent || (!rollback && !proxy_active) {
        return None;
    }
    let mut features: Vec<String> = Vec::new();
    push_missing(&mut features, !rollback, "snapshots");
    push_missing(&mut features, !proxy_active, "proxy");
    push_copy(&mut features, "supervisor");
    assert(views(features@) =~= supervised_features(rollback, proxy_active));
    let all = join_strings(&features, ", ");
    Some(concat3("supervised (", all.as_str(), ")"))
}

/// Says that the sandbox is about to be entered.
pub fn print_applying_sandbox(silent: bool) -> (out: Report)
    ensures
        out@ == if silent {
            Seq::<LineView>::empty()
        } else {
            Seq::<LineView>::empty().push(
                seq![(Style::Plain, "  "@), (Style::Subtext, "Applying sandbox..."@)],
            ).push(blank_line())
        },
{
    let mut out = Report::new();
    if !silent {
        out.line2(Style::Plain, "  ", Style::Subtext, "Applying sandbox...");
        out.blank();
    }
    out
}

/// A warning.
pub fn print_warning(message: &str) -> (out: Report)
    ensures
        out@ == seq![
            seq![
                (Style::Plain, "  "@),
                (Style::RedBold, "warning:"@),
                (Style::Plain, " "@),
                (Style::Text, message@),
            ],
        ],
{
    let mut out = Report::new();
    out.line4(
        Style::Plain,
        "  ",
        Style::RedBold,
        "warning:",
        Style::Plain,
        " ",
        Style::Text,
        message,
    );
    out
}

pub open spec fn skipped_lines(paths: Seq<Seq<char>>) -> Seq<LineView> {
    (Seq::<LineView>::empty().push(
        seq![
            (Style::Plain, "  "@),
            (Style::RedBold, "warning:"@),
            (Style::Plain, " "@),
            (
                Style::Text,
                "some requested sandbox grants were skipped because the path does not exist:"@,
            ),
        ],
    ) + text_lines("           "@, Style::Subtext, paths)).push(blank_line())
}

/// Says which grants were left out because the path does not exist.
pub fn print_skipped_requested_paths(paths: &Vec<String>, silent: bool) -> (out: Report)
    ensures
        out@ == if silent || paths@.len() == 0 {
            Seq::<LineView>::empty()
        } else {
            skipped_lines(views(paths@))
        },
{
    let mut out = Report::new();
    if silent || paths.len() == 0 {
        return out;
    }
    out.line4(
        Style::Plain,
        "  ",
        Style::RedBold,
        "warning:",
        Style::Plain,
        " ",
        Style::Text,
        "some requested sandbox grants were skipped because the path does not exist:",
    );
    out.texts("           ", Style::Subtext, paths);
    out.blank();
    out
}

/// Says that nothing is run, and what would be; `command_line` is free of secrets.
pub fn print_dry_run(command_line: &str, silent: bool) -> (out: Report)
    ensures
        out@ == if silent {
            Seq::<LineView>::empty()
        } else {
            Seq::<LineView>::empty().push(
                seq![
                    (Style::Plain, "  "@),
                    (Style::YellowBold, "dry-run"@),
                    (Style::Plain, " "@),
                    (Style::Subtext, "sandbox would be applied with above capabilities"@),
                ],
            ).push(
                seq![
                    (Style::Plain, "  "@),
                    (Style::Subtext, "$"@),
                    (Style::Plain, " "@),
                    (Style::Text, command_line@),
                ],
            )
        },
{
    let mut out = Report::new();
    if silent {
        return out;
    }
    out.line4(
        Style::Plain,
        "  ",
        Style::YellowBold,
        "dry-run",
        Style::Plain,
        " ",
        Style::Subtext,
        "sandbox would be applied with above capabilities",
    );
    out.line4(
        Style::Plain,
        "  ",
        Style::Subtext,
        "$",
        Style::Plain,
        " ",
        Style::Text,
        command_line,
    );
    out
}

// ---------------------------------------------------------------------------
// Snapshots
// ---------------------------------------------------------------------------

pub open spec fn tracked_line(path: Seq<char>) -> LineView {
    seq![
        (Style::Plain, "  "@),
        (Style::BadgeMuted, " snap "@),
        (Style::Plain, " "@),
        (Style::Subtext, path),
    ]
}

/// The paths that are snapshotted: up to three, or the first two and a count.
pub open spec fn tracked_lines(paths: Seq<Seq<char>>) -> Seq<LineView> {
    if paths.len() <= 3 {
        paths.map_values(|p: Seq<char>| tracked_line(p))
    } else {
        paths.take(2).map_values(|p: Seq<char>| tracked_line(p)).push(
            seq![
                (Style::Plain, "         "@),
                (Style::Subtext, "+ "@ + decimal((paths.len() - 2) as nat) + " more paths"@),
            ],
        )
    }
}

/// Says which paths are snapshotted.
pub fn print_rollback_tracking(paths: &Vec<String>, silent: bool) -> (out: Report)
    ensures
        out@ == if silent {
            Seq::<LineView>::empty()
        } else {
            tracked_lines(views(paths@))
        },
{
    let mut out = Report::new();
    if silent {
        return out;
    }
    let total: usize = paths.len();
    let shown: usize = if total <= 3 {
        total
    } else {
        2
    };
    let ghost all = views(paths@).take(shown as int).map_values(|p: Seq<char>| tracked_line(p));
    let mut i: usize = 0;
    assert(out@ =~= all.take(0));
    while i < shown
        invariant
            i <= shown <= paths@.len(),
            all == views(paths@).take(shown as int).map_values(|p: Seq<char>| tracked_line(p)),
            out@ == all.take(i as int),
        decreases shown - i,
    {
        let p = paths[i].as_str();
        assert(all[i as int] == tracked_line(p@));
        out.line4(
            Style::Plain,
            "  ",
            Style::BadgeMuted,
            " snap ",
            Style::Plain,
            " ",
            Style::Subtext,
            p,
        );
        i += 1;
        assert(all.take(i as int) =~= all.take(i - 1).push(all[i - 1]));
    }
    proof {
        assert(all.take(i as int) =~= all);
        if total <= 3 {
            assert(views(paths@).take(shown as int) =~= views(paths@));
        }
    }
    if total > 3 {
        let n = usize_to_string(total - 2);
        let text = concat3("+ ", n.as_str(), " more paths");
        out.line2(Style::Plain, "         ", Style::Subtext, text.as_str());
    }
    out
}

#[derive(Clone, Copy, Debug, PartialEq, Eq, Structural)]
pub enum ChangeType {
    Created,
    Modified,
    Deleted,
}

pub open spec fn is_kind(c: ChangeType, k: ChangeType) -> bool {
    c == k
}

/// How many changes are of a kind.
pub open spec fn count_of(changes: Seq<ChangeType>, k: ChangeType) -> nat {
    changes.filter(|c: ChangeType| is_kind(c, k)).len()
}

fn count_changes(changes: &Vec<ChangeType>, k: ChangeType) -> (n: usize)
    ensures
        n == count_of(changes@, k),
{
    let ghost keep = |c: ChangeType| is_kind(c, k);
    let mut n: usize = 0;
    let mut i: usize = 0;
    assert(changes@.take(0).filter(keep).len() == 0);
    while i < changes.len()
        invariant
            n <= i <= changes@.len(),
            keep == (|c: ChangeType| is_kind(c, k)),
            n == changes@.take(i as int).filter(keep).len(),
        decreases changes@.len() - i,
    {
        proof {
            lemma_filter_step(changes@, i as int, keep);
        }
        if changes[i] == k {
            n += 1;
        }
        i += 1;
    }
    assert(changes@.take(i as int) =~= changes@);
    n
}

/// A count with its word, in a style, where it is not zero.
pub open spec fn change_part(n: nat, style: Style, word: Seq<char>) -> Seq<(Style, Seq<char>)> {
    if n == 0 {
        Seq::empty()
    } else {
        seq![(style, decimal(n) + word)]
    }
}

pub open spec fn change_parts(changes: Seq<ChangeType>) -> Seq<(Style, Seq<char>)> {
    change_part(count_of(changes, ChangeType::Created), Style::Green, " created"@) + change_part(
        count_of(changes, ChangeType::Modified),
        Style::Yellow,
        " modified"@,
    ) + change_part(count_of(changes, ChangeType::Deleted), Style::Red, " deleted"@)
}

/// Parts with a comma between neighbours.
pub open spec fn with_commas(parts: Seq<(Style, Seq<char>)>) -> Seq<(Style, Seq<char>)>
    decreases parts.len(),
{
    if parts.len() <= 1 {
        parts
    } else {
        with_commas(parts.drop_last()).push((Style::Plain, ", "@)).push(parts.last())
    }
}

pub open spec fn summary_line(changes: Seq<ChangeType>) -> LineView {
    Seq::<(Style, Seq<char>)>::empty().push((Style::Plain, "  "@)).push((Style::Brand, "nono"@)).push(
        (Style::Plain, " "@ + decimal(changes.len()) + " files changed ("@),
    ) + with_commas(change_parts(changes)) + seq![(Style::Plain, ")"@)]
}

fn push_span(line: &mut Vec<Span>, style: Style, text: &str)
    ensures
        line_view(final(line)@) == line_view(old(line)@).push((style, text@)),
{
    line.push(span(style, text));
    assert(line_view(line@) =~= line_view(old(line)@).push((style, text@)));
}

fn push_change_part(line: &mut Vec<Span>, n: usize, style: Style, word: &str)
    ensures
        line_view(final(line)@) == if n == 0 {
            line_view(old(line)@)
        } else if line_view(old(line)@).len() == 0 {
            line_view(old(line)@).push((style, decimal(n as nat) + word@))
        } else {
            line_view(old(line)@).push((Style::Plain, ", "@)).push(
                (style, decimal(n as nat) + word@),
            )
        },
{
    if n > 0 {
        if line.len() > 0 {
            push_span(line, Style::Plain, ", ");
        }
        let count = usize_to_string(n);
        let text = concat2(count.as_str(), word);
        push_span(line, style, text.as_str());
    }
}

pub open spec fn rollback_summary(changes: Seq<ChangeType>) -> Seq<LineView> {
    if changes.len() == 0 {
        Seq::empty()
    } else {
        seq![blank_line(), summary_line(changes)]
    }
}

/// Sums up what a run changed.
pub fn print_rollback_session_summary(changes: &Vec<ChangeType>, silent: bool) -> (out: Report)
    ensures
        out@ == if silent {
            Seq::<LineView>::empty()
        } else {
            rollback_summary(changes@)
        },
{
    let mut out = Report::new();
    if silent || changes.len() == 0 {
        assert(out@ =~= Seq::<LineView>::empty());
        return out;
    }
    let created = count_changes(changes, ChangeType::Created);
    let modified = count_changes(changes, ChangeType::Modified);
    let deleted = count_changes(changes, ChangeType::Deleted);
    let mut parts: Vec<Span> = Vec::new();
    assert(line_view(parts@) =~= Seq::<(Style, Seq<char>)>::empty());
    push_change_part(&mut parts, created, Style::Green, " created");
    push_change_part(&mut parts, modified, Style::Yellow, " modified");
    push_change_part(&mut parts, deleted, Style::Red, " deleted");
    proof {
        lemma_parts(line_view(parts@), created as nat, modified as nat, deleted as nat);
    }
    let total = usize_to_string(changes.len());
    let mut line: Vec<Span> = Vec::new();
    let head = concat3(" ", total.as_str(), " files changed (");
    assert(line_view(line@) =~= Seq::<(Style, Seq<char>)>::empty());
    push_span(&mut line, Style::Plain, "  ");
    push_span(&mut line, Style::Brand, "nono");
    push_span(&mut line, Style::Plain, head.as_str());
    let ghost before = line_view(line@);
    let ghost middle = line_view(parts@);
    line.append(&mut parts);
    assert(line_view(line@) =~= before + middle);
    push_span(&mut line, Style::Plain, ")");
    assert(line_view(line@) =~= summary_line(changes@));
    out.blank();
    out.push_line(line);
    assert(out@ =~= rollback_summary(changes@));
    out
}

proof fn lemma_parts(line: LineView, created: nat, modified: nat, deleted: nat)
    requires
        ({
            let empty = Seq::<(Style, Seq<char>)>::empty();
            let a = if created == 0 {
                empty
            } else {
                empty.push((Style::Green, decimal(created) + " created"@))
            };
            let b = if modified == 0 {
                a
            } else if a.len() == 0 {
                a.push((Style::Yellow, decimal(modified) + " modified"@))
            } else {
                a.push((Style::Plain, ", "@)).push(
                    (Style::Yellow, decimal(modified) + " modified"@),
                )
            };
            line == if deleted == 0 {
                b
            } else if b.len() == 0 {
                b.push((Style::Red, decimal(deleted) + " deleted"@))
            } else {
                b.push((Style::Plain, ", "@)).push((Style::Red, decimal(deleted) + " deleted"@))
            }
        }),
    ensures
        line == with_commas(
            change_part(created, Style::Green, " created"@) + change_part(
                modified,
                Style::Yellow,
                " modified"@,
            ) + change_part(deleted, Style::Red, " deleted"@),
        ),
{
    reveal_with_fuel(with_commas, 4);
    let c = change_part(created, Style::Green, " created"@);
    let m = change_part(modified, Style::Yellow, " modified"@);
    let d = change_part(deleted, Style::Red, " deleted"@);
    let all = c + m + d;
    if deleted > 0 {
        assert(all.drop_last() =~= c + m);
        assert(all.last() == d[0]);
    } else {
        assert(all =~= c + m);
    }
    if modified > 0 {
        assert((c + m).drop_last() =~= c);
        assert((c + m).last() == m[0]);
    } else {
        assert(c + m =~= c);
    }
    assert(line =~= with_commas(all));
}

// ---------------------------------------------------------------------------
// Updates
// ---------------------------------------------------------------------------

/// How the program is brought up to date, judged by where it is.
pub open spec fn install_command(exe: Option<Seq<char>>, has_apt: bool, has_dnf: bool) -> Seq<char> {
    match exe {
        None => "cargo install nono-cli"@,
        Some(path) => if has_sub(path, "/opt/homebrew/"@) || has_sub(
            path,
            "/usr/local/Cellar/"@,
        ) {
            "brew upgrade nono"@
        } else if has_sub(path, "/.cargo/bin/"@) {
            "cargo install nono-cli"@
        } else if has_prefix(path, "/usr/bin/"@) || has_prefix(path, "/usr/local/bin/"@) {
            if has_apt {
                "sudo apt update && sudo apt upgrade nono"@
            } else if has_dnf {
                "sudo dnf upgrade nono"@
            } else {
                "upgrade nono via your package manager"@
            }
        } else {
            "cargo install nono-cli"@
        },
    }
}

pub fn detect_install_command(exe: &Option<String>, has_apt: bool, has_dnf: bool) -> (r: &'static str)
    ensures
        r@ == install_command(opt_view(*exe), has_apt, has_dnf),
{
    let path = match exe {
        Some(p) => p.as_str(),
        None => {
            return "cargo install nono-cli";
        },
    };
    if str_contains(path, "/opt/homebrew/") || str_contains(path, "/usr/local/Cellar/") {
        return "brew upgrade nono";
    }
    if str_contains(path, "/.cargo/bin/") {
        return "cargo install nono-cli";
    }
    if str_starts_with(path, "/usr/bin/") || str_starts_with(path, "/usr/local/bin/") {
        if has_apt {
            return "sudo apt update && sudo apt upgrade nono";
        }
        if has_dnf {
            return "sudo dnf upgrade nono";
        }
        return "upgrade nono via your package manager";
    }
    "cargo install nono-cli"
}

/// A release that is newer, as the update server describes it.
#[derive(Debug)]
pub struct UpdateInfo {
    pub latest_version: String,
    pub message: Option<String>,
    pub release_url: Option<String>,
}

/// An optional text of the server on a line of its own, made safe.
pub open spec fn safe_line(text: Option<Seq<char>>, style: Style) -> Seq<LineView> {
    match text {
        Some(t) => seq![seq![(Style::Plain, "  "@), (style, sanitized(t))]],
        None => Seq::empty(),
    }
}

fn add_safe_line(out: &mut Report, text: &Option<String>, style: Style)
    ensures
        final(out)@ == old(out)@ + safe_line(opt_view(*text), style),
{
    let ghost before = out@;
    if let Some(t) = text {
        let safe = sanitize_terminal_output(t.as_str());
        out.line2(Style::Plain, "  ", style, safe.as_str());
    }
    assert(out@ =~= before + safe_line(opt_view(*text), style));
}

pub open spec fn update_lines(info: UpdateInfo, current: Seq<char>, command: Seq<char>) -> Seq<LineView> {
    ((Seq::<LineView>::empty().push(
        seq![
            (Style::Plain, "  "@),
            (Style::YellowBold, "update"@),
            (Style::Plain, " "@),
            (Style::GreenBold, sanitized(info.latest_version@)),
            (Style::Plain, " "@),
            (Style::Subtext, "available"@),
            (Style::Plain, " "@),
            (Style::Subtext, "(current: "@ + current + ")"@),
        ],
    ) + safe_line(opt_view(info.message), Style::Subtext)).push(
        seq![
            (Style::Plain, "  "@),
            (Style::Subtext, "$"@),
            (Style::Plain, " "@),
            (Style::Text, command),
        ],
    ) + safe_line(opt_view(info.release_url), Style::Blue)).push(blank_line())
}

/// Says that there is a newer release. What the server sent is made safe for the terminal.
pub fn print_update_notification(info: &UpdateInfo, current: &str, command: &str, silent: bool) -> (out: Report)
    ensures
        out@ == if silent {
            Seq::<LineView>::empty()
        } else {
            update_lines(*info, current@, command@)
        },
{
    let mut out = Report::new();
    if silent {
        return out;
    }
    let version = sanitize_terminal_output(info.latest_version.as_str());
    let note = concat3("(current: ", current, ")");
    out.line8(
        Style::Plain,
        "  ",
        Style::YellowBold,
        "update",
        Style::Plain,
        " ",
        Style::GreenBold,
        version.as_str(),
        Style::Plain,
        " ",
        Style::Subtext,
        "available",
        Style::Plain,
        " ",
        Style::Subtext,
        note.as_str(),
    );
    add_safe_line(&mut out, &info.message, Style::Subtext);
    out.line4(
        Style::Plain,
        "  ",
        Style::Subtext,
        "$",
        Style::Plain,
        " ",
        Style::Text,
        command,
    );
    add_safe_line(&mut out, &info.release_url, Style::Blue);
    out.blank();
    out
}

// ---------------------------------------------------------------------------
// The working directory
// ---------------------------------------------------------------------------

/// An access in words, in its style.
pub open spec fn access_inline(a: AccessMode) -> (Style, Seq<char>) {
    match a {
        AccessMode::Read => (Style::Green, "read"@),
        AccessMode::Write => (Style::Yellow, "write"@),
        AccessMode::ReadWrite => (Style::BrandText, "read+write"@),
    }
}

pub fn format_access_inline(a: AccessMode) -> (r: (Style, &'static str))
    ensures
        (r.0, r.1@) == access_inline(a),
{
    match a {
        AccessMode::Read => (Style::Green, "read"),
        AccessMode::Write => (Style::Yellow, "write"),
        AccessMode::ReadWrite => (Style::BrandText, "read+write"),
    }
}

/// The question whether the working directory may be used, or, where nobody can be asked, that it
/// is not put.
pub open spec fn cwd_lines(cwd: Seq<char>, access: AccessMode, interactive: bool) -> Seq<LineView> {
    if interactive {
        Seq::<LineView>::empty().push(
            seq![
                (Style::Plain, "  Share "@),
                (Style::TextBold, cwd),
                (Style::Plain, " with "@),
                access_inline(access),
                (Style::Plain, " access?"@),
            ],
        ).push(
            seq![
                (Style::Plain, "  "@),
                (Style::Subtext, "use --allow-cwd to skip this prompt"@),
            ],
        ).push(seq![(Style::Plain, "  "@), (Style::TextBold, "[y/N]"@), (Style::Plain, " "@)])
    } else {
        Seq::<LineView>::empty().push(
            seq![
                (Style::Plain, "  "@),
                (
                    Style::Subtext,
                    "Skipping CWD prompt (non-interactive). Use --allow-cwd to include working directory."@,
                ),
            ],
        )
    }
}

/// Asks whether the working directory may be used. The last line of the question is left open for
/// the answer; where nobody can be asked, the answer is no.
pub fn prompt_cwd_sharing(cwd: &str, access: AccessMode, interactive: bool) -> (out: Report)
    ensures
        out@ == cwd_lines(cwd@, access, interactive),
{
    let mut out = Report::new();
    if !interactive {
        out.line2(
            Style::Plain,
            "  ",
            Style::Subtext,
            "Skipping CWD prompt (non-interactive). Use --allow-cwd to include working directory.",
        );
        return out;
    }
    let (style, text) = format_access_inline(access);
    out.line5(
        Style::Plain,
        "  Share ",
        Style::TextBold,
        cwd,
        Style::Plain,
        " with ",
        style,
        text,
        Style::Plain,
        " access?",
    );
    out.line2(Style::Plain, "  ", Style::Subtext, "use --allow-cwd to skip this prompt");
    out.line3(Style::Plain, "  ", Style::TextBold, "[y/N]", Style::Plain, " ");
    out
}

/// Whether an answer permits it.
pub fn is_cwd_shared(answer: &str) -> (r: bool)
    ensures
        r == (lower(trim(answer@)) == "y"@ || lower(trim(answer@)) == "yes"@),
{
    let t = str_trim(answer);
    let l = str_lower(t.as_str());
    str_eq(l.as_str(), "y") || str_eq(l.as_str(), "yes")
}

/// The hint that a program has a profile of its own.
pub fn print_profile_hint(program: &str, profile: &str, silent: bool) -> (out: Report)
    ensures
        out@ == if silent {
            Seq::<LineView>::empty()
        } else {
            Seq::<LineView>::empty().push(
                seq![
                    (Style::Plain, "  "@),
                    (
                        Style::Yellow,
                        "Hint: `"@ + program@ + "` usually needs the built-in `"@ + profile@
                            + "` profile for its state and auth paths."@,
                    ),
                ],
            ).push(
                seq![
                    (Style::Plain, "  "@),
                    (
                        Style::Subtext,
                        "Try: nono run --profile "@ + profile@ + " -- "@ + program@,
                    ),
                ],
            ).push(blank_line())
        },
{
    let mut out = Report::new();
    if silent {
        return out;
    }
    let hint = concat5(
        "Hint: `",
        program,
        "` usually needs the built-in `",
        profile,
        "` profile for its state and auth paths.",
    );
    let command = concat4("Try: nono run --profile ", profile, " -- ", program);
    out.line2(Style::Plain, "  ", Style::Yellow, hint.as_str());
    out.line2(Style::Plain, "  ", Style::Subtext, command.as_str());
    out.blank();
    out
}

} // verus!
