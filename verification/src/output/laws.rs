//! What people are told, in terms of what there is to tell.

use crate::capability::{AccessMode, CapabilitySource, FsCapability};
use crate::output::diagnostic::diagnostic_line;
use crate::output::{
    abi_lines, access_inline, capability_lines, change_part, change_parts, count_of, cwd_lines,
    fs_line, fs_lines, install_command, localhost_lines, missing_features, missing_on_wsl2,
    network_line, rollback_summary, scope_lines, scope_status, shown_fs, shown_sockets,
    socket_line, socket_lines, summary_line, supervised_features, with_commas, CapabilitySummary,
    ChangeType, DetectedAbi, SocketScope, UnixSocketCapability, UnixSocketMode,
};
use crate::query_ext::ScopePolicy;
use crate::report::{LineView, Style};
use crate::text::{decimal, has_prefix, has_sub, lemma_in_filtered, lemma_in_sum};
use vstd::prelude::*;

verus! {

/// A line has a piece with this style and text.
pub open spec fn says(line: LineView, style: Style, text: Seq<char>) -> bool {
    exists|i: int| 0 <= i < line.len() && #[trigger] line[i] == (style, text)
}

/// Some line has a piece with this style and text.
pub open spec fn told(lines: Seq<LineView>, style: Style, text: Seq<char>) -> bool {
    exists|i: int| 0 <= i < lines.len() && says(#[trigger] lines[i], style, text)
}

/// A line shows a path with the badge of an access.
pub open spec fn shows_path(line: LineView, access: AccessMode, path: Seq<char>) -> bool {
    &&& says(line, Style::Text, path)
    &&& access == AccessMode::Read ==> says(line, Style::BadgeGreen, "  r  "@)
    &&& access == AccessMode::Write ==> says(line, Style::BadgeYellow, "  w  "@)
    &&& access == AccessMode::ReadWrite ==> says(line, Style::BadgeBrand, " r+w "@)
}

/// A line shows a socket with the badge of its mode, and how far the grant reaches.
pub open spec fn shows_socket(line: LineView, c: UnixSocketCapability) -> bool {
    &&& says(line, Style::Text, c.resolved@)
    &&& c.mode == UnixSocketMode::Connect ==> says(line, Style::BadgeGreen, "sock "@)
    &&& c.mode == UnixSocketMode::ConnectBind ==> says(line, Style::BadgeBrand, "sock+"@)
    &&& c.scope == SocketScope::DirChildren ==> says(
        line,
        Style::Subtext,
        "  (directory grant — direct child sockets only)"@,
    )
    &&& c.scope == SocketScope::DirSubtree ==> says(
        line,
        Style::Subtext,
        "  (subtree grant — recursive socket paths)"@,
    )
}

/// A grant that nobody asked for by name.
pub open spec fn in_the_background(s: CapabilitySource) -> bool {
    s is Group || s is System
}

/// How many of the grants nobody asked for by name.
pub open spec fn background_count(caps: Seq<FsCapability>) -> nat
    decreases caps.len(),
{
    if caps.len() == 0 {
        0
    } else if in_the_background(caps.last().source) {
        background_count(caps.drop_last()) + 1
    } else {
        background_count(caps.drop_last())
    }
}

proof fn lemma_shown_count(caps: Seq<FsCapability>)
    ensures
        shown_fs(caps, false).len() + background_count(caps) == caps.len(),
    decreases caps.len(),
{
    reveal(Seq::filter);
    if caps.len() > 0 {
        lemma_shown_count(caps.drop_last());
    }
}

proof fn lemma_all_shown(caps: Seq<FsCapability>)
    ensures
        shown_fs(caps, true).len() == caps.len(),
    decreases caps.len(),
{
    reveal(Seq::filter);
    if caps.len() > 0 {
        lemma_all_shown(caps.drop_last());
    }
}

proof fn lemma_parts_are_told(caps: CapabilitySummary, verbose: bool)
    ensures
        forall|i: int|
            0 <= i < fs_lines(caps.fs@, verbose).len() ==> capability_lines(caps, verbose).contains(
                #[trigger] fs_lines(caps.fs@, verbose)[i],
            ),
        forall|i: int|
            0 <= i < socket_lines(caps.unix_sockets@, verbose).len() ==> capability_lines(
                caps,
                verbose,
            ).contains(#[trigger] socket_lines(caps.unix_sockets@, verbose)[i]),
        capability_lines(caps, verbose).contains(network_line(caps.network)),
        caps.localhost_ports@.len() > 0 ==> capability_lines(caps, verbose).contains(
            localhost_lines(caps.localhost_ports@)[0],
        ),
{
    let all = capability_lines(caps, verbose);
    let f = fs_lines(caps.fs@, verbose);
    let s = socket_lines(caps.unix_sockets@, verbose);
    assert forall|i: int| 0 <= i < f.len() implies all.contains(#[trigger] f[i]) by {
        assert(all[2 + i] == f[i]);
    }
    assert forall|i: int| 0 <= i < s.len() implies all.contains(#[trigger] s[i]) by {
        assert(all[2 + f.len() + i] == s[i]);
    }
    assert(all[2 + f.len() as int + s.len()] == network_line(caps.network));
    if caps.localhost_ports@.len() > 0 {
        assert(all[3 + f.len() as int + s.len()] == localhost_lines(caps.localhost_ports@)[0]);
    }
}

/// Every grant on a path that the user asked for, on the command line or in a profile, is shown with
/// its access; where more is asked for, every grant is.
pub proof fn law_granted_paths_are_shown(caps: CapabilitySummary, verbose: bool, i: int)
    requires
        0 <= i < caps.fs@.len(),
        verbose || !in_the_background(caps.fs@[i].source),
    ensures
        exists|line: LineView| #[trigger]
            capability_lines(caps, verbose).contains(line) && shows_path(
                line,
                caps.fs@[i].access,
                caps.fs@[i].resolved@,
            ),
{
    let c = caps.fs@[i];
    let line = fs_line(c, verbose);
    lemma_in_filtered(
        caps.fs@,
        |c: FsCapability| verbose || crate::output::user_intent(c.source),
        c,
    );
    assert(shown_fs(caps.fs@, verbose).contains(c));
    let k = choose|k: int|
        0 <= k < shown_fs(caps.fs@, verbose).len() && shown_fs(caps.fs@, verbose)[k] == c;
    lemma_parts_are_told(caps, verbose);
    assert(fs_lines(caps.fs@, verbose)[k] == line);
    assert(capability_lines(caps, verbose).contains(line));
    assert(line[3] == (Style::Text, c.resolved@));
    assert(line[1] == crate::output::access_badge(c.access));
}

/// Every grant on sockets that the user asked for is shown with its mode and its reach.
pub proof fn law_granted_sockets_are_shown(caps: CapabilitySummary, verbose: bool, i: int)
    requires
        0 <= i < caps.unix_sockets@.len(),
        verbose || !in_the_background(caps.unix_sockets@[i].source),
    ensures
        exists|line: LineView| #[trigger]
            capability_lines(caps, verbose).contains(line) && shows_socket(
                line,
                caps.unix_sockets@[i],
            ),
{
    let c = caps.unix_sockets@[i];
    let line = socket_line(c, verbose);
    lemma_in_filtered(
        caps.unix_sockets@,
        |c: UnixSocketCapability| verbose || crate::output::user_intent(c.source),
        c,
    );
    let shown = shown_sockets(caps.unix_sockets@, verbose);
    assert(shown.contains(c));
    let k = choose|k: int| 0 <= k < shown.len() && shown[k] == c;
    lemma_parts_are_told(caps, verbose);
    assert(socket_lines(caps.unix_sockets@, verbose)[k] == line);
    assert(capability_lines(caps, verbose).contains(line));
    assert(line[3] == (Style::Text, c.resolved@));
    assert(line[1] == crate::output::socket_badge(c.mode));
    if verbose {
        assert(line[6] == (Style::Subtext, crate::output::scope_suffix(c.scope)));
    } else {
        assert(line[4] == (Style::Subtext, crate::output::scope_suffix(c.scope)));
    }
}

/// Unless more is asked for, the grants on paths that come from groups or from the system are counted
/// and not shown: there is one line for every other grant, and one with the count where there are any.
pub proof fn law_other_paths_are_counted(caps: Seq<FsCapability>)
    ensures
        fs_lines(caps, true).len() == caps.len(),
        background_count(caps) == 0 ==> fs_lines(caps, false).len() == caps.len(),
        background_count(caps) > 0 ==> {
            &&& fs_lines(caps, false).len() == caps.len() - background_count(caps) + 1
            &&& says(
                fs_lines(caps, false).last(),
                Style::Subtext,
                "+ "@ + decimal(background_count(caps)) + " system/group paths"@
                    + " (-v to show)"@,
            )
        },
{
    lemma_shown_count(caps);
    lemma_all_shown(caps);
    if background_count(caps) > 0 {
        let l = fs_lines(caps, false).last();
        assert(l[1] == (
            Style::Subtext,
            "+ "@ + decimal(background_count(caps)) + " system/group paths"@ + " (-v to show)"@,
        ));
    }
}

/// The summary says how the network may be used: not at all, freely, or through the proxy at its
/// port.
pub proof fn law_network_is_told(caps: CapabilitySummary, verbose: bool)
    ensures
        caps.network is Blocked ==> told(
            capability_lines(caps, verbose),
            Style::Subtext,
            "outbound blocked"@,
        ),
        caps.network is AllowAll ==> told(
            capability_lines(caps, verbose),
            Style::Subtext,
            "outbound allowed"@,
        ),
        caps.network is ProxyOnly ==> exists|line: LineView| #[trigger]
            capability_lines(caps, verbose).contains(line) && line.len() == 4 && has_prefix(
                line[3].1,
                "proxy localhost:"@ + decimal(caps.network->port as nat),
            ),
        caps.network is ProxyOnly && caps.network->bind_ports@.len() == 0 ==> told(
            capability_lines(caps, verbose),
            Style::Subtext,
            "proxy localhost:"@ + decimal(caps.network->port as nat),
        ),
{
    lemma_parts_are_told(caps, verbose);
    let all = capability_lines(caps, verbose);
    let line = network_line(caps.network);
    let k = choose|k: int| 0 <= k < all.len() && all[k] == line;
    assert(says(line, line[3].0, line[3].1)) by {
        assert(line[3] == (line[3].0, line[3].1));
    }
    assert(says(all[k], line[3].0, line[3].1));
    if caps.network is ProxyOnly {
        let head = "proxy localhost:"@ + decimal(caps.network->port as nat);
        assert(line[3].1.subrange(0, head.len() as int) =~= head);
        assert(all.contains(line));
    }
}

/// The words for an access name what it permits.
pub proof fn law_access_in_words(a: AccessMode)
    ensures
        a == AccessMode::Read ==> access_inline(a).1 == "read"@,
        a == AccessMode::Write ==> access_inline(a).1 == "write"@,
        a == AccessMode::ReadWrite ==> access_inline(a).1 == "read+write"@,
{
}

/// The question about the working directory names it and the access; where nobody can be asked, no
/// question is put.
pub proof fn law_questions_about_directories(cwd: Seq<char>, a: AccessMode, interactive: bool)
    ensures
        interactive ==> told(cwd_lines(cwd, a, interactive), Style::TextBold, cwd) && told(
            cwd_lines(cwd, a, interactive),
            Style::TextBold,
            "[y/N]"@,
        ),
        interactive && a == AccessMode::Read ==> told(
            cwd_lines(cwd, a, interactive),
            Style::Green,
            "read"@,
        ),
        interactive && a == AccessMode::Write ==> told(
            cwd_lines(cwd, a, interactive),
            Style::Yellow,
            "write"@,
        ),
        interactive && a == AccessMode::ReadWrite ==> told(
            cwd_lines(cwd, a, interactive),
            Style::BrandText,
            "read+write"@,
        ),
        !interactive ==> cwd_lines(cwd, a, interactive).len() == 1,
{
    if interactive {
        let l = cwd_lines(cwd, a, interactive);
        assert(l[0][1] == (Style::TextBold, cwd));
        assert(l[0][3] == access_inline(a));
        assert(l[2][1] == (Style::TextBold, "[y/N]"@));
        assert(says(l[0], Style::TextBold, cwd));
        assert(says(l[0], access_inline(a).0, access_inline(a).1)) by {
            assert(l[0][3] == (access_inline(a).0, access_inline(a).1));
        }
        assert(says(l[2], Style::TextBold, "[y/N]"@));
    }
}

/// A scope counts as enforced only where it was asked for and is; what was asked for and is not
/// enforced is told apart by whether the kernel could.
pub proof fn law_states_of_scopes(requested: bool, enforced: bool, supported: bool)
    ensures
        scope_status(requested, enforced, supported).0 == Style::Green <==> requested && enforced,
        scope_status(requested, enforced, supported).0 == Style::Yellow <==> requested && !enforced,
        scope_status(requested, enforced, supported).0 == Style::Subtext <==> !requested,
        requested && enforced ==> scope_status(requested, enforced, supported).1
            == "requested, enforced"@,
        requested && !enforced && supported ==> scope_status(requested, enforced, supported).1
            == "requested, not enforced"@,
        requested && !enforced && !supported ==> scope_status(requested, enforced, supported).1
            == "requested, unsupported by detected ABI"@,
        !requested && supported ==> scope_status(requested, enforced, supported).1
            == "not requested"@,
        !requested && !supported ==> scope_status(requested, enforced, supported).1
            == "not requested; detected ABI has no scope support"@,
{
}

/// The lines on scopes speak of signals first and of sockets then, each by what holds of it.
pub proof fn law_scopes_are_told(p: ScopePolicy)
    ensures
        ({
            let l = scope_lines(Ok(p));
            &&& l.len() >= 3
            &&& says(l[1], Style::Subtext, "signal:"@)
            &&& says(l[2], Style::Subtext, "abstract-unix-socket:"@)
            &&& p.signal_requested && p.signal_enforced ==> says(
                l[1],
                Style::Green,
                "requested, enforced"@,
            )
            &&& p.signal_requested && !p.signal_enforced && p.scoping_supported ==> says(
                l[1],
                Style::Yellow,
                "requested, not enforced"@,
            )
            &&& p.abstract_unix_socket_requested && p.abstract_unix_socket_enforced ==> says(
                l[2],
                Style::Green,
                "requested, enforced"@,
            )
            &&& p.abstract_unix_socket_requested && !p.abstract_unix_socket_enforced
                && p.scoping_supported ==> says(l[2], Style::Yellow, "requested, not enforced"@)
        }),
{
    let l = scope_lines(Ok(p));
    assert(l[1][1] == (Style::Subtext, "signal:"@));
    assert(l[2][1] == (Style::Subtext, "abstract-unix-socket:"@));
    let s = scope_status(p.signal_requested, p.signal_enforced, p.scoping_supported);
    let t = scope_status(
        p.abstract_unix_socket_requested,
        p.abstract_unix_socket_enforced,
        p.scoping_supported,
    );
    assert(l[1][3] == (s.0, s.1));
    assert(l[2][3] == (t.0, t.1));
}

/// A feature is named as missing exactly where the kernel lacks it, and nothing else is.
pub proof fn law_missing_features(d: DetectedAbi, x: Seq<char>)
    ensures
        missing_features(d).contains(x) <==> {
            ||| x == "Refer"@ && !d.has_refer
            ||| x == "Truncate"@ && !d.has_truncate
            ||| x == "TCP filtering"@ && !d.has_network
            ||| x == "IoctlDev"@ && !d.has_ioctl_dev
            ||| x == "Scoping"@ && !d.has_scoping
        },
        missing_on_wsl2(d).contains(x) <==> {
            ||| x == "per-port filtering"@ && !d.has_network
            ||| x == "device ioctl"@ && !d.has_ioctl_dev
            ||| x == "process scoping"@ && !d.has_scoping
            ||| x == "capability elevation (seccomp notify)"@
        },
        abi_lines(Ok(d), false).len() == 0 <==> d.has_refer && d.has_truncate && d.has_network
            && d.has_ioctl_dev && d.has_scoping,
        abi_lines(Ok(d), true).len() > 0,
{
    let a = crate::output::missing(d.has_refer, "Refer"@);
    let b = crate::output::missing(d.has_truncate, "Truncate"@);
    let c = crate::output::missing(d.has_network, "TCP filtering"@);
    let e = crate::output::missing(d.has_ioctl_dev, "IoctlDev"@);
    let f = crate::output::missing(d.has_scoping, "Scoping"@);
    lemma_in_missing(d.has_refer, "Refer"@, x);
    lemma_in_missing(d.has_truncate, "Truncate"@, x);
    lemma_in_missing(d.has_network, "TCP filtering"@, x);
    lemma_in_missing(d.has_ioctl_dev, "IoctlDev"@, x);
    lemma_in_missing(d.has_scoping, "Scoping"@, x);
    lemma_in_sum(a, b, x);
    lemma_in_sum(a + b, c, x);
    lemma_in_sum(a + b + c, e, x);
    lemma_in_sum(a + b + c + e, f, x);
    let g = crate::output::missing(d.has_network, "per-port filtering"@);
    let h = crate::output::missing(d.has_ioctl_dev, "device ioctl"@);
    let i = crate::output::missing(d.has_scoping, "process scoping"@);
    lemma_in_missing(d.has_network, "per-port filtering"@, x);
    lemma_in_missing(d.has_ioctl_dev, "device ioctl"@, x);
    lemma_in_missing(d.has_scoping, "process scoping"@, x);
    lemma_in_sum(g, h, x);
    lemma_in_sum(g + h, i, x);
    let last = "capability elevation (seccomp notify)"@;
    lemma_in_missing(false, last, x);
    lemma_in_sum(g + h + i, seq![last], x);
    assert(missing_on_wsl2(d) =~= g + h + i + seq![last]);
}

proof fn lemma_in_missing(present: bool, name: Seq<char>, x: Seq<char>)
    ensures
        crate::output::missing(present, name).contains(x) <==> !present && x == name,
{
    if !present {
        assert(crate::output::missing(present, name)[0] == name);
    }
}

/// A supervised run names what it is supervised for.
pub proof fn law_reasons_to_supervise(rollback: bool, proxy: bool, x: Seq<char>)
    ensures
        supervised_features(rollback, proxy).contains(x) <==> {
            ||| x == "snapshots"@ && rollback
            ||| x == "proxy"@ && proxy
            ||| x == "supervisor"@
        },
{
    let a = crate::output::missing(!rollback, "snapshots"@);
    let b = crate::output::missing(!proxy, "proxy"@);
    let c = "supervisor"@;
    lemma_in_missing(!rollback, "snapshots"@, x);
    lemma_in_missing(!proxy, "proxy"@, x);
    lemma_in_missing(false, c, x);
    lemma_in_sum(a, b, x);
    lemma_in_sum(a + b, seq![c], x);
    assert(supervised_features(rollback, proxy) =~= a + b + seq![c]);
}

/// How many of the changes are of a kind.
pub open spec fn how_many(changes: Seq<ChangeType>, k: ChangeType) -> nat
    decreases changes.len(),
{
    if changes.len() == 0 {
        0
    } else {
        how_many(changes.drop_last(), k) + (if changes.last() == k {
            1nat
        } else {
            0nat
        })
    }
}

proof fn lemma_count(changes: Seq<ChangeType>, k: ChangeType)
    ensures
        count_of(changes, k) == how_many(changes, k),
    decreases changes.len(),
{
    reveal(Seq::filter);
    if changes.len() > 0 {
        lemma_count(changes.drop_last(), k);
    }
}

proof fn lemma_kinds(changes: Seq<ChangeType>)
    ensures
        how_many(changes, ChangeType::Created) + how_many(changes, ChangeType::Modified) + how_many(
            changes,
            ChangeType::Deleted,
        ) == changes.len(),
    decreases changes.len(),
{
    if changes.len() > 0 {
        lemma_kinds(changes.drop_last());
    }
}

proof fn lemma_commas_keep(parts: Seq<(Style, Seq<char>)>, i: int)
    requires
        0 <= i < parts.len(),
    ensures
        with_commas(parts).contains(parts[i]),
    decreases parts.len(),
{
    let w = with_commas(parts);
    if parts.len() == 1 {
        assert(w[0] == parts[i]);
    } else if i == parts.len() - 1 {
        assert(w.last() == parts[i]);
    } else {
        let front = parts.drop_last();
        lemma_commas_keep(front, i);
        let f = with_commas(front);
        let k = choose|k: int| 0 <= k < f.len() && f[k] == front[i];
        assert(w[k] == parts[i]);
    }
}

/// What a run changed is summed up by how many files it created, modified and deleted, and by how
/// many that are in all; a kind without a file is passed over.
pub proof fn law_changes_are_counted(changes: Seq<ChangeType>)
    ensures
        how_many(changes, ChangeType::Created) + how_many(changes, ChangeType::Modified) + how_many(
            changes,
            ChangeType::Deleted,
        ) == changes.len(),
        changes.len() == 0 ==> rollback_summary(changes).len() == 0,
        changes.len() > 0 ==> told(
            rollback_summary(changes),
            Style::Plain,
            " "@ + decimal(changes.len()) + " files changed ("@,
        ),
        how_many(changes, ChangeType::Created) > 0 ==> told(
            rollback_summary(changes),
            Style::Green,
            decimal(how_many(changes, ChangeType::Created)) + " created"@,
        ),
        how_many(changes, ChangeType::Modified) > 0 ==> told(
            rollback_summary(changes),
            Style::Yellow,
            decimal(how_many(changes, ChangeType::Modified)) + " modified"@,
        ),
        how_many(changes, ChangeType::Deleted) > 0 ==> told(
            rollback_summary(changes),
            Style::Red,
            decimal(how_many(changes, ChangeType::Deleted)) + " deleted"@,
        ),
{
    lemma_kinds(changes);
    lemma_count(changes, ChangeType::Created);
    lemma_count(changes, ChangeType::Modified);
    lemma_count(changes, ChangeType::Deleted);
    let parts = change_parts(changes);
    let a = change_part(how_many(changes, ChangeType::Created), Style::Green, " created"@);
    let b = change_part(how_many(changes, ChangeType::Modified), Style::Yellow, " modified"@);
    let c = change_part(how_many(changes, ChangeType::Deleted), Style::Red, " deleted"@);
    assert(parts =~= a + b + c);
    let line = summary_line(changes);
    let all = with_commas(parts);
    assert forall|x: (Style, Seq<char>)| all.contains(x) implies says(line, x.0, x.1) by {
        let k = choose|k: int| 0 <= k < all.len() && all[k] == x;
        assert(line[3 + k] == (x.0, x.1));
    }
    if changes.len() > 0 {
        assert(rollback_summary(changes)[1] == line);
        assert(line[2] == (Style::Plain, " "@ + decimal(changes.len()) + " files changed ("@));
        assert(says(line, Style::Plain, " "@ + decimal(changes.len()) + " files changed ("@));
    }
    if a.len() > 0 {
        assert(parts[0] == a[0]);
        lemma_commas_keep(parts, 0);
        assert(says(line, a[0].0, a[0].1));
    }
    if b.len() > 0 {
        assert(parts[a.len() as int] == b[0]);
        lemma_commas_keep(parts, a.len() as int);
        assert(says(line, b[0].0, b[0].1));
    }
    if c.len() > 0 {
        assert(parts[a.len() as int + b.len()] == c[0]);
        lemma_commas_keep(parts, (a.len() + b.len()) as int);
        assert(says(line, c[0].0, c[0].1));
    }
}

/// The program is brought up to date by whoever put it where it is: Homebrew, Cargo, or the package
/// manager of the system for what is in a directory of the system. A program of unknown place is
/// installed anew by Cargo.
pub proof fn law_ways_to_update(path: Seq<char>, has_apt: bool, has_dnf: bool)
    ensures
        install_command(None, has_apt, has_dnf) == "cargo install nono-cli"@,
        has_sub(path, "/opt/homebrew/"@) || has_sub(path, "/usr/local/Cellar/"@) ==> install_command(
            Some(path),
            has_apt,
            has_dnf,
        ) == "brew upgrade nono"@,
        !has_sub(path, "/opt/homebrew/"@) && !has_sub(path, "/usr/local/Cellar/"@) ==> {
            let cargo = has_sub(path, "/.cargo/bin/"@) || !(has_prefix(path, "/usr/bin/"@)
                || has_prefix(path, "/usr/local/bin/"@));
            let way = install_command(Some(path), has_apt, has_dnf);
            &&& cargo ==> way == "cargo install nono-cli"@
            &&& !cargo && has_apt ==> way == "sudo apt update && sudo apt upgrade nono"@
            &&& !cargo && !has_apt && has_dnf ==> way == "sudo dnf upgrade nono"@
            &&& !cargo && !has_apt && !has_dnf ==> way == "upgrade nono via your package manager"@
        },
{
}

proof fn lemma_prefix_char(s: Seq<char>, p: Seq<char>, k: int)
    requires
        0 <= k < p.len(),
        k < s.len() ==> s[k] != p[k],
    ensures
        !has_prefix(s, p),
{
    if has_prefix(s, p) {
        assert(s.subrange(0, p.len() as int)[k] == p[k]);
    }
}

proof fn lemma_labelled(idx: nat, label: Seq<char>, rest: Seq<char>)
    requires
        label.len() >= 7,
        label[0] == ' ' && label[1] == ' ',
        label[2] == 'T' || label[2] == 'W' || label[2] == 'L' || label[2] == 'N',
    ensures
        ({
            let line = label + rest;
            &&& has_prefix(line, label)
            &&& line.skip(label.len() as int) == rest
            &&& line.len() > 0
            &&& line[0] == ' '
            &&& line != "nono diagnostic"@
            &&& !crate::output::diagnostic::all_rules(line)
            &&& !has_prefix(line, "The command failed"@)
            &&& !has_prefix(line, "The command succeeded"@)
            &&& label[2] != 'T' ==> !has_prefix(line, "  Try: "@)
            &&& label[2] != 'W' ==> !has_prefix(line, "  Why: "@)
            &&& label[2] != 'L' ==> !has_prefix(line, "  Learn: "@)
            &&& !has_prefix(line, "  Re-use "@)
            &&& line != "  Allowed paths:"@
        }),
{
    let line = label + rest;
    assert(line.subrange(0, label.len() as int) =~= label);
    assert(line.skip(label.len() as int) =~= rest);
    assert(line[0] == label[0]);
    assert(line[2] == label[2]);
    reveal_strlit("nono diagnostic");
    reveal_strlit("The command failed");
    reveal_strlit("The command succeeded");
    reveal_strlit("  Try: ");
    reveal_strlit("  Why: ");
    reveal_strlit("  Learn: ");
    reveal_strlit("  Re-use ");
    reveal_strlit("  Allowed paths:");
    assert("nono diagnostic"@[0] != line[0]);
    assert("  Allowed paths:"@[2] != line[2]);
    lemma_prefix_char(line, "The command failed"@, 0);
    lemma_prefix_char(line, "The command succeeded"@, 0);
    if label[2] != 'T' {
        lemma_prefix_char(line, "  Try: "@, 2);
    }
    if label[2] != 'W' {
        lemma_prefix_char(line, "  Why: "@, 2);
    }
    if label[2] != 'L' {
        lemma_prefix_char(line, "  Learn: "@, 2);
    }
    lemma_prefix_char(line, "  Re-use "@, 2);
}

/// Advice, reasons and the state of the network keep their text, with the label before it in a style
/// of its own. A blocked network is shown in red and one that is allowed in green.
pub proof fn law_labelled_lines(idx: nat, rest: Seq<char>)
    ensures
        says(diagnostic_line(idx, "  Try: "@ + rest), Style::TextBold, rest),
        says(diagnostic_line(idx, "  Why: "@ + rest), Style::Text, rest),
        says(diagnostic_line(idx, "  Learn: "@ + rest), Style::Text, rest),
        has_sub(rest, "blocked"@) ==> says(
            diagnostic_line(idx, "  Network: "@ + rest),
            Style::Red,
            rest,
        ),
        !has_sub(rest, "blocked"@) && has_sub(rest, "allowed"@) ==> says(
            diagnostic_line(idx, "  Network: "@ + rest),
            Style::Green,
            rest,
        ),
        !has_sub(rest, "blocked"@) && !has_sub(rest, "allowed"@) ==> says(
            diagnostic_line(idx, "  Network: "@ + rest),
            Style::Blue,
            rest,
        ),
{
    reveal_strlit("  Try: ");
    reveal_strlit("  Why: ");
    reveal_strlit("  Learn: ");
    reveal_strlit("  Network: ");
    lemma_labelled(idx, "  Try: "@, rest);
    lemma_labelled(idx, "  Why: "@, rest);
    lemma_labelled(idx, "  Learn: "@, rest);
    lemma_labelled(idx, "  Network: "@, rest);
    let t = diagnostic_line(idx, "  Try: "@ + rest);
    let w = diagnostic_line(idx, "  Why: "@ + rest);
    let l = diagnostic_line(idx, "  Learn: "@ + rest);
    let n = diagnostic_line(idx, "  Network: "@ + rest);
    assert(t[3] == (Style::TextBold, rest));
    assert(w[3] == (Style::Text, rest));
    assert(l[3] == (Style::Text, rest));
    assert(n[3].1 == rest);
    assert(n[3] == (n[3].0, rest));
}

/// Up to three tracked paths are all shown; of more the first two are, and the others are counted.
pub proof fn law_tracked_paths(paths: Seq<Seq<char>>, i: int)
    ensures
        paths.len() <= 3 ==> crate::output::tracked_lines(paths).len() == paths.len(),
        paths.len() > 3 ==> crate::output::tracked_lines(paths).len() == 3 && told(
            crate::output::tracked_lines(paths),
            Style::Subtext,
            "+ "@ + decimal((paths.len() - 2) as nat) + " more paths"@,
        ),
        0 <= i < paths.len() && (i < 2 || paths.len() <= 3) ==> told(
            crate::output::tracked_lines(paths),
            Style::Subtext,
            paths[i],
        ),
{
    let l = crate::output::tracked_lines(paths);
    if paths.len() > 3 {
        let text = "+ "@ + decimal((paths.len() - 2) as nat) + " more paths"@;
        assert(l[2][1] == (Style::Subtext, text));
        assert(says(l[2], Style::Subtext, text));
    }
    if 0 <= i < paths.len() && (i < 2 || paths.len() <= 3) {
        assert(l[i] == crate::output::tracked_line(paths[i]));
        assert(l[i][3] == (Style::Subtext, paths[i]));
        assert(says(l[i], Style::Subtext, paths[i]));
    }
}

/// A newer release is told with its version, the version at hand and the command, and what the server
/// says of it is told where it says something.
pub proof fn law_updates_are_told(
    info: crate::output::UpdateInfo,
    current: Seq<char>,
    command: Seq<char>,
)
    ensures
        ({
            let l = crate::output::update_lines(info, current, command);
            &&& told(
                l,
                Style::GreenBold,
                crate::output::diagnostic::sanitized(info.latest_version@),
            )
            &&& told(l, Style::Subtext, "(current: "@ + current + ")"@)
            &&& told(l, Style::Text, command)
            &&& info.message is Some ==> told(
                l,
                Style::Subtext,
                crate::output::diagnostic::sanitized((info.message->0)@),
            )
            &&& info.release_url is Some ==> told(
                l,
                Style::Blue,
                crate::output::diagnostic::sanitized((info.release_url->0)@),
            )
        }),
{
    let l = crate::output::update_lines(info, current, command);
    let n: int = if info.message is Some {
        1
    } else {
        0
    };
    let version = crate::output::diagnostic::sanitized(info.latest_version@);
    assert(l[0][3] == (Style::GreenBold, version));
    assert(l[0][7] == (Style::Subtext, "(current: "@ + current + ")"@));
    assert(says(l[0], Style::GreenBold, version));
    assert(says(l[0], Style::Subtext, "(current: "@ + current + ")"@));
    if info.message is Some {
        let t = crate::output::diagnostic::sanitized((info.message->0)@);
        assert(l[1][1] == (Style::Subtext, t));
        assert(says(l[1], Style::Subtext, t));
    }
    assert(l[1 + n][3] == (Style::Text, command));
    assert(says(l[1 + n], Style::Text, command));
    if info.release_url is Some {
        let t = crate::output::diagnostic::sanitized((info.release_url->0)@);
        assert(l[2 + n][1] == (Style::Blue, t));
        assert(says(l[2 + n], Style::Blue, t));
    }
}

/// To a file a message goes as it is, with an end of line; on a terminal every line of it starts at
/// the left, clears the rest of its line and ends it.
pub proof fn law_blocks_of_messages(message: Seq<char>, l: Seq<Seq<char>>, last: Seq<char>)
    ensures
        crate::output::diagnostic::terminal_block(message, false, false) == message + seq!['\n'],
        crate::output::diagnostic::terminal_block(message, true, false) == seq!['\n'] + message
            + seq!['\n'],
        crate::output::diagnostic::tty_block(l.push(last)) == crate::output::diagnostic::tty_block(l)
            + (seq!['\r'] + last + seq!['\u{1b}', '[', 'K', '\r', '\n']),
        crate::output::diagnostic::terminal_block(message, false, true)
            == crate::output::diagnostic::tty_block(crate::text::lines(message)),
{
    reveal_strlit("\n");
    reveal_strlit("");
    reveal_strlit("\r");
    reveal_strlit("\x1b[K\r\n");
    assert("\n"@ =~= seq!['\n']);
    assert("\r"@ =~= seq!['\r']);
    assert("\x1b[K\r\n"@ =~= seq!['\u{1b}', '[', 'K', '\r', '\n']);
    assert(""@ + message + "\n"@ =~= message + seq!['\n']);
    assert(l.push(last).drop_last() =~= l);
    assert(""@ + crate::output::diagnostic::tty_block(crate::text::lines(message))
        =~= crate::output::diagnostic::tty_block(crate::text::lines(message)));
}

} // verus!
