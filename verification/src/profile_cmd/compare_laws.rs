//! What comparing two profiles says of them.

use crate::assoc::{has_key, keys, lemma_key_index, lookup};
use crate::json::{change_object, has_member, JsonView};
use crate::profile::{HookConfig, Profile};
use crate::profile_cmd::diff::{
    composition_lines, custom_credential_lines, diff_lines, difference_lines, env_credential_lines,
    filesystem_lines, hook_changed, hook_lines, list_lines, localhost_allowed, mapping_keys,
    network_lines, network_profile_lines, open_url_lines, opt_bool_text, origins, port_texts,
    rollback_lines, scalar_lines, section, security_lines, set_lines, signed_line, signed_lines,
    switch_lines, workdir_lines,
};
use crate::profile_cmd::diff_json::{
    diff_json, filesystem_json, hooks_json, list_json, missing_keys, network_json,
};
use crate::report::{marked_lines, LineView, Style};
use crate::text::{
    difference, lemma_in_filtered, lemma_in_sorted, lemma_in_sum, opt_view, sort_unique, views,
};
use vstd::prelude::*;

verus! {

/// A line says that something was added to the list with a label.
pub open spec fn adds(line: LineView, label: Seq<char>, x: Seq<char>) -> bool {
    line.len() == 6 && line[1] == (Style::Green, "+"@) && line[3].1 == label && line[5] == (
        Style::Green,
        x,
    )
}

/// A line says that something was taken from the list with a label.
pub open spec fn takes(line: LineView, label: Seq<char>, x: Seq<char>) -> bool {
    line.len() == 6 && line[1] == (Style::Red, "-"@) && line[3].1 == label && line[5] == (
        Style::Red,
        x,
    )
}

/// Some line says that something was added to the list with a label.
pub open spec fn added(lines: Seq<LineView>, label: Seq<char>, x: Seq<char>) -> bool {
    exists|l: LineView| #[trigger] lines.contains(l) && adds(l, label, x)
}

/// Some line says that something was taken from the list with a label.
pub open spec fn taken(lines: Seq<LineView>, label: Seq<char>, x: Seq<char>) -> bool {
    exists|l: LineView| #[trigger] lines.contains(l) && takes(l, label, x)
}

proof fn lemma_difference(a: Seq<Seq<char>>, b: Seq<Seq<char>>, x: Seq<char>)
    ensures
        difference(a, b).contains(x) <==> a.contains(x) && !b.contains(x),
{
    lemma_in_filtered(sort_unique(a), |x: Seq<char>| !b.contains(x), x);
    lemma_in_sorted(a, x);
}

proof fn lemma_signed(sign: Seq<char>, style: Style, label: Seq<char>, v: Seq<Seq<char>>, l: LineView)
    ensures
        signed_lines(sign, style, label, v).contains(l) <==> exists|x: Seq<char>| #[trigger]
            v.contains(x) && l == signed_line(sign, style, label, x),
{
    let s = signed_lines(sign, style, label, v);
    if s.contains(l) {
        let i = choose|i: int| 0 <= i < s.len() && s[i] == l;
        assert(v.contains(v[i]));
        assert(l == signed_line(sign, style, label, v[i]));
    }
    if exists|x: Seq<char>| #[trigger] v.contains(x) && l == signed_line(sign, style, label, x) {
        let x = choose|x: Seq<char>| #[trigger]
            v.contains(x) && l == signed_line(sign, style, label, x);
        let i = choose|i: int| 0 <= i < v.len() && v[i] == x;
        assert(s[i] == l);
    }
}

/// What only the second of two lists has is shown as added, in green; what only the first has as
/// taken, in red; and nothing else is shown.
pub proof fn law_compared_lists(label: Seq<char>, a: Seq<Seq<char>>, b: Seq<Seq<char>>, x: Seq<char>)
    ensures
        added(list_lines(label, a, b), label, x) <==> b.contains(x) && !a.contains(x),
        taken(list_lines(label, a, b), label, x) <==> a.contains(x) && !b.contains(x),
{
    let lost = difference(a, b);
    let new = difference(b, a);
    let minus = signed_lines("-"@, Style::Red, label, lost);
    let plus = signed_lines("+"@, Style::Green, label, new);
    let all = list_lines(label, a, b);
    lemma_difference(a, b, x);
    lemma_difference(b, a, x);
    let p = signed_line("+"@, Style::Green, label, x);
    let m = signed_line("-"@, Style::Red, label, x);
    lemma_signed("+"@, Style::Green, label, new, p);
    lemma_signed("-"@, Style::Red, label, lost, m);
    lemma_in_sum(minus, plus, p);
    lemma_in_sum(minus, plus, m);
    if new.contains(x) {
        assert(all.contains(p) && adds(p, label, x));
    }
    if lost.contains(x) {
        assert(all.contains(m) && takes(m, label, x));
    }
    if added(all, label, x) {
        let l = choose|l: LineView| #[trigger] all.contains(l) && adds(l, label, x);
        lemma_in_sum(minus, plus, l);
        lemma_signed("+"@, Style::Green, label, new, l);
        lemma_signed("-"@, Style::Red, label, lost, l);
        assert(l[1].0 == Style::Green);
        if minus.contains(l) {
            let y = choose|y: Seq<char>| #[trigger]
                lost.contains(y) && l == signed_line("-"@, Style::Red, label, y);
            assert(l[1].0 == Style::Red);
        }
        let y = choose|y: Seq<char>| #[trigger]
            new.contains(y) && l == signed_line("+"@, Style::Green, label, y);
        assert(l[5] == (Style::Green, y));
    }
    if taken(all, label, x) {
        let l = choose|l: LineView| #[trigger] all.contains(l) && takes(l, label, x);
        lemma_in_sum(minus, plus, l);
        lemma_signed("+"@, Style::Green, label, new, l);
        lemma_signed("-"@, Style::Red, label, lost, l);
        assert(l[1].0 == Style::Red);
        if plus.contains(l) {
            let y = choose|y: Seq<char>| #[trigger]
                new.contains(y) && l == signed_line("+"@, Style::Green, label, y);
            assert(l[1].0 == Style::Green);
        }
        let y = choose|y: Seq<char>| #[trigger]
            lost.contains(y) && l == signed_line("-"@, Style::Red, label, y);
        assert(l[5] == (Style::Red, y));
    }
}

/// The same of lists that are shown without a label.
pub proof fn law_compared_sets(a: Seq<Seq<char>>, b: Seq<Seq<char>>, x: Seq<char>)
    ensures
        b.contains(x) && !a.contains(x) ==> exists|l: LineView| #[trigger]
            set_lines(a, b).contains(l) && l.len() == 4 && l[1] == (Style::Green, "+"@) && l[3] == (
                Style::Green,
                x,
            ),
        a.contains(x) && !b.contains(x) ==> exists|l: LineView| #[trigger]
            set_lines(a, b).contains(l) && l.len() == 4 && l[1] == (Style::Red, "-"@) && l[3] == (
                Style::Red,
                x,
            ),
        (forall|y: Seq<char>| a.contains(y) <==> b.contains(y)) ==> set_lines(a, b).len() == 0,
{
    let lost = difference(a, b);
    let new = difference(b, a);
    let minus = marked_lines("    "@, "-"@, Style::Red, lost);
    let plus = marked_lines("    "@, "+"@, Style::Green, new);
    lemma_difference(a, b, x);
    lemma_difference(b, a, x);
    if new.contains(x) {
        let i = choose|i: int| 0 <= i < new.len() && new[i] == x;
        let l = plus[i];
        assert(set_lines(a, b)[minus.len() + i] == l);
        assert(set_lines(a, b).contains(l));
        assert(l[1] == (Style::Green, "+"@) && l[3] == (Style::Green, x));
    }
    if lost.contains(x) {
        let i = choose|i: int| 0 <= i < lost.len() && lost[i] == x;
        let l = minus[i];
        assert(set_lines(a, b)[i] == l);
        assert(set_lines(a, b).contains(l));
        assert(l[1] == (Style::Red, "-"@) && l[3] == (Style::Red, x));
    }
    if forall|y: Seq<char>| a.contains(y) <==> b.contains(y) {
        if lost.len() > 0 {
            lemma_difference(a, b, lost[0]);
            assert(lost.contains(lost[0]));
        }
        if new.len() > 0 {
            lemma_difference(b, a, new[0]);
            assert(new.contains(new[0]));
        }
    }
}

/// A setting that differs is shown with both values, the first in red and the second in green; one
/// that does not is not shown.
pub proof fn law_compared_settings(label: Seq<char>, a: Option<Seq<char>>, b: Option<Seq<char>>)
    ensures
        ({
            let l = scalar_lines(label, a, b);
            &&& a == b <==> l.len() == 0
            &&& a != b ==> l.len() >= 3 && l[1][1].1 == label
            &&& a is Some && b is Some && a != b ==> l.len() == 4 && l[2][1] == (
                Style::Red,
                "- "@ + a->0,
            ) && l[3][1] == (Style::Green, "+ "@ + b->0)
            &&& a is Some && b is None ==> l.len() == 3 && l[2][1] == (Style::Red, "- "@ + a->0)
            &&& a is None && b is Some ==> l.len() == 3 && l[2][1] == (Style::Green, "+ "@ + b->0)
        }),
{
}

/// A switch that differs is shown with both positions.
pub proof fn law_compared_switches(label: Seq<char>, a: bool, b: bool)
    ensures
        ({
            let l = switch_lines(label, a, b);
            &&& a == b <==> l.len() == 0
            &&& a && !b ==> l[0][1] == (Style::Red, "- "@ + label + ": "@ + "true"@) && l[1][1] == (
                Style::Green,
                "+ "@ + label + ": "@ + "false"@,
            )
            &&& !a && b ==> l[0][1] == (Style::Red, "- "@ + label + ": "@ + "false"@) && l[1][1] == (
                Style::Green,
                "+ "@ + label + ": "@ + "true"@,
            )
        }),
{
}

/// The network profiles are shown where they differ, each where there is one.
pub proof fn law_compared_network_profiles(a: Seq<char>, b: Seq<char>)
    ensures
        ({
            let l = network_profile_lines(a, b);
            &&& a == b <==> l.len() == 0
            &&& a != b && a.len() > 0 ==> l[0][1] == (Style::Red, "- network_profile: "@ + a)
            &&& a != b && b.len() > 0 ==> l.last()[1] == (Style::Green, "+ network_profile: "@ + b)
        }),
{
    if a.len() == 0 && b.len() == 0 {
        assert(a =~= b);
    }
}

/// The lines of a report hold all lines of a part of it.
pub open spec fn holds_all(all: Seq<LineView>, part: Seq<LineView>) -> bool {
    forall|l: LineView| #[trigger] part.contains(l) ==> all.contains(l)
}

proof fn lemma_sum_holds(a: Seq<LineView>, b: Seq<LineView>)
    ensures
        holds_all(a + b, a),
        holds_all(a + b, b),
{
    assert forall|l: LineView| #[trigger] a.contains(l) implies (a + b).contains(l) by {
        lemma_in_sum(a, b, l);
    }
    assert forall|l: LineView| #[trigger] b.contains(l) implies (a + b).contains(l) by {
        lemma_in_sum(a, b, l);
    }
}

proof fn lemma_section_holds(title: Seq<char>, body: Seq<LineView>)
    ensures
        holds_all(section(title, body), body),
{
    if body.len() > 0 {
        lemma_sum_holds(seq![crate::report::blank_line(), crate::profile_cmd::diff::title_line(title)], body);
    }
}

/// A report tells all differences between two lists under a label.
pub open spec fn tells(lines: Seq<LineView>, label: Seq<char>, a: Seq<Seq<char>>, b: Seq<Seq<char>>) -> bool {
    forall|x: Seq<char>|
        #![trigger a.contains(x)]
        #![trigger b.contains(x)]
        (b.contains(x) && !a.contains(x) ==> added(lines, label, x)) && (a.contains(x)
            && !b.contains(x) ==> taken(lines, label, x))
}

proof fn lemma_tells(lines: Seq<LineView>, label: Seq<char>, a: Seq<Seq<char>>, b: Seq<Seq<char>>)
    requires
        holds_all(lines, list_lines(label, a, b)),
    ensures
        tells(lines, label, a, b),
{
    assert forall|x: Seq<char>|
        #![trigger a.contains(x)]
        #![trigger b.contains(x)]
        (b.contains(x) && !a.contains(x) ==> added(lines, label, x)) && (a.contains(x)
            && !b.contains(x) ==> taken(lines, label, x)) by {
        law_compared_lists(label, a, b, x);
        let part = list_lines(label, a, b);
        if b.contains(x) && !a.contains(x) {
            let l = choose|l: LineView| #[trigger] part.contains(l) && adds(l, label, x);
            assert(lines.contains(l));
        }
        if a.contains(x) && !b.contains(x) {
            let l = choose|l: LineView| #[trigger] part.contains(l) && takes(l, label, x);
            assert(lines.contains(l));
        }
    }
}

/// The differences between the lists of paths are told under the names of the lists.
pub proof fn law_compared_paths(p1: Profile, p2: Profile)
    ensures
        ({
            let l = filesystem_lines(p1, p2);
            let a = p1.filesystem;
            let b = p2.filesystem;
            &&& tells(l, "allow"@, views(a.allow@), views(b.allow@))
            &&& tells(l, "read"@, views(a.read@), views(b.read@))
            &&& tells(l, "write"@, views(a.write@), views(b.write@))
            &&& tells(l, "allow_file"@, views(a.allow_file@), views(b.allow_file@))
            &&& tells(l, "read_file"@, views(a.read_file@), views(b.read_file@))
            &&& tells(l, "write_file"@, views(a.write_file@), views(b.write_file@))
        }),
{
    let a = p1.filesystem;
    let b = p2.filesystem;
    let l = filesystem_lines(p1, p2);
    let x0 = Seq::<LineView>::empty();
    let y1 = list_lines("allow"@, views(a.allow@), views(b.allow@));
    let y2 = list_lines("read"@, views(a.read@), views(b.read@));
    let y3 = list_lines("write"@, views(a.write@), views(b.write@));
    let y4 = list_lines("allow_file"@, views(a.allow_file@), views(b.allow_file@));
    let y5 = list_lines("read_file"@, views(a.read_file@), views(b.read_file@));
    let y6 = list_lines("write_file"@, views(a.write_file@), views(b.write_file@));
    lemma_sum_holds(x0, y1);
    lemma_sum_holds(x0 + y1, y2);
    lemma_sum_holds(x0 + y1 + y2, y3);
    lemma_sum_holds(x0 + y1 + y2 + y3, y4);
    lemma_sum_holds(x0 + y1 + y2 + y3 + y4, y5);
    lemma_sum_holds(x0 + y1 + y2 + y3 + y4 + y5, y6);
    assert(l == x0 + y1 + y2 + y3 + y4 + y5 + y6);
    lemma_tells(l, "allow"@, views(a.allow@), views(b.allow@));
    lemma_tells(l, "read"@, views(a.read@), views(b.read@));
    lemma_tells(l, "write"@, views(a.write@), views(b.write@));
    lemma_tells(l, "allow_file"@, views(a.allow_file@), views(b.allow_file@));
    lemma_tells(l, "read_file"@, views(a.read_file@), views(b.read_file@));
    lemma_tells(l, "write_file"@, views(a.write_file@), views(b.write_file@));
}

/// The differences in what is left out or forbidden are told under the names of the lists.
pub proof fn law_compared_exclusions(p1: Profile, p2: Profile)
    ensures
        ({
            let l = composition_lines(p1, p2);
            let a = p1.filesystem;
            let b = p2.filesystem;
            &&& tells(l, "groups.exclude"@, views(p1.groups.excluded@), views(p2.groups.excluded@))
            &&& tells(l, "filesystem.deny"@, views(a.deny@), views(b.deny@))
            &&& tells(
                l,
                "filesystem.bypass_protection"@,
                views(a.bypass_protection@),
                views(b.bypass_protection@),
            )
            &&& tells(
                l,
                "filesystem.suppress_save_prompt"@,
                views(a.suppress_save_prompt@),
                views(b.suppress_save_prompt@),
            )
            &&& tells(l, "commands.deny"@, views(p1.commands.deny@), views(p2.commands.deny@))
        }),
{
    let a = p1.filesystem;
    let b = p2.filesystem;
    let l = composition_lines(p1, p2);
    let x0 = Seq::<LineView>::empty();
    let y1 = list_lines(
        "groups.exclude"@,
        views(p1.groups.excluded@),
        views(p2.groups.excluded@),
    );
    let y2 = list_lines("filesystem.deny"@, views(a.deny@), views(b.deny@));
    let y3 = list_lines(
        "filesystem.bypass_protection"@,
        views(a.bypass_protection@),
        views(b.bypass_protection@),
    );
    let y4 = list_lines(
        "filesystem.suppress_save_prompt"@,
        views(a.suppress_save_prompt@),
        views(b.suppress_save_prompt@),
    );
    let y5 = list_lines("commands.deny"@, views(p1.commands.deny@), views(p2.commands.deny@));
    lemma_sum_holds(x0, y1);
    lemma_sum_holds(x0 + y1, y2);
    lemma_sum_holds(x0 + y1 + y2, y3);
    lemma_sum_holds(x0 + y1 + y2 + y3, y4);
    lemma_sum_holds(x0 + y1 + y2 + y3 + y4, y5);
    assert(l == x0 + y1 + y2 + y3 + y4 + y5);
    lemma_tells(
        l,
        "groups.exclude"@,
        views(p1.groups.excluded@),
        views(p2.groups.excluded@),
    );
    lemma_tells(l, "filesystem.deny"@, views(a.deny@), views(b.deny@));
    lemma_tells(
        l,
        "filesystem.bypass_protection"@,
        views(a.bypass_protection@),
        views(b.bypass_protection@),
    );
    lemma_tells(
        l,
        "filesystem.suppress_save_prompt"@,
        views(a.suppress_save_prompt@),
        views(b.suppress_save_prompt@),
    );
    lemma_tells(l, "commands.deny"@, views(p1.commands.deny@), views(p2.commands.deny@));
}

/// The differences between the lists of the network are told under their names, and whether it is
/// blocked is told where that differs.
pub proof fn law_compared_networks(p1: Profile, p2: Profile)
    ensures
        ({
            let l = network_lines(p1, p2);
            let a = p1.network;
            let b = p2.network;
            &&& tells(l, "allow_domain"@, views(a.allow_domain@), views(b.allow_domain@))
            &&& tells(l, "credentials"@, a.credential_names(), b.credential_names())
            &&& tells(l, "upstream_bypass"@, views(a.upstream_bypass@), views(b.upstream_bypass@))
            &&& tells(l, "open_port"@, port_texts(a.open_port@), port_texts(b.open_port@))
            &&& tells(l, "listen_port"@, port_texts(a.listen_port@), port_texts(b.listen_port@))
            &&& holds_all(l, switch_lines("block"@, a.block, b.block))
        }),
{
    let a = p1.network;
    let b = p2.network;
    let l = network_lines(p1, p2);
    let x0 = Seq::<LineView>::empty();
    let y1 = switch_lines("block"@, a.block, b.block);
    let y2 = network_profile_lines(
        crate::profile_cmd::diff::network_profile_text(p1),
        crate::profile_cmd::diff::network_profile_text(p2),
    );
    let y3 = list_lines("allow_domain"@, views(a.allow_domain@), views(b.allow_domain@));
    let y4 = list_lines("credentials"@, a.credential_names(), b.credential_names());
    let y5 = list_lines("upstream_bypass"@, views(a.upstream_bypass@), views(b.upstream_bypass@));
    let y6 = list_lines("open_port"@, port_texts(a.open_port@), port_texts(b.open_port@));
    let y7 = list_lines("listen_port"@, port_texts(a.listen_port@), port_texts(b.listen_port@));
    lemma_sum_holds(x0, y1);
    lemma_sum_holds(x0 + y1, y2);
    lemma_sum_holds(x0 + y1 + y2, y3);
    lemma_sum_holds(x0 + y1 + y2 + y3, y4);
    lemma_sum_holds(x0 + y1 + y2 + y3 + y4, y5);
    lemma_sum_holds(x0 + y1 + y2 + y3 + y4 + y5, y6);
    lemma_sum_holds(x0 + y1 + y2 + y3 + y4 + y5 + y6, y7);
    assert(l == x0 + y1 + y2 + y3 + y4 + y5 + y6 + y7);
    lemma_tells(l, "allow_domain"@, views(a.allow_domain@), views(b.allow_domain@));
    lemma_tells(l, "credentials"@, a.credential_names(), b.credential_names());
    lemma_tells(l, "upstream_bypass"@, views(a.upstream_bypass@), views(b.upstream_bypass@));
    lemma_tells(l, "open_port"@, port_texts(a.open_port@), port_texts(b.open_port@));
    lemma_tells(l, "listen_port"@, port_texts(a.listen_port@), port_texts(b.listen_port@));
}

/// All differences are in the report, below its heading with the two names.
pub proof fn law_all_differences_are_told(n1: Seq<char>, n2: Seq<char>, p1: Profile, p2: Profile)
    ensures
        ({
            let l = diff_lines(n1, n2, p1, p2);
            &&& l[0][2].1 == n1 && l[0][4].1 == n2
            &&& holds_all(l, set_lines(views(p1.groups.included@), views(p2.groups.included@)))
            &&& holds_all(l, filesystem_lines(p1, p2))
            &&& holds_all(l, composition_lines(p1, p2))
            &&& holds_all(l, security_lines(p1, p2))
            &&& holds_all(l, network_lines(p1, p2))
            &&& holds_all(l, scalar_lines("upstream_proxy"@, opt_view(p1.network.upstream_proxy), opt_view(p2.network.upstream_proxy)))
            &&& holds_all(l, workdir_lines(p1, p2))
            &&& holds_all(l, set_lines(views(p1.commands.allow@), views(p2.commands.allow@)))
            &&& holds_all(l, rollback_lines(p1, p2))
            &&& holds_all(l, open_url_lines(p1, p2))
            &&& holds_all(l, scalar_lines("allow_launch_services"@, opt_bool_text(p1.allow_launch_services), opt_bool_text(p2.allow_launch_services)))
            &&& holds_all(l, scalar_lines("allow_gpu"@, opt_bool_text(p1.allow_gpu), opt_bool_text(p2.allow_gpu)))
            &&& holds_all(l, env_credential_lines(p1, p2))
            &&& holds_all(l, hook_lines(p1, p2))
            &&& holds_all(l, custom_credential_lines(p1, p2))
        }),
{
    let all = difference_lines(p1, p2);
    let x0 = Seq::<LineView>::empty();
    let y0 = section("Groups"@, set_lines(views(p1.groups.included@), views(p2.groups.included@)));
    lemma_section_holds("Groups"@, set_lines(views(p1.groups.included@), views(p2.groups.included@)));
    let y1 = section("Filesystem"@, filesystem_lines(p1, p2));
    lemma_section_holds("Filesystem"@, filesystem_lines(p1, p2));
    let y2 = section("Composition"@, composition_lines(p1, p2));
    lemma_section_holds("Composition"@, composition_lines(p1, p2));
    let y3 = security_lines(p1, p2);
    let y4 = section("Network"@, network_lines(p1, p2));
    lemma_section_holds("Network"@, network_lines(p1, p2));
    let y5 = scalar_lines("upstream_proxy"@, opt_view(p1.network.upstream_proxy), opt_view(p2.network.upstream_proxy));
    let y6 = section("Workdir"@, workdir_lines(p1, p2));
    lemma_section_holds("Workdir"@, workdir_lines(p1, p2));
    let y7 = section("Allowed commands"@, set_lines(views(p1.commands.allow@), views(p2.commands.allow@)));
    lemma_section_holds("Allowed commands"@, set_lines(views(p1.commands.allow@), views(p2.commands.allow@)));
    let y8 = section("Rollback"@, rollback_lines(p1, p2));
    lemma_section_holds("Rollback"@, rollback_lines(p1, p2));
    let y9 = section("Open URLs"@, open_url_lines(p1, p2));
    lemma_section_holds("Open URLs"@, open_url_lines(p1, p2));
    let y10 = scalar_lines("allow_launch_services"@, opt_bool_text(p1.allow_launch_services), opt_bool_text(p2.allow_launch_services));
    let y11 = scalar_lines("allow_gpu"@, opt_bool_text(p1.allow_gpu), opt_bool_text(p2.allow_gpu));
    let y12 = section("Env credentials"@, env_credential_lines(p1, p2));
    lemma_section_holds("Env credentials"@, env_credential_lines(p1, p2));
    let y13 = section("Hooks"@, hook_lines(p1, p2));
    lemma_section_holds("Hooks"@, hook_lines(p1, p2));
    let y14 = section("Custom credentials"@, custom_credential_lines(p1, p2));
    lemma_section_holds("Custom credentials"@, custom_credential_lines(p1, p2));
    let x1 = x0 + y0;
    lemma_sum_holds(x0, y0);
    let x2 = x1 + y1;
    lemma_sum_holds(x1, y1);
    let x3 = x2 + y2;
    lemma_sum_holds(x2, y2);
    let x4 = x3 + y3;
    lemma_sum_holds(x3, y3);
    let x5 = x4 + y4;
    lemma_sum_holds(x4, y4);
    let x6 = x5 + y5;
    lemma_sum_holds(x5, y5);
    let x7 = x6 + y6;
    lemma_sum_holds(x6, y6);
    let x8 = x7 + y7;
    lemma_sum_holds(x7, y7);
    let x9 = x8 + y8;
    lemma_sum_holds(x8, y8);
    let x10 = x9 + y9;
    lemma_sum_holds(x9, y9);
    let x11 = x10 + y10;
    lemma_sum_holds(x10, y10);
    let x12 = x11 + y11;
    lemma_sum_holds(x11, y11);
    let x13 = x12 + y12;
    lemma_sum_holds(x12, y12);
    let x14 = x13 + y13;
    lemma_sum_holds(x13, y13);
    let x15 = x14 + y14;
    lemma_sum_holds(x14, y14);
    assert(all == x15);
    let head = seq![crate::profile_cmd::diff::diff_header(n1, n2)];
    let l = diff_lines(n1, n2, p1, p2);
    assert(l[0] == head[0]);
    if all.len() > 0 {
        lemma_sum_holds(head, all);
        assert(holds_all(l, all));
    } else {
        assert(forall|x: LineView| !(#[trigger] all.contains(x)));
    }
    assert(holds_all(all, set_lines(views(p1.groups.included@), views(p2.groups.included@))));
    assert(holds_all(all, filesystem_lines(p1, p2)));
    assert(holds_all(all, composition_lines(p1, p2)));
    assert(holds_all(all, security_lines(p1, p2)));
    assert(holds_all(all, network_lines(p1, p2)));
    assert(holds_all(all, scalar_lines("upstream_proxy"@, opt_view(p1.network.upstream_proxy), opt_view(p2.network.upstream_proxy))));
    assert(holds_all(all, workdir_lines(p1, p2)));
    assert(holds_all(all, set_lines(views(p1.commands.allow@), views(p2.commands.allow@))));
    assert(holds_all(all, rollback_lines(p1, p2)));
    assert(holds_all(all, open_url_lines(p1, p2)));
    assert(holds_all(all, scalar_lines("allow_launch_services"@, opt_bool_text(p1.allow_launch_services), opt_bool_text(p2.allow_launch_services))));
    assert(holds_all(all, scalar_lines("allow_gpu"@, opt_bool_text(p1.allow_gpu), opt_bool_text(p2.allow_gpu))));
    assert(holds_all(all, env_credential_lines(p1, p2)));
    assert(holds_all(all, hook_lines(p1, p2)));
    assert(holds_all(all, custom_credential_lines(p1, p2)));
}

/// The differences in what is left out of snapshots and in the URLs that may be opened are told under
/// the names of the lists; the access to the working directory is told where it differs.
pub proof fn law_compared_others(p1: Profile, p2: Profile)
    ensures
        tells(
            rollback_lines(p1, p2),
            "exclude_patterns"@,
            views(p1.rollback.exclude_patterns@),
            views(p2.rollback.exclude_patterns@),
        ),
        tells(
            rollback_lines(p1, p2),
            "exclude_globs"@,
            views(p1.rollback.exclude_globs@),
            views(p2.rollback.exclude_globs@),
        ),
        p1.open_urls is Some && p2.open_urls is Some ==> tells(
            open_url_lines(p1, p2),
            "allow_origins"@,
            views((p1.open_urls->0).allow_origins@),
            views((p2.open_urls->0).allow_origins@),
        ),
        p1.workdir.access == p2.workdir.access <==> workdir_lines(p1, p2).len() == 0,
        p1.workdir.access != p2.workdir.access ==> workdir_lines(p1, p2)[0][1] == (
            Style::Red,
            "- access: "@ + p1.workdir.access.label_text(),
        ) && workdir_lines(p1, p2)[1][1] == (
            Style::Green,
            "+ access: "@ + p2.workdir.access.label_text(),
        ),
{
    let x0 = Seq::<LineView>::empty();
    let y1 = list_lines(
        "exclude_patterns"@,
        views(p1.rollback.exclude_patterns@),
        views(p2.rollback.exclude_patterns@),
    );
    let y2 = list_lines(
        "exclude_globs"@,
        views(p1.rollback.exclude_globs@),
        views(p2.rollback.exclude_globs@),
    );
    lemma_sum_holds(x0, y1);
    lemma_sum_holds(x0 + y1, y2);
    lemma_tells(
        rollback_lines(p1, p2),
        "exclude_patterns"@,
        views(p1.rollback.exclude_patterns@),
        views(p2.rollback.exclude_patterns@),
    );
    lemma_tells(
        rollback_lines(p1, p2),
        "exclude_globs"@,
        views(p1.rollback.exclude_globs@),
        views(p2.rollback.exclude_globs@),
    );
    let z1 = list_lines("allow_origins"@, origins(p1), origins(p2));
    let z2 = switch_lines("allow_localhost"@, localhost_allowed(p1), localhost_allowed(p2));
    lemma_sum_holds(x0, z1);
    lemma_sum_holds(x0 + z1, z2);
    lemma_tells(open_url_lines(p1, p2), "allow_origins"@, origins(p1), origins(p2));
}

/// A mapping of two lists of mappings is told exactly where the other list does not have it: as taken
/// where the first has it, and as added where the second has.
pub proof fn law_compared_mappings(a: Seq<(String, String)>, b: Seq<(String, String)>, k: Seq<char>)
    ensures
        mapping_keys(a, b).contains(k) <==> has_key(a, k) && (!has_key(b, k) || (lookup(b, k)->0)@ != (
        lookup(a, k)->0)@),
{
    lemma_in_filtered(
        sort_unique(keys(a)),
        |k: Seq<char>| crate::profile_cmd::diff::mapping_only_in(a, b, k),
        k,
    );
    lemma_in_sorted(keys(a), k);
    lemma_keys(a, k);
}

proof fn lemma_keys<T>(m: Seq<(String, T)>, k: Seq<char>)
    ensures
        keys(m).contains(k) <==> has_key(m, k),
{
    lemma_key_index(m, k);
    assert(keys(m).len() == m.len());
    if has_key(m, k) {
        let i = crate::assoc::key_index(m, k);
        assert(keys(m)[i] == m[i].0@);
    }
    if keys(m).contains(k) {
        let i = choose|i: int| 0 <= i < keys(m).len() && keys(m)[i] == k;
        assert(m[i].0@ == k);
    }
}

/// An array holds a text.
pub open spec fn holds_text(v: JsonView, x: Seq<char>) -> bool {
    v is Array && v->Array_0.contains(JsonView::Text(x))
}

proof fn lemma_text_array(t: Seq<Seq<char>>, x: Seq<char>)
    ensures
        holds_text(crate::json::text_array(t), x) <==> t.contains(x),
{
    let v = crate::json::text_array(t)->Array_0;
    if t.contains(x) {
        let i = choose|i: int| 0 <= i < t.len() && t[i] == x;
        assert(v[i] == JsonView::Text(x));
    }
    if v.contains(JsonView::Text(x)) {
        let i = choose|i: int| 0 <= i < v.len() && v[i] == JsonView::Text(x);
        assert(t[i] == x);
    }
}

/// For programs too, what only the second list has was added and what only the first has removed.
pub proof fn law_compared_lists_for_programs(a: Seq<Seq<char>>, b: Seq<Seq<char>>, x: Seq<char>)
    ensures
        ({
            let o = list_json(a, b)->Object_0;
            &&& o.len() == 2
            &&& o[0].0 == "added"@
            &&& o[1].0 == "removed"@
            &&& holds_text(o[0].1, x) <==> b.contains(x) && !a.contains(x)
            &&& holds_text(o[1].1, x) <==> a.contains(x) && !b.contains(x)
        }),
{
    lemma_difference(a, b, x);
    lemma_difference(b, a, x);
    lemma_text_array(difference(a, b), x);
    lemma_text_array(difference(b, a), x);
}

/// A hook that only one side has was added or removed; one that both have changed exactly where its
/// event, its matcher or its script did, and those that did are given with both values.
pub proof fn law_compared_hooks(a: Seq<(String, HookConfig)>, b: Seq<(String, HookConfig)>, k: Seq<char>)
    ensures
        ({
            let o = hooks_json(a, b)->Object_0;
            &&& o.len() == 3
            &&& o[0].0 == "added"@ && o[1].0 == "removed"@ && o[2].0 == "changed"@
            &&& holds_text(o[0].1, k) <==> has_key(b, k) && !has_key(a, k)
            &&& holds_text(o[1].1, k) <==> has_key(a, k) && !has_key(b, k)
        }),
        ({
            let x = lookup(a, k)->0;
            let y = lookup(b, k)->0;
            hook_changed(a, b, k) <==> has_key(a, k) && has_key(b, k) && !(x.event@ == y.event@
                && x.matcher@ == y.matcher@ && x.script@ == y.script@)
        }),
{
    lemma_text_array(missing_keys(b, a), k);
    lemma_text_array(missing_keys(a, b), k);
    lemma_in_filtered(keys(b), |k: Seq<char>| !has_key(a, k), k);
    lemma_in_filtered(keys(a), |k: Seq<char>| !has_key(b, k), k);
    lemma_keys(a, k);
    lemma_keys(b, k);
}

/// A value before and after.
pub open spec fn is_change(v: JsonView, a: JsonView, b: JsonView, changed: bool) -> bool {
    &&& has_member(v, "profile1"@, a)
    &&& has_member(v, "profile2"@, b)
    &&& has_member(v, "changed"@, JsonView::Bool(changed))
}

/// For programs a change has the value of the first profile, that of the second, and whether they
/// differ.
pub proof fn law_changes_for_programs(a: JsonView, b: JsonView, changed: bool)
    ensures
        is_change(change_object(a, b, changed), a, b, changed),
{
    let o = change_object(a, b, changed)->Object_0;
    assert(o[0] == ("profile1"@, a));
    assert(o[1] == ("profile2"@, b));
    assert(o[2] == ("changed"@, JsonView::Bool(changed)));
}

/// For programs the comparison has the two names, and under the name of every list and setting what
/// became of it.
pub proof fn law_comparisons_for_programs(n1: Seq<char>, n2: Seq<char>, p1: Profile, p2: Profile)
    ensures
        ({
            let d = diff_json(n1, n2, p1, p2);
            &&& has_member(d, "profile1"@, JsonView::Text(n1))
            &&& has_member(d, "profile2"@, JsonView::Text(n2))
            &&& has_member(
                d,
                "groups"@,
                list_json(views(p1.groups.included@), views(p2.groups.included@)),
            )
            &&& has_member(d, "filesystem"@, filesystem_json(p1.filesystem, p2.filesystem))
            &&& has_member(d, "network"@, network_json(p1, p2))
            &&& has_member(d, "hooks"@, hooks_json(p1.hooks.hooks@, p2.hooks.hooks@))
            &&& has_member(
                d,
                "workdir"@,
                change_object(
                    JsonView::Text(p1.workdir.access.key_text()),
                    JsonView::Text(p2.workdir.access.key_text()),
                    p1.workdir.access != p2.workdir.access,
                ),
            )
        }),
        ({
            let v = filesystem_json(p1.filesystem, p2.filesystem);
            let a = p1.filesystem;
            let b = p2.filesystem;
            &&& has_member(v, "allow"@, list_json(views(a.allow@), views(b.allow@)))
            &&& has_member(v, "read"@, list_json(views(a.read@), views(b.read@)))
            &&& has_member(v, "write"@, list_json(views(a.write@), views(b.write@)))
            &&& has_member(v, "allow_file"@, list_json(views(a.allow_file@), views(b.allow_file@)))
            &&& has_member(v, "read_file"@, list_json(views(a.read_file@), views(b.read_file@)))
            &&& has_member(v, "write_file"@, list_json(views(a.write_file@), views(b.write_file@)))
            &&& has_member(
                v,
                "suppress_save_prompt"@,
                list_json(views(a.suppress_save_prompt@), views(b.suppress_save_prompt@)),
            )
        }),
        ({
            let v = network_json(p1, p2);
            let a = p1.network;
            let b = p2.network;
            &&& has_member(
                v,
                "block"@,
                change_object(JsonView::Bool(a.block), JsonView::Bool(b.block), a.block != b.block),
            )
            &&& has_member(
                v,
                "allow_domain"@,
                list_json(views(a.allow_domain@), views(b.allow_domain@)),
            )
            &&& has_member(
                v,
                "credentials"@,
                list_json(a.credential_names(), b.credential_names()),
            )
            &&& has_member(
                v,
                "upstream_bypass"@,
                list_json(views(a.upstream_bypass@), views(b.upstream_bypass@)),
            )
        }),
{
    let d = diff_json(n1, n2, p1, p2)->Object_0;
    assert(d[0] == ("profile1"@, JsonView::Text(n1)));
    assert(d[1] == ("profile2"@, JsonView::Text(n2)));
    assert(d[2] == ("groups"@, list_json(views(p1.groups.included@), views(p2.groups.included@))));
    assert(d[7] == ("filesystem"@, filesystem_json(p1.filesystem, p2.filesystem)));
    assert(d[8] == ("workdir"@, d[8].1));
    assert(d[9] == ("network"@, network_json(p1, p2)));
    assert(d[11] == ("hooks"@, hooks_json(p1.hooks.hooks@, p2.hooks.hooks@)));
    let f = filesystem_json(p1.filesystem, p2.filesystem)->Object_0;
    assert(f[0] == ("allow"@, f[0].1) && f[1] == ("read"@, f[1].1) && f[2] == ("write"@, f[2].1));
    assert(f[3] == ("allow_file"@, f[3].1) && f[4] == ("read_file"@, f[4].1));
    assert(f[5] == ("write_file"@, f[5].1) && f[6] == ("suppress_save_prompt"@, f[6].1));
    let n = network_json(p1, p2)->Object_0;
    assert(n[0] == ("block"@, n[0].1) && n[2] == ("allow_domain"@, n[2].1));
    assert(n[3] == ("credentials"@, n[3].1) && n[7] == ("upstream_bypass"@, n[7].1));
}

} // verus!
