//! Which groups are listed, and what is said of them.

use crate::assoc::{keys, lookup};
use crate::json::{has_member, JsonView};
use crate::policy::{AllowOps, DenyOps, Group};
use crate::profile_cmd::groups::{
    allow_counts, allow_lines, deny_counts, deny_lines, entry_json, expanded_json, expanded_line,
    group_json, group_line, groups_list_lines, listed_groups, path_section, platform_text,
};
use crate::report::{LineView, Style};
use crate::text::{lemma_in_filtered, lemma_in_sorted, padded, views};
use vstd::prelude::*;

verus! {

/// A group is listed exactly where it exists and is meant for the platform at hand, or all platforms
/// are asked for.
pub proof fn law_listed_groups(groups: Seq<(String, Group)>, all_platforms: bool, name: Seq<char>)
    ensures
        listed_groups(groups, all_platforms).contains(name) <==> (exists|i: int|
            0 <= i < groups.len() && (#[trigger] groups[i]).0@ == name) && (all_platforms || (
        lookup(groups, name)->0).applies_here),
{
    lemma_in_filtered(
        crate::text::sort_unique(keys(groups)),
        |n: Seq<char>| all_platforms || (lookup(groups, n)->0).applies_here,
        name,
    );
    lemma_in_sorted(keys(groups), name);
    let k = keys(groups);
    assert(k.len() == groups.len());
    if k.contains(name) {
        let i = choose|i: int| 0 <= i < k.len() && k[i] == name;
        assert(groups[i].0@ == name);
    }
    if exists|i: int| 0 <= i < groups.len() && (#[trigger] groups[i]).0@ == name {
        let i = choose|i: int| 0 <= i < groups.len() && (#[trigger] groups[i]).0@ == name;
        assert(k[i] == name);
    }
}

/// Every listed group has a line with its name, its description, its platform, and a mark exactly
/// where it is required.
pub proof fn law_lines_of_groups(groups: Seq<(String, Group)>, all_platforms: bool, name: Seq<char>)
    requires
        listed_groups(groups, all_platforms).contains(name),
    ensures
        exists|line: LineView| #[trigger]
            groups_list_lines(groups, all_platforms).contains(line) && {
                let g = lookup(groups, name)->0;
                &&& line.len() == 7
                &&& line[1].1 == padded(name, 36)
                &&& line[3].1 == padded(g.description@, 42)
                &&& g.platform is Some ==> line[5].1 == (g.platform->0)@
                &&& g.platform is None ==> line[5].1 == "cross-platform"@
                &&& g.required ==> line[6].1 == "  required"@
                &&& !g.required ==> line[6].1 == ""@
            },
{
    let l = listed_groups(groups, all_platforms);
    let i = choose|i: int| 0 <= i < l.len() && l[i] == name;
    let line = group_line(name, lookup(groups, name)->0);
    let all = groups_list_lines(groups, all_platforms);
    assert(all[2 + i] == line);
    assert(all.contains(line));
}

/// The counts for programs: how many paths a group opens of each kind, how many paths and commands
/// it forbids, and whether it forbids to unlink.
pub proof fn law_counts_of_groups(a: AllowOps, d: DenyOps)
    ensures
        has_member(allow_counts(Some(a)), "read"@, JsonView::Number(a.read@.len())),
        has_member(allow_counts(Some(a)), "write"@, JsonView::Number(a.write@.len())),
        has_member(allow_counts(Some(a)), "readwrite"@, JsonView::Number(a.readwrite@.len())),
        has_member(deny_counts(Some(d)), "access"@, JsonView::Number(d.access@.len())),
        has_member(deny_counts(Some(d)), "commands"@, JsonView::Number(d.commands@.len())),
        has_member(deny_counts(Some(d)), "unlink"@, JsonView::Bool(d.unlink)),
{
    let o = allow_counts(Some(a))->Object_0;
    let p = deny_counts(Some(d))->Object_0;
    assert(o[0] == ("read"@, JsonView::Number(a.read@.len())));
    assert(o[1] == ("write"@, JsonView::Number(a.write@.len())));
    assert(o[2] == ("readwrite"@, JsonView::Number(a.readwrite@.len())));
    assert(p[0] == ("access"@, JsonView::Number(d.access@.len())));
    assert(p[1] == ("commands"@, JsonView::Number(d.commands@.len())));
    assert(p[2] == ("unlink"@, JsonView::Bool(d.unlink)));
}

/// For programs an entry has the name of the group, its description, its platform and whether it is
/// required.
pub proof fn law_members_of_groups(name: Seq<char>, g: Group, expansions: Seq<(String, String)>)
    ensures
        has_member(entry_json(name, g), "name"@, JsonView::Text(name)),
        has_member(entry_json(name, g), "description"@, JsonView::Text(g.description@)),
        has_member(entry_json(name, g), "required"@, JsonView::Bool(g.required)),
        g.platform is Some ==> has_member(
            entry_json(name, g),
            "platform"@,
            JsonView::Text((g.platform->0)@),
        ),
        g.platform is None ==> has_member(
            entry_json(name, g),
            "platform"@,
            JsonView::Text("cross-platform"@),
        ),
        has_member(group_json(name, g, expansions), "name"@, JsonView::Text(name)),
        has_member(
            group_json(name, g, expansions),
            "description"@,
            JsonView::Text(g.description@),
        ),
        has_member(group_json(name, g, expansions), "required"@, JsonView::Bool(g.required)),
        g.platform is Some ==> has_member(
            group_json(name, g, expansions),
            "platform"@,
            JsonView::Text((g.platform->0)@),
        ),
{
    let e = entry_json(name, g)->Object_0;
    let o = group_json(name, g, expansions)->Object_0;
    assert(e[0] == ("name"@, JsonView::Text(name)));
    assert(e[1] == ("description"@, JsonView::Text(g.description@)));
    assert(e[2] == ("platform"@, JsonView::Text(platform_text(g))));
    assert(e[3] == ("required"@, JsonView::Bool(g.required)));
    assert(o[0] == ("name"@, JsonView::Text(name)));
    assert(o[1] == ("description"@, JsonView::Text(g.description@)));
    assert(o[2] == ("platform"@, JsonView::Text(platform_text(g))));
    assert(o[3] == ("required"@, JsonView::Bool(g.required)));
}

/// A path of a group is shown alone where it stands for itself, and else with what it stands for, or
/// with the news that nothing is known of that.
pub proof fn law_expanded_paths(p: Seq<char>, expansions: Seq<(String, String)>)
    ensures
        ({
            let line = expanded_line(p, expansions);
            let e = lookup(expansions, p);
            &&& e is Some && (e->0)@ == p ==> line.len() == 2 && line[1].1 == p
            &&& e is Some && (e->0)@ != p ==> line.len() == 4 && line[1].1 == padded(p, 36)
                && line[3].1 == (e->0)@
            &&& e is None ==> line.len() == 4 && line[1].1 == padded(p, 36) && line[3] == (
                Style::Red,
                "<expansion failed>"@,
            )
        }),
        has_member(expanded_json(p, expansions), "raw"@, JsonView::Text(p)),
        lookup(expansions, p) is Some ==> has_member(
            expanded_json(p, expansions),
            "expanded"@,
            JsonView::Text((lookup(expansions, p)->0)@),
        ),
        lookup(expansions, p) is None ==> has_member(
            expanded_json(p, expansions),
            "expanded"@,
            JsonView::Text("<expansion failed>"@),
        ),
{
    let o = expanded_json(p, expansions)->Object_0;
    assert(o[0] == ("raw"@, JsonView::Text(p)));
    assert(o[1] == (o[1].0, o[1].1));
}

/// Some line below a title shows a path.
pub open spec fn shown_under(
    lines: Seq<LineView>,
    title: Seq<char>,
    path: Seq<char>,
    expansions: Seq<(String, String)>,
) -> bool {
    exists|i: int, j: int|
        0 <= i < j < lines.len() && #[trigger] lines[i].len() == 2 && lines[i][1].1 == title
            && #[trigger] lines[j] == expanded_line(path, expansions)
}

proof fn lemma_section(
    label: Seq<char>,
    denied: bool,
    paths: Seq<String>,
    k: int,
    expansions: Seq<(String, String)>,
)
    requires
        0 <= k < paths.len(),
    ensures
        shown_under(
            path_section(label, denied, views(paths), expansions),
            label + ":"@,
            paths[k]@,
            expansions,
        ),
{
    let s = path_section(label, denied, views(paths), expansions);
    assert(views(paths).len() == paths.len());
    assert(s[1].len() == 2 && s[1][1].1 == label + ":"@);
    assert(views(paths)[k] == paths[k]@);
    assert(s[2 + k] == expanded_line(paths[k]@, expansions));
}

proof fn lemma_shown_within(
    before: Seq<LineView>,
    lines: Seq<LineView>,
    after: Seq<LineView>,
    title: Seq<char>,
    path: Seq<char>,
    expansions: Seq<(String, String)>,
)
    requires
        shown_under(lines, title, path, expansions),
    ensures
        shown_under(before + lines + after, title, path, expansions),
{
    let (i, j) = choose|i: int, j: int|
        0 <= i < j < lines.len() && #[trigger] lines[i].len() == 2 && lines[i][1].1 == title
            && #[trigger] lines[j] == expanded_line(path, expansions);
    let all = before + lines + after;
    assert(all[before.len() + i] == lines[i]);
    assert(all[before.len() + j] == lines[j]);
    assert(all[before.len() + i].len() == 2);
}

/// Every path that a group opens is shown below the title for the access that it opens it for, and
/// every one that it forbids below that for what is forbidden.
pub proof fn law_paths_of_groups(a: AllowOps, d: DenyOps, k: int, expansions: Seq<(String, String)>)
    ensures
        0 <= k < a.read@.len() ==> shown_under(
            allow_lines(Some(a), expansions),
            "allow.read"@ + ":"@,
            a.read@[k]@,
            expansions,
        ),
        0 <= k < a.write@.len() ==> shown_under(
            allow_lines(Some(a), expansions),
            "allow.write"@ + ":"@,
            a.write@[k]@,
            expansions,
        ),
        0 <= k < a.readwrite@.len() ==> shown_under(
            allow_lines(Some(a), expansions),
            "allow.readwrite"@ + ":"@,
            a.readwrite@[k]@,
            expansions,
        ),
        0 <= k < d.access@.len() ==> shown_under(
            deny_lines(Some(d), expansions),
            "deny.access"@ + ":"@,
            d.access@[k]@,
            expansions,
        ),
{
    let none = Seq::<LineView>::empty();
    let r = path_section("allow.read"@, false, views(a.read@), expansions);
    let w = path_section("allow.write"@, false, views(a.write@), expansions);
    let b = path_section("allow.readwrite"@, false, views(a.readwrite@), expansions);
    let all = allow_lines(Some(a), expansions);
    assert(all =~= none + r + (w + b));
    assert(all =~= r + w + b);
    assert(all =~= (r + w) + b + none);
    if 0 <= k < a.read@.len() {
        lemma_section("allow.read"@, false, a.read@, k, expansions);
        lemma_shown_within(none, r, w + b, "allow.read"@ + ":"@, a.read@[k]@, expansions);
    }
    if 0 <= k < a.write@.len() {
        lemma_section("allow.write"@, false, a.write@, k, expansions);
        lemma_shown_within(r, w, b, "allow.write"@ + ":"@, a.write@[k]@, expansions);
    }
    if 0 <= k < a.readwrite@.len() {
        lemma_section("allow.readwrite"@, false, a.readwrite@, k, expansions);
        lemma_shown_within(
            r + w,
            b,
            none,
            "allow.readwrite"@ + ":"@,
            a.readwrite@[k]@,
            expansions,
        );
    }
    if 0 <= k < d.access@.len() {
        let x = path_section("deny.access"@, true, views(d.access@), expansions);
        let l = deny_lines(Some(d), expansions);
        let rest = l.skip(x.len() as int);
        assert(l =~= none + x + rest);
        lemma_section("deny.access"@, true, d.access@, k, expansions);
        lemma_shown_within(none, x, rest, "deny.access"@ + ":"@, d.access@[k]@, expansions);
    }
}

/// A group that forbids to unlink says so, and no other does.
pub proof fn law_unlinking_is_told(d: DenyOps, expansions: Seq<(String, String)>)
    requires
        d.access@.len() == 0,
        d.commands@.len() == 0,
    ensures
        d.unlink ==> deny_lines(Some(d), expansions).len() == 3 && deny_lines(
            Some(d),
            expansions,
        )[1][1].1 == "deny.unlink:"@ && deny_lines(Some(d), expansions)[2][1].1 == "enabled"@,
        !d.unlink ==> deny_lines(Some(d), expansions).len() == 0,
{
    assert(views(d.access@).len() == 0);
    assert(views(d.commands@).len() == 0);
}

} // verus!
