//! The groups that profiles can name.

use crate::assoc::{find_key, has_key, keys, lemma_key_index, lookup, sorted_key_list};
use crate::error::{ErrorView, NonoError};
use crate::json::{
    add_element, elements, field, field_if, json_array, json_object, json_text, json_texts,
    members, no_members, put_field, put_field_if, text_array, Json, JsonView,
};
use crate::policy::{AllowOps, DenyOps, Group};
use crate::profile_cmd::diff_json::{mappings_json, mappings_to_json};
use crate::profile_cmd::show::{
    add_fact, add_heading, add_listing, fact, heading, listing,
};
use crate::report::{blank_line, LineView, Report, Style};
use crate::text::{
    concat2, concat3, copy_str, decimal, lemma_filter_step, lemma_sort_unique, pad_right, padded,
    sort_unique, str_eq, usize_to_string, views,
};
use vstd::prelude::*;

verus! {

/// The platform of a group, in words.
pub open spec fn platform_text(g: Group) -> Seq<char> {
    match g.platform {
        Some(p) => p@,
        None => "cross-platform"@,
    }
}

fn platform_str(g: &Group) -> (r: &str)
    ensures
        r@ == platform_text(*g),
{
    match &g.platform {
        Some(p) => p.as_str(),
        None => "cross-platform",
    }
}

/// The names of the groups to list, in order.
pub open spec fn listed_groups(groups: Seq<(String, Group)>, all_platforms: bool) -> Seq<Seq<char>> {
    sort_unique(keys(groups)).filter(
        |n: Seq<char>| all_platforms || (lookup(groups, n)->0).applies_here,
    )
}

fn group_names(groups: &Vec<(String, Group)>, all_platforms: bool) -> (r: Vec<String>)
    ensures
        views(r@) == listed_groups(groups@, all_platforms),
        forall|i: int| 0 <= i < r@.len() ==> has_key(groups@, (#[trigger] r@[i])@),
{
    let ghost keep = |n: Seq<char>| all_platforms || (lookup(groups@, n)->0).applies_here;
    let s = sorted_key_list(groups);
    let mut r: Vec<String> = Vec::new();
    let mut i: usize = 0;
    assert(views(r@) =~= views(s@).take(0).filter(keep));
    proof {
        lemma_sort_unique(keys(groups@));
    }
    while i < s.len()
        invariant
            i <= s@.len(),
            keep == (|n: Seq<char>| all_platforms || (lookup(groups@, n)->0).applies_here),
            views(s@) == sort_unique(keys(groups@)),
            forall|x: Seq<char>|
                sort_unique(keys(groups@)).contains(x) <==> #[trigger] keys(groups@).contains(x),
            views(r@) == views(s@).take(i as int).filter(keep),
            forall|k: int| 0 <= k < r@.len() ==> has_key(groups@, (#[trigger] r@[k])@),
        decreases s@.len() - i,
    {
        let name = s[i].as_str();
        proof {
            lemma_filter_step(views(s@), i as int, keep);
            assert(views(s@)[i as int] == s@[i as int]@);
            assert(sort_unique(keys(groups@)).contains(name@));
            assert(keys(groups@).contains(name@));
            lemma_key_index(groups@, name@);
        }
        if let Some(k) = find_key(groups, name) {
            if all_platforms || groups[k].1.applies_here {
                let copy = copy_str(name);
                let ghost before = views(r@);
                r.push(copy);
                assert(views(r@) =~= before.push(name@));
            }
        }
        i += 1;
    }
    assert(views(s@).take(i as int) =~= views(s@));
    r
}

/// How many paths a group opens, by kind.
pub open spec fn allow_counts(allow: Option<AllowOps>) -> JsonView {
    match allow {
        Some(a) => JsonView::Object(
            Seq::<(Seq<char>, JsonView)>::empty() + field(
                "read"@,
                JsonView::Number(a.read@.len()),
            ) + field("write"@, JsonView::Number(a.write@.len())) + field(
                "readwrite"@,
                JsonView::Number(a.readwrite@.len()),
            ),
        ),
        None => JsonView::Object(Seq::empty()),
    }
}

fn count_allow(allow: &Option<AllowOps>) -> (r: Json)
    ensures
        r@ == allow_counts(*allow),
{
    let mut o = no_members();
    if let Some(a) = allow {
        put_field(&mut o, "read", Json::Number(a.read.len() as u64));
        put_field(&mut o, "write", Json::Number(a.write.len() as u64));
        put_field(&mut o, "readwrite", Json::Number(a.readwrite.len() as u64));
    }
    json_object(o)
}

/// How much a group forbids, by kind.
pub open spec fn deny_counts(deny: Option<DenyOps>) -> JsonView {
    match deny {
        Some(d) => JsonView::Object(
            Seq::<(Seq<char>, JsonView)>::empty() + field(
                "access"@,
                JsonView::Number(d.access@.len()),
            ) + field("commands"@, JsonView::Number(d.commands@.len())) + field(
                "unlink"@,
                JsonView::Bool(d.unlink),
            ),
        ),
        None => JsonView::Object(Seq::empty()),
    }
}

fn count_deny(deny: &Option<DenyOps>) -> (r: Json)
    ensures
        r@ == deny_counts(*deny),
{
    let mut o = no_members();
    if let Some(d) = deny {
        put_field(&mut o, "access", Json::Number(d.access.len() as u64));
        put_field(&mut o, "commands", Json::Number(d.commands.len() as u64));
        put_field(&mut o, "unlink", Json::Bool(d.unlink));
    }
    json_object(o)
}

/// One group in the list.
pub open spec fn entry_json(name: Seq<char>, g: Group) -> JsonView {
    JsonView::Object(
        Seq::<(Seq<char>, JsonView)>::empty()
            + field("name"@, JsonView::Text(name))
            + field("description"@, JsonView::Text(g.description@))
            + field("platform"@, JsonView::Text(platform_text(g)))
            + field("required"@, JsonView::Bool(g.required))
            + field("allow"@, allow_counts(g.allow))
            + field("deny"@, deny_counts(g.deny)),
    )
}

fn entry_to_json(name: &str, g: &Group) -> (r: Json)
    ensures
        r@ == entry_json(name@, *g),
{
    let mut o = no_members();
    put_field(&mut o, "name", json_text(name));
    put_field(&mut o, "description", json_text(g.description.as_str()));
    put_field(&mut o, "platform", json_text(platform_str(g)));
    put_field(&mut o, "required", Json::Bool(g.required));
    put_field(&mut o, "allow", count_allow(&g.allow));
    put_field(&mut o, "deny", count_deny(&g.deny));
    json_object(o)
}

/// The list of groups for programs.
pub open spec fn groups_list_json(groups: Seq<(String, Group)>, all_platforms: bool) -> JsonView {
    JsonView::Array(
        listed_groups(groups, all_platforms).map_values(
            |n: Seq<char>| entry_json(n, lookup(groups, n)->0),
        ),
    )
}

pub fn groups_list_to_json(groups: &Vec<(String, Group)>, all_platforms: bool) -> (r: Json)
    ensures
        r@ == groups_list_json(groups@, all_platforms),
{
    let names = group_names(groups, all_platforms);
    let ghost all = views(names@).map_values(|n: Seq<char>| entry_json(n, lookup(groups@, n)->0));
    let mut a: Vec<Json> = Vec::new();
    let mut i: usize = 0;
    assert(elements(a@) =~= all.take(0));
    while i < names.len()
        invariant
            i <= names@.len(),
            all == views(names@).map_values(
                |n: Seq<char>| entry_json(n, lookup(groups@, n)->0),
            ),
            forall|k: int| 0 <= k < names@.len() ==> has_key(groups@, (#[trigger] names@[k])@),
            elements(a@) == all.take(i as int),
        decreases names@.len() - i,
    {
        let name = names[i].as_str();
        if let Some(k) = find_key(groups, name) {
            add_element(&mut a, entry_to_json(name, &groups[k].1));
        }
        i += 1;
        assert(all[i - 1] == entry_json(name@, lookup(groups@, name@)->0));
        assert(all.take(i as int) =~= all.take(i - 1).push(all[i - 1]));
    }
    assert(all.take(i as int) =~= all);
    json_array(a)
}

pub open spec fn group_line(name: Seq<char>, g: Group) -> LineView {
    seq![
        (Style::Plain, "  "@),
        (Style::TextBold, padded(name, 36)),
        (Style::Plain, " "@),
        (Style::Subtext, padded(g.description@, 42)),
        (Style::Plain, " "@),
        (Style::Overlay, platform_text(g)),
        (
            Style::Yellow,
            if g.required {
                "  required"@
            } else {
                ""@
            },
        ),
    ]
}

pub open spec fn groups_list_lines(groups: Seq<(String, Group)>, all_platforms: bool) -> Seq<
    LineView,
> {
    let names = listed_groups(groups, all_platforms);
    Seq::<LineView>::empty().push(
        seq![
            (Style::Brand, "nono profile"@),
            (Style::Plain, ": "@),
            (Style::Plain, decimal(names.len())),
            (Style::Plain, " groups"@),
            (
                Style::Plain,
                if all_platforms {
                    " (all platforms)"@
                } else {
                    ""@
                },
            ),
        ],
    ).push(blank_line()) + names.map_values(
        |n: Seq<char>| group_line(n, lookup(groups, n)->0),
    )
}

/// Lists the groups for people.
pub fn cmd_groups_list(groups: &Vec<(String, Group)>, all_platforms: bool) -> (out: Report)
    ensures
        out@ == groups_list_lines(groups@, all_platforms),
{
    let names = group_names(groups, all_platforms);
    assert(views(names@).len() == names@.len());
    let mut out = Report::new();
    let count = usize_to_string(names.len());
    let suffix = if all_platforms {
        " (all platforms)"
    } else {
        ""
    };
    out.line5(
        Style::Brand,
        "nono profile",
        Style::Plain,
        ": ",
        Style::Plain,
        count.as_str(),
        Style::Plain,
        " groups",
        Style::Plain,
        suffix,
    );
    out.blank();
    let ghost start = out@;
    let ghost all = views(names@).map_values(|n: Seq<char>| group_line(n, lookup(groups@, n)->0));
    let mut i: usize = 0;
    assert(start + all.take(0) =~= start);
    while i < names.len()
        invariant
            i <= names@.len(),
            all == views(names@).map_values(
                |n: Seq<char>| group_line(n, lookup(groups@, n)->0),
            ),
            forall|k: int| 0 <= k < names@.len() ==> has_key(groups@, (#[trigger] names@[k])@),
            out@ == start + all.take(i as int),
        decreases names@.len() - i,
    {
        let name = names[i].as_str();
        if let Some(k) = find_key(groups, name) {
            let g = &groups[k].1;
            let left = pad_right(name, 36);
            let middle = pad_right(g.description.as_str(), 42);
            let required = if g.required {
                "  required"
            } else {
                ""
            };
            out.line7(
                Style::Plain,
                "  ",
                Style::TextBold,
                left.as_str(),
                Style::Plain,
                " ",
                Style::Subtext,
                middle.as_str(),
                Style::Plain,
                " ",
                Style::Overlay,
                platform_str(g),
                Style::Yellow,
                required,
            );
        }
        i += 1;
        assert(all[i - 1] == group_line(name@, lookup(groups@, name@)->0));
        assert(all.take(i as int) =~= all.take(i - 1).push(all[i - 1]));
        assert(out@ =~= start + all.take(i as int));
    }
    assert(all.take(i as int) =~= all);
    out
}

// ---------------------------------------------------------------------------
// One group
// ---------------------------------------------------------------------------

/// A path of a group with what it expands to.
pub open spec fn expanded_line(p: Seq<char>, expansions: Seq<(String, String)>) -> LineView {
    match lookup(expansions, p) {
        Some(e) => if e@ == p {
            seq![(Style::Plain, "    "@), (Style::Text, p)]
        } else {
            seq![
                (Style::Plain, "    "@),
                (Style::Text, padded(p, 36)),
                (Style::Plain, " -> "@),
                (Style::Subtext, e@),
            ]
        },
        None => seq![
            (Style::Plain, "    "@),
            (Style::Text, padded(p, 36)),
            (Style::Plain, " -> "@),
            (Style::Red, "<expansion failed>"@),
        ],
    }
}

/// A titled list of paths; nothing where the list is empty.
pub open spec fn path_section(
    label: Seq<char>,
    denied: bool,
    paths: Seq<Seq<char>>,
    expansions: Seq<(String, String)>,
) -> Seq<LineView> {
    heading(
        paths.len() > 0,
        if denied {
            Style::RedBold
        } else {
            Style::GreenBold
        },
        label + ":"@,
    ) + paths.map_values(|p: Seq<char>| expanded_line(p, expansions))
}

fn print_path_section(
    out: &mut Report,
    label: &str,
    denied: bool,
    paths: &Vec<String>,
    expansions: &Vec<(String, String)>,
)
    ensures
        final(out)@ == old(out)@ + path_section(label@, denied, views(paths@), expansions@),
{
    let ghost before = out@;
    let style = if denied {
        Style::RedBold
    } else {
        Style::GreenBold
    };
    let title = concat2(label, ":");
    add_heading(out, paths.len() > 0, style, title.as_str());
    let ghost start = out@;
    let ghost all = views(paths@).map_values(|p: Seq<char>| expanded_line(p, expansions@));
    let mut i: usize = 0;
    assert(start + all.take(0) =~= start);
    while i < paths.len()
        invariant
            i <= paths@.len(),
            all == views(paths@).map_values(|p: Seq<char>| expanded_line(p, expansions@)),
            out@ == start + all.take(i as int),
        decreases paths@.len() - i,
    {
        let p = paths[i].as_str();
        let left = pad_right(p, 36);
        match find_key(expansions, p) {
            Some(k) => if str_eq(expansions[k].1.as_str(), p) {
                out.line2(Style::Plain, "    ", Style::Text, p);
            } else {
                out.line4(
                    Style::Plain,
                    "    ",
                    Style::Text,
                    left.as_str(),
                    Style::Plain,
                    " -> ",
                    Style::Subtext,
                    expansions[k].1.as_str(),
                );
            },
            None => {
                out.line4(
                    Style::Plain,
                    "    ",
                    Style::Text,
                    left.as_str(),
                    Style::Plain,
                    " -> ",
                    Style::Red,
                    "<expansion failed>",
                );
            },
        }
        i += 1;
        assert(all[i - 1] == expanded_line(p@, expansions@));
        assert(all.take(i as int) =~= all.take(i - 1).push(all[i - 1]));
        assert(out@ =~= start + all.take(i as int));
    }
    assert(all.take(i as int) =~= all);
    assert(out@ =~= before + path_section(label@, denied, views(paths@), expansions@));
}

pub open spec fn allow_lines(allow: Option<AllowOps>, expansions: Seq<(String, String)>) -> Seq<
    LineView,
> {
    match allow {
        Some(a) => path_section("allow.read"@, false, views(a.read@), expansions) + path_section(
            "allow.write"@,
            false,
            views(a.write@),
            expansions,
        ) + path_section("allow.readwrite"@, false, views(a.readwrite@), expansions),
        None => Seq::empty(),
    }
}

fn add_allow(out: &mut Report, allow: &Option<AllowOps>, expansions: &Vec<(String, String)>)
    ensures
        final(out)@ == old(out)@ + allow_lines(*allow, expansions@),
{
    let ghost before = out@;
    if let Some(a) = allow {
        print_path_section(out, "allow.read", false, &a.read, expansions);
        print_path_section(out, "allow.write", false, &a.write, expansions);
        print_path_section(out, "allow.readwrite", false, &a.readwrite, expansions);
    }
    assert(out@ =~= before + allow_lines(*allow, expansions@));
}

pub open spec fn deny_lines(deny: Option<DenyOps>, expansions: Seq<(String, String)>) -> Seq<
    LineView,
> {
    match deny {
        Some(d) => path_section("deny.access"@, true, views(d.access@), expansions) + (if d.unlink {
            seq![
                blank_line(),
                seq![(Style::Plain, "  "@), (Style::RedBold, "deny.unlink:"@)],
                seq![(Style::Plain, "    "@), (Style::Red, "enabled"@)],
            ]
        } else {
            Seq::empty()
        }) + listing(Style::RedBold, "deny.commands:"@, Style::Text, views(d.commands@)),
        None => Seq::empty(),
    }
}

fn add_deny(out: &mut Report, deny: &Option<DenyOps>, expansions: &Vec<(String, String)>)
    ensures
        final(out)@ == old(out)@ + deny_lines(*deny, expansions@),
{
    let ghost before = out@;
    if let Some(d) = deny {
        print_path_section(out, "deny.access", true, &d.access, expansions);
        if d.unlink {
            out.blank();
            out.line2(Style::Plain, "  ", Style::RedBold, "deny.unlink:");
            out.line2(Style::Plain, "    ", Style::Red, "enabled");
        }
        add_listing(out, Style::RedBold, "deny.commands:", Style::Text, &d.commands);
    }
    assert(out@ =~= before + deny_lines(*deny, expansions@));
}

/// The pairs of linked paths, by the first of each.
pub open spec fn pair_lines(pairs: Seq<(String, String)>) -> Seq<LineView> {
    sort_unique(keys(pairs)).map_values(
        |k: Seq<char>|
            seq![
                (Style::Plain, "    "@),
                (Style::Text, k),
                (Style::Plain, " -> "@),
                (Style::Subtext, (lookup(pairs, k)->0)@),
            ],
    )
}

fn add_pairs(out: &mut Report, pairs: &Vec<(String, String)>)
    ensures
        final(out)@ == old(out)@ + pair_lines(pairs@),
{
    let names = sorted_key_list(pairs);
    let ghost all = pair_lines(pairs@);
    let ghost start = out@;
    let mut i: usize = 0;
    assert(start + all.take(0) =~= start);
    proof {
        lemma_sort_unique(keys(pairs@));
    }
    while i < names.len()
        invariant
            i <= names@.len(),
            all == pair_lines(pairs@),
            views(names@) == sort_unique(keys(pairs@)),
            forall|x: Seq<char>|
                sort_unique(keys(pairs@)).contains(x) <==> #[trigger] keys(pairs@).contains(x),
            out@ == start + all.take(i as int),
        decreases names@.len() - i,
    {
        let name = names[i].as_str();
        proof {
            assert(views(names@)[i as int] == name@);
            assert(sort_unique(keys(pairs@)).contains(name@));
            assert(keys(pairs@).contains(name@));
            lemma_key_index(pairs@, name@);
        }
        if let Some(k) = find_key(pairs, name) {
            out.line4(
                Style::Plain,
                "    ",
                Style::Text,
                name,
                Style::Plain,
                " -> ",
                Style::Subtext,
                pairs[k].1.as_str(),
            );
        }
        i += 1;
        assert(all.take(i as int) =~= all.take(i - 1).push(all[i - 1]));
        assert(out@ =~= start + all.take(i as int));
    }
    assert(all.take(i as int) =~= all);
}

pub open spec fn symlink_lines(pairs: Option<Vec<(String, String)>>) -> Seq<LineView> {
    match pairs {
        Some(p) => heading(p@.len() > 0, Style::SubtextBold, "symlink_pairs:"@) + pair_lines(p@),
        None => Seq::empty(),
    }
}

fn add_symlinks(out: &mut Report, pairs: &Option<Vec<(String, String)>>)
    ensures
        final(out)@ == old(out)@ + symlink_lines(*pairs),
{
    let ghost before = out@;
    if let Some(p) = pairs {
        add_heading(out, p.len() > 0, Style::SubtextBold, "symlink_pairs:");
        add_pairs(out, p);
    }
    assert(out@ =~= before + symlink_lines(*pairs));
}

pub open spec fn group_title(name: Seq<char>) -> Seq<LineView> {
    seq![
        seq![
            (Style::Brand, "nono profile"@),
            (Style::Plain, ": group '"@),
            (Style::TextBold, name),
            (Style::Plain, "'"@),
        ],
        blank_line(),
    ]
}

fn add_group_title(out: &mut Report, name: &str)
    ensures
        final(out)@ == old(out)@ + group_title(name@),
{
    let ghost before = out@;
    out.line4(
        Style::Brand,
        "nono profile",
        Style::Plain,
        ": group '",
        Style::TextBold,
        name,
        Style::Plain,
        "'",
    );
    out.blank();
    assert(out@ =~= before + group_title(name@));
}

/// All of one group.
pub open spec fn group_detail_lines(name: Seq<char>, g: Group, expansions: Seq<(String, String)>) -> Seq<LineView> {
    Seq::<LineView>::empty()
        + group_title(name)
        + fact(true, "  "@, Style::Subtext, "Description:"@, "  "@, Style::Text, g.description@)
        + fact(true, "  "@, Style::Subtext, "Platform:"@, "     "@, Style::Text, platform_text(g))
        + fact(true, "  "@, Style::Subtext, "Required:"@, "     "@, Style::Text, if g.required { "yes"@ } else { "no"@ })
        + allow_lines(g.allow, expansions)
        + deny_lines(g.deny, expansions)
        + symlink_lines(g.symlink_pairs)
}

fn group_detail_report(name: &str, g: &Group, expansions: &Vec<(String, String)>) -> (out: Report)
    ensures
        out@ == group_detail_lines(name@, *g, expansions@),
{
    let mut out = Report::new();
    add_group_title(&mut out, name);
    add_fact(&mut out, true, "  ", Style::Subtext, "Description:", "  ", Style::Text, g.description.as_str());
    add_fact(&mut out, true, "  ", Style::Subtext, "Platform:", "     ", Style::Text, platform_str(g));
    add_fact(&mut out, true, "  ", Style::Subtext, "Required:", "     ", Style::Text, if g.required { "yes" } else { "no" });
    add_allow(&mut out, &g.allow, expansions);
    add_deny(&mut out, &g.deny, expansions);
    add_symlinks(&mut out, &g.symlink_pairs);
    out
}

pub open spec fn unknown_group_failure(name: Seq<char>) -> ErrorView {
    ErrorView::ProfileParse(
        "group '"@ + name
            + "' not found in policy.json. Use `nono profile groups` to list available groups"@,
    )
}

fn no_such_group(name: &str) -> (r: NonoError)
    ensures
        r@ == unknown_group_failure(name@),
{
    NonoError::ProfileParse(
        concat3(
            "group '",
            name,
            "' not found in policy.json. Use `nono profile groups` to list available groups",
        ),
    )
}

/// Shows one group for people.
pub fn cmd_groups_detail(
    groups: &Vec<(String, Group)>,
    name: &str,
    expansions: &Vec<(String, String)>,
) -> (r: Result<Report, NonoError>)
    ensures
        match r {
            Ok(out) => has_key(groups@, name@) && out@ == group_detail_lines(
                name@,
                lookup(groups@, name@)->0,
                expansions@,
            ),
            Err(e) => !has_key(groups@, name@) && e@ == unknown_group_failure(name@),
        },
{
    match find_key(groups, name) {
        Some(k) => Ok(group_detail_report(name, &groups[k].1, expansions)),
        None => Err(no_such_group(name)),
    }
}

/// A path with what it expands to, for programs.
pub open spec fn expanded_json(p: Seq<char>, expansions: Seq<(String, String)>) -> JsonView {
    JsonView::Object(
        Seq::<(Seq<char>, JsonView)>::empty() + field("raw"@, JsonView::Text(p)) + field(
            "expanded"@,
            JsonView::Text(
                match lookup(expansions, p) {
                    Some(e) => e@,
                    None => "<expansion failed>"@,
                },
            ),
        ),
    )
}

pub open spec fn expanded_array(paths: Seq<Seq<char>>, expansions: Seq<(String, String)>) -> JsonView {
    JsonView::Array(paths.map_values(|p: Seq<char>| expanded_json(p, expansions)))
}

fn expand_paths_json(paths: &Vec<String>, expansions: &Vec<(String, String)>) -> (r: Json)
    ensures
        r@ == expanded_array(views(paths@), expansions@),
{
    let ghost all = views(paths@).map_values(|p: Seq<char>| expanded_json(p, expansions@));
    let mut a: Vec<Json> = Vec::new();
    let mut i: usize = 0;
    assert(elements(a@) =~= all.take(0));
    while i < paths.len()
        invariant
            i <= paths@.len(),
            all == views(paths@).map_values(|p: Seq<char>| expanded_json(p, expansions@)),
            elements(a@) == all.take(i as int),
        decreases paths@.len() - i,
    {
        let p = paths[i].as_str();
        let mut o = no_members();
        put_field(&mut o, "raw", json_text(p));
        let expanded = match find_key(expansions, p) {
            Some(k) => expansions[k].1.as_str(),
            None => "<expansion failed>",
        };
        put_field(&mut o, "expanded", json_text(expanded));
        add_element(&mut a, json_object(o));
        i += 1;
        assert(all[i - 1] == expanded_json(p@, expansions@));
        assert(all.take(i as int) =~= all.take(i - 1).push(all[i - 1]));
    }
    assert(all.take(i as int) =~= all);
    json_array(a)
}

/// What a group opens.
pub open spec fn allow_json(a: AllowOps, expansions: Seq<(String, String)>) -> JsonView {
    JsonView::Object(
        Seq::<(Seq<char>, JsonView)>::empty()
            + field_if(a.read@.len() > 0, "read"@, expanded_array(views(a.read@), expansions))
            + field_if(a.write@.len() > 0, "write"@, expanded_array(views(a.write@), expansions))
            + field_if(a.readwrite@.len() > 0, "readwrite"@, expanded_array(views(a.readwrite@), expansions)),
    )
}

fn allow_to_json(a: &AllowOps, expansions: &Vec<(String, String)>) -> (r: Json)
    ensures
        r@ == allow_json(*a, expansions@),
{
    let mut o = no_members();
    put_field_if(&mut o, a.read.len() > 0, "read", expand_paths_json(&a.read, expansions));
    put_field_if(&mut o, a.write.len() > 0, "write", expand_paths_json(&a.write, expansions));
    put_field_if(&mut o, a.readwrite.len() > 0, "readwrite", expand_paths_json(&a.readwrite, expansions));
    json_object(o)
}

/// What a group forbids.
pub open spec fn deny_json(d: DenyOps, expansions: Seq<(String, String)>) -> JsonView {
    JsonView::Object(
        Seq::<(Seq<char>, JsonView)>::empty()
            + field_if(d.access@.len() > 0, "access"@, expanded_array(views(d.access@), expansions))
            + field_if(d.commands@.len() > 0, "commands"@, text_array(views(d.commands@)))
            + field_if(d.unlink, "unlink"@, JsonView::Bool(true)),
    )
}

fn deny_to_json(d: &DenyOps, expansions: &Vec<(String, String)>) -> (r: Json)
    ensures
        r@ == deny_json(*d, expansions@),
{
    let mut o = no_members();
    put_field_if(&mut o, d.access.len() > 0, "access", expand_paths_json(&d.access, expansions));
    put_field_if(&mut o, d.commands.len() > 0, "commands", json_texts(&d.commands));
    put_field_if(&mut o, d.unlink, "unlink", Json::Bool(true));
    json_object(o)
}

pub open spec fn group_json(name: Seq<char>, g: Group, expansions: Seq<(String, String)>) -> JsonView {
    JsonView::Object(
        Seq::<(Seq<char>, JsonView)>::empty() + field("name"@, JsonView::Text(name)) + field(
            "description"@,
            JsonView::Text(g.description@),
        ) + field("platform"@, JsonView::Text(platform_text(g))) + field(
            "required"@,
            JsonView::Bool(g.required),
        ) + (match g.allow {
            Some(a) => field("allow"@, allow_json(a, expansions)),
            None => Seq::empty(),
        }) + (match g.deny {
            Some(d) => field("deny"@, deny_json(d, expansions)),
            None => Seq::empty(),
        }) + (match g.symlink_pairs {
            Some(p) => field_if(p@.len() > 0, "symlink_pairs"@, mappings_json(p@)),
            None => Seq::empty(),
        }),
    )
}

fn group_to_json(name: &str, g: &Group, expansions: &Vec<(String, String)>) -> (r: Json)
    ensures
        r@ == group_json(name@, *g, expansions@),
{
    let mut o = no_members();
    put_field(&mut o, "name", json_text(name));
    put_field(&mut o, "description", json_text(g.description.as_str()));
    put_field(&mut o, "platform", json_text(platform_str(g)));
    put_field(&mut o, "required", Json::Bool(g.required));
    if let Some(a) = &g.allow {
        put_field(&mut o, "allow", allow_to_json(a, expansions));
    }
    if let Some(d) = &g.deny {
        put_field(&mut o, "deny", deny_to_json(d, expansions));
    }
    if let Some(p) = &g.symlink_pairs {
        put_field_if(&mut o, p.len() > 0, "symlink_pairs", mappings_to_json(p));
    }
    assert(members(o@) =~= group_json(name@, *g, expansions@)->Object_0);
    json_object(o)
}

/// Shows one group for programs.
pub fn groups_detail_to_json(
    groups: &Vec<(String, Group)>,
    name: &str,
    expansions: &Vec<(String, String)>,
) -> (r: Result<Json, NonoError>)
    ensures
        match r {
            Ok(j) => has_key(groups@, name@) && j@ == group_json(
                name@,
                lookup(groups@, name@)->0,
                expansions@,
            ),
            Err(e) => !has_key(groups@, name@) && e@ == unknown_group_failure(name@),
        },
{
    match find_key(groups, name) {
        Some(k) => Ok(group_to_json(name, &groups[k].1, expansions)),
        None => Err(no_such_group(name)),
    }
}

} // verus!
