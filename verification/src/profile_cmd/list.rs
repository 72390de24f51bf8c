//! Listing the profiles there are.

use crate::json::{
    add_element, elements, field, json_array, json_object, json_opt_text, json_text, json_texts,
    no_members, opt_text, put_field, text_array, Json, JsonView,
};
use crate::profile_cmd::show::{add_heading, heading};
use crate::report::{LineView, Report, Style};
use crate::text::{
    concat2, concat3, copy_str, decimal, join, join_strings, lemma_filter_step, opt_view,
    pad_right, padded, usize_to_string, views,
};
use vstd::prelude::*;

verus! {

/// What is known of one profile: whether a file of the user stands in for it, the pack that
/// provides it, whether it is built in, its description or the text of the failure to load it,
/// and the profiles that it is written to build on.
#[derive(Debug)]
pub struct ListedProfile {
    pub name: String,
    pub user_override: bool,
    pub pack: Option<String>,
    pub builtin: bool,
    pub loaded: Result<Option<String>, String>,
    pub extends: Option<Vec<String>>,
}

/// Where a profile is listed.
#[derive(Clone, Copy, Debug, PartialEq, Eq, Structural)]
pub enum Bucket {
    BuiltIn,
    Pack,
    User,
}

/// A file of the user comes first, then packs, then the built-in profiles.
pub open spec fn bucket(p: ListedProfile) -> Bucket {
    if p.user_override {
        Bucket::User
    } else if p.pack is Some {
        Bucket::Pack
    } else if p.builtin {
        Bucket::BuiltIn
    } else {
        Bucket::User
    }
}

pub fn bucket_of(p: &ListedProfile) -> (r: Bucket)
    ensures
        r == bucket(*p),
{
    if p.user_override {
        Bucket::User
    } else if p.pack.is_some() {
        Bucket::Pack
    } else if p.builtin {
        Bucket::BuiltIn
    } else {
        Bucket::User
    }
}

/// The source of a profile, in words.
pub open spec fn source_text(p: ListedProfile) -> Seq<char> {
    match bucket(p) {
        Bucket::Pack => "pack"@,
        Bucket::BuiltIn => "built-in"@,
        Bucket::User => if p.user_override && p.pack is Some {
            "user (overrides pack)"@
        } else if p.user_override && p.builtin {
            "user (overrides built-in)"@
        } else {
            "user"@
        },
    }
}

pub fn profile_source(p: &ListedProfile) -> (r: &'static str)
    ensures
        r@ == source_text(*p),
{
    if p.user_override {
        if p.pack.is_some() {
            "user (overrides pack)"
        } else if p.builtin {
            "user (overrides built-in)"
        } else {
            "user"
        }
    } else if p.pack.is_some() {
        "pack"
    } else if p.builtin {
        "built-in"
    } else {
        "user"
    }
}

/// The profiles of one bucket, in the order given.
pub open spec fn in_bucket(all: Seq<ListedProfile>, b: Bucket) -> Seq<ListedProfile> {
    all.filter(|p: ListedProfile| bucket(p) == b)
}

pub open spec fn description_text(d: Option<String>) -> Seq<char> {
    match d {
        Some(s) => s@,
        None => ""@,
    }
}

fn description_str(d: &Option<String>) -> (r: &str)
    ensures
        r@ == description_text(*d),
{
    match d {
        Some(s) => s.as_str(),
        None => "",
    }
}

// ---------------------------------------------------------------------------
// For people
// ---------------------------------------------------------------------------

/// What stands at the end of a profile's line: its pack, or the profiles it builds on.
pub open spec fn remark(p: ListedProfile) -> Seq<char> {
    if bucket(p) == Bucket::Pack {
        "from "@ + (p.pack->0)@
    } else {
        match p.extends {
            Some(v) => "extends "@ + join(views(v@), ", "@),
            None => ""@,
        }
    }
}

fn remark_of(p: &ListedProfile) -> (r: String)
    ensures
        r@ == remark(*p),
{
    if bucket_of(p) == Bucket::Pack {
        if let Some(pack) = &p.pack {
            return concat2("from ", pack.as_str());
        }
    }
    match &p.extends {
        Some(v) => {
            let all = join_strings(v, ", ");
            concat2("extends ", all.as_str())
        },
        None => copy_str(""),
    }
}

pub open spec fn profile_line(p: ListedProfile) -> LineView {
    match p.loaded {
        Ok(d) => seq![
            (Style::Plain, "    "@),
            (Style::TextBold, padded(p.name@, 16)),
            (Style::Plain, " "@),
            (Style::Subtext, padded(description_text(d), 42)),
            (Style::Plain, " "@),
            (Style::Overlay, remark(p)),
        ],
        Err(e) => seq![
            (Style::Plain, "    "@),
            (Style::TextBold, padded(p.name@, 16)),
            (Style::Plain, " "@),
            (Style::Red, "[error: "@ + e@ + "]"@),
        ],
    }
}

fn print_profile_line(out: &mut Report, p: &ListedProfile)
    ensures
        final(out)@ == old(out)@.push(profile_line(*p)),
{
    let name = pad_right(p.name.as_str(), 16);
    match &p.loaded {
        Ok(d) => {
            let description = pad_right(description_str(d), 42);
            let end = remark_of(p);
            out.line6(
                Style::Plain,
                "    ",
                Style::TextBold,
                name.as_str(),
                Style::Plain,
                " ",
                Style::Subtext,
                description.as_str(),
                Style::Plain,
                " ",
                Style::Overlay,
                end.as_str(),
            );
        },
        Err(e) => {
            let failure = concat3("[error: ", e.as_str(), "]");
            out.line4(
                Style::Plain,
                "    ",
                Style::TextBold,
                name.as_str(),
                Style::Plain,
                " ",
                Style::Red,
                failure.as_str(),
            );
        },
    }
}

/// The profiles of one bucket under their title; nothing where there are none.
pub open spec fn bucket_lines(title: Seq<char>, all: Seq<ListedProfile>, b: Bucket) -> Seq<LineView> {
    heading(in_bucket(all, b).len() > 0, Style::SubtextBold, title) + in_bucket(all, b).map_values(
        |p: ListedProfile| profile_line(p),
    )
}

fn has_bucket(all: &Vec<ListedProfile>, b: Bucket) -> (r: bool)
    ensures
        r == (in_bucket(all@, b).len() > 0),
{
    let ghost keep = |p: ListedProfile| bucket(p) == b;
    let mut i: usize = 0;
    let mut n: usize = 0;
    assert(all@.take(0).filter(keep).len() == 0);
    while i < all.len()
        invariant
            n <= i <= all@.len(),
            keep == (|p: ListedProfile| bucket(p) == b),
            n == all@.take(i as int).filter(keep).len(),
        decreases all@.len() - i,
    {
        proof {
            lemma_filter_step(all@, i as int, keep);
        }
        if bucket_of(&all[i]) == b {
            n += 1;
        }
        i += 1;
    }
    assert(all@.take(i as int) =~= all@);
    n > 0
}

fn add_bucket(out: &mut Report, title: &str, all: &Vec<ListedProfile>, b: Bucket)
    ensures
        final(out)@ == old(out)@ + bucket_lines(title@, all@, b),
{
    let ghost before = out@;
    let ghost keep = |p: ListedProfile| bucket(p) == b;
    let ghost shape = |p: ListedProfile| profile_line(p);
    add_heading(out, has_bucket(all, b), Style::SubtextBold, title);
    let ghost start = out@;
    let mut i: usize = 0;
    assert(start + all@.take(0).filter(keep).map_values(shape) =~= start);
    while i < all.len()
        invariant
            i <= all@.len(),
            keep == (|p: ListedProfile| bucket(p) == b),
            shape == (|p: ListedProfile| profile_line(p)),
            out@ == start + all@.take(i as int).filter(keep).map_values(shape),
        decreases all@.len() - i,
    {
        let ghost done = all@.take(i as int).filter(keep);
        proof {
            lemma_filter_step(all@, i as int, keep);
            assert(done.push(all@[i as int]).map_values(shape) =~= done.map_values(shape).push(
                profile_line(all@[i as int]),
            ));
            assert(start + done.map_values(shape).push(profile_line(all@[i as int])) =~= (start
                + done.map_values(shape)).push(profile_line(all@[i as int])));
        }
        if bucket_of(&all[i]) == b {
            print_profile_line(out, &all[i]);
        }
        i += 1;
    }
    assert(all@.take(i as int) =~= all@);
    assert(out@ =~= before + bucket_lines(title@, all@, b));
}

pub open spec fn list_lines(all: Seq<ListedProfile>) -> Seq<LineView> {
    Seq::<LineView>::empty().push(
        seq![
            (Style::Brand, "nono profile"@),
            (Style::Plain, ": "@),
            (Style::Plain, decimal(all.len())),
            (Style::Plain, " profiles"@),
        ],
    ) + bucket_lines("Built-in:"@, all, Bucket::BuiltIn) + bucket_lines(
        "Packages:"@,
        all,
        Bucket::Pack,
    ) + bucket_lines("User (~/.config/nono/profiles/):"@, all, Bucket::User)
}

/// Lists the profiles for people.
pub fn cmd_list(all: &Vec<ListedProfile>) -> (out: Report)
    ensures
        out@ == list_lines(all@),
{
    let mut out = Report::new();
    let count = usize_to_string(all.len());
    out.line4(
        Style::Brand,
        "nono profile",
        Style::Plain,
        ": ",
        Style::Plain,
        count.as_str(),
        Style::Plain,
        " profiles",
    );
    add_bucket(&mut out, "Built-in:", all, Bucket::BuiltIn);
    add_bucket(&mut out, "Packages:", all, Bucket::Pack);
    add_bucket(&mut out, "User (~/.config/nono/profiles/):", all, Bucket::User);
    out
}

/// Every profile is listed once: the buckets share nothing and together hold all.
pub proof fn law_buckets_hold_all(all: Seq<ListedProfile>)
    ensures
        in_bucket(all, Bucket::BuiltIn).len() + in_bucket(all, Bucket::Pack).len() + in_bucket(
            all,
            Bucket::User,
        ).len() == all.len(),
        forall|i: int|
            0 <= i < all.len() ==> in_bucket(all, bucket(#[trigger] all[i])).contains(all[i]),
    decreases all.len(),
{
    if all.len() > 0 {
        let n = all.len() - 1;
        law_buckets_hold_all(all.drop_last());
        assert(all.take(n as int) =~= all.drop_last());
        assert(all.take(n + 1) =~= all);
        lemma_filter_step(all, n as int, |p: ListedProfile| bucket(p) == Bucket::BuiltIn);
        lemma_filter_step(all, n as int, |p: ListedProfile| bucket(p) == Bucket::Pack);
        lemma_filter_step(all, n as int, |p: ListedProfile| bucket(p) == Bucket::User);
        assert forall|i: int| 0 <= i < all.len() implies in_bucket(
            all,
            bucket(#[trigger] all[i]),
        ).contains(all[i]) by {
            let b = bucket(all[i]);
            let front = in_bucket(all.drop_last(), b);
            if i < n {
                assert(all.drop_last()[i] == all[i]);
                let k = choose|k: int| 0 <= k < front.len() && front[k] == all[i];
                assert(in_bucket(all, b)[k] == all[i]);
            } else {
                assert(in_bucket(all, b) == front.push(all[i]));
                assert(in_bucket(all, b)[front.len() as int] == all[i]);
            }
        }
    } else {
        assert(all =~= Seq::empty());
    }
}

// ---------------------------------------------------------------------------
// For programs
// ---------------------------------------------------------------------------

pub open spec fn extends_list(e: Option<Vec<String>>) -> JsonView {
    match e {
        Some(v) => text_array(views(v@)),
        None => JsonView::Array(Seq::empty()),
    }
}

pub open spec fn listed_json(p: ListedProfile) -> JsonView {
    let head = Seq::<(Seq<char>, JsonView)>::empty() + field("name"@, JsonView::Text(p.name@))
        + field("source"@, JsonView::Text(source_text(p))) + field(
        "pack"@,
        opt_text(opt_view(p.pack)),
    );
    match p.loaded {
        Ok(d) => JsonView::Object(
            head + field("description"@, JsonView::Text(description_text(d))) + field(
                "extends"@,
                extends_list(p.extends),
            ),
        ),
        Err(e) => JsonView::Object(head + field("error"@, JsonView::Text(e@))),
    }
}

fn extends_to_json(e: &Option<Vec<String>>) -> (r: Json)
    ensures
        r@ == extends_list(*e),
{
    match e {
        Some(v) => json_texts(v),
        None => {
            let a: Vec<Json> = Vec::new();
            let r = json_array(a);
            assert(r@->Array_0 =~= Seq::<JsonView>::empty());
            r
        },
    }
}

fn listed_to_json(p: &ListedProfile) -> (r: Json)
    ensures
        r@ == listed_json(*p),
{
    let mut o = no_members();
    put_field(&mut o, "name", json_text(p.name.as_str()));
    put_field(&mut o, "source", json_text(profile_source(p)));
    put_field(&mut o, "pack", json_opt_text(&p.pack));
    match &p.loaded {
        Ok(d) => {
            put_field(&mut o, "description", json_text(description_str(d)));
            put_field(&mut o, "extends", extends_to_json(&p.extends));
        },
        Err(e) => {
            put_field(&mut o, "error", json_text(e.as_str()));
        },
    }
    json_object(o)
}

pub open spec fn bucket_json(all: Seq<ListedProfile>, b: Bucket) -> Seq<JsonView> {
    in_bucket(all, b).map_values(|p: ListedProfile| listed_json(p))
}

fn add_bucket_json(a: &mut Vec<Json>, all: &Vec<ListedProfile>, b: Bucket)
    ensures
        elements(final(a)@) == elements(old(a)@) + bucket_json(all@, b),
{
    let ghost keep = |p: ListedProfile| bucket(p) == b;
    let ghost shape = |p: ListedProfile| listed_json(p);
    let ghost start = elements(a@);
    let mut i: usize = 0;
    assert(start + all@.take(0).filter(keep).map_values(shape) =~= start);
    while i < all.len()
        invariant
            i <= all@.len(),
            keep == (|p: ListedProfile| bucket(p) == b),
            shape == (|p: ListedProfile| listed_json(p)),
            elements(a@) == start + all@.take(i as int).filter(keep).map_values(shape),
        decreases all@.len() - i,
    {
        let ghost done = all@.take(i as int).filter(keep);
        proof {
            lemma_filter_step(all@, i as int, keep);
            assert(done.push(all@[i as int]).map_values(shape) =~= done.map_values(shape).push(
                listed_json(all@[i as int]),
            ));
            assert(start + done.map_values(shape).push(listed_json(all@[i as int])) =~= (start
                + done.map_values(shape)).push(listed_json(all@[i as int])));
        }
        if bucket_of(&all[i]) == b {
            add_element(a, listed_to_json(&all[i]));
        }
        i += 1;
    }
    assert(all@.take(i as int) =~= all@);
}

/// Lists the profiles for programs: built-in ones, those of packs, those of the user.
pub fn list_to_json(all: &Vec<ListedProfile>) -> (r: Json)
    ensures
        r@ == JsonView::Array(
            bucket_json(all@, Bucket::BuiltIn) + bucket_json(all@, Bucket::Pack) + bucket_json(
                all@,
                Bucket::User,
            ),
        ),
{
    let mut a: Vec<Json> = Vec::new();
    add_bucket_json(&mut a, all, Bucket::BuiltIn);
    add_bucket_json(&mut a, all, Bucket::Pack);
    add_bucket_json(&mut a, all, Bucket::User);
    assert(elements(a@) =~= bucket_json(all@, Bucket::BuiltIn) + bucket_json(all@, Bucket::Pack)
        + bucket_json(all@, Bucket::User));
    json_array(a)
}

} // verus!
