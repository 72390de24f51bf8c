//! Under which title a profile is listed.

use crate::json::{has_member, text_array, JsonView};
use crate::profile_cmd::list::{
    bucket, bucket_lines, in_bucket, list_lines, listed_json, profile_line, remark, source_text,
    Bucket, ListedProfile,
};
use crate::report::{LineView, Style};
use crate::text::{join, lemma_in_filtered, padded, views};
use vstd::prelude::*;

verus! {

/// A profile with a file of the user is the user's; else it is the pack's that has it, and else the
/// program's own where it is built in. What nobody else has is the user's too.
pub proof fn law_owners_of_profiles(p: ListedProfile)
    ensures
        bucket(p) == Bucket::Pack <==> !p.user_override && p.pack is Some,
        bucket(p) == Bucket::BuiltIn <==> !p.user_override && p.pack is None && p.builtin,
        bucket(p) == Bucket::User <==> p.user_override || p.pack is None && !p.builtin,
{
}

/// The words for the owner of a profile name it, and what a file of the user hides.
pub proof fn law_owners_in_words(p: ListedProfile)
    ensures
        !p.user_override && p.pack is Some ==> source_text(p) == "pack"@,
        !p.user_override && p.pack is None && p.builtin ==> source_text(p) == "built-in"@,
        !p.user_override && p.pack is None && !p.builtin ==> source_text(p) == "user"@,
        p.user_override && p.pack is Some ==> source_text(p) == "user (overrides pack)"@,
        p.user_override && p.pack is None && p.builtin ==> source_text(p)
            == "user (overrides built-in)"@,
        p.user_override && p.pack is None && !p.builtin ==> source_text(p) == "user"@,
{
}

/// Behind a profile of a pack stands the pack; behind any other the profiles that it builds on.
pub proof fn law_remarks(p: ListedProfile)
    ensures
        !p.user_override && p.pack is Some ==> remark(p) == "from "@ + (p.pack->0)@,
        (p.user_override || p.pack is None) && p.extends is Some ==> remark(p) == "extends "@ + join(
            views((p.extends->0)@),
            ", "@,
        ),
        (p.user_override || p.pack is None) && p.extends is None ==> remark(p) == ""@,
{
}

/// Every profile has a line with its name, and where it could not be loaded the failure is on it.
pub proof fn law_every_profile_is_listed(all: Seq<ListedProfile>, i: int)
    requires
        0 <= i < all.len(),
    ensures
        exists|line: LineView| #[trigger]
            list_lines(all).contains(line) && {
                &&& line.len() >= 4
                &&& line[1] == (Style::TextBold, padded(all[i].name@, 16))
                &&& all[i].loaded is Err ==> line[3] == (
                    Style::Red,
                    "[error: "@ + (all[i].loaded->Err_0)@ + "]"@,
                )
                &&& all[i].loaded is Ok && (all[i].loaded->Ok_0) is Some ==> line[3] == (
                    Style::Subtext,
                    padded((all[i].loaded->Ok_0->0)@, 42),
                )
            },
{
    let p = all[i];
    let line = profile_line(p);
    let b = bucket_lines("Built-in:"@, all, Bucket::BuiltIn);
    let k = bucket_lines("Packages:"@, all, Bucket::Pack);
    let u = bucket_lines("User (~/.config/nono/profiles/):"@, all, Bucket::User);
    lemma_in_bucket("Built-in:"@, all, Bucket::BuiltIn, p);
    lemma_in_bucket("Packages:"@, all, Bucket::Pack, p);
    lemma_in_bucket("User (~/.config/nono/profiles/):"@, all, Bucket::User, p);
    let l = list_lines(all);
    if bucket(p) == Bucket::BuiltIn {
        let j = choose|j: int| 0 <= j < b.len() && b[j] == line;
        assert(l[1 + j] == line);
    } else if bucket(p) == Bucket::Pack {
        let j = choose|j: int| 0 <= j < k.len() && k[j] == line;
        assert(l[1 + b.len() + j] == line);
    } else {
        let j = choose|j: int| 0 <= j < u.len() && u[j] == line;
        assert(l[1 + b.len() + k.len() + j] == line);
    }
    assert(l.contains(line));
}

proof fn lemma_in_bucket(title: Seq<char>, all: Seq<ListedProfile>, b: Bucket, p: ListedProfile)
    requires
        all.contains(p),
    ensures
        bucket(p) == b ==> bucket_lines(title, all, b).contains(profile_line(p)),
{
    if bucket(p) == b {
        lemma_in_filtered(all, |p: ListedProfile| bucket(p) == b, p);
        let f = in_bucket(all, b);
        assert(f.contains(p));
        let k = choose|k: int| 0 <= k < f.len() && f[k] == p;
        let l = bucket_lines(title, all, b);
        let m = f.map_values(|p: ListedProfile| profile_line(p));
        assert(m[k] == profile_line(p));
        assert(l[l.len() - m.len() + k] == profile_line(p));
    }
}

/// For programs a profile has its name, the words for its owner and its pack, and either its
/// description and the profiles that it builds on or the failure to load it.
pub proof fn law_listed_members(p: ListedProfile)
    ensures
        ({
            let v = listed_json(p);
            &&& has_member(v, "name"@, JsonView::Text(p.name@))
            &&& has_member(v, "source"@, JsonView::Text(source_text(p)))
            &&& p.pack is Some ==> has_member(v, "pack"@, JsonView::Text((p.pack->0)@))
            &&& p.pack is None ==> has_member(v, "pack"@, JsonView::Null)
            &&& p.loaded is Err ==> has_member(v, "error"@, JsonView::Text((p.loaded->Err_0)@))
                && v->Object_0.len() == 4
            &&& p.loaded is Ok && (p.loaded->Ok_0) is Some ==> has_member(
                v,
                "description"@,
                JsonView::Text((p.loaded->Ok_0->0)@),
            )
            &&& p.loaded is Ok && p.extends is Some ==> has_member(
                v,
                "extends"@,
                text_array(views((p.extends->0)@)),
            )
        }),
{
    let o = listed_json(p)->Object_0;
    assert(o[0] == ("name"@, JsonView::Text(p.name@)));
    assert(o[1] == ("source"@, JsonView::Text(source_text(p))));
    assert(o[2].0 == "pack"@);
    assert(o[2] == ("pack"@, o[2].1));
    assert(o[3] == (o[3].0, o[3].1));
    if p.loaded is Ok {
        assert(o[4] == (o[4].0, o[4].1));
    }
}

} // verus!
