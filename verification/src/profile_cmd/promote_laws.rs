//! Which drafts become profiles.

use crate::assoc::{has_key, lookup};
use crate::digest::sha256_digest;
use crate::policy::{required_groups, unknown_groups, Group};
use crate::profile::{valid_profile_name, FilesystemConfig, Profile};
use crate::profile_cmd::promote::{
    any_change, blank_complaint, change_span, draft_failure, promote_errors, promote_tail,
    request_failure, reserved_source, target_failure, FileEntry, LineTag, PromoteFacts,
};
use crate::report::Style;
use crate::text::{hex_text, is_blank, lemma_in_filtered, lemma_in_views, lower, trim, views};
use vstd::prelude::*;
use vstd::utf8::{decode_utf8, valid_utf8};

verus! {

/// A request is good exactly where it names a profile and does not ask both to see the difference
/// only and to go ahead without a question.
pub proof fn law_good_requests(diff: bool, yes: bool, name: Seq<char>)
    ensures
        request_failure(diff, yes, name) is None <==> valid_profile_name(name) && !(diff && yes),
{
}

/// All paths of a list have something in them.
pub open spec fn no_blank(paths: Seq<String>) -> bool {
    forall|i: int| 0 <= i < paths.len() ==> !is_blank((#[trigger] paths[i])@)
}

/// All lists of paths are without blank ones.
pub open spec fn no_blank_paths(fs: FilesystemConfig) -> bool {
    &&& no_blank(fs.allow@)
    &&& no_blank(fs.read@)
    &&& no_blank(fs.write@)
    &&& no_blank(fs.allow_file@)
    &&& no_blank(fs.read_file@)
    &&& no_blank(fs.write_file@)
}

/// All groups that a profile takes in exist, and none that it leaves out is required.
pub open spec fn good_groups(p: Profile, groups: Seq<(String, Group)>) -> bool {
    &&& forall|i: int|
        0 <= i < p.groups.included@.len() ==> has_key(groups, (#[trigger] p.groups.included@[i])@)
    &&& forall|i: int|
        0 <= i < p.groups.excluded@.len() ==> {
            let name = (#[trigger] p.groups.excluded@[i])@;
            has_key(groups, name) ==> !(lookup(groups, name)->0).required
        }
}

proof fn lemma_blank(paths: Seq<String>, label: Seq<char>)
    ensures
        blank_complaint(views(paths), label).len() == 0 <==> no_blank(paths),
{
    assert(views(paths).len() == paths.len());
    if no_blank(paths) {
        assert forall|i: int| 0 <= i < views(paths).len() implies !is_blank(
            #[trigger] views(paths)[i],
        ) by {
            assert(views(paths)[i] == paths[i]@);
        }
    } else {
        let i = choose|i: int| 0 <= i < paths.len() && is_blank((#[trigger] paths[i])@);
        assert(is_blank(views(paths)[i]));
    }
}

proof fn lemma_none_kept(names: Seq<String>, keep: spec_fn(Seq<char>) -> bool)
    ensures
        views(names).filter(keep).len() == 0 <==> forall|i: int|
            0 <= i < names.len() ==> !keep((#[trigger] names[i])@),
{
    let f = views(names).filter(keep);
    if f.len() > 0 {
        let x = f[0];
        assert(f.contains(x));
        lemma_in_filtered(views(names), keep, x);
        lemma_in_views(names, x);
    } else {
        assert forall|i: int| 0 <= i < names.len() implies !keep((#[trigger] names[i])@) by {
            let x = names[i]@;
            lemma_in_filtered(views(names), keep, x);
            lemma_in_views(names, x);
            if keep(x) {
                assert(f.contains(x));
            }
        }
    }
}

/// Nothing stands against a profile exactly where its groups are good and no path of it is blank.
pub proof fn law_promotable_profiles(p: Profile, groups: Seq<(String, Group)>)
    ensures
        promote_errors(p, groups).len() == 0 <==> good_groups(p, groups) && no_blank_paths(
            p.filesystem,
        ),
{
    let fs = p.filesystem;
    lemma_blank(fs.allow@, "filesystem.allow"@);
    lemma_blank(fs.read@, "filesystem.read"@);
    lemma_blank(fs.write@, "filesystem.write"@);
    lemma_blank(fs.allow_file@, "filesystem.allow_file"@);
    lemma_blank(fs.read_file@, "filesystem.read_file"@);
    lemma_blank(fs.write_file@, "filesystem.write_file"@);
    let missing = |n: Seq<char>| !has_key(groups, n);
    let needed = |n: Seq<char>| has_key(groups, n) && (lookup(groups, n)->0).required;
    lemma_none_kept(p.groups.included@, missing);
    lemma_none_kept(p.groups.excluded@, needed);
    assert(unknown_groups(views(p.groups.included@), groups)
        == views(p.groups.included@).filter(missing));
    assert(required_groups(views(p.groups.excluded@), groups)
        == views(p.groups.excluded@).filter(needed));
    assert(good_groups(p, groups) ==> forall|i: int|
        0 <= i < p.groups.excluded@.len() ==> !needed((#[trigger] p.groups.excluded@[i])@));
}

/// A draft is good exactly where it gives itself the name under which it is kept, its bases can be
/// merged in, and nothing stands against the profile that comes of it.
pub proof fn law_good_drafts(name: Seq<char>, f: PromoteFacts, groups: Seq<(String, Group)>)
    ensures
        draft_failure(name, f, groups) is None <==> {
            &&& f.meta_name@ == name
            &&& f.resolved is Ok
            &&& good_groups(f.resolved->Ok_0, groups)
            &&& no_blank_paths((f.resolved->Ok_0).filesystem)
        },
{
    if f.resolved is Ok {
        law_promotable_profiles(f.resolved->Ok_0, groups);
    }
}

/// The character is a hexadecimal digit.
pub open spec fn hex_char(c: char) -> bool {
    '0' <= c && c <= '9' || 'a' <= c && c <= 'f' || 'A' <= c && c <= 'F'
}

/// A text is the hash of some bytes, in digits of either case and with white space around it.
pub open spec fn is_hash_of(text: Seq<char>, bytes: Seq<u8>) -> bool {
    &&& trim(text).len() == 64
    &&& forall|i: int| 0 <= i < 64 ==> hex_char(#[trigger] trim(text)[i])
    &&& lower(trim(text)) == lower(hex_text(sha256_digest(bytes)))
}

/// A draft may take its place exactly where nothing is there and the name belongs to no built-in
/// profile and to no pack, or where a plain file is there that still has the hash that the draft was
/// based on.
pub proof fn law_targets_that_may_be_replaced(name: Seq<char>, f: PromoteFacts)
    ensures
        target_failure(name, f) is None <==> {
            ||| f.target == FileEntry::Missing && !f.builtin && !f.in_pack
            ||| f.target == FileEntry::Regular && f.current is Ok && f.base is Ok && valid_utf8(
                (f.base->Ok_0)@,
            ) && is_hash_of(decode_utf8((f.base->Ok_0)@), (f.current->Ok_0)@)
        },
{
    if f.target == FileEntry::Regular && f.current is Ok && f.base is Ok && valid_utf8(
        (f.base->Ok_0)@,
    ) {
        let t = trim(decode_utf8((f.base->Ok_0)@));
        if is_hash_of(decode_utf8((f.base->Ok_0)@), (f.current->Ok_0)@) {
            assert(crate::digest::is_hash_text(t));
        }
        if crate::digest::is_hash_text(t) {
            assert forall|i: int| 0 <= i < 64 implies hex_char(#[trigger] t[i]) by {
                assert(crate::text::is_hex(t[i]));
            }
        }
    }
}

/// A name is taken by the built-in profile before it is by a pack.
pub proof fn law_taken_names(builtin: bool, in_pack: bool)
    ensures
        reserved_source(builtin, in_pack) is None <==> !builtin && !in_pack,
        builtin ==> reserved_source(builtin, in_pack) == Some("built-in"@),
        !builtin && in_pack ==> reserved_source(builtin, in_pack) == Some("installed pack"@),
{
}

/// A line that was added is shown in green behind a plus sign, one that was taken away in red behind
/// a minus sign, and one that stayed behind a space; and it is said where all stayed.
pub proof fn law_shown_changes(changes: Seq<(LineTag, Seq<char>)>, i: int)
    requires
        0 <= i < changes.len(),
    ensures
        changes[i].0 == LineTag::Insert ==> change_span(changes[i]) == (
            Style::Green,
            "+"@ + changes[i].1,
        ),
        changes[i].0 == LineTag::Delete ==> change_span(changes[i]) == (
            Style::Red,
            "-"@ + changes[i].1,
        ),
        changes[i].0 == LineTag::Equal ==> change_span(changes[i]) == (
            Style::Plain,
            " "@ + changes[i].1,
        ),
        changes[i].0 != LineTag::Equal ==> promote_tail(any_change(changes)).len() == 1,
        (forall|k: int| 0 <= k < changes.len() ==> (#[trigger] changes[k]).0 == LineTag::Equal)
            ==> promote_tail(any_change(changes)).len() == 2 && promote_tail(any_change(changes))[0][1].1
            == "(no differences)"@,
{
}

} // verus!
