//! Which profiles are created, and what stands in them.

use crate::error::ErrorView;
use crate::json::{
    field, field_if, has_label, has_member, lemma_labels, lemma_one_more, text_array, JsonView,
};
use crate::profile::valid_profile_name;
use crate::profile_cmd::init::{
    commands_json, empty_list, empty_object, filesystem_json, first_unknown, groups_json,
    init_plan, meta_json, network_json, rollback_json, skeleton_json, text_or_empty, workdir_json,
    InitFacts, InitPlanView, ProfileInitArgs,
};
use crate::text::{first_index, lemma_first_index, lemma_in_views, views};
use vstd::prelude::*;

verus! {

/// A name is in a list.
pub open spec fn is_listed(list: Seq<String>, name: Seq<char>) -> bool {
    exists|i: int| 0 <= i < list.len() && (#[trigger] list[i])@ == name
}

proof fn lemma_first_unknown(names: Seq<Seq<char>>, known: Seq<Seq<char>>)
    ensures
        ({
            let r = first_unknown(names, known);
            &&& 0 <= r <= names.len()
            &&& forall|i: int| 0 <= i < r ==> known.contains(#[trigger] names[i])
            &&& r < names.len() ==> !known.contains(names[r])
        }),
    decreases names.len(),
{
    if names.len() > 0 && known.contains(names[0]) {
        let rest = names.skip(1);
        lemma_first_unknown(rest, known);
        let r = first_unknown(names, known);
        assert forall|i: int| 0 <= i < r implies known.contains(#[trigger] names[i]) by {
            if i > 0 {
                assert(rest[i - 1] == names[i]);
            }
        }
        if r < names.len() {
            assert(rest[r - 1] == names[r]);
        }
    }
}

/// All groups that are asked for exist.
pub open spec fn all_groups_exist(a: ProfileInitArgs, f: InitFacts) -> bool {
    forall|i: int| 0 <= i < a.groups@.len() ==> is_listed(f.groups@, (#[trigger] a.groups@[i])@)
}

proof fn lemma_groups(a: ProfileInitArgs, f: InitFacts)
    ensures
        all_groups_exist(a, f) <==> first_unknown(views(a.groups@), views(f.groups@))
            == a.groups@.len(),
{
    let names = views(a.groups@);
    let known = views(f.groups@);
    lemma_first_unknown(names, known);
    let r = first_unknown(names, known);
    assert(names.len() == a.groups@.len());
    if r == a.groups@.len() {
        assert forall|i: int| 0 <= i < a.groups@.len() implies is_listed(
            f.groups@,
            (#[trigger] a.groups@[i])@,
        ) by {
            assert(known.contains(names[i]));
            lemma_in_views(f.groups@, names[i]);
        }
    } else {
        assert(a.groups@[r]@ == names[r]);
        lemma_in_views(f.groups@, names[r]);
    }
}

/// A profile is created exactly where its name is a plain and valid one that no built-in profile has,
/// nothing is overwritten without leave, and its base and all its groups exist; and it is created
/// where it was to be.
pub proof fn law_created_profiles(a: ProfileInitArgs, f: InitFacts)
    ensures
        init_plan(a, f) is Create <==> {
            &&& !f.registry_ref
            &&& valid_profile_name(a.name@)
            &&& f.output is Ok
            &&& f.output_exists ==> a.force
            &&& f.builtin is Ok
            &&& !is_listed((f.builtin->Ok_0)@, a.name@)
            &&& a.extends is Some ==> f.base_exists
            &&& all_groups_exist(a, f)
        },
        init_plan(a, f) is Create ==> init_plan(a, f) == InitPlanView::Create((f.output->Ok_0)@),
{
    lemma_groups(a, f);
    lemma_first_unknown(views(a.groups@), views(f.groups@));
    if f.builtin is Ok {
        lemma_in_views((f.builtin->Ok_0)@, a.name@);
    }
}

/// A group that does not exist is named in the refusal, and every group before it exists.
pub proof fn law_unknown_groups_are_named(a: ProfileInitArgs, f: InitFacts, i: int)
    requires
        0 <= i < a.groups@.len(),
        !is_listed(f.groups@, a.groups@[i]@),
        forall|k: int| 0 <= k < i ==> is_listed(f.groups@, (#[trigger] a.groups@[k])@),
        !f.registry_ref,
        valid_profile_name(a.name@),
        f.output is Ok,
        f.output_exists ==> a.force,
        f.builtin is Ok,
        !is_listed((f.builtin->Ok_0)@, a.name@),
        a.extends is Some ==> f.base_exists,
    ensures
        init_plan(a, f) == InitPlanView::Refuse(
            ErrorView::ProfileParse(
                "Unknown security group '"@ + a.groups@[i]@
                    + "'. Use `nono profile groups` to list available groups"@,
            ),
        ),
{
    let names = views(a.groups@);
    let known = views(f.groups@);
    lemma_first_unknown(names, known);
    let r = first_unknown(names, known);
    assert(names.len() == a.groups@.len());
    lemma_in_views((f.builtin->Ok_0)@, a.name@);
    lemma_in_views(f.groups@, names[i]);
    assert(names[i] == a.groups@[i]@);
    if r > i {
        assert(known.contains(names[i]));
    }
    if r < i {
        assert(is_listed(f.groups@, a.groups@[r]@));
        assert(names[r] == a.groups@[r]@);
        lemma_in_views(f.groups@, names[r]);
    }
}

/// For the name of a pack another is offered: what stands behind the first slash of it, with
/// `-local` behind that, building on the base asked for or else on the pack. For the name of a
/// built-in profile one that builds on it is.
pub proof fn law_offered_names(a: ProfileInitArgs, f: InitFacts, space: Seq<char>, rest: Seq<char>)
    requires
        f.registry_ref,
        a.name@ == space + seq!['/'] + rest,
        !space.contains('/'),
    ensures
        init_plan(a, f) is Suggest,
        a.extends is Some ==> init_plan(a, f)->command == "nono profile init "@ + rest
            + "-local --extends "@ + (a.extends->0)@,
        a.extends is None ==> init_plan(a, f)->command == "nono profile init "@ + rest
            + "-local --extends "@ + a.name@,
{
    let name = a.name@;
    lemma_first_index(name, '/');
    let i = first_index(name, '/');
    assert(name[space.len() as int] == '/');
    assert(name.contains('/'));
    assert(i == space.len()) by {
        if i < space.len() {
            assert(name[i] == space[i]);
            assert(space.contains('/'));
        }
    }
    assert(name.skip(i + 1) =~= rest);
}

/// The members of a profile to start from: the base where there is one, the name, the description
/// where there is one, and the groups.
pub proof fn law_members_of_new_profiles(a: ProfileInitArgs)
    ensures
        ({
            let v = skeleton_json(a);
            &&& a.extends is Some ==> has_member(v, "extends"@, JsonView::Text((a.extends->0)@))
            &&& a.extends is None ==> !has_label(v, "extends"@)
            &&& has_member(v, "meta"@, meta_json(a))
            &&& has_member(meta_json(a), "name"@, JsonView::Text(a.name@))
            &&& a.description is Some ==> has_member(
                meta_json(a),
                "description"@,
                JsonView::Text((a.description->0)@),
            )
            &&& a.description is None ==> !has_label(meta_json(a), "description"@)
            &&& has_member(v, "groups"@, groups_json(a))
            &&& has_member(groups_json(a), "include"@, text_array(views(a.groups@)))
            &&& has_member(v, "workdir"@, workdir_json())
            &&& has_member(workdir_json(), "access"@, JsonView::Text("readwrite"@))
            &&& has_member(v, "filesystem"@, filesystem_json(a))
        }),
{
    lemma_skeleton(a);
    lemma_meta(a);
    let e = Seq::<(Seq<char>, JsonView)>::empty();
    let g = text_array(views(a.groups@));
    lemma_one_more(e, true, "include"@, g);
    lemma_one_more(e + field("include"@, g), a.full, "exclude"@, empty_list());
    lemma_one_more(e, true, "access"@, JsonView::Text("readwrite"@));
    lemma_labels(skeleton_json(a), "extends"@);
    lemma_labels(meta_json(a), "description"@);
    reveal_strlit("extends");
    reveal_strlit("meta");
    reveal_strlit("groups");
    reveal_strlit("commands");
    reveal_strlit("workdir");
    reveal_strlit("filesystem");
    reveal_strlit("network");
    reveal_strlit("env_credentials");
    reveal_strlit("hooks");
    reveal_strlit("rollback");
    reveal_strlit("name");
    reveal_strlit("description");
    assert("extends"@[0] == 'e' && "extends"@[1] == 'x');
    assert("meta"@[0] == 'm' && "groups"@[0] == 'g' && "commands"@[0] == 'c' && "workdir"@[0] == 'w');
    assert("filesystem"@[0] == 'f' && "network"@[0] == 'n' && "env_credentials"@[1] == 'n'
        && "hooks"@[0] == 'h' && "rollback"@[0] == 'r');
    assert("name"@[0] == 'n' && "description"@[0] == 'd');
}

proof fn lemma_meta(a: ProfileInitArgs)
    ensures
        forall|m: (Seq<char>, JsonView)| #[trigger]
            meta_json(a)->Object_0.contains(m) <==> {
                ||| m == ("name"@, JsonView::Text(a.name@))
                ||| a.description is Some && m == (
                    "description"@,
                    JsonView::Text(text_or_empty(a.description)),
                )
            },
{
    let e = Seq::<(Seq<char>, JsonView)>::empty();
    let name = JsonView::Text(a.name@);
    lemma_one_more(e, true, "name"@, name);
    lemma_one_more(
        e + field("name"@, name),
        a.description is Some,
        "description"@,
        JsonView::Text(text_or_empty(a.description)),
    );
    assert forall|m: (Seq<char>, JsonView)| #[trigger]
        meta_json(a)->Object_0.contains(m) <==> {
            ||| m == ("name"@, name)
            ||| a.description is Some && m == (
                "description"@,
                JsonView::Text(text_or_empty(a.description)),
            )
        } by {
        assert(!e.contains(m));
        assert((e + field_if(true, "name"@, name)).contains(m) <==> m == ("name"@, name));
    }
}

/// A member of a profile to start from, without or with all that can be set.
spec fn is_part(a: ProfileInitArgs, m: (Seq<char>, JsonView)) -> bool {
    ||| a.extends is Some && m == ("extends"@, JsonView::Text(text_or_empty(a.extends)))
    ||| m == ("meta"@, meta_json(a))
    ||| m == ("groups"@, groups_json(a))
    ||| a.full && m == ("commands"@, commands_json())
    ||| m == ("workdir"@, workdir_json())
    ||| m == ("filesystem"@, filesystem_json(a))
    ||| a.full && m == ("network"@, network_json())
    ||| a.full && m == ("env_credentials"@, empty_object())
    ||| a.full && m == ("hooks"@, empty_object())
    ||| a.full && m == ("rollback"@, rollback_json())
}

proof fn lemma_skeleton(a: ProfileInitArgs)
    ensures
        skeleton_json(a) is Object,
        forall|m: (Seq<char>, JsonView)| #[trigger]
            skeleton_json(a)->Object_0.contains(m) <==> is_part(a, m),
{
    let s0 = Seq::<(Seq<char>, JsonView)>::empty();
    let s1 = s0 + field_if(
        a.extends is Some,
        "extends"@,
        JsonView::Text(text_or_empty(a.extends)),
    );
    let s2 = s1 + field_if(true, "meta"@, meta_json(a));
    let s3 = s2 + field_if(true, "groups"@, groups_json(a));
    let s4 = s3 + field_if(a.full, "commands"@, commands_json());
    let s5 = s4 + field_if(true, "workdir"@, workdir_json());
    let s6 = s5 + field_if(true, "filesystem"@, filesystem_json(a));
    let s7 = s6 + field_if(a.full, "network"@, network_json());
    let s8 = s7 + field_if(a.full, "env_credentials"@, empty_object());
    let s9 = s8 + field_if(a.full, "hooks"@, empty_object());
    let s10 = s9 + field_if(a.full, "rollback"@, rollback_json());
    lemma_one_more(s0, a.extends is Some, "extends"@, JsonView::Text(text_or_empty(a.extends)));
    lemma_one_more(s1, true, "meta"@, meta_json(a));
    lemma_one_more(s2, true, "groups"@, groups_json(a));
    lemma_one_more(s3, a.full, "commands"@, commands_json());
    lemma_one_more(s4, true, "workdir"@, workdir_json());
    lemma_one_more(s5, true, "filesystem"@, filesystem_json(a));
    lemma_one_more(s6, a.full, "network"@, network_json());
    lemma_one_more(s7, a.full, "env_credentials"@, empty_object());
    lemma_one_more(s8, a.full, "hooks"@, empty_object());
    lemma_one_more(s9, a.full, "rollback"@, rollback_json());
    assert(skeleton_json(a)->Object_0 == s10);
    assert forall|m: (Seq<char>, JsonView)| #[trigger] s10.contains(m) <==> is_part(a, m) by {
        assert(!s0.contains(m));
        assert(s10.contains(m) <==> s9.contains(m) || (a.full && m == ("rollback"@, rollback_json())));
        assert(s9.contains(m) <==> s8.contains(m) || (a.full && m == ("hooks"@, empty_object())));
        assert(s8.contains(m) <==> s7.contains(m) || (a.full && m == ("env_credentials"@, empty_object())));
        assert(s7.contains(m) <==> s6.contains(m) || (a.full && m == ("network"@, network_json())));
        assert(s6.contains(m) <==> s5.contains(m) || m == ("filesystem"@, filesystem_json(a)));
        assert(s5.contains(m) <==> s4.contains(m) || m == ("workdir"@, workdir_json()));
        assert(s4.contains(m) <==> s3.contains(m) || (a.full && m == ("commands"@, commands_json())));
        assert(s3.contains(m) <==> s2.contains(m) || m == ("groups"@, groups_json(a)));
        assert(s2.contains(m) <==> s1.contains(m) || m == ("meta"@, meta_json(a)));
        assert(s1.contains(m) <==> s0.contains(m) || (a.extends is Some && m == (
            "extends"@,
            JsonView::Text(text_or_empty(a.extends)),
        )));
    }
}

/// A new profile opens no path but the working directory, blocks no network, and says nothing of a
/// network profile, so that one that it inherits stays.
pub proof fn law_new_profiles_open_nothing(a: ProfileInitArgs)
    ensures
        forall|i: int|
            0 <= i < filesystem_json(a)->Object_0.len() ==> (
            #[trigger] filesystem_json(a)->Object_0[i]).1 == JsonView::Array(Seq::empty()),
        has_member(network_json(), "block"@, JsonView::Bool(false)),
        !has_label(network_json(), "network_profile"@),
{
    let o = network_json()->Object_0;
    assert(o[0] == ("block"@, JsonView::Bool(false)));
    reveal_strlit("network_profile");
    reveal_strlit("block");
    reveal_strlit("allow_domain");
    reveal_strlit("credentials");
    reveal_strlit("open_port");
    reveal_strlit("listen_port");
    reveal_strlit("custom_credentials");
    let n = "network_profile"@;
    assert(n[0] == 'n');
    assert forall|i: int| 0 <= i < o.len() implies (#[trigger] o[i]).0 != n by {
        assert(o.len() == 6);
        assert("block"@[0] == 'b' && "allow_domain"@[0] == 'a' && "credentials"@[0] == 'c');
        assert("open_port"@[0] == 'o' && "listen_port"@[0] == 'l');
        assert("custom_credentials"@[0] == 'c');
    }
}

/// A profile is checked by its name where it is kept where profiles of that name are looked for, and
/// else by its path.
pub proof fn law_names_to_check(name: Seq<char>, place: Option<Seq<char>>, output: Seq<char>)
    ensures
        place is Some && crate::paths::same_path(place->0, output)
            ==> crate::profile_cmd::init::validate_name(name, place, output) == name,
        !(place is Some && crate::paths::same_path(place->0, output))
            ==> crate::profile_cmd::init::validate_name(name, place, output) == output,
{
}

/// A profile is written exactly where it is to be created; an offer ends the request without a word
/// more, and a refusal with its failure.
pub proof fn law_ends_of_requests(plan: InitPlanView)
    ensures
        plan.outcome() is Ok <==> plan is Create,
        plan is Create ==> plan.outcome() == Ok::<Seq<char>, ErrorView>(plan->Create_0),
        plan is Refuse ==> plan.outcome() == Err::<Seq<char>, ErrorView>(plan->Refuse_0),
        plan is Suggest ==> plan.outcome() is Err && plan.outcome()->Err_0 is Cancelled,
{
}

} // verus!
