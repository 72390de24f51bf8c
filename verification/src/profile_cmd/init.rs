//! Creating a profile.

use crate::error::{ErrorView, NonoError};
use crate::json::{
    field, field_if, json_array, json_object, json_text, json_texts, no_members, put_field,
    put_field_if, text_array, Json, JsonView,
};
use crate::paths::{is_same_path, same_path};
use crate::profile::{is_valid_profile_name, valid_profile_name};
use crate::text::{
    chars_of, concat3, concat4, concat5, contains_str, copy_str, find_first, first_index,
    from_chars, lemma_first_index, opt_view, sub_chars, views,
};
use vstd::prelude::*;

verus! {

/// What is asked for when a profile is created.
#[derive(Debug)]
pub struct ProfileInitArgs {
    pub name: String,
    pub extends: Option<String>,
    pub groups: Vec<String>,
    pub description: Option<String>,
    pub full: bool,
    pub force: bool,
}

// ---------------------------------------------------------------------------
// The skeleton
// ---------------------------------------------------------------------------

/// A list with nothing in it.
pub open spec fn empty_list() -> JsonView {
    JsonView::Array(Seq::empty())
}

pub open spec fn empty_object() -> JsonView {
    JsonView::Object(Seq::empty())
}

fn no_items() -> (r: Json)
    ensures
        r@ == empty_list(),
{
    let v: Vec<Json> = Vec::new();
    let r = json_array(v);
    assert(r@->Array_0 =~= Seq::<JsonView>::empty());
    r
}

fn no_entries() -> (r: Json)
    ensures
        r@ == empty_object(),
{
    json_object(no_members())
}

/// The text of an optional value; empty where there is none.
pub open spec fn text_or_empty(v: Option<String>) -> Seq<char> {
    match v {
        Some(x) => x@,
        None => ""@,
    }
}

fn str_or_empty(v: &Option<String>) -> (r: &str)
    ensures
        r@ == text_or_empty(*v),
{
    match v {
        Some(x) => x.as_str(),
        None => "",
    }
}

/// What the profile is called.
pub open spec fn meta_json(a: ProfileInitArgs) -> JsonView {
    JsonView::Object(
        Seq::<(Seq<char>, JsonView)>::empty()
            + field("name"@, JsonView::Text(a.name@))
            + field_if(a.description is Some, "description"@, JsonView::Text(text_or_empty(a.description))),
    )
}

fn meta_to_json(a: &ProfileInitArgs) -> (r: Json)
    ensures
        r@ == meta_json(*a),
{
    let mut o = no_members();
    put_field(&mut o, "name", json_text(a.name.as_str()));
    put_field_if(&mut o, a.description.is_some(), "description", json_text(str_or_empty(&a.description)));
    json_object(o)
}

/// The groups it names.
pub open spec fn groups_json(a: ProfileInitArgs) -> JsonView {
    JsonView::Object(
        Seq::<(Seq<char>, JsonView)>::empty()
            + field("include"@, text_array(views(a.groups@)))
            + field_if(a.full, "exclude"@, empty_list()),
    )
}

fn groups_to_json(a: &ProfileInitArgs) -> (r: Json)
    ensures
        r@ == groups_json(*a),
{
    let mut o = no_members();
    put_field(&mut o, "include", json_texts(&a.groups));
    put_field_if(&mut o, a.full, "exclude", no_items());
    json_object(o)
}

/// The commands, none of them.
pub open spec fn commands_json() -> JsonView {
    JsonView::Object(
        Seq::<(Seq<char>, JsonView)>::empty()
            + field("allow"@, empty_list())
            + field("deny"@, empty_list()),
    )
}

fn commands_to_json() -> (r: Json)
    ensures
        r@ == commands_json(),
{
    let mut o = no_members();
    put_field(&mut o, "allow", no_items());
    put_field(&mut o, "deny", no_items());
    json_object(o)
}

/// Full access to the working directory.
pub open spec fn workdir_json() -> JsonView {
    JsonView::Object(
        Seq::<(Seq<char>, JsonView)>::empty()
            + field("access"@, JsonView::Text("readwrite"@)),
    )
}

fn workdir_to_json() -> (r: Json)
    ensures
        r@ == workdir_json(),
{
    let mut o = no_members();
    put_field(&mut o, "access", json_text("readwrite"));
    json_object(o)
}

/// The lists of paths, all of them empty.
pub open spec fn filesystem_json(a: ProfileInitArgs) -> JsonView {
    JsonView::Object(
        Seq::<(Seq<char>, JsonView)>::empty()
            + field("allow"@, empty_list())
            + field("read"@, empty_list())
            + field_if(a.full, "write"@, empty_list())
            + field_if(a.full, "allow_file"@, empty_list())
            + field_if(a.full, "read_file"@, empty_list())
            + field_if(a.full, "write_file"@, empty_list())
            + field_if(a.full, "deny"@, empty_list())
            + field_if(a.full, "bypass_protection"@, empty_list())
            + field_if(a.full, "suppress_save_prompt"@, empty_list()),
    )
}

fn filesystem_to_json(a: &ProfileInitArgs) -> (r: Json)
    ensures
        r@ == filesystem_json(*a),
{
    let mut o = no_members();
    put_field(&mut o, "allow", no_items());
    put_field(&mut o, "read", no_items());
    put_field_if(&mut o, a.full, "write", no_items());
    put_field_if(&mut o, a.full, "allow_file", no_items());
    put_field_if(&mut o, a.full, "read_file", no_items());
    put_field_if(&mut o, a.full, "write_file", no_items());
    put_field_if(&mut o, a.full, "deny", no_items());
    put_field_if(&mut o, a.full, "bypass_protection", no_items());
    put_field_if(&mut o, a.full, "suppress_save_prompt", no_items());
    json_object(o)
}

/// The network. The network profile stays out: to write it down as absent would clear an inherited one.
pub open spec fn network_json() -> JsonView {
    JsonView::Object(
        Seq::<(Seq<char>, JsonView)>::empty()
            + field("block"@, JsonView::Bool(false))
            + field("allow_domain"@, empty_list())
            + field("credentials"@, empty_list())
            + field("open_port"@, empty_list())
            + field("listen_port"@, empty_list())
            + field("custom_credentials"@, empty_object()),
    )
}

fn network_to_json() -> (r: Json)
    ensures
        r@ == network_json(),
{
    let mut o = no_members();
    put_field(&mut o, "block", Json::Bool(false));
    put_field(&mut o, "allow_domain", no_items());
    put_field(&mut o, "credentials", no_items());
    put_field(&mut o, "open_port", no_items());
    put_field(&mut o, "listen_port", no_items());
    put_field(&mut o, "custom_credentials", no_entries());
    json_object(o)
}

/// What snapshots leave out.
pub open spec fn rollback_json() -> JsonView {
    JsonView::Object(
        Seq::<(Seq<char>, JsonView)>::empty()
            + field("exclude_patterns"@, empty_list())
            + field("exclude_globs"@, empty_list()),
    )
}

fn rollback_to_json() -> (r: Json)
    ensures
        r@ == rollback_json(),
{
    let mut o = no_members();
    put_field(&mut o, "exclude_patterns", no_items());
    put_field(&mut o, "exclude_globs", no_items());
    json_object(o)
}

/// A profile to start from. What would replace inherited values where it is written down stays out.
pub open spec fn skeleton_json(a: ProfileInitArgs) -> JsonView {
    JsonView::Object(
        Seq::<(Seq<char>, JsonView)>::empty()
            + field_if(a.extends is Some, "extends"@, JsonView::Text(text_or_empty(a.extends)))
            + field("meta"@, meta_json(a))
            + field("groups"@, groups_json(a))
            + field_if(a.full, "commands"@, commands_json())
            + field("workdir"@, workdir_json())
            + field("filesystem"@, filesystem_json(a))
            + field_if(a.full, "network"@, network_json())
            + field_if(a.full, "env_credentials"@, empty_object())
            + field_if(a.full, "hooks"@, empty_object())
            + field_if(a.full, "rollback"@, rollback_json()),
    )
}

/// Builds a profile to start from, with its members in a fixed order.
pub fn build_skeleton(a: &ProfileInitArgs) -> (r: Json)
    ensures
        r@ == skeleton_json(*a),
{
    let mut o = no_members();
    put_field_if(&mut o, a.extends.is_some(), "extends", json_text(str_or_empty(&a.extends)));
    put_field(&mut o, "meta", meta_to_json(a));
    put_field(&mut o, "groups", groups_to_json(a));
    put_field_if(&mut o, a.full, "commands", commands_to_json());
    put_field(&mut o, "workdir", workdir_to_json());
    put_field(&mut o, "filesystem", filesystem_to_json(a));
    put_field_if(&mut o, a.full, "network", network_to_json());
    put_field_if(&mut o, a.full, "env_credentials", no_entries());
    put_field_if(&mut o, a.full, "hooks", no_entries());
    put_field_if(&mut o, a.full, "rollback", rollback_to_json());
    json_object(o)
}

// ---------------------------------------------------------------------------
// Whether the profile can be created
// ---------------------------------------------------------------------------

/// What is known of the surroundings: whether the name is a pack reference, where the profile
/// would be written and whether a file is there, the built-in profiles, whether the base profile
/// exists, and the groups there are.
#[derive(Debug)]
pub struct InitFacts {
    pub registry_ref: bool,
    pub output: Result<String, NonoError>,
    pub output_exists: bool,
    pub builtin: Result<Vec<String>, NonoError>,
    pub base_exists: bool,
    pub groups: Vec<String>,
}

/// What becomes of the request.
#[derive(Debug)]
pub enum InitPlan {
    /// The name cannot be used; a warning and a command that would do.
    Suggest { warning: String, command: String },
    Refuse(NonoError),
    /// The profile is written to this path.
    Create(String),
}

pub enum InitPlanView {
    Suggest { warning: Seq<char>, command: Seq<char> },
    Refuse(ErrorView),
    Create(Seq<char>),
}

impl View for InitPlan {
    type V = InitPlanView;

    open spec fn view(&self) -> InitPlanView {
        match self {
            InitPlan::Suggest { warning, command } => InitPlanView::Suggest {
                warning: warning@,
                command: command@,
            },
            InitPlan::Refuse(e) => InitPlanView::Refuse(e@),
            InitPlan::Create(p) => InitPlanView::Create(p@),
        }
    }
}

impl InitPlanView {
    /// The path that is written, or the failure with which the request ends.
    pub open spec fn outcome(self) -> Result<Seq<char>, ErrorView> {
        match self {
            InitPlanView::Suggest { warning, command } => Err(ErrorView::Cancelled(""@)),
            InitPlanView::Refuse(e) => Err(e),
            InitPlanView::Create(p) => Ok(p),
        }
    }
}

impl InitPlan {
    /// The path that is written, or the failure with which the request ends. Behind a suggestion
    /// nothing more is said.
    pub fn outcome(&self) -> (r: Result<String, NonoError>)
        ensures
            match r {
                Ok(p) => self@.outcome() == Ok::<Seq<char>, ErrorView>(p@),
                Err(e) => self@.outcome() == Err::<Seq<char>, ErrorView>(e@),
            },
    {
        match self {
            InitPlan::Suggest { .. } => Err(NonoError::Cancelled(copy_str(""))),
            InitPlan::Refuse(e) => Err(e.copy()),
            InitPlan::Create(p) => Ok(copy_str(p.as_str())),
        }
    }
}

/// What stands behind the first slash; the whole where there is none.
pub open spec fn short_name(name: Seq<char>) -> Seq<char> {
    let i = first_index(name, '/');
    if 0 <= i < name.len() {
        name.skip(i + 1)
    } else {
        name
    }
}

fn short_name_of(name: &str) -> (r: String)
    ensures
        r@ == short_name(name@),
{
    let v = chars_of(name);
    let i = find_first(&v, '/');
    proof {
        lemma_first_index(name@, '/');
    }
    if i < v.len() {
        let rest = sub_chars(&v, i + 1, v.len());
        assert(rest@ =~= name@.skip(i + 1));
        from_chars(&rest)
    } else {
        copy_str(name)
    }
}

/// The message for a base profile that no source has.
pub open spec fn missing_base_message(name: Seq<char>) -> Seq<char> {
    "Base profile '"@ + name
        + "' not found (built-in, user, or installed pack). If it's provided by a registry pack, run `nono pull <namespace>/<pack>` first."@
}

pub fn extends_target_not_found_message(name: &str) -> (r: String)
    ensures
        r@ == missing_base_message(name@),
{
    concat3(
        "Base profile '",
        name,
        "' not found (built-in, user, or installed pack). If it's provided by a registry pack, run `nono pull <namespace>/<pack>` first.",
    )
}

/// A profile exists where any of its three sources has it.
pub fn profile_exists(builtin: bool, user_file: bool, in_pack: bool) -> (r: bool)
    ensures
        r == (builtin || user_file || in_pack),
{
    builtin || user_file || in_pack
}

/// Position of the first of `names` that is not among `known`; their number where all are.
pub open spec fn first_unknown(names: Seq<Seq<char>>, known: Seq<Seq<char>>) -> int
    decreases names.len(),
{
    if names.len() == 0 || !known.contains(names[0]) {
        0
    } else {
        1 + first_unknown(names.skip(1), known)
    }
}

fn find_unknown(names: &Vec<String>, known: &Vec<String>) -> (r: usize)
    ensures
        r == first_unknown(views(names@), views(known@)),
        r <= names@.len(),
{
    let ghost n = views(names@);
    let ghost k = views(known@);
    let mut i: usize = 0;
    assert(n.skip(0) =~= n);
    while i < names.len() && contains_str(known, names[i].as_str())
        invariant
            i <= names@.len(),
            n == views(names@),
            k == views(known@),
            first_unknown(n, k) == i + first_unknown(n.skip(i as int), k),
        decreases names@.len() - i,
    {
        proof {
            assert(n.skip(i as int)[0] == names@[i as int]@);
            assert(n.skip(i as int).skip(1) =~= n.skip(i + 1));
        }
        i += 1;
    }
    proof {
        if i < names@.len() {
            assert(n.skip(i as int)[0] == names@[i as int]@);
        }
    }
    i
}

pub open spec fn unknown_group_message(group: Seq<char>) -> Seq<char> {
    "Unknown security group '"@ + group
        + "'. Use `nono profile groups` to list available groups"@
}

/// What becomes of a request, by the first check that it fails.
pub open spec fn init_plan(a: ProfileInitArgs, f: InitFacts) -> InitPlanView {
    let base = match a.extends {
        Some(b) => b@,
        None => a.name@,
    };
    if f.registry_ref {
        InitPlanView::Suggest {
            warning: "'"@ + a.name@
                + "' is a pack reference, not a profile name. Choose a plain name for your profile."@,
            command: "nono profile init "@ + short_name(a.name@) + "-local --extends "@ + base,
        }
    } else if !valid_profile_name(a.name@) {
        InitPlanView::Refuse(
            ErrorView::ProfileParse(
                "Invalid profile name '"@ + a.name@
                    + "': must be alphanumeric with hyphens, no leading/trailing hyphens"@,
            ),
        )
    } else if f.output is Err {
        InitPlanView::Refuse((f.output->Err_0)@)
    } else if f.output_exists && !a.force {
        InitPlanView::Refuse(
            ErrorView::ProfileParse(
                "Profile file already exists: "@ + (f.output->Ok_0)@
                    + "\nUse --force to overwrite"@,
            ),
        )
    } else if f.builtin is Err {
        InitPlanView::Refuse((f.builtin->Err_0)@)
    } else if views((f.builtin->Ok_0)@).contains(a.name@) {
        InitPlanView::Suggest {
            warning: "Cannot create profile '"@ + a.name@ + "': it conflicts with the built-in '"@
                + a.name@ + "' profile."@,
            command: "nono profile init "@ + a.name@ + "-local --extends "@ + a.name@,
        }
    } else if a.extends is Some && !f.base_exists {
        InitPlanView::Refuse(ErrorView::ProfileParse(missing_base_message((a.extends->0)@)))
    } else if first_unknown(views(a.groups@), views(f.groups@)) < a.groups@.len() {
        InitPlanView::Refuse(
            ErrorView::ProfileParse(
                unknown_group_message(
                    views(a.groups@)[first_unknown(views(a.groups@), views(f.groups@))],
                ),
            ),
        )
    } else {
        InitPlanView::Create((f.output->Ok_0)@)
    }
}

/// Decides whether a profile can be created.
pub fn cmd_init(a: &ProfileInitArgs, f: &InitFacts) -> (r: InitPlan)
    ensures
        r@ == init_plan(*a, *f),
{
    let name = a.name.as_str();
    if f.registry_ref {
        let short = short_name_of(name);
        let base = match &a.extends {
            Some(b) => b.as_str(),
            None => name,
        };
        return InitPlan::Suggest {
            warning: concat3(
                "'",
                name,
                "' is a pack reference, not a profile name. Choose a plain name for your profile.",
            ),
            command: concat4("nono profile init ", short.as_str(), "-local --extends ", base),
        };
    }
    if !is_valid_profile_name(name) {
        return InitPlan::Refuse(
            NonoError::ProfileParse(
                concat3(
                    "Invalid profile name '",
                    name,
                    "': must be alphanumeric with hyphens, no leading/trailing hyphens",
                ),
            ),
        );
    }
    let output = match &f.output {
        Ok(p) => p.as_str(),
        Err(e) => {
            return InitPlan::Refuse(e.copy());
        },
    };
    if f.output_exists && !a.force {
        return InitPlan::Refuse(
            NonoError::ProfileParse(
                concat3("Profile file already exists: ", output, "\nUse --force to overwrite"),
            ),
        );
    }
    let builtin = match &f.builtin {
        Ok(b) => b,
        Err(e) => {
            return InitPlan::Refuse(e.copy());
        },
    };
    if contains_str(builtin, name) {
        return InitPlan::Suggest {
            warning: concat5(
                "Cannot create profile '",
                name,
                "': it conflicts with the built-in '",
                name,
                "' profile.",
            ),
            command: concat4("nono profile init ", name, "-local --extends ", name),
        };
    }
    if let Some(base) = &a.extends {
        if !f.base_exists {
            return InitPlan::Refuse(
                NonoError::ProfileParse(extends_target_not_found_message(base.as_str())),
            );
        }
    }
    let i = find_unknown(&a.groups, &f.groups);
    if i < a.groups.len() {
        return InitPlan::Refuse(
            NonoError::ProfileParse(
                concat3(
                    "Unknown security group '",
                    a.groups[i].as_str(),
                    "'. Use `nono profile groups` to list available groups",
                ),
            ),
        );
    }
    InitPlan::Create(copy_str(output))
}

/// What `nono profile validate` is to be called with: the name where the file is where profiles of
/// that name are looked for, and else the file.
pub open spec fn validate_name(
    name: Seq<char>,
    default_path: Option<Seq<char>>,
    output: Seq<char>,
) -> Seq<char> {
    match default_path {
        Some(d) => if same_path(d, output) {
            name
        } else {
            output
        },
        None => output,
    }
}

pub fn profile_validate_target(name: &str, default_path: &Option<String>, output: &str) -> (r: String)
    ensures
        r@ == validate_name(name@, opt_view(*default_path), output@),
{
    match default_path {
        Some(d) => if is_same_path(d.as_str(), output) {
            copy_str(name)
        } else {
            copy_str(output)
        },
        None => copy_str(output),
    }
}

/// Nothing is created under the name of a built-in profile, nor over a file without leave.
pub proof fn law_creation_is_safe(a: ProfileInitArgs, f: InitFacts)
    requires
        init_plan(a, f) is Create,
    ensures
        valid_profile_name(a.name@),
        !f.registry_ref,
        f.output_exists ==> a.force,
        !views((f.builtin->Ok_0)@).contains(a.name@),
        a.extends is Some ==> f.base_exists,
{
}

} // verus!
