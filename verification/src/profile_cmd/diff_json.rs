//! Comparing two profiles for programs.

use crate::assoc::{find_key, has_key, key_list, keys, lookup};
use crate::json::{
    change_object, json_change, json_object, json_opt_bool, json_opt_text, json_pair, json_ports,
    json_text, json_texts, members, no_members, opt_bool, opt_text, pair_object, port_array, put, text_array,
    Json, JsonView,
};
use crate::profile::{
    setting_key, CredentialView, CustomCredentialDef, FilesystemConfig, HookConfig, Profile,
    Setting,
};
use crate::profile_cmd::diff::{
    allows_localhost, credential_changed, hook_changed, is_credential_changed, is_hook_changed,
    localhost_allowed, origin_list, origins,
};
use crate::text::{
    difference, lemma_filter_step, opt_str_eq, opt_view, push_copy, sorted_difference, str_eq,
    views,
};
use vstd::prelude::*;

verus! {

/// What the second list adds and what it lacks.
pub open spec fn list_json(a: Seq<Seq<char>>, b: Seq<Seq<char>>) -> JsonView {
    pair_object(
        "added"@,
        text_array(difference(b, a)),
        "removed"@,
        text_array(difference(a, b)),
    )
}

fn list_to_json(a: &Vec<String>, b: &Vec<String>) -> (r: Json)
    ensures
        r@ == list_json(views(a@), views(b@)),
{
    json_pair(
        "added",
        json_texts(&sorted_difference(b, a)),
        "removed",
        json_texts(&sorted_difference(a, b)),
    )
}

pub open spec fn filesystem_json(a: FilesystemConfig, b: FilesystemConfig) -> JsonView {
    JsonView::Object(
        Seq::<(Seq<char>, JsonView)>::empty().push(
            ("allow"@, list_json(views(a.allow@), views(b.allow@))),
        ).push(
            ("read"@, list_json(views(a.read@), views(b.read@))),
        ).push(
            ("write"@, list_json(views(a.write@), views(b.write@))),
        ).push(
            ("allow_file"@, list_json(views(a.allow_file@), views(b.allow_file@))),
        ).push(
            ("read_file"@, list_json(views(a.read_file@), views(b.read_file@))),
        ).push(
            ("write_file"@, list_json(views(a.write_file@), views(b.write_file@))),
        ).push(
            ("suppress_save_prompt"@, list_json(views(a.suppress_save_prompt@), views(b.suppress_save_prompt@))),
        ),
    )
}

fn diff_fs_json(a: &FilesystemConfig, b: &FilesystemConfig) -> (r: Json)
    ensures
        r@ == filesystem_json(*a, *b),
{
    let mut o = no_members();
    put(&mut o, "allow", list_to_json(&a.allow, &b.allow));
    put(&mut o, "read", list_to_json(&a.read, &b.read));
    put(&mut o, "write", list_to_json(&a.write, &b.write));
    put(&mut o, "allow_file", list_to_json(&a.allow_file, &b.allow_file));
    put(&mut o, "read_file", list_to_json(&a.read_file, &b.read_file));
    put(&mut o, "write_file", list_to_json(&a.write_file, &b.write_file));
    put(&mut o, "suppress_save_prompt", list_to_json(&a.suppress_save_prompt, &b.suppress_save_prompt));
    json_object(o)
}

/// The keys of one map that the other lacks, in the order of the first.
pub open spec fn missing_keys<T>(m: Seq<(String, T)>, other: Seq<(String, T)>) -> Seq<Seq<char>> {
    keys(m).filter(|k: Seq<char>| !has_key(other, k))
}

fn keys_missing<T>(m: &Vec<(String, T)>, other: &Vec<(String, T)>) -> (r: Vec<String>)
    ensures
        views(r@) == missing_keys(m@, other@),
{
    let ghost keep = |k: Seq<char>| !has_key(other@, k);
    let s = key_list(m);
    let mut r: Vec<String> = Vec::new();
    let mut i: usize = 0;
    assert(views(r@) =~= views(s@).take(0).filter(keep));
    while i < s.len()
        invariant
            i <= s@.len(),
            keep == (|k: Seq<char>| !has_key(other@, k)),
            views(r@) == views(s@).take(i as int).filter(keep),
        decreases s@.len() - i,
    {
        proof {
            lemma_filter_step(views(s@), i as int, keep);
            assert(views(s@)[i as int] == s@[i as int]@);
        }
        if find_key(other, s[i].as_str()).is_none() {
            push_copy(&mut r, s[i].as_str());
        }
        i += 1;
    }
    assert(views(s@).take(i as int) =~= views(s@));
    r
}

/// One field of something that changed, where it differs.
pub open spec fn changed_field(differs: bool, label: Seq<char>, a: JsonView, b: JsonView) -> Seq<
    (Seq<char>, JsonView),
> {
    if differs {
        seq![(label, pair_object("profile1"@, a, "profile2"@, b))]
    } else {
        Seq::empty()
    }
}

fn put_changed(o: &mut Vec<(String, Json)>, differs: bool, label: &str, a: Json, b: Json)
    ensures
        members(final(o)@) == members(old(o)@) + changed_field(differs, label@, a@, b@),
{
    let ghost before = members(o@);
    if differs {
        put(o, label, json_pair("profile1", a, "profile2", b));
    }
    assert(members(o@) =~= before + changed_field(differs, label@, a@, b@));
}

pub open spec fn hook_fields(a: HookConfig, b: HookConfig) -> Seq<(Seq<char>, JsonView)> {
    Seq::<(Seq<char>, JsonView)>::empty() + changed_field(
        a.event@ != b.event@,
        "event"@,
        JsonView::Text(a.event@),
        JsonView::Text(b.event@),
    ) + changed_field(
        a.matcher@ != b.matcher@,
        "matcher"@,
        JsonView::Text(a.matcher@),
        JsonView::Text(b.matcher@),
    ) + changed_field(
        a.script@ != b.script@,
        "script"@,
        JsonView::Text(a.script@),
        JsonView::Text(b.script@),
    )
}

fn hook_detail(a: &HookConfig, b: &HookConfig) -> (r: Json)
    ensures
        r@ == JsonView::Object(hook_fields(*a, *b)),
{
    let mut o = no_members();
    put_changed(
        &mut o,
        !str_eq(a.event.as_str(), b.event.as_str()),
        "event",
        json_text(a.event.as_str()),
        json_text(b.event.as_str()),
    );
    put_changed(
        &mut o,
        !str_eq(a.matcher.as_str(), b.matcher.as_str()),
        "matcher",
        json_text(a.matcher.as_str()),
        json_text(b.matcher.as_str()),
    );
    put_changed(
        &mut o,
        !str_eq(a.script.as_str(), b.script.as_str()),
        "script",
        json_text(a.script.as_str()),
        json_text(b.script.as_str()),
    );
    json_object(o)
}

/// The entries that both maps have and that differ, with what differs, in the order of the first.
pub open spec fn hooks_details(a: Seq<(String, HookConfig)>, b: Seq<(String, HookConfig)>) -> Seq<
    (Seq<char>, JsonView),
> {
    keys(a).filter(|k: Seq<char>| hook_changed(a, b, k)).map_values(
        |k: Seq<char>| (k, JsonView::Object(hook_fields(lookup(a, k)->0, lookup(b, k)->0))),
    )
}

fn hooks_detail_members(a: &Vec<(String, HookConfig)>, b: &Vec<(String, HookConfig)>) -> (r: Vec<
    (String, Json),
>)
    ensures
        members(r@) == hooks_details(a@, b@),
{
    let ghost keep = |k: Seq<char>| hook_changed(a@, b@, k);
    let ghost shape = |k: Seq<char>| (k, JsonView::Object(hook_fields(lookup(a@, k)->0, lookup(b@, k)->0)));
    let mut o = no_members();
    let s = key_list(a);
    let mut i: usize = 0;
    assert(views(s@).take(0).filter(keep).map_values(shape) =~= Seq::<(Seq<char>, JsonView)>::empty());
    while i < s.len()
        invariant
            i <= s@.len(),
            keep == (|k: Seq<char>| hook_changed(a@, b@, k)),
            shape == (|k: Seq<char>| (k, JsonView::Object(hook_fields(lookup(a@, k)->0, lookup(b@, k)->0)))),
            members(o@) == views(s@).take(i as int).filter(keep).map_values(shape),
        decreases s@.len() - i,
    {
        let ghost done = views(s@).take(i as int).filter(keep);
        proof {
            lemma_filter_step(views(s@), i as int, keep);
            assert(views(s@)[i as int] == s@[i as int]@);
            assert(done.push(s@[i as int]@).map_values(shape) =~= done.map_values(shape).push(
                shape(s@[i as int]@),
            ));
        }
        let name = s[i].as_str();
        if is_hook_changed(a, b, name) {
            if let (Some(n), Some(m)) = (find_key(a, name), find_key(b, name)) {
                put(&mut o, name, hook_detail(&a[n].1, &b[m].1));
            }
        }
        i += 1;
    }
    assert(views(s@).take(i as int) =~= views(s@));
    o
}

pub open spec fn hooks_json(a: Seq<(String, HookConfig)>, b: Seq<(String, HookConfig)>) -> JsonView {
    JsonView::Object(
        seq![
            ("added"@, text_array(missing_keys(b, a))),
            ("removed"@, text_array(missing_keys(a, b))),
            ("changed"@, JsonView::Object(hooks_details(a, b))),
        ],
    )
}

fn diff_hooks_json(a: &Vec<(String, HookConfig)>, b: &Vec<(String, HookConfig)>) -> (r: Json)
    ensures
        r@ == hooks_json(a@, b@),
{
    let mut o = no_members();
    put(&mut o, "added", json_texts(&keys_missing(b, a)));
    put(&mut o, "removed", json_texts(&keys_missing(a, b)));
    put(&mut o, "changed", json_object(hooks_detail_members(a, b)));
    assert(members(o@) =~= hooks_json(a@, b@)->Object_0);
    json_object(o)
}

pub open spec fn credential_fields_json(a: CredentialView, b: CredentialView) -> Seq<
    (Seq<char>, JsonView),
> {
    Seq::<(Seq<char>, JsonView)>::empty() + changed_field(
        a.upstream != b.upstream,
        "upstream"@,
        JsonView::Text(a.upstream),
        JsonView::Text(b.upstream),
    ) + changed_field(
        a.credential_key != b.credential_key,
        "credential_key"@,
        opt_text(a.credential_key),
        opt_text(b.credential_key),
    ) + changed_field(
        a.inject_mode != b.inject_mode,
        "inject_mode"@,
        JsonView::Text(a.inject_mode.label_text()),
        JsonView::Text(b.inject_mode.label_text()),
    ) + changed_field(
        a.inject_header != b.inject_header,
        "inject_header"@,
        JsonView::Text(a.inject_header),
        JsonView::Text(b.inject_header),
    ) + changed_field(
        a.credential_format != b.credential_format,
        "credential_format"@,
        opt_text(a.credential_format),
        opt_text(b.credential_format),
    ) + changed_field(
        a.path_pattern != b.path_pattern,
        "path_pattern"@,
        opt_text(a.path_pattern),
        opt_text(b.path_pattern),
    ) + changed_field(
        a.path_replacement != b.path_replacement,
        "path_replacement"@,
        opt_text(a.path_replacement),
        opt_text(b.path_replacement),
    ) + changed_field(
        a.query_param_name != b.query_param_name,
        "query_param_name"@,
        opt_text(a.query_param_name),
        opt_text(b.query_param_name),
    ) + changed_field(
        a.env_var != b.env_var,
        "env_var"@,
        opt_text(a.env_var),
        opt_text(b.env_var),
    )
}

fn credential_detail(a: &CustomCredentialDef, b: &CustomCredentialDef) -> (r: Json)
    ensures
        r@ == JsonView::Object(credential_fields_json(a@, b@)),
{
    let mut o = no_members();
    put_changed(&mut o, !str_eq(a.upstream.as_str(), b.upstream.as_str()), "upstream", json_text(a.upstream.as_str()), json_text(b.upstream.as_str()));
    put_changed(&mut o, !opt_str_eq(&a.credential_key, &b.credential_key), "credential_key", json_opt_text(&a.credential_key), json_opt_text(&b.credential_key));
    put_changed(&mut o, a.inject_mode != b.inject_mode, "inject_mode", json_text(a.inject_mode.label()), json_text(b.inject_mode.label()));
    put_changed(&mut o, !str_eq(a.inject_header.as_str(), b.inject_header.as_str()), "inject_header", json_text(a.inject_header.as_str()), json_text(b.inject_header.as_str()));
    put_changed(&mut o, !opt_str_eq(&a.credential_format, &b.credential_format), "credential_format", json_opt_text(&a.credential_format), json_opt_text(&b.credential_format));
    put_changed(&mut o, !opt_str_eq(&a.path_pattern, &b.path_pattern), "path_pattern", json_opt_text(&a.path_pattern), json_opt_text(&b.path_pattern));
    put_changed(&mut o, !opt_str_eq(&a.path_replacement, &b.path_replacement), "path_replacement", json_opt_text(&a.path_replacement), json_opt_text(&b.path_replacement));
    put_changed(&mut o, !opt_str_eq(&a.query_param_name, &b.query_param_name), "query_param_name", json_opt_text(&a.query_param_name), json_opt_text(&b.query_param_name));
    put_changed(&mut o, !opt_str_eq(&a.env_var, &b.env_var), "env_var", json_opt_text(&a.env_var), json_opt_text(&b.env_var));
    json_object(o)
}

/// The entries that both maps have and that differ, with what differs, in the order of the first.
pub open spec fn custom_credentials_details(a: Seq<(String, CustomCredentialDef)>, b: Seq<(String, CustomCredentialDef)>) -> Seq<
    (Seq<char>, JsonView),
> {
    keys(a).filter(|k: Seq<char>| credential_changed(a, b, k)).map_values(
        |k: Seq<char>| (k, JsonView::Object(credential_fields_json((lookup(a, k)->0)@, (lookup(b, k)->0)@))),
    )
}

fn custom_credentials_detail_members(a: &Vec<(String, CustomCredentialDef)>, b: &Vec<(String, CustomCredentialDef)>) -> (r: Vec<
    (String, Json),
>)
    ensures
        members(r@) == custom_credentials_details(a@, b@),
{
    let ghost keep = |k: Seq<char>| credential_changed(a@, b@, k);
    let ghost shape = |k: Seq<char>| (k, JsonView::Object(credential_fields_json((lookup(a@, k)->0)@, (lookup(b@, k)->0)@)));
    let mut o = no_members();
    let s = key_list(a);
    let mut i: usize = 0;
    assert(views(s@).take(0).filter(keep).map_values(shape) =~= Seq::<(Seq<char>, JsonView)>::empty());
    while i < s.len()
        invariant
            i <= s@.len(),
            keep == (|k: Seq<char>| credential_changed(a@, b@, k)),
            shape == (|k: Seq<char>| (k, JsonView::Object(credential_fields_json((lookup(a@, k)->0)@, (lookup(b@, k)->0)@)))),
            members(o@) == views(s@).take(i as int).filter(keep).map_values(shape),
        decreases s@.len() - i,
    {
        let ghost done = views(s@).take(i as int).filter(keep);
        proof {
            lemma_filter_step(views(s@), i as int, keep);
            assert(views(s@)[i as int] == s@[i as int]@);
            assert(done.push(s@[i as int]@).map_values(shape) =~= done.map_values(shape).push(
                shape(s@[i as int]@),
            ));
        }
        let name = s[i].as_str();
        if is_credential_changed(a, b, name) {
            if let (Some(n), Some(m)) = (find_key(a, name), find_key(b, name)) {
                put(&mut o, name, credential_detail(&a[n].1, &b[m].1));
            }
        }
        i += 1;
    }
    assert(views(s@).take(i as int) =~= views(s@));
    o
}

pub open spec fn custom_credentials_json(a: Seq<(String, CustomCredentialDef)>, b: Seq<(String, CustomCredentialDef)>) -> JsonView {
    JsonView::Object(
        seq![
            ("added"@, text_array(missing_keys(b, a))),
            ("removed"@, text_array(missing_keys(a, b))),
            ("changed"@, JsonView::Object(custom_credentials_details(a, b))),
        ],
    )
}

fn diff_custom_credentials_json(a: &Vec<(String, CustomCredentialDef)>, b: &Vec<(String, CustomCredentialDef)>) -> (r: Json)
    ensures
        r@ == custom_credentials_json(a@, b@),
{
    let mut o = no_members();
    put(&mut o, "added", json_texts(&keys_missing(b, a)));
    put(&mut o, "removed", json_texts(&keys_missing(a, b)));
    put(&mut o, "changed", json_object(custom_credentials_detail_members(a, b)));
    assert(members(o@) =~= custom_credentials_json(a@, b@)->Object_0);
    json_object(o)
}

/// The mappings as an object.
pub open spec fn mappings_json(m: Seq<(String, String)>) -> JsonView {
    JsonView::Object(m.map_values(|e: (String, String)| (e.0@, JsonView::Text(e.1@))))
}

pub fn mappings_to_json(m: &Vec<(String, String)>) -> (r: Json)
    ensures
        r@ == mappings_json(m@),
{
    let mut o = no_members();
    let ghost all = m@.map_values(|e: (String, String)| (e.0@, JsonView::Text(e.1@)));
    let mut i: usize = 0;
    while i < m.len()
        invariant
            i <= m@.len(),
            all == m@.map_values(|e: (String, String)| (e.0@, JsonView::Text(e.1@))),
            members(o@) == all.take(i as int),
        decreases m@.len() - i,
    {
        put(&mut o, m[i].0.as_str(), json_text(m[i].1.as_str()));
        i += 1;
        assert(all.take(i as int) =~= all.take(i - 1).push(all[i - 1]));
    }
    assert(all.take(i as int) =~= all);
    json_object(o)
}

/// Every key of one map stands in the other with the same value.
pub open spec fn mappings_within(a: Seq<(String, String)>, b: Seq<(String, String)>) -> bool {
    forall|i: int|
        0 <= i < a.len() ==> has_key(b, (#[trigger] a[i]).0@) && (lookup(b, a[i].0@)->0)@ == (
        lookup(a, a[i].0@)->0)@
}

/// Two maps hold the same.
pub open spec fn same_mappings(a: Seq<(String, String)>, b: Seq<(String, String)>) -> bool {
    mappings_within(a, b) && mappings_within(b, a)
}

fn is_within(a: &Vec<(String, String)>, b: &Vec<(String, String)>) -> (r: bool)
    ensures
        r == mappings_within(a@, b@),
{
    let mut i: usize = 0;
    while i < a.len()
        invariant
            i <= a@.len(),
            forall|n: int|
                0 <= n < i ==> has_key(b@, (#[trigger] a@[n]).0@) && (lookup(b@, a@[n].0@)->0)@
                    == (lookup(a@, a@[n].0@)->0)@,
        decreases a@.len() - i,
    {
        let k = a[i].0.as_str();
        proof {
            crate::assoc::lemma_key_index(a@, a@[i as int].0@);
            assert(keys(a@)[i as int] == a@[i as int].0@);
            assert(keys(a@).contains(a@[i as int].0@));
        }
        match (find_key(a, k), find_key(b, k)) {
            (Some(n), Some(m)) => {
                if !str_eq(a[n].1.as_str(), b[m].1.as_str()) {
                    return false;
                }
            },
            _ => {
                return false;
            },
        }
        i += 1;
    }
    true
}

fn setting_to_json(s: &Option<Setting>) -> (r: Json)
    ensures
        r@ == opt_text(setting_key(*s)),
{
    match s {
        Some(x) => json_text(x.key.as_str()),
        None => Json::Null,
    }
}

fn settings_eq(a: &Option<Setting>, b: &Option<Setting>) -> (r: bool)
    ensures
        r == (setting_key(*a) == setting_key(*b)),
{
    match (a, b) {
        (Some(x), Some(y)) => str_eq(x.key.as_str(), y.key.as_str()),
        (None, None) => true,
        _ => false,
    }
}

fn ports_eq(a: &Vec<u16>, b: &Vec<u16>) -> (r: bool)
    ensures
        r == (a@ == b@),
{
    if a.len() != b.len() {
        return false;
    }
    let mut i: usize = 0;
    while i < a.len()
        invariant
            i <= a@.len(),
            a@.len() == b@.len(),
            forall|k: int| 0 <= k < i ==> a@[k] == b@[k],
        decreases a@.len() - i,
    {
        if a[i] != b[i] {
            return false;
        }
        i += 1;
    }
    assert(a@ =~= b@);
    true
}

pub open spec fn network_json(p1: Profile, p2: Profile) -> JsonView {
    let a = p1.network;
    let b = p2.network;
    JsonView::Object(
        Seq::<(Seq<char>, JsonView)>::empty().push(
            (
                "block"@,
                change_object(JsonView::Bool(a.block), JsonView::Bool(b.block), a.block != b.block),
            ),
        ).push(
            (
                "network_profile"@,
                change_object(
                    opt_text(opt_view(a.network_profile)),
                    opt_text(opt_view(b.network_profile)),
                    opt_view(a.network_profile) != opt_view(b.network_profile),
                ),
            ),
        ).push(
            ("allow_domain"@, list_json(views(a.allow_domain@), views(b.allow_domain@))),
        ).push(
            ("credentials"@, list_json(a.credential_names(), b.credential_names())),
        ).push(
            (
                "open_port"@,
                change_object(
                    port_array(a.open_port@),
                    port_array(b.open_port@),
                    a.open_port@ != b.open_port@,
                ),
            ),
        ).push(
            (
                "listen_port"@,
                change_object(
                    port_array(a.listen_port@),
                    port_array(b.listen_port@),
                    a.listen_port@ != b.listen_port@,
                ),
            ),
        ).push(
            (
                "upstream_proxy"@,
                change_object(
                    opt_text(opt_view(a.upstream_proxy)),
                    opt_text(opt_view(b.upstream_proxy)),
                    opt_view(a.upstream_proxy) != opt_view(b.upstream_proxy),
                ),
            ),
        ).push(
            ("upstream_bypass"@, list_json(views(a.upstream_bypass@), views(b.upstream_bypass@))),
        ).push(
            (
                "custom_credentials"@,
                custom_credentials_json(a.custom_credentials@, b.custom_credentials@),
            ),
        ),
    )
}

fn network_diff_json(p1: &Profile, p2: &Profile) -> (r: Json)
    ensures
        r@ == network_json(*p1, *p2),
{
    let a = &p1.network;
    let b = &p2.network;
    let mut o = no_members();
    put(
        &mut o,
        "block",
        json_change(Json::Bool(a.block), Json::Bool(b.block), a.block != b.block),
    );
    put(
        &mut o,
        "network_profile",
        json_change(
            json_opt_text(&a.network_profile),
            json_opt_text(&b.network_profile),
            !opt_str_eq(&a.network_profile, &b.network_profile),
        ),
    );
    put(&mut o, "allow_domain", list_to_json(&a.allow_domain, &b.allow_domain));
    put(
        &mut o,
        "credentials",
        list_to_json(&a.resolved_credentials(), &b.resolved_credentials()),
    );
    put(
        &mut o,
        "open_port",
        json_change(
            json_ports(&a.open_port),
            json_ports(&b.open_port),
            !ports_eq(&a.open_port, &b.open_port),
        ),
    );
    put(
        &mut o,
        "listen_port",
        json_change(
            json_ports(&a.listen_port),
            json_ports(&b.listen_port),
            !ports_eq(&a.listen_port, &b.listen_port),
        ),
    );
    put(
        &mut o,
        "upstream_proxy",
        json_change(
            json_opt_text(&a.upstream_proxy),
            json_opt_text(&b.upstream_proxy),
            !opt_str_eq(&a.upstream_proxy, &b.upstream_proxy),
        ),
    );
    put(&mut o, "upstream_bypass", list_to_json(&a.upstream_bypass, &b.upstream_bypass));
    put(
        &mut o,
        "custom_credentials",
        diff_custom_credentials_json(&a.custom_credentials, &b.custom_credentials),
    );
    json_object(o)
}

pub open spec fn diff_json(name1: Seq<char>, name2: Seq<char>, p1: Profile, p2: Profile) -> JsonView {
    JsonView::Object(
        Seq::<(Seq<char>, JsonView)>::empty().push(
            ("profile1"@, JsonView::Text(name1)),
        ).push(
            ("profile2"@, JsonView::Text(name2)),
        ).push(
            ("groups"@, list_json(views(p1.groups.included@), views(p2.groups.included@))),
        ).push(
            (
                "commands"@,
                pair_object(
                    "allow"@,
                    list_json(views(p1.commands.allow@), views(p2.commands.allow@)),
                    "deny"@,
                    list_json(views(p1.commands.deny@), views(p2.commands.deny@)),
                ),
            ),
        ).push(
            (
                "capability_elevation"@,
                change_object(
                    opt_bool(p1.security.capability_elevation),
                    opt_bool(p2.security.capability_elevation),
                    p1.security.capability_elevation != p2.security.capability_elevation,
                ),
            ),
        ).push(
            (
                "wsl2_proxy_policy"@,
                change_object(
                    opt_text(setting_key(p1.security.wsl2_proxy_policy)),
                    opt_text(setting_key(p2.security.wsl2_proxy_policy)),
                    setting_key(p1.security.wsl2_proxy_policy) != setting_key(
                        p2.security.wsl2_proxy_policy,
                    ),
                ),
            ),
        ).push(
            (
                "linux"@,
                JsonView::Object(
                    seq![
                        (
                            "af_unix_mediation"@,
                            change_object(
                                opt_text(setting_key(p1.linux.af_unix_mediation)),
                                opt_text(setting_key(p2.linux.af_unix_mediation)),
                                setting_key(p1.linux.af_unix_mediation) != setting_key(
                                    p2.linux.af_unix_mediation,
                                ),
                            ),
                        ),
                    ],
                ),
            ),
        ).push(
            ("filesystem"@, filesystem_json(p1.filesystem, p2.filesystem)),
        ).push(
            (
                "workdir"@,
                change_object(
                    JsonView::Text(p1.workdir.access.key_text()),
                    JsonView::Text(p2.workdir.access.key_text()),
                    p1.workdir.access != p2.workdir.access,
                ),
            ),
        ).push(
            ("network"@, network_json(p1, p2)),
        ).push(
            (
                "env_credentials"@,
                change_object(
                    mappings_json(p1.env_credentials.mappings@),
                    mappings_json(p2.env_credentials.mappings@),
                    !same_mappings(p1.env_credentials.mappings@, p2.env_credentials.mappings@),
                ),
            ),
        ).push(
            ("hooks"@, hooks_json(p1.hooks.hooks@, p2.hooks.hooks@)),
        ).push(
            (
                "rollback"@,
                pair_object(
                    "exclude_patterns"@,
                    list_json(
                        views(p1.rollback.exclude_patterns@),
                        views(p2.rollback.exclude_patterns@),
                    ),
                    "exclude_globs"@,
                    list_json(
                        views(p1.rollback.exclude_globs@),
                        views(p2.rollback.exclude_globs@),
                    ),
                ),
            ),
        ).push(
            (
                "open_urls"@,
                pair_object(
                    "allow_origins"@,
                    list_json(origins(p1), origins(p2)),
                    "allow_localhost"@,
                    change_object(
                        JsonView::Bool(localhost_allowed(p1)),
                        JsonView::Bool(localhost_allowed(p2)),
                        localhost_allowed(p1) != localhost_allowed(p2),
                    ),
                ),
            ),
        ).push(
            (
                "allow_launch_services"@,
                change_object(
                    opt_bool(p1.allow_launch_services),
                    opt_bool(p2.allow_launch_services),
                    p1.allow_launch_services != p2.allow_launch_services,
                ),
            ),
        ).push(
            (
                "allow_gpu"@,
                change_object(
                    opt_bool(p1.allow_gpu),
                    opt_bool(p2.allow_gpu),
                    p1.allow_gpu != p2.allow_gpu,
                ),
            ),
        ),
    )
}

fn opt_bools_eq(a: Option<bool>, b: Option<bool>) -> (r: bool)
    ensures
        r == (a == b),
{
    match (a, b) {
        (Some(x), Some(y)) => x == y,
        (None, None) => true,
        _ => false,
    }
}

fn opt_bool_change(a: Option<bool>, b: Option<bool>) -> (r: Json)
    ensures
        r@ == change_object(opt_bool(a), opt_bool(b), a != b),
{
    json_change(json_opt_bool(a), json_opt_bool(b), !opt_bools_eq(a, b))
}

fn setting_change(a: &Option<Setting>, b: &Option<Setting>) -> (r: Json)
    ensures
        r@ == change_object(
            opt_text(setting_key(*a)),
            opt_text(setting_key(*b)),
            setting_key(*a) != setting_key(*b),
        ),
{
    json_change(setting_to_json(a), setting_to_json(b), !settings_eq(a, b))
}

/// Compares two profiles for programs.
pub fn diff_to_json(name1: &str, name2: &str, p1: &Profile, p2: &Profile) -> (r: Json)
    ensures
        r@ == diff_json(name1@, name2@, *p1, *p2),
{
    let mut o = no_members();
    put(&mut o, "profile1", json_text(name1));
    put(&mut o, "profile2", json_text(name2));
    put(&mut o, "groups", list_to_json(&p1.groups.included, &p2.groups.included));
    put(
        &mut o,
        "commands",
        json_pair(
            "allow",
            list_to_json(&p1.commands.allow, &p2.commands.allow),
            "deny",
            list_to_json(&p1.commands.deny, &p2.commands.deny),
        ),
    );
    put(
        &mut o,
        "capability_elevation",
        opt_bool_change(p1.security.capability_elevation, p2.security.capability_elevation),
    );
    put(
        &mut o,
        "wsl2_proxy_policy",
        setting_change(&p1.security.wsl2_proxy_policy, &p2.security.wsl2_proxy_policy),
    );
    let mut linux = no_members();
    put(
        &mut linux,
        "af_unix_mediation",
        setting_change(&p1.linux.af_unix_mediation, &p2.linux.af_unix_mediation),
    );
    put(&mut o, "linux", json_object(linux));
    put(&mut o, "filesystem", diff_fs_json(&p1.filesystem, &p2.filesystem));
    put(
        &mut o,
        "workdir",
        json_change(
            json_text(p1.workdir.access.key()),
            json_text(p2.workdir.access.key()),
            p1.workdir.access != p2.workdir.access,
        ),
    );
    put(&mut o, "network", network_diff_json(p1, p2));
    put(
        &mut o,
        "env_credentials",
        json_change(
            mappings_to_json(&p1.env_credentials.mappings),
            mappings_to_json(&p2.env_credentials.mappings),
            !(is_within(&p1.env_credentials.mappings, &p2.env_credentials.mappings) && is_within(
                &p2.env_credentials.mappings,
                &p1.env_credentials.mappings,
            )),
        ),
    );
    put(&mut o, "hooks", diff_hooks_json(&p1.hooks.hooks, &p2.hooks.hooks));
    put(
        &mut o,
        "rollback",
        json_pair(
            "exclude_patterns",
            list_to_json(&p1.rollback.exclude_patterns, &p2.rollback.exclude_patterns),
            "exclude_globs",
            list_to_json(&p1.rollback.exclude_globs, &p2.rollback.exclude_globs),
        ),
    );
    put(
        &mut o,
        "open_urls",
        json_pair(
            "allow_origins",
            list_to_json(&origin_list(p1), &origin_list(p2)),
            "allow_localhost",
            json_change(
                Json::Bool(allows_localhost(p1)),
                Json::Bool(allows_localhost(p2)),
                allows_localhost(p1) != allows_localhost(p2),
            ),
        ),
    );
    put(
        &mut o,
        "allow_launch_services",
        opt_bool_change(p1.allow_launch_services, p2.allow_launch_services),
    );
    put(&mut o, "allow_gpu", opt_bool_change(p1.allow_gpu, p2.allow_gpu));
    json_object(o)
}

} // verus!
