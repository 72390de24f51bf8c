//! What holds of comparing two profiles, whatever they hold.

use crate::assoc::{has_key, key_index, keys, lemma_key_index, lookup};
use crate::json::{change_object, opt_bool, opt_text, pair_object, text_array, JsonView};
use crate::profile::{
    setting_key, CredentialView, CustomCredentialDef, FilesystemConfig, HookConfig, Profile,
};
use crate::profile_cmd::diff::{credential_changed, hook_changed, localhost_allowed, origins};
use crate::profile_cmd::diff_json::{
    changed_field, credential_fields_json, custom_credentials_details, custom_credentials_json,
    diff_json, filesystem_json, hook_fields, hooks_details, hooks_json, list_json, mappings_json,
    missing_keys, network_json, same_mappings,
};
use crate::text::{difference, lemma_filter_none, lemma_no_difference, views};
use vstd::prelude::*;

verus! {

// ---------------------------------------------------------------------------
// Exchanging the sides
// ---------------------------------------------------------------------------

pub open spec fn label(v: JsonView, i: int) -> Seq<char> {
    v->Object_0[i].0
}

pub open spec fn value(v: JsonView, i: int) -> JsonView {
    v->Object_0[i].1
}

/// Two objects with the same labels in the same order.
pub open spec fn same_labels(v: JsonView, w: JsonView) -> bool {
    &&& v is Object && w is Object
    &&& v->Object_0.len() == w->Object_0.len()
    &&& forall|i: int| 0 <= i < v->Object_0.len() ==> #[trigger] label(v, i) == label(w, i)
}

/// The first two values of one object are those of the other, exchanged.
pub open spec fn crossed(v: JsonView, w: JsonView) -> bool {
    value(v, 0) == value(w, 1) && value(v, 1) == value(w, 0)
}

/// What one comparison of lists says was added, the other says was removed.
pub open spec fn lists_exchanged(v: JsonView, w: JsonView) -> bool {
    &&& same_labels(v, w) && v->Object_0.len() == 2
    &&& label(v, 0) == "added"@ && label(v, 1) == "removed"@
    &&& crossed(v, w)
}

/// The sides of a comparison are exchanged.
pub open spec fn sides_exchanged(v: JsonView, w: JsonView) -> bool {
    &&& same_labels(v, w) && v->Object_0.len() >= 2
    &&& label(v, 0) == "profile1"@ && label(v, 1) == "profile2"@
    &&& crossed(v, w)
}

/// The same for a setting; both agree on whether it changed.
pub open spec fn settings_exchanged(v: JsonView, w: JsonView) -> bool {
    &&& sides_exchanged(v, w) && v->Object_0.len() == 3
    &&& label(v, 2) == "changed"@
    &&& value(v, 2) == value(w, 2)
}

/// The same fields are reported, each with its sides exchanged.
pub open spec fn fields_exchanged(
    m: Seq<(Seq<char>, JsonView)>,
    n: Seq<(Seq<char>, JsonView)>,
) -> bool {
    &&& m.len() == n.len()
    &&& forall|i: int|
        0 <= i < m.len() ==> (#[trigger] m[i]).0 == n[i].0 && sides_exchanged(m[i].1, n[i].1)
            && m[i].1->Object_0.len() == 2
}

/// An entry of the first and one of the second: of one name, with the sides of each field exchanged.
pub open spec fn counterparts(v: JsonView, i: int, w: JsonView, j: int) -> bool {
    &&& label(v, i) == label(w, j)
    &&& value(v, i) is Object && value(w, j) is Object
    &&& fields_exchanged(value(v, i)->Object_0, value(w, j)->Object_0)
}

pub open spec fn has_counterpart(v: JsonView, i: int, w: JsonView) -> bool {
    exists|j: int| 0 <= j < w->Object_0.len() && #[trigger] counterparts(v, i, w, j)
}

/// Every entry of the first has its counterpart in the second.
pub open spec fn details_within(v: JsonView, w: JsonView) -> bool {
    &&& v is Object && w is Object
    &&& forall|i: int| 0 <= i < v->Object_0.len() ==> #[trigger] has_counterpart(v, i, w)
}

/// The same entries are reported as changed, in whatever order, each with its sides exchanged.
pub open spec fn details_exchanged(v: JsonView, w: JsonView) -> bool {
    details_within(v, w) && details_within(w, v)
}

/// What one comparison of named entries says was added, the other says was removed; and they
/// agree on what changed.
pub open spec fn entries_exchanged(v: JsonView, w: JsonView) -> bool {
    &&& same_labels(v, w) && v->Object_0.len() == 3
    &&& label(v, 0) == "added"@ && label(v, 1) == "removed"@ && label(v, 2) == "changed"@
    &&& crossed(v, w)
    &&& details_exchanged(value(v, 2), value(w, 2))
}

pub open spec fn section_exchanged(v: JsonView, w: JsonView) -> bool {
    lists_exchanged(v, w) || settings_exchanged(v, w) || entries_exchanged(v, w)
}

/// Sections under one heading.
pub open spec fn group_exchanged(v: JsonView, w: JsonView) -> bool {
    &&& same_labels(v, w)
    &&& forall|i: int|
        0 <= i < v->Object_0.len() ==> section_exchanged(#[trigger] value(v, i), value(w, i))
}

/// A section, or several under one heading.
pub open spec fn part_exchanged(v: JsonView, w: JsonView) -> bool {
    section_exchanged(v, w) || group_exchanged(v, w)
}

/// A whole comparison and the one with the sides exchanged: the names of the profiles are
/// exchanged, and so is every section, alone or under its heading.
pub open spec fn diff_exchanged(v: JsonView, w: JsonView) -> bool {
    &&& sides_exchanged(v, w)
    &&& forall|i: int|
        2 <= i < v->Object_0.len() ==> part_exchanged(#[trigger] value(v, i), value(w, i))
}

proof fn lemma_more_parts(
    m: Seq<(Seq<char>, JsonView)>,
    n: Seq<(Seq<char>, JsonView)>,
    k: Seq<char>,
    x: JsonView,
    y: JsonView,
)
    requires
        diff_exchanged(JsonView::Object(m), JsonView::Object(n)),
        part_exchanged(x, y),
    ensures
        diff_exchanged(JsonView::Object(m.push((k, x))), JsonView::Object(n.push((k, y)))),
{
    let (v, w) = (JsonView::Object(m), JsonView::Object(n));
    let (p, q) = (JsonView::Object(m.push((k, x))), JsonView::Object(n.push((k, y))));
    assert forall|i: int| 0 <= i < p->Object_0.len() implies #[trigger] label(p, i) == label(
        q,
        i,
    ) by {
        if i < m.len() {
            assert(label(v, i) == label(w, i));
        }
    }
    assert(label(p, 0) == label(v, 0) && label(p, 1) == label(v, 1));
    assert(value(p, 0) == value(v, 0) && value(p, 1) == value(v, 1));
    assert(value(q, 0) == value(w, 0) && value(q, 1) == value(w, 1));
    assert forall|i: int| 2 <= i < p->Object_0.len() implies part_exchanged(
        #[trigger] value(p, i),
        value(q, i),
    ) by {
        if i < m.len() {
            assert(value(p, i) == value(v, i) && value(q, i) == value(w, i));
        }
    }
}

proof fn lemma_list(a: Seq<Seq<char>>, b: Seq<Seq<char>>)
    ensures
        section_exchanged(list_json(a, b), list_json(b, a)),
        part_exchanged(list_json(a, b), list_json(b, a)),
{
    assert(lists_exchanged(list_json(a, b), list_json(b, a)));
}

proof fn lemma_setting(a: JsonView, b: JsonView, changed: bool)
    ensures
        section_exchanged(change_object(a, b, changed), change_object(b, a, changed)),
        part_exchanged(change_object(a, b, changed), change_object(b, a, changed)),
{
    assert(settings_exchanged(change_object(a, b, changed), change_object(b, a, changed)));
}

proof fn lemma_pair(
    k1: Seq<char>,
    v1: JsonView,
    w1: JsonView,
    k2: Seq<char>,
    v2: JsonView,
    w2: JsonView,
)
    requires
        section_exchanged(v1, w1),
        section_exchanged(v2, w2),
    ensures
        part_exchanged(pair_object(k1, v1, k2, v2), pair_object(k1, w1, k2, w2)),
{
    let (v, w) = (pair_object(k1, v1, k2, v2), pair_object(k1, w1, k2, w2));
    assert(value(v, 0) == v1 && value(w, 0) == w1);
    assert(value(v, 1) == v2 && value(w, 1) == w2);
    assert(group_exchanged(v, w));
}

proof fn lemma_single(k: Seq<char>, x: JsonView, y: JsonView)
    requires
        section_exchanged(x, y),
    ensures
        part_exchanged(JsonView::Object(seq![(k, x)]), JsonView::Object(seq![(k, y)])),
{
    let (v, w) = (JsonView::Object(seq![(k, x)]), JsonView::Object(seq![(k, y)]));
    assert(value(v, 0) == x && value(w, 0) == y);
    assert(group_exchanged(v, w));
}

/// Comparing two profiles the other way round says the same with the sides exchanged.
pub proof fn law_exchanging_profiles(n1: Seq<char>, n2: Seq<char>, p1: Profile, p2: Profile)
    ensures
        diff_exchanged(diff_json(n1, n2, p1, p2), diff_json(n2, n1, p2, p1)),
{
    let d0 = Seq::<(Seq<char>, JsonView)>::empty().push(("profile1"@, JsonView::Text(n1))).push(
        ("profile2"@, JsonView::Text(n2)),
    );
    let e0 = Seq::<(Seq<char>, JsonView)>::empty().push(("profile1"@, JsonView::Text(n2))).push(
        ("profile2"@, JsonView::Text(n1)),
    );
    assert(diff_exchanged(JsonView::Object(d0), JsonView::Object(e0)));
    let x0 = list_json(views(p1.groups.included@), views(p2.groups.included@));
    let y0 = list_json(views(p2.groups.included@), views(p1.groups.included@));
    lemma_list(views(p1.groups.included@), views(p2.groups.included@));
    lemma_more_parts(d0, e0, "groups"@, x0, y0);
    let (d1, e1) = (d0.push(("groups"@, x0)), e0.push(("groups"@, y0)));
    let x1 = pair_object(
        "allow"@,
        list_json(views(p1.commands.allow@), views(p2.commands.allow@)),
        "deny"@,
        list_json(views(p1.commands.deny@), views(p2.commands.deny@)),
    );
    let y1 = pair_object(
        "allow"@,
        list_json(views(p2.commands.allow@), views(p1.commands.allow@)),
        "deny"@,
        list_json(views(p2.commands.deny@), views(p1.commands.deny@)),
    );
    lemma_list(views(p1.commands.allow@), views(p2.commands.allow@));
    lemma_list(views(p1.commands.deny@), views(p2.commands.deny@));
    lemma_pair(
        "allow"@,
        list_json(views(p1.commands.allow@), views(p2.commands.allow@)),
        list_json(views(p2.commands.allow@), views(p1.commands.allow@)),
        "deny"@,
        list_json(views(p1.commands.deny@), views(p2.commands.deny@)),
        list_json(views(p2.commands.deny@), views(p1.commands.deny@)),
    );
    lemma_more_parts(d1, e1, "commands"@, x1, y1);
    let (d2, e2) = (d1.push(("commands"@, x1)), e1.push(("commands"@, y1)));
    let x2 = change_object(
        opt_bool(p1.security.capability_elevation),
        opt_bool(p2.security.capability_elevation),
        p1.security.capability_elevation != p2.security.capability_elevation,
    );
    let y2 = change_object(
        opt_bool(p2.security.capability_elevation),
        opt_bool(p1.security.capability_elevation),
        p2.security.capability_elevation != p1.security.capability_elevation,
    );
    lemma_setting(
        opt_bool(p1.security.capability_elevation),
        opt_bool(p2.security.capability_elevation),
        p1.security.capability_elevation != p2.security.capability_elevation,
    );
    lemma_more_parts(d2, e2, "capability_elevation"@, x2, y2);
    let (d3, e3) = (d2.push(("capability_elevation"@, x2)), e2.push(("capability_elevation"@, y2)));
    let x3 = change_object(
        opt_text(setting_key(p1.security.wsl2_proxy_policy)),
        opt_text(setting_key(p2.security.wsl2_proxy_policy)),
        setting_key(p1.security.wsl2_proxy_policy) != setting_key(p2.security.wsl2_proxy_policy),
    );
    let y3 = change_object(
        opt_text(setting_key(p2.security.wsl2_proxy_policy)),
        opt_text(setting_key(p1.security.wsl2_proxy_policy)),
        setting_key(p2.security.wsl2_proxy_policy) != setting_key(p1.security.wsl2_proxy_policy),
    );
    lemma_setting(
        opt_text(setting_key(p1.security.wsl2_proxy_policy)),
        opt_text(setting_key(p2.security.wsl2_proxy_policy)),
        setting_key(p1.security.wsl2_proxy_policy) != setting_key(p2.security.wsl2_proxy_policy),
    );
    lemma_more_parts(d3, e3, "wsl2_proxy_policy"@, x3, y3);
    let (d4, e4) = (d3.push(("wsl2_proxy_policy"@, x3)), e3.push(("wsl2_proxy_policy"@, y3)));
    let x4 = JsonView::Object(
        seq![("af_unix_mediation"@, change_object(opt_text(setting_key(p1.linux.af_unix_mediation)), opt_text(setting_key(p2.linux.af_unix_mediation)), setting_key(p1.linux.af_unix_mediation) != setting_key(p2.linux.af_unix_mediation)))],
    );
    let y4 = JsonView::Object(
        seq![("af_unix_mediation"@, change_object(opt_text(setting_key(p2.linux.af_unix_mediation)), opt_text(setting_key(p1.linux.af_unix_mediation)), setting_key(p2.linux.af_unix_mediation) != setting_key(p1.linux.af_unix_mediation)))],
    );
    lemma_setting(
        opt_text(setting_key(p1.linux.af_unix_mediation)),
        opt_text(setting_key(p2.linux.af_unix_mediation)),
        setting_key(p1.linux.af_unix_mediation) != setting_key(p2.linux.af_unix_mediation),
    );
    lemma_single(
        "af_unix_mediation"@,
        change_object(
            opt_text(setting_key(p1.linux.af_unix_mediation)),
            opt_text(setting_key(p2.linux.af_unix_mediation)),
            setting_key(p1.linux.af_unix_mediation) != setting_key(p2.linux.af_unix_mediation),
        ),
        change_object(
            opt_text(setting_key(p2.linux.af_unix_mediation)),
            opt_text(setting_key(p1.linux.af_unix_mediation)),
            setting_key(p2.linux.af_unix_mediation) != setting_key(p1.linux.af_unix_mediation),
        ),
    );
    lemma_more_parts(d4, e4, "linux"@, x4, y4);
    let (d5, e5) = (d4.push(("linux"@, x4)), e4.push(("linux"@, y4)));
    let x5 = filesystem_json(p1.filesystem, p2.filesystem);
    let y5 = filesystem_json(p2.filesystem, p1.filesystem);
    lemma_filesystem_exchanged(p1.filesystem, p2.filesystem);
    lemma_more_parts(d5, e5, "filesystem"@, x5, y5);
    let (d6, e6) = (d5.push(("filesystem"@, x5)), e5.push(("filesystem"@, y5)));
    let x6 = change_object(
        JsonView::Text(p1.workdir.access.key_text()),
        JsonView::Text(p2.workdir.access.key_text()),
        p1.workdir.access != p2.workdir.access,
    );
    let y6 = change_object(
        JsonView::Text(p2.workdir.access.key_text()),
        JsonView::Text(p1.workdir.access.key_text()),
        p2.workdir.access != p1.workdir.access,
    );
    lemma_setting(
        JsonView::Text(p1.workdir.access.key_text()),
        JsonView::Text(p2.workdir.access.key_text()),
        p1.workdir.access != p2.workdir.access,
    );
    lemma_more_parts(d6, e6, "workdir"@, x6, y6);
    let (d7, e7) = (d6.push(("workdir"@, x6)), e6.push(("workdir"@, y6)));
    let x7 = network_json(p1, p2);
    let y7 = network_json(p2, p1);
    lemma_network_exchanged(p1, p2);
    lemma_more_parts(d7, e7, "network"@, x7, y7);
    let (d8, e8) = (d7.push(("network"@, x7)), e7.push(("network"@, y7)));
    let x8 = change_object(
        mappings_json(p1.env_credentials.mappings@),
        mappings_json(p2.env_credentials.mappings@),
        !same_mappings(p1.env_credentials.mappings@, p2.env_credentials.mappings@),
    );
    let y8 = change_object(
        mappings_json(p2.env_credentials.mappings@),
        mappings_json(p1.env_credentials.mappings@),
        !same_mappings(p2.env_credentials.mappings@, p1.env_credentials.mappings@),
    );
    lemma_setting(
        mappings_json(p1.env_credentials.mappings@),
        mappings_json(p2.env_credentials.mappings@),
        !same_mappings(p1.env_credentials.mappings@, p2.env_credentials.mappings@),
    );
    lemma_more_parts(d8, e8, "env_credentials"@, x8, y8);
    let (d9, e9) = (d8.push(("env_credentials"@, x8)), e8.push(("env_credentials"@, y8)));
    let x9 = hooks_json(p1.hooks.hooks@, p2.hooks.hooks@);
    let y9 = hooks_json(p2.hooks.hooks@, p1.hooks.hooks@);
    lemma_hooks_exchanged(p1.hooks.hooks@, p2.hooks.hooks@);
    lemma_more_parts(d9, e9, "hooks"@, x9, y9);
    let (d10, e10) = (d9.push(("hooks"@, x9)), e9.push(("hooks"@, y9)));
    let x10 = pair_object(
        "exclude_patterns"@,
        list_json(views(p1.rollback.exclude_patterns@), views(p2.rollback.exclude_patterns@)),
        "exclude_globs"@,
        list_json(views(p1.rollback.exclude_globs@), views(p2.rollback.exclude_globs@)),
    );
    let y10 = pair_object(
        "exclude_patterns"@,
        list_json(views(p2.rollback.exclude_patterns@), views(p1.rollback.exclude_patterns@)),
        "exclude_globs"@,
        list_json(views(p2.rollback.exclude_globs@), views(p1.rollback.exclude_globs@)),
    );
    lemma_list(views(p1.rollback.exclude_patterns@), views(p2.rollback.exclude_patterns@));
    lemma_list(views(p1.rollback.exclude_globs@), views(p2.rollback.exclude_globs@));
    lemma_pair(
        "exclude_patterns"@,
        list_json(views(p1.rollback.exclude_patterns@), views(p2.rollback.exclude_patterns@)),
        list_json(views(p2.rollback.exclude_patterns@), views(p1.rollback.exclude_patterns@)),
        "exclude_globs"@,
        list_json(views(p1.rollback.exclude_globs@), views(p2.rollback.exclude_globs@)),
        list_json(views(p2.rollback.exclude_globs@), views(p1.rollback.exclude_globs@)),
    );
    lemma_more_parts(d10, e10, "rollback"@, x10, y10);
    let (d11, e11) = (d10.push(("rollback"@, x10)), e10.push(("rollback"@, y10)));
    let x11 = pair_object(
        "allow_origins"@,
        list_json(origins(p1), origins(p2)),
        "allow_localhost"@,
        change_object(
            JsonView::Bool(localhost_allowed(p1)),
            JsonView::Bool(localhost_allowed(p2)),
            localhost_allowed(p1) != localhost_allowed(p2),
        ),
    );
    let y11 = pair_object(
        "allow_origins"@,
        list_json(origins(p2), origins(p1)),
        "allow_localhost"@,
        change_object(
            JsonView::Bool(localhost_allowed(p2)),
            JsonView::Bool(localhost_allowed(p1)),
            localhost_allowed(p2) != localhost_allowed(p1),
        ),
    );
    lemma_list(origins(p1), origins(p2));
    lemma_setting(
        JsonView::Bool(localhost_allowed(p1)),
        JsonView::Bool(localhost_allowed(p2)),
        localhost_allowed(p1) != localhost_allowed(p2),
    );
    lemma_pair(
        "allow_origins"@,
        list_json(origins(p1), origins(p2)),
        list_json(origins(p2), origins(p1)),
        "allow_localhost"@,
        change_object(
            JsonView::Bool(localhost_allowed(p1)),
            JsonView::Bool(localhost_allowed(p2)),
            localhost_allowed(p1) != localhost_allowed(p2),
        ),
        change_object(
            JsonView::Bool(localhost_allowed(p2)),
            JsonView::Bool(localhost_allowed(p1)),
            localhost_allowed(p2) != localhost_allowed(p1),
        ),
    );
    lemma_more_parts(d11, e11, "open_urls"@, x11, y11);
    let (d12, e12) = (d11.push(("open_urls"@, x11)), e11.push(("open_urls"@, y11)));
    let x12 = change_object(
        opt_bool(p1.allow_launch_services),
        opt_bool(p2.allow_launch_services),
        p1.allow_launch_services != p2.allow_launch_services,
    );
    let y12 = change_object(
        opt_bool(p2.allow_launch_services),
        opt_bool(p1.allow_launch_services),
        p2.allow_launch_services != p1.allow_launch_services,
    );
    lemma_setting(
        opt_bool(p1.allow_launch_services),
        opt_bool(p2.allow_launch_services),
        p1.allow_launch_services != p2.allow_launch_services,
    );
    lemma_more_parts(d12, e12, "allow_launch_services"@, x12, y12);
    let (d13, e13) = (
        d12.push(("allow_launch_services"@, x12)),
        e12.push(("allow_launch_services"@, y12)),
    );
    let x13 = change_object(
        opt_bool(p1.allow_gpu),
        opt_bool(p2.allow_gpu),
        p1.allow_gpu != p2.allow_gpu,
    );
    let y13 = change_object(
        opt_bool(p2.allow_gpu),
        opt_bool(p1.allow_gpu),
        p2.allow_gpu != p1.allow_gpu,
    );
    lemma_setting(opt_bool(p1.allow_gpu), opt_bool(p2.allow_gpu), p1.allow_gpu != p2.allow_gpu);
    lemma_more_parts(d13, e13, "allow_gpu"@, x13, y13);
    let (d14, e14) = (d13.push(("allow_gpu"@, x13)), e13.push(("allow_gpu"@, y13)));
    assert(diff_json(n1, n2, p1, p2) == JsonView::Object(d14));
    assert(diff_json(n2, n1, p2, p1) == JsonView::Object(e14));
}

proof fn lemma_filesystem_exchanged(a: FilesystemConfig, b: FilesystemConfig)
    ensures
        group_exchanged(filesystem_json(a, b), filesystem_json(b, a)),
{
    let v = filesystem_json(a, b);
    let w = filesystem_json(b, a);
    assert forall|i: int| 0 <= i < v->Object_0.len() implies section_exchanged(
        #[trigger] value(v, i),
        value(w, i),
    ) by {
        assert(lists_exchanged(value(v, i), value(w, i)));
    }
}

proof fn lemma_network_exchanged(p1: Profile, p2: Profile)
    ensures
        group_exchanged(network_json(p1, p2), network_json(p2, p1)),
{
    let v = network_json(p1, p2);
    let w = network_json(p2, p1);
    lemma_credentials_exchanged(
        p1.network.custom_credentials@,
        p2.network.custom_credentials@,
    );
    assert forall|i: int| 0 <= i < v->Object_0.len() implies section_exchanged(
        #[trigger] value(v, i),
        value(w, i),
    ) by {
        if i == 2 || i == 3 || i == 7 {
            assert(lists_exchanged(value(v, i), value(w, i)));
        } else if i < 8 {
            assert(settings_exchanged(value(v, i), value(w, i)));
        }
    }
}

proof fn lemma_more_fields(
    m: Seq<(Seq<char>, JsonView)>,
    n: Seq<(Seq<char>, JsonView)>,
    x: Seq<(Seq<char>, JsonView)>,
    y: Seq<(Seq<char>, JsonView)>,
)
    requires
        fields_exchanged(m, n),
        fields_exchanged(x, y),
    ensures
        fields_exchanged(m + x, n + y),
{
    let (p, q) = (m + x, n + y);
    assert forall|i: int| 0 <= i < p.len() implies (#[trigger] p[i]).0 == q[i].0
        && sides_exchanged(p[i].1, q[i].1) && p[i].1->Object_0.len() == 2 by {
        if i < m.len() {
            assert(p[i] == m[i] && q[i] == n[i]);
        } else {
            assert(p[i] == x[i - m.len()] && q[i] == y[i - m.len()]);
        }
    }
}

proof fn lemma_hook_fields_exchanged(a: HookConfig, b: HookConfig)
    ensures
        fields_exchanged(hook_fields(a, b), hook_fields(b, a)),
{
    let none = Seq::<(Seq<char>, JsonView)>::empty();
    let text = |s: Seq<char>| JsonView::Text(s);
    let x1 = changed_field(a.event@ != b.event@, "event"@, text(a.event@), text(b.event@));
    let y1 = changed_field(b.event@ != a.event@, "event"@, text(b.event@), text(a.event@));
    let x2 = changed_field(
        a.matcher@ != b.matcher@,
        "matcher"@,
        text(a.matcher@),
        text(b.matcher@),
    );
    let y2 = changed_field(
        b.matcher@ != a.matcher@,
        "matcher"@,
        text(b.matcher@),
        text(a.matcher@),
    );
    let x3 = changed_field(a.script@ != b.script@, "script"@, text(a.script@), text(b.script@));
    let y3 = changed_field(b.script@ != a.script@, "script"@, text(b.script@), text(a.script@));
    lemma_more_fields(none, none, x1, y1);
    lemma_more_fields(none + x1, none + y1, x2, y2);
    lemma_more_fields(none + x1 + x2, none + y1 + y2, x3, y3);
}

proof fn lemma_credential_fields_exchanged(a: CredentialView, b: CredentialView)
    ensures
        fields_exchanged(credential_fields_json(a, b), credential_fields_json(b, a)),
{
    let m = Seq::<(Seq<char>, JsonView)>::empty();
    let n = m;
    let x = changed_field(
        a.upstream != b.upstream,
        "upstream"@,
        JsonView::Text(a.upstream),
        JsonView::Text(b.upstream),
    );
    let y = changed_field(
        b.upstream != a.upstream,
        "upstream"@,
        JsonView::Text(b.upstream),
        JsonView::Text(a.upstream),
    );
    lemma_more_fields(m, n, x, y);
    let (m, n) = (m + x, n + y);
    let x = changed_field(
        a.credential_key != b.credential_key,
        "credential_key"@,
        opt_text(a.credential_key),
        opt_text(b.credential_key),
    );
    let y = changed_field(
        b.credential_key != a.credential_key,
        "credential_key"@,
        opt_text(b.credential_key),
        opt_text(a.credential_key),
    );
    lemma_more_fields(m, n, x, y);
    let (m, n) = (m + x, n + y);
    let x = changed_field(
        a.inject_mode != b.inject_mode,
        "inject_mode"@,
        JsonView::Text(a.inject_mode.label_text()),
        JsonView::Text(b.inject_mode.label_text()),
    );
    let y = changed_field(
        b.inject_mode != a.inject_mode,
        "inject_mode"@,
        JsonView::Text(b.inject_mode.label_text()),
        JsonView::Text(a.inject_mode.label_text()),
    );
    lemma_more_fields(m, n, x, y);
    let (m, n) = (m + x, n + y);
    let x = changed_field(
        a.inject_header != b.inject_header,
        "inject_header"@,
        JsonView::Text(a.inject_header),
        JsonView::Text(b.inject_header),
    );
    let y = changed_field(
        b.inject_header != a.inject_header,
        "inject_header"@,
        JsonView::Text(b.inject_header),
        JsonView::Text(a.inject_header),
    );
    lemma_more_fields(m, n, x, y);
    let (m, n) = (m + x, n + y);
    let x = changed_field(
        a.credential_format != b.credential_format,
        "credential_format"@,
        opt_text(a.credential_format),
        opt_text(b.credential_format),
    );
    let y = changed_field(
        b.credential_format != a.credential_format,
        "credential_format"@,
        opt_text(b.credential_format),
        opt_text(a.credential_format),
    );
    lemma_more_fields(m, n, x, y);
    let (m, n) = (m + x, n + y);
    let x = changed_field(
        a.path_pattern != b.path_pattern,
        "path_pattern"@,
        opt_text(a.path_pattern),
        opt_text(b.path_pattern),
    );
    let y = changed_field(
        b.path_pattern != a.path_pattern,
        "path_pattern"@,
        opt_text(b.path_pattern),
        opt_text(a.path_pattern),
    );
    lemma_more_fields(m, n, x, y);
    let (m, n) = (m + x, n + y);
    let x = changed_field(
        a.path_replacement != b.path_replacement,
        "path_replacement"@,
        opt_text(a.path_replacement),
        opt_text(b.path_replacement),
    );
    let y = changed_field(
        b.path_replacement != a.path_replacement,
        "path_replacement"@,
        opt_text(b.path_replacement),
        opt_text(a.path_replacement),
    );
    lemma_more_fields(m, n, x, y);
    let (m, n) = (m + x, n + y);
    let x = changed_field(
        a.query_param_name != b.query_param_name,
        "query_param_name"@,
        opt_text(a.query_param_name),
        opt_text(b.query_param_name),
    );
    let y = changed_field(
        b.query_param_name != a.query_param_name,
        "query_param_name"@,
        opt_text(b.query_param_name),
        opt_text(a.query_param_name),
    );
    lemma_more_fields(m, n, x, y);
    let (m, n) = (m + x, n + y);
    let x = changed_field(
        a.env_var != b.env_var,
        "env_var"@,
        opt_text(a.env_var),
        opt_text(b.env_var),
    );
    let y = changed_field(
        b.env_var != a.env_var,
        "env_var"@,
        opt_text(b.env_var),
        opt_text(a.env_var),
    );
    lemma_more_fields(m, n, x, y);
    let (m, n) = (m + x, n + y);
}

proof fn lemma_hooks_within(a: Seq<(String, HookConfig)>, b: Seq<(String, HookConfig)>)
    ensures
        details_within(
            JsonView::Object(hooks_details(a, b)),
            JsonView::Object(hooks_details(b, a)),
        ),
{
    let v = JsonView::Object(hooks_details(a, b));
    let w = JsonView::Object(hooks_details(b, a));
    let here = |k: Seq<char>| hook_changed(a, b, k);
    let there = |k: Seq<char>| hook_changed(b, a, k);
    let ks = keys(a).filter(here);
    let ls = keys(b).filter(there);
    assert forall|i: int| 0 <= i < v->Object_0.len() implies #[trigger] has_counterpart(
        v,
        i,
        w,
    ) by {
        let k = ks[i];
        assert(label(v, i) == k);
        keys(a).lemma_filter_pred(here, i);
        assert(here(k));
        lemma_key_index(b, k);
        let p = key_index(b, k);
        assert(keys(b)[p] == k);
        assert(there(keys(b)[p]));
        keys(b).lemma_filter_contains(there, p);
        assert(ls.contains(k));
        let j = choose|j: int| 0 <= j < ls.len() && ls[j] == k;
        lemma_hook_fields_exchanged(lookup(a, k)->0, lookup(b, k)->0);
        assert(label(w, j) == k);
        assert(value(v, i) == JsonView::Object(hook_fields(lookup(a, k)->0, lookup(b, k)->0)));
        assert(value(w, j) == JsonView::Object(hook_fields(lookup(b, k)->0, lookup(a, k)->0)));
        assert(counterparts(v, i, w, j));
    }
}

proof fn lemma_credentials_within(
    a: Seq<(String, CustomCredentialDef)>,
    b: Seq<(String, CustomCredentialDef)>,
)
    ensures
        details_within(
            JsonView::Object(custom_credentials_details(a, b)),
            JsonView::Object(custom_credentials_details(b, a)),
        ),
{
    let v = JsonView::Object(custom_credentials_details(a, b));
    let w = JsonView::Object(custom_credentials_details(b, a));
    let here = |k: Seq<char>| credential_changed(a, b, k);
    let there = |k: Seq<char>| credential_changed(b, a, k);
    let ks = keys(a).filter(here);
    let ls = keys(b).filter(there);
    assert forall|i: int| 0 <= i < v->Object_0.len() implies #[trigger] has_counterpart(
        v,
        i,
        w,
    ) by {
        let k = ks[i];
        assert(label(v, i) == k);
        keys(a).lemma_filter_pred(here, i);
        assert(here(k));
        lemma_key_index(b, k);
        let p = key_index(b, k);
        assert(keys(b)[p] == k);
        assert(there(keys(b)[p]));
        keys(b).lemma_filter_contains(there, p);
        assert(ls.contains(k));
        let j = choose|j: int| 0 <= j < ls.len() && ls[j] == k;
        lemma_credential_fields_exchanged((lookup(a, k)->0)@, (lookup(b, k)->0)@);
        assert(label(w, j) == k);
        assert(
            value(v, i) == JsonView::Object(
                credential_fields_json((lookup(a, k)->0)@, (lookup(b, k)->0)@),
            )
        );
        assert(
            value(w, j) == JsonView::Object(
                credential_fields_json((lookup(b, k)->0)@, (lookup(a, k)->0)@),
            )
        );
        assert(counterparts(v, i, w, j));
    }
}

proof fn lemma_hooks_exchanged(a: Seq<(String, HookConfig)>, b: Seq<(String, HookConfig)>)
    ensures
        part_exchanged(hooks_json(a, b), hooks_json(b, a)),
{
    lemma_hooks_within(a, b);
    lemma_hooks_within(b, a);
    assert(entries_exchanged(hooks_json(a, b), hooks_json(b, a)));
}

proof fn lemma_credentials_exchanged(
    a: Seq<(String, CustomCredentialDef)>,
    b: Seq<(String, CustomCredentialDef)>,
)
    ensures
        entries_exchanged(custom_credentials_json(a, b), custom_credentials_json(b, a)),
{
    lemma_credentials_within(a, b);
    lemma_credentials_within(b, a);
}

// ---------------------------------------------------------------------------
// A profile and itself
// ---------------------------------------------------------------------------

/// Nothing was added and nothing removed.
pub open spec fn list_quiet(v: JsonView) -> bool {
    &&& v is Object && v->Object_0.len() == 2
    &&& label(v, 0) == "added"@ && label(v, 1) == "removed"@
    &&& value(v, 0) == JsonView::Array(Seq::empty()) && value(v, 1) == JsonView::Array(Seq::empty())
}

/// The sides are the same, and nothing changed.
pub open spec fn setting_quiet(v: JsonView) -> bool {
    &&& v is Object && v->Object_0.len() == 3
    &&& label(v, 0) == "profile1"@ && label(v, 1) == "profile2"@ && label(v, 2) == "changed"@
    &&& value(v, 0) == value(v, 1)
    &&& value(v, 2) == JsonView::Bool(false)
}

/// No entry was added, removed or changed.
pub open spec fn entries_quiet(v: JsonView) -> bool {
    &&& v is Object && v->Object_0.len() == 3
    &&& label(v, 0) == "added"@ && label(v, 1) == "removed"@ && label(v, 2) == "changed"@
    &&& value(v, 0) == JsonView::Array(Seq::empty()) && value(v, 1) == JsonView::Array(Seq::empty())
    &&& value(v, 2) == JsonView::Object(Seq::empty())
}

pub open spec fn section_quiet(v: JsonView) -> bool {
    list_quiet(v) || setting_quiet(v) || entries_quiet(v)
}

pub open spec fn group_quiet(v: JsonView) -> bool {
    v is Object && forall|i: int|
        0 <= i < v->Object_0.len() ==> section_quiet(#[trigger] value(v, i))
}

/// Comparing a profile with itself finds nothing, in any section.
pub proof fn law_no_change_from_itself(n1: Seq<char>, n2: Seq<char>, p: Profile)
    ensures
        ({
            let d = diff_json(n1, n2, p, p);
            &&& value(d, 0) == JsonView::Text(n1) && value(d, 1) == JsonView::Text(n2)
            &&& forall|i: int|
                2 <= i < d->Object_0.len() ==> section_quiet(#[trigger] value(d, i)) || group_quiet(
                    value(d, i),
                )
        }),
{
    let d = diff_json(n1, n2, p, p);
    lemma_lists_quiet();
    lemma_hooks_quiet(p.hooks.hooks@);
    lemma_credentials_quiet(p.network.custom_credentials@);
    lemma_mappings_same(p.env_credentials.mappings@);
    assert forall|i: int| 2 <= i < d->Object_0.len() implies section_quiet(#[trigger] value(d, i))
        || group_quiet(value(d, i)) by {
        let v = value(d, i);
        if i == 2 {
            assert(list_quiet(v));
        } else if i == 4 || i == 5 || i == 8 || i == 10 || i == 14 || i == 15 {
            assert(setting_quiet(v));
        } else if i == 11 {
            assert(entries_quiet(v));
        } else if i == 3 || i == 12 {
            assert(list_quiet(value(v, 0)));
            assert(list_quiet(value(v, 1)));
            assert(group_quiet(v));
        } else if i == 6 {
            assert(setting_quiet(value(v, 0)));
            assert(group_quiet(v));
        } else if i == 7 {
            assert forall|j: int| 0 <= j < v->Object_0.len() implies section_quiet(
                #[trigger] value(v, j),
            ) by {
                assert(list_quiet(value(v, j)));
            }
        } else if i == 9 {
            assert forall|j: int| 0 <= j < v->Object_0.len() implies section_quiet(
                #[trigger] value(v, j),
            ) by {
                if j == 2 || j == 3 || j == 7 {
                    assert(list_quiet(value(v, j)));
                } else if j == 8 {
                    assert(entries_quiet(value(v, j)));
                } else {
                    assert(setting_quiet(value(v, j)));
                }
            }
        } else {
            assert(list_quiet(value(v, 0)));
            assert(setting_quiet(value(v, 1)));
            assert(group_quiet(v));
        }
    }
}

proof fn lemma_lists_quiet()
    ensures
        forall|a: Seq<Seq<char>>| list_quiet(#[trigger] list_json(a, a)),
{
    assert forall|a: Seq<Seq<char>>| list_quiet(#[trigger] list_json(a, a)) by {
        lemma_no_difference(a);
        lemma_no_texts(difference(a, a));
    }
}

proof fn lemma_no_texts(texts: Seq<Seq<char>>)
    requires
        texts.len() == 0,
    ensures
        text_array(texts) == JsonView::Array(Seq::empty()),
{
    assert(texts.map_values(|t: Seq<char>| JsonView::Text(t)) =~= Seq::<JsonView>::empty());
}

proof fn lemma_none_missing<T>(m: Seq<(String, T)>)
    ensures
        missing_keys(m, m).len() == 0,
{
    assert forall|i: int| 0 <= i < keys(m).len() implies has_key(m, #[trigger] keys(m)[i]) by {
        lemma_key_is_there(m, i);
    }
    lemma_filter_none(keys(m), |k: Seq<char>| !has_key(m, k));
}

proof fn lemma_key_is_there<T>(m: Seq<(String, T)>, i: int)
    requires
        0 <= i < m.len(),
    ensures
        has_key(m, m[i].0@),
    decreases m.len(),
{
    if m[0].0@ != m[i].0@ {
        assert(m.skip(1)[i - 1] == m[i]);
        lemma_key_is_there(m.skip(1), i - 1);
    }
}

proof fn lemma_mappings_same(m: Seq<(String, String)>)
    ensures
        same_mappings(m, m),
{
    assert forall|i: int| 0 <= i < m.len() implies has_key(m, (#[trigger] m[i]).0@) by {
        lemma_key_is_there(m, i);
    }
}

proof fn lemma_hooks_quiet(m: Seq<(String, HookConfig)>)
    ensures
        entries_quiet(hooks_json(m, m)),
{
    lemma_none_missing(m);
    lemma_no_texts(missing_keys(m, m));
    let changed = |k: Seq<char>| hook_changed(m, m, k);
    lemma_filter_none(keys(m), changed);
    assert(hooks_details(m, m) =~= Seq::empty());
}

proof fn lemma_credentials_quiet(m: Seq<(String, CustomCredentialDef)>)
    ensures
        entries_quiet(custom_credentials_json(m, m)),
{
    lemma_none_missing(m);
    lemma_no_texts(missing_keys(m, m));
    let changed = |k: Seq<char>| credential_changed(m, m, k);
    lemma_filter_none(keys(m), changed);
    assert(custom_credentials_details(m, m) =~= Seq::empty());
}

} // verus!
