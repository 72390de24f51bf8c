//! Which hosts the network proxy lets through, and which credentials it adds.

pub mod laws;

use crate::assoc::{find_key, has_key, key_list, keys, lookup};
use crate::error::{ErrorView, NonoError};
use crate::loopback::{is_loopback_v4, is_loopback_v6, loopback_v4, loopback_v6};
use crate::profile::{
    auth_view, clone_auth, clone_rules, rule_views, CustomCredentialDef, EndpointRule, InjectMode,
    OAuth2Config, OAuth2View,
};
use crate::text::{
    chars_of, clone_opt_string, clone_strings, concat2, concat3, concat4, copy_str, debug_list,
    extend_strings, find_last, from_chars, last_index, lemma_filter_step,
    lemma_is_sort_unique, lemma_last_index, lemma_sort_unique, list_to_debug, opt_view,
    parse_digits, parse_number, push_copy, sort_unique, sorted_set, str_eq, sub_chars, views,
};
use vstd::prelude::*;

verus! {

#[derive(Debug)]
pub struct NetworkPolicyMeta {
    pub version: u64,
    pub schema_version: String,
}

/// A named group of hosts: whole names, and endings of names.
#[derive(Debug)]
pub struct NetworkGroup {
    pub description: String,
    pub hosts: Vec<String>,
    pub suffixes: Vec<String>,
}

/// Groups under a name, with the credentials that go with them.
#[derive(Debug)]
pub struct NetworkProfileDef {
    pub groups: Vec<String>,
    pub credentials: Vec<String>,
}

/// A credential that comes with the program.
#[derive(Debug)]
pub struct CredentialDef {
    pub upstream: String,
    pub credential_key: Option<String>,
    pub inject_header: String,
    pub credential_format: Option<String>,
    pub env_var: Option<String>,
    pub endpoint_rules: Vec<EndpointRule>,
}

#[derive(Debug)]
pub struct NetworkPolicy {
    pub meta: NetworkPolicyMeta,
    pub groups: Vec<(String, NetworkGroup)>,
    pub profiles: Vec<(String, NetworkProfileDef)>,
    pub credentials: Vec<(String, CredentialDef)>,
}

/// The header that carries a credential unless another is named.
pub fn default_inject_header() -> (r: String)
    ensures
        r@ == "Authorization"@,
{
    copy_str("Authorization")
}

/// How requests to one place get their credential.
#[derive(Debug)]
pub struct RouteConfig {
    pub prefix: String,
    pub upstream: String,
    pub credential_key: Option<String>,
    pub inject_mode: InjectMode,
    pub inject_header: String,
    pub credential_format: Option<String>,
    pub path_pattern: Option<String>,
    pub path_replacement: Option<String>,
    pub query_param_name: Option<String>,
    pub proxy: Option<String>,
    pub env_var: Option<String>,
    pub endpoint_rules: Vec<EndpointRule>,
    pub tls_ca: Option<String>,
    pub tls_client_cert: Option<String>,
    pub tls_client_key: Option<String>,
    pub oauth2: Option<OAuth2Config>,
}

pub struct RouteView {
    pub prefix: Seq<char>,
    pub upstream: Seq<char>,
    pub credential_key: Option<Seq<char>>,
    pub inject_mode: InjectMode,
    pub inject_header: Seq<char>,
    pub credential_format: Option<Seq<char>>,
    pub path_pattern: Option<Seq<char>>,
    pub path_replacement: Option<Seq<char>>,
    pub query_param_name: Option<Seq<char>>,
    pub proxy: Option<Seq<char>>,
    pub env_var: Option<Seq<char>>,
    pub endpoint_rules: Seq<(Seq<char>, Seq<char>)>,
    pub tls_ca: Option<Seq<char>>,
    pub tls_client_cert: Option<Seq<char>>,
    pub tls_client_key: Option<Seq<char>>,
    pub oauth2: Option<OAuth2View>,
}

impl View for RouteConfig {
    type V = RouteView;

    open spec fn view(&self) -> RouteView {
        RouteView {
            prefix: self.prefix@,
            upstream: self.upstream@,
            credential_key: opt_view(self.credential_key),
            inject_mode: self.inject_mode,
            inject_header: self.inject_header@,
            credential_format: opt_view(self.credential_format),
            path_pattern: opt_view(self.path_pattern),
            path_replacement: opt_view(self.path_replacement),
            query_param_name: opt_view(self.query_param_name),
            proxy: opt_view(self.proxy),
            env_var: opt_view(self.env_var),
            endpoint_rules: rule_views(self.endpoint_rules@),
            tls_ca: opt_view(self.tls_ca),
            tls_client_cert: opt_view(self.tls_client_cert),
            tls_client_key: opt_view(self.tls_client_key),
            oauth2: auth_view(self.oauth2),
        }
    }
}

pub open spec fn route_views(v: Seq<RouteConfig>) -> Seq<RouteView> {
    v.map_values(|r: RouteConfig| r@)
}

pub fn clone_route(r: &RouteConfig) -> (c: RouteConfig)
    ensures
        c@ == r@,
{
    RouteConfig {
        prefix: copy_str(r.prefix.as_str()),
        upstream: copy_str(r.upstream.as_str()),
        credential_key: clone_opt_string(&r.credential_key),
        inject_mode: r.inject_mode,
        inject_header: copy_str(r.inject_header.as_str()),
        credential_format: clone_opt_string(&r.credential_format),
        path_pattern: clone_opt_string(&r.path_pattern),
        path_replacement: clone_opt_string(&r.path_replacement),
        query_param_name: clone_opt_string(&r.query_param_name),
        proxy: clone_opt_string(&r.proxy),
        env_var: clone_opt_string(&r.env_var),
        endpoint_rules: clone_rules(&r.endpoint_rules),
        tls_ca: clone_opt_string(&r.tls_ca),
        tls_client_cert: clone_opt_string(&r.tls_client_cert),
        tls_client_key: clone_opt_string(&r.tls_client_key),
        oauth2: clone_auth(&r.oauth2),
    }
}

pub fn clone_routes(v: &Vec<RouteConfig>) -> (r: Vec<RouteConfig>)
    ensures
        route_views(r@) == route_views(v@),
{
    let mut r: Vec<RouteConfig> = Vec::new();
    let mut i: usize = 0;
    while i < v.len()
        invariant
            i <= v@.len(),
            r@.len() == i,
            forall|k: int| 0 <= k < i ==> (#[trigger] r@[k])@ == v@[k]@,
        decreases v@.len() - i,
    {
        r.push(clone_route(&v[i]));
        i += 1;
    }
    assert(route_views(r@) =~= route_views(v@));
    r
}

// ---------------------------------------------------------------------------
// Hosts
// ---------------------------------------------------------------------------

/// A policy resolved to flat lists.
#[derive(Debug)]
pub struct ResolvedNetworkPolicy {
    pub hosts: Vec<String>,
    pub suffixes: Vec<String>,
    pub routes: Vec<RouteConfig>,
    pub profile_credentials: Vec<String>,
}

/// Position of the first name that no group has; the number of names where all are known.
pub open spec fn first_missing(groups: Seq<(String, NetworkGroup)>, names: Seq<Seq<char>>) -> int
    decreases names.len(),
{
    if names.len() == 0 || !has_key(groups, names[0]) {
        0
    } else {
        1 + first_missing(groups, names.skip(1))
    }
}

/// The hosts of the groups, one group after the other.
pub open spec fn all_hosts(groups: Seq<(String, NetworkGroup)>, names: Seq<Seq<char>>) -> Seq<Seq<char>>
    decreases names.len(),
{
    if names.len() == 0 {
        Seq::empty()
    } else {
        all_hosts(groups, names.drop_last()) + views((lookup(groups, names.last())->0).hosts@)
    }
}

/// The endings of the groups, one group after the other.
pub open spec fn all_suffixes(groups: Seq<(String, NetworkGroup)>, names: Seq<Seq<char>>) -> Seq<
    Seq<char>,
>
    decreases names.len(),
{
    if names.len() == 0 {
        Seq::empty()
    } else {
        all_suffixes(groups, names.drop_last()) + views(
            (lookup(groups, names.last())->0).suffixes@,
        )
    }
}

pub open spec fn missing_group_failure(name: Seq<char>) -> ErrorView {
    ErrorView::ConfigParse("Network group '"@ + name + "' not found in policy"@)
}

fn sorted_strings(v: &Vec<String>) -> (r: Vec<String>)
    ensures
        views(r@) == sort_unique(views(v@)),
{
    let r = sorted_set(v);
    proof {
        lemma_is_sort_unique(views(r@), views(v@));
    }
    r
}

proof fn lemma_first_missing(groups: Seq<(String, NetworkGroup)>, names: Seq<Seq<char>>, n: int)
    requires
        0 <= n <= names.len(),
        forall|i: int| 0 <= i < n ==> has_key(groups, #[trigger] names[i]),
        n < names.len() ==> !has_key(groups, names[n]),
    ensures
        first_missing(groups, names) == n,
    decreases names.len(),
{
    if n > 0 {
        assert(has_key(groups, names[0]));
        assert forall|i: int| 0 <= i < n - 1 implies has_key(
            groups,
            #[trigger] names.skip(1)[i],
        ) by {
            assert(names.skip(1)[i] == names[i + 1]);
        }
        lemma_first_missing(groups, names.skip(1), n - 1);
    }
}

/// What names of groups resolve to.
pub open spec fn groups_resolve_to(r: ResolvedNetworkPolicy, groups: Seq<(String, NetworkGroup)>, names: Seq<Seq<char>>) -> bool {
    &&& views(r.hosts@) == sort_unique(all_hosts(groups, names))
    &&& views(r.suffixes@) == sort_unique(all_suffixes(groups, names))
    &&& r.routes@.len() == 0
}

/// Resolves names of groups to the hosts and endings of all of them, in order, each once.
pub fn resolve_groups(policy: &NetworkPolicy, group_names: &Vec<String>) -> (r: Result<
    ResolvedNetworkPolicy,
    NonoError,
>)
    ensures
        ({
            let names = views(group_names@);
            let n = first_missing(policy.groups@, names);
            match r {
                Ok(p) => n >= names.len() && groups_resolve_to(p, policy.groups@, names)
                    && p.profile_credentials@.len() == 0,
                Err(e) => 0 <= n < names.len() && e@ == missing_group_failure(names[n]),
            }
        }),
{
    let ghost names = views(group_names@);
    let ghost groups = policy.groups@;
    let mut hosts: Vec<String> = Vec::new();
    let mut suffixes: Vec<String> = Vec::new();
    let mut i: usize = 0;
    assert(views(hosts@) =~= all_hosts(groups, names.take(0)));
    assert(views(suffixes@) =~= all_suffixes(groups, names.take(0)));
    while i < group_names.len()
        invariant
            i <= group_names@.len(),
            names == views(group_names@),
            groups == policy.groups@,
            forall|k: int| 0 <= k < i ==> has_key(groups, #[trigger] names[k]),
            views(hosts@) == all_hosts(groups, names.take(i as int)),
            views(suffixes@) == all_suffixes(groups, names.take(i as int)),
        decreases group_names@.len() - i,
    {
        let name = group_names[i].as_str();
        proof {
            assert(names[i as int] == name@);
            assert(names.take(i + 1).drop_last() =~= names.take(i as int));
            assert(names.take(i + 1).last() == name@);
        }
        match find_key(&policy.groups, name) {
            None => {
                proof {
                    lemma_first_missing(groups, names, i as int);
                }
                return Err(
                    NonoError::ConfigParse(
                        concat3("Network group '", name, "' not found in policy"),
                    ),
                );
            },
            Some(k) => {
                let ghost h = views(hosts@);
                let ghost s = views(suffixes@);
                extend_strings(&mut hosts, &policy.groups[k].1.hosts);
                extend_strings(&mut suffixes, &policy.groups[k].1.suffixes);
                assert(views(hosts@) =~= h + views(policy.groups@[k as int].1.hosts@));
                assert(views(suffixes@) =~= s + views(policy.groups@[k as int].1.suffixes@));
            },
        }
        i += 1;
    }
    proof {
        assert(names.take(i as int) =~= names);
        lemma_first_missing(groups, names, i as int);
    }
    Ok(
        ResolvedNetworkPolicy {
            hosts: sorted_strings(&hosts),
            suffixes: sorted_strings(&suffixes),
            routes: Vec::new(),
            profile_credentials: Vec::new(),
        },
    )
}

/// A host is let through exactly where one of the groups has it.
pub proof fn law_resolved_hosts(groups: Seq<(String, NetworkGroup)>, names: Seq<Seq<char>>, host: Seq<char>)
    ensures
        sort_unique(all_hosts(groups, names)).contains(host) <==> exists|i: int|
            0 <= i < names.len() && views((lookup(groups, #[trigger] names[i])->0).hosts@).contains(
                host,
            ),
    decreases names.len(),
{
    lemma_sort_unique(all_hosts(groups, names));
    lemma_all_hosts(groups, names, host);
}

proof fn lemma_all_hosts(groups: Seq<(String, NetworkGroup)>, names: Seq<Seq<char>>, host: Seq<char>)
    ensures
        all_hosts(groups, names).contains(host) <==> exists|i: int|
            0 <= i < names.len() && views((lookup(groups, #[trigger] names[i])->0).hosts@).contains(
                host,
            ),
    decreases names.len(),
{
    if names.len() > 0 {
        let front = names.drop_last();
        let last = views((lookup(groups, names.last())->0).hosts@);
        lemma_all_hosts(groups, front, host);
        let a = all_hosts(groups, front);
        assert((a + last).contains(host) <==> a.contains(host) || last.contains(host)) by {
            if a.contains(host) {
                let i = choose|i: int| 0 <= i < a.len() && a[i] == host;
                assert((a + last)[i] == host);
            }
            if last.contains(host) {
                let i = choose|i: int| 0 <= i < last.len() && last[i] == host;
                assert((a + last)[a.len() + i] == host);
            }
        }
        if a.contains(host) {
            let i = choose|i: int|
                0 <= i < front.len() && views(
                    (lookup(groups, #[trigger] front[i])->0).hosts@,
                ).contains(host);
            assert(names[i] == front[i]);
        }
        if last.contains(host) {
            assert(names[names.len() - 1] == names.last());
        }
        if exists|i: int|
            0 <= i < names.len() && views((lookup(groups, #[trigger] names[i])->0).hosts@).contains(
                host,
            ) {
            let i = choose|i: int|
                0 <= i < names.len() && views(
                    (lookup(groups, #[trigger] names[i])->0).hosts@,
                ).contains(host);
            if i < front.len() {
                assert(front[i] == names[i]);
            }
        }
    }
}

/// Resolves a network profile to the hosts of its groups, with its credentials.
pub fn resolve_network_profile(policy: &NetworkPolicy, profile_name: &str) -> (r: Result<
    ResolvedNetworkPolicy,
    NonoError,
>)
    ensures
        match lookup(policy.profiles@, profile_name@) {
            None => r is Err && (r->Err_0)@ == ErrorView::ConfigParse(
                "Network profile '"@ + profile_name@ + "' not found in policy"@,
            ),
            Some(d) => {
                let names = views(d.groups@);
                let n = first_missing(policy.groups@, names);
                match r {
                    Ok(p) => n >= names.len() && groups_resolve_to(p, policy.groups@, names)
                        && views(p.profile_credentials@) == views(d.credentials@),
                    Err(e) => 0 <= n < names.len() && e@ == missing_group_failure(names[n]),
                }
            },
        },
{
    match find_key(&policy.profiles, profile_name) {
        None => Err(
            NonoError::ConfigParse(
                concat3("Network profile '", profile_name, "' not found in policy"),
            ),
        ),
        Some(k) => {
            let d = &policy.profiles[k].1;
            match resolve_groups(policy, &d.groups) {
                Err(e) => Err(e),
                Ok(p) => {
                    let mut resolved = p;
                    resolved.profile_credentials = clone_strings(&d.credentials);
                    Ok(resolved)
                },
            }
        },
    }
}

// ---------------------------------------------------------------------------
// Credentials
// ---------------------------------------------------------------------------

/// What the surroundings say of credentials: the variables that may not carry one, each with the
/// reason, and what paths expand to. A path that is not listed stands for itself.
#[derive(Debug)]
pub struct CredentialChecks {
    pub rejected_env_vars: Vec<(String, String)>,
    pub expanded_paths: Vec<(String, Result<String, NonoError>)>,
}

pub open spec fn env_var_failure(
    env_var: Option<Seq<char>>,
    name: Seq<char>,
    kind: Seq<char>,
    checks: CredentialChecks,
) -> Option<ErrorView> {
    match env_var {
        Some(v) => match lookup(checks.rejected_env_vars@, v) {
            Some(reason) => Some(
                ErrorView::ConfigParse(kind + name + "' has invalid env_var: "@ + reason@),
            ),
            None => None,
        },
        None => None,
    }
}

fn check_env_var(env_var: &Option<String>, name: &str, kind: &str, checks: &CredentialChecks) -> (r: Option<
    NonoError,
>)
    ensures
        match r {
            Some(e) => env_var_failure(opt_view(*env_var), name@, kind@, *checks) == Some(e@),
            None => env_var_failure(opt_view(*env_var), name@, kind@, *checks) is None,
        },
{
    match env_var {
        Some(v) => match find_key(&checks.rejected_env_vars, v.as_str()) {
            Some(i) => Some(
                NonoError::ConfigParse(
                    concat4(
                        kind,
                        name,
                        "' has invalid env_var: ",
                        checks.rejected_env_vars[i].1.as_str(),
                    ),
                ),
            ),
            None => None,
        },
        None => None,
    }
}

pub open spec fn expanded(p: Option<Seq<char>>, checks: CredentialChecks) -> Result<
    Option<Seq<char>>,
    ErrorView,
> {
    match p {
        None => Ok(None),
        Some(s) => match lookup(checks.expanded_paths@, s) {
            Some(Ok(e)) => Ok(Some(e@)),
            Some(Err(e)) => Err(e@),
            None => Ok(Some(s)),
        },
    }
}

fn expand_optional(p: &Option<String>, checks: &CredentialChecks) -> (r: Result<
    Option<String>,
    NonoError,
>)
    ensures
        match r {
            Ok(s) => expanded(opt_view(*p), *checks) == Ok::<Option<Seq<char>>, ErrorView>(
                opt_view(s),
            ),
            Err(e) => expanded(opt_view(*p), *checks) == Err::<Option<Seq<char>>, ErrorView>(e@),
        },
{
    match p {
        None => Ok(None),
        Some(s) => match find_key(&checks.expanded_paths, s.as_str()) {
            Some(i) => match &checks.expanded_paths[i].1 {
                Ok(e) => Ok(Some(copy_str(e.as_str()))),
                Err(e) => Err(e.copy()),
            },
            None => Ok(Some(copy_str(s.as_str()))),
        },
    }
}

/// The route for a credential of the profile.
pub open spec fn custom_route(name: Seq<char>, cred: CustomCredentialDef, checks: CredentialChecks) -> Result<
    RouteView,
    ErrorView,
> {
    let c = cred@;
    let ca = expanded(c.tls_ca, checks);
    let cert = expanded(c.tls_client_cert, checks);
    let key = expanded(c.tls_client_key, checks);
    match env_var_failure(c.env_var, name, "custom credential '"@, checks) {
        Some(e) => Err(e),
        None => if ca is Err {
            Err(ca->Err_0)
        } else if cert is Err {
            Err(cert->Err_0)
        } else if key is Err {
            Err(key->Err_0)
        } else {
            Ok(
                RouteView {
                    prefix: name,
                    upstream: c.upstream,
                    credential_key: c.credential_key,
                    inject_mode: c.inject_mode,
                    inject_header: c.inject_header,
                    credential_format: c.credential_format,
                    path_pattern: c.path_pattern,
                    path_replacement: c.path_replacement,
                    query_param_name: c.query_param_name,
                    proxy: c.proxy,
                    env_var: c.env_var,
                    endpoint_rules: c.endpoint_rules,
                    tls_ca: ca->Ok_0,
                    tls_client_cert: cert->Ok_0,
                    tls_client_key: key->Ok_0,
                    oauth2: c.auth,
                },
            )
        },
    }
}

/// The route for a credential that comes with the program: always a header, and the key is the
/// name of the service unless another is given.
pub open spec fn builtin_route(name: Seq<char>, c: CredentialDef, checks: CredentialChecks) -> Result<
    RouteView,
    ErrorView,
> {
    match env_var_failure(opt_view(c.env_var), name, "credential '"@, checks) {
        Some(e) => Err(e),
        None => Ok(
            RouteView {
                prefix: name,
                upstream: c.upstream@,
                credential_key: match c.credential_key {
                    Some(k) => Some(k@),
                    None => Some(name),
                },
                inject_mode: InjectMode::Header,
                inject_header: c.inject_header@,
                credential_format: opt_view(c.credential_format),
                path_pattern: None,
                path_replacement: None,
                query_param_name: None,
                proxy: None,
                env_var: opt_view(c.env_var),
                endpoint_rules: rule_views(c.endpoint_rules@),
                tls_ca: None,
                tls_client_cert: None,
                tls_client_key: None,
                oauth2: None,
            },
        ),
    }
}

/// The route for a service: that of the profile's credential where it has one.
pub open spec fn service_route(
    policy: NetworkPolicy,
    custom: Seq<(String, CustomCredentialDef)>,
    name: Seq<char>,
    checks: CredentialChecks,
) -> Result<RouteView, ErrorView> {
    if has_key(custom, name) {
        custom_route(name, lookup(custom, name)->0, checks)
    } else {
        builtin_route(name, lookup(policy.credentials@, name)->0, checks)
    }
}

pub open spec fn is_known(policy: NetworkPolicy, custom: Seq<(String, CustomCredentialDef)>, name: Seq<char>) -> bool {
    has_key(custom, name) || has_key(policy.credentials@, name)
}

/// Position of the first service that nothing defines; their number where all are defined.
pub open spec fn first_unknown(
    policy: NetworkPolicy,
    custom: Seq<(String, CustomCredentialDef)>,
    names: Seq<Seq<char>>,
) -> int
    decreases names.len(),
{
    if names.len() == 0 || !is_known(policy, custom, names[0]) {
        0
    } else {
        1 + first_unknown(policy, custom, names.skip(1))
    }
}

pub open spec fn unknown_service_failure(
    policy: NetworkPolicy,
    custom: Seq<(String, CustomCredentialDef)>,
    name: Seq<char>,
) -> ErrorView {
    ErrorView::ConfigParse(
        "Unknown credential service '"@ + name + "'. Available: "@ + debug_list(
            sort_unique(keys(policy.credentials@) + keys(custom)),
        ),
    )
}

/// The routes for all services, or the first failure.
pub open spec fn service_routes(
    policy: NetworkPolicy,
    custom: Seq<(String, CustomCredentialDef)>,
    names: Seq<Seq<char>>,
    checks: CredentialChecks,
) -> Result<Seq<RouteView>, ErrorView>
    decreases names.len(),
{
    if names.len() == 0 {
        Ok(Seq::empty())
    } else {
        match service_routes(policy, custom, names.drop_last(), checks) {
            Err(e) => Err(e),
            Ok(done) => match service_route(policy, custom, names.last(), checks) {
                Err(e) => Err(e),
                Ok(r) => Ok(done.push(r)),
            },
        }
    }
}

/// What requested services resolve to: every one must be defined.
pub open spec fn resolved_credentials(
    policy: NetworkPolicy,
    names: Seq<Seq<char>>,
    custom: Seq<(String, CustomCredentialDef)>,
    checks: CredentialChecks,
) -> Result<Seq<RouteView>, ErrorView> {
    let n = first_unknown(policy, custom, names);
    if 0 <= n < names.len() {
        Err(unknown_service_failure(policy, custom, names[n]))
    } else {
        service_routes(policy, custom, names, checks)
    }
}

fn find_unknown(
    policy: &NetworkPolicy,
    custom: &Vec<(String, CustomCredentialDef)>,
    names: &Vec<String>,
) -> (r: usize)
    ensures
        r == first_unknown(*policy, custom@, views(names@)),
        r <= names@.len(),
        forall|i: int| 0 <= i < r ==> is_known(*policy, custom@, #[trigger] views(names@)[i]),
{
    let ghost all = views(names@);
    let mut i: usize = 0;
    assert(all.skip(0) =~= all);
    while i < names.len()
        invariant
            i <= names@.len(),
            all == views(names@),
            first_unknown(*policy, custom@, all) == i + first_unknown(
                *policy,
                custom@,
                all.skip(i as int),
            ),
            forall|k: int| 0 <= k < i ==> is_known(*policy, custom@, #[trigger] all[k]),
        decreases names@.len() - i,
    {
        let name = names[i].as_str();
        proof {
            assert(all[i as int] == name@);
            assert(all.skip(i as int)[0] == name@);
            assert(all.skip(i as int).skip(1) =~= all.skip(i + 1));
        }
        if find_key(custom, name).is_none() && find_key(&policy.credentials, name).is_none() {
            return i;
        }
        i += 1;
    }
    i
}

fn make_custom_route(name: &str, c: &CustomCredentialDef, checks: &CredentialChecks) -> (r: Result<
    RouteConfig,
    NonoError,
>)
    ensures
        match r {
            Ok(x) => custom_route(name@, *c, *checks) == Ok::<RouteView, ErrorView>(x@),
            Err(e) => custom_route(name@, *c, *checks) == Err::<RouteView, ErrorView>(e@),
        },
{
    if let Some(e) = check_env_var(&c.env_var, name, "custom credential '", checks) {
        return Err(e);
    }
    let tls_ca = match expand_optional(&c.tls_ca, checks) {
        Ok(p) => p,
        Err(e) => {
            return Err(e);
        },
    };
    let tls_client_cert = match expand_optional(&c.tls_client_cert, checks) {
        Ok(p) => p,
        Err(e) => {
            return Err(e);
        },
    };
    let tls_client_key = match expand_optional(&c.tls_client_key, checks) {
        Ok(p) => p,
        Err(e) => {
            return Err(e);
        },
    };
    Ok(
        RouteConfig {
            prefix: copy_str(name),
            upstream: copy_str(c.upstream.as_str()),
            credential_key: clone_opt_string(&c.credential_key),
            inject_mode: c.inject_mode,
            inject_header: copy_str(c.inject_header.as_str()),
            credential_format: clone_opt_string(&c.credential_format),
            path_pattern: clone_opt_string(&c.path_pattern),
            path_replacement: clone_opt_string(&c.path_replacement),
            query_param_name: clone_opt_string(&c.query_param_name),
            proxy: clone_opt_string(&c.proxy),
            env_var: clone_opt_string(&c.env_var),
            endpoint_rules: clone_rules(&c.endpoint_rules),
            tls_ca,
            tls_client_cert,
            tls_client_key,
            oauth2: clone_auth(&c.auth),
        },
    )
}

fn make_builtin_route(name: &str, c: &CredentialDef, checks: &CredentialChecks) -> (r: Result<
    RouteConfig,
    NonoError,
>)
    ensures
        match r {
            Ok(x) => builtin_route(name@, *c, *checks) == Ok::<RouteView, ErrorView>(x@),
            Err(e) => builtin_route(name@, *c, *checks) == Err::<RouteView, ErrorView>(e@),
        },
{
    if let Some(e) = check_env_var(&c.env_var, name, "credential '", checks) {
        return Err(e);
    }
    let key = match &c.credential_key {
        Some(k) => copy_str(k.as_str()),
        None => copy_str(name),
    };
    Ok(
        RouteConfig {
            prefix: copy_str(name),
            upstream: copy_str(c.upstream.as_str()),
            credential_key: Some(key),
            inject_mode: InjectMode::Header,
            inject_header: copy_str(c.inject_header.as_str()),
            credential_format: clone_opt_string(&c.credential_format),
            path_pattern: None,
            path_replacement: None,
            query_param_name: None,
            proxy: None,
            env_var: clone_opt_string(&c.env_var),
            endpoint_rules: clone_rules(&c.endpoint_rules),
            tls_ca: None,
            tls_client_cert: None,
            tls_client_key: None,
            oauth2: None,
        },
    )
}

proof fn lemma_routes_failure(
    policy: NetworkPolicy,
    custom: Seq<(String, CustomCredentialDef)>,
    names: Seq<Seq<char>>,
    checks: CredentialChecks,
    i: int,
)
    requires
        0 <= i <= names.len(),
        service_routes(policy, custom, names.take(i), checks) is Err,
    ensures
        service_routes(policy, custom, names, checks) == service_routes(
            policy,
            custom,
            names.take(i),
            checks,
        ),
    decreases names.len(),
{
    if i == names.len() {
        assert(names.take(i) =~= names);
    } else {
        assert(names.drop_last().take(i) =~= names.take(i));
        lemma_routes_failure(policy, custom, names.drop_last(), checks, i);
    }
}

/// Resolves requested services to routes. Credentials of the profile come before those of the
/// program.
pub fn resolve_credentials(
    policy: &NetworkPolicy,
    service_names: &Vec<String>,
    custom: &Vec<(String, CustomCredentialDef)>,
    checks: &CredentialChecks,
) -> (r: Result<Vec<RouteConfig>, NonoError>)
    ensures
        match r {
            Ok(v) => resolved_credentials(*policy, views(service_names@), custom@, *checks) == Ok::<
                Seq<RouteView>,
                ErrorView,
            >(route_views(v@)),
            Err(e) => resolved_credentials(*policy, views(service_names@), custom@, *checks)
                == Err::<Seq<RouteView>, ErrorView>(e@),
        },
{
    let n = find_unknown(policy, custom, service_names);
    let ghost names = views(service_names@);
    if n < service_names.len() {
        assert(names[n as int] == service_names@[n as int]@);
        let mut available = key_list(&policy.credentials);
        let more = key_list(custom);
        extend_strings(&mut available, &more);
        assert(views(available@) =~= keys(policy.credentials@) + keys(custom@));
        let sorted = sorted_strings(&available);
        let list = list_to_debug(&sorted);
        return Err(
            NonoError::ConfigParse(
                concat4(
                    "Unknown credential service '",
                    service_names[n].as_str(),
                    "'. Available: ",
                    list.as_str(),
                ),
            ),
        );
    }
    let mut routes: Vec<RouteConfig> = Vec::new();
    let mut i: usize = 0;
    assert(names.take(0).len() == 0);
    assert(route_views(routes@) =~= Seq::<RouteView>::empty());
    while i < service_names.len()
        invariant
            i <= service_names@.len(),
            names == views(service_names@),
            forall|k: int| 0 <= k < names.len() ==> is_known(*policy, custom@, #[trigger] names[k]),
            service_routes(*policy, custom@, names.take(i as int), *checks) == Ok::<
                Seq<RouteView>,
                ErrorView,
            >(route_views(routes@)),
            resolved_credentials(*policy, names, custom@, *checks) == service_routes(
                *policy,
                custom@,
                names,
                *checks,
            ),
        decreases service_names@.len() - i,
    {
        let name = service_names[i].as_str();
        proof {
            assert(names[i as int] == name@);
            assert(names.take(i + 1).drop_last() =~= names.take(i as int));
            assert(names.take(i + 1).last() == name@);
        }
        let made = match find_key(custom, name) {
            Some(k) => make_custom_route(name, &custom[k].1, checks),
            None => match find_key(&policy.credentials, name) {
                Some(k) => make_builtin_route(name, &policy.credentials[k].1, checks),
                None => {
                    assert(false);
                    Err(NonoError::ConfigParse(String::new()))
                },
            },
        };
        match made {
            Ok(r) => {
                let ghost before = route_views(routes@);
                routes.push(r);
                assert(route_views(routes@) =~= before.push(r@));
            },
            Err(e) => {
                proof {
                    lemma_routes_failure(*policy, custom@, names, *checks, i + 1);
                }
                return Err(e);
            },
        }
        i += 1;
    }
    assert(names.take(i as int) =~= names);
    Ok(routes)
}

/// A credential of the profile takes the place of one of the same name that comes with the
/// program, whatever the program defines.
pub proof fn law_custom_credentials_come_first(
    policy: NetworkPolicy,
    other: NetworkPolicy,
    custom: Seq<(String, CustomCredentialDef)>,
    name: Seq<char>,
    checks: CredentialChecks,
)
    requires
        has_key(custom, name),
    ensures
        service_route(policy, custom, name, checks) == service_route(other, custom, name, checks),
        resolved_credentials(policy, seq![name], custom, checks) == resolved_credentials(
            other,
            seq![name],
            custom,
            checks,
        ),
{
    let names = seq![name];
    assert(names.skip(1).len() == 0);
    assert(first_unknown(policy, custom, names.skip(1)) == 0);
    assert(first_unknown(other, custom, names.skip(1)) == 0);
    assert(first_unknown(policy, custom, names) == 1);
    assert(first_unknown(other, custom, names) == 1);
    assert(names.drop_last().len() == 0);
    assert(service_routes(policy, custom, names.drop_last(), checks) == Ok::<
        Seq<RouteView>,
        ErrorView,
    >(Seq::empty()));
    assert(service_routes(other, custom, names.drop_last(), checks) == Ok::<
        Seq<RouteView>,
        ErrorView,
    >(Seq::empty()));
}

/// Without a request there are no routes; and where the services resolve, there is one route for
/// each, in the order of the request.
pub proof fn law_one_route_for_each_service(
    policy: NetworkPolicy,
    names: Seq<Seq<char>>,
    custom: Seq<(String, CustomCredentialDef)>,
    checks: CredentialChecks,
)
    requires
        resolved_credentials(policy, names, custom, checks) is Ok,
    ensures
        (resolved_credentials(policy, names, custom, checks)->Ok_0).len() == names.len(),
        forall|i: int|
            0 <= i < names.len() ==> (#[trigger] (resolved_credentials(
                policy,
                names,
                custom,
                checks,
            )->Ok_0)[i]).prefix == names[i],
{
    lemma_routes(policy, names, custom, checks);
}

proof fn lemma_routes(
    policy: NetworkPolicy,
    names: Seq<Seq<char>>,
    custom: Seq<(String, CustomCredentialDef)>,
    checks: CredentialChecks,
)
    requires
        service_routes(policy, custom, names, checks) is Ok,
    ensures
        (service_routes(policy, custom, names, checks)->Ok_0).len() == names.len(),
        forall|i: int|
            0 <= i < names.len() ==> (#[trigger] (service_routes(
                policy,
                custom,
                names,
                checks,
            )->Ok_0)[i]).prefix == names[i],
    decreases names.len(),
{
    if names.len() > 0 {
        lemma_routes(policy, names.drop_last(), custom, checks);
        let done = service_routes(policy, custom, names.drop_last(), checks)->Ok_0;
        let all = service_routes(policy, custom, names, checks)->Ok_0;
        assert forall|i: int| 0 <= i < names.len() implies (#[trigger] all[i]).prefix
            == names[i] by {
            if i < done.len() {
                assert(all[i] == done[i]);
                assert(names.drop_last()[i] == names[i]);
            }
        }
    }
}

// ---------------------------------------------------------------------------
// The proxy
// ---------------------------------------------------------------------------

/// An upstream proxy, and the hosts that are reached without it.
#[derive(Debug)]
pub struct ExternalProxyConfig {
    pub address: String,
    pub bypass_hosts: Vec<String>,
}

/// How the proxy is set up. Without a port it picks one itself.
#[derive(Debug)]
pub struct ProxyConfig {
    pub allowed_hosts: Vec<String>,
    pub routes: Vec<RouteConfig>,
    pub external_proxy: Option<ExternalProxyConfig>,
    pub bind_port: Option<u16>,
}

/// The pattern for all hosts with an ending.
pub open spec fn wildcard(suffix: Seq<char>) -> Seq<char> {
    if suffix.len() > 0 && suffix[0] == '.' {
        "*"@ + suffix
    } else {
        "*."@ + suffix
    }
}

fn wildcard_of(suffix: &str) -> (r: String)
    ensures
        r@ == wildcard(suffix@),
{
    let v = chars_of(suffix);
    if v.len() > 0 && v[0] == '.' {
        concat2("*", suffix)
    } else {
        concat2("*.", suffix)
    }
}

pub open spec fn wildcards(suffixes: Seq<Seq<char>>) -> Seq<Seq<char>> {
    suffixes.map_values(|s: Seq<char>| wildcard(s))
}

fn push_wildcards(v: &mut Vec<String>, suffixes: &Vec<String>)
    ensures
        views(final(v)@) == views(old(v)@) + wildcards(views(suffixes@)),
{
    let ghost all = wildcards(views(suffixes@));
    let ghost start = views(v@);
    let mut i: usize = 0;
    assert(start + all.take(0) =~= start);
    while i < suffixes.len()
        invariant
            i <= suffixes@.len(),
            all == wildcards(views(suffixes@)),
            views(v@) == start + all.take(i as int),
        decreases suffixes@.len() - i,
    {
        let w = wildcard_of(suffixes[i].as_str());
        assert(all[i as int] == w@);
        push_copy(v, w.as_str());
        i += 1;
        assert(all.take(i as int) =~= all.take(i - 1).push(all[i - 1]));
        assert(views(v@) =~= start + all.take(i as int));
    }
    assert(all.take(i as int) =~= all);
}

/// The proxy for a resolved policy, with further hosts.
pub fn build_proxy_config(resolved: &ResolvedNetworkPolicy, extra_hosts: &Vec<String>) -> (r: ProxyConfig)
    ensures
        views(r.allowed_hosts@) == views(resolved.hosts@) + wildcards(views(resolved.suffixes@))
            + views(extra_hosts@),
        route_views(r.routes@) == route_views(resolved.routes@),
        r.external_proxy is None,
        r.bind_port is None,
{
    let mut allowed_hosts = clone_strings(&resolved.hosts);
    push_wildcards(&mut allowed_hosts, &resolved.suffixes);
    let ghost before = views(allowed_hosts@);
    extend_strings(&mut allowed_hosts, extra_hosts);
    assert(views(allowed_hosts@) =~= before + views(extra_hosts@));
    ProxyConfig {
        allowed_hosts,
        routes: clone_routes(&resolved.routes),
        external_proxy: None,
        bind_port: None,
    }
}

/// The port at the end of an entry, behind the last colon.
pub open spec fn port_suffix(entry: Seq<char>) -> Option<nat> {
    let i = last_index(entry, ':');
    if 0 <= i < entry.len() {
        parse_number(entry.skip(i + 1), 65535)
    } else {
        None
    }
}

/// An entry without its port.
pub open spec fn host_part(entry: Seq<char>) -> Seq<char> {
    if port_suffix(entry) is Some {
        entry.take(last_index(entry, ':'))
    } else {
        entry
    }
}

fn split_port(entry: &str) -> (r: (bool, String))
    ensures
        r.0 == (port_suffix(entry@) is Some),
        r.1@ == host_part(entry@),
{
    let v = chars_of(entry);
    proof {
        lemma_last_index(entry@, ':');
    }
    if let Some(i) = find_last(&v, ':') {
        let port = sub_chars(&v, i + 1, v.len());
        assert(port@ =~= entry@.skip(i + 1));
        if parse_digits(&port, 65535).is_some() {
            let host = sub_chars(&v, 0, i);
            assert(host@ =~= entry@.take(i as int));
            return (true, from_chars(&host));
        }
    }
    (false, copy_str(entry))
}

/// What one entry lets through: the hosts of a group, or a host.
pub open spec fn entry_hosts(groups: Seq<(String, NetworkGroup)>, entry: Seq<char>) -> Seq<Seq<char>> {
    match lookup(groups, entry) {
        Some(g) => views(g.hosts@) + wildcards(views(g.suffixes@)),
        None => seq![host_part(entry)],
    }
}

pub open spec fn entries_hosts(groups: Seq<(String, NetworkGroup)>, entries: Seq<Seq<char>>) -> Seq<
    Seq<char>,
>
    decreases entries.len(),
{
    if entries.len() == 0 {
        Seq::empty()
    } else {
        entries_hosts(groups, entries.drop_last()) + entry_hosts(groups, entries.last())
    }
}

fn push_entry_hosts(v: &mut Vec<String>, policy: &NetworkPolicy, entry: &str)
    ensures
        views(final(v)@) == views(old(v)@) + entry_hosts(policy.groups@, entry@),
{
    let ghost start = views(v@);
    match find_key(&policy.groups, entry) {
        Some(k) => {
            let g = &policy.groups[k].1;
            extend_strings(v, &g.hosts);
            assert(views(v@) =~= start + views(g.hosts@));
            push_wildcards(v, &g.suffixes);
            assert(views(v@) =~= start + entry_hosts(policy.groups@, entry@));
        },
        None => {
            let (_, host) = split_port(entry);
            push_copy(v, host.as_str());
            assert(views(v@) =~= start + entry_hosts(policy.groups@, entry@));
        },
    }
}

/// Expands entries: the name of a group to its hosts, and anything else to a host without port.
pub fn expand_proxy_allow(policy: &NetworkPolicy, entries: &Vec<String>) -> (r: Vec<String>)
    ensures
        views(r@) == entries_hosts(policy.groups@, views(entries@)),
{
    let ghost all = views(entries@);
    let mut r: Vec<String> = Vec::new();
    let mut i: usize = 0;
    assert(views(r@) =~= entries_hosts(policy.groups@, all.take(0)));
    while i < entries.len()
        invariant
            i <= entries@.len(),
            all == views(entries@),
            views(r@) == entries_hosts(policy.groups@, all.take(i as int)),
        decreases entries@.len() - i,
    {
        proof {
            assert(all.take(i + 1).drop_last() =~= all.take(i as int));
            assert(all.take(i + 1).last() == entries@[i as int]@);
        }
        push_entry_hosts(&mut r, policy, entries[i].as_str());
        i += 1;
    }
    assert(all.take(i as int) =~= all);
    r
}

/// A host of the machine itself, by name or by a loopback address.
pub open spec fn is_loopback(domain: Seq<char>) -> bool {
    domain == "localhost"@ || is_loopback_v4(domain) || is_loopback_v6(domain)
}

/// Whether a domain is the machine itself.
pub fn is_loopback_domain(domain: &str) -> (r: bool)
    ensures
        r == is_loopback(domain@),
{
    str_eq(domain, "localhost") || loopback_v4(domain) || loopback_v6(domain)
}

/// An entry of the domains that a profile lets through, perhaps only for some requests.
#[derive(Debug)]
pub enum AllowDomainEntry {
    Plain(String),
    WithEndpoints { domain: String, endpoints: Vec<EndpointRule> },
}

/// The route for a domain of which only some requests pass.
pub open spec fn endpoint_route(
    domain: Seq<char>,
    rules: Seq<(Seq<char>, Seq<char>)>,
    loopback: bool,
) -> RouteView {
    RouteView {
        prefix: "_ep_"@ + domain,
        upstream: (if loopback {
            "http"@
        } else {
            "https"@
        }) + "://"@ + domain,
        credential_key: None,
        inject_mode: InjectMode::Header,
        inject_header: "Authorization"@,
        credential_format: None,
        path_pattern: None,
        path_replacement: None,
        query_param_name: None,
        proxy: None,
        env_var: None,
        endpoint_rules: rules,
        tls_ca: None,
        tls_client_cert: None,
        tls_client_key: None,
        oauth2: None,
    }
}

/// The hosts and the routes so far, or the first failure.
pub type Partition = Result<(Seq<Seq<char>>, Seq<RouteView>), ErrorView>;

/// What one entry adds.
pub open spec fn partition_step(
    so_far: Partition,
    groups: Seq<(String, NetworkGroup)>,
    entry: AllowDomainEntry,
) -> Partition {
    match so_far {
        Err(e) => Err(e),
        Ok(p) => match entry {
            AllowDomainEntry::Plain(host) => Ok((p.0 + entry_hosts(groups, host@), p.1)),
            AllowDomainEntry::WithEndpoints { domain, endpoints } => if endpoints@.len() == 0 {
                Ok((p.0 + entry_hosts(groups, domain@), p.1))
            } else if domain@.len() == 0 {
                Err(
                    ErrorView::ConfigParse(
                        "allow_domain entry with endpoints must have a non-empty domain"@,
                    ),
                )
            } else {
                Ok(
                    (
                        p.0,
                        p.1.push(
                            endpoint_route(
                                domain@,
                                rule_views(endpoints@),
                                is_loopback(domain@),
                            ),
                        ),
                    ),
                )
            },
        },
    }
}

pub open spec fn partitioned(
    groups: Seq<(String, NetworkGroup)>,
    entries: Seq<AllowDomainEntry>,
) -> Partition
    decreases entries.len(),
{
    if entries.len() == 0 {
        Ok((Seq::empty(), Seq::empty()))
    } else {
        partition_step(
            partitioned(groups, entries.drop_last()),
            groups,
            entries.last(),
        )
    }
}

proof fn lemma_partition_failure(
    groups: Seq<(String, NetworkGroup)>,
    entries: Seq<AllowDomainEntry>,
    i: int,
)
    requires
        0 <= i <= entries.len(),
        partitioned(groups, entries.take(i)) is Err,
    ensures
        partitioned(groups, entries) == partitioned(groups, entries.take(i)),
    decreases entries.len(),
{
    if i == entries.len() {
        assert(entries.take(i) =~= entries);
    } else {
        assert(entries.drop_last().take(i) =~= entries.take(i));
        lemma_partition_failure(groups, entries.drop_last(), i);
    }
}

fn make_endpoint_route(domain: &str, endpoints: &Vec<EndpointRule>, loopback: bool) -> (r: RouteConfig)
    ensures
        r@ == endpoint_route(domain@, rule_views(endpoints@), loopback),
{
    let scheme = if loopback {
        "http"
    } else {
        "https"
    };
    RouteConfig {
        prefix: concat2("_ep_", domain),
        upstream: concat3(scheme, "://", domain),
        credential_key: None,
        inject_mode: InjectMode::Header,
        inject_header: default_inject_header(),
        credential_format: None,
        path_pattern: None,
        path_replacement: None,
        query_param_name: None,
        proxy: None,
        env_var: None,
        endpoint_rules: clone_rules(endpoints),
        tls_ca: None,
        tls_client_cert: None,
        tls_client_key: None,
        oauth2: None,
    }
}

/// Parts the entries into hosts that pass as they are and routes of which only some requests pass.
pub fn partition_allow_domain(
    policy: &NetworkPolicy,
    entries: &Vec<AllowDomainEntry>,
) -> (r: Result<(Vec<String>, Vec<RouteConfig>), NonoError>)
    ensures
        match r {
            Ok(p) => partitioned(policy.groups@, entries@) == Ok::<
                (Seq<Seq<char>>, Seq<RouteView>),
                ErrorView,
            >((views(p.0@), route_views(p.1@))),
            Err(e) => partitioned(policy.groups@, entries@) == Err::<
                (Seq<Seq<char>>, Seq<RouteView>),
                ErrorView,
            >(e@),
        },
{
    let ghost groups = policy.groups@;
    let mut hosts: Vec<String> = Vec::new();
    let mut routes: Vec<RouteConfig> = Vec::new();
    let mut i: usize = 0;
    assert(views(hosts@) =~= Seq::<Seq<char>>::empty());
    assert(route_views(routes@) =~= Seq::<RouteView>::empty());
    while i < entries.len()
        invariant
            i <= entries@.len(),
            groups == policy.groups@,
            partitioned(groups, entries@.take(i as int)) == Ok::<
                (Seq<Seq<char>>, Seq<RouteView>),
                ErrorView,
            >((views(hosts@), route_views(routes@))),
        decreases entries@.len() - i,
    {
        proof {
            assert(entries@.take(i + 1).drop_last() =~= entries@.take(i as int));
            assert(entries@.take(i + 1).last() == entries@[i as int]);
        }
        match &entries[i] {
            AllowDomainEntry::Plain(host) => {
                push_entry_hosts(&mut hosts, policy, host.as_str());
            },
            AllowDomainEntry::WithEndpoints { domain, endpoints } => {
                if endpoints.len() == 0 {
                    push_entry_hosts(&mut hosts, policy, domain.as_str());
                } else {
                    let v = chars_of(domain.as_str());
                    if v.len() == 0 {
                        proof {
                            lemma_partition_failure(groups, entries@, i + 1);
                        }
                        return Err(
                            NonoError::ConfigParse(
                                copy_str(
                                    "allow_domain entry with endpoints must have a non-empty domain",
                                ),
                            ),
                        );
                    }
                    let loopback = is_loopback_domain(domain.as_str());
                    let route = make_endpoint_route(domain.as_str(), endpoints, loopback);
                    let ghost before = route_views(routes@);
                    routes.push(route);
                    assert(route_views(routes@) =~= before.push(route@));
                }
            },
        }
        i += 1;
    }
    assert(entries@.take(i as int) =~= entries@);
    Ok((hosts, routes))
}

/// The warning for an entry with a port.
pub open spec fn port_warning(source: Seq<char>, entry: Seq<char>) -> Seq<char> {
    source + " entry '"@ + entry
        + "' includes a :port suffix. nono now ignores ports in allow-domain rules and only applies hostname filtering through the proxy."@
}

/// One warning for each entry that has a port.
pub fn collect_allow_domain_port_warnings(entries: &[String], source: &str) -> (r: Vec<String>)
    ensures
        views(r@) == views(entries@).filter(|e: Seq<char>| port_suffix(e) is Some).map_values(
            |e: Seq<char>| port_warning(source@, e),
        ),
{
    let ghost all = views(entries@);
    let ghost keep = |e: Seq<char>| port_suffix(e) is Some;
    let ghost shape = |e: Seq<char>| port_warning(source@, e);
    let mut r: Vec<String> = Vec::new();
    let mut i: usize = 0;
    assert(views(r@) =~= all.take(0).filter(keep).map_values(shape));
    while i < entries.len()
        invariant
            i <= entries@.len(),
            all == views(entries@),
            keep == (|e: Seq<char>| port_suffix(e) is Some),
            shape == (|e: Seq<char>| port_warning(source@, e)),
            views(r@) == all.take(i as int).filter(keep).map_values(shape),
        decreases entries@.len() - i,
    {
        let ghost done = all.take(i as int).filter(keep);
        let entry = entries[i].as_str();
        proof {
            lemma_filter_step(all, i as int, keep);
            assert(all[i as int] == entry@);
            assert(done.push(entry@).map_values(shape) =~= done.map_values(shape).push(
                shape(entry@),
            ));
        }
        let (has_port, _) = split_port(entry);
        if has_port {
            let w = concat4(
                source,
                " entry '",
                entry,
                "' includes a :port suffix. nono now ignores ports in allow-domain rules and only applies hostname filtering through the proxy.",
            );
            push_copy(&mut r, w.as_str());
        }
        i += 1;
    }
    assert(all.take(i as int) =~= all);
    r
}

} // verus!
