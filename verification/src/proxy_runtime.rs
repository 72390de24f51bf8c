//! Which proxy a run gets.

pub mod laws;

use crate::assoc::lookup;
use crate::capability::NetworkMode;
use crate::error::{ErrorView, NonoError};
use crate::network_policy::{
    all_hosts, all_suffixes, build_proxy_config, entries_hosts, expand_proxy_allow, first_missing,
    missing_group_failure, resolve_credentials, resolve_network_profile, resolved_credentials,
    route_views, wildcards, CredentialChecks, ExternalProxyConfig, NetworkPolicy,
    NetworkProfileDef, ProxyConfig, ResolvedNetworkPolicy, RouteView,
};
use crate::paths::{joined, path_join};
use crate::profile::CustomCredentialDef;
use crate::profile_runtime::{clone_credentials, same_credentials};
use crate::text::{
    append_new, chars_of, clone_opt_string, clone_strings, concat2, concat3, concat4, copy_str,
    decimal, extend_strings, no_strings, opt_view, push_new, sort_unique, u64_to_string, views,
};
use vstd::prelude::*;

verus! {

/// What the command line says of the network.
#[derive(Debug)]
pub struct ProxyArgs {
    pub allow_net: bool,
    pub network_profile: Option<String>,
    pub allow_proxy: Vec<String>,
    pub proxy_credential: Vec<String>,
    pub external_proxy: Option<String>,
    pub external_proxy_bypass: Vec<String>,
    pub allow_bind: Vec<u16>,
    pub proxy_port: Option<u16>,
}

/// What the profile says of the network, and what the sandbox allows.
#[derive(Debug)]
pub struct PreparedNetwork {
    pub network_mode: NetworkMode,
    pub network_profile: Option<String>,
    pub allow_domain: Vec<String>,
    pub credentials: Vec<String>,
    pub custom_credentials: Vec<(String, CustomCredentialDef)>,
    pub upstream_proxy: Option<String>,
    pub upstream_bypass: Vec<String>,
    pub listen_ports: Vec<u16>,
    pub open_url_origins: Vec<String>,
    pub open_url_allow_localhost: bool,
    pub allow_launch_services_active: bool,
}

// ---------------------------------------------------------------------------
// Effective settings
// ---------------------------------------------------------------------------

#[derive(Debug)]
pub struct EffectiveProxySettings {
    pub network_profile: Option<String>,
    pub allow_domain: Vec<String>,
    pub credentials: Vec<String>,
}

/// The network profile that counts: that of the command line before that of the profile; none
/// where the network is open.
pub open spec fn effective_profile(args: ProxyArgs, prepared: PreparedNetwork) -> Option<Seq<char>> {
    if args.allow_net {
        None
    } else if args.network_profile is Some {
        opt_view(args.network_profile)
    } else {
        opt_view(prepared.network_profile)
    }
}

/// The domains of the profile, then those of the command line; none where the network is open.
pub open spec fn effective_domains(args: ProxyArgs, prepared: PreparedNetwork) -> Seq<Seq<char>> {
    if args.allow_net {
        Seq::empty()
    } else {
        views(prepared.allow_domain@) + views(args.allow_proxy@)
    }
}

/// The credentials of the profile, then those of the command line; none where the network is open.
pub open spec fn effective_credentials(args: ProxyArgs, prepared: PreparedNetwork) -> Seq<Seq<char>> {
    if args.allow_net {
        Seq::empty()
    } else {
        views(prepared.credentials@) + views(args.proxy_credential@)
    }
}

fn both_lists(a: &Vec<String>, b: &Vec<String>) -> (r: Vec<String>)
    ensures
        views(r@) == views(a@) + views(b@),
{
    let mut r = clone_strings(a);
    extend_strings(&mut r, b);
    assert(views(r@) =~= views(a@) + views(b@));
    r
}

/// The settings that count, from the profile and the command line.
pub fn resolve_effective_proxy_settings(args: &ProxyArgs, prepared: &PreparedNetwork) -> (r: EffectiveProxySettings)
    ensures
        opt_view(r.network_profile) == effective_profile(*args, *prepared),
        views(r.allow_domain@) == effective_domains(*args, *prepared),
        views(r.credentials@) == effective_credentials(*args, *prepared),
{
    if args.allow_net {
        return EffectiveProxySettings {
            network_profile: None,
            allow_domain: no_strings(),
            credentials: no_strings(),
        };
    }
    let network_profile = match &args.network_profile {
        Some(p) => Some(copy_str(p.as_str())),
        None => clone_opt_string(&prepared.network_profile),
    };
    EffectiveProxySettings {
        network_profile,
        allow_domain: both_lists(&prepared.allow_domain, &args.allow_proxy),
        credentials: both_lists(&prepared.credentials, &args.proxy_credential),
    }
}

// ---------------------------------------------------------------------------
// Ports
// ---------------------------------------------------------------------------

pub open spec fn ports_ascend(v: Seq<u16>) -> bool {
    forall|i: int, j: int| 0 <= i < j < v.len() ==> #[trigger] v[i] < #[trigger] v[j]
}

/// The ports of both lists, in order, each once.
pub open spec fn is_port_union(r: Seq<u16>, a: Seq<u16>, b: Seq<u16>) -> bool {
    &&& ports_ascend(r)
    &&& forall|p: u16| #[trigger] r.contains(p) <==> a.contains(p) || b.contains(p)
}

fn insert_port(v: &mut Vec<u16>, p: u16)
    requires
        ports_ascend(old(v)@),
    ensures
        ports_ascend(final(v)@),
        forall|q: u16| #[trigger] final(v)@.contains(q) <==> old(v)@.contains(q) || q == p,
{
    let mut i: usize = 0;
    while i < v.len() && v[i] < p
        invariant
            i <= v@.len(),
            *v == *old(v),
            forall|k: int| 0 <= k < i ==> #[trigger] v@[k] < p,
        decreases v@.len() - i,
    {
        i += 1;
    }
    if i < v.len() && v[i] == p {
        assert(v@[i as int] == p);
        return ;
    }
    let ghost before = v@;
    v.insert(i, p);
    proof {
        let after = v@;
        assert(after =~= before.insert(i as int, p));
        assert forall|a: int, b: int| 0 <= a < b < after.len() implies #[trigger] after[a]
            < #[trigger] after[b] by {
            let a0 = if a < i {
                a
            } else {
                a - 1
            };
            let b0 = if b < i {
                b
            } else {
                b - 1
            };
            if a != i && b != i {
                assert(before[a0] < before[b0]);
            } else if a == i {
                assert(after[b] == before[b0]);
                if b0 > i {
                    assert(before[i as int] < before[b0]);
                }
            } else {
                assert(after[a] == before[a]);
            }
        }
        assert forall|q: u16| #[trigger] after.contains(q) <==> before.contains(q) || q == p by {
            if before.contains(q) {
                let k = choose|k: int| 0 <= k < before.len() && before[k] == q;
                let k2 = if k < i {
                    k
                } else {
                    k + 1
                };
                assert(after[k2] == q);
            }
            if q == p {
                assert(after[i as int] == q);
            }
            if after.contains(q) && q != p {
                let k = choose|k: int| 0 <= k < after.len() && after[k] == q;
                let k2 = if k < i {
                    k
                } else {
                    k - 1
                };
                assert(before[k2] == q);
            }
        }
    }
}

fn insert_ports(v: &mut Vec<u16>, more: &Vec<u16>)
    requires
        ports_ascend(old(v)@),
    ensures
        ports_ascend(final(v)@),
        forall|q: u16| #[trigger]
            final(v)@.contains(q) <==> old(v)@.contains(q) || more@.contains(q),
{
    let mut i: usize = 0;
    assert forall|q: u16| #[trigger] v@.contains(q) <==> old(v)@.contains(q) || more@.take(
        0,
    ).contains(q) by {}
    while i < more.len()
        invariant
            i <= more@.len(),
            ports_ascend(v@),
            forall|q: u16| #[trigger]
                v@.contains(q) <==> old(v)@.contains(q) || more@.take(i as int).contains(q),
        decreases more@.len() - i,
    {
        let ghost before = v@;
        insert_port(v, more[i]);
        proof {
            let t = more@.take(i + 1);
            let t0 = more@.take(i as int);
            assert(t =~= t0.push(more@[i as int]));
            assert forall|q: u16| #[trigger] v@.contains(q) <==> old(v)@.contains(q) || t.contains(
                q,
            ) by {
                assert(t.contains(q) <==> t0.contains(q) || q == more@[i as int]) by {
                    if t0.contains(q) {
                        let k = choose|k: int| 0 <= k < t0.len() && t0[k] == q;
                        assert(t[k] == q);
                    }
                    if q == more@[i as int] {
                        assert(t[i as int] == q);
                    }
                    if t.contains(q) && q != more@[i as int] {
                        let k = choose|k: int| 0 <= k < t.len() && t[k] == q;
                        assert(t0[k] == q);
                    }
                }
                assert(before.contains(q) <==> old(v)@.contains(q) || t0.contains(q));
            }
        }
        i += 1;
    }
    assert(more@.take(i as int) =~= more@);
}

/// The ports of two lists, in order, each once.
pub fn merge_dedup_ports(a: &Vec<u16>, b: &Vec<u16>) -> (r: Vec<u16>)
    ensures
        is_port_union(r@, a@, b@),
{
    let mut r: Vec<u16> = Vec::new();
    insert_ports(&mut r, a);
    insert_ports(&mut r, b);
    r
}

/// The union of two lists of ports is unique and does not depend on their order.
pub proof fn law_port_union_is_unique(r: Seq<u16>, s: Seq<u16>, a: Seq<u16>, b: Seq<u16>)
    requires
        is_port_union(r, a, b),
        is_port_union(s, b, a),
    ensures
        r == s,
{
    lemma_same_ports(r, s);
}

proof fn lemma_same_ports(r: Seq<u16>, s: Seq<u16>)
    requires
        ports_ascend(r),
        ports_ascend(s),
        forall|p: u16| #[trigger] r.contains(p) <==> s.contains(p),
    ensures
        r == s,
    decreases r.len(),
{
    if r.len() == 0 {
        if s.len() > 0 {
            assert(s.contains(s[0]));
            assert(r.contains(s[0]));
        }
        assert(r =~= s);
    } else {
        let n = r.len() - 1;
        assert(r.contains(r[n as int]));
        assert(s.contains(r[n as int]));
        let m = s.len() - 1;
        assert(s.contains(s[m as int]));
        assert(r.contains(s[m as int]));
        let i = choose|i: int| 0 <= i < s.len() && s[i] == r[n as int];
        let j = choose|j: int| 0 <= j < r.len() && r[j] == s[m as int];
        assert(r[n as int] == s[m as int]) by {
            if i < m {
                assert(s[i] < s[m as int]);
            }
            if j < n {
                assert(r[j] < r[n as int]);
            }
        }
        let r0 = r.drop_last();
        let s0 = s.drop_last();
        assert forall|p: u16| #[trigger] r0.contains(p) <==> s0.contains(p) by {
            if r0.contains(p) {
                let k = choose|k: int| 0 <= k < r0.len() && r0[k] == p;
                assert(r[k] == p && r[k] < r[n as int]);
                assert(r.contains(p));
                assert(s.contains(p));
                let l = choose|l: int| 0 <= l < s.len() && s[l] == p;
                assert(s0[l] == p);
            }
            if s0.contains(p) {
                let k = choose|k: int| 0 <= k < s0.len() && s0[k] == p;
                assert(s[k] == p && s[k] < s[m as int]);
                assert(s.contains(p));
                assert(r.contains(p));
                let l = choose|l: int| 0 <= l < r.len() && r[l] == p;
                assert(r0[l] == p);
            }
        }
        lemma_same_ports(r0, s0);
        assert(r =~= r0.push(r[n as int]));
        assert(s =~= s0.push(s[m as int]));
    }
}

// ---------------------------------------------------------------------------
// Launch options
// ---------------------------------------------------------------------------

/// How the proxy of a run is started.
#[derive(Debug)]
pub struct ProxyLaunchOptions {
    pub active: bool,
    pub network_profile: Option<String>,
    pub allow_domain: Vec<String>,
    pub credentials: Vec<String>,
    pub custom_credentials: Vec<(String, CustomCredentialDef)>,
    pub upstream_proxy: Option<String>,
    pub upstream_bypass: Vec<String>,
    pub allow_bind_ports: Vec<u16>,
    pub proxy_port: Option<u16>,
    pub open_url_origins: Vec<String>,
    pub open_url_allow_localhost: bool,
    pub allow_launch_services_active: bool,
}

pub open spec fn upstream(args: ProxyArgs, prepared: PreparedNetwork) -> Option<Seq<char>> {
    if args.allow_net {
        None
    } else if args.external_proxy is Some {
        opt_view(args.external_proxy)
    } else {
        opt_view(prepared.upstream_proxy)
    }
}

/// The hosts that are reached without the upstream proxy: a proxy on the command line does not
/// inherit those of the profile.
pub open spec fn bypass(args: ProxyArgs, prepared: PreparedNetwork) -> Seq<Seq<char>> {
    if args.allow_net {
        Seq::empty()
    } else if args.external_proxy is Some {
        views(args.external_proxy_bypass@)
    } else {
        views(prepared.upstream_bypass@) + views(args.external_proxy_bypass@)
    }
}

/// Something asks for a proxy.
pub open spec fn wants_proxy(args: ProxyArgs, prepared: PreparedNetwork) -> bool {
    effective_credentials(args, prepared).len() > 0 || effective_profile(args, prepared) is Some
        || effective_domains(args, prepared).len() > 0 || upstream(args, prepared) is Some
}

/// The proxy runs: never where the network is blocked.
pub open spec fn proxy_active(args: ProxyArgs, prepared: PreparedNetwork) -> bool {
    prepared.network_mode != NetworkMode::Blocked && (prepared.network_mode
        == NetworkMode::ProxyOnly || wants_proxy(args, prepared))
}

/// The options that follow from the command line and the profile.
pub open spec fn launch_options(
    r: ProxyLaunchOptions,
    args: ProxyArgs,
    prepared: PreparedNetwork,
) -> bool {
    &&& r.active == proxy_active(args, prepared)
    &&& opt_view(r.network_profile) == effective_profile(args, prepared)
    &&& views(r.allow_domain@) == effective_domains(args, prepared)
    &&& views(r.credentials@) == effective_credentials(args, prepared)
    &&& same_credentials(r.custom_credentials@, prepared.custom_credentials@)
    &&& opt_view(r.upstream_proxy) == upstream(args, prepared)
    &&& views(r.upstream_bypass@) == bypass(args, prepared)
    &&& is_port_union(r.allow_bind_ports@, prepared.listen_ports@, args.allow_bind@)
    &&& r.proxy_port == args.proxy_port
    &&& views(r.open_url_origins@) == views(prepared.open_url_origins@)
    &&& r.open_url_allow_localhost == prepared.open_url_allow_localhost
    &&& r.allow_launch_services_active == prepared.allow_launch_services_active
}

/// Decides how the proxy is started; with the warning where settings are ignored because the
/// network is blocked, unless nothing is to be said.
pub fn prepare_proxy_launch_options(args: &ProxyArgs, prepared: &PreparedNetwork, silent: bool) -> (r: (
    ProxyLaunchOptions,
    Option<String>,
))
    ensures
        launch_options(r.0, *args, *prepared),
        r.1 is Some <==> prepared.network_mode == NetworkMode::Blocked && wants_proxy(
            *args,
            *prepared,
        ) && !silent,
        r.1 is Some ==> (r.1->0)@
            == "  [nono] Warning: --block-net overrides proxy/credential settings. Network remains fully blocked."@,
{
    let settings = resolve_effective_proxy_settings(args, prepared);
    let allow_bind_ports = merge_dedup_ports(&prepared.listen_ports, &args.allow_bind);
    let upstream_proxy = if args.allow_net {
        None
    } else {
        match &args.external_proxy {
            Some(p) => Some(copy_str(p.as_str())),
            None => clone_opt_string(&prepared.upstream_proxy),
        }
    };
    let upstream_bypass = if args.allow_net {
        no_strings()
    } else if args.external_proxy.is_some() {
        clone_strings(&args.external_proxy_bypass)
    } else {
        both_lists(&prepared.upstream_bypass, &args.external_proxy_bypass)
    };
    proof {
        assert(views(settings.credentials@).len() == settings.credentials@.len());
        assert(views(settings.allow_domain@).len() == settings.allow_domain@.len());
    }
    let wanted = settings.credentials.len() > 0 || settings.network_profile.is_some()
        || settings.allow_domain.len() > 0 || upstream_proxy.is_some();
    let blocked = prepared.network_mode == NetworkMode::Blocked;
    let warning = if blocked && wanted && !silent {
        Some(
            copy_str(
                "  [nono] Warning: --block-net overrides proxy/credential settings. Network remains fully blocked.",
            ),
        )
    } else {
        None
    };
    let active = !blocked && (prepared.network_mode == NetworkMode::ProxyOnly || wanted);
    let options = ProxyLaunchOptions {
        active,
        network_profile: settings.network_profile,
        allow_domain: settings.allow_domain,
        credentials: settings.credentials,
        custom_credentials: clone_credentials(&prepared.custom_credentials),
        upstream_proxy,
        upstream_bypass,
        allow_bind_ports,
        proxy_port: args.proxy_port,
        open_url_origins: clone_strings(&prepared.open_url_origins),
        open_url_allow_localhost: prepared.open_url_allow_localhost,
        allow_launch_services_active: prepared.allow_launch_services_active,
    };
    (options, warning)
}

/// Where the network is blocked no setting starts the proxy, and an open network drops every
/// setting that would.
pub proof fn law_no_proxy_against_the_mode(args: ProxyArgs, prepared: PreparedNetwork)
    ensures
        prepared.network_mode == NetworkMode::Blocked ==> !proxy_active(args, prepared),
        args.allow_net ==> !wants_proxy(args, prepared),
{
}

// ---------------------------------------------------------------------------
// Configuration
// ---------------------------------------------------------------------------

/// The credentials of the network profile, then the others that are new.
pub open spec fn wanted_services(def: Option<NetworkProfileDef>, credentials: Seq<Seq<char>>) -> Seq<
    Seq<char>,
> {
    append_new(
        match def {
            Some(d) => views(d.credentials@),
            None => Seq::empty(),
        },
        credentials,
    )
}

/// The hosts of the network profile.
pub open spec fn profile_hosts(policy: NetworkPolicy, def: Option<NetworkProfileDef>) -> Seq<Seq<char>> {
    match def {
        Some(d) => sort_unique(all_hosts(policy.groups@, views(d.groups@))) + wildcards(
            sort_unique(all_suffixes(policy.groups@, views(d.groups@))),
        ),
        None => Seq::empty(),
    }
}

/// The network profile that the options name.
pub open spec fn named_profile(policy: NetworkPolicy, proxy: ProxyLaunchOptions) -> Option<
    NetworkProfileDef,
> {
    match proxy.network_profile {
        Some(n) => lookup(policy.profiles@, n@),
        None => None,
    }
}

/// Why the proxy cannot be configured.
pub open spec fn config_failure(
    policy: NetworkPolicy,
    proxy: ProxyLaunchOptions,
    checks: CredentialChecks,
) -> Option<ErrorView> {
    let def = named_profile(policy, proxy);
    if proxy.network_profile is Some && def is None {
        Some(
            ErrorView::ConfigParse(
                "Network profile '"@ + (proxy.network_profile->0)@ + "' not found in policy"@,
            ),
        )
    } else if def is Some && first_missing(policy.groups@, views((def->0).groups@))
        < (def->0).groups@.len() {
        Some(
            missing_group_failure(
                views((def->0).groups@)[first_missing(policy.groups@, views((def->0).groups@))],
            ),
        )
    } else {
        match resolved_credentials(
            policy,
            wanted_services(def, views(proxy.credentials@)),
            proxy.custom_credentials@,
            checks,
        ) {
            Err(e) => Some(e),
            Ok(_) => None,
        }
    }
}

/// The configuration that the options ask for.
pub open spec fn config_is(
    c: ProxyConfig,
    policy: NetworkPolicy,
    proxy: ProxyLaunchOptions,
    checks: CredentialChecks,
) -> bool {
    let def = named_profile(policy, proxy);
    &&& views(c.allowed_hosts@) == profile_hosts(policy, def) + entries_hosts(
        policy.groups@,
        views(proxy.allow_domain@),
    )
    &&& resolved_credentials(
        policy,
        wanted_services(def, views(proxy.credentials@)),
        proxy.custom_credentials@,
        checks,
    ) == Ok::<Seq<RouteView>, ErrorView>(route_views(c.routes@))
    &&& match c.external_proxy {
        Some(e) => opt_view(proxy.upstream_proxy) == Some(e.address@) && views(e.bypass_hosts@)
            == views(proxy.upstream_bypass@),
        None => proxy.upstream_proxy is None,
    }
    &&& c.bind_port == proxy.proxy_port
}

/// Configures the proxy.
pub fn build_proxy_config_from_flags(
    policy: &NetworkPolicy,
    proxy: &ProxyLaunchOptions,
    checks: &CredentialChecks,
) -> (r: Result<ProxyConfig, NonoError>)
    ensures
        match r {
            Ok(c) => config_failure(*policy, *proxy, *checks) is None && config_is(
                c,
                *policy,
                *proxy,
                *checks,
            ),
            Err(e) => config_failure(*policy, *proxy, *checks) == Some(e@),
        },
{
    let ghost def = named_profile(*policy, *proxy);
    let mut resolved = match &proxy.network_profile {
        Some(n) => match resolve_network_profile(policy, n.as_str()) {
            Ok(p) => p,
            Err(e) => {
                return Err(e);
            },
        },
        None => ResolvedNetworkPolicy {
            hosts: no_strings(),
            suffixes: no_strings(),
            routes: Vec::new(),
            profile_credentials: no_strings(),
        },
    };
    let mut services = clone_strings(&resolved.profile_credentials);
    push_new(&mut services, &proxy.credentials);
    assert(views(services@) == wanted_services(def, views(proxy.credentials@)));
    let routes = match resolve_credentials(policy, &services, &proxy.custom_credentials, checks) {
        Ok(v) => v,
        Err(e) => {
            return Err(e);
        },
    };
    resolved.routes = routes;
    let extra = expand_proxy_allow(policy, &proxy.allow_domain);
    let mut config = build_proxy_config(&resolved, &extra);
    proof {
        assert(wildcards(Seq::<Seq<char>>::empty()) =~= Seq::<Seq<char>>::empty());
        assert(views(config.allowed_hosts@) =~= profile_hosts(*policy, def) + entries_hosts(
            policy.groups@,
            views(proxy.allow_domain@),
        ));
    }
    if let Some(address) = &proxy.upstream_proxy {
        config.external_proxy = Some(
            ExternalProxyConfig {
                address: copy_str(address.as_str()),
                bypass_hosts: clone_strings(&proxy.upstream_bypass),
            },
        );
    }
    if let Some(port) = proxy.proxy_port {
        config.bind_port = Some(port);
    }
    Ok(config)
}

// ---------------------------------------------------------------------------
// Starting
// ---------------------------------------------------------------------------

/// A number in decimal, filled up with zeros to a width.
pub open spec fn zero_filled(n: nat, width: nat) -> Seq<char> {
    if decimal(n).len() >= width {
        decimal(n)
    } else {
        Seq::new((width - decimal(n).len()) as nat, |i: int| '0') + decimal(n)
    }
}

fn zero_fill(n: u32, width: usize) -> (r: String)
    ensures
        r@ == zero_filled(n as nat, width as nat),
{
    let digits = u64_to_string(n as u64);
    let v = chars_of(digits.as_str());
    if v.len() >= width {
        return digits;
    }
    let missing: usize = width - v.len();
    let mut zeros = String::new();
    let mut i: usize = 0;
    while i < missing
        invariant
            i <= missing,
            zeros@ == Seq::new(i as nat, |k: int| '0'),
        decreases missing - i,
    {
        zeros.push('0');
        i += 1;
        assert(zeros@ =~= Seq::new(i as nat, |k: int| '0'));
    }
    concat2(zeros.as_str(), digits.as_str())
}

/// The directory for the trust bundle of a session.
pub open spec fn session_dir(home: Seq<char>, process: u32, nanos: u32) -> Seq<char> {
    joined(
        joined(joined(home, ".nono"@), "sessions"@),
        "intercept-"@ + decimal(process as nat) + "-"@ + zero_filled(nanos as nat, 9),
    )
}

/// Where a session keeps its trust bundle. The process and the time keep sessions apart.
pub fn intercept_ca_dir(home: &str, process: u32, nanos: u32) -> (r: String)
    ensures
        r@ == session_dir(home@, process, nanos),
{
    let id = u64_to_string(process as u64);
    let tail = zero_fill(nanos, 9);
    let name = concat4("intercept-", id.as_str(), "-", tail.as_str());
    let a = path_join(home, ".nono");
    let b = path_join(a.as_str(), "sessions");
    path_join(b.as_str(), name.as_str())
}

/// The rules by which a sandboxed command may read the trust bundle although the directory around
/// it is closed, where the platform has such rules. `escaped` is the path as a rule writes it.
pub fn trust_bundle_rules(escaped: &str) -> (r: (String, String))
    ensures
        r.0@ == "(allow file-read-data (literal \""@ + escaped@ + "\"))"@,
        r.1@ == "(allow file-read-metadata (literal \""@ + escaped@ + "\"))"@,
{
    (
        concat3("(allow file-read-data (literal \"", escaped, "\"))"),
        concat3("(allow file-read-metadata (literal \"", escaped, "\"))"),
    )
}

} // verus!
