//! What the proxy of a run does, in terms of the command line and the profile.

use crate::assoc::lookup;
use crate::capability::NetworkMode;
use crate::network_policy::laws::{entry_lets, has_host, has_pattern, law_entries_let_hosts_through};
use crate::network_policy::{
    all_hosts, all_suffixes, entries_hosts, law_resolved_hosts, wildcards, CredentialChecks,
    NetworkPolicy, ProxyConfig,
};
use crate::proxy_runtime::{
    config_is, launch_options, named_profile, profile_hosts, wanted_services, PreparedNetwork,
    ProxyArgs, ProxyLaunchOptions,
};
use crate::text::{append_new, lemma_in_either, lemma_in_views, sort_unique, views};
use vstd::prelude::*;

verus! {

/// A list of strings has a text.
pub open spec fn has_text(v: Seq<String>, x: Seq<char>) -> bool {
    exists|i: int| 0 <= i < v.len() && (#[trigger] v[i])@ == x
}

pub open spec fn same_text(a: Option<String>, b: Option<String>) -> bool {
    match (a, b) {
        (Some(x), Some(y)) => x@ == y@,
        (None, None) => true,
        _ => false,
    }
}

proof fn lemma_sum(r: Seq<String>, a: Seq<String>, b: Seq<String>, x: Seq<char>)
    requires
        views(r) == views(a) + views(b),
    ensures
        has_text(r, x) <==> has_text(a, x) || has_text(b, x),
        r.len() == a.len() + b.len(),
{
    lemma_in_views(r, x);
    lemma_in_views(a, x);
    lemma_in_views(b, x);
    lemma_in_either(views(a), views(b), x);
    assert(views(r).len() == r.len());
}

/// The proxy has the domains and credentials of the profile and of the command line together; a
/// network profile or an upstream proxy on the command line takes the place of the profile's. An
/// open network drops all of them. Listening is allowed on the ports of both.
pub proof fn law_settings_come_from_both(
    r: ProxyLaunchOptions,
    args: ProxyArgs,
    prepared: PreparedNetwork,
    x: Seq<char>,
    port: u16,
)
    requires
        launch_options(r, args, prepared),
    ensures
        has_text(r.allow_domain@, x) <==> !args.allow_net && (has_text(prepared.allow_domain@, x)
            || has_text(args.allow_proxy@, x)),
        has_text(r.credentials@, x) <==> !args.allow_net && (has_text(prepared.credentials@, x)
            || has_text(args.proxy_credential@, x)),
        args.allow_net ==> r.network_profile is None && r.upstream_proxy is None
            && r.upstream_bypass@.len() == 0,
        !args.allow_net && args.network_profile is Some ==> same_text(
            r.network_profile,
            args.network_profile,
        ),
        !args.allow_net && args.network_profile is None ==> same_text(
            r.network_profile,
            prepared.network_profile,
        ),
        !args.allow_net && args.external_proxy is Some ==> same_text(
            r.upstream_proxy,
            args.external_proxy,
        ) && (has_text(r.upstream_bypass@, x) <==> has_text(args.external_proxy_bypass@, x)),
        !args.allow_net && args.external_proxy is None ==> same_text(
            r.upstream_proxy,
            prepared.upstream_proxy,
        ) && (has_text(r.upstream_bypass@, x) <==> has_text(prepared.upstream_bypass@, x)
            || has_text(args.external_proxy_bypass@, x)),
        r.allow_bind_ports@.contains(port) <==> prepared.listen_ports@.contains(port)
            || args.allow_bind@.contains(port),
        r.proxy_port == args.proxy_port,
        has_text(r.open_url_origins@, x) <==> has_text(prepared.open_url_origins@, x),
        r.open_url_allow_localhost == prepared.open_url_allow_localhost,
        r.allow_launch_services_active == prepared.allow_launch_services_active,
{
    lemma_in_views(r.allow_domain@, x);
    lemma_in_views(r.credentials@, x);
    lemma_in_views(r.upstream_bypass@, x);
    lemma_in_views(r.open_url_origins@, x);
    lemma_in_views(prepared.open_url_origins@, x);
    lemma_in_views(args.external_proxy_bypass@, x);
    assert(views(r.upstream_bypass@).len() == r.upstream_bypass@.len());
    if !args.allow_net {
        lemma_sum(r.allow_domain@, prepared.allow_domain@, args.allow_proxy@, x);
        lemma_sum(r.credentials@, prepared.credentials@, args.proxy_credential@, x);
        if args.external_proxy is None {
            lemma_sum(r.upstream_bypass@, prepared.upstream_bypass@, args.external_proxy_bypass@, x);
        }
    }
}

/// The proxy runs exactly where the network is neither blocked nor left open: the mode asks for it,
/// or the mode leaves the network open and some setting needs it.
pub proof fn law_proxy_runs_where_needed(r: ProxyLaunchOptions, args: ProxyArgs, prepared: PreparedNetwork)
    requires
        launch_options(r, args, prepared),
    ensures
        prepared.network_mode == NetworkMode::Blocked ==> !r.active,
        prepared.network_mode == NetworkMode::ProxyOnly ==> r.active,
        prepared.network_mode == NetworkMode::AllowAll ==> (r.active <==> r.credentials@.len() > 0
            || r.network_profile is Some || r.allow_domain@.len() > 0 || r.upstream_proxy is Some),
{
    assert(views(r.credentials@).len() == r.credentials@.len());
    assert(views(r.allow_domain@).len() == r.allow_domain@.len());
}

/// The network profile that is asked for has a host, or a pattern of it, in one of its groups.
pub open spec fn profile_lets(policy: NetworkPolicy, proxy: ProxyLaunchOptions, host: Seq<char>) -> bool {
    proxy.network_profile is Some && match lookup(policy.profiles@, (proxy.network_profile->0)@) {
        None => false,
        Some(d) => exists|i: int|
            0 <= i < d.groups@.len() && ({
                let g = lookup(policy.groups@, (#[trigger] d.groups@[i])@)->0;
                has_host(g, host) || has_pattern(g, host)
            }),
    }
}

/// The proxy lets a host through exactly where the network profile does or an allowed domain does.
/// It goes through the upstream proxy that is asked for, and listens on the port that is asked for.
pub proof fn law_configured_proxy(
    c: ProxyConfig,
    policy: NetworkPolicy,
    proxy: ProxyLaunchOptions,
    checks: CredentialChecks,
    host: Seq<char>,
)
    requires
        config_is(c, policy, proxy, checks),
    ensures
        has_text(c.allowed_hosts@, host) <==> profile_lets(policy, proxy, host) || exists|i: int|
            0 <= i < proxy.allow_domain@.len() && entry_lets(
                policy.groups@,
                (#[trigger] proxy.allow_domain@[i])@,
                host,
            ),
        c.external_proxy is Some <==> proxy.upstream_proxy is Some,
        c.external_proxy is Some ==> (c.external_proxy->0).address@ == (proxy.upstream_proxy->0)@
            && (has_text((c.external_proxy->0).bypass_hosts@, host) <==> has_text(
            proxy.upstream_bypass@,
            host,
        )),
        c.bind_port == proxy.proxy_port,
{
    let def = named_profile(policy, proxy);
    let entries = views(proxy.allow_domain@);
    lemma_in_views(c.allowed_hosts@, host);
    lemma_in_either(profile_hosts(policy, def), entries_hosts(policy.groups@, entries), host);
    law_entries_let_hosts_through(policy.groups@, entries, host);
    if c.external_proxy is Some {
        lemma_in_views((c.external_proxy->0).bypass_hosts@, host);
        lemma_in_views(proxy.upstream_bypass@, host);
    }
    if exists|i: int| 0 <= i < entries.len() && entry_lets(policy.groups@, #[trigger] entries[i], host) {
        let i = choose|i: int|
            0 <= i < entries.len() && entry_lets(policy.groups@, #[trigger] entries[i], host);
        assert(entry_lets(policy.groups@, proxy.allow_domain@[i]@, host));
    }
    if exists|i: int|
        0 <= i < proxy.allow_domain@.len() && entry_lets(
            policy.groups@,
            (#[trigger] proxy.allow_domain@[i])@,
            host,
        ) {
        let i = choose|i: int|
            0 <= i < proxy.allow_domain@.len() && entry_lets(
                policy.groups@,
                (#[trigger] proxy.allow_domain@[i])@,
                host,
            );
        assert(entries[i] == proxy.allow_domain@[i]@);
        assert(entry_lets(policy.groups@, entries[i], host));
    }
    if let Some(d) = def {
        let names = views(d.groups@);
        let hosts = sort_unique(all_hosts(policy.groups@, names));
        let endings = sort_unique(all_suffixes(policy.groups@, names));
        lemma_in_either(hosts, wildcards(endings), host);
        law_resolved_hosts(policy.groups@, names, host);
        lemma_patterns(policy, names, host);
        assert forall|i: int| 0 <= i < names.len() implies views(
            (lookup(policy.groups@, #[trigger] names[i])->0).hosts@,
        ).contains(host) == has_host(lookup(policy.groups@, names[i])->0, host) by {
            lemma_in_views((lookup(policy.groups@, names[i])->0).hosts@, host);
        }
        assert forall|i: int| 0 <= i < names.len() implies names[i] == (#[trigger] d.groups@[i])@ by {}
        if hosts.contains(host) {
            let i = choose|i: int|
                0 <= i < names.len() && views(
                    (lookup(policy.groups@, #[trigger] names[i])->0).hosts@,
                ).contains(host);
            assert(has_host(lookup(policy.groups@, d.groups@[i]@)->0, host));
        }
        if wildcards(endings).contains(host) {
            let i = choose|i: int|
                0 <= i < names.len() && has_pattern(
                    lookup(policy.groups@, #[trigger] names[i])->0,
                    host,
                );
            assert(has_pattern(lookup(policy.groups@, d.groups@[i]@)->0, host));
        }
        if profile_lets(policy, proxy, host) {
            let i = choose|i: int|
                0 <= i < d.groups@.len() && ({
                    let g = lookup(policy.groups@, (#[trigger] d.groups@[i])@)->0;
                    has_host(g, host) || has_pattern(g, host)
                });
            assert(names[i] == d.groups@[i]@);
        }
    }
}

proof fn lemma_patterns(policy: NetworkPolicy, names: Seq<Seq<char>>, host: Seq<char>)
    ensures
        wildcards(sort_unique(all_suffixes(policy.groups@, names))).contains(host) <==> exists|
            i: int,
        |
            0 <= i < names.len() && has_pattern(
                lookup(policy.groups@, #[trigger] names[i])->0,
                host,
            ),
{
    let endings = sort_unique(all_suffixes(policy.groups@, names));
    let w = wildcards(endings);
    if w.contains(host) {
        let k = choose|k: int| 0 <= k < w.len() && w[k] == host;
        let e = endings[k];
        assert(endings.contains(e));
        crate::network_policy::laws::lemma_suffixes(policy.groups@, names, e);
        crate::text::lemma_in_sorted(all_suffixes(policy.groups@, names), e);
        let i = choose|i: int|
            0 <= i < names.len() && crate::network_policy::laws::has_suffix_text(
                lookup(policy.groups@, #[trigger] names[i])->0,
                e,
            );
        let g = lookup(policy.groups@, names[i])->0;
        let n = choose|n: int| 0 <= n < g.suffixes@.len() && (#[trigger] g.suffixes@[n])@ == e;
        assert(g.suffixes@[n]@ == e);
        assert(has_pattern(g, host));
    }
    if exists|i: int|
        0 <= i < names.len() && has_pattern(lookup(policy.groups@, #[trigger] names[i])->0, host) {
        let i = choose|i: int|
            0 <= i < names.len() && has_pattern(lookup(policy.groups@, #[trigger] names[i])->0, host);
        let g = lookup(policy.groups@, names[i])->0;
        let n = choose|n: int|
            0 <= n < g.suffixes@.len() && ({
                let suffix = (#[trigger] g.suffixes@[n])@;
                if suffix.len() > 0 && suffix[0] == '.' {
                    host == "*"@ + suffix
                } else {
                    host == "*."@ + suffix
                }
            });
        let e = g.suffixes@[n]@;
        assert(crate::network_policy::laws::has_suffix_text(g, e));
        crate::network_policy::laws::lemma_suffixes(policy.groups@, names, e);
        crate::text::lemma_in_sorted(all_suffixes(policy.groups@, names), e);
        let k = choose|k: int| 0 <= k < endings.len() && endings[k] == e;
        assert(w[k] == host);
    }
}

/// The services whose credentials are wanted are those of the network profile and those that are
/// asked for.
pub proof fn law_wanted_services(policy: NetworkPolicy, proxy: ProxyLaunchOptions, x: Seq<char>)
    ensures
        wanted_services(named_profile(policy, proxy), views(proxy.credentials@)).contains(x)
            <==> has_text(proxy.credentials@, x) || (proxy.network_profile is Some && (match lookup(
            policy.profiles@,
            (proxy.network_profile->0)@,
        ) {
            Some(d) => has_text(d.credentials@, x),
            None => false,
        })),
{
    let def = named_profile(policy, proxy);
    let own = match def {
        Some(d) => views(d.credentials@),
        None => Seq::empty(),
    };
    lemma_append(own, views(proxy.credentials@), x);
    lemma_in_views(proxy.credentials@, x);
    if let Some(d) = def {
        lemma_in_views(d.credentials@, x);
    }
}

proof fn lemma_append(a: Seq<Seq<char>>, b: Seq<Seq<char>>, x: Seq<char>)
    ensures
        append_new(a, b).contains(x) <==> a.contains(x) || b.contains(x),
    decreases b.len(),
{
    if b.len() > 0 {
        let front = b.drop_last();
        lemma_append(a, front, x);
        let r = append_new(a, front);
        lemma_in_either(front, seq![b.last()], x);
        assert(front + seq![b.last()] =~= b);
        assert(seq![b.last()].contains(x) <==> x == b.last()) by {
            assert(seq![b.last()][0] == b.last());
        }
        lemma_in_either(r, seq![b.last()], x);
        assert(r + seq![b.last()] =~= r.push(b.last()));
    }
}

} // verus!
