//! What goes through the proxy, entry by entry and host by host.

use crate::assoc::{has_key, lookup};
use crate::error::ErrorView;
use crate::network_policy::{
    all_suffixes, entries_hosts, entry_hosts, first_missing, first_unknown, groups_resolve_to,
    host_part, is_known, is_loopback, law_resolved_hosts, partitioned, port_suffix,
    resolved_credentials, service_route, service_routes, wildcards, AllowDomainEntry,
    CredentialChecks, CredentialDef, NetworkGroup, NetworkPolicy, ResolvedNetworkPolicy, RouteView,
};
use crate::profile::{rule_views, CustomCredentialDef, InjectMode};
use crate::text::{
    last_index, lemma_in_either, lemma_in_sorted, lemma_in_views, lemma_last_index,
    lemma_last_index_is, parse_number, views,
};
use vstd::prelude::*;

verus! {

// ---------------------------------------------------------------------------
// Hosts
// ---------------------------------------------------------------------------

/// A group has a host among its whole names.
pub open spec fn has_host(g: NetworkGroup, host: Seq<char>) -> bool {
    exists|k: int| 0 <= k < g.hosts@.len() && (#[trigger] g.hosts@[k])@ == host
}

/// A pattern stands for all hosts with one of the endings of a group: a star and the ending, with a
/// dot between them where it does not begin with one.
pub open spec fn has_pattern(g: NetworkGroup, pattern: Seq<char>) -> bool {
    exists|k: int|
        0 <= k < g.suffixes@.len() && ({
            let suffix = (#[trigger] g.suffixes@[k])@;
            if suffix.len() > 0 && suffix[0] == '.' {
                pattern == "*"@ + suffix
            } else {
                pattern == "*."@ + suffix
            }
        })
}

/// An entry is a host with a colon and a port behind it.
pub open spec fn is_host_with_port(entry: Seq<char>, host: Seq<char>) -> bool {
    exists|port: Seq<char>|
        entry == #[trigger] (host + ":"@ + port) && !port.contains(':') && parse_number(
            port,
            65535,
        ) is Some
}

/// An entry lets a host through.
pub open spec fn entry_lets(groups: Seq<(String, NetworkGroup)>, entry: Seq<char>, host: Seq<char>) -> bool {
    match lookup(groups, entry) {
        Some(g) => has_host(g, host) || has_pattern(g, host),
        None => is_host_with_port(entry, host) || (host == entry && forall|other: Seq<char>|
            !is_host_with_port(entry, other)),
    }
}

proof fn lemma_patterns(g: NetworkGroup, host: Seq<char>)
    ensures
        wildcards(views(g.suffixes@)).contains(host) == has_pattern(g, host),
{
    let w = wildcards(views(g.suffixes@));
    if w.contains(host) {
        let k = choose|k: int| 0 <= k < w.len() && w[k] == host;
        assert(g.suffixes@[k]@ == views(g.suffixes@)[k]);
    }
    if has_pattern(g, host) {
        let k = choose|k: int|
            0 <= k < g.suffixes@.len() && ({
                let suffix = (#[trigger] g.suffixes@[k])@;
                if suffix.len() > 0 && suffix[0] == '.' {
                    host == "*"@ + suffix
                } else {
                    host == "*."@ + suffix
                }
            });
        assert(w[k] == host);
    }
}

proof fn lemma_port(entry: Seq<char>, host: Seq<char>)
    ensures
        is_host_with_port(entry, host) ==> port_suffix(entry) is Some && host_part(entry) == host,
        port_suffix(entry) is Some ==> is_host_with_port(entry, host_part(entry)),
{
    reveal_strlit(":");
    lemma_last_index(entry, ':');
    if is_host_with_port(entry, host) {
        let port = choose|port: Seq<char>|
            entry == #[trigger] (host + ":"@ + port) && !port.contains(':') && parse_number(
                port,
                65535,
            ) is Some;
        let n = host.len() as int;
        assert(entry[n] == ':');
        assert forall|i: int| n < i < entry.len() implies entry[i] != ':' by {
            assert(entry[i] == port[i - n - 1]);
            assert(port.contains(port[i - n - 1]));
        }
        lemma_last_index_is(entry, ':', n);
        assert(entry.skip(n + 1) =~= port);
        assert(entry.take(n) =~= host);
    }
    if port_suffix(entry) is Some {
        let n = last_index(entry, ':');
        let port = entry.skip(n + 1);
        assert(entry =~= entry.take(n) + ":"@ + port);
        assert forall|i: int| 0 <= i < port.len() implies port[i] != ':' by {
            assert(port[i] == entry[n + 1 + i]);
        }
    }
}

proof fn lemma_entry(groups: Seq<(String, NetworkGroup)>, entry: Seq<char>, host: Seq<char>)
    ensures
        entry_hosts(groups, entry).contains(host) == entry_lets(groups, entry, host),
{
    match lookup(groups, entry) {
        Some(g) => {
            lemma_in_either(views(g.hosts@), wildcards(views(g.suffixes@)), host);
            lemma_in_views(g.hosts@, host);
            lemma_patterns(g, host);
        },
        None => {
            let r = entry_hosts(groups, entry);
            assert(r.len() == 1 && r[0] == host_part(entry));
            lemma_port(entry, host);
            assert forall|other: Seq<char>| port_suffix(entry) is None implies !is_host_with_port(
                entry,
                other,
            ) by {
                lemma_port(entry, other);
            }
        },
    }
}

/// Entries let exactly those hosts through that one of them lets through: the name of a group its
/// hosts and the patterns for its endings, and any other entry the host that it names, without the
/// port.
pub proof fn law_entries_let_hosts_through(
    groups: Seq<(String, NetworkGroup)>,
    entries: Seq<Seq<char>>,
    host: Seq<char>,
)
    ensures
        entries_hosts(groups, entries).contains(host) <==> exists|i: int|
            0 <= i < entries.len() && entry_lets(groups, #[trigger] entries[i], host),
    decreases entries.len(),
{
    if entries.len() > 0 {
        let front = entries.drop_last();
        law_entries_let_hosts_through(groups, front, host);
        lemma_in_either(entries_hosts(groups, front), entry_hosts(groups, entries.last()), host);
        lemma_entry(groups, entries.last(), host);
        if exists|i: int| 0 <= i < front.len() && entry_lets(groups, #[trigger] front[i], host) {
            let i = choose|i: int|
                0 <= i < front.len() && entry_lets(groups, #[trigger] front[i], host);
            assert(entries[i] == front[i]);
        }
        if entry_lets(groups, entries.last(), host) {
            assert(entries[entries.len() - 1] == entries.last());
        }
        if exists|i: int| 0 <= i < entries.len() && entry_lets(groups, #[trigger] entries[i], host) {
            let i = choose|i: int|
                0 <= i < entries.len() && entry_lets(groups, #[trigger] entries[i], host);
            if i < front.len() {
                assert(front[i] == entries[i]);
            }
        }
    }
}

/// Resolving groups gives the hosts and the endings of all of them, and of no other; it fails
/// exactly where a name is that of no group.
pub proof fn law_groups_resolve_to_their_hosts(
    r: ResolvedNetworkPolicy,
    groups: Seq<(String, NetworkGroup)>,
    names: Seq<Seq<char>>,
    text: Seq<char>,
)
    requires
        groups_resolve_to(r, groups, names),
        forall|i: int| 0 <= i < names.len() ==> has_key(groups, #[trigger] names[i]),
    ensures
        (exists|k: int| 0 <= k < r.hosts@.len() && (#[trigger] r.hosts@[k])@ == text) <==> exists|
            i: int,
        |
            0 <= i < names.len() && has_host(lookup(groups, #[trigger] names[i])->0, text),
        (exists|k: int| 0 <= k < r.suffixes@.len() && (#[trigger] r.suffixes@[k])@ == text)
            <==> exists|i: int|
            0 <= i < names.len() && has_suffix_text(lookup(groups, #[trigger] names[i])->0, text),
        r.routes@.len() == 0,
{
    lemma_in_views(r.hosts@, text);
    lemma_in_views(r.suffixes@, text);
    law_resolved_hosts(groups, names, text);
    lemma_in_sorted(all_suffixes(groups, names), text);
    lemma_suffixes(groups, names, text);
    assert forall|i: int| 0 <= i < names.len() implies views(
        (lookup(groups, #[trigger] names[i])->0).hosts@,
    ).contains(text) == has_host(lookup(groups, names[i])->0, text) by {
        lemma_in_views((lookup(groups, names[i])->0).hosts@, text);
    }
}

pub open spec fn has_suffix_text(g: NetworkGroup, text: Seq<char>) -> bool {
    exists|k: int| 0 <= k < g.suffixes@.len() && (#[trigger] g.suffixes@[k])@ == text
}

pub proof fn lemma_suffixes(groups: Seq<(String, NetworkGroup)>, names: Seq<Seq<char>>, text: Seq<char>)
    ensures
        all_suffixes(groups, names).contains(text) <==> exists|i: int|
            0 <= i < names.len() && has_suffix_text(lookup(groups, #[trigger] names[i])->0, text),
    decreases names.len(),
{
    if names.len() > 0 {
        let front = names.drop_last();
        let g = lookup(groups, names.last())->0;
        lemma_suffixes(groups, front, text);
        lemma_in_either(all_suffixes(groups, front), views(g.suffixes@), text);
        lemma_in_views(g.suffixes@, text);
        if exists|i: int|
            0 <= i < front.len() && has_suffix_text(lookup(groups, #[trigger] front[i])->0, text) {
            let i = choose|i: int|
                0 <= i < front.len() && has_suffix_text(
                    lookup(groups, #[trigger] front[i])->0,
                    text,
                );
            assert(names[i] == front[i]);
        }
        if has_suffix_text(g, text) {
            assert(names[names.len() - 1] == names.last());
        }
        if exists|i: int|
            0 <= i < names.len() && has_suffix_text(lookup(groups, #[trigger] names[i])->0, text) {
            let i = choose|i: int|
                0 <= i < names.len() && has_suffix_text(
                    lookup(groups, #[trigger] names[i])->0,
                    text,
                );
            if i < front.len() {
                assert(front[i] == names[i]);
            }
        }
    }
}

/// The first name that is that of no group is the one that is reported.
pub proof fn law_first_missing_group(groups: Seq<(String, NetworkGroup)>, names: Seq<Seq<char>>)
    ensures
        ({
            let n = first_missing(groups, names);
            &&& 0 <= n <= names.len()
            &&& n < names.len() ==> !has_key(groups, names[n])
            &&& forall|i: int| 0 <= i < n ==> has_key(groups, #[trigger] names[i])
        }),
    decreases names.len(),
{
    if names.len() > 0 && has_key(groups, names[0]) {
        let rest = names.skip(1);
        law_first_missing_group(groups, rest);
        let n = first_missing(groups, rest);
        assert forall|i: int| 0 <= i < n + 1 implies has_key(groups, #[trigger] names[i]) by {
            if i > 0 {
                assert(rest[i - 1] == names[i]);
            }
        }
    }
}

/// The proxy for a resolved policy lets its hosts through, the patterns for its endings, and the
/// further hosts, and nothing else.
pub proof fn law_proxy_lets_policy_through(
    hosts: Seq<String>,
    suffixes: Seq<String>,
    extra: Seq<String>,
    g: NetworkGroup,
    host: Seq<char>,
)
    requires
        g.hosts@ == hosts,
        g.suffixes@ == suffixes,
    ensures
        (views(hosts) + wildcards(views(suffixes)) + views(extra)).contains(host) <==> has_host(
            g,
            host,
        ) || has_pattern(g, host) || exists|k: int|
            0 <= k < extra.len() && (#[trigger] extra[k])@ == host,
{
    lemma_in_either(views(hosts) + wildcards(views(suffixes)), views(extra), host);
    lemma_in_either(views(hosts), wildcards(views(suffixes)), host);
    lemma_in_views(hosts, host);
    lemma_in_views(extra, host);
    lemma_patterns(g, host);
}

// ---------------------------------------------------------------------------
// Domains with endpoints
// ---------------------------------------------------------------------------

/// The domain of an entry of which all requests pass.
pub open spec fn open_domain(e: AllowDomainEntry) -> Option<Seq<char>> {
    match e {
        AllowDomainEntry::Plain(host) => Some(host@),
        AllowDomainEntry::WithEndpoints { domain, endpoints } => if endpoints@.len() == 0 {
            Some(domain@)
        } else {
            None
        },
    }
}

/// A route lets the requests of an entry pass that its rules allow, and adds nothing to them.
pub open spec fn routes_entry(r: RouteView, e: AllowDomainEntry) -> bool {
    match e {
        AllowDomainEntry::Plain(_) => false,
        AllowDomainEntry::WithEndpoints { domain, endpoints } => {
            &&& endpoints@.len() > 0
            &&& r.prefix == "_ep_"@ + domain@
            &&& is_loopback(domain@) ==> r.upstream == "http://"@ + domain@
            &&& !is_loopback(domain@) ==> r.upstream == "https://"@ + domain@
            &&& domain@ == "localhost"@ ==> r.upstream == "http://localhost"@
            &&& r.endpoint_rules == rule_views(endpoints@)
            &&& r.credential_key is None
            &&& r.inject_mode == InjectMode::Header
            &&& r.inject_header == "Authorization"@
            &&& r.credential_format is None
            &&& r.proxy is None
            &&& r.env_var is None
            &&& r.oauth2 is None
            &&& r.tls_ca is None && r.tls_client_cert is None && r.tls_client_key is None
        },
    }
}

/// An entry that asks for endpoints and names no domain.
pub open spec fn nameless(e: AllowDomainEntry) -> bool {
    match e {
        AllowDomainEntry::Plain(_) => false,
        AllowDomainEntry::WithEndpoints { domain, endpoints } => endpoints@.len() > 0
            && domain@.len() == 0,
    }
}

proof fn lemma_schemes(domain: Seq<char>)
    ensures
        "http"@ + "://"@ + domain == "http://"@ + domain,
        "https"@ + "://"@ + domain == "https://"@ + domain,
        "http://"@ + "localhost"@ == "http://localhost"@,
{
    reveal_strlit("http");
    reveal_strlit("https");
    reveal_strlit("://");
    reveal_strlit("http://");
    reveal_strlit("https://");
    reveal_strlit("localhost");
    reveal_strlit("http://localhost");
    assert("http"@ + "://"@ + domain =~= "http://"@ + domain);
    assert("https"@ + "://"@ + domain =~= "https://"@ + domain);
    assert("http://"@ + "localhost"@ =~= "http://localhost"@);
}

/// Parting fails exactly where an entry asks for endpoints and names no domain. Otherwise the hosts
/// are those that the entries without endpoints let through, and each route belongs to an entry
/// with endpoints, in their order and one for each.
pub proof fn law_parted_entries(groups: Seq<(String, NetworkGroup)>, entries: Seq<AllowDomainEntry>, host: Seq<char>)
    ensures
        match partitioned(groups, entries) {
            Err(_) => exists|i: int| 0 <= i < entries.len() && nameless(#[trigger] entries[i]),
            Ok(p) => {
                &&& forall|i: int| 0 <= i < entries.len() ==> !nameless(#[trigger] entries[i])
                &&& p.0.contains(host) <==> exists|i: int|
                    0 <= i < entries.len() && open_domain(#[trigger] entries[i]) is Some
                        && entry_lets(groups, open_domain(entries[i])->0, host)
                &&& p.1.len() == entries.filter(|e: AllowDomainEntry| open_domain(e) is None).len()
                &&& forall|k: int|
                    0 <= k < p.1.len() ==> routes_entry(
                        #[trigger] p.1[k],
                        entries.filter(|e: AllowDomainEntry| open_domain(e) is None)[k],
                    )
            },
        },
    decreases entries.len(),
{
    let keep = |e: AllowDomainEntry| open_domain(e) is None;
    reveal(Seq::filter);
    if entries.len() > 0 {
        let front = entries.drop_last();
        let e = entries.last();
        law_parted_entries(groups, front, host);
        assert(entries[entries.len() - 1] == e);
        match partitioned(groups, front) {
            Err(_) => {
                let i = choose|i: int| 0 <= i < front.len() && nameless(#[trigger] front[i]);
                assert(entries[i] == front[i]);
            },
            Ok(p) => {
                if let Ok(q) = partitioned(groups, entries) {
                    assert forall|i: int| 0 <= i < entries.len() implies !nameless(
                        #[trigger] entries[i],
                    ) by {
                        if i < front.len() {
                            assert(front[i] == entries[i]);
                        }
                    }
                    if let Some(d) = open_domain(e) {
                        lemma_in_either(p.0, entry_hosts(groups, d), host);
                        lemma_entry(groups, d, host);
                    }
                    if exists|i: int|
                        0 <= i < front.len() && open_domain(#[trigger] front[i]) is Some
                            && entry_lets(groups, open_domain(front[i])->0, host) {
                        let i = choose|i: int|
                            0 <= i < front.len() && open_domain(#[trigger] front[i]) is Some
                                && entry_lets(groups, open_domain(front[i])->0, host);
                        assert(entries[i] == front[i]);
                    }
                    if exists|i: int|
                        0 <= i < entries.len() && open_domain(#[trigger] entries[i]) is Some
                            && entry_lets(groups, open_domain(entries[i])->0, host) {
                        let i = choose|i: int|
                            0 <= i < entries.len() && open_domain(#[trigger] entries[i]) is Some
                                && entry_lets(groups, open_domain(entries[i])->0, host);
                        if i < front.len() {
                            assert(front[i] == entries[i]);
                        }
                    }
                    if let AllowDomainEntry::WithEndpoints { domain, endpoints } = e {
                        lemma_schemes(domain@);
                    }
                    let old_kept = front.filter(keep);
                    let kept = entries.filter(keep);
                    assert(keep(e) ==> kept == old_kept.push(e));
                    assert(!keep(e) ==> kept == old_kept);
                }
            },
        }
    }
}

// ---------------------------------------------------------------------------
// Credentials
// ---------------------------------------------------------------------------

/// A path of a credential as the surroundings expand it.
pub open spec fn expands_to(
    path: Option<String>,
    checks: CredentialChecks,
    result: Option<Seq<char>>,
) -> bool {
    match path {
        None => result is None,
        Some(p) => match lookup(checks.expanded_paths@, p@) {
            Some(Ok(e)) => result == Some(e@),
            Some(Err(_)) => false,
            None => result == Some(p@),
        },
    }
}

pub open spec fn text_of(s: Option<String>) -> Option<Seq<char>> {
    match s {
        Some(x) => Some(x@),
        None => None,
    }
}

/// A route for a credential of the profile carries over all that the credential says.
pub open spec fn carries_custom(
    r: RouteView,
    name: Seq<char>,
    c: CustomCredentialDef,
    checks: CredentialChecks,
) -> bool {
    &&& r.prefix == name
    &&& r.upstream == c.upstream@
    &&& r.credential_key == text_of(c.credential_key)
    &&& r.inject_mode == c.inject_mode
    &&& r.inject_header == c.inject_header@
    &&& r.credential_format == text_of(c.credential_format)
    &&& r.path_pattern == text_of(c.path_pattern)
    &&& r.path_replacement == text_of(c.path_replacement)
    &&& r.query_param_name == text_of(c.query_param_name)
    &&& r.env_var == text_of(c.env_var)
    &&& r.endpoint_rules == rule_views(c.endpoint_rules@)
    &&& expands_to(c.tls_ca, checks, r.tls_ca)
    &&& expands_to(c.tls_client_cert, checks, r.tls_client_cert)
    &&& expands_to(c.tls_client_key, checks, r.tls_client_key)
    &&& r.oauth2 is Some <==> c.auth is Some
}

/// A route for a credential of the program puts its key, or else the name of the service, into a
/// header.
pub open spec fn carries_builtin(r: RouteView, name: Seq<char>, c: CredentialDef) -> bool {
    &&& r.prefix == name
    &&& r.upstream == c.upstream@
    &&& c.credential_key is Some ==> r.credential_key == Some((c.credential_key->0)@)
    &&& c.credential_key is None ==> r.credential_key == Some(name)
    &&& r.inject_mode == InjectMode::Header
    &&& r.inject_header == c.inject_header@
    &&& r.credential_format == text_of(c.credential_format)
    &&& r.env_var == text_of(c.env_var)
    &&& r.endpoint_rules == rule_views(c.endpoint_rules@)
    &&& r.path_pattern is None && r.path_replacement is None && r.query_param_name is None
    &&& r.proxy is None && r.oauth2 is None
    &&& r.tls_ca is None && r.tls_client_cert is None && r.tls_client_key is None
}

/// A variable that may not carry a credential.
pub open spec fn rejected(v: Option<String>, checks: CredentialChecks) -> bool {
    v is Some && has_key(checks.rejected_env_vars@, (v->0)@)
}

/// Each requested service gets the route for its credential, that of the profile before that of the
/// program; and none is named that neither knows, or whose variable may not carry a credential.
pub proof fn law_routes_carry_credentials(
    policy: NetworkPolicy,
    names: Seq<Seq<char>>,
    custom: Seq<(String, CustomCredentialDef)>,
    checks: CredentialChecks,
    i: int,
)
    requires
        resolved_credentials(policy, names, custom, checks) is Ok,
        0 <= i < names.len(),
    ensures
        (resolved_credentials(policy, names, custom, checks)->Ok_0).len() == names.len(),
        ({
            let r = (resolved_credentials(policy, names, custom, checks)->Ok_0)[i];
            match lookup(custom, names[i]) {
                Some(c) => carries_custom(r, names[i], c, checks) && !rejected(c.env_var, checks),
                None => match lookup(policy.credentials@, names[i]) {
                    Some(c) => carries_builtin(r, names[i], c) && !rejected(c.env_var, checks),
                    None => false,
                },
            }
        }),
{
    law_first_unknown_service(policy, custom, names);
    assert(is_known(policy, custom, names[i]));
    lemma_route_of(policy, names, custom, checks, i);
}

proof fn lemma_route_of(
    policy: NetworkPolicy,
    names: Seq<Seq<char>>,
    custom: Seq<(String, CustomCredentialDef)>,
    checks: CredentialChecks,
    i: int,
)
    requires
        service_routes(policy, custom, names, checks) is Ok,
        0 <= i < names.len(),
    ensures
        (service_routes(policy, custom, names, checks)->Ok_0).len() == names.len(),
        service_route(policy, custom, names[i], checks) == Ok::<RouteView, ErrorView>(
            (service_routes(policy, custom, names, checks)->Ok_0)[i],
        ),
    decreases names.len(),
{
    let front = names.drop_last();
    if front.len() > 0 {
        lemma_route_of(
            policy,
            front,
            custom,
            checks,
            if i < front.len() {
                i
            } else {
                0
            },
        );
    }
    if front.len() == 0 {
        assert(service_routes(policy, custom, front, checks) == Ok::<Seq<RouteView>, ErrorView>(
            Seq::empty(),
        ));
    }
    if i < front.len() {
        assert(front[i] == names[i]);
    }
}

/// The first service that neither the profile nor the program knows is the one that is reported.
pub proof fn law_first_unknown_service(
    policy: NetworkPolicy,
    custom: Seq<(String, CustomCredentialDef)>,
    names: Seq<Seq<char>>,
)
    ensures
        ({
            let n = first_unknown(policy, custom, names);
            &&& 0 <= n <= names.len()
            &&& n < names.len() ==> !has_key(custom, names[n]) && !has_key(
                policy.credentials@,
                names[n],
            )
            &&& forall|i: int|
                0 <= i < n ==> has_key(custom, #[trigger] names[i]) || has_key(
                    policy.credentials@,
                    names[i],
                )
        }),
    decreases names.len(),
{
    if names.len() > 0 && is_known(policy, custom, names[0]) {
        let rest = names.skip(1);
        law_first_unknown_service(policy, custom, rest);
        let n = first_unknown(policy, custom, rest);
        assert forall|i: int| 0 <= i < n + 1 implies has_key(custom, #[trigger] names[i])
            || has_key(policy.credentials@, names[i]) by {
            if i > 0 {
                assert(rest[i - 1] == names[i]);
            }
        }
    }
}

} // verus!
