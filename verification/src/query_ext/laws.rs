//! What the answers to queries say, in terms of what was asked.

use crate::capability::{AccessMode, FsCapability, NetworkMode};
use crate::paths::{parent_path, path_within, same_path};
use crate::query_ext::{
    answer_lines, best_grant, counts, covered_by_any, is_best, network_answer, none_counts,
    path_answer, scope_answer, specificity, suggestion, PathFacts, QueryView, ScopePolicy,
    ScopeQuery, SensitiveMatch,
};
use crate::report::Style;
use vstd::prelude::*;
use vstd::utf8::encode_utf8;

verus! {

/// A grant is on a path: a file on itself, a directory on all below it.
pub open spec fn is_on(c: FsCapability, path: Seq<char>) -> bool {
    if c.is_file {
        same_path(c.resolved@, path)
    } else {
        path_within(path, c.resolved@)
    }
}

/// A grant permits an access: one for reading and writing permits all, and any other its own.
pub open spec fn permits(c: FsCapability, requested: AccessMode) -> bool {
    c.access == AccessMode::ReadWrite || c.access == requested
}

/// Some grant is on a path.
pub open spec fn some_on(caps: Seq<FsCapability>, path: Seq<char>) -> bool {
    exists|i: int| 0 <= i < caps.len() && is_on(#[trigger] caps[i], path)
}

/// Some grant is on a path and permits an access.
pub open spec fn some_permits(caps: Seq<FsCapability>, path: Seq<char>, requested: AccessMode) -> bool {
    exists|i: int|
        0 <= i < caps.len() && is_on(#[trigger] caps[i], path) && permits(caps[i], requested)
}

/// The path that a suggestion names: the path itself where it exists, and else its parent, unless
/// that is the root.
pub open spec fn named_path(path: Seq<char>, present: bool, t: Seq<char>) -> bool {
    &&& present ==> t == path
    &&& !present ==> match parent_path(path) {
        Some(parent) => if same_path(parent, "/"@) {
            t == path
        } else {
            t == parent
        },
        None => t == path,
    }
}

/// A suggestion is the option for the kind of the entry and the access, and the path to grant.
pub open spec fn suggests(text: Seq<char>, path: Seq<char>, requested: AccessMode, facts: PathFacts) -> bool {
    exists|t: Seq<char>| #[trigger]
        named_path(path, facts.exists, t) && {
            let is_file = facts.is_file;
            &&& is_file && requested == AccessMode::Read ==> text == "--read-file"@ + " "@ + t
            &&& is_file && requested == AccessMode::Write ==> text == "--write-file"@ + " "@ + t
            &&& is_file && requested == AccessMode::ReadWrite ==> text == "--allow-file"@ + " "@ + t
            &&& !is_file && requested == AccessMode::Read ==> text == "--read"@ + " "@ + t
            &&& !is_file && requested == AccessMode::Write ==> text == "--write"@ + " "@ + t
            &&& !is_file && requested == AccessMode::ReadWrite ==> text == "--allow"@ + " "@ + t
        }
}

proof fn lemma_counts(caps: Seq<FsCapability>, path: Seq<char>, requested: AccessMode)
    ensures
        none_counts(caps, path, requested, true) == !some_permits(caps, path, requested),
        none_counts(caps, path, requested, false) == !some_on(caps, path),
{
    assert forall|i: int| 0 <= i < caps.len() implies counts(
        #[trigger] caps[i],
        path,
        requested,
        true,
    ) == (is_on(caps[i], path) && permits(caps[i], requested)) by {}
    assert forall|i: int| 0 <= i < caps.len() implies counts(
        #[trigger] caps[i],
        path,
        requested,
        false,
    ) == is_on(caps[i], path) by {}
    if some_permits(caps, path, requested) {
        let i = choose|i: int|
            0 <= i < caps.len() && is_on(#[trigger] caps[i], path) && permits(caps[i], requested);
        assert(counts(caps[i], path, requested, true));
    }
    if some_on(caps, path) {
        let i = choose|i: int| 0 <= i < caps.len() && is_on(#[trigger] caps[i], path);
        assert(counts(caps[i], path, requested, false));
    }
}

proof fn lemma_best(caps: Seq<FsCapability>, path: Seq<char>, requested: AccessMode, enough: bool)
    requires
        !none_counts(caps, path, requested, enough),
    ensures
        is_best(caps, path, requested, enough, best_grant(caps, path, requested, enough)),
{
    lemma_best_up_to(caps, path, requested, enough, caps.len() as int);
}

spec fn is_best_up_to(
    caps: Seq<FsCapability>,
    path: Seq<char>,
    requested: AccessMode,
    enough: bool,
    m: int,
    n: int,
) -> bool {
    &&& 0 <= n < m
    &&& counts(caps[n], path, requested, enough)
    &&& forall|i: int|
        0 <= i < m && counts(#[trigger] caps[i], path, requested, enough) ==> specificity(caps[i])
            < specificity(caps[n]) || specificity(caps[i]) == specificity(caps[n]) && i <= n
}

proof fn lemma_best_up_to(
    caps: Seq<FsCapability>,
    path: Seq<char>,
    requested: AccessMode,
    enough: bool,
    m: int,
)
    requires
        0 <= m <= caps.len(),
    ensures
        (exists|n: int| #[trigger] is_best_up_to(caps, path, requested, enough, m, n)) || (forall|
            i: int,
        |
            0 <= i < m ==> !counts(#[trigger] caps[i], path, requested, enough)),
        m == caps.len() && !none_counts(caps, path, requested, enough) ==> is_best(
            caps,
            path,
            requested,
            enough,
            best_grant(caps, path, requested, enough),
        ),
    decreases m,
{
    if m > 0 {
        lemma_best_up_to(caps, path, requested, enough, m - 1);
        let k = m - 1;
        if exists|n: int| #[trigger] is_best_up_to(caps, path, requested, enough, m - 1, n) {
            let n = choose|n: int| #[trigger]
                is_best_up_to(caps, path, requested, enough, m - 1, n);
            if counts(caps[k], path, requested, enough) && specificity(caps[n]) <= specificity(
                caps[k],
            ) {
                assert(is_best_up_to(caps, path, requested, enough, m, k));
            } else {
                assert(is_best_up_to(caps, path, requested, enough, m, n));
            }
        } else if counts(caps[k], path, requested, enough) {
            assert(is_best_up_to(caps, path, requested, enough, m, k));
        }
    }
    if m == caps.len() && !none_counts(caps, path, requested, enough) {
        let n = choose|n: int| #[trigger] is_best_up_to(caps, path, requested, enough, m, n);
        assert(is_best(caps, path, requested, enough, n));
    }
}

/// A path that a rule closes, and that is not exempt from the rules, is refused as sensitive, in the
/// name of the rule's group. Else a grant that permits the access gives access, and the longest such
/// is named. Else the path is refused: for lack of access where a grant is on it, and otherwise
/// because nothing is; and the option is named that would permit it.
pub proof fn law_path_answers(
    path: Seq<char>,
    requested: AccessMode,
    caps: Seq<FsCapability>,
    exempt: Seq<Seq<char>>,
    rule: Option<SensitiveMatch>,
    facts: PathFacts,
)
    ensures
        ({
            let is_exempt = exists|i: int| 0 <= i < exempt.len() && path_within(path, #[trigger] exempt[i]);
            match path_answer(path, requested, caps, exempt, Ok(rule), facts) {
                Err(_) => false,
                Ok(QueryView::Allowed { reason, granted_path, access, source }) => {
                    &&& rule is None || is_exempt
                    &&& reason == "granted_path"@
                    &&& source is Some && access is Some
                    &&& exists|n: int|
                        0 <= n < caps.len() && is_on(#[trigger] caps[n], path) && permits(
                            caps[n],
                            requested,
                        ) && granted_path == Some(caps[n].resolved@) && (forall|i: int|
                            0 <= i < caps.len() && is_on(#[trigger] caps[i], path) && permits(
                                caps[i],
                                requested,
                            ) ==> encode_utf8(caps[i].resolved@).len() <= encode_utf8(
                                caps[n].resolved@,
                            ).len())
                },
                Ok(QueryView::Denied {
                    reason,
                    details,
                    policy_source,
                    matching_capability,
                    suggested_flag,
                }) => if rule is Some && !is_exempt {
                    &&& reason == "sensitive_path"@
                    &&& policy_source == Some("group:"@ + (rule->0).group_name@)
                    &&& suggested_flag is None
                    &&& matching_capability is None
                } else {
                    &&& !some_permits(caps, path, requested)
                    &&& policy_source is None
                    &&& suggested_flag is Some && suggests(
                        suggested_flag->0,
                        path,
                        requested,
                        facts,
                    )
                    &&& some_on(caps, path) ==> reason == "insufficient_access"@
                        && matching_capability is Some
                    &&& !some_on(caps, path) ==> reason == "path_not_granted"@
                        && matching_capability is None
                },
                Ok(_) => false,
            }
        }),
{
    lemma_counts(caps, path, requested);
    assert(named_path(path, facts.exists, crate::query_ext::flag_target(path, facts.exists)));
    assert(suggests(suggestion(path, requested, facts), path, requested, facts));
    let is_exempt = exists|i: int| 0 <= i < exempt.len() && path_within(path, #[trigger] exempt[i]);
    assert(is_exempt == covered_by_any(path, exempt));
    if (rule is None || is_exempt) && some_permits(caps, path, requested) {
        lemma_best(caps, path, requested, true);
        let n = best_grant(caps, path, requested, true);
        assert(is_on(caps[n], path) && permits(caps[n], requested));
        assert forall|i: int|
            0 <= i < caps.len() && is_on(#[trigger] caps[i], path) && permits(
                caps[i],
                requested,
            ) implies encode_utf8(caps[i].resolved@).len() <= encode_utf8(
            caps[n].resolved@,
        ).len() by {
            assert(counts(caps[i], path, requested, true));
        }
    }
}

/// A blocked network lets no connection through, an open one every one; between them the proxy lets
/// those through that its filter does not refuse. What would let a refused one through is to allow
/// its host.
pub proof fn law_network_answers(
    host: Seq<char>,
    port: u16,
    mode: NetworkMode,
    filtered: bool,
    refusal: Option<Seq<char>>,
)
    ensures
        ({
            let q = network_answer(host, port, mode, filtered, refusal);
            &&& q is Allowed || q is Denied
            &&& q is Allowed <==> mode == NetworkMode::AllowAll || (mode == NetworkMode::ProxyOnly
                && refusal is None)
            &&& q is Denied ==> q->suggested_flag == Some("--allow-domain "@ + host)
            &&& mode == NetworkMode::Blocked ==> q->Denied_reason == "network_blocked"@
            &&& mode == NetworkMode::ProxyOnly && refusal is Some ==> q->Denied_reason
                == "proxy_filtered"@ && q->Denied_details == Some(
                "Domain filtering is active. "@ + refusal->0,
            )
            &&& mode == NetworkMode::ProxyOnly && refusal is None ==> q->Allowed_reason
                == "proxy_allowed"@
            &&& mode == NetworkMode::AllowAll ==> q->Allowed_reason == "network_allowed"@
        }),
{
}

/// A scope is enforced, or else not requested, not enforced or not supported; and the answer is on
/// the scope that was asked about.
pub proof fn law_scope_answers(scope: ScopeQuery, p: ScopePolicy)
    ensures
        ({
            let q = scope_answer(scope, Ok(p));
            let requested = if scope == ScopeQuery::Signal {
                p.signal_requested
            } else {
                p.abstract_unix_socket_requested
            };
            let enforced = if scope == ScopeQuery::Signal {
                p.signal_enforced
            } else {
                p.abstract_unix_socket_enforced
            };
            &&& q is Scope
            &&& scope == ScopeQuery::Signal ==> q->scope == "signal"@
            &&& scope == ScopeQuery::AbstractUnixSocket ==> q->scope == "abstract-unix-socket"@
            &&& q->requested == requested
            &&& q->enforced == enforced
            &&& q->supported == p.scoping_supported
            &&& q->kernel_abi == Some(p.abi_version@)
            &&& !requested ==> q->state == "not_requested"@
            &&& requested && enforced ==> q->state == "enforced"@
            &&& requested && !enforced && p.scoping_supported ==> q->state == "not_enforced"@
            &&& requested && !enforced && !p.scoping_supported ==> q->state == "unsupported"@
        }),
{
}

/// The first line of a report says what the answer is, and the next ones why.
pub proof fn law_reports_say_the_answer(q: QueryView)
    ensures
        ({
            let l = answer_lines(q);
            &&& l.len() >= 2
            &&& q is Allowed ==> l[0] == seq![(Style::GreenBold, "ALLOWED"@)] && l[1] == seq![
                (Style::Plain, "  Reason: "@),
                (Style::Plain, q->Allowed_reason),
            ]
            &&& q is Denied ==> l[0] == seq![(Style::RedBold, "DENIED"@)] && l[1] == seq![
                (Style::Plain, "  Reason: "@),
                (Style::Plain, q->Denied_reason),
            ]
            &&& q is NotSandboxed ==> l[0] == seq![(Style::YellowBold, "NOT SANDBOXED"@)]
            &&& q is Scope ==> l[0] == seq![(Style::BlueBold, "SCOPE"@)] && l[2] == seq![
                (Style::Plain, "  State: "@),
                (Style::Plain, q->state),
            ]
            &&& q is Denied && q->suggested_flag is Some ==> l.last() == seq![
                (Style::Plain, "  Suggested fix: "@),
                (Style::Plain, q->suggested_flag->0),
            ]
            &&& q is Allowed && q->granted_path is Some ==> l[2] == seq![
                (Style::Plain, "  Granted by: "@),
                (Style::Plain, q->granted_path->0),
            ]
        }),
{
}

} // verus!
