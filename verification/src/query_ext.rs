//! Whether an operation is permitted, and why.

pub mod laws;

use crate::capability::{AccessMode, FsCapability, NetworkMode};
use crate::error::{ErrorView, NonoError};
use crate::paths::{
    is_same_path, parent_path, path_parent, path_starts_with, path_within, same_path,
};
use crate::report::{LineView, Report, Style};
use crate::text::{
    bool_str, bool_text, concat2, concat3, concat4, concat5, concat6, concat8, copy_str, decimal, opt_view,
    u64_to_string, views,
};
use vstd::prelude::*;
use vstd::utf8::encode_utf8;

verus! {

/// The grant that matched a query, or nearly did.
#[derive(Debug)]
pub struct CapabilityMatch {
    pub path: String,
    pub access: String,
    pub source: String,
}

/// What a query on scopes asks about.
#[derive(Clone, Copy, Debug, PartialEq, Eq, Structural)]
pub enum ScopeQuery {
    Signal,
    AbstractUnixSocket,
}

impl ScopeQuery {
    pub open spec fn text(self) -> Seq<char> {
        match self {
            ScopeQuery::Signal => "signal"@,
            ScopeQuery::AbstractUnixSocket => "abstract-unix-socket"@,
        }
    }

    pub fn as_str(self) -> (r: &'static str)
        ensures
            r@ == self.text(),
    {
        match self {
            ScopeQuery::Signal => "signal",
            ScopeQuery::AbstractUnixSocket => "abstract-unix-socket",
        }
    }
}

/// The answer to a query.
#[derive(Debug)]
pub enum QueryResult {
    Allowed {
        reason: String,
        granted_path: Option<String>,
        access: Option<String>,
        source: Option<String>,
    },
    Denied {
        reason: String,
        details: Option<String>,
        policy_source: Option<String>,
        matching_capability: Option<CapabilityMatch>,
        suggested_flag: Option<String>,
    },
    NotSandboxed { message: String },
    Scope {
        scope: String,
        state: String,
        requested: bool,
        enforced: bool,
        supported: bool,
        kernel_abi: Option<String>,
        details: Option<String>,
    },
}

/// The answer with its texts as sequences of characters; a matching grant is path, access and
/// source.
pub enum QueryView {
    Allowed {
        reason: Seq<char>,
        granted_path: Option<Seq<char>>,
        access: Option<Seq<char>>,
        source: Option<Seq<char>>,
    },
    Denied {
        reason: Seq<char>,
        details: Option<Seq<char>>,
        policy_source: Option<Seq<char>>,
        matching_capability: Option<(Seq<char>, Seq<char>, Seq<char>)>,
        suggested_flag: Option<Seq<char>>,
    },
    NotSandboxed { message: Seq<char> },
    Scope {
        scope: Seq<char>,
        state: Seq<char>,
        requested: bool,
        enforced: bool,
        supported: bool,
        kernel_abi: Option<Seq<char>>,
        details: Option<Seq<char>>,
    },
}

pub open spec fn match_view(m: Option<CapabilityMatch>) -> Option<(Seq<char>, Seq<char>, Seq<char>)> {
    match m {
        Some(c) => Some((c.path@, c.access@, c.source@)),
        None => None,
    }
}

impl View for QueryResult {
    type V = QueryView;

    open spec fn view(&self) -> QueryView {
        match self {
            QueryResult::Allowed { reason, granted_path, access, source } => QueryView::Allowed {
                reason: reason@,
                granted_path: opt_view(*granted_path),
                access: opt_view(*access),
                source: opt_view(*source),
            },
            QueryResult::Denied {
                reason,
                details,
                policy_source,
                matching_capability,
                suggested_flag,
            } => QueryView::Denied {
                reason: reason@,
                details: opt_view(*details),
                policy_source: opt_view(*policy_source),
                matching_capability: match_view(*matching_capability),
                suggested_flag: opt_view(*suggested_flag),
            },
            QueryResult::NotSandboxed { message } => QueryView::NotSandboxed {
                message: message@,
            },
            QueryResult::Scope {
                scope,
                state,
                requested,
                enforced,
                supported,
                kernel_abi,
                details,
            } => QueryView::Scope {
                scope: scope@,
                state: state@,
                requested: *requested,
                enforced: *enforced,
                supported: *supported,
                kernel_abi: opt_view(*kernel_abi),
                details: opt_view(*details),
            },
        }
    }
}

// ---------------------------------------------------------------------------
// Suggestions
// ---------------------------------------------------------------------------

/// What is at a path.
#[derive(Clone, Copy, Debug, PartialEq, Eq, Structural)]
pub struct PathFacts {
    pub is_file: bool,
    pub exists: bool,
}

/// The option that grants an access to a file or a directory.
pub open spec fn flag_text(is_file: bool, requested: AccessMode) -> Seq<char> {
    match (is_file, requested) {
        (true, AccessMode::Read) => "--read-file"@,
        (true, AccessMode::Write) => "--write-file"@,
        (true, AccessMode::ReadWrite) => "--allow-file"@,
        (false, AccessMode::Read) => "--read"@,
        (false, AccessMode::Write) => "--write"@,
        (false, AccessMode::ReadWrite) => "--allow"@,
    }
}

/// The path to grant: the path itself where it exists, and else its parent, but never the root.
pub open spec fn flag_target(path: Seq<char>, present: bool) -> Seq<char> {
    match parent_path(path) {
        Some(parent) => if present || same_path(parent, "/"@) {
            path
        } else {
            parent
        },
        None => path,
    }
}

/// The option and the path that would permit an access.
pub fn suggested_flag_parts(path: &str, requested: AccessMode, facts: PathFacts) -> (r: (
    &'static str,
    String,
))
    ensures
        r.0@ == flag_text(facts.is_file, requested),
        r.1@ == flag_target(path@, facts.exists),
{
    let flag = match (facts.is_file, requested) {
        (true, AccessMode::Read) => "--read-file",
        (true, AccessMode::Write) => "--write-file",
        (true, AccessMode::ReadWrite) => "--allow-file",
        (false, AccessMode::Read) => "--read",
        (false, AccessMode::Write) => "--write",
        (false, AccessMode::ReadWrite) => "--allow",
    };
    let target = match path_parent(path) {
        Some(parent) => if facts.exists || is_same_path(parent.as_str(), "/") {
            copy_str(path)
        } else {
            parent
        },
        None => copy_str(path),
    };
    (flag, target)
}

pub open spec fn suggestion(path: Seq<char>, requested: AccessMode, facts: PathFacts) -> Seq<char> {
    flag_text(facts.is_file, requested) + " "@ + flag_target(path, facts.exists)
}

fn suggested_flag_for_path(path: &str, requested: AccessMode, facts: PathFacts) -> (r: String)
    ensures
        r@ == suggestion(path@, requested, facts),
{
    let (flag, target) = suggested_flag_parts(path, requested, facts);
    concat3(flag, " ", target.as_str())
}

// ---------------------------------------------------------------------------
// Paths
// ---------------------------------------------------------------------------

/// A rule that closes a path.
#[derive(Debug)]
pub struct SensitiveMatch {
    pub group_name: String,
    pub description: String,
}

/// A path that one of `paths` covers.
pub open spec fn covered_by_any(path: Seq<char>, paths: Seq<Seq<char>>) -> bool {
    exists|i: int| 0 <= i < paths.len() && path_within(path, #[trigger] paths[i])
}

pub fn is_covered_by_any(path: &str, paths: &Vec<String>) -> (r: bool)
    ensures
        r == covered_by_any(path@, views(paths@)),
{
    let mut i: usize = 0;
    while i < paths.len()
        invariant
            i <= paths@.len(),
            forall|k: int| 0 <= k < i ==> !path_within(path@, #[trigger] views(paths@)[k]),
        decreases paths@.len() - i,
    {
        assert(views(paths@)[i as int] == paths@[i as int]@);
        if path_starts_with(path, paths[i].as_str()) {
            return true;
        }
        i += 1;
    }
    false
}

/// A grant is on the path or on a directory above it.
pub open spec fn covers(c: FsCapability, path: Seq<char>) -> bool {
    if c.is_file {
        same_path(c.resolved@, path)
    } else {
        path_within(path, c.resolved@)
    }
}

/// A granted access suffices for a requested one.
pub open spec fn suffices(granted: AccessMode, requested: AccessMode) -> bool {
    granted == AccessMode::ReadWrite || granted == requested
}

/// How specific a grant is: the length of its path in bytes.
pub open spec fn specificity(c: FsCapability) -> nat {
    encode_utf8(c.resolved@).len()
}

/// A grant counts for a query; where `enough` is set, only one that permits it.
pub open spec fn counts(c: FsCapability, path: Seq<char>, requested: AccessMode, enough: bool) -> bool {
    covers(c, path) && (enough ==> suffices(c.access, requested))
}

/// The most specific of the grants that count, and the last of several such.
pub open spec fn is_best(
    caps: Seq<FsCapability>,
    path: Seq<char>,
    requested: AccessMode,
    enough: bool,
    n: int,
) -> bool {
    &&& 0 <= n < caps.len()
    &&& counts(caps[n], path, requested, enough)
    &&& forall|i: int|
        0 <= i < caps.len() && counts(#[trigger] caps[i], path, requested, enough) ==> specificity(
            caps[i],
        ) < specificity(caps[n]) || specificity(caps[i]) == specificity(caps[n]) && i <= n
}

pub open spec fn none_counts(
    caps: Seq<FsCapability>,
    path: Seq<char>,
    requested: AccessMode,
    enough: bool,
) -> bool {
    forall|i: int| 0 <= i < caps.len() ==> !counts(#[trigger] caps[i], path, requested, enough)
}

fn find_best(caps: &Vec<FsCapability>, path: &str, requested: AccessMode, enough: bool) -> (r: Option<
    usize,
>)
    ensures
        match r {
            Some(n) => is_best(caps@, path@, requested, enough, n as int),
            None => none_counts(caps@, path@, requested, enough),
        },
{
    let mut best: Option<usize> = None;
    let mut i: usize = 0;
    while i < caps.len()
        invariant
            i <= caps@.len(),
            match best {
                Some(n) => is_best(caps@.take(i as int), path@, requested, enough, n as int),
                None => none_counts(caps@.take(i as int), path@, requested, enough),
            },
        decreases caps@.len() - i,
    {
        let c = &caps[i];
        let covering = if c.is_file {
            is_same_path(c.resolved.as_str(), path)
        } else {
            path_starts_with(path, c.resolved.as_str())
        };
        let sufficient = match (c.access, requested) {
            (AccessMode::ReadWrite, _) => true,
            (AccessMode::Read, AccessMode::Read) => true,
            (AccessMode::Write, AccessMode::Write) => true,
            _ => false,
        };
        let ghost before = caps@.take(i as int);
        let ghost after = caps@.take(i + 1);
        proof {
            assert(after =~= before.push(caps@[i as int]));
            assert forall|k: int| 0 <= k < i implies after[k] == before[k] by {}
        }
        if covering && (!enough || sufficient) {
            let score = c.resolved.as_str().as_bytes().len();
            let better = match best {
                Some(n) => score >= caps[n].resolved.as_str().as_bytes().len(),
                None => true,
            };
            if better {
                best = Some(i);
            }
        }
        proof {
            match best {
                Some(n) => {
                    assert forall|k: int|
                        0 <= k < after.len() && counts(
                            #[trigger] after[k],
                            path@,
                            requested,
                            enough,
                        ) implies specificity(after[k]) < specificity(after[n as int])
                        || specificity(after[k]) == specificity(after[n as int]) && k <= n by {
                        if k < i {
                            assert(after[k] == before[k]);
                        }
                    }
                },
                None => {
                    assert forall|k: int| 0 <= k < after.len() implies !counts(
                        #[trigger] after[k],
                        path@,
                        requested,
                        enough,
                    ) by {
                        if k < i {
                            assert(after[k] == before[k]);
                        }
                    }
                },
            }
        }
        i += 1;
    }
    assert(caps@.take(i as int) =~= caps@);
    best
}

/// The grant that answers a query: the best of those that count. It is unique.
pub open spec fn best_grant(
    caps: Seq<FsCapability>,
    path: Seq<char>,
    requested: AccessMode,
    enough: bool,
) -> int {
    choose|n: int| is_best(caps, path, requested, enough, n)
}

proof fn lemma_best_is_unique(
    caps: Seq<FsCapability>,
    path: Seq<char>,
    requested: AccessMode,
    enough: bool,
    n: int,
)
    requires
        is_best(caps, path, requested, enough, n),
    ensures
        best_grant(caps, path, requested, enough) == n,
{
    let m = best_grant(caps, path, requested, enough);
    assert(is_best(caps, path, requested, enough, m));
    assert(counts(caps[m], path, requested, enough));
    assert(counts(caps[n], path, requested, enough));
}

/// The answer for a path that a rule closes.
pub open spec fn sensitive_answer(m: SensitiveMatch) -> QueryView {
    QueryView::Denied {
        reason: "sensitive_path"@,
        details: Some(
            "Blocked by policy group '"@ + m.group_name@ + "': "@ + m.description@
                + " Use filesystem.bypass_protection to exempt specific paths when appropriate."@,
        ),
        policy_source: Some("group:"@ + m.group_name@),
        matching_capability: None,
        suggested_flag: None,
    }
}

/// The answer that the grants give.
pub open spec fn grants_answer(
    path: Seq<char>,
    requested: AccessMode,
    caps: Seq<FsCapability>,
    facts: PathFacts,
) -> QueryView {
    if !none_counts(caps, path, requested, true) {
        let c = caps[best_grant(caps, path, requested, true)];
        QueryView::Allowed {
            reason: "granted_path"@,
            granted_path: Some(c.resolved@),
            access: Some(c.access.text()),
            source: Some(c.source.text()),
        }
    } else if !none_counts(caps, path, requested, false) {
        let c = caps[best_grant(caps, path, requested, false)];
        QueryView::Denied {
            reason: "insufficient_access"@,
            details: Some(
                "Path is covered by '"@ + c.resolved@ + "', which grants "@ + c.access.text()
                    + " access from "@ + c.source.text() + " but "@ + requested.text()
                    + " was requested"@,
            ),
            policy_source: None,
            matching_capability: Some((c.resolved@, c.access.text(), c.source.text())),
            suggested_flag: Some(suggestion(path, requested, facts)),
        }
    } else {
        QueryView::Denied {
            reason: "path_not_granted"@,
            details: Some("Path is not covered by any capability: "@ + path),
            policy_source: None,
            matching_capability: None,
            suggested_flag: Some(suggestion(path, requested, facts)),
        }
    }
}

/// What came of looking for a rule that closes the path.
pub type Sensitivity = Result<Option<SensitiveMatch>, NonoError>;

/// The answer to a query on a path. Rules do not count where the path is exempt from them.
pub open spec fn path_answer(
    path: Seq<char>,
    requested: AccessMode,
    caps: Seq<FsCapability>,
    exempt: Seq<Seq<char>>,
    sensitivity: Sensitivity,
    facts: PathFacts,
) -> Result<QueryView, ErrorView> {
    if !covered_by_any(path, exempt) && sensitivity is Err {
        Err((sensitivity->Err_0)@)
    } else if !covered_by_any(path, exempt) && sensitivity->Ok_0 is Some {
        Ok(sensitive_answer(sensitivity->Ok_0->0))
    } else {
        Ok(grants_answer(path, requested, caps, facts))
    }
}

/// Whether an access to a path is permitted. The path is given with all links followed.
pub fn query_path(
    path: &str,
    requested: AccessMode,
    caps: &Vec<FsCapability>,
    exempt: &Vec<String>,
    sensitivity: &Sensitivity,
    facts: PathFacts,
) -> (r: Result<QueryResult, NonoError>)
    ensures
        match r {
            Ok(q) => path_answer(path@, requested, caps@, views(exempt@), *sensitivity, facts)
                == Ok::<QueryView, ErrorView>(q@),
            Err(e) => path_answer(path@, requested, caps@, views(exempt@), *sensitivity, facts)
                == Err::<QueryView, ErrorView>(e@),
        },
{
    if !is_covered_by_any(path, exempt) {
        match sensitivity {
            Err(e) => {
                return Err(e.copy());
            },
            Ok(Some(m)) => {
                let details = concat5(
                    "Blocked by policy group '",
                    m.group_name.as_str(),
                    "': ",
                    m.description.as_str(),
                    " Use filesystem.bypass_protection to exempt specific paths when appropriate.",
                );
                return Ok(
                    QueryResult::Denied {
                        reason: copy_str("sensitive_path"),
                        details: Some(details),
                        policy_source: Some(concat2("group:", m.group_name.as_str())),
                        matching_capability: None,
                        suggested_flag: None,
                    },
                );
            },
            Ok(None) => {},
        }
    }
    if let Some(n) = find_best(caps, path, requested, true) {
        proof {
            lemma_best_is_unique(caps@, path@, requested, true, n as int);
        }
        let c = &caps[n];
        return Ok(
            QueryResult::Allowed {
                reason: copy_str("granted_path"),
                granted_path: Some(copy_str(c.resolved.as_str())),
                access: Some(copy_str(c.access.as_str())),
                source: Some(c.source.describe()),
            },
        );
    }
    if let Some(n) = find_best(caps, path, requested, false) {
        proof {
            lemma_best_is_unique(caps@, path@, requested, false, n as int);
        }
        let c = &caps[n];
        let source = c.source.describe();
        let head = concat8(
            "Path is covered by '",
            c.resolved.as_str(),
            "', which grants ",
            c.access.as_str(),
            " access from ",
            source.as_str(),
            " but ",
            requested.as_str(),
        );
        let details = concat2(head.as_str(), " was requested");
        return Ok(
            QueryResult::Denied {
                reason: copy_str("insufficient_access"),
                details: Some(details),
                policy_source: None,
                matching_capability: Some(
                    CapabilityMatch {
                        path: copy_str(c.resolved.as_str()),
                        access: copy_str(c.access.as_str()),
                        source,
                    },
                ),
                suggested_flag: Some(suggested_flag_for_path(path, requested, facts)),
            },
        );
    }
    Ok(
        QueryResult::Denied {
            reason: copy_str("path_not_granted"),
            details: Some(concat2("Path is not covered by any capability: ", path)),
            policy_source: None,
            matching_capability: None,
            suggested_flag: Some(suggested_flag_for_path(path, requested, facts)),
        },
    )
}

/// An access is permitted exactly where some grant covers the path and suffices, and no rule
/// closes the path or the path is exempt from the rules.
pub proof fn law_permission(
    path: Seq<char>,
    requested: AccessMode,
    caps: Seq<FsCapability>,
    exempt: Seq<Seq<char>>,
    sensitivity: Sensitivity,
    facts: PathFacts,
)
    requires
        sensitivity is Ok,
    ensures
        path_answer(path, requested, caps, exempt, sensitivity, facts) is Ok,
        path_answer(path, requested, caps, exempt, sensitivity, facts)->Ok_0 is Allowed <==> {
            &&& exists|i: int|
                0 <= i < caps.len() && covers(#[trigger] caps[i], path) && suffices(
                    caps[i].access,
                    requested,
                )
            &&& sensitivity->Ok_0 is None || covered_by_any(path, exempt)
        },
{
    if exists|i: int|
        0 <= i < caps.len() && covers(#[trigger] caps[i], path) && suffices(
            caps[i].access,
            requested,
        ) {
        let i = choose|i: int|
            0 <= i < caps.len() && covers(#[trigger] caps[i], path) && suffices(
                caps[i].access,
                requested,
            );
        assert(counts(caps[i], path, requested, true));
    } else {
        assert forall|i: int| 0 <= i < caps.len() implies !counts(
            #[trigger] caps[i],
            path,
            requested,
            true,
        ) by {
            assert(!(covers(caps[i], path) && suffices(caps[i].access, requested)));
        }
    }
}

/// Asking for more is never easier: where reading and writing together are permitted, so is each.
pub proof fn law_less_is_permitted_too(
    path: Seq<char>,
    requested: AccessMode,
    caps: Seq<FsCapability>,
    facts: PathFacts,
)
    requires
        grants_answer(path, AccessMode::ReadWrite, caps, facts) is Allowed,
    ensures
        grants_answer(path, requested, caps, facts) is Allowed,
{
    let i = choose|i: int|
        0 <= i < caps.len() && counts(#[trigger] caps[i], path, AccessMode::ReadWrite, true);
    assert(counts(caps[i], path, requested, true));
}

// ---------------------------------------------------------------------------
// Network
// ---------------------------------------------------------------------------

pub open spec fn endpoint(host: Seq<char>, port: u16) -> Seq<char> {
    host + ":"@ + decimal(port as nat)
}

/// The answer to a query on a connection. `filtered` says whether domains are filtered at all, and
/// `refusal` why the filter refuses the host, if it does.
pub open spec fn network_answer(
    host: Seq<char>,
    port: u16,
    mode: NetworkMode,
    filtered: bool,
    refusal: Option<Seq<char>>,
) -> QueryView {
    match mode {
        NetworkMode::Blocked => QueryView::Denied {
            reason: "network_blocked"@,
            details: Some(
                "Network access is fully blocked. Connection to "@ + endpoint(host, port)
                    + " would be denied."@,
            ),
            policy_source: None,
            matching_capability: None,
            suggested_flag: Some("--allow-domain "@ + host),
        },
        NetworkMode::ProxyOnly => match refusal {
            None => QueryView::Allowed {
                reason: "proxy_allowed"@,
                granted_path: None,
                access: Some(
                    "Connection to "@ + endpoint(host, port) + " would be allowed via proxy"@
                        + if filtered {
                        ""@
                    } else {
                        " (no domain filter)"@
                    },
                ),
                source: Some(
                    if filtered {
                        "domain allowlist"@
                    } else {
                        "proxy"@
                    },
                ),
            },
            Some(why) => QueryView::Denied {
                reason: "proxy_filtered"@,
                details: Some("Domain filtering is active. "@ + why),
                policy_source: Some("proxy domain filter"@),
                matching_capability: None,
                suggested_flag: Some("--allow-domain "@ + host),
            },
        },
        NetworkMode::AllowAll => QueryView::Allowed {
            reason: "network_allowed"@,
            granted_path: None,
            access: Some("Connection to "@ + endpoint(host, port) + " would be allowed"@),
            source: None,
        },
    }
}

fn endpoint_text(host: &str, port: u16) -> (r: String)
    ensures
        r@ == endpoint(host@, port),
{
    let p = u64_to_string(port as u64);
    concat3(host, ":", p.as_str())
}

/// Whether a connection is permitted.
pub fn query_network(
    host: &str,
    port: u16,
    mode: NetworkMode,
    filtered: bool,
    refusal: &Option<String>,
) -> (r: QueryResult)
    ensures
        r@ == network_answer(host@, port, mode, filtered, opt_view(*refusal)),
{
    let at = endpoint_text(host, port);
    match mode {
        NetworkMode::Blocked => QueryResult::Denied {
            reason: copy_str("network_blocked"),
            details: Some(
                concat3(
                    "Network access is fully blocked. Connection to ",
                    at.as_str(),
                    " would be denied.",
                ),
            ),
            policy_source: None,
            matching_capability: None,
            suggested_flag: Some(concat2("--allow-domain ", host)),
        },
        NetworkMode::ProxyOnly => match refusal {
            None => {
                let suffix = if filtered {
                    ""
                } else {
                    " (no domain filter)"
                };
                let source = if filtered {
                    "domain allowlist"
                } else {
                    "proxy"
                };
                QueryResult::Allowed {
                    reason: copy_str("proxy_allowed"),
                    granted_path: None,
                    access: Some(
                        concat4(
                            "Connection to ",
                            at.as_str(),
                            " would be allowed via proxy",
                            suffix,
                        ),
                    ),
                    source: Some(copy_str(source)),
                }
            },
            Some(why) => QueryResult::Denied {
                reason: copy_str("proxy_filtered"),
                details: Some(concat2("Domain filtering is active. ", why.as_str())),
                policy_source: Some(copy_str("proxy domain filter")),
                matching_capability: None,
                suggested_flag: Some(concat2("--allow-domain ", host)),
            },
        },
        NetworkMode::AllowAll => QueryResult::Allowed {
            reason: copy_str("network_allowed"),
            granted_path: None,
            access: Some(concat3("Connection to ", at.as_str(), " would be allowed")),
            source: None,
        },
    }
}

// ---------------------------------------------------------------------------
// Scopes
// ---------------------------------------------------------------------------

/// Which scopes are asked for, and which the kernel enforces.
#[derive(Debug)]
pub struct ScopePolicy {
    pub signal_requested: bool,
    pub signal_enforced: bool,
    pub abstract_unix_socket_requested: bool,
    pub abstract_unix_socket_enforced: bool,
    pub scoping_supported: bool,
    pub abi_version: String,
}

pub open spec fn scope_state_text(requested: bool, enforced: bool, supported: bool) -> Seq<char> {
    if !requested {
        "not_requested"@
    } else if enforced {
        "enforced"@
    } else if supported {
        "not_enforced"@
    } else {
        "unsupported"@
    }
}

fn scope_state(requested: bool, enforced: bool, supported: bool) -> (r: &'static str)
    ensures
        r@ == scope_state_text(requested, enforced, supported),
{
    match (requested, enforced, supported) {
        (true, true, _) => "enforced",
        (true, false, false) => "unsupported",
        (true, false, true) => "not_enforced",
        (false, _, _) => "not_requested",
    }
}

pub open spec fn scope_details_text(
    scope: ScopeQuery,
    requested: bool,
    enforced: bool,
    supported: bool,
) -> Seq<char> {
    scope.text() + if requested && enforced {
        " scope is requested by the capability set and enforced."@
    } else if requested && supported {
        " scope is requested, but it is not enforced."@
    } else if requested {
        " scope is requested, but this Landlock ABI does not support scoping."@
    } else if supported {
        " scope is not requested by the capability set."@
    } else {
        " scope is not requested; this Landlock ABI has no scope support."@
    }
}

fn scope_details(scope: ScopeQuery, requested: bool, enforced: bool, supported: bool) -> (r: String)
    ensures
        r@ == scope_details_text(scope, requested, enforced, supported),
{
    let tail = match (requested, enforced, supported) {
        (true, true, _) => " scope is requested by the capability set and enforced.",
        (true, false, false) => {
            " scope is requested, but this Landlock ABI does not support scoping."
        },
        (true, false, true) => " scope is requested, but it is not enforced.",
        (false, _, true) => " scope is not requested by the capability set.",
        (false, _, false) => {
            " scope is not requested; this Landlock ABI has no scope support."
        },
    };
    concat2(scope.as_str(), tail)
}

pub open spec fn scope_flags(scope: ScopeQuery, p: ScopePolicy) -> (bool, bool) {
    match scope {
        ScopeQuery::Signal => (p.signal_requested, p.signal_enforced),
        ScopeQuery::AbstractUnixSocket => (
            p.abstract_unix_socket_requested,
            p.abstract_unix_socket_enforced,
        ),
    }
}

/// The answer to a query on a scope, from the policy or from the text of the failure to get it.
pub open spec fn scope_answer(scope: ScopeQuery, policy: Result<ScopePolicy, String>) -> QueryView {
    match policy {
        Ok(p) => {
            let (requested, enforced) = scope_flags(scope, p);
            QueryView::Scope {
                scope: scope.text(),
                state: scope_state_text(requested, enforced, p.scoping_supported),
                requested,
                enforced,
                supported: p.scoping_supported,
                kernel_abi: Some(p.abi_version@),
                details: Some(
                    scope_details_text(scope, requested, enforced, p.scoping_supported),
                ),
            }
        },
        Err(e) => QueryView::Scope {
            scope: scope.text(),
            state: "unavailable"@,
            requested: false,
            enforced: false,
            supported: false,
            kernel_abi: None,
            details: Some("Landlock scope policy could not be resolved: "@ + e@),
        },
    }
}

/// Whether a scope is asked for and enforced.
pub fn query_scope(scope: ScopeQuery, policy: &Result<ScopePolicy, String>) -> (r: QueryResult)
    ensures
        r@ == scope_answer(scope, *policy),
{
    match policy {
        Ok(p) => {
            let (requested, enforced) = match scope {
                ScopeQuery::Signal => (p.signal_requested, p.signal_enforced),
                ScopeQuery::AbstractUnixSocket => (
                    p.abstract_unix_socket_requested,
                    p.abstract_unix_socket_enforced,
                ),
            };
            QueryResult::Scope {
                scope: copy_str(scope.as_str()),
                state: copy_str(scope_state(requested, enforced, p.scoping_supported)),
                requested,
                enforced,
                supported: p.scoping_supported,
                kernel_abi: Some(copy_str(p.abi_version.as_str())),
                details: Some(scope_details(scope, requested, enforced, p.scoping_supported)),
            }
        },
        Err(e) => QueryResult::Scope {
            scope: copy_str(scope.as_str()),
            state: copy_str("unavailable"),
            requested: false,
            enforced: false,
            supported: false,
            kernel_abi: None,
            details: Some(concat2("Landlock scope policy could not be resolved: ", e.as_str())),
        },
    }
}

/// The answer where the platform has no scopes.
pub fn query_scope_without_landlock(scope: ScopeQuery) -> (r: QueryResult)
    ensures
        r@ == (QueryView::Scope {
            scope: scope.text(),
            state: "not_applicable"@,
            requested: false,
            enforced: false,
            supported: false,
            kernel_abi: None,
            details: Some("Landlock scope queries are only available on Linux."@),
        }),
{
    QueryResult::Scope {
        scope: copy_str(scope.as_str()),
        state: copy_str("not_applicable"),
        requested: false,
        enforced: false,
        supported: false,
        kernel_abi: None,
        details: Some(copy_str("Landlock scope queries are only available on Linux.")),
    }
}

// ---------------------------------------------------------------------------
// Reports
// ---------------------------------------------------------------------------

/// A line with a label and a text.
pub open spec fn detail_line(label: Seq<char>, text: Seq<char>) -> LineView {
    seq![(Style::Plain, label), (Style::Plain, text)]
}

pub open spec fn detail_lines(label: Seq<char>, text: Option<Seq<char>>) -> Seq<LineView> {
    match text {
        Some(t) => seq![detail_line(label, t)],
        None => Seq::empty(),
    }
}

fn add_detail(out: &mut Report, label: &str, text: &Option<String>)
    ensures
        final(out)@ == old(out)@ + detail_lines(label@, opt_view(*text)),
{
    let ghost before = out@;
    if let Some(t) = text {
        out.line2(Style::Plain, label, Style::Plain, t.as_str());
    }
    assert(out@ =~= before + detail_lines(label@, opt_view(*text)));
}

pub open spec fn match_lines(m: Option<(Seq<char>, Seq<char>, Seq<char>)>) -> Seq<LineView> {
    match m {
        Some(c) => seq![
            detail_line("  Closest match: "@, c.0 + " ("@ + c.1 + ", "@ + c.2 + ")"@),
        ],
        None => Seq::empty(),
    }
}

fn add_match(out: &mut Report, m: &Option<CapabilityMatch>)
    ensures
        final(out)@ == old(out)@ + match_lines(match_view(*m)),
{
    let ghost before = out@;
    if let Some(c) = m {
        let text = concat6(
            c.path.as_str(),
            " (",
            c.access.as_str(),
            ", ",
            c.source.as_str(),
            ")",
        );
        out.line2(Style::Plain, "  Closest match: ", Style::Plain, text.as_str());
    }
    assert(out@ =~= before + match_lines(match_view(*m)));
}

/// An answer for people.
pub open spec fn answer_lines(q: QueryView) -> Seq<LineView> {
    match q {
        QueryView::Allowed { reason, granted_path, access, source } => Seq::<LineView>::empty().push(
            seq![(Style::GreenBold, "ALLOWED"@)],
        ).push(detail_line("  Reason: "@, reason)) + detail_lines("  Granted by: "@, granted_path)
            + detail_lines("  Access: "@, access) + detail_lines("  Source: "@, source),
        QueryView::Denied {
            reason,
            details,
            policy_source,
            matching_capability,
            suggested_flag,
        } => Seq::<LineView>::empty().push(seq![(Style::RedBold, "DENIED"@)]).push(
            detail_line("  Reason: "@, reason),
        ) + detail_lines("  Details: "@, details) + detail_lines("  Policy: "@, policy_source)
            + match_lines(matching_capability) + detail_lines(
            "  Suggested fix: "@,
            suggested_flag,
        ),
        QueryView::NotSandboxed { message } => Seq::<LineView>::empty().push(
            seq![(Style::YellowBold, "NOT SANDBOXED"@)],
        ).push(detail_line("  "@, message)),
        QueryView::Scope {
            scope,
            state,
            requested,
            enforced,
            supported,
            kernel_abi,
            details,
        } => Seq::<LineView>::empty().push(seq![(Style::BlueBold, "SCOPE"@)]).push(
            detail_line("  Scope: "@, scope),
        ).push(detail_line("  State: "@, state)).push(
            detail_line("  Requested: "@, bool_text(requested)),
        ).push(detail_line("  Enforced: "@, bool_text(enforced))).push(
            detail_line("  Supported: "@, bool_text(supported)),
        ) + detail_lines("  Kernel ABI: "@, kernel_abi) + detail_lines("  Details: "@, details),
    }
}

/// Reports an answer to people.
pub fn print_result(result: &QueryResult) -> (out: Report)
    ensures
        out@ == answer_lines(result@),
{
    let mut out = Report::new();
    match result {
        QueryResult::Allowed { reason, granted_path, access, source } => {
            out.line1(Style::GreenBold, "ALLOWED");
            out.line2(Style::Plain, "  Reason: ", Style::Plain, reason.as_str());
            add_detail(&mut out, "  Granted by: ", granted_path);
            add_detail(&mut out, "  Access: ", access);
            add_detail(&mut out, "  Source: ", source);
        },
        QueryResult::Denied {
            reason,
            details,
            policy_source,
            matching_capability,
            suggested_flag,
        } => {
            out.line1(Style::RedBold, "DENIED");
            out.line2(Style::Plain, "  Reason: ", Style::Plain, reason.as_str());
            add_detail(&mut out, "  Details: ", details);
            add_detail(&mut out, "  Policy: ", policy_source);
            add_match(&mut out, matching_capability);
            add_detail(&mut out, "  Suggested fix: ", suggested_flag);
        },
        QueryResult::NotSandboxed { message } => {
            out.line1(Style::YellowBold, "NOT SANDBOXED");
            out.line2(Style::Plain, "  ", Style::Plain, message.as_str());
        },
        QueryResult::Scope {
            scope,
            state,
            requested,
            enforced,
            supported,
            kernel_abi,
            details,
        } => {
            out.line1(Style::BlueBold, "SCOPE");
            out.line2(Style::Plain, "  Scope: ", Style::Plain, scope.as_str());
            out.line2(Style::Plain, "  State: ", Style::Plain, state.as_str());
            out.line2(Style::Plain, "  Requested: ", Style::Plain, bool_str(*requested));
            out.line2(Style::Plain, "  Enforced: ", Style::Plain, bool_str(*enforced));
            out.line2(Style::Plain, "  Supported: ", Style::Plain, bool_str(*supported));
            add_detail(&mut out, "  Kernel ABI: ", kernel_abi);
            add_detail(&mut out, "  Details: ", details);
        },
    }
    out
}

} // verus!
