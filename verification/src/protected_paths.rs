//! Protection for the program's own state.
//!
//! Paths are given with all links followed.

pub mod laws;

use crate::capability::FsCapability;
use crate::error::{ErrorView, NonoError};
use crate::paths::{components, law_within_is_transitive, path_starts_with, path_within};
use crate::text::{concat3, concat7, copy_str, opt_view, views};
use vstd::prelude::*;

verus! {

/// Directories that a sandboxed command may not reach.
#[derive(Debug)]
pub struct ProtectedRoots {
    roots: Vec<String>,
}

impl ProtectedRoots {
    pub closed spec fn view(self) -> Seq<Seq<char>> {
        views(self.roots@)
    }

    /// The roots to protect: the state directory, which is unknown where there is no home.
    pub fn from_defaults(state_root: Option<String>) -> (r: Result<Self, NonoError>)
        ensures
            match r {
                Ok(p) => state_root is Some && p.view() == seq![(state_root->0)@],
                Err(e) => state_root is None && e@ == ErrorView::HomeNotFound,
            },
    {
        match state_root {
            Some(root) => {
                let mut roots: Vec<String> = Vec::new();
                roots.push(root);
                assert(views(roots@) =~= seq![root@]);
                Ok(ProtectedRoots { roots })
            },
            None => Err(NonoError::HomeNotFound),
        }
    }

    /// The protected directories.
    pub fn as_paths(&self) -> (r: &[String])
        ensures
            views(r@) == self.view(),
    {
        self.roots.as_slice()
    }
}

/// A path inside a protected root.
pub open spec fn inside(path: Seq<char>, root: Seq<char>) -> bool {
    path_within(path, root)
}

/// A directory that has a protected root in it.
pub open spec fn around(path: Seq<char>, is_file: bool, root: Seq<char>) -> bool {
    !is_file && path_within(root, path)
}

/// A grant on the path would reach the root. `parents_allowed` says that a rule against the root
/// itself can stand beside a grant on a directory around it.
pub open spec fn overlaps(path: Seq<char>, is_file: bool, root: Seq<char>, parents_allowed: bool) -> bool {
    inside(path, root) || around(path, is_file, root) && !parents_allowed
}

/// Position of the first root that a grant would reach; the number of roots where there is none.
pub open spec fn first_overlap(
    path: Seq<char>,
    is_file: bool,
    roots: Seq<Seq<char>>,
    parents_allowed: bool,
) -> int
    decreases roots.len(),
{
    if roots.len() == 0 || overlaps(path, is_file, roots[0], parents_allowed) {
        0
    } else {
        1 + first_overlap(path, is_file, roots.skip(1), parents_allowed)
    }
}

fn find_overlap(path: &str, is_file: bool, roots: &[String], parents_allowed: bool) -> (r: usize)
    ensures
        r == first_overlap(path@, is_file, views(roots@), parents_allowed),
        r <= roots@.len(),
{
    let ghost all = views(roots@);
    let mut i: usize = 0;
    assert(all.skip(0) =~= all);
    while i < roots.len()
        invariant
            i <= roots@.len(),
            all == views(roots@),
            first_overlap(path@, is_file, all, parents_allowed) == i + first_overlap(
                path@,
                is_file,
                all.skip(i as int),
                parents_allowed,
            ),
        decreases roots@.len() - i,
    {
        let root = roots[i].as_str();
        proof {
            assert(all.skip(i as int)[0] == root@);
            assert(all.skip(i as int).skip(1) =~= all.skip(i + 1));
        }
        if path_starts_with(path, root) || (!is_file && path_starts_with(root, path)
            && !parents_allowed) {
            return i;
        }
        i += 1;
    }
    i
}

pub open spec fn overlap_failure(path: Seq<char>, source: Seq<char>, root: Seq<char>) -> ErrorView {
    ErrorView::SandboxInit(
        "Refusing to grant '"@ + path + "' (source: "@ + source
            + ") because it overlaps protected nono state root '"@ + root + "'."@,
    )
}

/// Whether directories around a protected root may be granted: only where the platform can deny
/// what lies within a grant, and the profile asks for it.
pub open spec fn parents_pass(on_macos: bool, opted_in: bool) -> bool {
    on_macos && opted_in
}

/// Why a grant on a path is refused.
pub open spec fn request_failure(
    path: Seq<char>,
    is_file: bool,
    source: Seq<char>,
    roots: Seq<Seq<char>>,
    parents_allowed: bool,
) -> Option<ErrorView> {
    let n = first_overlap(path, is_file, roots, parents_allowed);
    if 0 <= n < roots.len() {
        Some(overlap_failure(path, source, roots[n]))
    } else {
        None
    }
}

/// Checks a path that is to be granted.
pub fn validate_requested_path_against_protected_roots(
    path: &str,
    is_file: bool,
    source: &str,
    roots: &[String],
    allow_parent_of_protected: bool,
    on_macos: bool,
) -> (r: Result<(), NonoError>)
    ensures
        match r {
            Ok(()) => request_failure(
                path@,
                is_file,
                source@,
                views(roots@),
                parents_pass(on_macos, allow_parent_of_protected),
            ) is None,
            Err(e) => request_failure(
                path@,
                is_file,
                source@,
                views(roots@),
                parents_pass(on_macos, allow_parent_of_protected),
            ) == Some(e@),
        },
{
    let n = find_overlap(path, is_file, roots, on_macos && allow_parent_of_protected);
    assert(views(roots@).len() == roots@.len());
    if n < roots.len() {
        assert(views(roots@)[n as int] == roots@[n as int]@);
        return Err(
            NonoError::SandboxInit(
                concat7(
                    "Refusing to grant '",
                    path,
                    "' (source: ",
                    source,
                    ") because it overlaps protected nono state root '",
                    roots[n].as_str(),
                    "'.",
                ),
            ),
        );
    }
    Ok(())
}

/// Why a set of grants is refused: the first grant that is.
pub open spec fn caps_failure(
    caps: Seq<FsCapability>,
    roots: Seq<Seq<char>>,
    parents_allowed: bool,
) -> Option<ErrorView>
    decreases caps.len(),
{
    if caps.len() == 0 {
        None
    } else {
        let c = caps[0];
        match request_failure(c.resolved@, c.is_file, c.source.text(), roots, parents_allowed) {
            Some(e) => Some(e),
            None => caps_failure(caps.skip(1), roots, parents_allowed),
        }
    }
}

/// Checks that no grant reaches a protected root.
pub fn validate_caps_against_protected_roots(
    caps: &Vec<FsCapability>,
    roots: &[String],
    allow_parent_of_protected: bool,
    on_macos: bool,
) -> (r: Result<(), NonoError>)
    ensures
        match r {
            Ok(()) => caps_failure(
                caps@,
                views(roots@),
                parents_pass(on_macos, allow_parent_of_protected),
            ) is None,
            Err(e) => caps_failure(
                caps@,
                views(roots@),
                parents_pass(on_macos, allow_parent_of_protected),
            ) == Some(e@),
        },
{
    let ghost all = views(roots@);
    let ghost pass = parents_pass(on_macos, allow_parent_of_protected);
    let mut i: usize = 0;
    assert(caps@.skip(0) =~= caps@);
    while i < caps.len()
        invariant
            i <= caps@.len(),
            all == views(roots@),
            pass == parents_pass(on_macos, allow_parent_of_protected),
            caps_failure(caps@, all, pass) == caps_failure(caps@.skip(i as int), all, pass),
        decreases caps@.len() - i,
    {
        proof {
            assert(caps@.skip(i as int)[0] == caps@[i as int]);
            assert(caps@.skip(i as int).skip(1) =~= caps@.skip(i + 1));
        }
        let source = caps[i].source.describe();
        if let Err(e) = validate_requested_path_against_protected_roots(
            caps[i].resolved.as_str(),
            caps[i].is_file,
            source.as_str(),
            roots,
            allow_parent_of_protected,
            on_macos,
        ) {
            return Err(e);
        }
        i += 1;
    }
    Ok(())
}

/// The protected root that a path would reach, if any, judged while the sandbox runs.
#[must_use]
pub fn overlapping_protected_root(path: &str, is_file: bool, roots: &[String], on_macos: bool) -> (r: Option<
    String,
>)
    ensures
        ({
            let n = first_overlap(path@, is_file, views(roots@), on_macos);
            opt_view(r) == if 0 <= n < roots@.len() {
                Some(views(roots@)[n])
            } else {
                None
            }
        }),
{
    let n = find_overlap(path, is_file, roots, on_macos);
    if n < roots.len() {
        assert(views(roots@)[n as int] == roots@[n as int]@);
        Some(copy_str(roots[n].as_str()))
    } else {
        None
    }
}

proof fn lemma_first_overlap(
    path: Seq<char>,
    is_file: bool,
    roots: Seq<Seq<char>>,
    parents_allowed: bool,
    i: int,
)
    requires
        0 <= i < roots.len(),
        overlaps(path, is_file, roots[i], parents_allowed),
    ensures
        0 <= first_overlap(path, is_file, roots, parents_allowed) < roots.len(),
    decreases roots.len(),
{
    if i > 0 && !overlaps(path, is_file, roots[0], parents_allowed) {
        assert(roots.skip(1)[i - 1] == roots[i]);
        lemma_first_overlap(path, is_file, roots.skip(1), parents_allowed, i - 1);
    }
}

/// Nothing inside a protected root is ever granted, on any platform, whatever the profile says.
pub proof fn law_inside_is_refused(
    path: Seq<char>,
    is_file: bool,
    source: Seq<char>,
    roots: Seq<Seq<char>>,
    parents_allowed: bool,
    i: int,
)
    requires
        0 <= i < roots.len(),
        inside(path, roots[i]),
    ensures
        request_failure(path, is_file, source, roots, parents_allowed) is Some,
{
    lemma_first_overlap(path, is_file, roots, parents_allowed, i);
}

/// A directory around a protected root is refused unless the platform can deny what lies within
/// a grant and the profile asks for it.
pub proof fn law_parent_is_refused(
    path: Seq<char>,
    source: Seq<char>,
    roots: Seq<Seq<char>>,
    on_macos: bool,
    opted_in: bool,
    i: int,
)
    requires
        0 <= i < roots.len(),
        around(path, false, roots[i]),
        !parents_pass(on_macos, opted_in),
    ensures
        request_failure(path, false, source, roots, parents_pass(on_macos, opted_in)) is Some,
{
    lemma_first_overlap(path, false, roots, false, i);
}

/// A directory that passes the check where none around a root is allowed shares nothing with any
/// root: no path that the grant reaches lies inside one. A file that passes lies in none.
pub proof fn law_granted_reaches_no_root(
    path: Seq<char>,
    is_file: bool,
    source: Seq<char>,
    roots: Seq<Seq<char>>,
    i: int,
)
    requires
        0 <= i < roots.len(),
        request_failure(path, is_file, source, roots, false) is None,
    ensures
        !inside(path, roots[i]),
        !is_file ==> !path_within(roots[i], path),
        !is_file ==> forall|reached: Seq<char>| #[trigger]
            path_within(reached, path) ==> !inside(reached, roots[i]),
{
    if overlaps(path, is_file, roots[i], false) {
        lemma_first_overlap(path, is_file, roots, false, i);
    }
    if !is_file {
        assert forall|reached: Seq<char>| #[trigger] path_within(reached, path) implies !inside(
            reached,
            roots[i],
        ) by {
            if inside(reached, roots[i]) {
                lemma_one_within_the_other(reached, path, roots[i]);
            }
        }
    }
}

/// Of two paths that a third lies within, one lies within the other.
proof fn lemma_one_within_the_other(below: Seq<char>, a: Seq<char>, b: Seq<char>)
    requires
        path_within(below, a),
        path_within(below, b),
    ensures
        path_within(a, b) || path_within(b, a),
{
    let (s, x, y) = (components(below), components(a), components(b));
    assert(x =~= s.take(x.len() as int));
    assert(y =~= s.take(y.len() as int));
    if x.len() <= y.len() {
        assert(x =~= y.take(x.len() as int));
    } else {
        assert(y =~= x.take(y.len() as int));
    }
}

/// What lies below something inside a root lies inside that root too.
pub proof fn law_inside_is_closed(path: Seq<char>, below: Seq<char>, root: Seq<char>)
    requires
        inside(path, root),
        path_within(below, path),
    ensures
        inside(below, root),
{
    law_within_is_transitive(below, path, root);
}

/// The rules that keep a protected root closed although a directory around it is granted, where
/// the platform has such rules. `escaped` is the path as it is written in a rule.
pub open spec fn deny_rules(escaped: Seq<char>) -> Seq<Seq<char>> {
    let filter = "subpath \""@ + escaped + "\""@;
    seq![
        "(allow file-read-metadata ("@ + filter + "))"@,
        "(deny file-read-data ("@ + filter + "))"@,
        "(deny file-write* ("@ + filter + "))"@,
    ]
}

pub fn emit_deny_rules_for_path(escaped: &str) -> (r: Vec<String>)
    ensures
        views(r@) == deny_rules(escaped@),
{
    let filter = concat3("subpath \"", escaped, "\"");
    let mut r: Vec<String> = Vec::new();
    r.push(concat3("(allow file-read-metadata (", filter.as_str(), "))"));
    r.push(concat3("(deny file-read-data (", filter.as_str(), "))"));
    r.push(concat3("(deny file-write* (", filter.as_str(), "))"));
    assert(views(r@) =~= deny_rules(escaped@));
    r
}

/// The rules for all protected roots, which are given as they are written in a rule; none where
/// the platform has no such rules.
pub fn emit_protected_root_deny_rules(escaped_roots: &Vec<String>, on_macos: bool) -> (r: Vec<String>)
    ensures
        views(r@) == if on_macos {
            all_deny_rules(views(escaped_roots@))
        } else {
            Seq::empty()
        },
{
    let mut r: Vec<String> = Vec::new();
    assert(views(r@) =~= Seq::<Seq<char>>::empty());
    if on_macos {
        let ghost all = views(escaped_roots@);
        let mut i: usize = 0;
        while i < escaped_roots.len()
            invariant
                i <= escaped_roots@.len(),
                all == views(escaped_roots@),
                views(r@) == all_deny_rules(all.take(i as int)),
            decreases escaped_roots@.len() - i,
        {
            proof {
                assert(all.take(i + 1).drop_last() =~= all.take(i as int));
                assert(all.take(i + 1).last() == escaped_roots@[i as int]@);
            }
            let mut more = emit_deny_rules_for_path(escaped_roots[i].as_str());
            let ghost before = views(r@);
            let ghost added = views(more@);
            r.append(&mut more);
            assert(views(r@) =~= before + added);
            i += 1;
        }
        assert(all.take(i as int) =~= all);
    }
    r
}

pub open spec fn all_deny_rules(roots: Seq<Seq<char>>) -> Seq<Seq<char>>
    decreases roots.len(),
{
    if roots.len() == 0 {
        Seq::empty()
    } else {
        all_deny_rules(roots.drop_last()) + deny_rules(roots.last())
    }
}

} // verus!
