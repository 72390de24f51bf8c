//! Which grants are refused because they reach the program's own state.

use crate::capability::FsCapability;
use crate::error::ErrorView;
use crate::paths::path_within;
use crate::protected_paths::{
    all_deny_rules, caps_failure, first_overlap, overlaps, parents_pass, request_failure,
};
use vstd::prelude::*;

verus! {

/// A grant on a path reaches a protected directory: the path lies inside it, or is a directory around
/// it and such are not let pass.
pub open spec fn reaches(path: Seq<char>, is_file: bool, root: Seq<char>, around_passes: bool) -> bool {
    path_within(path, root) || (!is_file && !around_passes && path_within(root, path))
}

proof fn lemma_first_overlap(
    path: Seq<char>,
    is_file: bool,
    roots: Seq<Seq<char>>,
    pass: bool,
)
    ensures
        ({
            let n = first_overlap(path, is_file, roots, pass);
            &&& 0 <= n <= roots.len()
            &&& n < roots.len() ==> reaches(path, is_file, roots[n], pass)
            &&& forall|i: int| 0 <= i < n ==> !reaches(path, is_file, #[trigger] roots[i], pass)
        }),
    decreases roots.len(),
{
    if roots.len() > 0 && !overlaps(path, is_file, roots[0], pass) {
        let rest = roots.skip(1);
        lemma_first_overlap(path, is_file, rest, pass);
        let n = first_overlap(path, is_file, rest, pass);
        assert forall|i: int| 0 <= i < n + 1 implies !reaches(
            path,
            is_file,
            #[trigger] roots[i],
            pass,
        ) by {
            if i > 0 {
                assert(rest[i - 1] == roots[i]);
            }
        }
    }
}

/// A grant is refused exactly where it reaches a protected directory; on macOS a profile can let
/// directories around one pass, elsewhere nothing can. The refusal names the path, who asked for it,
/// and the first directory that it reaches.
pub proof fn law_refused_grants(
    path: Seq<char>,
    is_file: bool,
    source: Seq<char>,
    roots: Seq<Seq<char>>,
    on_macos: bool,
    opted_in: bool,
)
    ensures
        match request_failure(path, is_file, source, roots, parents_pass(on_macos, opted_in)) {
            None => forall|i: int|
                0 <= i < roots.len() ==> !reaches(
                    path,
                    is_file,
                    #[trigger] roots[i],
                    on_macos && opted_in,
                ),
            Some(e) => exists|i: int|
                0 <= i < roots.len() && reaches(
                    path,
                    is_file,
                    #[trigger] roots[i],
                    on_macos && opted_in,
                ) && e == ErrorView::SandboxInit(
                    "Refusing to grant '"@ + path + "' (source: "@ + source
                        + ") because it overlaps protected nono state root '"@ + roots[i] + "'."@,
                ),
        },
{
    lemma_first_overlap(path, is_file, roots, on_macos && opted_in);
}

/// A set of grants is refused exactly where one of them is.
pub proof fn law_refused_sets(
    caps: Seq<FsCapability>,
    roots: Seq<Seq<char>>,
    on_macos: bool,
    opted_in: bool,
)
    ensures
        caps_failure(caps, roots, parents_pass(on_macos, opted_in)) is Some <==> exists|
            k: int,
            i: int,
        |
            0 <= k < caps.len() && 0 <= i < roots.len() && reaches(
                (#[trigger] caps[k]).resolved@,
                caps[k].is_file,
                #[trigger] roots[i],
                on_macos && opted_in,
            ),
    decreases caps.len(),
{
    let pass = on_macos && opted_in;
    if caps.len() > 0 {
        let rest = caps.skip(1);
        let c = caps[0];
        law_refused_sets(rest, roots, on_macos, opted_in);
        lemma_first_overlap(c.resolved@, c.is_file, roots, pass);
        let n = first_overlap(c.resolved@, c.is_file, roots, pass);
        if n < roots.len() {
            assert(reaches(caps[0].resolved@, caps[0].is_file, roots[n], pass));
        }
        if exists|k: int, i: int|
            0 <= k < rest.len() && 0 <= i < roots.len() && reaches(
                (#[trigger] rest[k]).resolved@,
                rest[k].is_file,
                #[trigger] roots[i],
                pass,
            ) {
            let (k, i) = choose|k: int, i: int|
                0 <= k < rest.len() && 0 <= i < roots.len() && reaches(
                    (#[trigger] rest[k]).resolved@,
                    rest[k].is_file,
                    #[trigger] roots[i],
                    pass,
                );
            assert(caps[k + 1] == rest[k]);
            assert(reaches(caps[k + 1].resolved@, caps[k + 1].is_file, roots[i], pass));
        }
        if exists|k: int, i: int|
            0 <= k < caps.len() && 0 <= i < roots.len() && reaches(
                (#[trigger] caps[k]).resolved@,
                caps[k].is_file,
                #[trigger] roots[i],
                pass,
            ) {
            let (k, i) = choose|k: int, i: int|
                0 <= k < caps.len() && 0 <= i < roots.len() && reaches(
                    (#[trigger] caps[k]).resolved@,
                    caps[k].is_file,
                    #[trigger] roots[i],
                    pass,
                );
            if k > 0 {
                assert(rest[k - 1] == caps[k]);
                assert(reaches(rest[k - 1].resolved@, rest[k - 1].is_file, roots[i], pass));
            }
        }
    }
}

/// While the sandbox runs, the protected directory that is reported is the first that the path
/// reaches; on macOS directories around one are let pass.
pub proof fn law_reported_roots(path: Seq<char>, is_file: bool, roots: Seq<Seq<char>>, on_macos: bool)
    ensures
        ({
            let n = first_overlap(path, is_file, roots, on_macos);
            &&& 0 <= n <= roots.len()
            &&& n < roots.len() ==> reaches(path, is_file, roots[n], on_macos)
            &&& forall|i: int| 0 <= i < n ==> !reaches(path, is_file, #[trigger] roots[i], on_macos)
        }),
{
    lemma_first_overlap(path, is_file, roots, on_macos);
}

/// The rules of a platform that has them deny reading and writing below every protected directory,
/// and let only be seen that something is there.
pub proof fn law_rules_close_roots(roots: Seq<Seq<char>>, i: int)
    requires
        0 <= i < roots.len(),
    ensures
        all_deny_rules(roots).contains(
            "(deny file-read-data ("@ + ("subpath \""@ + roots[i] + "\""@) + "))"@,
        ),
        all_deny_rules(roots).contains(
            "(deny file-write* ("@ + ("subpath \""@ + roots[i] + "\""@) + "))"@,
        ),
        all_deny_rules(roots).len() == 3 * roots.len(),
    decreases roots.len(),
{
    lemma_rules(roots);
    let all = all_deny_rules(roots);
    assert(all[3 * i + 1] == "(deny file-read-data ("@ + ("subpath \""@ + roots[i] + "\""@) + "))"@);
    assert(all[3 * i + 2] == "(deny file-write* ("@ + ("subpath \""@ + roots[i] + "\""@) + "))"@);
}

proof fn lemma_rules(roots: Seq<Seq<char>>)
    ensures
        all_deny_rules(roots).len() == 3 * roots.len(),
        forall|i: int|
            0 <= i < roots.len() ==> {
                let filter = "subpath \""@ + (#[trigger] roots[i]) + "\""@;
                &&& all_deny_rules(roots)[3 * i] == "(allow file-read-metadata ("@ + filter + "))"@
                &&& all_deny_rules(roots)[3 * i + 1] == "(deny file-read-data ("@ + filter + "))"@
                &&& all_deny_rules(roots)[3 * i + 2] == "(deny file-write* ("@ + filter + "))"@
            },
    decreases roots.len(),
{
    if roots.len() > 0 {
        lemma_rules(roots.drop_last());
        assert forall|i: int| 0 <= i < roots.len() implies {
            let filter = "subpath \""@ + (#[trigger] roots[i]) + "\""@;
            &&& all_deny_rules(roots)[3 * i] == "(allow file-read-metadata ("@ + filter + "))"@
            &&& all_deny_rules(roots)[3 * i + 1] == "(deny file-read-data ("@ + filter + "))"@
            &&& all_deny_rules(roots)[3 * i + 2] == "(deny file-write* ("@ + filter + "))"@
        } by {
            if i < roots.len() - 1 {
                assert(roots.drop_last()[i] == roots[i]);
            }
        }
    }
}

} // verus!
