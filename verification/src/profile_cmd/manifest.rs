//! Compiling a profile into a capability manifest: a portable list of what a command may do, with
//! every path spelled out.

use crate::assoc::{find_key, lookup};
use crate::error::{ErrorView, NonoError};
use crate::paths::{path_starts_with, path_within};
use crate::profile::{
    clone_rules, rule_views, CredentialView, CustomCredentialDef, EndpointRule, InjectMode, NetworkConfig,
    Profile, ProfileIpcMode, ProfileProcessInfoMode, ProfileSignalMode, WorkdirAccess,
};
use crate::profile_runtime::{list_profile_paths, profile_paths, Expansion};
use crate::text::{
    clone_opt_string, clone_strings, concat2, concat3, copy_str, extend_strings,
    lemma_filter_step, lemma_is_sort_unique, lemma_lex_irreflexive, lemma_lex_total,
    lemma_lex_transitive, lex_lt, opt_view, push_copy, sort_unique, sorted_set, str_eq, str_lt,
    views,
};
use vstd::prelude::*;

verus! {

// ---------------------------------------------------------------------------
// Grants
// ---------------------------------------------------------------------------

/// How a path may be used.
#[derive(Clone, Copy, Debug, PartialEq, Eq, Structural)]
pub enum AccessMode {
    Read,
    Write,
    Readwrite,
}

/// Whether a grant is on a file or on a directory and all below it.
#[derive(Clone, Copy, Debug, PartialEq, Eq, Structural)]
pub enum FsEntryType {
    File,
    Directory,
}

/// A path that may be used.
#[derive(Debug)]
pub struct FsGrant {
    pub path: String,
    pub access: AccessMode,
    pub type_: FsEntryType,
}

pub struct GrantView {
    pub path: Seq<char>,
    pub access: AccessMode,
    pub type_: FsEntryType,
}

impl View for FsGrant {
    type V = GrantView;

    open spec fn view(&self) -> GrantView {
        GrantView { path: self.path@, access: self.access, type_: self.type_ }
    }
}

pub open spec fn grant_views(v: Seq<FsGrant>) -> Seq<GrantView> {
    v.map_values(|g: FsGrant| g@)
}

pub open spec fn may_read(a: AccessMode) -> bool {
    a != AccessMode::Write
}

pub open spec fn may_write(a: AccessMode) -> bool {
    a != AccessMode::Read
}

/// The access that allows what either of two allows.
pub open spec fn wider(a: AccessMode, b: AccessMode) -> AccessMode {
    if a == b {
        a
    } else {
        AccessMode::Readwrite
    }
}

/// The broader of two access modes; reading and writing together make both.
pub fn wider_access(a: AccessMode, b: AccessMode) -> (r: AccessMode)
    ensures
        r == wider(a, b),
        may_read(r) == (may_read(a) || may_read(b)),
        may_write(r) == (may_write(a) || may_write(b)),
{
    match (a, b) {
        (AccessMode::Readwrite, _) | (_, AccessMode::Readwrite) => AccessMode::Readwrite,
        (AccessMode::Read, AccessMode::Write) | (AccessMode::Write, AccessMode::Read) => {
            AccessMode::Readwrite
        },
        (AccessMode::Read, AccessMode::Read) => AccessMode::Read,
        (AccessMode::Write, AccessMode::Write) => AccessMode::Write,
    }
}

/// Widening does not depend on the order or the grouping, and a mode with itself is that mode.
pub proof fn law_wider_is_a_join(a: AccessMode, b: AccessMode, c: AccessMode)
    ensures
        wider(a, b) == wider(b, a),
        wider(wider(a, b), c) == wider(a, wider(b, c)),
        wider(a, a) == a,
{
}

/// The texts that the manifest's schema refuses, each with the reason, by the field that would
/// hold them.
#[derive(Debug)]
pub struct Refusals {
    pub paths: Vec<(String, String)>,
    pub methods: Vec<(String, String)>,
    pub endpoint_paths: Vec<(String, String)>,
    pub names: Vec<(String, String)>,
    pub upstreams: Vec<(String, String)>,
    pub sources: Vec<(String, String)>,
    pub env_vars: Vec<(String, String)>,
}

/// The failure for a text that a field cannot hold.
pub open spec fn refusal(
    refused: Seq<(String, String)>,
    text: Seq<char>,
    what: Seq<char>,
) -> Option<ErrorView> {
    match lookup(refused, text) {
        Some(reason) => Some(ErrorView::ConfigParse(what + reason@)),
        None => None,
    }
}

fn find_refusal(refused: &Vec<(String, String)>, text: &str, what: &str) -> (r: Option<NonoError>)
    ensures
        match r {
            Some(e) => refusal(refused@, text@, what@) == Some(e@),
            None => refusal(refused@, text@, what@) is None,
        },
{
    match find_key(refused, text) {
        Some(i) => Some(NonoError::ConfigParse(concat2(what, refused[i].1.as_str()))),
        None => None,
    }
}

pub open spec fn entry_type(is_file: bool) -> FsEntryType {
    if is_file {
        FsEntryType::File
    } else {
        FsEntryType::Directory
    }
}

/// A grant, unless the schema refuses the path.
pub open spec fn grant(
    path: Seq<char>,
    access: AccessMode,
    is_file: bool,
    refused: Seq<(String, String)>,
) -> Result<GrantView, ErrorView> {
    match refusal(refused, path, "invalid grant path: "@) {
        Some(e) => Err(e),
        None => Ok(GrantView { path, access, type_: entry_type(is_file) }),
    }
}

/// Makes a grant on an expanded path.
pub fn make_fs_grant(
    path: &str,
    access: AccessMode,
    is_file: bool,
    refused: &Vec<(String, String)>,
) -> (r: Result<FsGrant, NonoError>)
    ensures
        match r {
            Ok(g) => grant(path@, access, is_file, refused@) == Ok::<GrantView, ErrorView>(g@),
            Err(e) => grant(path@, access, is_file, refused@) == Err::<GrantView, ErrorView>(e@),
        },
{
    if let Some(e) = find_refusal(refused, path, "invalid grant path: ") {
        return Err(e);
    }
    let type_ = if is_file {
        FsEntryType::File
    } else {
        FsEntryType::Directory
    };
    Ok(FsGrant { path: copy_str(path), access, type_ })
}

/// What came of expanding a path template.
pub type Expanded = Result<String, NonoError>;

/// What a path template stands for: the table says so, and one that it does not hold stands for
/// itself.
pub open spec fn expansion(template: Seq<char>, table: Seq<(String, Expanded)>) -> Result<
    Seq<char>,
    ErrorView,
> {
    match lookup(table, template) {
        Some(Ok(p)) => Ok(p@),
        Some(Err(e)) => Err(e@),
        None => Ok(template),
    }
}

fn expand(template: &str, table: &Vec<(String, Expanded)>) -> (r: Result<String, NonoError>)
    ensures
        match r {
            Ok(p) => expansion(template@, table@) == Ok::<Seq<char>, ErrorView>(p@),
            Err(e) => expansion(template@, table@) == Err::<Seq<char>, ErrorView>(e@),
        },
{
    match find_key(table, template) {
        Some(i) => match &table[i].1 {
            Ok(p) => Ok(copy_str(p.as_str())),
            Err(e) => Err(e.copy()),
        },
        None => Ok(copy_str(template)),
    }
}

/// The grants so far, or the first failure.
pub type Grants = Result<Seq<GrantView>, ErrorView>;

/// One grant more, where nothing has failed yet.
pub open spec fn then_grant(so_far: Grants, next: Result<GrantView, ErrorView>) -> Grants {
    match so_far {
        Err(e) => Err(e),
        Ok(g) => match next {
            Err(e) => Err(e),
            Ok(x) => Ok(g.push(x)),
        },
    }
}

/// The grant on what a template stands for.
pub open spec fn expanded_grant(
    template: Seq<char>,
    table: Seq<(String, Expanded)>,
    access: AccessMode,
    is_file: bool,
    refused: Seq<(String, String)>,
) -> Result<GrantView, ErrorView> {
    match expansion(template, table) {
        Ok(path) => grant(path, access, is_file, refused),
        Err(e) => Err(e),
    }
}

/// Grants on all that a list of templates stands for.
pub open spec fn listed_grants(
    so_far: Grants,
    paths: Seq<Seq<char>>,
    table: Seq<(String, Expanded)>,
    access: AccessMode,
    is_file: bool,
    refused: Seq<(String, String)>,
) -> Grants
    decreases paths.len(),
{
    if paths.len() == 0 {
        so_far
    } else {
        then_grant(
            listed_grants(so_far, paths.drop_last(), table, access, is_file, refused),
            expanded_grant(paths.last(), table, access, is_file, refused),
        )
    }
}

/// The outcome of a step that adds to a list of grants.
pub open spec fn grants_are(r: Result<(), NonoError>, after: Seq<FsGrant>, want: Grants) -> bool {
    match r {
        Ok(()) => want == Ok::<Seq<GrantView>, ErrorView>(grant_views(after)),
        Err(e) => want == Err::<Seq<GrantView>, ErrorView>(e@),
    }
}

fn push_grant(grants: &mut Vec<FsGrant>, g: FsGrant)
    ensures
        grant_views(final(grants)@) == grant_views(old(grants)@).push(g@),
{
    grants.push(g);
    assert(grant_views(grants@) =~= grant_views(old(grants)@).push(g@));
}

proof fn lemma_listed_failure(
    so_far: Grants,
    paths: Seq<Seq<char>>,
    i: int,
    table: Seq<(String, Expanded)>,
    access: AccessMode,
    is_file: bool,
    refused: Seq<(String, String)>,
)
    requires
        0 <= i <= paths.len(),
        listed_grants(so_far, paths.take(i), table, access, is_file, refused) is Err,
    ensures
        listed_grants(so_far, paths, table, access, is_file, refused) == listed_grants(
            so_far,
            paths.take(i),
            table,
            access,
            is_file,
            refused,
        ),
    decreases paths.len(),
{
    if i == paths.len() {
        assert(paths.take(i) =~= paths);
    } else {
        assert(paths.drop_last().take(i) =~= paths.take(i));
        lemma_listed_failure(so_far, paths.drop_last(), i, table, access, is_file, refused);
    }
}

fn add_listed_grants(
    grants: &mut Vec<FsGrant>,
    paths: &Vec<String>,
    table: &Vec<(String, Expanded)>,
    access: AccessMode,
    is_file: bool,
    refused: &Vec<(String, String)>,
) -> (r: Result<(), NonoError>)
    ensures
        grants_are(
            r,
            final(grants)@,
            listed_grants(
                Ok(grant_views(old(grants)@)),
                views(paths@),
                table@,
                access,
                is_file,
                refused@,
            ),
        ),
{
    let ghost start: Grants = Ok(grant_views(grants@));
    let ghost all = views(paths@);
    let mut i: usize = 0;
    while i < paths.len()
        invariant
            i <= paths@.len(),
            all == views(paths@),
            start == Ok::<Seq<GrantView>, ErrorView>(grant_views(old(grants)@)),
            listed_grants(start, all.take(i as int), table@, access, is_file, refused@) == Ok::<
                Seq<GrantView>,
                ErrorView,
            >(grant_views(grants@)),
        decreases paths@.len() - i,
    {
        proof {
            assert(all.take(i + 1).drop_last() =~= all.take(i as int));
            assert(all.take(i + 1).last() == paths@[i as int]@);
        }
        let made = match expand(paths[i].as_str(), table) {
            Ok(p) => make_fs_grant(p.as_str(), access, is_file, refused),
            Err(e) => Err(e),
        };
        match made {
            Ok(g) => push_grant(grants, g),
            Err(e) => {
                proof {
                    lemma_listed_failure(start, all, i + 1, table@, access, is_file, refused@);
                }
                return Err(e);
            },
        }
        i += 1;
    }
    assert(all.take(i as int) =~= all);
    Ok(())
}

/// A path that the groups of a profile open.
#[derive(Debug)]
pub struct GroupCapability {
    pub path: String,
    pub access: AccessMode,
    pub is_file: bool,
}

/// What the groups of a profile amount to.
#[derive(Debug)]
pub struct GroupAccess {
    pub capabilities: Vec<GroupCapability>,
    pub deny_paths: Vec<String>,
    pub blocked_commands: Vec<String>,
}

/// Groups that were resolved together, by name, and what they amount to.
#[derive(Debug)]
pub struct ResolvedGroups {
    pub names: Vec<String>,
    pub access: Result<GroupAccess, NonoError>,
}

/// What the surroundings make of a profile: what its path templates stand for, by the text of the
/// template, with a table of its own for the paths that lift protection; its groups resolved; the
/// working directory; the format of each custom credential; and what the manifest's schema
/// refuses.
#[derive(Debug)]
pub struct Surroundings {
    pub expansions: Vec<(String, Expanded)>,
    pub bypass_expansions: Vec<(String, Expansion)>,
    pub groups: ResolvedGroups,
    pub workdir: String,
    pub formats: Vec<String>,
    pub refused: Refusals,
}

impl Surroundings {
    /// The surroundings are those of a profile: the groups that were resolved are the ones that it
    /// includes, and each of its custom credentials has a format.
    pub open spec fn fit(self, p: Profile) -> bool {
        &&& views(self.groups.names@) == views(p.groups.included@)
        &&& self.formats@.len() == p.network.custom_credentials@.len()
    }
}

/// The grants that the lists of the profile give.
pub open spec fn profile_grants(p: Profile, s: Surroundings) -> Grants {
    let refused = s.refused.paths@;
    let table = s.expansions@;
    let fs = p.filesystem;
    let g = Ok(Seq::<GrantView>::empty());
    let g = listed_grants(g, views(fs.allow@), table, AccessMode::Readwrite, false, refused);
    let g = listed_grants(g, views(fs.read@), table, AccessMode::Read, false, refused);
    let g = listed_grants(g, views(fs.write@), table, AccessMode::Write, false, refused);
    let g = listed_grants(g, views(fs.allow_file@), table, AccessMode::Readwrite, true, refused);
    let g = listed_grants(g, views(fs.read_file@), table, AccessMode::Read, true, refused);
    listed_grants(g, views(fs.write_file@), table, AccessMode::Write, true, refused)
}

proof fn lemma_failure_stays(
    e: ErrorView,
    paths: Seq<Seq<char>>,
    table: Seq<(String, Expanded)>,
    access: AccessMode,
    is_file: bool,
    refused: Seq<(String, String)>,
)
    ensures
        listed_grants(Err(e), paths, table, access, is_file, refused) == Err::<
            Seq<GrantView>,
            ErrorView,
        >(e),
    decreases paths.len(),
{
    if paths.len() > 0 {
        lemma_failure_stays(e, paths.drop_last(), table, access, is_file, refused);
    }
}

proof fn lemma_failure_stays_in_all(e: ErrorView, table: Seq<(String, Expanded)>)
    ensures
        forall|
            paths: Seq<Seq<char>>,
            access: AccessMode,
            is_file: bool,
            refused: Seq<(String, String)>,
        | #[trigger]
            listed_grants(Err(e), paths, table, access, is_file, refused) == Err::<
                Seq<GrantView>,
                ErrorView,
            >(e),
{
    assert forall|
        paths: Seq<Seq<char>>,
        access: AccessMode,
        is_file: bool,
        refused: Seq<(String, String)>,
    | #[trigger]
        listed_grants(Err(e), paths, table, access, is_file, refused) == Err::<
            Seq<GrantView>,
            ErrorView,
        >(e) by {
        lemma_failure_stays(e, paths, table, access, is_file, refused);
    }
}

fn add_profile_grants(grants: &mut Vec<FsGrant>, p: &Profile, s: &Surroundings) -> (r: Result<
    (),
    NonoError,
>)
    requires
        old(grants)@.len() == 0,
    ensures
        grants_are(r, final(grants)@, profile_grants(*p, *s)),
{
    let refused = &s.refused.paths;
    let table = &s.expansions;
    let fs = &p.filesystem;
    assert(grant_views(grants@) =~= Seq::<GrantView>::empty());
    if let Err(e) = add_listed_grants(
        grants,
        &fs.allow,
        table,
        AccessMode::Readwrite,
        false,
        refused,
    ) {
        proof {
            lemma_failure_stays_in_all(e@, table@);
        }
        return Err(e);
    }
    if let Err(e) = add_listed_grants(
        grants,
        &fs.read,
        table,
        AccessMode::Read,
        false,
        refused,
    ) {
        proof {
            lemma_failure_stays_in_all(e@, table@);
        }
        return Err(e);
    }
    if let Err(e) = add_listed_grants(
        grants,
        &fs.write,
        table,
        AccessMode::Write,
        false,
        refused,
    ) {
        proof {
            lemma_failure_stays_in_all(e@, table@);
        }
        return Err(e);
    }
    if let Err(e) = add_listed_grants(
        grants,
        &fs.allow_file,
        table,
        AccessMode::Readwrite,
        true,
        refused,
    ) {
        proof {
            lemma_failure_stays_in_all(e@, table@);
        }
        return Err(e);
    }
    if let Err(e) = add_listed_grants(
        grants,
        &fs.read_file,
        table,
        AccessMode::Read,
        true,
        refused,
    ) {
        proof {
            lemma_failure_stays_in_all(e@, table@);
        }
        return Err(e);
    }
    add_listed_grants(grants, &fs.write_file, table, AccessMode::Write, true, refused)
}

/// Grants on the paths that the groups open.
pub open spec fn group_grants(
    so_far: Grants,
    caps: Seq<GroupCapability>,
    refused: Seq<(String, String)>,
) -> Grants
    decreases caps.len(),
{
    if caps.len() == 0 {
        so_far
    } else {
        then_grant(
            group_grants(so_far, caps.drop_last(), refused),
            grant(caps.last().path@, caps.last().access, caps.last().is_file, refused),
        )
    }
}

proof fn lemma_group_failure(
    so_far: Grants,
    caps: Seq<GroupCapability>,
    i: int,
    refused: Seq<(String, String)>,
)
    requires
        0 <= i <= caps.len(),
        group_grants(so_far, caps.take(i), refused) is Err,
    ensures
        group_grants(so_far, caps, refused) == group_grants(so_far, caps.take(i), refused),
    decreases caps.len(),
{
    if i == caps.len() {
        assert(caps.take(i) =~= caps);
    } else {
        assert(caps.drop_last().take(i) =~= caps.take(i));
        lemma_group_failure(so_far, caps.drop_last(), i, refused);
    }
}

fn add_group_grants(
    grants: &mut Vec<FsGrant>,
    caps: &Vec<GroupCapability>,
    refused: &Vec<(String, String)>,
) -> (r: Result<(), NonoError>)
    ensures
        grants_are(
            r,
            final(grants)@,
            group_grants(Ok(grant_views(old(grants)@)), caps@, refused@),
        ),
{
    let ghost start: Grants = Ok(grant_views(grants@));
    let mut i: usize = 0;
    while i < caps.len()
        invariant
            i <= caps@.len(),
            start == Ok::<Seq<GrantView>, ErrorView>(grant_views(old(grants)@)),
            group_grants(start, caps@.take(i as int), refused@) == Ok::<
                Seq<GrantView>,
                ErrorView,
            >(grant_views(grants@)),
        decreases caps@.len() - i,
    {
        proof {
            assert(caps@.take(i + 1).drop_last() =~= caps@.take(i as int));
            assert(caps@.take(i + 1).last() == caps@[i as int]);
        }
        match make_fs_grant(caps[i].path.as_str(), caps[i].access, caps[i].is_file, refused) {
            Ok(g) => push_grant(grants, g),
            Err(e) => {
                proof {
                    lemma_group_failure(start, caps@, i + 1, refused@);
                }
                return Err(e);
            },
        }
        i += 1;
    }
    assert(caps@.take(i as int) =~= caps@);
    Ok(())
}

/// The grant on the working directory, if the profile gives one.
pub open spec fn workdir_mode(access: WorkdirAccess) -> Option<AccessMode> {
    match access {
        WorkdirAccess::ReadWrite => Some(AccessMode::Readwrite),
        WorkdirAccess::Read => Some(AccessMode::Read),
        WorkdirAccess::Write => Some(AccessMode::Write),
        WorkdirAccess::NoAccess => None,
    }
}

pub open spec fn workdir_grants(
    so_far: Grants,
    workdir: Seq<char>,
    access: WorkdirAccess,
    refused: Seq<(String, String)>,
) -> Grants {
    match workdir_mode(access) {
        Some(mode) => then_grant(so_far, grant(workdir, mode, false, refused)),
        None => so_far,
    }
}

fn add_workdir_grant(
    grants: &mut Vec<FsGrant>,
    workdir: &str,
    access: WorkdirAccess,
    refused: &Vec<(String, String)>,
) -> (r: Result<(), NonoError>)
    ensures
        grants_are(
            r,
            final(grants)@,
            workdir_grants(Ok(grant_views(old(grants)@)), workdir@, access, refused@),
        ),
{
    let mode = match access {
        WorkdirAccess::ReadWrite => AccessMode::Readwrite,
        WorkdirAccess::Read => AccessMode::Read,
        WorkdirAccess::Write => AccessMode::Write,
        WorkdirAccess::NoAccess => {
            return Ok(());
        },
    };
    match make_fs_grant(workdir, mode, false, refused) {
        Ok(g) => {
            push_grant(grants, g);
            Ok(())
        },
        Err(e) => Err(e),
    }
}

// ---------------------------------------------------------------------------
// Sorting and merging grants
// ---------------------------------------------------------------------------

/// A grant put behind all that do not come after its path.
pub open spec fn insert_grant(s: Seq<GrantView>, g: GrantView) -> Seq<GrantView>
    decreases s.len(),
{
    if s.len() == 0 || !lex_lt(g.path, s.last().path) {
        s.push(g)
    } else {
        insert_grant(s.drop_last(), g).push(s.last())
    }
}

/// Grants in the order of their paths; those on one path stay as they came.
pub open spec fn sort_grants(s: Seq<GrantView>) -> Seq<GrantView>
    decreases s.len(),
{
    if s.len() == 0 {
        Seq::empty()
    } else {
        insert_grant(sort_grants(s.drop_last()), s.last())
    }
}

/// Two grants are on the same file or the same directory.
pub open spec fn same_entry(a: GrantView, b: GrantView) -> bool {
    a.path == b.path && a.type_ == b.type_
}

/// Neighbours on the same entry made one, with the wider access.
pub open spec fn merge_grants(s: Seq<GrantView>) -> Seq<GrantView>
    decreases s.len(),
{
    if s.len() == 0 {
        Seq::empty()
    } else {
        let done = merge_grants(s.drop_last());
        let g = s.last();
        if done.len() > 0 && same_entry(done.last(), g) {
            done.drop_last().push(
                GrantView {
                    path: g.path,
                    access: wider(g.access, done.last().access),
                    type_: g.type_,
                },
            )
        } else {
            done.push(g)
        }
    }
}

proof fn lemma_insert_grant_at(s: Seq<GrantView>, g: GrantView, k: int)
    requires
        0 <= k <= s.len(),
        forall|i: int| k <= i < s.len() ==> lex_lt(g.path, (#[trigger] s[i]).path),
        k > 0 ==> !lex_lt(g.path, s[k - 1].path),
    ensures
        insert_grant(s, g) == s.insert(k, g),
    decreases s.len(),
{
    if k == s.len() {
        assert(s.insert(k, g) =~= s.push(g));
    } else {
        assert(lex_lt(g.path, s[s.len() - 1].path));
        lemma_insert_grant_at(s.drop_last(), g, k);
        assert(s.drop_last().insert(k, g).push(s.last()) =~= s.insert(k, g));
    }
}

fn insert_fs_grant(v: &mut Vec<FsGrant>, g: FsGrant)
    ensures
        grant_views(final(v)@) == insert_grant(grant_views(old(v)@), g@),
{
    let ghost before = grant_views(v@);
    let mut k: usize = v.len();
    while k > 0 && str_lt(g.path.as_str(), v[k - 1].path.as_str())
        invariant
            k <= v@.len(),
            before == grant_views(v@),
            *v == *old(v),
            forall|i: int| k <= i < before.len() ==> lex_lt(g@.path, (#[trigger] before[i]).path),
        decreases k,
    {
        assert(before[k - 1] == v@[k - 1]@);
        k -= 1;
    }
    proof {
        if k > 0 {
            assert(before[k - 1] == v@[k - 1]@);
        }
        lemma_insert_grant_at(before, g@, k as int);
    }
    v.insert(k, g);
    assert(grant_views(v@) =~= before.insert(k as int, g@));
}

fn copy_grant(g: &FsGrant) -> (r: FsGrant)
    ensures
        r@ == g@,
{
    FsGrant { path: copy_str(g.path.as_str()), access: g.access, type_: g.type_ }
}

fn sorted_grants(v: &Vec<FsGrant>) -> (r: Vec<FsGrant>)
    ensures
        grant_views(r@) == sort_grants(grant_views(v@)),
{
    let mut r: Vec<FsGrant> = Vec::new();
    let ghost all = grant_views(v@);
    let mut i: usize = 0;
    assert(grant_views(r@) =~= sort_grants(all.take(0)));
    while i < v.len()
        invariant
            i <= v@.len(),
            all == grant_views(v@),
            grant_views(r@) == sort_grants(all.take(i as int)),
        decreases v@.len() - i,
    {
        proof {
            assert(all.take(i + 1).drop_last() =~= all.take(i as int));
            assert(all.take(i + 1).last() == v@[i as int]@);
        }
        insert_fs_grant(&mut r, copy_grant(&v[i]));
        i += 1;
    }
    assert(all.take(i as int) =~= all);
    r
}

fn merged_grants(v: &Vec<FsGrant>) -> (r: Vec<FsGrant>)
    ensures
        grant_views(r@) == merge_grants(grant_views(v@)),
{
    let mut r: Vec<FsGrant> = Vec::new();
    let ghost all = grant_views(v@);
    let mut i: usize = 0;
    assert(grant_views(r@) =~= merge_grants(all.take(0)));
    while i < v.len()
        invariant
            i <= v@.len(),
            all == grant_views(v@),
            grant_views(r@) == merge_grants(all.take(i as int)),
        decreases v@.len() - i,
    {
        let ghost done = grant_views(r@);
        proof {
            assert(all.take(i + 1).drop_last() =~= all.take(i as int));
            assert(all.take(i + 1).last() == v@[i as int]@);
            if r@.len() > 0 {
                assert(done.last() == r@.last()@);
            }
        }
        let g = &v[i];
        let same = r.len() > 0 && str_eq(r[r.len() - 1].path.as_str(), g.path.as_str())
            && r[r.len() - 1].type_ == g.type_;
        if same {
            let access = wider_access(g.access, r[r.len() - 1].access);
            r.pop();
            assert(grant_views(r@) =~= done.drop_last());
            push_grant(&mut r, FsGrant { path: copy_str(g.path.as_str()), access, type_: g.type_ });
        } else {
            push_grant(&mut r, copy_grant(g));
        }
        i += 1;
    }
    assert(all.take(i as int) =~= all);
    r
}

/// Grants in the order of their paths.
pub open spec fn by_path(s: Seq<GrantView>) -> bool {
    forall|i: int, j: int|
        0 <= i < j < s.len() ==> !lex_lt((#[trigger] s[j]).path, (#[trigger] s[i]).path)
}

/// Some grant in `s` is on the entry of `g` and allows all that `g` allows.
pub open spec fn covered(s: Seq<GrantView>, g: GrantView) -> bool {
    exists|i: int|
        0 <= i < s.len() && same_entry(#[trigger] s[i], g) && wider(g.access, s[i].access)
            == s[i].access
}

/// Some grant in `s` on the entry of `g` allows reading.
pub open spec fn some_reads(s: Seq<GrantView>, g: GrantView) -> bool {
    exists|i: int| 0 <= i < s.len() && same_entry(#[trigger] s[i], g) && may_read(s[i].access)
}

/// Some grant in `s` on the entry of `g` allows writing.
pub open spec fn some_writes(s: Seq<GrantView>, g: GrantView) -> bool {
    exists|i: int| 0 <= i < s.len() && same_entry(#[trigger] s[i], g) && may_write(s[i].access)
}

proof fn lemma_insert_grant(s: Seq<GrantView>, g: GrantView)
    requires
        by_path(s),
    ensures
        by_path(insert_grant(s, g)),
        insert_grant(s, g).len() == s.len() + 1,
        insert_grant(s, g).to_multiset() == s.to_multiset().insert(g),
        insert_grant(s, g).last() == g || s.len() > 0 && insert_grant(s, g).last() == s.last(),
    decreases s.len(),
{
    broadcast use vstd::seq_lib::group_to_multiset_ensures;

    if s.len() == 0 || !lex_lt(g.path, s.last().path) {
        assert forall|i: int, j: int| 0 <= i < j < s.push(g).len() implies !lex_lt(
            (#[trigger] s.push(g)[j]).path,
            (#[trigger] s.push(g)[i]).path,
        ) by {
            if j == s.len() && lex_lt(g.path, s[i].path) {
                let last = s[s.len() - 1];
                if i < s.len() - 1 {
                    assert(!lex_lt(last.path, s[i].path));
                    lemma_lex_total(last.path, s[i].path);
                    if lex_lt(s[i].path, last.path) {
                        lemma_lex_transitive(g.path, s[i].path, last.path);
                    }
                }
            }
        }
    } else {
        let front = s.drop_last();
        let r = insert_grant(front, g);
        lemma_insert_grant(front, g);
        assert(s =~= front.push(s.last()));
        assert(r.push(s.last()).to_multiset() =~= s.to_multiset().insert(g));
        assert forall|i: int, j: int| 0 <= i < j < r.push(s.last()).len() implies !lex_lt(
            (#[trigger] r.push(s.last())[j]).path,
            (#[trigger] r.push(s.last())[i]).path,
        ) by {
            if j == r.len() {
                assert(r.contains(r[i]));
                assert(r.to_multiset().contains(r[i]));
                if r[i] != g {
                    assert(front.to_multiset().contains(r[i]));
                    assert(front.contains(r[i]));
                    let k = choose|k: int| 0 <= k < front.len() && front[k] == r[i];
                    assert(s[k] == r[i]);
                    assert(!lex_lt(s[s.len() - 1].path, s[k].path));
                } else if lex_lt(s.last().path, g.path) {
                    lemma_lex_transitive(g.path, s.last().path, g.path);
                    lemma_lex_irreflexive(g.path);
                }
            }
        }
    }
}

/// Sorting orders the grants by path and neither loses nor adds one.
pub proof fn law_sorting_keeps_grants(s: Seq<GrantView>)
    ensures
        by_path(sort_grants(s)),
        sort_grants(s).to_multiset() == s.to_multiset(),
    decreases s.len(),
{
    broadcast use vstd::seq_lib::group_to_multiset_ensures;

    if s.len() > 0 {
        law_sorting_keeps_grants(s.drop_last());
        lemma_insert_grant(sort_grants(s.drop_last()), s.last());
        assert(s =~= s.drop_last().push(s.last()));
    }
}

/// What `g` allows, some grant in `s` on the same entry allows.
pub open spec fn backed_by(s: Seq<GrantView>, g: GrantView) -> bool {
    &&& may_read(g.access) ==> some_reads(s, g)
    &&& may_write(g.access) ==> some_writes(s, g)
}

/// No two neighbours are on the same entry.
pub open spec fn no_same_neighbours(s: Seq<GrantView>) -> bool {
    forall|i: int| 0 < i < s.len() ==> !same_entry(#[trigger] s[i - 1], s[i])
}

proof fn lemma_front_by_path(s: Seq<GrantView>)
    requires
        by_path(s),
        s.len() > 0,
    ensures
        by_path(s.drop_last()),
{
    let front = s.drop_last();
    assert forall|i: int, j: int| 0 <= i < j < front.len() implies !lex_lt(
        (#[trigger] front[j]).path,
        (#[trigger] front[i]).path,
    ) by {
        assert(front[j] == s[j] && front[i] == s[i]);
    }
}

proof fn lemma_merging_keeps_order(s: Seq<GrantView>)
    requires
        by_path(s),
    ensures
        by_path(merge_grants(s)),
    decreases s.len(),
{
    if s.len() > 0 {
        let front = s.drop_last();
        let done = merge_grants(front);
        let r = merge_grants(s);
        lemma_front_by_path(s);
        lemma_merging_keeps_order(front);
        lemma_merged_paths(front);
        assert forall|i: int, j: int| 0 <= i < j < r.len() implies !lex_lt(
            (#[trigger] r[j]).path,
            (#[trigger] r[i]).path,
        ) by {
            if j < done.len() {
                assert(r[i].path == done[i].path);
                assert(r[j].path == done[j].path);
            } else {
                assert(r[i] == done[i]);
                let k = choose|k: int|
                    0 <= k < front.len() && same_entry(#[trigger] front[k], done[i]);
                assert(s[k] == front[k]);
                assert(!lex_lt(s[s.len() - 1].path, s[k].path));
            }
        }
    }
}

proof fn lemma_merging_parts_neighbours(s: Seq<GrantView>)
    ensures
        no_same_neighbours(merge_grants(s)),
    decreases s.len(),
{
    if s.len() > 0 {
        let done = merge_grants(s.drop_last());
        let r = merge_grants(s);
        lemma_merging_parts_neighbours(s.drop_last());
        assert forall|i: int| 0 < i < r.len() implies !same_entry(#[trigger] r[i - 1], r[i]) by {
            if i < done.len() {
                assert(!same_entry(done[i - 1], done[i]));
            }
        }
    }
}

proof fn lemma_merging_covers(s: Seq<GrantView>, k: int)
    requires
        0 <= k < s.len(),
    ensures
        covered(merge_grants(s), s[k]),
    decreases s.len(),
{
    let front = s.drop_last();
    let done = merge_grants(front);
    let r = merge_grants(s);
    if k < front.len() {
        assert(front[k] == s[k]);
        lemma_merging_covers(front, k);
        let i = choose|i: int|
            0 <= i < done.len() && same_entry(#[trigger] done[i], s[k]) && wider(
                s[k].access,
                done[i].access,
            ) == done[i].access;
        assert(same_entry(r[i], s[k]));
        assert(wider(s[k].access, r[i].access) == r[i].access);
    } else {
        assert(same_entry(r[r.len() - 1], s[k]));
    }
}

proof fn lemma_backed_by_more(s: Seq<GrantView>, x: GrantView, y: GrantView)
    requires
        s.len() > 0,
        backed_by(s.drop_last(), y),
        same_entry(x, y),
    ensures
        may_read(y.access) ==> some_reads(s, x),
        may_write(y.access) ==> some_writes(s, x),
{
    let front = s.drop_last();
    if may_read(y.access) {
        let k = choose|k: int|
            0 <= k < front.len() && same_entry(#[trigger] front[k], y) && may_read(front[k].access);
        assert(same_entry(s[k], x));
    }
    if may_write(y.access) {
        let k = choose|k: int|
            0 <= k < front.len() && same_entry(#[trigger] front[k], y) && may_write(
                front[k].access,
            );
        assert(same_entry(s[k], x));
    }
}

proof fn lemma_merging_adds_nothing(s: Seq<GrantView>, i: int)
    requires
        0 <= i < merge_grants(s).len(),
    ensures
        backed_by(s, merge_grants(s)[i]),
    decreases s.len(),
{
    let front = s.drop_last();
    let done = merge_grants(front);
    let x = merge_grants(s)[i];
    if i < done.len() {
        lemma_merging_adds_nothing(front, i);
        lemma_backed_by_more(s, x, done[i]);
    }
    if i == merge_grants(s).len() - 1 {
        assert(same_entry(s[s.len() - 1], x));
    }
}

/// Merging keeps the order, leaves no two neighbours on the same entry, takes nothing away that a
/// grant allowed, and allows nothing that no grant on the entry allowed.
pub proof fn law_merging_keeps_access(s: Seq<GrantView>)
    requires
        by_path(s),
    ensures
        by_path(merge_grants(s)),
        no_same_neighbours(merge_grants(s)),
        forall|k: int| 0 <= k < s.len() ==> covered(merge_grants(s), #[trigger] s[k]),
        forall|i: int|
            0 <= i < merge_grants(s).len() ==> backed_by(s, #[trigger] merge_grants(s)[i]),
{
    lemma_merging_keeps_order(s);
    lemma_merging_parts_neighbours(s);
    assert forall|k: int| 0 <= k < s.len() implies covered(merge_grants(s), #[trigger] s[k]) by {
        lemma_merging_covers(s, k);
    }
    assert forall|i: int| 0 <= i < merge_grants(s).len() implies backed_by(
        s,
        #[trigger] merge_grants(s)[i],
    ) by {
        lemma_merging_adds_nothing(s, i);
    }
}

/// Every merged grant is on the entry of some grant.
proof fn lemma_merged_paths(s: Seq<GrantView>)
    ensures
        forall|i: int|
            0 <= i < merge_grants(s).len() ==> exists|k: int|
                0 <= k < s.len() && same_entry(#[trigger] s[k], #[trigger] merge_grants(s)[i]),
    decreases s.len(),
{
    if s.len() > 0 {
        let front = s.drop_last();
        let done = merge_grants(front);
        let r = merge_grants(s);
        lemma_merged_paths(front);
        assert forall|i: int| 0 <= i < r.len() implies exists|k: int|
            0 <= k < s.len() && same_entry(#[trigger] s[k], #[trigger] r[i]) by {
            if i < done.len() {
                let k = choose|k: int|
                    0 <= k < front.len() && same_entry(#[trigger] front[k], done[i]);
                assert(same_entry(s[k], r[i]));
            } else {
                assert(same_entry(s[s.len() - 1], r[i]));
            }
        }
    }
}

// ---------------------------------------------------------------------------
// Denied paths
// ---------------------------------------------------------------------------

/// The texts so far, or the first failure.
pub type Texts = Result<Seq<Seq<char>>, ErrorView>;

/// What a denied path contributes.
pub open spec fn then_deny(so_far: Texts, path: Seq<char>, refused: Seq<(String, String)>) -> Texts {
    match so_far {
        Err(e) => Err(e),
        Ok(d) => match refusal(refused, path, "invalid deny path: "@) {
            Some(e) => Err(e),
            None => Ok(d.push(path)),
        },
    }
}

/// The paths that the profile denies.
pub open spec fn listed_deny(
    paths: Seq<Seq<char>>,
    table: Seq<(String, Expanded)>,
    refused: Seq<(String, String)>,
) -> Texts
    decreases paths.len(),
{
    if paths.len() == 0 {
        Ok(Seq::empty())
    } else {
        let so_far = listed_deny(paths.drop_last(), table, refused);
        match (so_far, expansion(paths.last(), table)) {
            (Err(e), _) => Err(e),
            (Ok(_), Err(e)) => Err(e),
            (Ok(_), Ok(p)) => then_deny(so_far, p, refused),
        }
    }
}

/// One of the paths that lift protection lifts it from `path`.
pub open spec fn is_bypassed(path: Seq<char>, bypassed: Seq<Seq<char>>) -> bool {
    exists|i: int| 0 <= i < bypassed.len() && path_within(path, #[trigger] bypassed[i])
}

/// The paths that the groups deny, without those whose protection is lifted.
pub open spec fn group_deny(
    so_far: Texts,
    paths: Seq<Seq<char>>,
    bypassed: Seq<Seq<char>>,
    refused: Seq<(String, String)>,
) -> Texts
    decreases paths.len(),
{
    if paths.len() == 0 {
        so_far
    } else {
        let before = group_deny(so_far, paths.drop_last(), bypassed, refused);
        if is_bypassed(paths.last(), bypassed) {
            before
        } else {
            then_deny(before, paths.last(), refused)
        }
    }
}

proof fn lemma_listed_deny_failure(
    paths: Seq<Seq<char>>,
    i: int,
    table: Seq<(String, Expanded)>,
    refused: Seq<(String, String)>,
)
    requires
        0 <= i <= paths.len(),
        listed_deny(paths.take(i), table, refused) is Err,
    ensures
        listed_deny(paths, table, refused) == listed_deny(paths.take(i), table, refused),
    decreases paths.len(),
{
    if i == paths.len() {
        assert(paths.take(i) =~= paths);
    } else {
        assert(paths.drop_last().take(i) =~= paths.take(i));
        lemma_listed_deny_failure(paths.drop_last(), i, table, refused);
    }
}

proof fn lemma_group_deny_failure(
    so_far: Texts,
    paths: Seq<Seq<char>>,
    i: int,
    bypassed: Seq<Seq<char>>,
    refused: Seq<(String, String)>,
)
    requires
        0 <= i <= paths.len(),
        group_deny(so_far, paths.take(i), bypassed, refused) is Err,
    ensures
        group_deny(so_far, paths, bypassed, refused) == group_deny(
            so_far,
            paths.take(i),
            bypassed,
            refused,
        ),
    decreases paths.len(),
{
    if i == paths.len() {
        assert(paths.take(i) =~= paths);
    } else {
        assert(paths.drop_last().take(i) =~= paths.take(i));
        lemma_group_deny_failure(so_far, paths.drop_last(), i, bypassed, refused);
    }
}

pub open spec fn texts_are(r: Result<(), NonoError>, after: Seq<String>, want: Texts) -> bool {
    match r {
        Ok(()) => want == Ok::<Seq<Seq<char>>, ErrorView>(views(after)),
        Err(e) => want == Err::<Seq<Seq<char>>, ErrorView>(e@),
    }
}

fn add_deny(deny: &mut Vec<String>, path: &str, refused: &Vec<(String, String)>) -> (r: Result<
    (),
    NonoError,
>)
    ensures
        texts_are(r, final(deny)@, then_deny(Ok(views(old(deny)@)), path@, refused@)),
{
    if let Some(e) = find_refusal(refused, path, "invalid deny path: ") {
        return Err(e);
    }
    push_copy(deny, path);
    Ok(())
}

fn add_listed_deny(
    deny: &mut Vec<String>,
    paths: &Vec<String>,
    table: &Vec<(String, Expanded)>,
    refused: &Vec<(String, String)>,
) -> (r: Result<(), NonoError>)
    requires
        old(deny)@.len() == 0,
    ensures
        texts_are(r, final(deny)@, listed_deny(views(paths@), table@, refused@)),
{
    let ghost all = views(paths@);
    let mut i: usize = 0;
    assert(views(deny@) =~= Seq::<Seq<char>>::empty());
    while i < paths.len()
        invariant
            i <= paths@.len(),
            all == views(paths@),
            listed_deny(all.take(i as int), table@, refused@) == Ok::<Seq<Seq<char>>, ErrorView>(
                views(deny@),
            ),
        decreases paths@.len() - i,
    {
        proof {
            assert(all.take(i + 1).drop_last() =~= all.take(i as int));
            assert(all.take(i + 1).last() == paths@[i as int]@);
        }
        let added = match expand(paths[i].as_str(), table) {
            Ok(p) => add_deny(deny, p.as_str(), refused),
            Err(e) => Err(e),
        };
        if let Err(e) = added {
            proof {
                lemma_listed_deny_failure(all, i + 1, table@, refused@);
            }
            return Err(e);
        }
        i += 1;
    }
    assert(all.take(i as int) =~= all);
    Ok(())
}

fn lifts_protection(path: &str, bypassed: &Vec<String>) -> (r: bool)
    ensures
        r == is_bypassed(path@, views(bypassed@)),
{
    let mut i: usize = 0;
    while i < bypassed.len()
        invariant
            i <= bypassed@.len(),
            forall|k: int| 0 <= k < i ==> !path_within(path@, #[trigger] views(bypassed@)[k]),
        decreases bypassed@.len() - i,
    {
        assert(views(bypassed@)[i as int] == bypassed@[i as int]@);
        if path_starts_with(path, bypassed[i].as_str()) {
            return true;
        }
        i += 1;
    }
    false
}

fn add_group_deny(
    deny: &mut Vec<String>,
    paths: &Vec<String>,
    bypassed: &Vec<String>,
    refused: &Vec<(String, String)>,
) -> (r: Result<(), NonoError>)
    ensures
        texts_are(
            r,
            final(deny)@,
            group_deny(Ok(views(old(deny)@)), views(paths@), views(bypassed@), refused@),
        ),
{
    let ghost start: Texts = Ok(views(deny@));
    let ghost all = views(paths@);
    let mut i: usize = 0;
    while i < paths.len()
        invariant
            i <= paths@.len(),
            all == views(paths@),
            start == Ok::<Seq<Seq<char>>, ErrorView>(views(old(deny)@)),
            group_deny(start, all.take(i as int), views(bypassed@), refused@) == Ok::<
                Seq<Seq<char>>,
                ErrorView,
            >(views(deny@)),
        decreases paths@.len() - i,
    {
        proof {
            assert(all.take(i + 1).drop_last() =~= all.take(i as int));
            assert(all.take(i + 1).last() == paths@[i as int]@);
        }
        if !lifts_protection(paths[i].as_str(), bypassed) {
            if let Err(e) = add_deny(deny, paths[i].as_str(), refused) {
                proof {
                    lemma_group_deny_failure(start, all, i + 1, views(bypassed@), refused@);
                }
                return Err(e);
            }
        }
        i += 1;
    }
    assert(all.take(i as int) =~= all);
    Ok(())
}

/// What the groups add to the denied paths is never something whose protection is lifted.
pub proof fn law_bypassed_is_not_denied(
    before: Seq<Seq<char>>,
    paths: Seq<Seq<char>>,
    bypassed: Seq<Seq<char>>,
    refused: Seq<(String, String)>,
)
    ensures
        match group_deny(Ok(before), paths, bypassed, refused) {
            Ok(after) => {
                &&& before.is_prefix_of(after)
                &&& forall|i: int|
                    before.len() <= i < after.len() ==> {
                        &&& paths.contains(#[trigger] after[i])
                        &&& !is_bypassed(after[i], bypassed)
                    }
                &&& forall|k: int|
                    0 <= k < paths.len() && !is_bypassed(#[trigger] paths[k], bypassed)
                        ==> after.contains(paths[k])
            },
            Err(_) => true,
        },
    decreases paths.len(),
{
    if paths.len() == 0 {
        assert(before =~= before.subrange(0, before.len() as int));
    } else {
        let front = paths.drop_last();
        law_bypassed_is_not_denied(before, front, bypassed, refused);
        if let Ok(after) = group_deny(Ok(before), paths, bypassed, refused) {
            let mid = group_deny(Ok(before), front, bypassed, refused)->Ok_0;
            assert(before =~= after.subrange(0, before.len() as int)) by {
                assert(before == mid.subrange(0, before.len() as int));
                assert forall|i: int| 0 <= i < before.len() implies before[i] == after[i] by {
                    assert(before[i] == mid.subrange(0, before.len() as int)[i]);
                }
            }
            assert forall|i: int| before.len() <= i < after.len() implies paths.contains(
                #[trigger] after[i],
            ) && !is_bypassed(after[i], bypassed) by {
                if i < mid.len() {
                    assert(after[i] == mid[i]);
                    assert(front.contains(mid[i]));
                    let k = choose|k: int| 0 <= k < front.len() && front[k] == mid[i];
                    assert(paths[k] == mid[i]);
                } else {
                    assert(after[i] == paths[paths.len() - 1]);
                }
            }
            assert forall|k: int|
                0 <= k < paths.len() && !is_bypassed(
                    #[trigger] paths[k],
                    bypassed,
                ) implies after.contains(paths[k]) by {
                if k < front.len() {
                    assert(front[k] == paths[k]);
                    assert(mid.contains(front[k]));
                    let n = choose|n: int| 0 <= n < mid.len() && mid[n] == front[k];
                    assert(after[n] == paths[k]);
                } else {
                    assert(after[after.len() - 1] == paths[k]);
                }
            }
        }
    }
}

// ---------------------------------------------------------------------------
// Credentials
// ---------------------------------------------------------------------------

/// How a credential is put into a request.
#[derive(Debug)]
pub struct CredentialInject {
    pub mode: InjectMode,
    pub header: String,
    pub format: String,
    pub path_pattern: Option<String>,
    pub path_replacement: Option<String>,
    pub query_param_name: Option<String>,
}

/// A credential of a manifest.
#[derive(Debug)]
pub struct ManifestCredential {
    pub name: String,
    pub upstream: String,
    pub source: String,
    pub inject: CredentialInject,
    pub env_var: Option<String>,
    pub endpoint_rules: Vec<EndpointRule>,
}

pub struct ManifestCredentialView {
    pub name: Seq<char>,
    pub upstream: Seq<char>,
    pub source: Seq<char>,
    pub mode: InjectMode,
    pub header: Seq<char>,
    pub format: Seq<char>,
    pub path_pattern: Option<Seq<char>>,
    pub path_replacement: Option<Seq<char>>,
    pub query_param_name: Option<Seq<char>>,
    pub env_var: Option<Seq<char>>,
    pub endpoint_rules: Seq<(Seq<char>, Seq<char>)>,
}

impl View for ManifestCredential {
    type V = ManifestCredentialView;

    open spec fn view(&self) -> ManifestCredentialView {
        ManifestCredentialView {
            name: self.name@,
            upstream: self.upstream@,
            source: self.source@,
            mode: self.inject.mode,
            header: self.inject.header@,
            format: self.inject.format@,
            path_pattern: opt_view(self.inject.path_pattern),
            path_replacement: opt_view(self.inject.path_replacement),
            query_param_name: opt_view(self.inject.query_param_name),
            env_var: opt_view(self.env_var),
            endpoint_rules: rule_views(self.endpoint_rules@),
        }
    }
}

pub open spec fn credential_views(v: Seq<ManifestCredential>) -> Seq<ManifestCredentialView> {
    v.map_values(|c: ManifestCredential| c@)
}

/// The failure of one endpoint rule.
pub open spec fn rule_failure(method: Seq<char>, path: Seq<char>, refused: Refusals) -> Option<
    ErrorView,
> {
    match refusal(
        refused.methods@,
        method,
        "invalid endpoint rule method '"@ + method + "': "@,
    ) {
        Some(e) => Some(e),
        None => refusal(
            refused.endpoint_paths@,
            path,
            "invalid endpoint rule path '"@ + path + "': "@,
        ),
    }
}

/// The failure of the first endpoint rule that has one.
pub open spec fn rules_failure(rules: Seq<(Seq<char>, Seq<char>)>, refused: Refusals) -> Option<
    ErrorView,
>
    decreases rules.len(),
{
    if rules.len() == 0 {
        None
    } else {
        match rules_failure(rules.drop_last(), refused) {
            Some(e) => Some(e),
            None => rule_failure(rules.last().0, rules.last().1, refused),
        }
    }
}

/// What one custom credential becomes: nothing where it has no key of its own.
pub open spec fn credential_entry(
    name: Seq<char>,
    c: CredentialView,
    format: Seq<char>,
    refused: Refusals,
) -> Result<Option<ManifestCredentialView>, ErrorView> {
    if let Some(e) = rules_failure(c.endpoint_rules, refused) {
        Err(e)
    } else if let Some(e) = refusal(refused.names@, name, "invalid credential name: "@) {
        Err(e)
    } else if let Some(e) = refusal(
        refused.upstreams@,
        c.upstream,
        "invalid credential upstream: "@,
    ) {
        Err(e)
    } else if c.credential_key is None {
        Ok(None)
    } else if let Some(e) = refusal(
        refused.sources@,
        c.credential_key->0,
        "invalid credential source: "@,
    ) {
        Err(e)
    } else if c.env_var is Some && refusal(
        refused.env_vars@,
        c.env_var->0,
        "invalid env_var: "@,
    ) is Some {
        Err(refusal(refused.env_vars@, c.env_var->0, "invalid env_var: "@)->0)
    } else {
        Ok(
            Some(
                ManifestCredentialView {
                    name,
                    upstream: c.upstream,
                    source: c.credential_key->0,
                    mode: c.inject_mode,
                    header: c.inject_header,
                    format,
                    path_pattern: c.path_pattern,
                    path_replacement: c.path_replacement,
                    query_param_name: c.query_param_name,
                    env_var: c.env_var,
                    endpoint_rules: c.endpoint_rules,
                },
            ),
        )
    }
}

pub type Credentials = Result<Seq<ManifestCredentialView>, ErrorView>;

/// What the first `n` custom credentials become.
pub open spec fn manifest_credentials(
    creds: Seq<(String, CustomCredentialDef)>,
    formats: Seq<String>,
    refused: Refusals,
    n: int,
) -> Credentials
    decreases n,
{
    if n <= 0 {
        Ok(Seq::empty())
    } else {
        match manifest_credentials(creds, formats, refused, n - 1) {
            Err(e) => Err(e),
            Ok(done) => match credential_entry(
                creds[n - 1].0@,
                creds[n - 1].1@,
                formats[n - 1]@,
                refused,
            ) {
                Err(e) => Err(e),
                Ok(None) => Ok(done),
                Ok(Some(c)) => Ok(done.push(c)),
            },
        }
    }
}

proof fn lemma_rules_failure(rules: Seq<(Seq<char>, Seq<char>)>, i: int, refused: Refusals)
    requires
        0 <= i <= rules.len(),
        rules_failure(rules.take(i), refused) is Some,
    ensures
        rules_failure(rules, refused) == rules_failure(rules.take(i), refused),
    decreases rules.len(),
{
    if i == rules.len() {
        assert(rules.take(i) =~= rules);
    } else {
        assert(rules.drop_last().take(i) =~= rules.take(i));
        lemma_rules_failure(rules.drop_last(), i, refused);
    }
}

fn check_rule(rule: &EndpointRule, refused: &Refusals) -> (r: Option<NonoError>)
    ensures
        match r {
            Some(e) => rule_failure(rule.method@, rule.path@, *refused) == Some(e@),
            None => rule_failure(rule.method@, rule.path@, *refused) is None,
        },
{
    let method = rule.method.as_str();
    let path = rule.path.as_str();
    let what = concat3("invalid endpoint rule method '", method, "': ");
    match find_refusal(&refused.methods, method, what.as_str()) {
        Some(e) => Some(e),
        None => {
            let what = concat3("invalid endpoint rule path '", path, "': ");
            find_refusal(&refused.endpoint_paths, path, what.as_str())
        },
    }
}

fn check_rules(rules: &Vec<EndpointRule>, refused: &Refusals) -> (r: Option<NonoError>)
    ensures
        match r {
            Some(e) => rules_failure(rule_views(rules@), *refused) == Some(e@),
            None => rules_failure(rule_views(rules@), *refused) is None,
        },
{
    let ghost all = rule_views(rules@);
    let mut i: usize = 0;
    while i < rules.len()
        invariant
            i <= rules@.len(),
            all == rule_views(rules@),
            rules_failure(all.take(i as int), *refused) is None,
        decreases rules@.len() - i,
    {
        proof {
            assert(all.take(i + 1).drop_last() =~= all.take(i as int));
            assert(all.take(i + 1).last() == (rules@[i as int].method@, rules@[i as int].path@));
        }
        if let Some(e) = check_rule(&rules[i], refused) {
            proof {
                lemma_rules_failure(all, i + 1, *refused);
            }
            return Some(e);
        }
        i += 1;
    }
    assert(all.take(i as int) =~= all);
    None
}

fn compile_credential(
    name: &str,
    c: &CustomCredentialDef,
    format: &str,
    refused: &Refusals,
) -> (r: Result<Option<ManifestCredential>, NonoError>)
    ensures
        match r {
            Err(e) => credential_entry(name@, c@, format@, *refused) == Err::<
                Option<ManifestCredentialView>,
                ErrorView,
            >(e@),
            Ok(None) => credential_entry(name@, c@, format@, *refused) == Ok::<
                Option<ManifestCredentialView>,
                ErrorView,
            >(None),
            Ok(Some(m)) => credential_entry(name@, c@, format@, *refused) == Ok::<
                Option<ManifestCredentialView>,
                ErrorView,
            >(Some(m@)),
        },
{
    if let Some(e) = check_rules(&c.endpoint_rules, refused) {
        return Err(e);
    }
    if let Some(e) = find_refusal(&refused.names, name, "invalid credential name: ") {
        return Err(e);
    }
    if let Some(e) = find_refusal(
        &refused.upstreams,
        c.upstream.as_str(),
        "invalid credential upstream: ",
    ) {
        return Err(e);
    }
    let source = match &c.credential_key {
        Some(key) => copy_str(key.as_str()),
        None => {
            return Ok(None);
        },
    };
    if let Some(e) = find_refusal(
        &refused.sources,
        source.as_str(),
        "invalid credential source: ",
    ) {
        return Err(e);
    }
    if let Some(v) = &c.env_var {
        if let Some(e) = find_refusal(&refused.env_vars, v.as_str(), "invalid env_var: ") {
            return Err(e);
        }
    }
    Ok(
        Some(
            ManifestCredential {
                name: copy_str(name),
                upstream: copy_str(c.upstream.as_str()),
                source,
                inject: CredentialInject {
                    mode: c.inject_mode,
                    header: copy_str(c.inject_header.as_str()),
                    format: copy_str(format),
                    path_pattern: clone_opt_string(&c.path_pattern),
                    path_replacement: clone_opt_string(&c.path_replacement),
                    query_param_name: clone_opt_string(&c.query_param_name),
                },
                env_var: clone_opt_string(&c.env_var),
                endpoint_rules: clone_rules(&c.endpoint_rules),
            },
        ),
    )
}

proof fn lemma_credentials_failure(
    creds: Seq<(String, CustomCredentialDef)>,
    formats: Seq<String>,
    refused: Refusals,
    i: int,
    n: int,
)
    requires
        i <= n,
        manifest_credentials(creds, formats, refused, i) is Err,
    ensures
        manifest_credentials(creds, formats, refused, n) == manifest_credentials(
            creds,
            formats,
            refused,
            i,
        ),
    decreases n,
{
    if i < n && n > 0 {
        lemma_credentials_failure(creds, formats, refused, i, n - 1);
    }
}

fn compile_credentials(
    creds: &Vec<(String, CustomCredentialDef)>,
    formats: &Vec<String>,
    refused: &Refusals,
) -> (r: Result<Vec<ManifestCredential>, NonoError>)
    requires
        formats@.len() == creds@.len(),
    ensures
        match r {
            Ok(v) => manifest_credentials(creds@, formats@, *refused, creds@.len() as int) == Ok::<
                Seq<ManifestCredentialView>,
                ErrorView,
            >(credential_views(v@)),
            Err(e) => manifest_credentials(creds@, formats@, *refused, creds@.len() as int) == Err::<
                Seq<ManifestCredentialView>,
                ErrorView,
            >(e@),
        },
{
    let mut v: Vec<ManifestCredential> = Vec::new();
    let mut i: usize = 0;
    assert(credential_views(v@) =~= Seq::<ManifestCredentialView>::empty());
    while i < creds.len()
        invariant
            i <= creds@.len(),
            formats@.len() == creds@.len(),
            manifest_credentials(creds@, formats@, *refused, i as int) == Ok::<
                Seq<ManifestCredentialView>,
                ErrorView,
            >(credential_views(v@)),
        decreases creds@.len() - i,
    {
        match compile_credential(
            creds[i].0.as_str(),
            &creds[i].1,
            formats[i].as_str(),
            refused,
        ) {
            Err(e) => {
                proof {
                    assert(manifest_credentials(creds@, formats@, *refused, i + 1) is Err);
                    lemma_credentials_failure(
                        creds@,
                        formats@,
                        *refused,
                        i + 1,
                        creds@.len() as int,
                    );
                }
                return Err(e);
            },
            Ok(None) => {},
            Ok(Some(c)) => {
                let ghost before = credential_views(v@);
                v.push(c);
                assert(credential_views(v@) =~= before.push(c@));
            },
        }
        i += 1;
    }
    Ok(v)
}

// ---------------------------------------------------------------------------
// The manifest
// ---------------------------------------------------------------------------

#[derive(Clone, Copy, Debug, PartialEq, Eq, Structural)]
pub enum NetworkMode {
    Blocked,
    Proxy,
    Unrestricted,
}

#[derive(Clone, Copy, Debug, PartialEq, Eq, Structural)]
pub enum ExecStrategy {
    Monitor,
    Supervised,
}

#[derive(Debug)]
pub struct Filesystem {
    pub grants: Vec<FsGrant>,
    pub deny: Vec<String>,
}

#[derive(Debug)]
pub struct PortConfig {
    pub connect: Vec<u64>,
    pub bind: Vec<u64>,
    pub localhost: Vec<u64>,
}

#[derive(Debug)]
pub struct Network {
    pub mode: NetworkMode,
    pub allow_domains: Vec<String>,
    pub dns: bool,
    pub ports: Option<PortConfig>,
}

#[derive(Debug)]
pub struct Process {
    pub allowed_commands: Vec<String>,
    pub blocked_commands: Vec<String>,
    pub exec_strategy: ExecStrategy,
    pub signal_mode: ProfileSignalMode,
    pub process_info_mode: ProfileProcessInfoMode,
    pub ipc_mode: ProfileIpcMode,
}

#[derive(Debug)]
pub struct Rollback {
    pub enabled: bool,
    pub exclude_patterns: Vec<String>,
    pub exclude_globs: Vec<String>,
}

/// A portable list of what a command may do.
#[derive(Debug)]
pub struct CapabilityManifest {
    pub version: String,
    pub schema: Option<String>,
    pub filesystem: Option<Filesystem>,
    pub network: Network,
    pub process: Process,
    pub rollback: Option<Rollback>,
    pub credentials: Vec<ManifestCredential>,
}

/// The grants and the denied paths, before they are sorted; or the first failure.
pub open spec fn collected(p: Profile, s: Surroundings) -> Result<
    (Seq<GrantView>, Seq<Seq<char>>),
    ErrorView,
> {
    let refused = s.refused.paths@;
    match profile_grants(p, s) {
        Err(e) => Err(e),
        Ok(g) => match listed_deny(views(p.filesystem.deny@), s.expansions@, refused) {
            Err(e) => Err(e),
            Ok(d) => match s.groups.access {
                Err(e) => Err(e@),
                Ok(x) => match group_grants(Ok(g), x.capabilities@, refused) {
                    Err(e) => Err(e),
                    Ok(g) => match group_deny(
                        Ok(d),
                        views(x.deny_paths@),
                        profile_paths(
                            views(p.filesystem.bypass_protection@),
                            s.bypass_expansions@,
                        ),
                        refused,
                    ) {
                        Err(e) => Err(e),
                        Ok(d) => match workdir_grants(
                            Ok(g),
                            s.workdir@,
                            p.workdir.access,
                            refused,
                        ) {
                            Err(e) => Err(e),
                            Ok(g) => Ok((g, d)),
                        },
                    },
                },
            },
        },
    }
}

fn collect(p: &Profile, s: &Surroundings) -> (r: Result<(Vec<FsGrant>, Vec<String>), NonoError>)
    ensures
        match r {
            Ok(x) => collected(*p, *s) == Ok::<(Seq<GrantView>, Seq<Seq<char>>), ErrorView>(
                (grant_views(x.0@), views(x.1@)),
            ) && s.groups.access is Ok,
            Err(e) => collected(*p, *s) == Err::<(Seq<GrantView>, Seq<Seq<char>>), ErrorView>(e@),
        },
{
    let refused = &s.refused.paths;
    let mut grants: Vec<FsGrant> = Vec::new();
    let mut deny: Vec<String> = Vec::new();
    if let Err(e) = add_profile_grants(&mut grants, p, s) {
        return Err(e);
    }
    if let Err(e) = add_listed_deny(&mut deny, &p.filesystem.deny, &s.expansions, refused) {
        return Err(e);
    }
    let groups = match &s.groups.access {
        Ok(x) => x,
        Err(e) => {
            return Err(e.copy());
        },
    };
    if let Err(e) = add_group_grants(&mut grants, &groups.capabilities, refused) {
        return Err(e);
    }
    let bypassed = list_profile_paths(&p.filesystem.bypass_protection, &s.bypass_expansions);
    if let Err(e) = add_group_deny(&mut deny, &groups.deny_paths, &bypassed, refused) {
        return Err(e);
    }
    if let Err(e) = add_workdir_grant(&mut grants, s.workdir.as_str(), p.workdir.access, refused) {
        return Err(e);
    }
    Ok((grants, deny))
}

/// How the network may be used.
pub open spec fn network_mode(n: NetworkConfig) -> NetworkMode {
    if n.block {
        NetworkMode::Blocked
    } else if n.network_profile is Some || n.allow_domain@.len() > 0 || n.credential_names().len()
        > 0 || n.custom_credentials@.len() > 0 {
        NetworkMode::Proxy
    } else {
        NetworkMode::Unrestricted
    }
}

/// The ports other than zero.
pub open spec fn nonzero_ports(ports: Seq<u16>) -> Seq<u64> {
    ports.filter(|p: u16| p != 0).map_values(|p: u16| p as u64)
}

fn usable_ports(ports: &Vec<u16>) -> (r: Vec<u64>)
    ensures
        r@ == nonzero_ports(ports@),
{
    let ghost keep = |p: u16| p != 0;
    let ghost wide = |p: u16| p as u64;
    let mut r: Vec<u64> = Vec::new();
    let mut i: usize = 0;
    assert(r@ =~= ports@.take(0).filter(keep).map_values(wide));
    while i < ports.len()
        invariant
            i <= ports@.len(),
            keep == (|p: u16| p != 0),
            wide == (|p: u16| p as u64),
            r@ == ports@.take(i as int).filter(keep).map_values(wide),
        decreases ports@.len() - i,
    {
        let ghost done = ports@.take(i as int).filter(keep);
        proof {
            lemma_filter_step(ports@, i as int, keep);
            assert(done.push(ports@[i as int]).map_values(wide) =~= done.map_values(wide).push(
                wide(ports@[i as int]),
            ));
        }
        if ports[i] != 0 {
            r.push(ports[i] as u64);
        }
        i += 1;
    }
    assert(ports@.take(i as int) =~= ports@);
    r
}

pub open spec fn network_is(m: Network, n: NetworkConfig) -> bool {
    &&& m.mode == network_mode(n)
    &&& views(m.allow_domains@) == views(n.allow_domain@)
    &&& m.dns
    &&& match m.ports {
        None => n.listen_port@.len() == 0 && n.open_port@.len() == 0,
        Some(p) => {
            &&& n.listen_port@.len() > 0 || n.open_port@.len() > 0
            &&& p.connect@.len() == 0
            &&& p.bind@ == nonzero_ports(n.listen_port@)
            &&& p.localhost@ == nonzero_ports(n.open_port@)
        },
    }
}

fn compile_network(n: &NetworkConfig) -> (r: Network)
    ensures
        network_is(r, *n),
{
    let mode = if n.block {
        NetworkMode::Blocked
    } else if n.network_profile.is_some() || n.allow_domain.len() > 0
        || n.resolved_credentials().len() > 0 || n.custom_credentials.len() > 0 {
        NetworkMode::Proxy
    } else {
        NetworkMode::Unrestricted
    };
    let ports = if n.listen_port.len() == 0 && n.open_port.len() == 0 {
        None
    } else {
        Some(
            PortConfig {
                connect: Vec::new(),
                bind: usable_ports(&n.listen_port),
                localhost: usable_ports(&n.open_port),
            },
        )
    };
    Network { mode, allow_domains: clone_strings(&n.allow_domain), dns: true, ports }
}

/// The profile leaves something out of snapshots.
pub open spec fn has_rollback(p: Profile) -> bool {
    p.rollback.exclude_patterns@.len() > 0 || p.rollback.exclude_globs@.len() > 0
}

pub open spec fn process_is(m: Process, p: Profile, group_blocked: Seq<Seq<char>>) -> bool {
    &&& views(m.allowed_commands@) == views(p.commands.allow@)
    &&& views(m.blocked_commands@) == sort_unique(group_blocked + views(p.commands.deny@))
    &&& m.exec_strategy == if has_rollback(p) {
        ExecStrategy::Supervised
    } else {
        ExecStrategy::Monitor
    }
    &&& m.signal_mode == match p.security.signal_mode {
        Some(x) => x,
        None => ProfileSignalMode::Isolated,
    }
    &&& m.process_info_mode == match p.security.process_info_mode {
        Some(x) => x,
        None => ProfileProcessInfoMode::Isolated,
    }
    &&& m.ipc_mode == match p.security.ipc_mode {
        Some(x) => x,
        None => ProfileIpcMode::SharedMemoryOnly,
    }
}

fn sorted_strings(v: &Vec<String>) -> (r: Vec<String>)
    ensures
        views(r@) == sort_unique(views(v@)),
{
    let r = sorted_set(v);
    proof {
        lemma_is_sort_unique(views(r@), views(v@));
    }
    r
}

fn compile_process(p: &Profile, group_blocked: &Vec<String>) -> (r: Process)
    ensures
        process_is(r, *p, views(group_blocked@)),
{
    let mut commands = clone_strings(group_blocked);
    extend_strings(&mut commands, &p.commands.deny);
    assert(views(commands@) =~= views(group_blocked@) + views(p.commands.deny@));
    let blocked_commands = sorted_strings(&commands);
    let exec_strategy = if p.rollback.exclude_patterns.len() > 0 || p.rollback.exclude_globs.len()
        > 0 {
        ExecStrategy::Supervised
    } else {
        ExecStrategy::Monitor
    };
    let signal_mode = match p.security.signal_mode {
        Some(x) => x,
        None => ProfileSignalMode::Isolated,
    };
    let process_info_mode = match p.security.process_info_mode {
        Some(x) => x,
        None => ProfileProcessInfoMode::Isolated,
    };
    let ipc_mode = match p.security.ipc_mode {
        Some(x) => x,
        None => ProfileIpcMode::SharedMemoryOnly,
    };
    Process {
        allowed_commands: clone_strings(&p.commands.allow),
        blocked_commands,
        exec_strategy,
        signal_mode,
        process_info_mode,
        ipc_mode,
    }
}

/// The filesystem part: absent where there is nothing to say.
pub open spec fn filesystem_is(
    m: Option<Filesystem>,
    grants: Seq<GrantView>,
    deny: Seq<Seq<char>>,
) -> bool {
    match m {
        None => grants.len() == 0 && deny.len() == 0,
        Some(f) => {
            &&& grants.len() > 0 || deny.len() > 0
            &&& grant_views(f.grants@) == grants
            &&& views(f.deny@) == deny
        },
    }
}

pub open spec fn rollback_is(m: Option<Rollback>, p: Profile) -> bool {
    match m {
        None => !has_rollback(p),
        Some(b) => {
            &&& has_rollback(p)
            &&& !b.enabled
            &&& views(b.exclude_patterns@) == views(p.rollback.exclude_patterns@)
            &&& views(b.exclude_globs@) == views(p.rollback.exclude_globs@)
        },
    }
}

/// The manifest of a profile in given surroundings. The grants are sorted by path and neighbours
/// on one entry are merged; the denied paths and the blocked commands are sorted, each once.
pub open spec fn manifest_is(m: CapabilityManifest, p: Profile, s: Surroundings) -> bool {
    &&& m.version@ == "0.1.0"@
    &&& opt_view(m.schema) == Some(
        "https://nono.dev/schemas/capability-manifest.schema.json"@,
    )
    &&& s.groups.access is Ok
    &&& collected(p, s) is Ok
    &&& filesystem_is(
        m.filesystem,
        merge_grants(sort_grants((collected(p, s)->Ok_0).0)),
        sort_unique((collected(p, s)->Ok_0).1),
    )
    &&& network_is(m.network, p.network)
    &&& process_is(m.process, p, views((s.groups.access->Ok_0).blocked_commands@))
    &&& rollback_is(m.rollback, p)
    &&& manifest_credentials(
        p.network.custom_credentials@,
        s.formats@,
        s.refused,
        p.network.custom_credentials@.len() as int,
    ) == Ok::<Seq<ManifestCredentialView>, ErrorView>(credential_views(m.credentials@))
}

/// Why a profile has no manifest.
pub open spec fn manifest_failure(p: Profile, s: Surroundings) -> Option<ErrorView> {
    match collected(p, s) {
        Err(e) => Some(e),
        Ok(_) => match manifest_credentials(
            p.network.custom_credentials@,
            s.formats@,
            s.refused,
            p.network.custom_credentials@.len() as int,
        ) {
            Err(e) => Some(e),
            Ok(_) => None,
        },
    }
}

/// Compiles a resolved profile into a capability manifest.
pub fn resolve_to_manifest(prof: &Profile, s: &Surroundings) -> (r: Result<
    CapabilityManifest,
    NonoError,
>)
    requires
        s.fit(*prof),
    ensures
        match r {
            Ok(m) => manifest_failure(*prof, *s) is None && manifest_is(m, *prof, *s),
            Err(e) => manifest_failure(*prof, *s) == Some(e@),
        },
{
    let (grants, deny) = match collect(prof, s) {
        Ok(x) => x,
        Err(e) => {
            return Err(e);
        },
    };
    let grants = merged_grants(&sorted_grants(&grants));
    let deny = sorted_strings(&deny);
    proof {
        assert(grant_views(grants@).len() == grants@.len());
        assert(views(deny@).len() == deny@.len());
    }
    let filesystem = if grants.len() == 0 && deny.len() == 0 {
        None
    } else {
        Some(Filesystem { grants, deny })
    };
    let no_commands: Vec<String> = Vec::new();
    let process = match &s.groups.access {
        Ok(x) => compile_process(prof, &x.blocked_commands),
        Err(_) => compile_process(prof, &no_commands),
    };
    let rollback = if prof.rollback.exclude_patterns.len() == 0 && prof.rollback.exclude_globs.len()
        == 0 {
        None
    } else {
        Some(
            Rollback {
                enabled: false,
                exclude_patterns: clone_strings(&prof.rollback.exclude_patterns),
                exclude_globs: clone_strings(&prof.rollback.exclude_globs),
            },
        )
    };
    let credentials = match compile_credentials(
        &prof.network.custom_credentials,
        &s.formats,
        &s.refused,
    ) {
        Ok(c) => c,
        Err(e) => {
            return Err(e);
        },
    };
    Ok(
        CapabilityManifest {
            version: copy_str("0.1.0"),
            schema: Some(copy_str("https://nono.dev/schemas/capability-manifest.schema.json")),
            filesystem,
            network: compile_network(&prof.network),
            process,
            rollback,
            credentials,
        },
    )
}

// ---------------------------------------------------------------------------
// Laws on the lists of the profile
// ---------------------------------------------------------------------------

/// Every template of a list stands for a path on which some grant allows the access, or more.
pub open spec fn list_granted(
    grants: Seq<GrantView>,
    paths: Seq<Seq<char>>,
    table: Seq<(String, Expanded)>,
    access: AccessMode,
    is_file: bool,
) -> bool {
    forall|i: int| 0 <= i < paths.len() ==> path_granted(
        grants,
        #[trigger] paths[i],
        table,
        access,
        is_file,
    )
}

pub open spec fn path_granted(
    grants: Seq<GrantView>,
    template: Seq<char>,
    table: Seq<(String, Expanded)>,
    access: AccessMode,
    is_file: bool,
) -> bool {
    match expansion(template, table) {
        Ok(path) => covered(grants, GrantView { path, access, type_: entry_type(is_file) }),
        Err(_) => false,
    }
}

/// Where a profile has a manifest, every path that the profile lists is granted in it, with the
/// access and the kind of entry that the list stands for.
pub proof fn law_listed_paths_are_granted(p: Profile, s: Surroundings)
    requires
        manifest_failure(p, s) is None,
    ensures
        ({
            let g = merge_grants(sort_grants((collected(p, s)->Ok_0).0));
            let fs = p.filesystem;
            let table = s.expansions@;
            &&& list_granted(g, views(fs.allow@), table, AccessMode::Readwrite, false)
            &&& list_granted(g, views(fs.read@), table, AccessMode::Read, false)
            &&& list_granted(g, views(fs.write@), table, AccessMode::Write, false)
            &&& list_granted(g, views(fs.allow_file@), table, AccessMode::Readwrite, true)
            &&& list_granted(g, views(fs.read_file@), table, AccessMode::Read, true)
            &&& list_granted(g, views(fs.write_file@), table, AccessMode::Write, true)
        }),
{
    let refused = s.refused.paths@;
    let table = s.expansions@;
    let fs = p.filesystem;
    let g0 = Ok::<Seq<GrantView>, ErrorView>(Seq::<GrantView>::empty());
    let g1 = listed_grants(g0, views(fs.allow@), table, AccessMode::Readwrite, false, refused);
    let g2 = listed_grants(g1, views(fs.read@), table, AccessMode::Read, false, refused);
    let g3 = listed_grants(g2, views(fs.write@), table, AccessMode::Write, false, refused);
    let g4 = listed_grants(g3, views(fs.allow_file@), table, AccessMode::Readwrite, true, refused);
    let g5 = listed_grants(g4, views(fs.read_file@), table, AccessMode::Read, true, refused);
    let g6 = listed_grants(g5, views(fs.write_file@), table, AccessMode::Write, true, refused);
    assert(g6 == profile_grants(p, s));
    lemma_listed_grants(g5, views(fs.write_file@), table, AccessMode::Write, true, refused);
    lemma_listed_grants(g4, views(fs.read_file@), table, AccessMode::Read, true, refused);
    lemma_listed_grants(g3, views(fs.allow_file@), table, AccessMode::Readwrite, true, refused);
    lemma_listed_grants(g2, views(fs.write@), table, AccessMode::Write, false, refused);
    lemma_listed_grants(g1, views(fs.read@), table, AccessMode::Read, false, refused);
    lemma_listed_grants(g0, views(fs.allow@), table, AccessMode::Readwrite, false, refused);
    let x = s.groups.access->Ok_0;
    let g7 = group_grants(g6, x.capabilities@, refused);
    lemma_group_grants(g6, x.capabilities@, refused);
    let all = (collected(p, s)->Ok_0).0;
    assert(within(g7->Ok_0, all)) by {
        let g8 = workdir_grants(g7, s.workdir@, p.workdir.access, refused);
        assert(g8 == Ok::<Seq<GrantView>, ErrorView>(all));
        lemma_one_more(g7->Ok_0);
    }
    lemma_within_merged(all);
    assert(
        list_granted(
            merge_grants(sort_grants(all)),
            views(fs.allow@),
            table,
            AccessMode::Readwrite,
            false,
        )
    ) by {
        lemma_list_stays(g1->Ok_0, all, views(fs.allow@), table, AccessMode::Readwrite, false);
    }
    assert(
        list_granted(
            merge_grants(sort_grants(all)),
            views(fs.read@),
            table,
            AccessMode::Read,
            false,
        )
    ) by {
        lemma_list_stays(g2->Ok_0, all, views(fs.read@), table, AccessMode::Read, false);
    }
    assert(
        list_granted(
            merge_grants(sort_grants(all)),
            views(fs.write@),
            table,
            AccessMode::Write,
            false,
        )
    ) by {
        lemma_list_stays(g3->Ok_0, all, views(fs.write@), table, AccessMode::Write, false);
    }
    assert(
        list_granted(
            merge_grants(sort_grants(all)),
            views(fs.allow_file@),
            table,
            AccessMode::Readwrite,
            true,
        )
    ) by {
        lemma_list_stays(g4->Ok_0, all, views(fs.allow_file@), table, AccessMode::Readwrite, true);
    }
    assert(
        list_granted(
            merge_grants(sort_grants(all)),
            views(fs.read_file@),
            table,
            AccessMode::Read,
            true,
        )
    ) by {
        lemma_list_stays(g5->Ok_0, all, views(fs.read_file@), table, AccessMode::Read, true);
    }
    assert(
        list_granted(
            merge_grants(sort_grants(all)),
            views(fs.write_file@),
            table,
            AccessMode::Write,
            true,
        )
    ) by {
        lemma_list_stays(g6->Ok_0, all, views(fs.write_file@), table, AccessMode::Write, true);
    }
}

/// Every grant of the first is in the second.
pub open spec fn within(a: Seq<GrantView>, b: Seq<GrantView>) -> bool {
    forall|x: GrantView| a.contains(x) ==> #[trigger] b.contains(x)
}

/// What a list of templates gives is there.
pub open spec fn list_in(
    grants: Seq<GrantView>,
    paths: Seq<Seq<char>>,
    table: Seq<(String, Expanded)>,
    access: AccessMode,
    is_file: bool,
) -> bool {
    forall|i: int| 0 <= i < paths.len() ==> path_in(
        grants,
        #[trigger] paths[i],
        table,
        access,
        is_file,
    )
}

pub open spec fn path_in(
    grants: Seq<GrantView>,
    template: Seq<char>,
    table: Seq<(String, Expanded)>,
    access: AccessMode,
    is_file: bool,
) -> bool {
    match expansion(template, table) {
        Ok(path) => grants.contains(GrantView { path, access, type_: entry_type(is_file) }),
        Err(_) => false,
    }
}

proof fn lemma_one_more(a: Seq<GrantView>)
    ensures
        forall|x: GrantView| #[trigger] within(a, a.push(x)),
        within(a, a),
{
    assert forall|x: GrantView| #[trigger] within(a, a.push(x)) by {
        let b = a.push(x);
        assert forall|y: GrantView| a.contains(y) implies #[trigger] b.contains(y) by {
            let i = choose|i: int| 0 <= i < a.len() && a[i] == y;
            assert(b[i] == y);
        }
    }
}

proof fn lemma_listed_grants(
    so_far: Grants,
    paths: Seq<Seq<char>>,
    table: Seq<(String, Expanded)>,
    access: AccessMode,
    is_file: bool,
    refused: Seq<(String, String)>,
)
    requires
        listed_grants(so_far, paths, table, access, is_file, refused) is Ok,
    ensures
        so_far is Ok,
        ({
            let g = listed_grants(so_far, paths, table, access, is_file, refused)->Ok_0;
            within(so_far->Ok_0, g) && list_in(g, paths, table, access, is_file)
        }),
    decreases paths.len(),
{
    if paths.len() > 0 {
        let front = paths.drop_last();
        lemma_listed_grants(so_far, front, table, access, is_file, refused);
        let a = listed_grants(so_far, front, table, access, is_file, refused)->Ok_0;
        let g = listed_grants(so_far, paths, table, access, is_file, refused)->Ok_0;
        lemma_one_more(a);
        assert(g.len() == a.len() + 1);
        assert(within(a, g));
        assert forall|i: int| 0 <= i < paths.len() implies path_in(
            g,
            #[trigger] paths[i],
            table,
            access,
            is_file,
        ) by {
            if i < front.len() {
                assert(path_in(a, front[i], table, access, is_file));
            } else {
                assert(g.last() == g[g.len() - 1]);
                assert(g.contains(g.last()));
            }
        }
    }
}

proof fn lemma_group_grants(
    so_far: Grants,
    caps: Seq<GroupCapability>,
    refused: Seq<(String, String)>,
)
    requires
        group_grants(so_far, caps, refused) is Ok,
    ensures
        so_far is Ok,
        within(so_far->Ok_0, group_grants(so_far, caps, refused)->Ok_0),
    decreases caps.len(),
{
    if caps.len() > 0 {
        lemma_group_grants(so_far, caps.drop_last(), refused);
        let a = group_grants(so_far, caps.drop_last(), refused)->Ok_0;
        let g = group_grants(so_far, caps, refused)->Ok_0;
        lemma_one_more(a);
        assert(g =~= a.push(g.last()));
        assert(within(a, g));
    }
}

proof fn lemma_within_merged(all: Seq<GrantView>)
    ensures
        forall|x: GrantView| #[trigger]
            all.contains(x) ==> covered(merge_grants(sort_grants(all)), x),
{
    broadcast use vstd::seq_lib::group_to_multiset_ensures;

    law_sorting_keeps_grants(all);
    let sorted = sort_grants(all);
    law_merging_keeps_access(sorted);
    assert forall|x: GrantView| #[trigger] all.contains(x) implies covered(
        merge_grants(sorted),
        x,
    ) by {
        assert(all.to_multiset().count(x) > 0);
        assert(sorted.to_multiset().count(x) > 0);
        assert(sorted.contains(x));
        let k = choose|k: int| 0 <= k < sorted.len() && sorted[k] == x;
        assert(covered(merge_grants(sorted), sorted[k]));
    }
}

proof fn lemma_list_stays(
    some: Seq<GrantView>,
    all: Seq<GrantView>,
    paths: Seq<Seq<char>>,
    table: Seq<(String, Expanded)>,
    access: AccessMode,
    is_file: bool,
)
    requires
        within(some, all),
        list_in(some, paths, table, access, is_file),
    ensures
        list_granted(merge_grants(sort_grants(all)), paths, table, access, is_file),
{
    lemma_within_merged(all);
    assert forall|i: int| 0 <= i < paths.len() implies path_granted(
        merge_grants(sort_grants(all)),
        #[trigger] paths[i],
        table,
        access,
        is_file,
    ) by {
        assert(path_in(some, paths[i], table, access, is_file));
        let x = GrantView {
            path: expansion(paths[i], table)->Ok_0,
            access,
            type_: entry_type(is_file),
        };
        assert(all.contains(x));
    }
}

} // verus!
