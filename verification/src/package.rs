//! Packs: references, manifests, and the lockfile.

pub mod laws;

use crate::assoc::{
    distinct_keys, has_key, in_key_order, key_index, keys, lemma_key_index, lemma_key_index_is,
    lemma_order_is_distinct, lookup, remove_key,
};
use crate::error::{ErrorView, NonoError};
use crate::paths::{joined, path_join};
use crate::text::{
    char_is_alnum, chars_of, chars_split, concat3, concat5, decimal, find_first, first_index,
    from_chars, is_alnum, lemma_first_index, lemma_first_index_is, lex_lt, opt_view, split_on,
    sub_chars, usize_to_string,
};
use vstd::prelude::*;

verus! {

/// The version of the lockfile's format.
pub const LOCKFILE_VERSION: u32 = 4;

/// A pack, by namespace and name, perhaps in a given version.
#[derive(Debug)]
pub struct PackageRef {
    pub namespace: String,
    pub name: String,
    pub version: Option<String>,
}

pub struct PackageRefView {
    pub namespace: Seq<char>,
    pub name: Seq<char>,
    pub version: Option<Seq<char>>,
}

impl View for PackageRef {
    type V = PackageRefView;

    open spec fn view(&self) -> PackageRefView {
        PackageRefView {
            namespace: self.namespace@,
            name: self.name@,
            version: opt_view(self.version),
        }
    }
}

/// Namespace and name with a slash between them.
pub open spec fn slashed(namespace: Seq<char>, name: Seq<char>) -> Seq<char> {
    namespace + "/"@ + name
}

impl PackageRefView {
    pub open spec fn key(self) -> Seq<char> {
        slashed(self.namespace, self.name)
    }
}

impl PackageRef {
    /// The name under which the lockfile holds the pack.
    #[must_use]
    pub fn key(&self) -> (r: String)
        ensures
            r@ == self@.key(),
    {
        concat3(self.namespace.as_str(), "/", self.name.as_str())
    }
}

/// An installation step of a pack, as the text that describes it.
#[derive(Debug)]
pub struct WiringDirective {
    pub text: String,
}

/// What an installation step did. Only written files matter to the rules here.
#[derive(Debug)]
pub enum WiringRecord {
    WriteFile { dest: String, sha256: String },
    Other { text: String },
}

#[derive(Clone, Copy, Debug, PartialEq, Eq, Structural)]
pub enum ArtifactType {
    Profile,
    Instruction,
    TrustPolicy,
    Groups,
    Plugin,
}

/// A file of a pack.
#[derive(Debug)]
pub struct ArtifactEntry {
    pub artifact_type: ArtifactType,
    pub path: String,
    pub install_as: Option<String>,
    pub placement: Option<String>,
    pub prefix: Option<String>,
    pub aliases: Vec<String>,
}

/// What a pack says of itself.
#[derive(Debug)]
pub struct PackageManifest {
    pub schema_version: u32,
    pub name: String,
    pub version: Option<String>,
    pub description: Option<String>,
    pub license: Option<String>,
    pub platforms: Vec<String>,
    pub min_nono_version: Option<String>,
    pub artifacts: Vec<ArtifactEntry>,
    pub wiring: Vec<WiringDirective>,
}

impl PackageManifest {
    /// Whether the pack can be used as a profile.
    #[must_use]
    pub fn has_profile_artifact(&self) -> (r: bool)
        ensures
            r == exists|i: int|
                0 <= i < self.artifacts@.len() && (#[trigger] self.artifacts@[i]).artifact_type
                    == ArtifactType::Profile,
    {
        let mut i: usize = 0;
        while i < self.artifacts.len()
            invariant
                i <= self.artifacts@.len(),
                forall|k: int|
                    0 <= k < i ==> (#[trigger] self.artifacts@[k]).artifact_type
                        != ArtifactType::Profile,
            decreases self.artifacts@.len() - i,
        {
            if self.artifacts[i].artifact_type == ArtifactType::Profile {
                return true;
            }
            i += 1;
        }
        false
    }
}

/// Who signed a pack, and from what it was built.
#[derive(Debug)]
pub struct PackageProvenance {
    pub signer_identity: String,
    pub repository: String,
    pub workflow: String,
    pub git_ref: String,
    pub rekor_log_index: u64,
    pub signed_at: String,
}

#[derive(Debug)]
pub struct LockedArtifact {
    pub sha256: String,
    pub artifact_type: ArtifactType,
}

/// An installed pack.
#[derive(Debug)]
pub struct LockedPackage {
    pub version: String,
    pub installed_at: String,
    pub pinned: bool,
    pub provenance: Option<PackageProvenance>,
    pub artifacts: Vec<(String, LockedArtifact)>,
    pub wiring_record: Vec<WiringRecord>,
}

/// The installed packs by key, in order.
#[derive(Debug)]
pub struct Lockfile {
    pub lockfile_version: u32,
    pub registry: String,
    pub packages: Vec<(String, LockedPackage)>,
}

impl Lockfile {
    /// The packs are in the order of their keys, each once.
    pub open spec fn wf(self) -> bool {
        in_key_order(self.packages@)
    }
}

impl Default for Lockfile {
    fn default() -> (r: Self)
        ensures
            r.lockfile_version == 0,
            r.registry@ == Seq::<char>::empty(),
            r.packages@.len() == 0,
            r.wf(),
    {
        Lockfile { lockfile_version: 0, registry: String::new(), packages: Vec::new() }
    }
}

#[derive(Debug)]
pub struct PackageSearchResult {
    pub namespace: String,
    pub name: String,
    pub description: Option<String>,
    pub latest_version: Option<String>,
}

#[derive(Debug)]
pub struct PackageSearchResponse {
    pub packages: Vec<PackageSearchResult>,
}

#[derive(Debug)]
pub struct YankedErrorResponse {
    pub error: Option<String>,
    pub yanked: bool,
    pub yank_reason: Option<String>,
    pub advisory: Option<PackageAdvisory>,
}

#[derive(Debug)]
pub struct PackageStatusResponse {
    pub schema_version: u32,
    pub latest: Option<String>,
    pub installed_status: Option<String>,
    pub yank_reason: Option<String>,
    pub advisory: Option<PackageAdvisory>,
}

#[derive(Debug)]
pub struct PackageAdvisory {
    pub severity: Option<String>,
    pub summary: Option<String>,
}

/// A pack that ships a profile of a given name.
#[derive(Debug)]
pub struct ProfileProvider {
    pub namespace: String,
    pub name: String,
    pub description: Option<String>,
    pub installs_summary: Option<String>,
}

impl ProfileProvider {
    #[must_use]
    pub fn pack_ref(&self) -> (r: String)
        ensures
            r@ == slashed(self.namespace@, self.name@),
    {
        concat3(self.namespace.as_str(), "/", self.name.as_str())
    }
}

#[derive(Debug)]
pub struct ProfileProvidersResponse {
    pub providers: Vec<ProfileProvider>,
}

#[derive(Debug)]
pub struct PullArtifact {
    pub filename: String,
    pub sha256_digest: String,
    pub size_bytes: i64,
    pub download_url: String,
}

/// What the registry says of the origin of a pack; times are written as RFC 3339 texts.
#[derive(Debug)]
pub struct PullProvenance {
    pub signer_identity: String,
    pub repository: String,
    pub workflow: String,
    pub git_ref: String,
    pub rekor_log_index: Option<i64>,
    pub signed_at: Option<String>,
}

#[derive(Debug)]
pub struct PullResponse {
    pub namespace: String,
    pub name: String,
    pub version: String,
    pub provenance: PullProvenance,
    pub artifacts: Vec<PullArtifact>,
    pub bundle_url: String,
    pub scan_passed: bool,
}

// ---------------------------------------------------------------------------
// References
// ---------------------------------------------------------------------------

/// A character that a namespace or a name may hold.
pub open spec fn is_component_char(c: char) -> bool {
    is_alnum(c) || c == '-' || c == '_' || c == '.'
}

/// A text of which every character is allowed.
pub open spec fn valid_component(s: Seq<char>) -> bool {
    forall|i: int| 0 <= i < s.len() ==> is_component_char(#[trigger] s[i])
}

pub open spec fn component_failure(label: Seq<char>, value: Seq<char>) -> ErrorView {
    ErrorView::PackageInstall(
        "invalid package "@ + label + " '"@ + value
            + "': only alphanumeric, '-', '_' and '.' are allowed"@,
    )
}

fn validate_package_component(label: &str, value: &[char]) -> (r: Result<(), NonoError>)
    ensures
        r is Ok <==> valid_component(value@),
        r is Err ==> (r->Err_0)@ == component_failure(label@, value@),
{
    let mut i: usize = 0;
    while i < value.len()
        invariant
            i <= value@.len(),
            forall|k: int| 0 <= k < i ==> is_component_char(#[trigger] value@[k]),
        decreases value@.len() - i,
    {
        let c = value[i];
        if !(char_is_alnum(c) || c == '-' || c == '_' || c == '.') {
            let text = from_chars(value);
            return Err(
                NonoError::PackageInstall(
                    concat5(
                        "invalid package ",
                        label,
                        " '",
                        text.as_str(),
                        "': only alphanumeric, '-', '_' and '.' are allowed",
                    ),
                ),
            );
        }
        i += 1;
    }
    Ok(())
}

/// A reference before the first at sign.
pub open spec fn path_part(input: Seq<char>) -> Seq<char> {
    input.take(first_index(input, '@'))
}

/// What follows the first at sign.
pub open spec fn version_part(input: Seq<char>) -> Seq<char> {
    input.skip(first_index(input, '@') + 1)
}

pub open spec fn has_version(input: Seq<char>) -> bool {
    first_index(input, '@') < input.len()
}

/// What a text means as a reference to a pack, or why it means nothing.
pub open spec fn parsed_ref(input: Seq<char>) -> Result<PackageRefView, ErrorView> {
    let parts = split_on(path_part(input), '/');
    if has_version(input) && version_part(input).len() == 0 {
        Err(
            ErrorView::PackageInstall(
                "invalid package reference '"@ + input + "': version must not be empty"@,
            ),
        )
    } else if parts.len() != 2 || parts[0].len() == 0 || parts[1].len() == 0 {
        Err(
            ErrorView::PackageInstall(
                "invalid package reference '"@ + input
                    + "': expected <namespace>/<name>[@<version>]"@,
            ),
        )
    } else if !valid_component(parts[0]) {
        Err(component_failure("namespace"@, parts[0]))
    } else if !valid_component(parts[1]) {
        Err(component_failure("name"@, parts[1]))
    } else {
        Ok(
            PackageRefView {
                namespace: parts[0],
                name: parts[1],
                version: if has_version(input) {
                    Some(version_part(input))
                } else {
                    None
                },
            },
        )
    }
}

/// Reads a reference of the form `<namespace>/<name>[@<version>]`.
pub fn parse_package_ref(input: &str) -> (r: Result<PackageRef, NonoError>)
    ensures
        match r {
            Ok(p) => parsed_ref(input@) == Ok::<PackageRefView, ErrorView>(p@),
            Err(e) => parsed_ref(input@) == Err::<PackageRefView, ErrorView>(e@),
        },
{
    let v = chars_of(input);
    let at = find_first(&v, '@');
    proof {
        lemma_first_index(v@, '@');
    }
    let path = sub_chars(&v, 0, at);
    assert(path@ =~= path_part(input@));
    let version = if at < v.len() {
        let rest = sub_chars(&v, at + 1, v.len());
        assert(rest@ =~= version_part(input@));
        if rest.len() == 0 {
            return Err(
                NonoError::PackageInstall(
                    concat3(
                        "invalid package reference '",
                        input,
                        "': version must not be empty",
                    ),
                ),
            );
        }
        Some(from_chars(&rest))
    } else {
        None
    };
    let parts = chars_split(&path, '/');
    if parts.len() != 2 || parts[0].len() == 0 || parts[1].len() == 0 {
        return Err(
            NonoError::PackageInstall(
                concat3(
                    "invalid package reference '",
                    input,
                    "': expected <namespace>/<name>[@<version>]",
                ),
            ),
        );
    }
    if let Err(e) = validate_package_component("namespace", &parts[0]) {
        return Err(e);
    }
    if let Err(e) = validate_package_component("name", &parts[1]) {
        return Err(e);
    }
    Ok(PackageRef { namespace: from_chars(&parts[0]), name: from_chars(&parts[1]), version })
}

/// A reference whose parts are allowed.
pub open spec fn valid_ref(p: PackageRefView) -> bool {
    &&& p.namespace.len() > 0 && valid_component(p.namespace)
    &&& p.name.len() > 0 && valid_component(p.name)
    &&& p.version is Some ==> (p.version->0).len() > 0
}

/// A reference as it is written.
pub open spec fn written_ref(p: PackageRefView) -> Seq<char> {
    match p.version {
        Some(v) => p.key() + "@"@ + v,
        None => p.key(),
    }
}

proof fn lemma_split_key(namespace: Seq<char>, name: Seq<char>)
    requires
        valid_component(namespace),
        valid_component(name),
    ensures
        split_on(slashed(namespace, name), '/') == seq![namespace, name],
        forall|i: int| 0 <= i < slashed(namespace, name).len() ==> #[trigger] slashed(namespace, name)[i] != '@',
{
    reveal_strlit("/");
    let s = slashed(namespace, name);
    assert(s[namespace.len() as int] == '/');
    assert forall|i: int| 0 <= i < namespace.len() implies s[i] != '/' by {
        assert(s[i] == namespace[i]);
    }
    lemma_first_index_is(s, '/', namespace.len() as int);
    assert(s.take(namespace.len() as int) =~= namespace);
    assert(s.skip(namespace.len() as int + 1) =~= name);
    assert forall|i: int| 0 <= i < name.len() implies name[i] != '/' by {
        assert(is_component_char(name[i]));
    }
    lemma_first_index_is(name, '/', name.len() as int);
    assert(split_on(name, '/') =~= seq![name]);
    assert(split_on(s, '/') =~= seq![namespace] + seq![name]);
    assert(split_on(s, '/') =~= seq![namespace, name]);
    assert forall|i: int| 0 <= i < s.len() implies #[trigger] s[i] != '@' by {
        if i < namespace.len() {
            assert(is_component_char(namespace[i]));
        } else if i > namespace.len() {
            assert(is_component_char(name[i - namespace.len() - 1]));
        }
    }
}

/// A reference that is written down reads back as itself.
pub proof fn law_written_ref_reads_back(p: PackageRefView)
    requires
        valid_ref(p),
    ensures
        parsed_ref(written_ref(p)) == Ok::<PackageRefView, ErrorView>(p),
{
    let k = p.key();
    let s = written_ref(p);
    lemma_split_key(p.namespace, p.name);
    reveal_strlit("@");
    match p.version {
        Some(v) => {
            assert(s[k.len() as int] == '@');
            assert forall|i: int| 0 <= i < k.len() implies s[i] != '@' by {
                assert(s[i] == k[i]);
            }
            lemma_first_index_is(s, '@', k.len() as int);
            assert(path_part(s) =~= k);
            assert(version_part(s) =~= v);
        },
        None => {
            lemma_first_index_is(s, '@', s.len() as int);
            assert(path_part(s) =~= k);
        },
    }
}

/// Everything that reads as a reference has allowed parts.
pub proof fn law_parsed_refs_are_valid(input: Seq<char>)
    requires
        parsed_ref(input) is Ok,
    ensures
        valid_ref(parsed_ref(input)->Ok_0),
{
}

// ---------------------------------------------------------------------------
// The store
// ---------------------------------------------------------------------------

/// The directory of the program's configuration.
pub fn nono_config_dir(config_dir: &str) -> (r: String)
    ensures
        r@ == joined(config_dir@, "nono"@),
{
    path_join(config_dir, "nono")
}

pub open spec fn store_dir(config_dir: Seq<char>) -> Seq<char> {
    joined(joined(config_dir, "nono"@), "packages"@)
}

/// Where packs are kept.
pub fn package_store_dir(config_dir: &str) -> (r: String)
    ensures
        r@ == store_dir(config_dir@),
{
    let dir = nono_config_dir(config_dir);
    path_join(dir.as_str(), "packages")
}

pub open spec fn install_dir(config_dir: Seq<char>, namespace: Seq<char>, name: Seq<char>) -> Seq<
    char,
> {
    joined(joined(store_dir(config_dir), namespace), name)
}

/// Where a pack is kept.
pub fn package_install_dir(config_dir: &str, namespace: &str, name: &str) -> (r: String)
    ensures
        r@ == install_dir(config_dir@, namespace@, name@),
{
    let store = package_store_dir(config_dir);
    let dir = path_join(store.as_str(), namespace);
    path_join(dir.as_str(), name)
}

/// Where the groups of a pack are.
pub fn package_groups_path(config_dir: &str, namespace: &str, name: &str) -> (r: String)
    ensures
        r@ == joined(install_dir(config_dir@, namespace@, name@), "groups.json"@),
{
    let dir = package_install_dir(config_dir, namespace, name);
    path_join(dir.as_str(), "groups.json")
}

/// Where the lockfile is.
pub fn lockfile_path(config_dir: &str) -> (r: String)
    ensures
        r@ == joined(store_dir(config_dir@), "lockfile.json"@),
{
    let dir = package_store_dir(config_dir);
    path_join(dir.as_str(), "lockfile.json")
}

/// Whether a lockfile on disk can be read: one of an older version cannot, and its packs are to be
/// pulled again.
pub fn check_lockfile_version(version: u32) -> (r: Result<(), NonoError>)
    ensures
        r is Ok <==> version >= LOCKFILE_VERSION,
        r is Err ==> (r->Err_0)@ == ErrorView::ConfigParse(
            "lockfile version "@ + decimal(version as nat) + " is older than "@ + decimal(
                LOCKFILE_VERSION as nat,
            ) + "; pull the packs again"@,
        ),
{
    if version >= LOCKFILE_VERSION {
        return Ok(());
    }
    let found = usize_to_string(version as usize);
    let known = usize_to_string(LOCKFILE_VERSION as usize);
    Err(
        NonoError::ConfigParse(
            concat5(
                "lockfile version ",
                found.as_str(),
                " is older than ",
                known.as_str(),
                "; pull the packs again",
            ),
        ),
    )
}

/// Takes a pack out of the lockfile; says whether it was there. A lockfile without a version gets
/// the current one.
pub fn remove_package_from_lockfile(lockfile: &mut Lockfile, package_ref: &PackageRef) -> (r: bool)
    requires
        old(lockfile).wf(),
    ensures
        r == has_key(old(lockfile).packages@, package_ref@.key()),
        r ==> final(lockfile).packages@ == old(lockfile).packages@.remove(
            key_index(old(lockfile).packages@, package_ref@.key()),
        ),
        !r ==> final(lockfile).packages@ == old(lockfile).packages@,
        final(lockfile).lockfile_version == if r && old(lockfile).lockfile_version == 0 {
            LOCKFILE_VERSION
        } else {
            old(lockfile).lockfile_version
        },
        final(lockfile).registry == old(lockfile).registry,
        final(lockfile).wf(),
        !has_key(final(lockfile).packages@, package_ref@.key()),
{
    let key = package_ref.key();
    proof {
        lemma_order_is_distinct(lockfile.packages@);
    }
    let removed = remove_key(&mut lockfile.packages, key.as_str()).is_some();
    proof {
        let before = old(lockfile).packages@;
        let after = lockfile.packages@;
        if has_key(before, key@) {
            lemma_key_index(before, key@);
            let n = key_index(before, key@);
            assert forall|i: int, j: int| 0 <= i < j < after.len() implies lex_lt(
                #[trigger] keys(after)[i],
                #[trigger] keys(after)[j],
            ) by {
                let i0 = if i < n {
                    i
                } else {
                    i + 1
                };
                let j0 = if j < n {
                    j
                } else {
                    j + 1
                };
                assert(after[i] == before[i0] && after[j] == before[j0]);
                assert(lex_lt(
                    keys(before)[i0],
                    keys(before)[j0],
                ));
            }
        }
    }
    if removed {
        if lockfile.lockfile_version == 0 {
            lockfile.lockfile_version = LOCKFILE_VERSION;
        }
    }
    removed
}

/// Taking a pack out leaves every other pack as it was.
pub proof fn law_removal_leaves_others<T>(m: Seq<(String, T)>, k: Seq<char>, other: Seq<char>)
    requires
        distinct_keys(m),
        has_key(m, k),
        other != k,
    ensures
        lookup(m.remove(key_index(m, k)), other) == lookup(m, other),
{
    let n = key_index(m, k);
    let r = m.remove(n);
    lemma_key_index(m, k);
    lemma_key_index(m, other);
    lemma_key_index(r, other);
    if has_key(m, other) {
        let i = key_index(m, other);
        let i2 = if i < n {
            i
        } else {
            i - 1
        };
        assert(r[i2] == m[i]);
        assert forall|j: int| 0 <= j < i2 implies (#[trigger] r[j]).0@ != other by {
            let j0 = if j < n {
                j
            } else {
                j + 1
            };
            assert(r[j] == m[j0]);
            assert(m[j0].0@ != m[i].0@);
        }
        lemma_key_index_is(r, other, i2);
    } else if has_key(r, other) {
        let i2 = key_index(r, other);
        let i = if i2 < n {
            i2
        } else {
            i2 + 1
        };
        assert(m[i] == r[i2]);
        assert(keys(m)[i] == other);
    }
}

} // verus!
