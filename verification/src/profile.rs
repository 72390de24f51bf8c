//! Profiles: what a sandboxed command may do, as far as the commands on profiles read it.

use crate::text::{
    char_is_alnum, chars_of, clone_opt_string, clone_strings, is_alnum, opt_str_eq, opt_view,
    str_eq, views,
};
use vstd::prelude::*;

verus! {

/// What a profile grants on the working directory.
#[derive(Clone, Copy, Debug, PartialEq, Eq, Structural)]
pub enum WorkdirAccess {
    NoAccess,
    Read,
    Write,
    ReadWrite,
}

impl WorkdirAccess {
    /// The name of the variant.
    pub open spec fn label_text(self) -> Seq<char> {
        match self {
            WorkdirAccess::NoAccess => "None"@,
            WorkdirAccess::Read => "Read"@,
            WorkdirAccess::Write => "Write"@,
            WorkdirAccess::ReadWrite => "ReadWrite"@,
        }
    }

    pub fn label(self) -> (r: &'static str)
        ensures
            r@ == self.label_text(),
    {
        match self {
            WorkdirAccess::NoAccess => "None",
            WorkdirAccess::Read => "Read",
            WorkdirAccess::Write => "Write",
            WorkdirAccess::ReadWrite => "ReadWrite",
        }
    }

    /// The word for it in a profile file.
    pub open spec fn key_text(self) -> Seq<char> {
        match self {
            WorkdirAccess::NoAccess => "none"@,
            WorkdirAccess::Read => "read"@,
            WorkdirAccess::Write => "write"@,
            WorkdirAccess::ReadWrite => "readwrite"@,
        }
    }

    pub fn key(self) -> (r: &'static str)
        ensures
            r@ == self.key_text(),
    {
        match self {
            WorkdirAccess::NoAccess => "none",
            WorkdirAccess::Read => "read",
            WorkdirAccess::Write => "write",
            WorkdirAccess::ReadWrite => "readwrite",
        }
    }
}

/// Which processes a sandboxed one may signal.
#[derive(Clone, Copy, Debug, PartialEq, Eq, Structural)]
pub enum ProfileSignalMode {
    Isolated,
    AllowSameSandbox,
    AllowAll,
}

impl ProfileSignalMode {
    /// The name of the variant.
    pub open spec fn label_text(self) -> Seq<char> {
        match self {
            ProfileSignalMode::Isolated => "Isolated"@,
            ProfileSignalMode::AllowSameSandbox => "AllowSameSandbox"@,
            ProfileSignalMode::AllowAll => "AllowAll"@,
        }
    }

    pub fn label(self) -> (r: &'static str)
        ensures
            r@ == self.label_text(),
    {
        match self {
            ProfileSignalMode::Isolated => "Isolated",
            ProfileSignalMode::AllowSameSandbox => "AllowSameSandbox",
            ProfileSignalMode::AllowAll => "AllowAll",
        }
    }

    /// The word for it in a profile file.
    pub open spec fn key_text(self) -> Seq<char> {
        match self {
            ProfileSignalMode::Isolated => "isolated"@,
            ProfileSignalMode::AllowSameSandbox => "allow_same_sandbox"@,
            ProfileSignalMode::AllowAll => "allow_all"@,
        }
    }

    pub fn key(self) -> (r: &'static str)
        ensures
            r@ == self.key_text(),
    {
        match self {
            ProfileSignalMode::Isolated => "isolated",
            ProfileSignalMode::AllowSameSandbox => "allow_same_sandbox",
            ProfileSignalMode::AllowAll => "allow_all",
        }
    }
}

/// Of which processes a sandboxed one may read information.
#[derive(Clone, Copy, Debug, PartialEq, Eq, Structural)]
pub enum ProfileProcessInfoMode {
    Isolated,
    AllowSameSandbox,
    AllowAll,
}

impl ProfileProcessInfoMode {
    /// The name of the variant.
    pub open spec fn label_text(self) -> Seq<char> {
        match self {
            ProfileProcessInfoMode::Isolated => "Isolated"@,
            ProfileProcessInfoMode::AllowSameSandbox => "AllowSameSandbox"@,
            ProfileProcessInfoMode::AllowAll => "AllowAll"@,
        }
    }

    pub fn label(self) -> (r: &'static str)
        ensures
            r@ == self.label_text(),
    {
        match self {
            ProfileProcessInfoMode::Isolated => "Isolated",
            ProfileProcessInfoMode::AllowSameSandbox => "AllowSameSandbox",
            ProfileProcessInfoMode::AllowAll => "AllowAll",
        }
    }

    /// The word for it in a profile file.
    pub open spec fn key_text(self) -> Seq<char> {
        match self {
            ProfileProcessInfoMode::Isolated => "isolated"@,
            ProfileProcessInfoMode::AllowSameSandbox => "allow_same_sandbox"@,
            ProfileProcessInfoMode::AllowAll => "allow_all"@,
        }
    }

    pub fn key(self) -> (r: &'static str)
        ensures
            r@ == self.key_text(),
    {
        match self {
            ProfileProcessInfoMode::Isolated => "isolated",
            ProfileProcessInfoMode::AllowSameSandbox => "allow_same_sandbox",
            ProfileProcessInfoMode::AllowAll => "allow_all",
        }
    }
}

/// Which inter-process communication is open.
#[derive(Clone, Copy, Debug, PartialEq, Eq, Structural)]
pub enum ProfileIpcMode {
    SharedMemoryOnly,
    Full,
}

impl ProfileIpcMode {
    /// The name of the variant.
    pub open spec fn label_text(self) -> Seq<char> {
        match self {
            ProfileIpcMode::SharedMemoryOnly => "SharedMemoryOnly"@,
            ProfileIpcMode::Full => "Full"@,
        }
    }

    pub fn label(self) -> (r: &'static str)
        ensures
            r@ == self.label_text(),
    {
        match self {
            ProfileIpcMode::SharedMemoryOnly => "SharedMemoryOnly",
            ProfileIpcMode::Full => "Full",
        }
    }

    /// The word for it in a profile file.
    pub open spec fn key_text(self) -> Seq<char> {
        match self {
            ProfileIpcMode::SharedMemoryOnly => "shared_memory_only"@,
            ProfileIpcMode::Full => "full"@,
        }
    }

    pub fn key(self) -> (r: &'static str)
        ensures
            r@ == self.key_text(),
    {
        match self {
            ProfileIpcMode::SharedMemoryOnly => "shared_memory_only",
            ProfileIpcMode::Full => "full",
        }
    }
}

/// How a credential is put into a request.
#[derive(Clone, Copy, Debug, PartialEq, Eq, Structural)]
pub enum InjectMode {
    Header,
    UrlPath,
    QueryParam,
    BasicAuth,
}

impl InjectMode {
    /// The name of the variant.
    pub open spec fn label_text(self) -> Seq<char> {
        match self {
            InjectMode::Header => "Header"@,
            InjectMode::UrlPath => "UrlPath"@,
            InjectMode::QueryParam => "QueryParam"@,
            InjectMode::BasicAuth => "BasicAuth"@,
        }
    }

    pub fn label(self) -> (r: &'static str)
        ensures
            r@ == self.label_text(),
    {
        match self {
            InjectMode::Header => "Header",
            InjectMode::UrlPath => "UrlPath",
            InjectMode::QueryParam => "QueryParam",
            InjectMode::BasicAuth => "BasicAuth",
        }
    }
}

/// A setting that is only shown and compared: its name and the word for it in a profile file.
#[derive(Debug)]
pub struct Setting {
    pub label: String,
    pub key: String,
}

pub open spec fn setting_label(s: Option<Setting>) -> Option<Seq<char>> {
    match s {
        Some(x) => Some(x.label@),
        None => None,
    }
}

pub open spec fn setting_key(s: Option<Setting>) -> Option<Seq<char>> {
    match s {
        Some(x) => Some(x.key@),
        None => None,
    }
}

/// Who a profile is.
#[derive(Debug)]
pub struct ProfileMeta {
    pub name: String,
    pub version: String,
    pub description: Option<String>,
    pub author: Option<String>,
}

/// The policy groups that a profile takes in and leaves out.
#[derive(Debug)]
pub struct GroupsConfig {
    pub included: Vec<String>,
    pub excluded: Vec<String>,
}

/// Commands allowed and denied at startup.
#[derive(Debug)]
pub struct CommandsConfig {
    pub allow: Vec<String>,
    pub deny: Vec<String>,
}

/// Process-level settings.
#[derive(Debug)]
pub struct SecurityConfig {
    pub signal_mode: Option<ProfileSignalMode>,
    pub process_info_mode: Option<ProfileProcessInfoMode>,
    pub ipc_mode: Option<ProfileIpcMode>,
    pub capability_elevation: Option<bool>,
    pub wsl2_proxy_policy: Option<Setting>,
}

/// Settings for Linux alone.
#[derive(Debug)]
pub struct LinuxConfig {
    pub af_unix_mediation: Option<Setting>,
}

/// Path templates and what holds for them.
#[derive(Debug)]
pub struct FilesystemConfig {
    pub allow: Vec<String>,
    pub read: Vec<String>,
    pub write: Vec<String>,
    pub allow_file: Vec<String>,
    pub read_file: Vec<String>,
    pub write_file: Vec<String>,
    pub deny: Vec<String>,
    pub bypass_protection: Vec<String>,
    pub suppress_save_prompt: Vec<String>,
}

/// A request that a credential may be used for.
#[derive(Debug)]
pub struct EndpointRule {
    pub method: String,
    pub path: String,
}

/// Where and how to get a token.
#[derive(Debug)]
pub struct OAuth2Config {
    pub token_url: String,
    pub client_id: String,
    pub client_secret: String,
    pub scope: String,
}

/// A credential that a profile defines. `proxy` is the written form of settings that are only passed on.
#[derive(Debug)]
pub struct CustomCredentialDef {
    pub upstream: String,
    pub credential_key: Option<String>,
    pub auth: Option<OAuth2Config>,
    pub inject_mode: InjectMode,
    pub inject_header: String,
    pub credential_format: Option<String>,
    pub path_pattern: Option<String>,
    pub path_replacement: Option<String>,
    pub query_param_name: Option<String>,
    pub proxy: Option<String>,
    pub env_var: Option<String>,
    pub endpoint_rules: Vec<EndpointRule>,
    pub tls_ca: Option<String>,
    pub tls_client_cert: Option<String>,
    pub tls_client_key: Option<String>,
}

/// What a profile says of the network.
#[derive(Debug)]
pub struct NetworkConfig {
    pub block: bool,
    pub network_profile: Option<String>,
    pub allow_domain: Vec<String>,
    pub credentials: Option<Vec<String>>,
    pub open_port: Vec<u16>,
    pub listen_port: Vec<u16>,
    pub upstream_proxy: Option<String>,
    pub upstream_bypass: Vec<String>,
    pub custom_credentials: Vec<(String, CustomCredentialDef)>,
}

#[derive(Debug)]
pub struct WorkdirConfig {
    pub access: WorkdirAccess,
}

/// What rollback leaves alone.
#[derive(Debug)]
pub struct RollbackConfig {
    pub exclude_patterns: Vec<String>,
    pub exclude_globs: Vec<String>,
}

/// Credentials handed over in environment variables.
#[derive(Debug)]
pub struct EnvCredentials {
    pub mappings: Vec<(String, String)>,
}

/// A hook for another program.
#[derive(Debug)]
pub struct HookConfig {
    pub event: String,
    pub matcher: String,
    pub script: String,
}

/// Hooks by the program they are for.
#[derive(Debug)]
pub struct HooksConfig {
    pub hooks: Vec<(String, HookConfig)>,
}

/// The pages that a sandboxed command may have opened.
#[derive(Debug)]
pub struct OpenUrlConfig {
    pub allow_origins: Vec<String>,
    pub allow_localhost: bool,
}

/// Patterns of environment variables.
#[derive(Debug)]
pub struct EnvironmentConfig {
    pub allow_vars: Vec<String>,
    pub deny_vars: Vec<String>,
}

/// A profile.
#[derive(Debug)]
pub struct Profile {
    pub meta: ProfileMeta,
    pub extends: Option<Vec<String>>,
    pub groups: GroupsConfig,
    pub commands: CommandsConfig,
    pub security: SecurityConfig,
    pub linux: LinuxConfig,
    pub filesystem: FilesystemConfig,
    pub network: NetworkConfig,
    pub workdir: WorkdirConfig,
    pub rollback: RollbackConfig,
    pub env_credentials: EnvCredentials,
    pub hooks: HooksConfig,
    pub open_urls: Option<OpenUrlConfig>,
    pub environment: Option<EnvironmentConfig>,
    pub allow_launch_services: Option<bool>,
    pub allow_gpu: Option<bool>,
    pub allow_parent_of_protected: Option<bool>,
    pub unsafe_macos_seatbelt_rules: Vec<String>,
    pub packs: Vec<String>,
}

/// A rule with its texts as sequences.
pub open spec fn rule_view(r: EndpointRule) -> (Seq<char>, Seq<char>) {
    (r.method@, r.path@)
}

pub open spec fn rule_views(rules: Seq<EndpointRule>) -> Seq<(Seq<char>, Seq<char>)> {
    rules.map_values(|r: EndpointRule| rule_view(r))
}

/// A token source with its texts as sequences.
pub struct OAuth2View {
    pub token_url: Seq<char>,
    pub client_id: Seq<char>,
    pub client_secret: Seq<char>,
    pub scope: Seq<char>,
}

pub open spec fn auth_view(a: Option<OAuth2Config>) -> Option<OAuth2View> {
    match a {
        Some(c) => Some(
            OAuth2View {
                token_url: c.token_url@,
                client_id: c.client_id@,
                client_secret: c.client_secret@,
                scope: c.scope@,
            },
        ),
        None => None,
    }
}

/// A credential with its texts as sequences.
pub struct CredentialView {
    pub upstream: Seq<char>,
    pub credential_key: Option<Seq<char>>,
    pub auth: Option<OAuth2View>,
    pub inject_mode: InjectMode,
    pub inject_header: Seq<char>,
    pub credential_format: Option<Seq<char>>,
    pub path_pattern: Option<Seq<char>>,
    pub path_replacement: Option<Seq<char>>,
    pub query_param_name: Option<Seq<char>>,
    pub proxy: Option<Seq<char>>,
    pub env_var: Option<Seq<char>>,
    pub endpoint_rules: Seq<(Seq<char>, Seq<char>)>,
    pub tls_ca: Option<Seq<char>>,
    pub tls_client_cert: Option<Seq<char>>,
    pub tls_client_key: Option<Seq<char>>,
}

impl View for CustomCredentialDef {
    type V = CredentialView;

    open spec fn view(&self) -> CredentialView {
        CredentialView {
            upstream: self.upstream@,
            credential_key: opt_view(self.credential_key),
            auth: auth_view(self.auth),
            inject_mode: self.inject_mode,
            inject_header: self.inject_header@,
            credential_format: opt_view(self.credential_format),
            path_pattern: opt_view(self.path_pattern),
            path_replacement: opt_view(self.path_replacement),
            query_param_name: opt_view(self.query_param_name),
            proxy: opt_view(self.proxy),
            env_var: opt_view(self.env_var),
            endpoint_rules: rule_views(self.endpoint_rules@),
            tls_ca: opt_view(self.tls_ca),
            tls_client_cert: opt_view(self.tls_client_cert),
            tls_client_key: opt_view(self.tls_client_key),
        }
    }
}

fn rules_eq(a: &Vec<EndpointRule>, b: &Vec<EndpointRule>) -> (r: bool)
    ensures
        r == (rule_views(a@) == rule_views(b@)),
{
    if a.len() != b.len() {
        assert(rule_views(a@).len() != rule_views(b@).len());
        return false;
    }
    let mut i: usize = 0;
    while i < a.len()
        invariant
            i <= a@.len(),
            a@.len() == b@.len(),
            forall|k: int| 0 <= k < i ==> rule_view(#[trigger] a@[k]) == rule_view(b@[k]),
        decreases a@.len() - i,
    {
        if !(str_eq(a[i].method.as_str(), b[i].method.as_str()) && str_eq(
            a[i].path.as_str(),
            b[i].path.as_str(),
        )) {
            assert(rule_views(a@)[i as int] != rule_views(b@)[i as int]);
            return false;
        }
        i += 1;
    }
    assert(rule_views(a@) =~= rule_views(b@));
    true
}

fn auth_eq(a: &Option<OAuth2Config>, b: &Option<OAuth2Config>) -> (r: bool)
    ensures
        r == (auth_view(*a) == auth_view(*b)),
{
    match (a, b) {
        (Some(x), Some(y)) => str_eq(x.token_url.as_str(), y.token_url.as_str()) && str_eq(
            x.client_id.as_str(),
            y.client_id.as_str(),
        ) && str_eq(x.client_secret.as_str(), y.client_secret.as_str()) && str_eq(
            x.scope.as_str(),
            y.scope.as_str(),
        ),
        (None, None) => true,
        _ => false,
    }
}

/// Whether two credentials agree in everything.
pub fn credential_eq(a: &CustomCredentialDef, b: &CustomCredentialDef) -> (r: bool)
    ensures
        r == (a@ == b@),
{
    str_eq(a.upstream.as_str(), b.upstream.as_str()) && opt_str_eq(
        &a.credential_key,
        &b.credential_key,
    ) && auth_eq(&a.auth, &b.auth) && a.inject_mode == b.inject_mode && str_eq(
        a.inject_header.as_str(),
        b.inject_header.as_str(),
    ) && opt_str_eq(&a.credential_format, &b.credential_format) && opt_str_eq(
        &a.path_pattern,
        &b.path_pattern,
    ) && opt_str_eq(&a.path_replacement, &b.path_replacement) && opt_str_eq(
        &a.query_param_name,
        &b.query_param_name,
    ) && opt_str_eq(&a.proxy, &b.proxy) && opt_str_eq(&a.env_var, &b.env_var) && rules_eq(
        &a.endpoint_rules,
        &b.endpoint_rules,
    ) && opt_str_eq(&a.tls_ca, &b.tls_ca) && opt_str_eq(&a.tls_client_cert, &b.tls_client_cert)
        && opt_str_eq(&a.tls_client_key, &b.tls_client_key)
}

pub fn clone_auth(a: &Option<OAuth2Config>) -> (r: Option<OAuth2Config>)
    ensures
        auth_view(r) == auth_view(*a),
{
    match a {
        Some(c) => Some(
            OAuth2Config {
                token_url: c.token_url.clone(),
                client_id: c.client_id.clone(),
                client_secret: c.client_secret.clone(),
                scope: c.scope.clone(),
            },
        ),
        None => None,
    }
}

pub fn clone_rules(rules: &Vec<EndpointRule>) -> (r: Vec<EndpointRule>)
    ensures
        rule_views(r@) == rule_views(rules@),
{
    let mut r: Vec<EndpointRule> = Vec::new();
    let mut i: usize = 0;
    while i < rules.len()
        invariant
            i <= rules@.len(),
            r@.len() == i,
            forall|k: int| 0 <= k < i ==> rule_view(#[trigger] r@[k]) == rule_view(rules@[k]),
        decreases rules@.len() - i,
    {
        r.push(EndpointRule { method: rules[i].method.clone(), path: rules[i].path.clone() });
        i += 1;
    }
    assert(rule_views(r@) =~= rule_views(rules@));
    r
}

pub fn clone_credential(c: &CustomCredentialDef) -> (r: CustomCredentialDef)
    ensures
        r@ == c@,
{
    CustomCredentialDef {
        upstream: c.upstream.clone(),
        credential_key: clone_opt_string(&c.credential_key),
        auth: clone_auth(&c.auth),
        inject_mode: c.inject_mode,
        inject_header: c.inject_header.clone(),
        credential_format: clone_opt_string(&c.credential_format),
        path_pattern: clone_opt_string(&c.path_pattern),
        path_replacement: clone_opt_string(&c.path_replacement),
        query_param_name: clone_opt_string(&c.query_param_name),
        proxy: clone_opt_string(&c.proxy),
        env_var: clone_opt_string(&c.env_var),
        endpoint_rules: clone_rules(&c.endpoint_rules),
        tls_ca: clone_opt_string(&c.tls_ca),
        tls_client_cert: clone_opt_string(&c.tls_client_cert),
        tls_client_key: clone_opt_string(&c.tls_client_key),
    }
}

impl NetworkConfig {
    /// The credentials, none where the profile names none.
    pub open spec fn credential_names(self) -> Seq<Seq<char>> {
        match self.credentials {
            Some(v) => views(v@),
            None => Seq::empty(),
        }
    }

    pub fn resolved_credentials(&self) -> (r: Vec<String>)
        ensures
            views(r@) == self.credential_names(),
            self.credentials matches Some(v) ==> r@ == v@,
            self.credentials is None ==> r@.len() == 0,
    {
        match &self.credentials {
            Some(v) => clone_strings(v),
            None => {
                let r: Vec<String> = Vec::new();
                assert(views(r@) =~= Seq::<Seq<char>>::empty());
                r
            },
        }
    }
}

/// A name of ASCII letters, digits and hyphens, with no hyphen at either end.
pub open spec fn valid_profile_name(s: Seq<char>) -> bool {
    &&& s.len() > 0
    &&& forall|i: int| 0 <= i < s.len() ==> is_alnum(#[trigger] s[i]) || s[i] == '-'
    &&& s[0] != '-'
    &&& s.last() != '-'
}

pub fn is_valid_profile_name(name: &str) -> (r: bool)
    ensures
        r == valid_profile_name(name@),
{
    let v = chars_of(name);
    if v.len() == 0 || v[0] == '-' || v[v.len() - 1] == '-' {
        return false;
    }
    let mut i: usize = 0;
    while i < v.len()
        invariant
            i <= v@.len(),
            v@ == name@,
            forall|k: int| 0 <= k < i ==> is_alnum(#[trigger] v@[k]) || v@[k] == '-',
        decreases v@.len() - i,
    {
        if !(char_is_alnum(v[i]) || v[i] == '-') {
            return false;
        }
        i += 1;
    }
    true
}

// ---------------------------------------------------------------------------
// Empty profiles
// ---------------------------------------------------------------------------

impl ProfileMeta {
    /// Nothing is set.
    pub open spec fn is_unset(self) -> bool {
        &&& self.name@.len() == 0
        &&& self.version@.len() == 0
        &&& self.description is None
        &&& self.author is None
    }
}

impl Default for ProfileMeta {
    fn default() -> (r: Self)
        ensures
            r.is_unset(),
    {
        ProfileMeta {
            name: String::new(),
            version: String::new(),
            description: None,
            author: None,
        }
    }
}

impl GroupsConfig {
    /// Nothing is set.
    pub open spec fn is_unset(self) -> bool {
        &&& self.included@.len() == 0
        &&& self.excluded@.len() == 0
    }
}

impl Default for GroupsConfig {
    fn default() -> (r: Self)
        ensures
            r.is_unset(),
    {
        GroupsConfig {
            included: Vec::new(),
            excluded: Vec::new(),
        }
    }
}

impl CommandsConfig {
    /// Nothing is set.
    pub open spec fn is_unset(self) -> bool {
        &&& self.allow@.len() == 0
        &&& self.deny@.len() == 0
    }
}

impl Default for CommandsConfig {
    fn default() -> (r: Self)
        ensures
            r.is_unset(),
    {
        CommandsConfig {
            allow: Vec::new(),
            deny: Vec::new(),
        }
    }
}

impl SecurityConfig {
    /// Nothing is set.
    pub open spec fn is_unset(self) -> bool {
        &&& self.signal_mode is None
        &&& self.process_info_mode is None
        &&& self.ipc_mode is None
        &&& self.capability_elevation is None
        &&& self.wsl2_proxy_policy is None
    }
}

impl Default for SecurityConfig {
    fn default() -> (r: Self)
        ensures
            r.is_unset(),
    {
        SecurityConfig {
            signal_mode: None,
            process_info_mode: None,
            ipc_mode: None,
            capability_elevation: None,
            wsl2_proxy_policy: None,
        }
    }
}

impl LinuxConfig {
    /// Nothing is set.
    pub open spec fn is_unset(self) -> bool {
        &&& self.af_unix_mediation is None
    }
}

impl Default for LinuxConfig {
    fn default() -> (r: Self)
        ensures
            r.is_unset(),
    {
        LinuxConfig {
            af_unix_mediation: None,
        }
    }
}

impl FilesystemConfig {
    /// Nothing is set.
    pub open spec fn is_unset(self) -> bool {
        &&& self.allow@.len() == 0
        &&& self.read@.len() == 0
        &&& self.write@.len() == 0
        &&& self.allow_file@.len() == 0
        &&& self.read_file@.len() == 0
        &&& self.write_file@.len() == 0
        &&& self.deny@.len() == 0
        &&& self.bypass_protection@.len() == 0
        &&& self.suppress_save_prompt@.len() == 0
    }
}

impl Default for FilesystemConfig {
    fn default() -> (r: Self)
        ensures
            r.is_unset(),
    {
        FilesystemConfig {
            allow: Vec::new(),
            read: Vec::new(),
            write: Vec::new(),
            allow_file: Vec::new(),
            read_file: Vec::new(),
            write_file: Vec::new(),
            deny: Vec::new(),
            bypass_protection: Vec::new(),
            suppress_save_prompt: Vec::new(),
        }
    }
}

impl NetworkConfig {
    /// Nothing is set.
    pub open spec fn is_unset(self) -> bool {
        &&& !self.block
        &&& self.network_profile is None
        &&& self.allow_domain@.len() == 0
        &&& self.credentials is None
        &&& self.open_port@.len() == 0
        &&& self.listen_port@.len() == 0
        &&& self.upstream_proxy is None
        &&& self.upstream_bypass@.len() == 0
        &&& self.custom_credentials@.len() == 0
    }
}

impl Default for NetworkConfig {
    fn default() -> (r: Self)
        ensures
            r.is_unset(),
    {
        NetworkConfig {
            block: false,
            network_profile: None,
            allow_domain: Vec::new(),
            credentials: None,
            open_port: Vec::new(),
            listen_port: Vec::new(),
            upstream_proxy: None,
            upstream_bypass: Vec::new(),
            custom_credentials: Vec::new(),
        }
    }
}

impl WorkdirConfig {
    /// Nothing is set.
    pub open spec fn is_unset(self) -> bool {
        &&& self.access == WorkdirAccess::NoAccess
    }
}

impl Default for WorkdirConfig {
    fn default() -> (r: Self)
        ensures
            r.is_unset(),
    {
        WorkdirConfig {
            access: WorkdirAccess::NoAccess,
        }
    }
}

impl RollbackConfig {
    /// Nothing is set.
    pub open spec fn is_unset(self) -> bool {
        &&& self.exclude_patterns@.len() == 0
        &&& self.exclude_globs@.len() == 0
    }
}

impl Default for RollbackConfig {
    fn default() -> (r: Self)
        ensures
            r.is_unset(),
    {
        RollbackConfig {
            exclude_patterns: Vec::new(),
            exclude_globs: Vec::new(),
        }
    }
}

impl EnvCredentials {
    /// Nothing is set.
    pub open spec fn is_unset(self) -> bool {
        &&& self.mappings@.len() == 0
    }
}

impl Default for EnvCredentials {
    fn default() -> (r: Self)
        ensures
            r.is_unset(),
    {
        EnvCredentials {
            mappings: Vec::new(),
        }
    }
}

impl HooksConfig {
    /// Nothing is set.
    pub open spec fn is_unset(self) -> bool {
        &&& self.hooks@.len() == 0
    }
}

impl Default for HooksConfig {
    fn default() -> (r: Self)
        ensures
            r.is_unset(),
    {
        HooksConfig {
            hooks: Vec::new(),
        }
    }
}

impl Profile {
    /// Nothing is set.
    pub open spec fn is_unset(self) -> bool {
        &&& self.meta.is_unset()
        &&& self.extends is None
        &&& self.groups.is_unset()
        &&& self.commands.is_unset()
        &&& self.security.is_unset()
        &&& self.linux.is_unset()
        &&& self.filesystem.is_unset()
        &&& self.network.is_unset()
        &&& self.workdir.is_unset()
        &&& self.rollback.is_unset()
        &&& self.env_credentials.is_unset()
        &&& self.hooks.is_unset()
        &&& self.open_urls is None
        &&& self.environment is None
        &&& self.allow_launch_services is None
        &&& self.allow_gpu is None
        &&& self.allow_parent_of_protected is None
        &&& self.unsafe_macos_seatbelt_rules@.len() == 0
        &&& self.packs@.len() == 0
    }
}

impl Default for Profile {
    fn default() -> (r: Self)
        ensures
            r.is_unset(),
    {
        Profile {
            meta: ProfileMeta::default(),
            extends: None,
            groups: GroupsConfig::default(),
            commands: CommandsConfig::default(),
            security: SecurityConfig::default(),
            linux: LinuxConfig::default(),
            filesystem: FilesystemConfig::default(),
            network: NetworkConfig::default(),
            workdir: WorkdirConfig::default(),
            rollback: RollbackConfig::default(),
            env_credentials: EnvCredentials::default(),
            hooks: HooksConfig::default(),
            open_urls: None,
            environment: None,
            allow_launch_services: None,
            allow_gpu: None,
            allow_parent_of_protected: None,
            unsafe_macos_seatbelt_rules: Vec::new(),
            packs: Vec::new(),
        }
    }
}

} // verus!
