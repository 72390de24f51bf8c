use nono_cli::capability::NetworkMode;
use nono_cli::network_policy::{
    build_proxy_config, collect_allow_domain_port_warnings, expand_proxy_allow,
    is_loopback_domain, partition_allow_domain, resolve_credentials, resolve_groups,
    resolve_network_profile, AllowDomainEntry, CredentialChecks, CredentialDef, NetworkGroup,
    NetworkPolicy, NetworkPolicyMeta, NetworkProfileDef, ResolvedNetworkPolicy,
};
use nono_cli::profile::{CustomCredentialDef, EndpointRule, InjectMode, OAuth2Config};
use nono_cli::proxy_runtime::{
    build_proxy_config_from_flags, intercept_ca_dir, merge_dedup_ports,
    prepare_proxy_launch_options, resolve_effective_proxy_settings, trust_bundle_rules,
    PreparedNetwork, ProxyArgs,
};

fn s(t: &str) -> String {
    t.to_string()
}

fn list(v: &[&str]) -> Vec<String> {
    v.iter().map(|t| s(t)).collect()
}

fn group(hosts: &[&str], suffixes: &[&str]) -> NetworkGroup {
    NetworkGroup { description: s("d"), hosts: list(hosts), suffixes: list(suffixes) }
}

fn profile_of(groups: &[&str], credentials: &[&str]) -> NetworkProfileDef {
    NetworkProfileDef { groups: list(groups), credentials: list(credentials) }
}

fn service(
    upstream: &str,
    key: &str,
    format: Option<&str>,
    env_var: Option<&str>,
) -> CredentialDef {
    CredentialDef {
        upstream: s(upstream),
        credential_key: Some(s(key)),
        inject_header: s("Authorization"),
        credential_format: format.map(s),
        env_var: env_var.map(s),
        endpoint_rules: Vec::new(),
    }
}

fn policy() -> NetworkPolicy {
    NetworkPolicy {
        meta: NetworkPolicyMeta { version: 1, schema_version: s("1.0") },
        groups: vec![
            (s("llm_apis"), group(&["api.openai.com", "api.anthropic.com"], &[])),
            (s("package_registries"), group(&["registry.npmjs.org"], &[])),
            (s("google_cloud"), group(&[], &[".googleapis.com"])),
        ],
        profiles: vec![
            (s("minimal"), profile_of(&["llm_apis"], &[])),
            (
                s("developer"),
                profile_of(&["llm_apis", "package_registries"], &["github", "gitlab"]),
            ),
            (s("enterprise"), profile_of(&["llm_apis", "google_cloud"], &[])),
            (s("agent-code"), profile_of(&["llm_apis"], &["github", "gitlab"])),
            (s("codex"), profile_of(&["llm_apis"], &["openai", "github", "gitlab"])),
        ],
        credentials: vec![
            (s("openai"), service("https://api.openai.com/v1", "openai_api_key", Some("Bearer {}"), None)),
            (s("anthropic"), service("https://api.anthropic.com", "anthropic_api_key", Some("{}"), None)),
            (
                s("github"),
                service(
                    "https://api.github.com",
                    "env://GITHUB_TOKEN",
                    Some("token {}"),
                    Some("GITHUB_TOKEN"),
                ),
            ),
            (
                s("gitlab"),
                service(
                    "https://gitlab.com/api",
                    "env://GITLAB_TOKEN",
                    Some("Bearer {}"),
                    Some("GITLAB_TOKEN"),
                ),
            ),
        ],
    }
}

fn checks() -> CredentialChecks {
    CredentialChecks {
        rejected_env_vars: vec![(s("LD_PRELOAD"), s("'LD_PRELOAD' is on the blocklist"))],
        expanded_paths: vec![
            (s("~/ca.pem"), Ok(s("/home/u/ca.pem"))),
            (s("$BAD/ca.pem"), Err(nono_cli::error::NonoError::ConfigParse(s("no such variable")))),
        ],
    }
}

fn custom(upstream: &str, key: &str) -> CustomCredentialDef {
    CustomCredentialDef {
        upstream: s(upstream),
        credential_key: Some(s(key)),
        auth: None,
        inject_mode: InjectMode::Header,
        inject_header: s("Authorization"),
        credential_format: Some(s("Bearer {}")),
        path_pattern: None,
        path_replacement: None,
        query_param_name: None,
        proxy: None,
        env_var: None,
        endpoint_rules: vec![],
        tls_ca: None,
        tls_client_cert: None,
        tls_client_key: None,
    }
}

#[test]
fn test_resolve_developer_profile() {
    let resolved = resolve_network_profile(&policy(), "developer").expect("resolve");
    assert!(!resolved.hosts.is_empty());
    assert!(resolved.hosts.contains(&"api.openai.com".to_string()));
    assert!(resolved.hosts.contains(&"api.anthropic.com".to_string()));
}

#[test]
fn test_resolve_minimal_profile() {
    let resolved = resolve_network_profile(&policy(), "minimal").expect("resolve");
    assert!(resolved.hosts.contains(&"api.openai.com".to_string()));
    assert!(!resolved.hosts.contains(&"registry.npmjs.org".to_string()));
}

#[test]
fn test_resolve_nonexistent_profile() {
    assert!(resolve_network_profile(&policy(), "nonexistent").is_err());
}

#[test]
fn test_resolve_enterprise_has_suffixes() {
    let resolved = resolve_network_profile(&policy(), "enterprise").expect("resolve");
    assert!(!resolved.suffixes.is_empty());
    assert!(resolved.suffixes.contains(&".googleapis.com".to_string()));
}

#[test]
fn test_resolve_credentials_empty_returns_none() {
    let routes = resolve_credentials(&policy(), &vec![], &vec![], &checks()).expect("resolve");
    assert!(routes.is_empty());
}

#[test]
fn test_resolve_credentials_by_name() {
    let routes =
        resolve_credentials(&policy(), &list(&["openai", "anthropic"]), &vec![], &checks())
            .expect("resolve");
    assert!(!routes.is_empty());
    let openai_route = routes.iter().find(|r| r.prefix == "openai");
    assert!(openai_route.is_some());
    assert_eq!(openai_route.expect("openai").upstream, "https://api.openai.com/v1");
}

#[test]
fn test_resolve_credentials_filtered() {
    let routes =
        resolve_credentials(&policy(), &list(&["openai"]), &vec![], &checks()).expect("resolve");
    assert_eq!(routes.len(), 1);
    assert_eq!(routes[0].prefix, "openai");
}

#[test]
fn test_resolve_credentials_unknown_service_fails() {
    let result =
        resolve_credentials(&policy(), &list(&["nonexistent_service"]), &vec![], &checks());
    assert!(result.is_err());
    let err = result.expect_err("unknown").message();
    assert!(err.contains("nonexistent_service"));
    assert!(err.contains("Unknown credential service"));
}

#[test]
fn test_resolve_credentials_with_custom() {
    let custom = vec![(s("telegram"), custom("https://api.telegram.org", "telegram_bot_token"))];
    let routes = resolve_credentials(&policy(), &list(&["telegram"]), &custom, &checks())
        .expect("resolve");
    assert_eq!(routes.len(), 1);
    assert_eq!(routes[0].prefix, "telegram");
    assert_eq!(routes[0].upstream, "https://api.telegram.org");
    assert_eq!(routes[0].credential_key, Some("telegram_bot_token".to_string()));
}

#[test]
fn test_resolve_credentials_custom_overrides_builtin() {
    let mut def = custom("https://my-proxy.example.com/openai", "my_openai_key");
    def.inject_header = s("X-Custom-Auth");
    def.credential_format = Some(s("Token {}"));
    let custom = vec![(s("openai"), def)];
    let routes =
        resolve_credentials(&policy(), &list(&["openai"]), &custom, &checks()).expect("resolve");
    assert_eq!(routes.len(), 1);
    assert_eq!(routes[0].upstream, "https://my-proxy.example.com/openai");
    assert_eq!(routes[0].credential_key, Some("my_openai_key".to_string()));
    assert_eq!(routes[0].inject_header, "X-Custom-Auth");
}

#[test]
fn test_resolve_credentials_mixed_custom_and_builtin() {
    let custom = vec![(s("telegram"), custom("https://api.telegram.org", "telegram_bot_token"))];
    let routes =
        resolve_credentials(&policy(), &list(&["openai", "telegram"]), &custom, &checks())
            .expect("resolve");
    assert_eq!(routes.len(), 2);
    let openai = routes.iter().find(|r| r.prefix == "openai").expect("openai");
    assert_eq!(openai.upstream, "https://api.openai.com/v1");
    let telegram = routes.iter().find(|r| r.prefix == "telegram").expect("telegram");
    assert_eq!(telegram.upstream, "https://api.telegram.org");
}

#[test]
fn test_custom_credential_http_localhost_allowed() {
    let custom = vec![(s("local"), custom("http://localhost:8080/api", "local_api_key"))];
    let routes =
        resolve_credentials(&policy(), &list(&["local"]), &custom, &checks()).expect("resolve");
    assert_eq!(routes.len(), 1);
    assert_eq!(routes[0].upstream, "http://localhost:8080/api");
}

#[test]
fn test_build_proxy_config() {
    let resolved = ResolvedNetworkPolicy {
        hosts: vec!["api.openai.com".to_string()],
        suffixes: vec![".googleapis.com".to_string()],
        routes: vec![],
        profile_credentials: vec![],
    };
    let config = build_proxy_config(&resolved, &vec!["extra.example.com".to_string()]);
    assert!(config.allowed_hosts.contains(&"api.openai.com".to_string()));
    assert!(config.allowed_hosts.contains(&"*.googleapis.com".to_string()));
    assert!(config.allowed_hosts.contains(&"extra.example.com".to_string()));
}

#[test]
fn test_deduplication() {
    let policy = NetworkPolicy {
        meta: NetworkPolicyMeta { version: 1, schema_version: s("1.0") },
        groups: vec![
            (s("a"), group(&["foo.com", "bar.com"], &[])),
            (s("b"), group(&["bar.com", "baz.com"], &[])),
        ],
        profiles: vec![],
        credentials: vec![],
    };
    let resolved = resolve_groups(&policy, &vec!["a".to_string(), "b".to_string()]).expect("resolve");
    assert_eq!(resolved.hosts.iter().filter(|h| *h == "bar.com").count(), 1);
    assert_eq!(resolved.hosts.len(), 3);
}

#[test]
fn test_custom_credential_http_127_cidr_allowed() {
    let custom = vec![(s("local"), custom("http://127.1.2.3:8080/api", "local_api_key"))];
    let routes =
        resolve_credentials(&policy(), &list(&["local"]), &custom, &checks()).expect("resolve");
    assert_eq!(routes.len(), 1);
}

#[test]
fn test_custom_credential_http_0_0_0_0_allowed() {
    let custom = vec![(s("local"), custom("http://0.0.0.0:3000/api", "local_api_key"))];
    let routes =
        resolve_credentials(&policy(), &list(&["local"]), &custom, &checks()).expect("resolve");
    assert_eq!(routes.len(), 1);
}

#[test]
fn test_custom_credential_with_valid_header() {
    let mut def = custom("https://api.example.com", "api_key");
    def.inject_header = s("X-Custom-Auth");
    def.credential_format = Some(s("Token {}"));
    let custom = vec![(s("test"), def)];
    let routes =
        resolve_credentials(&policy(), &list(&["test"]), &custom, &checks()).expect("resolve");
    assert_eq!(routes.len(), 1);
    assert_eq!(routes[0].inject_header, "X-Custom-Auth");
    assert_eq!(routes[0].credential_format.as_deref(), Some("Token {}"));
}

#[test]
fn test_resolve_credentials_propagates_env_var() {
    let mut def = custom("https://api.openai.com/v1", "op://Development/OpenAI/credential");
    def.env_var = Some(s("OPENAI_API_KEY"));
    let custom = vec![(s("openai"), def)];
    let routes =
        resolve_credentials(&policy(), &list(&["openai"]), &custom, &checks()).expect("resolve");
    assert_eq!(routes.len(), 1);
    assert_eq!(
        routes[0].env_var,
        Some("OPENAI_API_KEY".to_string()),
        "env_var must be propagated from CustomCredentialDef to RouteConfig"
    );
}

#[test]
fn test_resolve_credentials_builtin_without_env_var() {
    let routes =
        resolve_credentials(&policy(), &list(&["openai"]), &vec![], &checks()).expect("resolve");
    assert_eq!(routes.len(), 1);
    assert_eq!(
        routes[0].env_var, None,
        "Built-in credentials without env_var field should have None"
    );
}

#[test]
fn test_resolve_github_credential() {
    let routes =
        resolve_credentials(&policy(), &list(&["github"]), &vec![], &checks()).expect("resolve");
    assert_eq!(routes.len(), 1);
    let github = &routes[0];
    assert_eq!(github.prefix, "github");
    assert_eq!(github.upstream, "https://api.github.com");
    assert_eq!(github.credential_key, Some("env://GITHUB_TOKEN".to_string()));
    assert_eq!(github.credential_format.as_deref(), Some("token {}"));
    assert_eq!(github.env_var, Some("GITHUB_TOKEN".to_string()));
}

#[test]
fn test_resolve_gitlab_credential() {
    let routes =
        resolve_credentials(&policy(), &list(&["gitlab"]), &vec![], &checks()).expect("resolve");
    assert_eq!(routes.len(), 1);
    let gitlab = &routes[0];
    assert_eq!(gitlab.prefix, "gitlab");
    assert_eq!(gitlab.upstream, "https://gitlab.com/api");
    assert_eq!(gitlab.credential_key, Some("env://GITLAB_TOKEN".to_string()));
    assert_eq!(gitlab.credential_format.as_deref(), Some("Bearer {}"));
    assert_eq!(gitlab.env_var, Some("GITLAB_TOKEN".to_string()));
}

#[test]
fn test_claude_code_profile_includes_git_provider_credential() {
    let resolved = resolve_network_profile(&policy(), "agent-code").expect("resolve");
    assert!(resolved.profile_credentials.contains(&"github".to_string()));
    assert!(resolved.profile_credentials.contains(&"gitlab".to_string()));
}

#[test]
fn test_codex_profile_includes_openai_and_git_provider_credentials() {
    let resolved = resolve_network_profile(&policy(), "codex").expect("resolve");
    assert!(resolved.profile_credentials.contains(&"openai".to_string()));
    assert!(resolved.profile_credentials.contains(&"github".to_string()));
    assert!(resolved.profile_credentials.contains(&"gitlab".to_string()));
}

#[test]
fn test_resolve_credentials_rejects_dangerous_env_var() {
    let mut def = custom("https://api.example.com", "safe_key");
    def.env_var = Some(s("LD_PRELOAD"));
    let custom = vec![(s("evil"), def)];
    let result = resolve_credentials(&policy(), &list(&["evil"]), &custom, &checks());
    assert!(result.is_err());
    let err = result.expect_err("rejected").message();
    assert!(err.contains("blocklist"), "should mention blocklist, got: {}", err);
}

#[test]
fn test_developer_profile_includes_github_credential() {
    let resolved = resolve_network_profile(&policy(), "developer").expect("should resolve");
    assert!(resolved.profile_credentials.contains(&"github".to_string()));
}

#[test]
fn test_developer_profile_includes_gitlab_credential() {
    let resolved = resolve_network_profile(&policy(), "developer").expect("should resolve");
    assert!(resolved.profile_credentials.contains(&"gitlab".to_string()));
}

#[test]
fn test_resolve_credentials_with_oauth2_auth() {
    let mut def = custom("https://api.example.com", "");
    def.credential_key = None;
    def.auth = Some(OAuth2Config {
        token_url: "https://auth.example.com/oauth/token".to_string(),
        client_id: "my-client".to_string(),
        client_secret: "env://CLIENT_SECRET".to_string(),
        scope: "api.read".to_string(),
    });
    let custom = vec![(s("my_api"), def)];
    let routes =
        resolve_credentials(&policy(), &list(&["my_api"]), &custom, &checks()).expect("resolve");
    assert_eq!(routes.len(), 1);
    assert_eq!(routes[0].prefix, "my_api");
    assert_eq!(routes[0].upstream, "https://api.example.com");
    assert!(routes[0].credential_key.is_none(), "OAuth2 route should not have credential_key");
    assert!(routes[0].oauth2.is_some(), "OAuth2 route should have oauth2 config");
    let oauth2 = routes[0].oauth2.as_ref().expect("oauth2");
    assert_eq!(oauth2.token_url, "https://auth.example.com/oauth/token");
    assert_eq!(oauth2.client_id, "my-client");
    assert_eq!(oauth2.client_secret, "env://CLIENT_SECRET");
    assert_eq!(oauth2.scope, "api.read");
}

#[test]
fn test_resolve_credentials_without_oauth2_has_none() {
    let custom = vec![(s("standard"), custom("https://api.example.com", "my_key"))];
    let routes =
        resolve_credentials(&policy(), &list(&["standard"]), &custom, &checks()).expect("resolve");
    assert_eq!(routes.len(), 1);
    assert!(routes[0].oauth2.is_none(), "Non-OAuth2 route should not have oauth2 config");
    assert_eq!(routes[0].credential_key, Some("my_key".to_string()));
}

#[test]
fn test_collect_allow_domain_port_warnings_detects_host_port_entries() {
    let warnings = collect_allow_domain_port_warnings(
        &[
            "api.example.com".to_string(),
            "nats.example.com:4222".to_string(),
            "*.corp.internal:8443".to_string(),
        ],
        "allow_domain",
    );

    assert_eq!(warnings.len(), 2);
    assert!(warnings[0].contains("nats.example.com:4222"));
    assert!(warnings[1].contains("*.corp.internal:8443"));
}

#[test]
fn test_collect_allow_domain_port_warnings_ignores_plain_hosts_and_groups() {
    let warnings = collect_allow_domain_port_warnings(
        &["developer".to_string(), "api.example.com".to_string()],
        "allow_domain",
    );

    assert!(warnings.is_empty());
}

#[test]
fn test_partition_allow_domain_plain_entries() {
    let entries = vec![
        AllowDomainEntry::Plain("api.example.com".to_string()),
        AllowDomainEntry::Plain("other.example.com".to_string()),
    ];
    let (plain_hosts, endpoint_routes) =
        partition_allow_domain(&policy(), &entries).expect("partition");
    assert_eq!(plain_hosts, vec!["api.example.com", "other.example.com"]);
    assert!(endpoint_routes.is_empty());
}

#[test]
fn test_partition_allow_domain_with_endpoints() {
    let entries = vec![
        AllowDomainEntry::Plain("api.openai.com".to_string()),
        AllowDomainEntry::WithEndpoints {
            domain: "api.github.com".to_string(),
            endpoints: vec![
                EndpointRule { method: "GET".to_string(), path: "/repos/my-org/**".to_string() },
                EndpointRule {
                    method: "POST".to_string(),
                    path: "/repos/my-org/*/issues".to_string(),
                },
            ],
        },
    ];
    let (plain_hosts, endpoint_routes) =
        partition_allow_domain(&policy(), &entries).expect("partition");
    assert_eq!(plain_hosts, vec!["api.openai.com"]);
    assert_eq!(endpoint_routes.len(), 1);

    let route = &endpoint_routes[0];
    assert_eq!(route.prefix, "_ep_api.github.com");
    assert_eq!(route.upstream, "https://api.github.com");
    assert!(route.credential_key.is_none());
    assert_eq!(route.endpoint_rules.len(), 2);
    assert_eq!(route.endpoint_rules[0].method, "GET");
    assert_eq!(route.endpoint_rules[0].path, "/repos/my-org/**");
    assert_eq!(route.endpoint_rules[1].method, "POST");
    assert_eq!(route.endpoint_rules[1].path, "/repos/my-org/*/issues");
}

#[test]
fn test_partition_allow_domain_empty_endpoints_treated_as_plain() {
    let entries = vec![AllowDomainEntry::WithEndpoints {
        domain: "api.example.com".to_string(),
        endpoints: vec![],
    }];
    let (plain_hosts, endpoint_routes) =
        partition_allow_domain(&policy(), &entries).expect("partition");
    assert_eq!(plain_hosts, vec!["api.example.com"]);
    assert!(endpoint_routes.is_empty());
}

#[test]
fn test_partition_allow_domain_rejects_empty_domain() {
    let entries = vec![AllowDomainEntry::WithEndpoints {
        domain: String::new(),
        endpoints: vec![EndpointRule { method: "GET".to_string(), path: "/**".to_string() }],
    }];
    let result = partition_allow_domain(&policy(), &entries);
    assert!(result.is_err());
}

#[test]
fn loopback_domains_are_reached_without_tls() {
    for domain in [
        "localhost", "127.0.0.1", "127.255.0.9", "::1", "0:0:0:0:0:0:0:1", "0::0001", "::0.0.0.1",
        "0000::1", "::0:0:1",
    ] {
        assert!(is_loopback_domain(domain), "{domain}");
    }
    for domain in [
        "LocalHost", "example.com", "128.0.0.1", "127.0.0", "127.0.0.256", "127.0.0.01",
        "127.0.0.+1", "127.0.0.1.", "::", "::2", ":::1", "1::1", "0:0:0:0:0:0:0:0:1",
        "0:0:0:0:0:0:0::0:1", "::ffff:127.0.0.1", "::00001", "",
    ] {
        assert!(!is_loopback_domain(domain), "{domain}");
    }
    let entries = vec![AllowDomainEntry::WithEndpoints {
        domain: s("localhost"),
        endpoints: vec![EndpointRule { method: s("GET"), path: s("/**") }],
    }];
    let (_, routes) = partition_allow_domain(&policy(), &entries).expect("partition");
    assert_eq!(routes[0].upstream, "http://localhost");
}

#[test]
fn groups_and_profiles_stand_for_their_hosts() {
    assert_eq!(
        expand_proxy_allow(&policy(), &list(&["llm_apis", "x.com"])),
        list(&["api.openai.com", "api.anthropic.com", "x.com"])
    );
    assert!(resolve_groups(&policy(), &list(&["absent"])).is_err());
}

#[test]
fn certificate_paths_are_expanded() {
    let mut def = custom("https://api.example.com", "k");
    def.tls_ca = Some(s("~/ca.pem"));
    let routes = resolve_credentials(&policy(), &list(&["x"]), &vec![(s("x"), def)], &checks())
        .expect("resolve");
    assert_eq!(routes[0].tls_ca.as_deref(), Some("/home/u/ca.pem"));
    let mut def = custom("https://api.example.com", "k");
    def.tls_ca = Some(s("$BAD/ca.pem"));
    assert!(resolve_credentials(&policy(), &list(&["x"]), &vec![(s("x"), def)], &checks()).is_err());
}

#[test]
fn each_request_for_a_service_has_its_route() {
    let routes =
        resolve_credentials(&policy(), &list(&["openai", "github", "openai"]), &vec![], &checks())
            .expect("resolve");
    let names: Vec<&str> = routes.iter().map(|r| r.prefix.as_str()).collect();
    assert_eq!(names, vec!["openai", "github", "openai"]);
}

fn sandbox_args() -> ProxyArgs {
    ProxyArgs {
        allow_net: false,
        network_profile: None,
        allow_proxy: Vec::new(),
        proxy_credential: Vec::new(),
        external_proxy: None,
        external_proxy_bypass: Vec::new(),
        allow_bind: Vec::new(),
        proxy_port: None,
    }
}

fn prepared() -> PreparedNetwork {
    PreparedNetwork {
        network_mode: NetworkMode::AllowAll,
        network_profile: Some("developer".to_string()),
        allow_domain: vec!["docs.python.org".to_string()],
        credentials: vec!["github".to_string()],
        custom_credentials: Vec::new(),
        upstream_proxy: None,
        upstream_bypass: Vec::new(),
        listen_ports: Vec::new(),
        open_url_origins: Vec::new(),
        open_url_allow_localhost: false,
        allow_launch_services_active: false,
    }
}

#[test]
fn test_resolve_effective_proxy_settings_allow_net_clears_profile_proxy_state() {
    let args = ProxyArgs { allow_net: true, ..sandbox_args() };
    let effective = resolve_effective_proxy_settings(&args, &prepared());
    assert_eq!(effective.network_profile, None);
    assert_eq!(effective.allow_domain, Vec::<String>::new());
    assert_eq!(effective.credentials, Vec::<String>::new());
}

#[test]
fn test_resolve_effective_proxy_settings_merges_cli_and_profile() {
    let args = ProxyArgs {
        network_profile: Some("minimal".to_string()),
        allow_proxy: vec!["example.com".to_string()],
        proxy_credential: vec!["openai".to_string()],
        ..sandbox_args()
    };
    let effective = resolve_effective_proxy_settings(&args, &prepared());
    assert_eq!(effective.network_profile, Some("minimal".to_string()));
    assert_eq!(
        effective.allow_domain,
        vec!["docs.python.org".to_string(), "example.com".to_string()]
    );
    assert_eq!(effective.credentials, vec!["github".to_string(), "openai".to_string()]);
}

#[test]
fn ports_are_sorted_and_unique() {
    assert_eq!(merge_dedup_ports(&vec![3000, 80], &vec![80, 443]), vec![80, 443, 3000]);
    assert!(merge_dedup_ports(&vec![], &vec![]).is_empty());
}

#[test]
fn the_mode_decides_on_the_proxy() {
    let args = ProxyArgs { allow_bind: vec![9], ..sandbox_args() };
    let (options, warning) = prepare_proxy_launch_options(&args, &prepared(), false);
    assert!(options.active);
    assert_eq!(warning, None);
    assert_eq!(options.allow_bind_ports, vec![9]);
    let blocked = PreparedNetwork { network_mode: NetworkMode::Blocked, ..prepared() };
    let (options, warning) = prepare_proxy_launch_options(&args, &blocked, false);
    assert!(!options.active);
    assert!(warning.is_some());
    let (_, warning) = prepare_proxy_launch_options(&args, &blocked, true);
    assert!(warning.is_none());
}

#[test]
fn flags_become_a_proxy_configuration() {
    let args = ProxyArgs {
        network_profile: Some(s("minimal")),
        external_proxy: Some(s("squid:3128")),
        external_proxy_bypass: list(&["internal"]),
        proxy_port: Some(8123),
        ..sandbox_args()
    };
    let (options, _) = prepare_proxy_launch_options(&args, &prepared(), true);
    let config = build_proxy_config_from_flags(&policy(), &options, &checks()).expect("config");
    assert_eq!(
        config.allowed_hosts,
        list(&["api.anthropic.com", "api.openai.com", "docs.python.org"])
    );
    assert_eq!(config.routes.len(), 1);
    assert_eq!(config.bind_port, Some(8123));
    let external = config.external_proxy.expect("external");
    assert_eq!(external.address, "squid:3128");
    assert_eq!(external.bypass_hosts, list(&["internal"]));
}

#[test]
fn certificate_directories_differ_by_process_and_time() {
    let a = intercept_ca_dir("/home/u", 10, 1);
    assert!(a.starts_with("/home/u/"));
    assert_ne!(a, intercept_ca_dir("/home/u", 11, 1));
    assert_ne!(a, intercept_ca_dir("/home/u", 10, 2));
    assert_eq!(a, "/home/u/.nono/sessions/intercept-10-000000001");
    assert_eq!(trust_bundle_rules("/x").0, "(allow file-read-data (literal \"/x\"))");
}
