use maranode::config::{runtime_from_config, LdapConfig, LdapGroupRole, OidcConfig};
use maranode::config::{config_search_paths, default_ldap_uid, default_viewer, isolation_from_config, AssistantConfig,
    DaemonConfig, EnvOverrides, LoggingConfig, RagIngestPolicy, StartupPins, TpmConfig};
use maranode::reload::{plan_reload, StartupSnapshot};
use maranode::types::AirGapMode;
use maranode::baseline::DriftAction;

fn base() -> DaemonConfig {
    DaemonConfig::defaults("/data".to_string(), "/models".to_string(), Some("/run/maranode/api.sock".to_string()))
}

fn no_env() -> EnvOverrides {
    EnvOverrides {
        data_dir: None, models_dir: None, bind: None, rust_log: None, device: None, unix_socket: None,
        admin_key: None, rag: None, log_prompts: None, embedding_model: None, rag_collection: None,
        tpm_passphrase: None, tpm: None,
    }
}

fn no_pins() -> StartupPins {
    StartupPins {
        data_dir: None, bind: None, log_level: None, device: None, unix_socket: None, no_isolation: false,
        rag_enabled: None, embedding_model: None, rag_collection: None, admin_key: None, models_dir: None,
    }
}

#[test]
fn defaults_are_conservative() {
    let c = base();
    assert_eq!(c.bind, "127.0.0.1:11984");
    assert_eq!(c.device, "auto");
    assert_eq!(c.inference.max_queue_depth, 32);
    assert_eq!(c.isolation.mode, AirGapMode::AirGap);
    assert_eq!(c.isolation.allowed_sources, vec!["127.0.0.1", "::1"]);
    assert!(!c.logging.log_prompts);
    assert_eq!(c.logging.content_log_retention_days, 90);
    assert_eq!(c.integrity.drift_action, DriftAction::Warn);
    assert_eq!(c.rag.embedding_model, "bge-m3:latest");
    assert_eq!(f32::from_bits(c.rag.min_score_bits), 0.40f32);
    assert_eq!(c.rag.ingest_policy, RagIngestPolicy::Anyone);
    assert_eq!(TpmConfig::default().seal_purposes, vec!["workspace-kek", "audit-hmac"]);
    assert_eq!(LoggingConfig::default().log_prompts, false);
    assert_eq!(default_viewer(), "viewer");
    assert_eq!(default_ldap_uid(), "uid");
}

#[test]
fn environment_overrides_apply() {
    let mut c = base();
    let mut e = no_env();
    e.bind = Some("0.0.0.0:8080".to_string());
    e.unix_socket = Some(String::new());
    e.rag = Some("true".to_string());
    e.log_prompts = Some("yes".to_string());
    e.tpm = Some("1".to_string());
    e.admin_key = Some("k".to_string());
    c.apply_env_overrides(&e);
    assert_eq!(c.bind, "0.0.0.0:8080");
    assert_eq!(c.unix_socket, None);
    assert!(c.rag.enabled);
    assert!(!c.logging.log_prompts);
    assert!(c.tpm.enabled);
    assert_eq!(c.auth.admin_key.as_deref(), Some("k"));
    assert_eq!(c.data_dir, "/data");
}

#[test]
fn pins_win_and_disable_isolation_off_linux() {
    let mut c = base();
    let mut p = no_pins();
    p.bind = Some("127.0.0.1:1".to_string());
    p.rag_enabled = Some(true);
    p.apply(&mut c, false);
    assert_eq!(c.bind, "127.0.0.1:1");
    assert!(c.rag.enabled);
    assert_eq!(c.isolation.mode, AirGapMode::Disabled);
    let mut d = base();
    no_pins().apply(&mut d, true);
    assert_eq!(d.isolation.mode, AirGapMode::AirGap);
}

#[test]
fn system_prompt_resolution_order() {
    let mut a = AssistantConfig::default();
    assert_eq!(a.resolved_system_prompt(None), Ok(None));
    a.name = "  Ada ".to_string();
    assert_eq!(
        a.resolved_system_prompt(None),
        Ok(Some("You are Ada, a helpful and honest AI assistant. Be polite, concise, and accurate. Never assist with requests that could harm people.".to_string()))
    );
    a.system_prompt = " Be brief. ".to_string();
    assert_eq!(a.resolved_system_prompt(None), Ok(Some("Be brief.".to_string())));
    a.system_prompt_file = Some("/etc/p.txt".to_string());
    assert_eq!(a.resolved_system_prompt(Some(Ok("  From file\n".to_string()))), Ok(Some("From file".to_string())));
    assert_eq!(a.resolved_system_prompt(Some(Ok("   ".to_string()))), Ok(Some("Be brief.".to_string())));
    assert_eq!(
        a.resolved_system_prompt(Some(Err("No such file".to_string()))),
        Err("failed to read assistant.system_prompt_file '/etc/p.txt': No such file".to_string())
    );
}

#[test]
fn search_paths() {
    assert_eq!(config_search_paths(Some("/x"), Some("/home/u")), vec!["/x/maranode/config.toml", "/etc/maranode/config.toml"]);
    assert_eq!(config_search_paths(None, Some("/home/u")), vec!["/home/u/.config/maranode/config.toml", "/etc/maranode/config.toml"]);
    assert_eq!(config_search_paths(None, None), vec!["/etc/maranode/config.toml"]);
}

#[test]
fn isolation_settings_carry_over() {
    let c = base();
    let i = isolation_from_config(&c);
    assert_eq!(i.api_port, 11984);
    assert_eq!(i.api_allowed_sources, vec!["127.0.0.1", "::1"]);
    assert!(i.whitelist.is_empty());
}

#[test]
fn reload_reports_restart_needs() {
    let c = base();
    let snap = StartupSnapshot {
        bind: "127.0.0.1:9".to_string(),
        data_dir: "/data/".to_string(),
        device: "auto".to_string(),
        rag_enabled: false,
        embedding_model: "bge-m3:latest".to_string(),
        unix_socket: Some("/run/maranode/api.sock".to_string()),
        max_parallel: 8,
    };
    let r = plan_reload("/etc/maranode/config.toml", &c, &snap, &no_pins(), false);
    assert!(r.ok);
    assert_eq!(r.path.as_deref(), Some("/etc/maranode/config.toml"));
    assert_eq!(r.requires_restart, vec!["bind", "inference.max_parallel"]);
    assert_eq!(r.applied, vec!["log_level", "inference.max_queue_depth", "isolation", "assistant", "auth"]);
    let mut pins = no_pins();
    pins.bind = Some("127.0.0.1:9".to_string());
    pins.log_level = Some("debug".to_string());
    let r2 = plan_reload("/c.toml", &c, &snap, &pins, true);
    assert_eq!(r2.requires_restart, vec!["inference.max_parallel"]);
    assert_eq!(r2.applied, vec!["inference.max_queue_depth", "isolation", "assistant", "rag", "auth"]);
}

#[test]
fn runtime_settings_follow_the_configuration() {
    let mut c = base();
    c.auth.admin_key = Some("k3y".to_string());
    c.auth.session_hours = 8;
    c.auth.oidc = Some(OidcConfig {
        issuer_url: "https://idp".to_string(),
        client_id: "cid".to_string(),
        client_secret: "sec".to_string(),
        redirect_uri: "https://me/cb".to_string(),
        default_role: "viewer".to_string(),
    });
    c.auth.ldap = Some(LdapConfig {
        url: "ldap://dir".to_string(),
        bind_dn: "cn=svc".to_string(),
        bind_pw: "pw".to_string(),
        base_dn: "dc=x".to_string(),
        uid_attr: "uid".to_string(),
        group_role_map: vec![LdapGroupRole { group_dn: "cn=admins".to_string(), role: "admin".to_string() }],
        default_role: "viewer".to_string(),
    });
    c.rag.ingest_policy = RagIngestPolicy::Allowlist;
    c.rag.ingest_allowlist = vec!["alice".to_string(), "bob".to_string()];
    c.logging.log_prompts = true;
    c.logging.content_log_retention_days = 30;
    let r = runtime_from_config(&c, true, Some("be brief".to_string()));
    assert_eq!(r.admin_key.as_deref(), Some("k3y"));
    assert_eq!(r.rag_ingest_policy, RagIngestPolicy::Allowlist);
    assert_eq!(r.rag_ingest_allowlist, vec!["alice", "bob"]);
    assert_eq!(r.system_prompt.as_deref(), Some("be brief"));
    assert_eq!(r.identity.session_hours, 8);
    assert_eq!(r.identity.oidc.as_ref().map(|o| o.client_id.as_str()), Some("cid"));
    let l = r.identity.ldap.as_ref().unwrap();
    assert_eq!(l.group_role_map.len(), 1);
    assert_eq!(l.group_role_map[0].role, "admin");
    assert!(r.identity.saml.is_none());
    assert!(r.air_gap);
    assert!(r.log_prompts);
    assert_eq!(r.content_log_retention_days, 30);
    let plain = runtime_from_config(&base(), false, None);
    assert!(plain.admin_key.is_none());
    assert!(!plain.air_gap);
    assert_eq!(plain.rag_ingest_policy, RagIngestPolicy::Anyone);
}
