//! The daemon's configuration: its defaults, the environment and command-line
//! overrides, the assistant prompt, and what a reload can apply in place.

use vstd::prelude::*;
use crate::types::AirGapMode;
use crate::baseline::DriftAction;
use crate::isolation::{IsolationConfig as IsolatorConfig, WhitelistEntry};
use crate::text::{trim, spec_trim, join_path, spec_join_path, append_str, str_eq};

verus! {

/// Limits on concurrent inference.
#[derive(Debug, Clone, Copy, PartialEq, Eq, Structural)]
pub struct InferenceConfig {
    pub max_queue_depth: usize,
    pub max_parallel: usize,
    pub max_loaded_models: usize,
}

impl Default for InferenceConfig {
    fn default() -> (r: InferenceConfig)
        ensures
            r == (InferenceConfig { max_queue_depth: 32, max_parallel: 4, max_loaded_models: 2 }),
    {
        InferenceConfig { max_queue_depth: 32, max_parallel: 4, max_loaded_models: 2 }
    }
}

/// Network isolation settings.
#[derive(Debug, Clone)]
pub struct IsolationConfig {
    pub mode: AirGapMode,
    pub api_port: u16,
    pub allowed_sources: Vec<String>,
    pub whitelist: Vec<WhitelistEntry>,
}

impl Default for IsolationConfig {
    fn default() -> (r: IsolationConfig)
        ensures
            r.mode == AirGapMode::AirGap,
            r.api_port == 11984,
            r.allowed_sources@.len() == 2,
            r.allowed_sources@[0]@ == "127.0.0.1"@,
            r.allowed_sources@[1]@ == "::1"@,
            r.whitelist@.len() == 0,
    {
        IsolationConfig {
            mode: AirGapMode::AirGap,
            api_port: 11984,
            allowed_sources: vec!["127.0.0.1".to_owned(), "::1".to_owned()],
            whitelist: Vec::new(),
        }
    }
}

/// OpenID Connect sign-in.
#[derive(Debug, Clone)]
pub struct OidcConfig {
    pub issuer_url: String,
    pub client_id: String,
    pub client_secret: String,
    pub redirect_uri: String,
    pub default_role: String,
}

/// An LDAP group and the role its members get.
#[derive(Debug, Clone)]
pub struct LdapGroupRole {
    pub group_dn: String,
    pub role: String,
}

/// LDAP sign-in.
#[derive(Debug, Clone)]
pub struct LdapConfig {
    pub url: String,
    pub bind_dn: String,
    pub bind_pw: String,
    pub base_dn: String,
    pub uid_attr: String,
    pub group_role_map: Vec<LdapGroupRole>,
    pub default_role: String,
}

/// SAML sign-in.
#[derive(Debug, Clone)]
pub struct SamlConfig {
    pub idp_metadata_url: String,
    pub sp_entity_id: String,
    pub sp_cert: Option<String>,
    pub sp_key: Option<String>,
    pub idp_cert: Option<String>,
    pub default_role: String,
}

/// Authentication settings.
#[derive(Debug, Clone)]
pub struct AuthConfig {
    pub admin_key: Option<String>,
    /// Session lifetime in hours.
    pub session_hours: i64,
    pub oidc: Option<OidcConfig>,
    pub ldap: Option<LdapConfig>,
    pub saml: Option<SamlConfig>,
}

impl Default for AuthConfig {
    fn default() -> (r: AuthConfig)
        ensures
            r.admin_key is None,
            r.session_hours == 24,
            r.oidc is None,
            r.ldap is None,
            r.saml is None,
    {
        AuthConfig { admin_key: None, session_hours: 24, oidc: None, ldap: None, saml: None }
    }
}

/// The role given to new external users when the configuration names none.
pub fn default_viewer() -> (r: String)
    ensures
        r@ == "viewer"@,
{
    "viewer".to_owned()
}

/// The LDAP attribute holding user names when the configuration names none.
pub fn default_ldap_uid() -> (r: String)
    ensures
        r@ == "uid"@,
{
    "uid".to_owned()
}

/// What the audit log records of prompts.
#[derive(Debug, Clone, Copy, PartialEq, Eq, Structural)]
pub struct LoggingConfig {
    /// Whether prompt and response text is logged; off unless opted in.
    pub log_prompts: bool,
    /// Days to keep content-logged entries; 0 means never pruned.
    pub content_log_retention_days: u32,
}

impl Default for LoggingConfig {
    fn default() -> (r: LoggingConfig)
        ensures
            r == (LoggingConfig { log_prompts: false, content_log_retention_days: 90 }),
    {
        LoggingConfig { log_prompts: false, content_log_retention_days: 90 }
    }
}

/// Outgoing mail.
#[derive(Debug, Clone)]
pub struct SmtpConfig {
    pub host: String,
    pub port: u16,
    pub username: Option<String>,
    pub password: Option<String>,
    pub from: String,
    pub starttls: bool,
}

/// Behavioural integrity checks.
#[derive(Debug, Clone)]
pub struct IntegrityConfig {
    pub baselines_dir: Option<String>,
    pub drift_action: DriftAction,
}

impl Default for IntegrityConfig {
    fn default() -> (r: IntegrityConfig)
        ensures
            r.baselines_dir is None,
            r.drift_action == DriftAction::Warn,
    {
        IntegrityConfig { baselines_dir: None, drift_action: DriftAction::Warn }
    }
}

/// Model approval registry.
#[derive(Debug, Clone)]
pub struct RegistryConfig {
    pub require_approval_token: bool,
    pub tokens_dir: Option<String>,
}

impl Default for RegistryConfig {
    fn default() -> (r: RegistryConfig)
        ensures
            !r.require_approval_token,
            r.tokens_dir is None,
    {
        RegistryConfig { require_approval_token: false, tokens_dir: None }
    }
}

/// TPM key sealing.
#[derive(Debug, Clone)]
pub struct TpmConfig {
    pub enabled: bool,
    pub pcr_indices: String,
    pub software_passphrase: Option<String>,
    pub seal_purposes: Vec<String>,
}

impl Default for TpmConfig {
    fn default() -> (r: TpmConfig)
        ensures
            !r.enabled,
            r.pcr_indices@ == "0,7"@,
            r.software_passphrase is None,
            r.seal_purposes@.len() == 2,
            r.seal_purposes@[0]@ == "workspace-kek"@,
            r.seal_purposes@[1]@ == "audit-hmac"@,
    {
        TpmConfig {
            enabled: false,
            pcr_indices: "0,7".to_owned(),
            software_passphrase: None,
            seal_purposes: vec!["workspace-kek".to_owned(), "audit-hmac".to_owned()],
        }
    }
}

/// External data-loss-prevention systems.
#[derive(Debug, Clone)]
pub struct DlpConfig {
    pub purview_tenant_id: Option<String>,
    pub purview_client_id: Option<String>,
    pub purview_client_secret: Option<String>,
    pub purview_subscription_id: Option<String>,
    pub forcepoint_url: Option<String>,
    pub forcepoint_username: Option<String>,
    pub forcepoint_password: Option<String>,
    pub symantec_url: Option<String>,
    pub symantec_username: Option<String>,
    pub symantec_password: Option<String>,
}

impl Default for DlpConfig {
    fn default() -> (r: DlpConfig)
        ensures
            r.purview_tenant_id is None && r.purview_client_id is None && r.purview_client_secret is None
                && r.purview_subscription_id is None && r.forcepoint_url is None && r.forcepoint_username is None
                && r.forcepoint_password is None && r.symantec_url is None && r.symantec_username is None
                && r.symantec_password is None,
    {
        DlpConfig {
            purview_tenant_id: None,
            purview_client_id: None,
            purview_client_secret: None,
            purview_subscription_id: None,
            forcepoint_url: None,
            forcepoint_username: None,
            forcepoint_password: None,
            symantec_url: None,
            symantec_username: None,
            symantec_password: None,
        }
    }
}

/// Change-management systems.
#[derive(Debug, Clone)]
pub struct ChangeManagementConfig {
    pub servicenow_url: Option<String>,
    pub servicenow_user: Option<String>,
    pub servicenow_password: Option<String>,
    pub jira_url: Option<String>,
    pub jira_project: Option<String>,
    pub jira_user: Option<String>,
    pub jira_token: Option<String>,
}

impl Default for ChangeManagementConfig {
    fn default() -> (r: ChangeManagementConfig)
        ensures
            r.servicenow_url is None && r.servicenow_user is None && r.servicenow_password is None
                && r.jira_url is None && r.jira_project is None && r.jira_user is None && r.jira_token is None,
    {
        ChangeManagementConfig {
            servicenow_url: None,
            servicenow_user: None,
            servicenow_password: None,
            jira_url: None,
            jira_project: None,
            jira_user: None,
            jira_token: None,
        }
    }
}

/// Who may write to the persistent RAG store.
#[derive(Debug, Clone, Copy, PartialEq, Eq, Structural)]
pub enum RagIngestPolicy {
    Anyone,
    AdminOnly,
    Allowlist,
}

impl Default for RagIngestPolicy {
    fn default() -> (r: RagIngestPolicy)
        ensures
            r == RagIngestPolicy::Anyone,
    {
        RagIngestPolicy::Anyone
    }
}

/// Retrieval-augmented generation.
#[derive(Debug, Clone)]
pub struct RagConfig {
    pub enabled: bool,
    pub embedding_model: String,
    pub default_collection: String,
    pub chunk_size: usize,
    pub chunk_overlap: usize,
    pub top_k: usize,
    /// The minimum retrieval score, an `f32` held by its IEEE 754 bits.
    pub min_score_bits: u32,
    pub max_context_chars: usize,
    pub ingest_policy: RagIngestPolicy,
    pub ingest_allowlist: Vec<String>,
}

impl Default for RagConfig {
    fn default() -> (r: RagConfig)
        ensures
            !r.enabled,
            r.embedding_model@ == "bge-m3:latest"@,
            r.default_collection@ == "default"@,
            r.chunk_size == 1200,
            r.chunk_overlap == 200,
            r.top_k == 5,
            r.min_score_bits == 0x3ecc_cccd,
            r.max_context_chars == 6000,
            r.ingest_policy == RagIngestPolicy::Anyone,
            r.ingest_allowlist@.len() == 0,
    {
        RagConfig {
            enabled: false,
            embedding_model: "bge-m3:latest".to_owned(),
            default_collection: "default".to_owned(),
            chunk_size: 1200,
            chunk_overlap: 200,
            top_k: 5,
            min_score_bits: 0x3ecc_cccd,
            max_context_chars: 6000,
            ingest_policy: RagIngestPolicy::Anyone,
            ingest_allowlist: Vec::new(),
        }
    }
}

/// The assistant's persona.
#[derive(Debug, Clone)]
pub struct AssistantConfig {
    pub name: String,
    pub system_prompt: String,
    pub system_prompt_file: Option<String>,
}

impl Default for AssistantConfig {
    fn default() -> (r: AssistantConfig)
        ensures
            r.name@.len() == 0,
            r.system_prompt@.len() == 0,
            r.system_prompt_file is None,
    {
        AssistantConfig { name: String::new(), system_prompt: String::new(), system_prompt_file: None }
    }
}

/// The prompt built from the assistant's name alone.
pub open spec fn named_prompt(name: Seq<char>) -> Seq<char> {
    "You are "@ + name
        + ", a helpful and honest AI assistant. Be polite, concise, and accurate. Never assist with requests that could harm people."@
}

/// The system prompt: the prompt file's text when it is not blank, else the
/// inline prompt when not blank, else one built from the name when not
/// blank, else none. Each is taken trimmed.
pub open spec fn spec_system_prompt(file_text: Option<Seq<char>>, inline: Seq<char>, name: Seq<char>) -> Option<Seq<char>> {
    if file_text is Some && spec_trim(file_text->0).len() > 0 {
        Some(spec_trim(file_text->0))
    } else if spec_trim(inline).len() > 0 {
        Some(spec_trim(inline))
    } else if spec_trim(name).len() > 0 {
        Some(named_prompt(spec_trim(name)))
    } else {
        None
    }
}

/// The error raised when the prompt file cannot be read.
pub open spec fn prompt_file_error(path: Seq<char>, err: Seq<char>) -> Seq<char> {
    "failed to read assistant.system_prompt_file '"@ + path + "': "@ + err
}

impl AssistantConfig {
    /// Resolves the system prompt. `file_read` is the outcome of reading
    /// `system_prompt_file` (its text, or the reason it could not be read),
    /// supplied by the caller whenever that file is set.
    pub fn resolved_system_prompt(&self, file_read: Option<Result<String, String>>) -> (r: Result<Option<String>, String>)
        requires
            self.system_prompt_file is Some ==> file_read is Some,
        ensures
            match (self.system_prompt_file, file_read) {
                (Some(path), Some(Err(e))) => r matches Err(m) && m@ == prompt_file_error(path@, e@),
                _ => r matches Ok(p) && match p {
                    Some(s) => spec_system_prompt(
                        match (self.system_prompt_file, file_read) {
                            (Some(_), Some(Ok(t))) => Some(t@),
                            _ => None,
                        },
                        self.system_prompt@, self.name@) == Some(s@),
                    None => spec_system_prompt(
                        match (self.system_prompt_file, file_read) {
                            (Some(_), Some(Ok(t))) => Some(t@),
                            _ => None,
                        },
                        self.system_prompt@, self.name@) is None,
                },
            },
    {
        if let Some(path) = &self.system_prompt_file {
            match &file_read {
                Some(Err(e)) => {
                    let mut m = String::new();
                    append_str(&mut m, "failed to read assistant.system_prompt_file '");
                    append_str(&mut m, path.as_str());
                    append_str(&mut m, "': ");
                    append_str(&mut m, e.as_str());
                    return Err(m);
                },
                Some(Ok(text)) => {
                    let trimmed = trim(text.as_str());
                    if trimmed.unicode_len() > 0 {
                        return Ok(Some(trimmed));
                    }
                },
                None => {},
            }
        }
        let inline = trim(self.system_prompt.as_str());
        if inline.unicode_len() > 0 {
            return Ok(Some(inline));
        }
        let name = trim(self.name.as_str());
        if name.unicode_len() > 0 {
            let mut p = String::new();
            append_str(&mut p, "You are ");
            append_str(&mut p, name.as_str());
            append_str(&mut p, ", a helpful and honest AI assistant. Be polite, concise, and accurate. Never assist with requests that could harm people.");
            return Ok(Some(p));
        }
        Ok(None)
    }
}

/// The whole daemon configuration.
#[derive(Debug, Clone)]
pub struct DaemonConfig {
    pub data_dir: String,
    pub models_dir: String,
    pub bind: String,
    pub unix_socket: Option<String>,
    pub log_level: String,
    /// Inference device: auto, cpu, gpu, npu or ryzenai.
    pub device: String,
    pub inference: InferenceConfig,
    pub isolation: IsolationConfig,
    pub auth: AuthConfig,
    pub rag: RagConfig,
    pub assistant: AssistantConfig,
    pub logging: LoggingConfig,
    pub integrity: IntegrityConfig,
    pub registry: RegistryConfig,
    pub change_mgmt: ChangeManagementConfig,
    pub dlp: DlpConfig,
    pub tpm: TpmConfig,
    pub smtp: Option<SmtpConfig>,
    /// Hex-encoded 32-byte key for prompt/response encryption in TEE mode.
    pub tee_encrypt_key: Option<String>,
}

impl DaemonConfig {
    /// The default configuration, given the default data and models
    /// directories and admin socket of this host.
    pub fn defaults(data_dir: String, models_dir: String, unix_socket: Option<String>) -> (r: DaemonConfig)
        ensures
            r.data_dir == data_dir,
            r.models_dir == models_dir,
            r.unix_socket == unix_socket,
            r.bind@ == "127.0.0.1:11984"@,
            r.log_level@ == "info"@,
            r.device@ == "auto"@,
            r.inference == (InferenceConfig { max_queue_depth: 32, max_parallel: 4, max_loaded_models: 2 }),
            r.isolation.mode == AirGapMode::AirGap,
            r.isolation.api_port == 11984,
            r.auth.admin_key is None,
            r.auth.session_hours == 24,
            !r.rag.enabled,
            r.logging == (LoggingConfig { log_prompts: false, content_log_retention_days: 90 }),
            r.integrity.drift_action == DriftAction::Warn,
            !r.registry.require_approval_token,
            !r.tpm.enabled,
            r.smtp is None,
            r.tee_encrypt_key is None,
    {
        DaemonConfig {
            data_dir,
            models_dir,
            bind: "127.0.0.1:11984".to_owned(),
            unix_socket,
            log_level: "info".to_owned(),
            device: "auto".to_owned(),
            inference: InferenceConfig::default(),
            isolation: IsolationConfig::default(),
            auth: AuthConfig::default(),
            rag: RagConfig::default(),
            assistant: AssistantConfig::default(),
            logging: LoggingConfig::default(),
            integrity: IntegrityConfig::default(),
            registry: RegistryConfig::default(),
            change_mgmt: ChangeManagementConfig::default(),
            dlp: DlpConfig::default(),
            tpm: TpmConfig::default(),
            smtp: None,
            tee_encrypt_key: None,
        }
    }
}

/// The environment variables that override the configuration file; `None`
/// where a variable is unset.
#[derive(Debug, Clone)]
pub struct EnvOverrides {
    pub data_dir: Option<String>,
    pub models_dir: Option<String>,
    pub bind: Option<String>,
    pub rust_log: Option<String>,
    pub device: Option<String>,
    pub unix_socket: Option<String>,
    pub admin_key: Option<String>,
    pub rag: Option<String>,
    pub log_prompts: Option<String>,
    pub embedding_model: Option<String>,
    pub rag_collection: Option<String>,
    pub tpm_passphrase: Option<String>,
    pub tpm: Option<String>,
}

/// A switch variable is on when set to `1` or `true`.
pub open spec fn switch_on(v: Option<String>) -> bool {
    match v {
        Some(s) => s@ == "1"@ || s@ == "true"@,
        None => false,
    }
}

fn is_switch_on(v: &Option<String>) -> (r: bool)
    ensures
        r == switch_on(*v),
{
    match v {
        Some(s) => str_eq(s.as_str(), "1") || str_eq(s.as_str(), "true"),
        None => false,
    }
}

/// An optional value, or the fallback when it is absent.
pub open spec fn or_keep<T>(v: Option<T>, keep: T) -> T {
    match v {
        Some(x) => x,
        None => keep,
    }
}

/// The RAG settings after the environment overrides.
pub open spec fn spec_env_rag(r: RagConfig, e: EnvOverrides) -> RagConfig {
    RagConfig {
        enabled: if switch_on(e.rag) { true } else { r.enabled },
        embedding_model: or_keep(e.embedding_model, r.embedding_model),
        default_collection: or_keep(e.rag_collection, r.default_collection),
        ..r
    }
}

/// The TPM settings after the environment overrides.
pub open spec fn spec_env_tpm(t: TpmConfig, e: EnvOverrides) -> TpmConfig {
    TpmConfig {
        software_passphrase: match e.tpm_passphrase {
            Some(p) => Some(p),
            None => t.software_passphrase,
        },
        enabled: if switch_on(e.tpm) { true } else { t.enabled },
        ..t
    }
}

/// The configuration after the environment overrides.
pub open spec fn spec_apply_env(c: DaemonConfig, e: EnvOverrides) -> DaemonConfig {
    DaemonConfig {
        data_dir: or_keep(e.data_dir, c.data_dir),
        models_dir: or_keep(e.models_dir, c.models_dir),
        bind: or_keep(e.bind, c.bind),
        log_level: or_keep(e.rust_log, c.log_level),
        device: or_keep(e.device, c.device),
        unix_socket: match e.unix_socket {
            Some(v) => if v@.len() == 0 { None } else { Some(v) },
            None => c.unix_socket,
        },
        auth: AuthConfig {
            admin_key: match e.admin_key {
                Some(k) => Some(k),
                None => c.auth.admin_key,
            },
            ..c.auth
        },
        rag: spec_env_rag(c.rag, e),
        logging: LoggingConfig {
            log_prompts: if switch_on(e.log_prompts) { true } else { c.logging.log_prompts },
            ..c.logging
        },
        tpm: spec_env_tpm(c.tpm, e),
        ..c
    }
}

fn env_rag(rag: &mut RagConfig, env: &EnvOverrides)
    ensures
        *final(rag) == spec_env_rag(*old(rag), *env),
{
    if is_switch_on(&env.rag) {
        rag.enabled = true;
    }
    if let Some(v) = &env.embedding_model {
        rag.embedding_model = v.clone();
    }
    if let Some(v) = &env.rag_collection {
        rag.default_collection = v.clone();
    }
}

fn env_tpm(tpm: &mut TpmConfig, env: &EnvOverrides)
    ensures
        *final(tpm) == spec_env_tpm(*old(tpm), *env),
{
    if let Some(v) = &env.tpm_passphrase {
        tpm.software_passphrase = Some(v.clone());
    }
    if is_switch_on(&env.tpm) {
        tpm.enabled = true;
    }
}

/// Command-line values fixed for the whole life of the process.
#[derive(Debug, Clone)]
pub struct StartupPins {
    pub data_dir: Option<String>,
    pub bind: Option<String>,
    pub log_level: Option<String>,
    pub device: Option<String>,
    pub unix_socket: Option<Option<String>>,
    pub no_isolation: bool,
    pub rag_enabled: Option<bool>,
    pub embedding_model: Option<String>,
    pub rag_collection: Option<String>,
    pub admin_key: Option<String>,
    pub models_dir: Option<String>,
}

/// The configuration with the command-line values in place. Isolation is
/// disabled when asked for, or on any system other than Linux.
pub open spec fn spec_apply_pins(c: DaemonConfig, p: StartupPins, linux: bool) -> DaemonConfig {
    DaemonConfig {
        data_dir: or_keep(p.data_dir, c.data_dir),
        bind: or_keep(p.bind, c.bind),
        log_level: or_keep(p.log_level, c.log_level),
        device: or_keep(p.device, c.device),
        unix_socket: or_keep(p.unix_socket, c.unix_socket),
        isolation: IsolationConfig {
            mode: if p.no_isolation || !linux { AirGapMode::Disabled } else { c.isolation.mode },
            ..c.isolation
        },
        rag: RagConfig {
            enabled: or_keep(p.rag_enabled, c.rag.enabled),
            embedding_model: or_keep(p.embedding_model, c.rag.embedding_model),
            default_collection: or_keep(p.rag_collection, c.rag.default_collection),
            ..c.rag
        },
        auth: AuthConfig {
            admin_key: match p.admin_key {
                Some(k) => Some(k),
                None => c.auth.admin_key,
            },
            ..c.auth
        },
        models_dir: or_keep(p.models_dir, c.models_dir),
        ..c
    }
}

impl DaemonConfig {
    /// Replaces file values by those set in the environment.
    #[verifier::rlimit(60)]
    pub fn apply_env_overrides(&mut self, env: &EnvOverrides)
        ensures
            *final(self) == spec_apply_env(*old(self), *env),
    {
        if let Some(v) = &env.data_dir {
            self.data_dir = v.clone();
        }
        if let Some(v) = &env.models_dir {
            self.models_dir = v.clone();
        }
        if let Some(v) = &env.bind {
            self.bind = v.clone();
        }
        if let Some(v) = &env.rust_log {
            self.log_level = v.clone();
        }
        if let Some(v) = &env.device {
            self.device = v.clone();
        }
        if let Some(v) = &env.unix_socket {
            self.unix_socket = if v.unicode_len() == 0 { None } else { Some(v.clone()) };
        }
        if let Some(v) = &env.admin_key {
            self.auth.admin_key = Some(v.clone());
        }
        env_rag(&mut self.rag, env);
        if is_switch_on(&env.log_prompts) {
            self.logging.log_prompts = true;
        }
        env_tpm(&mut self.tpm, env);
    }
}

impl StartupPins {
    /// Puts the command-line values in place. `linux` tells whether the
    /// daemon runs on Linux, the only system whose isolation it enforces.
    #[verifier::rlimit(60)]
    pub fn apply(&self, cfg: &mut DaemonConfig, linux: bool)
        ensures
            *final(cfg) == spec_apply_pins(*old(cfg), *self, linux),
    {
        if let Some(d) = &self.data_dir {
            cfg.data_dir = d.clone();
        }
        if let Some(b) = &self.bind {
            cfg.bind = b.clone();
        }
        if let Some(l) = &self.log_level {
            cfg.log_level = l.clone();
        }
        if let Some(d) = &self.device {
            cfg.device = d.clone();
        }
        if let Some(u) = &self.unix_socket {
            cfg.unix_socket = u.clone();
        }
        if self.no_isolation || !linux {
            cfg.isolation.mode = AirGapMode::Disabled;
        }
        if let Some(r) = self.rag_enabled {
            cfg.rag.enabled = r;
        }
        if let Some(m) = &self.embedding_model {
            cfg.rag.embedding_model = m.clone();
        }
        if let Some(c) = &self.rag_collection {
            cfg.rag.default_collection = c.clone();
        }
        if let Some(k) = &self.admin_key {
            cfg.auth.admin_key = Some(k.clone());
        }
        if let Some(m) = &self.models_dir {
            cfg.models_dir = m.clone();
        }
    }
}

/// Pinned values always win: applying the pins after any environment
/// overrides leaves every pinned value in place.
pub proof fn lemma_pins_win(c: DaemonConfig, e: EnvOverrides, p: StartupPins, linux: bool)
    ensures
        p.bind matches Some(b) ==> spec_apply_pins(spec_apply_env(c, e), p, linux).bind == b,
        p.data_dir matches Some(d) ==> spec_apply_pins(spec_apply_env(c, e), p, linux).data_dir == d,
        p.device matches Some(d) ==> spec_apply_pins(spec_apply_env(c, e), p, linux).device == d,
        p.admin_key matches Some(k) ==> spec_apply_pins(spec_apply_env(c, e), p, linux).auth.admin_key == Some(k),
        p.no_isolation ==> spec_apply_pins(spec_apply_env(c, e), p, linux).isolation.mode == AirGapMode::Disabled,
{
}

/// Where the configuration file is looked for, in order: under
/// `XDG_CONFIG_HOME` when set, else under `HOME` when set, then `/etc`.
pub fn config_search_paths(xdg_config_home: Option<&str>, home: Option<&str>) -> (r: Vec<String>)
    ensures
        r@.len() == if xdg_config_home is Some || home is Some { 2int } else { 1int },
        xdg_config_home matches Some(x) ==> r@[0]@ == spec_join_path(x@, "maranode/config.toml"@),
        xdg_config_home is None && home is Some ==> r@[0]@ == spec_join_path(home->0@, ".config/maranode/config.toml"@),
        r@.last()@ == "/etc/maranode/config.toml"@,
{
    let mut paths: Vec<String> = Vec::new();
    if let Some(x) = xdg_config_home {
        paths.push(join_path(x, "maranode/config.toml"));
    } else if let Some(h) = home {
        paths.push(join_path(h, ".config/maranode/config.toml"));
    }
    paths.push("/etc/maranode/config.toml".to_owned());
    paths
}

/// The isolator's settings taken from the configuration.
pub fn isolation_from_config(cfg: &DaemonConfig) -> (r: IsolatorConfig)
    ensures
        r.mode == cfg.isolation.mode,
        r.api_port == cfg.isolation.api_port,
        r.api_allowed_sources@ == cfg.isolation.allowed_sources@,
        r.whitelist@.len() == cfg.isolation.whitelist@.len(),
        forall|i: int| 0 <= i < r.whitelist@.len() ==> (#[trigger] r.whitelist@[i]).host == cfg.isolation.whitelist@[i].host
            && r.whitelist@[i].port == cfg.isolation.whitelist@[i].port
            && r.whitelist@[i].comment == cfg.isolation.whitelist@[i].comment,
{
    let mut whitelist: Vec<WhitelistEntry> = Vec::new();
    let mut i: usize = 0;
    while i < cfg.isolation.whitelist.len()
        invariant
            0 <= i <= cfg.isolation.whitelist@.len(),
            whitelist@.len() == i,
            forall|j: int| 0 <= j < i ==> (#[trigger] whitelist@[j]).host == cfg.isolation.whitelist@[j].host
                && whitelist@[j].port == cfg.isolation.whitelist@[j].port
                && whitelist@[j].comment == cfg.isolation.whitelist@[j].comment,
        decreases cfg.isolation.whitelist@.len() - i,
    {
        let e = &cfg.isolation.whitelist[i];
        whitelist.push(WhitelistEntry { host: e.host.clone(), port: e.port, comment: e.comment.clone() });
        i = i + 1;
    }
    let mut sources: Vec<String> = Vec::new();
    let mut k: usize = 0;
    while k < cfg.isolation.allowed_sources.len()
        invariant
            0 <= k <= cfg.isolation.allowed_sources@.len(),
            sources@ == cfg.isolation.allowed_sources@.take(k as int),
        decreases cfg.isolation.allowed_sources@.len() - k,
    {
        sources.push(cfg.isolation.allowed_sources[k].clone());
        assert(sources@ =~= cfg.isolation.allowed_sources@.take(k + 1));
        k = k + 1;
    }
    assert(sources@ =~= cfg.isolation.allowed_sources@);
    IsolatorConfig {
        mode: cfg.isolation.mode,
        api_port: cfg.isolation.api_port,
        api_allowed_sources: sources,
        whitelist,
    }
}


/// The sign-in settings a running daemon uses.
#[derive(Debug, Clone)]
pub struct IdentityConfig {
    pub session_hours: i64,
    pub oidc: Option<OidcConfig>,
    pub ldap: Option<LdapConfig>,
    pub saml: Option<SamlConfig>,
}

/// The settings a running daemon reads on each request; a reload replaces them whole.
#[derive(Debug, Clone)]
pub struct RuntimeSettings {
    pub admin_key: Option<String>,
    pub rag_ingest_policy: RagIngestPolicy,
    pub rag_ingest_allowlist: Vec<String>,
    pub system_prompt: Option<String>,
    pub identity: IdentityConfig,
    pub air_gap: bool,
    pub log_prompts: bool,
    pub content_log_retention_days: u32,
}

fn copy_string_opt(o: &Option<String>) -> (r: Option<String>)
    ensures
        r == *o,
{
    match o {
        Some(s) => Some(s.clone()),
        None => None,
    }
}

fn copy_strings(v: &Vec<String>) -> (r: Vec<String>)
    ensures
        r@ == v@,
{
    let mut out: Vec<String> = Vec::new();
    let mut i: usize = 0;
    while i < v.len()
        invariant
            0 <= i <= v@.len(),
            out@ == v@.take(i as int),
        decreases v@.len() - i,
    {
        out.push(v[i].clone());
        assert(out@ =~= v@.take(i + 1));
        i = i + 1;
    }
    assert(out@ =~= v@);
    out
}

fn copy_oidc(o: &OidcConfig) -> (r: OidcConfig)
    ensures
        r == *o,
{
    OidcConfig {
        issuer_url: o.issuer_url.clone(),
        client_id: o.client_id.clone(),
        client_secret: o.client_secret.clone(),
        redirect_uri: o.redirect_uri.clone(),
        default_role: o.default_role.clone(),
    }
}

fn copy_ldap(l: &LdapConfig) -> (r: LdapConfig)
    ensures
        r.url == l.url,
        r.bind_dn == l.bind_dn,
        r.bind_pw == l.bind_pw,
        r.base_dn == l.base_dn,
        r.uid_attr == l.uid_attr,
        r.group_role_map@ == l.group_role_map@,
        r.default_role == l.default_role,
{
    let mut groups: Vec<LdapGroupRole> = Vec::new();
    let mut i: usize = 0;
    while i < l.group_role_map.len()
        invariant
            0 <= i <= l.group_role_map@.len(),
            groups@ == l.group_role_map@.take(i as int),
        decreases l.group_role_map@.len() - i,
    {
        let g = &l.group_role_map[i];
        groups.push(LdapGroupRole { group_dn: g.group_dn.clone(), role: g.role.clone() });
        assert(groups@ =~= l.group_role_map@.take(i + 1));
        i = i + 1;
    }
    assert(groups@ =~= l.group_role_map@);
    LdapConfig {
        url: l.url.clone(),
        bind_dn: l.bind_dn.clone(),
        bind_pw: l.bind_pw.clone(),
        base_dn: l.base_dn.clone(),
        uid_attr: l.uid_attr.clone(),
        group_role_map: groups,
        default_role: l.default_role.clone(),
    }
}

fn copy_saml(s: &SamlConfig) -> (r: SamlConfig)
    ensures
        r == *s,
{
    SamlConfig {
        idp_metadata_url: s.idp_metadata_url.clone(),
        sp_entity_id: s.sp_entity_id.clone(),
        sp_cert: copy_string_opt(&s.sp_cert),
        sp_key: copy_string_opt(&s.sp_key),
        idp_cert: copy_string_opt(&s.idp_cert),
        default_role: s.default_role.clone(),
    }
}

/// The sign-in settings taken from the configuration's `auth` section.
pub fn identity_from_config(cfg: &DaemonConfig) -> (r: IdentityConfig)
    ensures
        r.session_hours == cfg.auth.session_hours,
        r.oidc == cfg.auth.oidc,
        r.saml == cfg.auth.saml,
        r.ldap is Some <==> cfg.auth.ldap is Some,
        r.ldap matches Some(l) ==> {
            let c = cfg.auth.ldap->0;
            &&& l.url == c.url
            &&& l.bind_dn == c.bind_dn
            &&& l.bind_pw == c.bind_pw
            &&& l.base_dn == c.base_dn
            &&& l.uid_attr == c.uid_attr
            &&& l.group_role_map@ == c.group_role_map@
            &&& l.default_role == c.default_role
        },
{
    IdentityConfig {
        session_hours: cfg.auth.session_hours,
        oidc: match &cfg.auth.oidc {
            Some(o) => Some(copy_oidc(o)),
            None => None,
        },
        ldap: match &cfg.auth.ldap {
            Some(l) => Some(copy_ldap(l)),
            None => None,
        },
        saml: match &cfg.auth.saml {
            Some(s) => Some(copy_saml(s)),
            None => None,
        },
    }
}

/// The runtime settings for a configuration: its admin key, RAG ingest
/// policy and allowlist, sign-in settings and logging switches, with the
/// air-gap state and the resolved system prompt given.
pub fn runtime_from_config(cfg: &DaemonConfig, air_gap: bool, system_prompt: Option<String>) -> (r: RuntimeSettings)
    ensures
        r.admin_key == cfg.auth.admin_key,
        r.rag_ingest_policy == cfg.rag.ingest_policy,
        r.rag_ingest_allowlist@ == cfg.rag.ingest_allowlist@,
        r.system_prompt == system_prompt,
        r.identity.session_hours == cfg.auth.session_hours,
        r.identity.oidc == cfg.auth.oidc,
        r.identity.saml == cfg.auth.saml,
        r.identity.ldap is Some <==> cfg.auth.ldap is Some,
        r.identity.ldap matches Some(l) ==> l.group_role_map@ == cfg.auth.ldap->0.group_role_map@
            && l.url == cfg.auth.ldap->0.url && l.bind_dn == cfg.auth.ldap->0.bind_dn
            && l.bind_pw == cfg.auth.ldap->0.bind_pw && l.base_dn == cfg.auth.ldap->0.base_dn
            && l.uid_attr == cfg.auth.ldap->0.uid_attr && l.default_role == cfg.auth.ldap->0.default_role,
        r.air_gap == air_gap,
        r.log_prompts == cfg.logging.log_prompts,
        r.content_log_retention_days == cfg.logging.content_log_retention_days,
{
    RuntimeSettings {
        admin_key: copy_string_opt(&cfg.auth.admin_key),
        rag_ingest_policy: cfg.rag.ingest_policy,
        rag_ingest_allowlist: copy_strings(&cfg.rag.ingest_allowlist),
        system_prompt,
        identity: identity_from_config(cfg),
        air_gap,
        log_prompts: cfg.logging.log_prompts,
        content_log_retention_days: cfg.logging.content_log_retention_days,
    }
}

} // verus!
