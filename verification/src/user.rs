//! Roles, their permissions, and sign-in providers.

use vstd::prelude::*;
use crate::text::{append_str, str_eq};

verus! {

/// A single capability that a role may hold.
#[derive(Debug, Clone, Copy, PartialEq, Eq, Structural)]
pub enum Permission {
    Chat,
    RagIngest,
    RagManage,
    ModelManage,
    AuditView,
    AuditExport,
    AuditPrune,
    UserManage,
    WorkspaceManage,
    IncidentManage,
    DlpManage,
    ConfigManage,
}

/// The wire name of a permission.
pub open spec fn spec_permission_name(p: Permission) -> Seq<char> {
    match p {
        Permission::Chat => "chat"@,
        Permission::RagIngest => "rag_ingest"@,
        Permission::RagManage => "rag_manage"@,
        Permission::ModelManage => "model_manage"@,
        Permission::AuditView => "audit_view"@,
        Permission::AuditExport => "audit_export"@,
        Permission::AuditPrune => "audit_prune"@,
        Permission::UserManage => "user_manage"@,
        Permission::WorkspaceManage => "workspace_manage"@,
        Permission::IncidentManage => "incident_manage"@,
        Permission::DlpManage => "dlp_manage"@,
        Permission::ConfigManage => "config_manage"@,
    }
}

impl Permission {
    /// The permission's wire name.
    pub fn as_str(&self) -> (r: &'static str)
        ensures
            r@ == spec_permission_name(*self),
    {
        match self {
            Permission::Chat => "chat",
            Permission::RagIngest => "rag_ingest",
            Permission::RagManage => "rag_manage",
            Permission::ModelManage => "model_manage",
            Permission::AuditView => "audit_view",
            Permission::AuditExport => "audit_export",
            Permission::AuditPrune => "audit_prune",
            Permission::UserManage => "user_manage",
            Permission::WorkspaceManage => "workspace_manage",
            Permission::IncidentManage => "incident_manage",
            Permission::DlpManage => "dlp_manage",
            Permission::ConfigManage => "config_manage",
        }
    }
}

/// A user's role.
#[derive(Debug, Clone, Copy, PartialEq, Eq, Structural)]
pub enum Role {
    Admin,
    Operator,
    Auditor,
    Viewer,
}

/// The capabilities granted to each role, in the order they are listed.
pub open spec fn spec_role_permissions(r: Role) -> Seq<Permission> {
    match r {
        Role::Admin => seq![
            Permission::Chat,
            Permission::RagIngest,
            Permission::RagManage,
            Permission::ModelManage,
            Permission::AuditView,
            Permission::AuditExport,
            Permission::AuditPrune,
            Permission::UserManage,
            Permission::WorkspaceManage,
            Permission::IncidentManage,
            Permission::DlpManage,
            Permission::ConfigManage,
        ],
        Role::Operator => seq![
            Permission::Chat,
            Permission::RagIngest,
            Permission::RagManage,
            Permission::ModelManage,
            Permission::AuditView,
        ],
        Role::Auditor => seq![Permission::Chat, Permission::AuditView, Permission::AuditExport],
        Role::Viewer => seq![Permission::Chat],
    }
}

/// Whether a role holds a permission.
pub open spec fn spec_role_has(r: Role, p: Permission) -> bool {
    spec_role_permissions(r).contains(p)
}

/// The wire name of a role.
pub open spec fn spec_role_name(r: Role) -> Seq<char> {
    match r {
        Role::Admin => "admin"@,
        Role::Operator => "operator"@,
        Role::Auditor => "auditor"@,
        Role::Viewer => "viewer"@,
    }
}

/// The message of a refused role name.
pub open spec fn unknown_role_message(s: Seq<char>) -> Seq<char> {
    "unknown role '"@ + s + "': expected admin, operator, auditor, viewer"@
}

/// The result of reading a role name.
pub open spec fn spec_parse_role(s: Seq<char>) -> Result<Role, Seq<char>> {
    if s == "admin"@ {
        Ok(Role::Admin)
    } else if s == "operator"@ {
        Ok(Role::Operator)
    } else if s == "auditor"@ {
        Ok(Role::Auditor)
    } else if s == "viewer"@ {
        Ok(Role::Viewer)
    } else {
        Err(unknown_role_message(s))
    }
}

impl Role {
    /// The capabilities granted to this role; the single source of truth for access checks.
    pub fn permissions(&self) -> (v: Vec<Permission>)
        ensures
            v@ == spec_role_permissions(*self),
    {
        let v = match self {
            Role::Admin => vec![
                Permission::Chat,
                Permission::RagIngest,
                Permission::RagManage,
                Permission::ModelManage,
                Permission::AuditView,
                Permission::AuditExport,
                Permission::AuditPrune,
                Permission::UserManage,
                Permission::WorkspaceManage,
                Permission::IncidentManage,
                Permission::DlpManage,
                Permission::ConfigManage,
            ],
            Role::Operator => vec![
                Permission::Chat,
                Permission::RagIngest,
                Permission::RagManage,
                Permission::ModelManage,
                Permission::AuditView,
            ],
            Role::Auditor => vec![Permission::Chat, Permission::AuditView, Permission::AuditExport],
            Role::Viewer => vec![Permission::Chat],
        };
        assert(v@ =~= spec_role_permissions(*self));
        v
    }

    /// Whether this role holds `perm`.
    pub fn has(&self, perm: Permission) -> (r: bool)
        ensures
            r == spec_role_has(*self, perm),
    {
        let perms = self.permissions();
        let mut i: usize = 0;
        while i < perms.len()
            invariant
                perms@ == spec_role_permissions(*self),
                0 <= i <= perms@.len(),
                forall|j: int| 0 <= j < i ==> perms@[j] != perm,
            decreases perms@.len() - i,
        {
            if perms[i] == perm {
                assert(perms@[i as int] == perm);
                return true;
            }
            i = i + 1;
        }
        false
    }

    pub fn can_manage_users(&self) -> (r: bool)
        ensures
            r == spec_role_has(*self, Permission::UserManage),
    {
        self.has(Permission::UserManage)
    }

    pub fn can_manage_workspaces(&self) -> (r: bool)
        ensures
            r == spec_role_has(*self, Permission::WorkspaceManage),
    {
        self.has(Permission::WorkspaceManage)
    }

    pub fn can_manage_models(&self) -> (r: bool)
        ensures
            r == spec_role_has(*self, Permission::ModelManage),
    {
        self.has(Permission::ModelManage)
    }

    pub fn can_ingest_rag(&self) -> (r: bool)
        ensures
            r == spec_role_has(*self, Permission::RagIngest),
    {
        self.has(Permission::RagIngest)
    }

    pub fn can_view_audit(&self) -> (r: bool)
        ensures
            r == spec_role_has(*self, Permission::AuditView),
    {
        self.has(Permission::AuditView)
    }

    pub fn can_export_compliance(&self) -> (r: bool)
        ensures
            r == spec_role_has(*self, Permission::AuditExport),
    {
        self.has(Permission::AuditExport)
    }

    pub fn can_chat(&self) -> (r: bool)
        ensures
            r == spec_role_has(*self, Permission::Chat),
    {
        self.has(Permission::Chat)
    }

    /// The role's wire name.
    pub fn as_str(&self) -> (r: &'static str)
        ensures
            r@ == spec_role_name(*self),
    {
        match self {
            Role::Admin => "admin",
            Role::Operator => "operator",
            Role::Auditor => "auditor",
            Role::Viewer => "viewer",
        }
    }

    /// Reads a role from its wire name; any other text is refused with a message naming it.
    pub fn parse(s: &str) -> (r: Result<Role, String>)
        ensures
            match r {
                Ok(role) => spec_parse_role(s@) == Ok::<Role, Seq<char>>(role),
                Err(e) => spec_parse_role(s@) == Err::<Role, Seq<char>>(e@),
            },
    {
        if str_eq(s, "admin") {
            Ok(Role::Admin)
        } else if str_eq(s, "operator") {
            Ok(Role::Operator)
        } else if str_eq(s, "auditor") {
            Ok(Role::Auditor)
        } else if str_eq(s, "viewer") {
            Ok(Role::Viewer)
        } else {
            let mut e = String::new();
            append_str(&mut e, "unknown role '");
            append_str(&mut e, s);
            append_str(&mut e, "': expected admin, operator, auditor, viewer");
            Err(e)
        }
    }
}

impl core::str::FromStr for Role {
    type Err = String;

    fn from_str(s: &str) -> (r: Result<Role, String>)
        ensures
            match r {
                Ok(v) => spec_parse_role(s@) == Ok::<Role, Seq<char>>(v),
                Err(e) => spec_parse_role(s@) == Err::<Role, Seq<char>>(e@),
            },
    {
        Role::parse(s)
    }
}

/// Every permission a role holds, the administrator holds too.
pub proof fn lemma_admin_holds_every_permission(r: Role, p: Permission)
    ensures
        spec_role_has(r, p) ==> spec_role_has(Role::Admin, p),
        spec_role_has(Role::Admin, p),
{
    let s = spec_role_permissions(Role::Admin);
    let i: int = match p {
        Permission::Chat => 0,
        Permission::RagIngest => 1,
        Permission::RagManage => 2,
        Permission::ModelManage => 3,
        Permission::AuditView => 4,
        Permission::AuditExport => 5,
        Permission::AuditPrune => 6,
        Permission::UserManage => 7,
        Permission::WorkspaceManage => 8,
        Permission::IncidentManage => 9,
        Permission::DlpManage => 10,
        Permission::ConfigManage => 11,
    };
    assert(s[i] == p);
}

/// Reading a role's wire name gives the role back.
pub proof fn lemma_role_name_roundtrip(r: Role)
    ensures
        spec_parse_role(spec_role_name(r)) == Ok::<Role, Seq<char>>(r),
{
    reveal_strlit("admin");
    reveal_strlit("operator");
    reveal_strlit("auditor");
    reveal_strlit("viewer");
    assert("operator"@.len() != "admin"@.len());
    assert("auditor"@.len() != "admin"@.len());
    assert("auditor"@.len() != "operator"@.len());
    assert("viewer"@.len() != "admin"@.len());
    assert("viewer"@.len() != "operator"@.len());
    assert("viewer"@.len() != "auditor"@.len());
}

/// Every role may chat.
pub proof fn lemma_every_role_chats(r: Role)
    ensures
        spec_role_has(r, Permission::Chat),
{
    assert(spec_role_permissions(r)[0] == Permission::Chat);
}

/// How a user signs in.
#[derive(Debug, Clone, Copy, PartialEq, Eq, Structural)]
pub enum AuthProvider {
    Local,
    Oidc,
    Ldap,
    Saml,
}

/// The wire name of a sign-in provider.
pub open spec fn spec_provider_name(p: AuthProvider) -> Seq<char> {
    match p {
        AuthProvider::Local => "local"@,
        AuthProvider::Oidc => "oidc"@,
        AuthProvider::Ldap => "ldap"@,
        AuthProvider::Saml => "saml"@,
    }
}

/// The result of reading a provider name.
pub open spec fn spec_parse_provider(s: Seq<char>) -> Result<AuthProvider, Seq<char>> {
    if s == "local"@ {
        Ok(AuthProvider::Local)
    } else if s == "oidc"@ {
        Ok(AuthProvider::Oidc)
    } else if s == "ldap"@ {
        Ok(AuthProvider::Ldap)
    } else if s == "saml"@ {
        Ok(AuthProvider::Saml)
    } else {
        Err("unknown provider '"@ + s + "'"@)
    }
}

impl AuthProvider {
    /// The provider's wire name.
    pub fn as_str(&self) -> (r: &'static str)
        ensures
            r@ == spec_provider_name(*self),
    {
        match self {
            AuthProvider::Local => "local",
            AuthProvider::Oidc => "oidc",
            AuthProvider::Ldap => "ldap",
            AuthProvider::Saml => "saml",
        }
    }

    /// Reads a provider from its wire name.
    pub fn parse(s: &str) -> (r: Result<AuthProvider, String>)
        ensures
            match r {
                Ok(p) => spec_parse_provider(s@) == Ok::<AuthProvider, Seq<char>>(p),
                Err(e) => spec_parse_provider(s@) == Err::<AuthProvider, Seq<char>>(e@),
            },
    {
        if str_eq(s, "local") {
            Ok(AuthProvider::Local)
        } else if str_eq(s, "oidc") {
            Ok(AuthProvider::Oidc)
        } else if str_eq(s, "ldap") {
            Ok(AuthProvider::Ldap)
        } else if str_eq(s, "saml") {
            Ok(AuthProvider::Saml)
        } else {
            let mut e = String::new();
            append_str(&mut e, "unknown provider '");
            append_str(&mut e, s);
            append_str(&mut e, "'");
            Err(e)
        }
    }
}

impl core::str::FromStr for AuthProvider {
    type Err = String;

    fn from_str(s: &str) -> (r: Result<AuthProvider, String>)
        ensures
            match r {
                Ok(v) => spec_parse_provider(s@) == Ok::<AuthProvider, Seq<char>>(v),
                Err(e) => spec_parse_provider(s@) == Err::<AuthProvider, Seq<char>>(e@),
            },
    {
        AuthProvider::parse(s)
    }
}

/// Reading a provider's wire name gives the provider back.
pub proof fn lemma_provider_name_roundtrip(p: AuthProvider)
    ensures
        spec_parse_provider(spec_provider_name(p)) == Ok::<AuthProvider, Seq<char>>(p),
{
    reveal_strlit("local");
    reveal_strlit("oidc");
    reveal_strlit("ldap");
    reveal_strlit("saml");
    assert("oidc"@.len() != "local"@.len());
    assert("ldap"@.len() != "local"@.len());
    assert("saml"@.len() != "local"@.len());
    assert("ldap"@[0] != "oidc"@[0]);
    assert("saml"@[0] != "oidc"@[0]);
    assert("saml"@[0] != "ldap"@[0]);
}

/// The fewest bytes a local password may have.
pub const MIN_PASSWORD_BYTES: usize = 8;

/// The message for a password that is too short.
pub open spec fn short_password_message() -> Seq<char> {
    "password must be at least 8 characters"@
}

/// Checks a new local password: it must be at least eight bytes of UTF-8.
pub fn validate_password(password: &str) -> (r: Result<(), String>)
    ensures
        r is Ok <==> password.len() >= MIN_PASSWORD_BYTES,
        r matches Err(m) ==> m@ == short_password_message(),
{
    if password.len() < MIN_PASSWORD_BYTES {
        let mut m = String::new();
        append_str(&mut m, "password must be at least 8 characters");
        Err(m)
    } else {
        Ok(())
    }
}

/// The permission table: an admin holds every permission; an operator
/// holds chat, RAG ingest, RAG management, model management and audit
/// viewing; an auditor holds chat, audit viewing and audit export; a viewer
/// holds chat alone.
pub proof fn lemma_role_permission_table(p: Permission)
    ensures
        spec_role_has(Role::Admin, p),
        spec_role_has(Role::Operator, p) <==> (p == Permission::Chat || p == Permission::RagIngest
            || p == Permission::RagManage || p == Permission::ModelManage || p == Permission::AuditView),
        spec_role_has(Role::Auditor, p) <==> (p == Permission::Chat || p == Permission::AuditView
            || p == Permission::AuditExport),
        spec_role_has(Role::Viewer, p) <==> p == Permission::Chat,
{
    let a = spec_role_permissions(Role::Admin);
    let o = spec_role_permissions(Role::Operator);
    let u = spec_role_permissions(Role::Auditor);
    let v = spec_role_permissions(Role::Viewer);
    match p {
        Permission::Chat => { assert(a[0] == p); assert(o[0] == p); assert(u[0] == p); assert(v[0] == p); }
        Permission::RagIngest => { assert(a[1] == p); assert(o[1] == p); }
        Permission::RagManage => { assert(a[2] == p); assert(o[2] == p); }
        Permission::ModelManage => { assert(a[3] == p); assert(o[3] == p); }
        Permission::AuditView => { assert(a[4] == p); assert(o[4] == p); assert(u[1] == p); }
        Permission::AuditExport => { assert(a[5] == p); assert(u[2] == p); }
        Permission::AuditPrune => { assert(a[6] == p); }
        Permission::UserManage => { assert(a[7] == p); }
        Permission::WorkspaceManage => { assert(a[8] == p); }
        Permission::IncidentManage => { assert(a[9] == p); }
        Permission::DlpManage => { assert(a[10] == p); }
        Permission::ConfigManage => { assert(a[11] == p); }
    }
}

} // verus!
