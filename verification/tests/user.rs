use maranode::user::{AuthProvider, Permission, Role};
use std::str::FromStr;
use maranode::user::validate_password;

#[test]
fn admin_has_everything() {
    let r = Role::Admin;
    for p in [
        Permission::Chat,
        Permission::RagIngest,
        Permission::ModelManage,
        Permission::AuditExport,
        Permission::AuditPrune,
        Permission::UserManage,
        Permission::WorkspaceManage,
        Permission::ConfigManage,
    ] {
        assert!(r.has(p), "admin should have {:?}", p);
    }
}

#[test]
fn operator_runs_but_does_not_export_or_prune() {
    let r = Role::Operator;
    assert!(r.has(Permission::ModelManage));
    assert!(r.has(Permission::RagIngest));
    assert!(r.has(Permission::AuditView));
    assert!(!r.has(Permission::AuditExport));
    assert!(!r.has(Permission::AuditPrune));
    assert!(!r.has(Permission::UserManage));
}

#[test]
fn auditor_reviews_and_exports_only() {
    let r = Role::Auditor;
    assert!(r.has(Permission::AuditView));
    assert!(r.has(Permission::AuditExport));
    assert!(r.has(Permission::Chat));
    assert!(!r.has(Permission::AuditPrune));
    assert!(!r.has(Permission::RagIngest));
    assert!(!r.has(Permission::ModelManage));
    // the can_* wrappers must agree with has()
    assert!(r.can_export_compliance());
    assert!(!r.can_ingest_rag());
}

#[test]
fn viewer_can_only_chat() {
    let r = Role::Viewer;
    assert_eq!(r.permissions(), &[Permission::Chat]);
}

#[test]
fn role_string_roundtrip() {
    for r in [Role::Admin, Role::Operator, Role::Auditor, Role::Viewer] {
        assert_eq!(Role::from_str(r.as_str()), Ok(r.clone()));
    }
    assert!(Role::from_str("root").is_err());
}

#[test]
fn unknown_role_message_names_it() {
    assert_eq!(
        Role::parse("root"),
        Err("unknown role 'root': expected admin, operator, auditor, viewer".to_string())
    );
    assert!(Role::parse("Admin").is_err());
}

#[test]
fn every_role_chats_and_wrappers_agree() {
    for r in [Role::Admin, Role::Operator, Role::Auditor, Role::Viewer] {
        assert!(r.can_chat());
        assert_eq!(r.can_manage_users(), r.has(Permission::UserManage));
        assert_eq!(r.can_manage_workspaces(), r.has(Permission::WorkspaceManage));
        assert_eq!(r.can_manage_models(), r.has(Permission::ModelManage));
        assert_eq!(r.can_view_audit(), r.has(Permission::AuditView));
        for p in r.permissions() {
            assert!(Role::Admin.has(p));
        }
    }
    assert_eq!(Role::Admin.permissions().len(), 12);
    assert_eq!(Permission::RagIngest.as_str(), "rag_ingest");
    assert_eq!(Permission::ConfigManage.as_str(), "config_manage");
}

#[test]
fn provider_names_round_trip() {
    for p in [AuthProvider::Local, AuthProvider::Oidc, AuthProvider::Ldap, AuthProvider::Saml] {
        assert_eq!(AuthProvider::from_str(p.as_str()), Ok(p));
    }
    assert_eq!(AuthProvider::parse("kerberos"), Err("unknown provider 'kerberos'".to_string()));
}

#[test]
fn passwords_need_eight_bytes() {
    assert_eq!(validate_password("1234567").err().unwrap(), "password must be at least 8 characters");
    assert_eq!(validate_password("12345678"), Ok(()));
    assert_eq!(validate_password("ééééééé").is_ok(), true);
    assert!(validate_password("").is_err());
}
