use uuid::Uuid;

use synapse_core::error::AppError;
use synapse_core::tenant::{admit_tenant, extract_api_key, tenant_lookup, HeaderText, TenantConfig, TenantLookup};

fn config(active: bool) -> TenantConfig {
    TenantConfig {
        tenant_id: Uuid::from_u128(7),
        name: "Acme".to_string(),
        webhook_secret: "whsec".to_string(),
        stellar_account: "GACME".to_string(),
        rate_limit_per_minute: 60,
        is_active: active,
    }
}

#[test]
fn api_key_header_wins_over_authorization() {
    let k = extract_api_key(HeaderText::Visible("key-1"), HeaderText::Visible("Bearer key-2"));
    assert_eq!(k, Some("key-1".to_string()));
}

#[test]
fn bearer_prefixes_are_removed() {
    assert_eq!(extract_api_key(HeaderText::Absent, HeaderText::Visible("Bearer abc")), Some("abc".to_string()));
    assert_eq!(
        extract_api_key(HeaderText::Absent, HeaderText::Visible("Bearer Bearer abc")),
        Some("abc".to_string())
    );
    assert_eq!(extract_api_key(HeaderText::Absent, HeaderText::Visible("Bearer")), Some("Bearer".to_string()));
    assert_eq!(extract_api_key(HeaderText::Visible("Bearer "), HeaderText::Absent), Some(String::new()));
}

#[test]
fn opaque_api_key_header_does_not_fall_back() {
    assert_eq!(extract_api_key(HeaderText::Opaque, HeaderText::Visible("abc")), None);
    assert_eq!(extract_api_key(HeaderText::Absent, HeaderText::Absent), None);
}

#[test]
fn tenant_lookup_order() {
    let id = Uuid::from_u128(1);
    assert_eq!(
        tenant_lookup(Some(id), HeaderText::Visible("k"), HeaderText::Absent, HeaderText::Absent),
        Ok(TenantLookup::ById(id))
    );
    assert_eq!(
        tenant_lookup(None, HeaderText::Absent, HeaderText::Visible("Bearer k"), HeaderText::Absent),
        Ok(TenantLookup::ByApiKey("k".to_string()))
    );
    assert_eq!(
        tenant_lookup(
            None,
            HeaderText::Absent,
            HeaderText::Absent,
            HeaderText::Visible("00000000-0000-0000-0000-000000000001")
        ),
        Ok(TenantLookup::ById(id))
    );
    assert_eq!(
        tenant_lookup(None, HeaderText::Absent, HeaderText::Absent, HeaderText::Visible("not-a-uuid")),
        Err(AppError::InvalidApiKey)
    );
    assert_eq!(tenant_lookup(None, HeaderText::Absent, HeaderText::Absent, HeaderText::Absent), Err(AppError::InvalidApiKey));
}

#[test]
fn tenant_admission() {
    let id = Uuid::from_u128(7);
    assert!(matches!(admit_tenant(id, None), Err(AppError::TenantNotFound)));
    assert_eq!(
        admit_tenant(id, Some(config(false))).err(),
        Some(AppError::Unauthorized("tenant inactive".to_string()))
    );
    let ctx = admit_tenant(id, Some(config(true))).unwrap();
    assert_eq!(ctx.tenant_id, id);
    assert_eq!(ctx.config.name, "Acme");
}

#[test]
fn app_error_messages_for_tenants() {
    assert_eq!(AppError::TenantNotFound.to_string(), "Tenant not found");
    assert_eq!(AppError::InvalidApiKey.to_string(), "Invalid API key");
    assert_eq!(AppError::Unauthorized("x".to_string()).to_string(), "Unauthorized: x");
}
