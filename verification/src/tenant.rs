//! Tenants: which tenant a request acts for, and whether it may.
//!
//! A request names its tenant by a path segment, else by an API key (the
//! `X-API-Key` header, else `Authorization`, with any `Bearer ` prefixes
//! removed), else by an `X-Tenant-ID` header holding an identifier. The
//! tenant must then be known and active.

use uuid::Uuid;
use vstd::prelude::*;

use crate::error::AppError;
use crate::ids::{parse_uuid, uuid_reading};
use crate::text::{chars_of, has_prefix, matches_at, owned};

verus! {

/// The stored configuration of a tenant.
#[derive(Debug, Clone)]
pub struct TenantConfig {
    pub tenant_id: Uuid,
    pub name: String,
    pub webhook_secret: String,
    pub stellar_account: String,
    pub rate_limit_per_minute: i32,
    pub is_active: bool,
}

/// The tenant a request acts for, with its configuration.
#[derive(Debug, Clone)]
pub struct TenantContext {
    pub tenant_id: Uuid,
    pub config: TenantConfig,
}

impl TenantContext {
    /// The context of tenant `tenant_id` configured by `config`.
    pub fn new(tenant_id: Uuid, config: TenantConfig) -> (c: Self)
        ensures
            c.tenant_id == tenant_id,
            c.config == config,
    {
        TenantContext { tenant_id, config }
    }
}

/// A request header as the tenant rules see it.
#[derive(Debug, Clone, Copy, PartialEq, Eq)]
pub enum HeaderText<'a> {
    /// The request has no such header.
    Absent,
    /// The header's value, made of visible ASCII characters.
    Visible(&'a str),
    /// The header is present but its value is not visible ASCII text.
    Opaque,
}

/// The text of a header, when it has one.
pub open spec fn header_text(h: HeaderText) -> Option<Seq<char>> {
    match h {
        HeaderText::Visible(s) => Some(s@),
        _ => None,
    }
}

/// The text with every leading `Bearer ` removed.
pub open spec fn strip_bearer(s: Seq<char>) -> Seq<char>
    decreases s.len(),
{
    if has_prefix(s, "Bearer "@) && "Bearer "@.len() > 0 {
        strip_bearer(s.subrange("Bearer "@.len() as int, s.len() as int))
    } else {
        s
    }
}

/// The API key a request carries: the `X-API-Key` header when present,
/// else `Authorization`; its text, with leading `Bearer ` prefixes removed.
pub open spec fn api_key_of(x_api_key: HeaderText, authorization: HeaderText) -> Option<Seq<char>> {
    let chosen = if x_api_key is Absent {
        authorization
    } else {
        x_api_key
    };
    match header_text(chosen) {
        Some(s) => Some(strip_bearer(s)),
        None => None,
    }
}

/// The API key a request carries, if any (see [`api_key_of`]).
pub fn extract_api_key(x_api_key: HeaderText, authorization: HeaderText) -> (k: Option<String>)
    ensures
        match api_key_of(x_api_key, authorization) {
            Some(s) => k matches Some(t) && t@ == s,
            None => k is None,
        },
{
    let chosen = match x_api_key {
        HeaderText::Absent => authorization,
        _ => x_api_key,
    };
    match chosen {
        HeaderText::Visible(s) => {
            proof {
                reveal_strlit("Bearer ");
            }
            let cs = chars_of(s);
            let prefix = chars_of("Bearer ");
            let mut start: usize = 0;
            assert(cs@.subrange(0, cs@.len() as int) =~= s@);
            while cs.len() - start >= 7 && matches_at(&cs, &prefix, start)
                invariant
                    cs@ == s@,
                    prefix@ == "Bearer "@,
                    prefix@.len() == 7,
                    start <= cs@.len(),
                    strip_bearer(cs@.subrange(start as int, cs@.len() as int)) == strip_bearer(s@),
                decreases cs@.len() - start,
            {
                let ghost rest = cs@.subrange(start as int, cs@.len() as int);
                assert(rest.subrange(7, rest.len() as int) =~= cs@.subrange(start + 7, cs@.len() as int));
                assert(rest.subrange(0, 7) =~= cs@.subrange(start as int, start + 7));
                assert(has_prefix(rest, "Bearer "@));
                start = start + 7;
            }
            proof {
                let rest = cs@.subrange(start as int, cs@.len() as int);
                if has_prefix(rest, "Bearer "@) {
                    assert(rest.subrange(0, 7) =~= cs@.subrange(start as int, start + 7));
                }
            }
            let tail = tail_from(&cs, start);
            Some(tail)
        },
        _ => None,
    }
}

fn tail_from(cs: &Vec<char>, start: usize) -> (t: String)
    requires
        start <= cs@.len(),
    ensures
        t@ == cs@.subrange(start as int, cs@.len() as int),
{
    let mut t = String::new();
    let mut i: usize = start;
    while i < cs.len()
        invariant
            start <= i <= cs@.len(),
            t@ == cs@.subrange(start as int, i as int),
        decreases cs@.len() - i,
    {
        crate::text::push_char(&mut t, cs[i]);
        i = i + 1;
        assert(t@ =~= cs@.subrange(start as int, i as int));
    }
    t
}

/// How the tenant of a request is found.
#[derive(Debug, Clone, PartialEq, Eq)]
pub enum TenantLookup {
    /// The tenant with this identifier.
    ById(Uuid),
    /// The tenant that owns this API key.
    ByApiKey(String),
}

/// How the tenant of a request with tenant path segment `path_tenant` and
/// the given headers is found: by the path segment, else by the API key,
/// else by an `X-Tenant-ID` header that reads as an identifier; otherwise
/// the request is refused for want of a valid API key.
pub fn tenant_lookup(
    path_tenant: Option<Uuid>,
    x_api_key: HeaderText,
    authorization: HeaderText,
    tenant_header: HeaderText,
) -> (r: Result<TenantLookup, AppError>)
    ensures
        path_tenant matches Some(id) ==> r == Ok::<TenantLookup, AppError>(TenantLookup::ById(id)),
        path_tenant is None ==> match api_key_of(x_api_key, authorization) {
            Some(k) => r matches Ok(TenantLookup::ByApiKey(t)) && t@ == k,
            None => match header_text(tenant_header) {
                Some(s) => match uuid_reading(s) {
                    Ok(id) => r == Ok::<TenantLookup, AppError>(TenantLookup::ById(id)),
                    Err(_) => r == Err::<TenantLookup, AppError>(AppError::InvalidApiKey),
                },
                None => r == Err::<TenantLookup, AppError>(AppError::InvalidApiKey),
            },
        },
{
    if let Some(id) = path_tenant {
        return Ok(TenantLookup::ById(id));
    }
    if let Some(k) = extract_api_key(x_api_key, authorization) {
        return Ok(TenantLookup::ByApiKey(k));
    }
    match tenant_header {
        HeaderText::Visible(s) => match parse_uuid(s) {
            Ok(id) => Ok(TenantLookup::ById(id)),
            Err(_) => Err(AppError::InvalidApiKey),
        },
        _ => Err(AppError::InvalidApiKey),
    }
}

/// Admits a request for tenant `tenant_id`, whose stored configuration is
/// `config`: an unknown tenant is not found, an inactive one is refused.
pub fn admit_tenant(tenant_id: Uuid, config: Option<TenantConfig>) -> (r: Result<TenantContext, AppError>)
    ensures
        match config {
            None => r == Err::<TenantContext, AppError>(AppError::TenantNotFound),
            Some(c) => if c.is_active {
                r matches Ok(ctx) && ctx.tenant_id == tenant_id && ctx.config == c
            } else {
                r matches Err(AppError::Unauthorized(m)) && m@ == "tenant inactive"@
            },
        },
{
    match config {
        None => Err(AppError::TenantNotFound),
        Some(c) => {
            if !c.is_active {
                Err(AppError::Unauthorized(owned("tenant inactive")))
            } else {
                Ok(TenantContext::new(tenant_id, c))
            }
        },
    }
}

} // verus!
