//! Feature flags: gradual rollout to tenants.

use std::hash::{Hash, Hasher};
use vstd::prelude::*;

verus! {

/// A feature flag.
#[derive(Debug, Clone)]
pub struct FeatureFlag {
    pub name: String,
    pub enabled: bool,
    pub description: Option<String>,
    /// Share of tenants, in percent, the flag is rolled out to.
    pub rollout_percentage: Option<i32>,
    pub depends_on: Vec<String>,
}

/// Whether a tenant sees a flag whose stored `(enabled, rollout)` is `flag`
/// (`None` when the flag does not exist), given the tenant's hash for the
/// flag: never when absent or disabled; for a rollout below 100 percent,
/// when the hash modulo 100 falls below the percentage read as an unsigned
/// 64-bit number, so a negative percentage (which reads as at least 2^63)
/// reaches every tenant; otherwise always.
pub open spec fn tenant_sees(flag: Option<(bool, Option<i32>)>, hash: u64) -> bool {
    match flag {
        None => false,
        Some((enabled, rollout)) => if !enabled {
            false
        } else {
            match rollout {
                Some(p) => if p < 100 {
                    (hash % 100) < (p as u64)
                } else {
                    true
                },
                None => true,
            }
        },
    }
}

/// Whether a tenant sees a flag (see [`tenant_sees`]).
pub fn is_enabled_for_tenant_with(flag: Option<(bool, Option<i32>)>, hash: u64) -> (r: bool)
    ensures
        r == tenant_sees(flag, hash),
        flag is None ==> !r,
        flag matches Some((enabled, _)) && !enabled ==> !r,
        flag == Some((true, None::<i32>)) ==> r,
        match flag {
            Some((true, Some(p))) => (p >= 100 ==> r) && (0 <= p < 100 ==> (r <==> hash % 100 < p)),
            _ => true,
        },
{
    match flag {
        None => false,
        Some((enabled, rollout)) => {
            if !enabled {
                return false;
            }
            match rollout {
                Some(p) => {
                    if p < 100 {
                        (hash % 100) < (p as u64)
                    } else {
                        true
                    }
                },
                None => true,
            }
        },
    }
}

/// The bucket hash of a tenant and a flag name.
pub uninterp spec fn tenant_flag_hash(tenant_id: Seq<char>, flag_name: Seq<char>) -> u64;

/// Hashes the tenant and then the flag name with a `DefaultHasher` made by
/// `DefaultHasher::new`, which std documents as giving the same hasher on
/// every call; the result is named [`tenant_flag_hash`]. Its algorithm is
/// not specified, so nothing more is said of the value.
#[verifier::external_body]
pub fn hash_tenant_flag(tenant_id: &str, flag_name: &str) -> (r: u64)
    ensures
        r == tenant_flag_hash(tenant_id@, flag_name@),
{
    let mut hasher = std::collections::hash_map::DefaultHasher::new();
    tenant_id.hash(&mut hasher);
    flag_name.hash(&mut hasher);
    hasher.finish()
}

/// Whether a tenant sees a flag whose stored `(enabled, rollout)` is
/// `flag`, bucketing the tenant by the hash of its identifier and the flag
/// name (see [`tenant_sees`]).
pub fn is_enabled_for_tenant(flag: Option<(bool, Option<i32>)>, tenant_id: &str, flag_name: &str) -> (r: bool)
    ensures
        r == tenant_sees(flag, tenant_flag_hash(tenant_id@, flag_name@)),
{
    let hash = hash_tenant_flag(tenant_id, flag_name);
    is_enabled_for_tenant_with(flag, hash)
}

/// No tenant sees a flag that does not exist or that is stored disabled,
/// whatever its rollout percentage and the tenant's hash.
pub proof fn lemma_disabled_flag_unseen(rollout: Option<i32>, hash: u64)
    ensures
        !tenant_sees(None, hash),
        !tenant_sees(Some((false, rollout)), hash),
{
}

/// An enabled flag with no rollout percentage, or one of at least 100, is
/// seen by every tenant.
pub proof fn lemma_full_rollout_seen_by_all(p: i32, hash: u64)
    requires
        p >= 100,
    ensures
        tenant_sees(Some((true, None)), hash),
        tenant_sees(Some((true, Some(p))), hash),
{
}

/// Raising an enabled flag's rollout percentage never hides it from a
/// tenant that saw it: the tenants that see it only grow.
pub proof fn lemma_rollout_monotone(p1: i32, p2: i32, hash: u64)
    requires
        0 <= p1 <= p2,
        tenant_sees(Some((true, Some(p1))), hash),
    ensures
        tenant_sees(Some((true, Some(p2))), hash),
{
}

/// Under an enabled flag's rollout of `p` percent (0 to 99), a tenant sees
/// it exactly when its hash falls in one of the first `p` of 100 buckets; a
/// rollout of 0 shows it to no tenant.
pub proof fn lemma_rollout_buckets(p: i32, hash: u64)
    requires
        0 <= p < 100,
    ensures
        tenant_sees(Some((true, Some(p))), hash) <==> hash % 100 < p,
        p == 0 ==> !tenant_sees(Some((true, Some(p))), hash),
{
}

} // verus!
