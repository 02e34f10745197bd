//! API-key storage in the operating system's credential store, keyed
//! by endpoint id under one fixed service name.

use vstd::prelude::*;

verus! {

/// Relies on `keyring::Entry::new` and `Entry::get_password`: reads
/// the stored secret.  `Ok(None)` reports a missing entry; the `Err`
/// text carries the store's own message.  What comes back depends on
/// the machine's credential store, so nothing more is promised.
#[verifier::external_body]
fn keyring_get(service: &str, user: &str) -> (r: Result<Option<String>, String>) {
    match keyring::Entry::new(service, user) {
        Err(e) => Err(format!("{e}")),
        Ok(entry) => match entry.get_password() {
            Ok(v) => Ok(Some(v)),
            Err(keyring::Error::NoEntry) => Ok(None),
            Err(e) => Err(format!("{e}")),
        },
    }
}

/// Relies on `keyring::Entry::new` and `Entry::set_password`: stores
/// the secret under the service/user pair.
#[verifier::external_body]
fn keyring_set(service: &str, user: &str, value: &str) -> (r: Result<(), String>) {
    match keyring::Entry::new(service, user) {
        Err(e) => Err(format!("{e}")),
        Ok(entry) => match entry.set_password(value) {
            Ok(()) => Ok(()),
            Err(e) => Err(format!("{e}")),
        },
    }
}

/// Relies on `keyring::Entry::new` and `Entry::delete_credential`:
/// removes the stored secret.  `Ok(false)` reports that none existed.
#[verifier::external_body]
fn keyring_delete(service: &str, user: &str) -> (r: Result<bool, String>) {
    match keyring::Entry::new(service, user) {
        Err(e) => Err(format!("{e}")),
        Ok(entry) => match entry.delete_credential() {
            Ok(()) => Ok(true),
            Err(keyring::Error::NoEntry) => Ok(false),
            Err(e) => Err(format!("{e}")),
        },
    }
}

fn prefixed(prefix: &str, detail: &str) -> (r: String)
    ensures
        r@ == prefix@ + detail@,
        r@.len() >= prefix@.len(),
        r@.subrange(0, prefix@.len() as int) == prefix@,
{
    let mut m = prefix.to_owned();
    m.append(detail);
    proof {
        assert(m@.subrange(0, prefix@.len() as int) =~= prefix@);
    }
    m
}

/// The error text starts with the documented operation prefix.
pub open spec fn has_prefix(e: Seq<char>, p: Seq<char>) -> bool {
    e.len() >= p.len() && e.subrange(0, p.len() as int) == p
}

/// Whether a non-empty API key is stored for the endpoint.  A missing
/// entry reads as `false`; any other store failure is an error.
pub fn has_api_key(endpoint_id: &str) -> (r: Result<bool, String>)
    ensures
        r matches Err(e) ==> has_prefix(e@, "读取 API Key 失败: "@),
{
    match keyring_get("creatorai-v2", endpoint_id) {
        Ok(Some(v)) => Ok(!v.as_str().is_empty()),
        Ok(None) => Ok(false),
        Err(e) => Err(prefixed("读取 API Key 失败: ", e.as_str())),
    }
}

/// Stores the API key of the endpoint.
pub fn set_api_key(endpoint_id: &str, api_key: &str) -> (r: Result<(), String>)
    ensures
        r matches Err(e) ==> has_prefix(e@, "保存 API Key 失败: "@),
{
    match keyring_set("creatorai-v2", endpoint_id, api_key) {
        Ok(()) => Ok(()),
        Err(e) => Err(prefixed("保存 API Key 失败: ", e.as_str())),
    }
}

/// Removes the API key of the endpoint; a missing entry is no error.
pub fn delete_api_key(endpoint_id: &str) -> (r: Result<(), String>)
    ensures
        r matches Err(e) ==> has_prefix(e@, "删除 API Key 失败: "@),
{
    match keyring_delete("creatorai-v2", endpoint_id) {
        Ok(_) => Ok(()),
        Err(e) => Err(prefixed("删除 API Key 失败: ", e.as_str())),
    }
}

/// The API key of the endpoint; a missing entry is an error here.
pub fn get_api_key(endpoint_id: &str) -> (r: Result<String, String>)
    ensures
        r matches Err(e) ==> has_prefix(e@, "读取 API Key 失败: "@),
{
    match keyring_get("creatorai-v2", endpoint_id) {
        Ok(Some(v)) => Ok(v),
        Ok(None) => Err(prefixed("读取 API Key 失败: ", "未找到该端点的密钥")),
        Err(e) => Err(prefixed("读取 API Key 失败: ", e.as_str())),
    }
}

} // verus!
