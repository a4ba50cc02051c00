//! The request and response shapes of the service, with timestamps held
//! as whole seconds since the Unix epoch.

use vstd::prelude::*;

verus! {

/// Input to the shortening service: the destination URL, an optional
/// descriptive title, and an optional expiration timestamp.
#[derive(Debug)]
pub struct CreateUrlRequest {
    pub url: String,
    pub title: Option<String>,
    pub expires_at: Option<i64>,
}

/// The public view of a freshly created record, including the derived
/// `short_url`.
#[derive(Debug)]
pub struct CreateUrlResponse {
    pub id: String,
    pub token: String,
    pub original_url: String,
    pub short_url: String,
    pub title: Option<String>,
    pub created_at: i64,
    pub expires_at: i64,
    pub click_count: i64,
}

/// The public view of a stored record, as returned by lookups and
/// listings.
#[derive(Debug)]
pub struct UrlInfo {
    pub id: String,
    pub token: String,
    pub original_url: String,
    pub short_url: String,
    pub title: Option<String>,
    pub created_at: i64,
    pub expires_at: i64,
    pub click_count: i64,
}

/// The listing of every stored record, newest first.
#[derive(Debug)]
pub struct ListUrlsResponse {
    pub urls: Vec<UrlInfo>,
}

/// The health probe's answer.
#[derive(Debug)]
pub struct HealthResponse {
    pub status: String,
    pub service: String,
    pub version: String,
}

} // verus!
