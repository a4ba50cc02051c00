use quickurl::errors::AppError;
use quickurl::models::CreateUrlRequest;
use quickurl::service::{
    create_short_url, create_url_at, delete_url, get_url_info, health_check, list_urls,
    resolve_url, resolve_url_at, validate_url,
};
use quickurl::store::UrlStore;
use quickurl::token::TokenGenerator;

fn seed(store: &mut UrlStore, id: &str, token: &str, url: &str, created_at: i64, expires_at: Option<i64>) {
    let r = create_url_at(
        store,
        id.to_string(),
        token.to_string(),
        url.to_string(),
        None,
        expires_at,
        created_at,
    );
    assert!(r.is_ok());
}

#[test]
fn test_round_trip_increments_click_count() {
    let mut store = UrlStore::new();
    seed(&mut store, "id-a", "abc123", "https://example.com/a", 1000, Some(2000));

    let info = get_url_info(&store, "abc123").unwrap();
    assert_eq!(info.click_count, 0);

    let url = resolve_url_at(&mut store, "abc123", 1500).unwrap();
    assert_eq!(url, "https://example.com/a");

    let info = get_url_info(&store, "abc123").unwrap();
    assert_eq!(info.click_count, 1);
}

#[test]
fn test_expired_record_is_gone_and_untouched() {
    let mut store = UrlStore::new();
    // expires one second before the resolution instant
    seed(&mut store, "id-a", "abc123", "https://example.com/a", 1000, Some(1499));

    let r = resolve_url_at(&mut store, "abc123", 1500);
    assert!(matches!(r, Err(AppError::Gone(_))));

    let info = get_url_info(&store, "abc123").unwrap();
    assert_eq!(info.click_count, 0);
}

#[test]
fn test_expiration_boundary_is_exclusive() {
    let mut store = UrlStore::new();
    seed(&mut store, "id-a", "abc123", "https://example.com/a", 1000, Some(1500));

    // at the expiration instant the record is already gone
    let r = resolve_url_at(&mut store, "abc123", 1500);
    assert!(matches!(r, Err(AppError::Gone(_))));

    // one second earlier it still redirects
    let url = resolve_url_at(&mut store, "abc123", 1499).unwrap();
    assert_eq!(url, "https://example.com/a");
}

#[test]
fn test_validation_rejects_bad_scheme() {
    let mut store = UrlStore::new();
    let r = create_url_at(
        &mut store,
        "id-a".to_string(),
        "abc123".to_string(),
        "ftp://x".to_string(),
        None,
        None,
        0,
    );
    assert!(matches!(r, Err(AppError::BadRequest(_))));
    assert_eq!(store.len(), 0);

    let r = create_url_at(
        &mut store,
        "id-a".to_string(),
        "abc123".to_string(),
        "http://x".to_string(),
        None,
        None,
        0,
    );
    assert!(r.is_ok());
    assert_eq!(store.len(), 1);
}

#[test]
fn test_validate_url_predicate() {
    assert!(validate_url("http://x"));
    assert!(validate_url("https://example.com"));
    assert!(!validate_url("ftp://x"));
    assert!(!validate_url("example.com"));
    assert!(!validate_url(""));
    assert!(!validate_url("http:/"));
}

#[test]
fn test_default_expiration_is_thirty_days() {
    let mut store = UrlStore::new();
    let r = create_url_at(
        &mut store,
        "id-a".to_string(),
        "abc123".to_string(),
        "https://example.com".to_string(),
        None,
        None,
        100,
    )
    .unwrap();
    assert_eq!(r.created_at, 100);
    assert_eq!(r.expires_at, 100 + 30 * 24 * 60 * 60);
}

#[test]
fn test_token_conflict_is_store_error() {
    let mut store = UrlStore::new();
    seed(&mut store, "id-a", "abc123", "https://example.com/a", 1000, None);

    let r = create_url_at(
        &mut store,
        "id-b".to_string(),
        "abc123".to_string(),
        "https://example.com/b".to_string(),
        None,
        None,
        2000,
    );
    assert!(matches!(r, Err(AppError::DatabaseError(_))));
    assert_eq!(store.len(), 1);

    // a duplicate id is refused too
    let r = create_url_at(
        &mut store,
        "id-a".to_string(),
        "other1".to_string(),
        "https://example.com/b".to_string(),
        None,
        None,
        2000,
    );
    assert!(matches!(r, Err(AppError::DatabaseError(_))));
    assert_eq!(store.len(), 1);
}

#[test]
fn test_listing_is_idempotent_and_newest_first() {
    let mut store = UrlStore::new();
    seed(&mut store, "id-a", "aaaaaa", "https://example.com/a", 100, None);
    seed(&mut store, "id-b", "bbbbbb", "https://example.com/b", 300, None);
    seed(&mut store, "id-c", "cccccc", "https://example.com/c", 200, None);

    let first = list_urls(&store);
    let second = list_urls(&store);

    let tokens: Vec<&str> = first.urls.iter().map(|u| u.token.as_str()).collect();
    assert_eq!(tokens, vec!["bbbbbb", "cccccc", "aaaaaa"]);
    for (a, b) in first.urls.iter().zip(second.urls.iter()) {
        assert_eq!(a.id, b.id);
        assert_eq!(a.token, b.token);
        assert_eq!(a.original_url, b.original_url);
        assert_eq!(a.short_url, b.short_url);
        assert_eq!(a.title, b.title);
        assert_eq!(a.created_at, b.created_at);
        assert_eq!(a.expires_at, b.expires_at);
        assert_eq!(a.click_count, b.click_count);
    }
    for w in first.urls.windows(2) {
        assert!(w[0].created_at >= w[1].created_at);
    }
}

#[test]
fn test_repeated_resolutions_accumulate() {
    let mut store = UrlStore::new();
    seed(&mut store, "id-a", "abc123", "https://example.com/a", 0, Some(i64::MAX));

    let n = 25;
    for _ in 0..n {
        let url = resolve_url_at(&mut store, "abc123", 10).unwrap();
        assert_eq!(url, "https://example.com/a");
    }
    let info = get_url_info(&store, "abc123").unwrap();
    assert_eq!(info.click_count, n);
}

#[test]
fn test_deletion_removes_record() {
    let mut store = UrlStore::new();
    seed(&mut store, "id-a", "abc123", "https://example.com/a", 0, None);

    assert!(delete_url(&mut store, "abc123").is_ok());
    let r = resolve_url_at(&mut store, "abc123", 10);
    assert!(matches!(r, Err(AppError::NotFound(_))));

    // a second delete matches nothing: zero rows affected, not a failure
    assert_eq!(store.delete_by_token("abc123"), 0);
    // the service layer reports the absence as not found
    assert!(matches!(delete_url(&mut store, "abc123"), Err(AppError::NotFound(_))));
}

#[test]
fn test_resolve_unknown_token_not_found() {
    let mut store = UrlStore::new();
    let r = resolve_url_at(&mut store, "nosuch", 0);
    assert!(matches!(r, Err(AppError::NotFound(_))));
    let r = get_url_info(&store, "nosuch");
    assert!(matches!(r, Err(AppError::NotFound(_))));
}

#[test]
fn test_get_url_info_fields() {
    let mut store = UrlStore::new();
    let created = create_url_at(
        &mut store,
        "id-a".to_string(),
        "abc123".to_string(),
        "https://example.com/a".to_string(),
        Some("my page".to_string()),
        Some(9999),
        1234,
    )
    .unwrap();
    assert_eq!(created.short_url, "http://localhost:3000/abc123");

    let info = get_url_info(&store, "abc123").unwrap();
    assert_eq!(info.id, "id-a");
    assert_eq!(info.token, "abc123");
    assert_eq!(info.original_url, "https://example.com/a");
    assert_eq!(info.short_url, "http://localhost:3000/abc123");
    assert_eq!(info.title.as_deref(), Some("my page"));
    assert_eq!(info.created_at, 1234);
    assert_eq!(info.expires_at, 9999);
    assert_eq!(info.click_count, 0);
}

#[test]
fn test_create_short_url_end_to_end() {
    let mut store = UrlStore::new();
    let generator = TokenGenerator::new();
    let req = CreateUrlRequest {
        url: "https://example.com/a".to_string(),
        title: None,
        expires_at: None,
    };
    let resp = create_short_url(&mut store, &generator, req).unwrap();
    assert_eq!(resp.token.len(), 6);
    assert_eq!(resp.id.len(), 36);
    assert_eq!(resp.original_url, "https://example.com/a");
    assert_eq!(resp.short_url, format!("http://localhost:3000/{}", resp.token));
    assert_eq!(resp.click_count, 0);
    assert_eq!(resp.expires_at, resp.created_at + 30 * 24 * 60 * 60);

    // the freshly created record resolves against the real clock
    let url = resolve_url(&mut store, &resp.token).unwrap();
    assert_eq!(url, "https://example.com/a");
    let info = get_url_info(&store, &resp.token).unwrap();
    assert_eq!(info.click_count, 1);
}

#[test]
fn test_create_short_url_rejects_bad_scheme() {
    let mut store = UrlStore::new();
    let generator = TokenGenerator::new();
    let req = CreateUrlRequest {
        url: "ftp://x".to_string(),
        title: None,
        expires_at: None,
    };
    let r = create_short_url(&mut store, &generator, req);
    assert!(matches!(r, Err(AppError::BadRequest(_))));
    assert_eq!(store.len(), 0);
}

#[test]
fn test_health_check_values() {
    let h = health_check();
    assert_eq!(h.status, "healthy");
    assert_eq!(h.service, "QuickURL");
    assert_eq!(h.version, "0.1.0");
}

#[test]
fn test_error_status_codes_and_messages() {
    assert_eq!(AppError::DatabaseError("db".to_string()).status_code(), 500);
    assert_eq!(AppError::NotFound("nf".to_string()).status_code(), 404);
    assert_eq!(AppError::BadRequest("br".to_string()).status_code(), 400);
    assert_eq!(AppError::Gone("g".to_string()).status_code(), 410);
    assert_eq!(AppError::Gone("URL has expired".to_string()).into_message(), "URL has expired");
}

#[test]
fn test_store_operations_report_rows_affected() {
    let mut store = UrlStore::new();
    seed(&mut store, "id-a", "abc123", "https://example.com/a", 0, None);

    assert_eq!(store.increment_click_count("abc123"), 1);
    assert_eq!(store.increment_click_count("nosuch"), 0);
    assert_eq!(store.delete_by_token("nosuch"), 0);
    assert_eq!(store.delete_by_token("abc123"), 1);
    assert_eq!(store.len(), 0);
}
