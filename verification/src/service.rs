//! The shortening and redirect-resolution services: input validation,
//! record creation with defaulted expiration, expiration-checked
//! resolution with the click-count side effect, listing, lookup and
//! deletion.

use vstd::prelude::*;
use crate::errors::AppError;
use crate::models::{CreateUrlRequest, CreateUrlResponse, HealthResponse, ListUrlsResponse, UrlInfo};
use crate::store::{
    has_id, has_token, incremented, index_of_token, UrlRecord, UrlStore,
};
use crate::token::{charset, TokenGenerator};

verus! {

/// How long a record lives when no expiration is supplied: 30 days,
/// in seconds.
pub const DEFAULT_TTL_SECONDS: i64 = 2592000;

/// A destination URL is accepted exactly when it begins with `http://`
/// or `https://`; nothing further is checked.
pub open spec fn spec_valid_url(s: Seq<char>) -> bool {
    "http://"@.is_prefix_of(s) || "https://"@.is_prefix_of(s)
}

/// The defaulted expiration: creation time plus 30 days, held at the top
/// of the range rather than overflow.
pub open spec fn default_expires_at(created_at: i64) -> i64 {
    if created_at + DEFAULT_TTL_SECONDS <= i64::MAX {
        (created_at + DEFAULT_TTL_SECONDS) as i64
    } else {
        i64::MAX
    }
}

/// The expiration a new record gets: the requested one, or the default
/// when none was requested.
pub open spec fn requested_expires_at(expires_at: Option<i64>, created_at: i64) -> i64 {
    match expires_at {
        Some(e) => e,
        None => default_expires_at(created_at),
    }
}

/// The public short address of a token: the service's base address with
/// the token appended.
pub open spec fn spec_short_url(token: Seq<char>) -> Seq<char> {
    "http://localhost:3000/"@ + token
}

/// The record a creation call persists.
pub open spec fn new_record(
    id: String,
    token: String,
    url: String,
    title: Option<String>,
    created_at: i64,
    expires_at: Option<i64>,
) -> UrlRecord {
    UrlRecord {
        id,
        token,
        original_url: url,
        title,
        created_at,
        expires_at: requested_expires_at(expires_at, created_at),
        click_count: 0,
    }
}

/// A record view agrees with a stored record field for field, with the
/// derived short address.
pub open spec fn info_matches(info: UrlInfo, rec: UrlRecord) -> bool {
    &&& info.id == rec.id
    &&& info.token == rec.token
    &&& info.original_url == rec.original_url
    &&& info.title == rec.title
    &&& info.created_at == rec.created_at
    &&& info.expires_at == rec.expires_at
    &&& info.click_count == rec.click_count
    &&& info.short_url@ == spec_short_url(rec.token@)
}

/// Relies on uuid: `Uuid::new_v4().to_string()` is a freshly generated
/// random version-4 UUID in its hyphenated form, 36 characters long.
#[verifier::external_body]
fn fresh_record_id() -> (r: String)
    ensures
        r@.len() == 36,
{
    uuid::Uuid::new_v4().to_string()
}

/// Relies on chrono: `Utc::now().timestamp()` reads the ambient clock as
/// whole seconds since the Unix epoch. Nothing is assumed of the value;
/// the underlying call panics on a clock that reads before the epoch.
#[verifier::external_body]
fn now_timestamp() -> (r: i64) {
    chrono::Utc::now().timestamp()
}

fn starts_with_prefix(s: &str, p: &str) -> (r: bool)
    ensures
        r == p@.is_prefix_of(s@),
{
    let n = p.unicode_len();
    let m = s.unicode_len();
    if m < n {
        return false;
    }
    let mut i: usize = 0;
    while i < n
        invariant
            n == p@.len(),
            m == s@.len(),
            n <= m,
            i <= n,
            forall|j: int| 0 <= j < i ==> s@[j] == p@[j],
        decreases n - i,
    {
        if s.get_char(i) != p.get_char(i) {
            return false;
        }
        i = i + 1;
    }
    proof {
        assert(p@ =~= s@.subrange(0, p@.len() as int));
    }
    true
}

/// Whether a record with expiration `expires_at` is expired at instant
/// `now`: redirection is refused from the expiration instant onward.
pub fn is_expired(expires_at: i64, now: i64) -> (r: bool)
    ensures
        r == (expires_at <= now),
{
    expires_at <= now
}

/// The defaulted expiration of a record created at `created_at`:
/// thirty days later, held at the top of the range rather than overflow.
pub fn default_expiry(created_at: i64) -> (r: i64)
    ensures
        r == default_expires_at(created_at),
{
    if created_at <= i64::MAX - DEFAULT_TTL_SECONDS {
        created_at + DEFAULT_TTL_SECONDS
    } else {
        i64::MAX
    }
}

/// Whether the destination URL is acceptable: it must begin with
/// `http://` or `https://`.
pub fn validate_url(url: &str) -> (r: bool)
    ensures
        r == spec_valid_url(url@),
{
    starts_with_prefix(url, "http://") || starts_with_prefix(url, "https://")
}

/// The public short address for a token.
pub fn build_short_url(token: &str) -> (r: String)
    ensures
        r@ == spec_short_url(token@),
{
    let base = String::from_str("http://localhost:3000/");
    base.concat(token)
}

/// The public view of one stored record.
pub fn info_of_record(rec: &UrlRecord) -> (r: UrlInfo)
    ensures
        info_matches(r, *rec),
{
    let title = match &rec.title {
        Some(t) => Some(t.clone()),
        None => None,
    };
    UrlInfo {
        id: rec.id.clone(),
        token: rec.token.clone(),
        original_url: rec.original_url.clone(),
        short_url: build_short_url(rec.token.as_str()),
        title,
        created_at: rec.created_at,
        expires_at: rec.expires_at,
        click_count: rec.click_count,
    }
}

/// Creates a record from explicitly supplied token, id and creation
/// time. Rejects a URL that does not begin with `http://` or `https://`;
/// surfaces a token or id collision as a store error, leaving the store
/// unchanged; otherwise persists the record with a zero click count and
/// the expiration defaulted to thirty days past creation, and answers
/// with the full public view.
pub fn create_url_at(
    store: &mut UrlStore,
    id: String,
    token: String,
    url: String,
    title: Option<String>,
    expires_at: Option<i64>,
    created_at: i64,
) -> (r: Result<CreateUrlResponse, AppError>)
    requires
        old(store).wf(),
    ensures
        final(store).wf(),
        !spec_valid_url(url@) ==> (r matches Err(AppError::BadRequest(_)) && final(store)@ == old(
            store,
        )@),
        (spec_valid_url(url@) && (has_token(old(store)@, token@) || has_id(old(store)@, id@))) ==> (
        r matches Err(AppError::DatabaseError(_)) && final(store)@ == old(store)@),
        (spec_valid_url(url@) && !has_token(old(store)@, token@) && !has_id(old(store)@, id@))
            ==> (r matches Ok(resp) && ({
            &&& resp.id == id
            &&& resp.token == token
            &&& resp.original_url == url
            &&& resp.title == title
            &&& resp.created_at == created_at
            &&& resp.expires_at == requested_expires_at(expires_at, created_at)
            &&& resp.click_count == 0
            &&& resp.short_url@ == spec_short_url(token@)
            &&& exists|k: int|
                0 <= k <= old(store)@.len() && final(store)@ == old(store)@.insert(
                    k,
                    new_record(id, token, url, title, created_at, expires_at),
                )
            &&& has_token(final(store)@, token@)
            &&& final(store)@[index_of_token(final(store)@, token@)] == new_record(
                id,
                token,
                url,
                title,
                created_at,
                expires_at,
            )
        })),
{
    if !validate_url(url.as_str()) {
        return Err(AppError::BadRequest(String::from_str(
            "URL must start with http:// or https://",
        )));
    }
    let expires: i64 = match expires_at {
        Some(e) => e,
        None => default_expiry(created_at),
    };
    let title_copy = match &title {
        Some(t) => Some(t.clone()),
        None => None,
    };
    let rec = UrlRecord {
        id: id.clone(),
        token: token.clone(),
        original_url: url.clone(),
        title: title_copy,
        created_at,
        expires_at: expires,
        click_count: 0,
    };
    proof {
        assert(rec == new_record(id, token, url, title, created_at, expires_at));
    }
    match store.insert(rec) {
        Err(e) => Err(e),
        Ok(_) => {
            proof {
                let nr = new_record(id, token, url, title, created_at, expires_at);
                let s0 = old(store)@;
                let k = choose|k: int| 0 <= k <= s0.len() && store@ == s0.insert(k, nr);
                s0.insert_ensures(k, nr);
                crate::store::lemma_index_of_token(store@, nr.token@, k);
            }
            let short_url = build_short_url(token.as_str());
            Ok(
                CreateUrlResponse {
                    id,
                    token,
                    original_url: url,
                    short_url,
                    title,
                    created_at,
                    expires_at: expires,
                    click_count: 0,
                },
            )
        },
    }
}

/// The shortening service: validates the URL, draws a fresh token and
/// id, stamps the current time, and persists the new record. A rejected
/// URL answers with a bad-request failure, exactly then; a token or id
/// collision is surfaced as a store error with the store unchanged
/// (creation is not retried). A collision takes an existing record with
/// a token of the drawn length or a 36-character id, so on a store with
/// none — the empty store in particular — a valid request must succeed.
pub fn create_short_url(
    store: &mut UrlStore,
    token_gen: &TokenGenerator,
    req: CreateUrlRequest,
) -> (r: Result<CreateUrlResponse, AppError>)
    requires
        old(store).wf(),
    ensures
        final(store).wf(),
        (r matches Err(AppError::BadRequest(_))) <==> !spec_valid_url(req.url@),
        !spec_valid_url(req.url@) ==> final(store)@ == old(store)@,
        (r matches Err(AppError::DatabaseError(_))) ==> final(store)@ == old(store)@,
        r is Ok || (r matches Err(AppError::BadRequest(_))) || (r matches Err(
            AppError::DatabaseError(_),
        )),
        (r matches Err(AppError::DatabaseError(_))) ==> old(store)@.len() > 0,
        (spec_valid_url(req.url@) && old(store)@.len() == 0) ==> r is Ok,
        (spec_valid_url(req.url@) && (forall|i: int|
            0 <= i < old(store)@.len() ==> ((#[trigger] old(store)@[i]).token@.len()
                != token_gen.length && old(store)@[i].id@.len() != 36))) ==> r is Ok,
        r matches Ok(resp) ==> ({
            &&& resp.original_url == req.url
            &&& resp.title == req.title
            &&& resp.click_count == 0
            &&& resp.id@.len() == 36
            &&& resp.token@.len() == token_gen.length
            &&& forall|i: int|
                0 <= i < resp.token@.len() ==> charset().contains(#[trigger] resp.token@[i])
            &&& resp.expires_at == requested_expires_at(req.expires_at, resp.created_at)
            &&& resp.short_url@ == spec_short_url(resp.token@)
            &&& final(store)@.len() == old(store)@.len() + 1
            &&& has_token(final(store)@, resp.token@)
            &&& exists|k: int|
                0 <= k <= old(store)@.len() && final(store)@ == old(store)@.insert(
                    k,
                    new_record(
                        resp.id,
                        resp.token,
                        resp.original_url,
                        resp.title,
                        resp.created_at,
                        req.expires_at,
                    ),
                )
            &&& final(store)@[index_of_token(final(store)@, resp.token@)] == new_record(
                resp.id,
                resp.token,
                resp.original_url,
                resp.title,
                resp.created_at,
                req.expires_at,
            )
        }),
{
    let ghost s0 = store@;
    let ghost gurl = req.url@;
    let token = token_gen.generate();
    let id = fresh_record_id();
    let ghost gtok = token@;
    let ghost gid = id@;
    let now = now_timestamp();
    let r = create_url_at(store, id, token, req.url, req.title, req.expires_at, now);
    proof {
        if r is Ok {
            let resp = r->Ok_0;
            let nr = new_record(
                resp.id,
                resp.token,
                resp.original_url,
                resp.title,
                resp.created_at,
                req.expires_at,
            );
            let k = choose|k: int| 0 <= k <= s0.len() && store@ == s0.insert(k, nr);
            s0.insert_ensures(k, nr);
            assert(store@[k].token@ == resp.token@);
        }
        if r matches Err(AppError::DatabaseError(_)) {
            assert(spec_valid_url(gurl));
            assert(has_token(s0, gtok) || has_id(s0, gid)) by {
                if !has_token(s0, gtok) && !has_id(s0, gid) {
                    assert(r is Ok);
                }
            }
            if has_token(s0, gtok) {
                let i = choose|i: int| 0 <= i < s0.len() && (#[trigger] s0[i].token@) == gtok;
                assert(s0[i].token@.len() == token_gen.length);
            } else {
                let i = choose|i: int| 0 <= i < s0.len() && (#[trigger] s0[i].id@) == gid;
                assert(s0[i].id@.len() == 36);
            }
        }
    }
    r
}

/// The redirect-resolution step against an explicitly supplied current
/// time. An absent token fails as not found; a record whose expiration
/// is at or before `now` fails as gone with the counter untouched; a
/// live record has its click count advanced by one and answers with the
/// destination URL.
pub fn resolve_url_at(store: &mut UrlStore, token: &str, now: i64) -> (r: Result<
    String,
    AppError,
>)
    requires
        old(store).wf(),
    ensures
        final(store).wf(),
        !has_token(old(store)@, token@) ==> (r matches Err(AppError::NotFound(_)) && final(store)@
            == old(store)@),
        has_token(old(store)@, token@) ==> ({
            let rec = old(store)@[index_of_token(old(store)@, token@)];
            &&& (rec.expires_at <= now ==> (r matches Err(AppError::Gone(_)) && final(store)@
                == old(store)@))
            &&& (rec.expires_at > now ==> (r matches Ok(url) && url@ == rec.original_url@
                && final(store)@ == old(store)@.update(
                    index_of_token(old(store)@, token@),
                    incremented(rec),
                ) && has_token(final(store)@, token@) && index_of_token(final(store)@, token@)
                == index_of_token(old(store)@, token@)))
        }),
{
    let found: Option<(String, i64)> = match store.get_by_token(token) {
        Some(rec) => Some((rec.original_url.clone(), rec.expires_at)),
        None => None,
    };
    match found {
        None => Err(AppError::NotFound(String::from_str("URL not found"))),
        Some((url, expires_at)) => {
            if is_expired(expires_at, now) {
                Err(AppError::Gone(String::from_str("URL has expired")))
            } else {
                let _rows: u64 = store.increment_click_count(token);
                proof {
                    if has_token(old(store)@, token@) {
                        let idx = index_of_token(old(store)@, token@);
                        crate::store::lemma_index_of_token(store@, token@, idx);
                    }
                }
                Ok(url)
            }
        },
    }
}

/// The redirect-resolution service against the ambient clock. Whatever
/// the clock read: an absent token fails as not found with the store
/// unchanged; a present one either fails as gone with the store
/// unchanged, or answers with its destination URL having advanced
/// exactly its click count by one.
pub fn resolve_url(store: &mut UrlStore, token: &str) -> (r: Result<String, AppError>)
    requires
        old(store).wf(),
    ensures
        final(store).wf(),
        !has_token(old(store)@, token@) ==> (r matches Err(AppError::NotFound(_)) && final(store)@
            == old(store)@),
        has_token(old(store)@, token@) ==> ({
            let rec = old(store)@[index_of_token(old(store)@, token@)];
            ||| (r matches Err(AppError::Gone(_)) && final(store)@ == old(store)@)
            ||| (r matches Ok(url) && url@ == rec.original_url@ && final(store)@
                == old(store)@.update(index_of_token(old(store)@, token@), incremented(rec))
                && index_of_token(final(store)@, token@) == index_of_token(old(store)@, token@))
        }),
{
    let now = now_timestamp();
    resolve_url_at(store, token, now)
}

/// Exact-match lookup of one record's public view; an absent token fails
/// as not found.
pub fn get_url_info(store: &UrlStore, token: &str) -> (r: Result<UrlInfo, AppError>)
    requires
        store.wf(),
    ensures
        !has_token(store@, token@) ==> r matches Err(AppError::NotFound(_)),
        has_token(store@, token@) ==> (r matches Ok(info) && info_matches(
            info,
            store@[index_of_token(store@, token@)],
        )),
{
    match store.get_by_token(token) {
        None => Err(AppError::NotFound(String::from_str("URL not found"))),
        Some(rec) => Ok(info_of_record(rec)),
    }
}

/// The listing service: the public view of every record, in the store's
/// order — newest first. A pure function of the store's state, so two
/// listings with no write between them agree.
pub fn list_urls(store: &UrlStore) -> (r: ListUrlsResponse)
    ensures
        r.urls@.len() == store@.len(),
        forall|i: int| 0 <= i < store@.len() ==> info_matches(#[trigger] r.urls@[i], store@[i]),
{
    let recs = store.list_all();
    let n = recs.len();
    let mut urls: Vec<UrlInfo> = Vec::new();
    let mut i: usize = 0;
    while i < n
        invariant
            n == recs@.len(),
            recs@ == store@,
            i <= n,
            urls@.len() == i,
            forall|j: int| 0 <= j < i ==> info_matches(#[trigger] urls@[j], store@[j]),
        decreases n - i,
    {
        let info = info_of_record(&recs[i]);
        urls.push(info);
        i = i + 1;
    }
    ListUrlsResponse { urls }
}

/// Unconditional deletion by token, blind to expiration. An absent token
/// fails as not found; otherwise the record is removed for good and no
/// record with the token remains.
pub fn delete_url(store: &mut UrlStore, token: &str) -> (r: Result<(), AppError>)
    requires
        old(store).wf(),
    ensures
        final(store).wf(),
        !has_token(old(store)@, token@) ==> (r matches Err(AppError::NotFound(_)) && final(store)@
            == old(store)@),
        has_token(old(store)@, token@) ==> (r is Ok && final(store)@ == old(store)@.remove(
            index_of_token(old(store)@, token@),
        ) && !has_token(final(store)@, token@)),
{
    let ghost s0 = store@;
    let rows = store.delete_by_token(token);
    if rows == 0 {
        Err(AppError::NotFound(String::from_str("URL not found")))
    } else {
        proof {
            crate::store::lemma_remove_token_gone(s0, token@);
        }
        Ok(())
    }
}

/// The health probe's constant answer.
pub fn health_check() -> (r: HealthResponse)
    ensures
        r.status@ == "healthy"@,
        r.service@ == "QuickURL"@,
        r.version@ == "0.1.0"@,
{
    HealthResponse {
        status: String::from_str("healthy"),
        service: String::from_str("QuickURL"),
        version: String::from_str("0.1.0"),
    }
}

} // verus!
