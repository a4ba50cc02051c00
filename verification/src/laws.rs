//! The library's general laws, stated and proved over the store model:
//! token uniqueness, the create-then-resolve round trip, idempotent
//! listing, and the absence of lost click-count updates.

use vstd::prelude::*;
use crate::models::ListUrlsResponse;
use crate::service::info_matches;
use crate::store::{
    has_token, incremented, index_of_token, lemma_index_of_token, store_wf, tokens_unique,
    UrlRecord, UrlStore,
};

verus! {

/// Token uniqueness: in a well-formed store — as every store operation
/// leaves it — no two live records share a token.
pub proof fn lemma_token_uniqueness(s: UrlStore)
    requires
        s.wf(),
    ensures
        forall|i: int, j: int|
            0 <= i < j < s@.len() ==> (#[trigger] s@[i].token@) != (#[trigger] s@[j].token@),
{
}

/// Round trip: a record created with a fresh token enters the store
/// carrying that token, resolution of the token finds exactly that
/// record, and one successful resolution takes its click count from
/// zero to one.
pub proof fn lemma_round_trip(s0: Seq<UrlRecord>, k: int, rec: UrlRecord, now: i64)
    requires
        store_wf(s0),
        0 <= k <= s0.len(),
        !has_token(s0, rec.token@),
        rec.click_count == 0,
        rec.expires_at > now,
    ensures
        tokens_unique(s0.insert(k, rec)),
        has_token(s0.insert(k, rec), rec.token@),
        s0.insert(k, rec)[index_of_token(s0.insert(k, rec), rec.token@)] == rec,
        incremented(rec).click_count == 1,
{
    let s1 = s0.insert(k, rec);
    s0.insert_ensures(k, rec);
    assert forall|i: int| 0 <= i < s1.len() implies s1[i] == (if i < k {
        s0[i]
    } else if i == k {
        rec
    } else {
        s0[i - 1]
    }) by {
        if i > k {
            assert(s1[(i - 1) + 1] == s0[i - 1]);
        }
    }
    assert forall|i: int| 0 <= i < s0.len() implies (#[trigger] s0[i].token@) != rec.token@ by {
        if s0[i].token@ == rec.token@ {
            assert(has_token(s0, rec.token@));
        }
    }
    lemma_index_of_token(s1, rec.token@, k);
}

/// Idempotent listing: two listings of one store state, with no write
/// between them, agree record for record and in the same order, down to
/// every field and the derived short address.
pub proof fn lemma_list_idempotent(s: UrlStore, a: ListUrlsResponse, b: ListUrlsResponse)
    requires
        a.urls@.len() == s@.len(),
        forall|i: int| 0 <= i < s@.len() ==> info_matches(#[trigger] a.urls@[i], s@[i]),
        b.urls@.len() == s@.len(),
        forall|i: int| 0 <= i < s@.len() ==> info_matches(#[trigger] b.urls@[i], s@[i]),
    ensures
        a.urls@.len() == b.urls@.len(),
        forall|i: int|
            0 <= i < a.urls@.len() ==> {
                &&& (#[trigger] a.urls@[i]).id == b.urls@[i].id
                &&& a.urls@[i].token == b.urls@[i].token
                &&& a.urls@[i].original_url == b.urls@[i].original_url
                &&& a.urls@[i].short_url@ == b.urls@[i].short_url@
                &&& a.urls@[i].title == b.urls@[i].title
                &&& a.urls@[i].created_at == b.urls@[i].created_at
                &&& a.urls@[i].expires_at == b.urls@[i].expires_at
                &&& a.urls@[i].click_count == b.urls@[i].click_count
            },
{
}

/// The store's contents after `n` successful resolutions of one token,
/// each resolution advancing that record's click count by one.
pub open spec fn after_increments(s: Seq<UrlRecord>, token: Seq<char>, n: nat) -> Seq<UrlRecord>
    decreases n,
{
    if n == 0 {
        s
    } else {
        let t = after_increments(s, token, (n - 1) as nat);
        t.update(index_of_token(t, token), incremented(t[index_of_token(t, token)]))
    }
}

/// No lost updates: `n` resolutions of one live token leave its record's
/// click count higher by exactly `n`, and no other record touched. Each
/// single resolution is the store's atomic increment, so the counts
/// compose additively however the resolutions are ordered.
pub proof fn lemma_increments_accumulate(s: Seq<UrlRecord>, token: Seq<char>, n: nat)
    requires
        tokens_unique(s),
        has_token(s, token),
        s[index_of_token(s, token)].click_count + n <= i64::MAX,
    ensures
        after_increments(s, token, n).len() == s.len(),
        tokens_unique(after_increments(s, token, n)),
        has_token(after_increments(s, token, n), token),
        index_of_token(after_increments(s, token, n), token) == index_of_token(s, token),
        after_increments(s, token, n)[index_of_token(s, token)].click_count == s[index_of_token(
            s,
            token,
        )].click_count + n,
        after_increments(s, token, n)[index_of_token(s, token)].token@ == token,
        forall|j: int|
            0 <= j < s.len() && j != index_of_token(s, token) ==> after_increments(s, token, n)[j]
                == s[j],
    decreases n,
{
    let idx = index_of_token(s, token);
    assert(0 <= idx < s.len() && s[idx].token@ == token);
    if n == 0 {
    } else {
        lemma_increments_accumulate(s, token, (n - 1) as nat);
        let t = after_increments(s, token, (n - 1) as nat);
        let t2 = after_increments(s, token, n);
        assert(t2 == t.update(index_of_token(t, token), incremented(t[index_of_token(t, token)])));
        assert(t2[idx] == incremented(t[idx]));
        assert forall|i: int, j: int|
            0 <= i < j < t2.len() implies (#[trigger] t2[i].token@) != (#[trigger] t2[
            j
        ].token@) by {
            assert(t2[i].token@ == t[i].token@);
            assert(t2[j].token@ == t[j].token@);
        }
        lemma_index_of_token(t2, token, idx);
    }
}

} // verus!
