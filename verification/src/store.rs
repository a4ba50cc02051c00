//! The keyed URL record store: an in-memory table with the contract the
//! persistence engine must satisfy — token and id uniqueness, records
//! ordered newest first, and an atomic per-record click counter.

use vstd::prelude::*;
use crate::errors::AppError;

verus! {

/// One stored mapping from token to destination URL plus metadata.
/// Timestamps are whole seconds since the Unix epoch; `click_count`
/// is non-negative and only ever grows.
#[derive(Debug)]
pub struct UrlRecord {
    pub id: String,
    pub token: String,
    pub original_url: String,
    pub title: Option<String>,
    pub created_at: i64,
    pub expires_at: i64,
    pub click_count: i64,
}

/// No two records share a token.
pub open spec fn tokens_unique(s: Seq<UrlRecord>) -> bool {
    forall|i: int, j: int|
        0 <= i < j < s.len() ==> (#[trigger] s[i].token@) != (#[trigger] s[j].token@)
}

/// No two records share an id.
pub open spec fn ids_unique(s: Seq<UrlRecord>) -> bool {
    forall|i: int, j: int|
        0 <= i < j < s.len() ==> (#[trigger] s[i].id@) != (#[trigger] s[j].id@)
}

/// Records are ordered by creation time descending: newest first.
pub open spec fn newest_first(s: Seq<UrlRecord>) -> bool {
    forall|i: int, j: int|
        0 <= i < j < s.len() ==> (#[trigger] s[i].created_at) >= (#[trigger] s[j].created_at)
}

/// Every click counter is non-negative.
pub open spec fn counts_nonneg(s: Seq<UrlRecord>) -> bool {
    forall|i: int| 0 <= i < s.len() ==> (#[trigger] s[i].click_count) >= 0
}

/// Well-formedness of a store's contents.
pub open spec fn store_wf(s: Seq<UrlRecord>) -> bool {
    &&& tokens_unique(s)
    &&& ids_unique(s)
    &&& newest_first(s)
    &&& counts_nonneg(s)
}

/// Some record carries this token.
pub open spec fn has_token(s: Seq<UrlRecord>, token: Seq<char>) -> bool {
    exists|i: int| 0 <= i < s.len() && (#[trigger] s[i].token@) == token
}

/// The index of the record carrying this token; meaningful only when
/// `has_token` holds, and unique when `tokens_unique` holds.
pub open spec fn index_of_token(s: Seq<UrlRecord>, token: Seq<char>) -> int {
    choose|i: int| 0 <= i < s.len() && (#[trigger] s[i].token@) == token
}

/// Some record carries this id.
pub open spec fn has_id(s: Seq<UrlRecord>, id: Seq<char>) -> bool {
    exists|i: int| 0 <= i < s.len() && (#[trigger] s[i].id@) == id
}

/// The record with its click counter advanced by one; the counter
/// saturates at the top of its range rather than overflow.
pub open spec fn incremented(r: UrlRecord) -> UrlRecord {
    UrlRecord {
        click_count: if r.click_count == i64::MAX {
            r.click_count
        } else {
            (r.click_count + 1) as i64
        },
        ..r
    }
}

/// Under token uniqueness, an index whose record carries the token is
/// the index `index_of_token` picks.
pub proof fn lemma_index_of_token(s: Seq<UrlRecord>, token: Seq<char>, i: int)
    requires
        tokens_unique(s),
        0 <= i < s.len(),
        s[i].token@ == token,
    ensures
        has_token(s, token),
        index_of_token(s, token) == i,
{
    assert(has_token(s, token));
    let j = index_of_token(s, token);
    if i < j {
        assert(s[i].token@ != s[j].token@);
    } else if j < i {
        assert(s[j].token@ != s[i].token@);
    }
}

proof fn lemma_insert_preserves_wf(s: Seq<UrlRecord>, k: int, rec: UrlRecord)
    requires
        store_wf(s),
        0 <= k <= s.len(),
        rec.click_count >= 0,
        forall|i: int| 0 <= i < s.len() ==> (#[trigger] s[i].token@) != rec.token@,
        forall|i: int| 0 <= i < s.len() ==> (#[trigger] s[i].id@) != rec.id@,
        forall|i: int| 0 <= i < k ==> (#[trigger] s[i].created_at) >= rec.created_at,
        forall|i: int| k <= i < s.len() ==> (#[trigger] s[i].created_at) <= rec.created_at,
    ensures
        store_wf(s.insert(k, rec)),
{
    let t = s.insert(k, rec);
    s.insert_ensures(k, rec);
    assert forall|i: int| 0 <= i < t.len() implies t[i] == (if i < k {
        s[i]
    } else if i == k {
        rec
    } else {
        s[i - 1]
    }) by {
        if i > k {
            assert(t[(i - 1) + 1] == s[i - 1]);
        }
    }
}

proof fn lemma_remove_preserves_wf(s: Seq<UrlRecord>, k: int)
    requires
        store_wf(s),
        0 <= k < s.len(),
    ensures
        store_wf(s.remove(k)),
{
    s.remove_ensures(k);
    let t = s.remove(k);
    assert forall|i: int| 0 <= i < t.len() implies t[i] == (if i < k {
        s[i]
    } else {
        s[i + 1]
    }) by {
    }
}

/// Under token uniqueness, removing the record that carries a token
/// leaves no record with that token.
pub proof fn lemma_remove_token_gone(s: Seq<UrlRecord>, token: Seq<char>)
    requires
        tokens_unique(s),
        has_token(s, token),
    ensures
        !has_token(s.remove(index_of_token(s, token)), token),
{
    let k = index_of_token(s, token);
    s.remove_ensures(k);
    let t = s.remove(k);
    assert forall|i: int| 0 <= i < t.len() implies t[i].token@ != token by {
        if i < k {
            lemma_index_of_token(s, token, k);
            assert(t[i] == s[i]);
            if s[i].token@ == token {
                assert(s[i].token@ != s[k].token@);
            }
        } else {
            assert(t[i] == s[i + 1]);
            if s[i + 1].token@ == token {
                assert(s[k].token@ != s[i + 1].token@);
            }
        }
    }
}

proof fn lemma_update_incremented_preserves_wf(s: Seq<UrlRecord>, k: int)
    requires
        store_wf(s),
        0 <= k < s.len(),
    ensures
        store_wf(s.update(k, incremented(s[k]))),
{
}

/// Compares two strings by their character sequences.
fn str_eq(a: &str, b: &str) -> (r: bool)
    ensures
        r == (a@ == b@),
{
    let la = a.unicode_len();
    let lb = b.unicode_len();
    if la != lb {
        return false;
    }
    let mut i: usize = 0;
    while i < la
        invariant
            la == a@.len(),
            la == b@.len(),
            i <= la,
            forall|j: int| 0 <= j < i ==> a@[j] == b@[j],
        decreases la - i,
    {
        if a.get_char(i) != b.get_char(i) {
            return false;
        }
        i = i + 1;
    }
    proof {
        assert(a@ =~= b@);
    }
    true
}

/// Durable keyed storage for URL records. Each operation is a single
/// transaction: it either completes in full or leaves the store
/// untouched.
#[derive(Debug)]
pub struct UrlStore {
    records: Vec<UrlRecord>,
}

impl View for UrlStore {
    type V = Seq<UrlRecord>;

    closed spec fn view(&self) -> Seq<UrlRecord> {
        self.records@
    }
}

impl UrlStore {
    /// Well-formedness: unique tokens, unique ids, newest first,
    /// non-negative counters. Every operation preserves it.
    pub open spec fn wf(&self) -> bool {
        store_wf(self@)
    }

    /// An empty store.
    pub fn new() -> (s: UrlStore)
        ensures
            s.wf(),
            s@.len() == 0,
    {
        UrlStore { records: Vec::new() }
    }

    /// How many records the store holds.
    pub fn len(&self) -> (n: usize)
        ensures
            n == self@.len(),
    {
        self.records.len()
    }

    /// Persists a record. Fails with a store error when its token or id
    /// is already taken, leaving the store unchanged; otherwise the
    /// record enters at the position its creation time orders it to.
    pub fn insert(&mut self, rec: UrlRecord) -> (r: Result<(), AppError>)
        requires
            old(self).wf(),
            rec.click_count >= 0,
        ensures
            final(self).wf(),
            (has_token(old(self)@, rec.token@) || has_id(old(self)@, rec.id@)) ==> (r matches Err(
                AppError::DatabaseError(_),
            ) && final(self)@ == old(self)@),
            !(has_token(old(self)@, rec.token@) || has_id(old(self)@, rec.id@)) ==> (r is Ok
                && (exists|k: int|
                0 <= k <= old(self)@.len() && final(self)@ == old(self)@.insert(k, rec))),
    {
        let n = self.records.len();
        let mut i: usize = 0;
        while i < n
            invariant
                old(self).wf(),
                n == self.records@.len(),
                i <= n,
                *self == *old(self),
                forall|j: int| 0 <= j < i ==> (#[trigger] self.records@[j].token@) != rec.token@,
                forall|j: int| 0 <= j < i ==> (#[trigger] self.records@[j].id@) != rec.id@,
            decreases n - i,
        {
            if str_eq(self.records[i].token.as_str(), rec.token.as_str()) || str_eq(
                self.records[i].id.as_str(),
                rec.id.as_str(),
            ) {
                return Err(AppError::DatabaseError(String::from_str(
                    "UNIQUE constraint failed",
                )));
            }
            i = i + 1;
        }
        let mut k: usize = 0;
        while k < n && self.records[k].created_at >= rec.created_at
            invariant
                old(self).wf(),
                n == self.records@.len(),
                k <= n,
                *self == *old(self),
                forall|j: int| 0 <= j < k ==> (#[trigger] self.records@[j].created_at)
                    >= rec.created_at,
            decreases n - k,
        {
            k = k + 1;
        }
        proof {
            assert forall|j: int| k <= j < self.records@.len() implies (#[trigger] self.records@[
                j
            ].created_at) <= rec.created_at by {
                if j > k {
                    assert(self.records@[k as int].created_at >= self.records@[j].created_at);
                }
            }
            lemma_insert_preserves_wf(self.records@, k as int, rec);
        }
        self.records.insert(k, rec);
        Ok(())
    }

    /// Exact-match lookup by token; absence is a normal `None`.
    pub fn get_by_token(&self, token: &str) -> (r: Option<&UrlRecord>)
        requires
            self.wf(),
        ensures
            match r {
                Some(rec) => has_token(self@, token@) && *rec == self@[index_of_token(
                    self@,
                    token@,
                )],
                None => !has_token(self@, token@),
            },
    {
        let n = self.records.len();
        let mut i: usize = 0;
        while i < n
            invariant
                self.wf(),
                n == self.records@.len(),
                i <= n,
                forall|j: int| 0 <= j < i ==> (#[trigger] self.records@[j].token@) != token@,
            decreases n - i,
        {
            if str_eq(self.records[i].token.as_str(), token) {
                proof {
                    lemma_index_of_token(self@, token@, i as int);
                }
                return Some(&self.records[i]);
            }
            i = i + 1;
        }
        None
    }

    /// A snapshot of every record, newest first.
    pub fn list_all(&self) -> (r: &Vec<UrlRecord>)
        ensures
            r@ == self@,
    {
        &self.records
    }

    /// Atomically advances the click counter of the record carrying the
    /// token by one (saturating at the top of its range), touching no
    /// other field and no other record. Answers with the number of
    /// records affected: zero when no record matched.
    pub fn increment_click_count(&mut self, token: &str) -> (rows: u64)
        requires
            old(self).wf(),
        ensures
            final(self).wf(),
            !has_token(old(self)@, token@) ==> rows == 0 && final(self)@ == old(self)@,
            has_token(old(self)@, token@) ==> rows == 1 && final(self)@ == old(self)@.update(
                index_of_token(old(self)@, token@),
                incremented(old(self)@[index_of_token(old(self)@, token@)]),
            ),
    {
        let n = self.records.len();
        let mut i: usize = 0;
        while i < n
            invariant
                old(self).wf(),
                n == self.records@.len(),
                i <= n,
                *self == *old(self),
                forall|j: int| 0 <= j < i ==> (#[trigger] self.records@[j].token@) != token@,
            decreases n - i,
        {
            if str_eq(self.records[i].token.as_str(), token) {
                proof {
                    lemma_index_of_token(self@, token@, i as int);
                    lemma_update_incremented_preserves_wf(self@, i as int);
                }
                let cur = self.records[i].click_count;
                let newv: i64 = if cur == i64::MAX {
                    cur
                } else {
                    cur + 1
                };
                self.records[i].click_count = newv;
                return 1;
            }
            i = i + 1;
        }
        0
    }

    /// Unconditional hard delete of the record carrying the token.
    /// Answers with the number of records affected: zero when no record
    /// matched, which is not an error.
    pub fn delete_by_token(&mut self, token: &str) -> (rows: u64)
        requires
            old(self).wf(),
        ensures
            final(self).wf(),
            !has_token(old(self)@, token@) ==> rows == 0 && final(self)@ == old(self)@,
            has_token(old(self)@, token@) ==> rows == 1 && final(self)@ == old(self)@.remove(
                index_of_token(old(self)@, token@),
            ),
    {
        let n = self.records.len();
        let mut i: usize = 0;
        while i < n
            invariant
                old(self).wf(),
                n == self.records@.len(),
                i <= n,
                *self == *old(self),
                forall|j: int| 0 <= j < i ==> (#[trigger] self.records@[j].token@) != token@,
            decreases n - i,
        {
            if str_eq(self.records[i].token.as_str(), token) {
                proof {
                    lemma_index_of_token(self@, token@, i as int);
                    lemma_remove_preserves_wf(self@, i as int);
                }
                self.records.remove(i);
                return 1;
            }
            i = i + 1;
        }
        0
    }
}

} // verus!
