//! The token store: bearer credentials with an optional expiry, at most one
//! row per token value.  Adding an existing token replaces its row; a token is
//! allowed exactly when it is stored and its expiry, if any, has not passed.

use vstd::prelude::*;

use crate::ttl::{
    convert_to_ttl_at, micros_in_range, now_micros, spec_expired, spec_expiry_of,
    spec_to_absolute, ttl_expired_at,
};

verus! {

/// A bearer credential gating write access.  `ttl` is an optional absolute
/// expiry instant in microseconds; `None` means the token never expires.
#[derive(Debug)]
pub struct Token {
    pub token: String,
    pub ttl: Option<i64>,
}

/// The first stored row whose key equals `key`, if any.
pub open spec fn find_token(rows: Seq<Token>, key: Seq<char>) -> Option<Token>
    decreases rows.len(),
{
    if rows.len() == 0 {
        None
    } else if rows[0].token@ == key {
        Some(rows[0])
    } else {
        find_token(rows.drop_first(), key)
    }
}

/// At most one row per token value.
pub open spec fn token_rows_wf(rows: Seq<Token>) -> bool {
    forall|i: int, j: int|
        0 <= i < j < rows.len() ==> rows[i].token@ != rows[j].token@
}

/// No row before index `i` carries `key`.
pub open spec fn no_token_before(rows: Seq<Token>, key: Seq<char>, i: int) -> bool {
    forall|j: int| 0 <= j < i ==> rows[j].token@ != key
}

/// The index of the first row carrying `key`, or the length if there is none.
pub open spec fn first_token_index(rows: Seq<Token>, key: Seq<char>) -> int
    decreases rows.len(),
{
    if rows.len() == 0 {
        0
    } else if rows[0].token@ == key {
        0
    } else {
        1 + first_token_index(rows.drop_first(), key)
    }
}

/// `isTokenAllowed` over the store contents at time `now`: the token is
/// stored and its expiry, if set, has not passed.
pub open spec fn spec_token_allowed(rows: Seq<Token>, key: Seq<char>, now: i64) -> bool {
    match find_token(rows, key) {
        None => false,
        Some(t) => match t.ttl {
            None => true,
            Some(v) => !spec_expired(v, now),
        },
    }
}

proof fn lemma_first_token_index(rows: Seq<Token>, key: Seq<char>)
    ensures
        0 <= first_token_index(rows, key) <= rows.len(),
        no_token_before(rows, key, first_token_index(rows, key)),
        first_token_index(rows, key) < rows.len() ==> rows[first_token_index(rows, key)].token@
            == key && find_token(rows, key) == Some(rows[first_token_index(rows, key)]),
        first_token_index(rows, key) == rows.len() ==> find_token(rows, key) is None,
    decreases rows.len(),
{
    if rows.len() == 0 {
    } else if rows[0].token@ == key {
    } else {
        let sub = rows.drop_first();
        lemma_first_token_index(sub, key);
        assert forall|m: int| 0 <= m < sub.len() implies sub[m] == rows[m + 1] by {}
        assert forall|j: int|
            0 <= j < 1 + first_token_index(sub, key) implies rows[j].token@ != key by {
            if j >= 1 {
                assert(sub[j - 1] == rows[j]);
                assert(sub[j - 1].token@ != key);
            }
        }
    }
}

/// With `key` first found at `i` (a match at `i`, none before), `find_token`
/// returns exactly the row at `i`.
proof fn lemma_find_token_at(rows: Seq<Token>, key: Seq<char>, i: int)
    requires
        0 <= i < rows.len(),
        rows[i].token@ == key,
        no_token_before(rows, key, i),
    ensures
        first_token_index(rows, key) == i,
        find_token(rows, key) == Some(rows[i]),
{
    lemma_first_token_index(rows, key);
    let fi = first_token_index(rows, key);
    if fi < i {
        assert(rows[fi].token@ != key);
    } else if fi > i {
        assert(rows[i].token@ != key);
    }
}

/// If no row carries `key`, `find_token` is `None`.
proof fn lemma_find_token_absent(rows: Seq<Token>, key: Seq<char>)
    requires
        forall|i: int| 0 <= i < rows.len() ==> rows[i].token@ != key,
    ensures
        find_token(rows, key) is None,
{
    lemma_first_token_index(rows, key);
}

/// Removing the row at `i` from a well-formed store removes its key and
/// leaves every other key's row unchanged.
proof fn lemma_remove_token_row(rows: Seq<Token>, i: int)
    requires
        token_rows_wf(rows),
        0 <= i < rows.len(),
    ensures
        token_rows_wf(rows.remove(i)),
        find_token(rows.remove(i), rows[i].token@) is None,
        forall|k: Seq<char>|
            k != rows[i].token@ ==> #[trigger] find_token(rows.remove(i), k) == find_token(
                rows,
                k,
            ),
{
    let rows2 = rows.remove(i);
    rows.remove_ensures(i);
    assert forall|m: int| 0 <= m < rows2.len() implies rows2[m].token@ != rows[i].token@ by {
        if m < i {
            assert(rows2[m] == rows[m]);
        } else {
            assert(rows2[m] == rows[m + 1]);
        }
    }
    lemma_find_token_absent(rows2, rows[i].token@);
    assert forall|k: Seq<char>|
        k != rows[i].token@ implies #[trigger] find_token(rows2, k) == find_token(rows, k) by {
        lemma_first_token_index(rows, k);
        let f1 = first_token_index(rows, k);
        if f1 == rows.len() {
            assert forall|m: int| 0 <= m < rows2.len() implies rows2[m].token@ != k by {
                if m < i {
                    assert(rows2[m] == rows[m]);
                } else {
                    assert(rows2[m] == rows[m + 1]);
                }
            }
            lemma_find_token_absent(rows2, k);
        } else if f1 < i {
            assert(rows2[f1] == rows[f1]);
            assert forall|j: int| 0 <= j < f1 implies rows2[j].token@ != k by {
                assert(rows2[j] == rows[j]);
            }
            lemma_find_token_at(rows2, k, f1);
        } else {
            // f1 != i since rows[f1] carries k and rows[i] does not.
            assert(f1 > i);
            assert(rows2[f1 - 1] == rows[f1]);
            assert forall|j: int| 0 <= j < f1 - 1 implies rows2[j].token@ != k by {
                if j < i {
                    assert(rows2[j] == rows[j]);
                } else {
                    assert(rows2[j] == rows[j + 1]);
                }
            }
            lemma_find_token_at(rows2, k, f1 - 1);
        }
    }
}

/// Appending a row whose key is absent makes that key found and leaves every
/// other key's row unchanged.
proof fn lemma_push_token_row(rows: Seq<Token>, t: Token)
    requires
        find_token(rows, t.token@) is None,
    ensures
        find_token(rows.push(t), t.token@) == Some(t),
        forall|k: Seq<char>|
            k != t.token@ ==> #[trigger] find_token(rows.push(t), k) == find_token(rows, k),
        token_rows_wf(rows) ==> token_rows_wf(rows.push(t)),
{
    let rows2 = rows.push(t);
    lemma_first_token_index(rows, t.token@);
    assert(first_token_index(rows, t.token@) == rows.len());
    assert(rows2[rows.len() as int] == t);
    lemma_find_token_at(rows2, t.token@, rows.len() as int);
    assert forall|k: Seq<char>|
        k != t.token@ implies #[trigger] find_token(rows2, k) == find_token(rows, k) by {
        lemma_first_token_index(rows, k);
        let f1 = first_token_index(rows, k);
        if f1 == rows.len() {
            assert forall|m: int| 0 <= m < rows2.len() implies rows2[m].token@ != k by {
                if m < rows.len() {
                    assert(rows2[m] == rows[m]);
                } else {
                    assert(rows2[m] == t);
                }
            }
            lemma_find_token_absent(rows2, k);
        } else {
            assert(rows2[f1] == rows[f1]);
            assert forall|j: int| 0 <= j < f1 implies rows2[j].token@ != k by {
                assert(rows2[j] == rows[j]);
            }
            lemma_find_token_at(rows2, k, f1);
        }
    }
}

/// The in-memory token store.  Rows are kept unique by token value.
pub struct TokenStore {
    rows: Vec<Token>,
}

impl View for TokenStore {
    type V = Seq<Token>;

    closed spec fn view(&self) -> Seq<Token> {
        self.rows@
    }
}

impl TokenStore {
    /// At most one stored row per token value.
    pub open spec fn wf(&self) -> bool {
        token_rows_wf(self@)
    }

    /// An empty store.
    pub fn new() -> (r: TokenStore)
        ensures
            r.wf(),
            r@ == Seq::<Token>::empty(),
    {
        TokenStore { rows: Vec::new() }
    }

    /// The index of the row carrying `token`, if one is stored.
    fn find_index(&self, token: &str) -> (r: Option<usize>)
        ensures
            match r {
                Some(i) => i < self@.len() && self@[i as int].token@ == token@ && find_token(
                    self@,
                    token@,
                ) == Some(self@[i as int]),
                None => find_token(self@, token@) is None,
            },
    {
        let key = token.to_owned();
        let n = self.rows.len();
        let mut i: usize = 0;
        while i < n
            invariant
                n == self@.len(),
                0 <= i <= n,
                key@ == token@,
                no_token_before(self@, token@, i as int),
            decreases n - i,
        {
            if self.rows[i].token == key {
                proof {
                    lemma_find_token_at(self@, token@, i as int);
                }
                return Some(i);
            }
            i = i + 1;
        }
        proof {
            lemma_find_token_absent(self@, token@);
        }
        None
    }

    /// `locateToken`: the stored row for `token`, exactly as stored.
    pub fn locate_token(&self, token: &str) -> (r: Option<Token>)
        ensures
            r == find_token(self@, token@),
    {
        match self.find_index(token) {
            Some(i) => {
                let row = &self.rows[i];
                let out = Token { token: row.token.clone(), ttl: row.ttl };
                proof {
                    assert(out == self@[i as int]);
                }
                Some(out)
            },
            None => None,
        }
    }

    /// `removeToken`: deletes the row for `token` if present; a no-op
    /// otherwise.  No other row changes.
    pub fn remove_token(&mut self, token: &str)
        requires
            old(self).wf(),
        ensures
            final(self).wf(),
            find_token(final(self)@, token@) is None,
            forall|k: Seq<char>|
                k != token@ ==> #[trigger] find_token(final(self)@, k) == find_token(
                    old(self)@,
                    k,
                ),
    {
        match self.find_index(token) {
            Some(i) => {
                proof {
                    lemma_remove_token_row(self@, i as int);
                }
                self.rows.remove(i);
            },
            None => {},
        }
    }

    /// `addToken` against an explicit clock value: any existing row for
    /// `token` is replaced; the new row's expiry is `now + seconds`, or
    /// absent when no duration is given.  No other row changes.
    pub fn add_token_at(&mut self, token: &str, seconds: Option<i64>, now: i64)
        requires
            old(self).wf(),
        ensures
            final(self).wf(),
            find_token(final(self)@, token@) matches Some(t) && t.token@ == token@ && t.ttl
                == spec_expiry_of(now, seconds),
            forall|k: Seq<char>|
                k != token@ ==> #[trigger] find_token(final(self)@, k) == find_token(
                    old(self)@,
                    k,
                ),
    {
        let ttl = match seconds {
            Some(s) => Some(convert_to_ttl_at(s, now)),
            None => None,
        };
        self.remove_token(token);
        let row = Token { token: token.to_owned(), ttl };
        proof {
            lemma_push_token_row(self@, row);
        }
        self.rows.push(row);
    }

    /// `addToken`: as `add_token_at`, at the current time.
    pub fn add_token(&mut self, token: &str, seconds: Option<i64>)
        requires
            old(self).wf(),
        ensures
            final(self).wf(),
            find_token(final(self)@, token@) matches Some(t) && t.token@ == token@ && (t.ttl
                is None <==> seconds is None),
            forall|k: Seq<char>|
                k != token@ ==> #[trigger] find_token(final(self)@, k) == find_token(
                    old(self)@,
                    k,
                ),
            exists|now: i64|
                find_token(final(self)@, token@) matches Some(t) && t.ttl == #[trigger]
                    spec_expiry_of(now, seconds),
    {
        let now = now_micros();
        self.add_token_at(token, seconds, now);
        proof {
            assert(find_token(self@, token@) matches Some(t) && t.ttl == spec_expiry_of(
                now,
                seconds,
            ));
        }
    }

    /// `isTokenAllowed` against an explicit clock value.
    pub fn token_allowed_at(&self, token: &str, now: i64) -> (r: bool)
        ensures
            r == spec_token_allowed(self@, token@, now),
    {
        match self.locate_token(token) {
            None => false,
            Some(t) => match t.ttl {
                None => true,
                Some(v) => !ttl_expired_at(v, now),
            },
        }
    }

    /// `isTokenAllowed`: false for an absent token, true for a stored token
    /// without expiry, false for one whose stored instant is unparseable;
    /// otherwise decided by the clock.
    pub fn token_allowed(&self, token: &str) -> (r: bool)
        ensures
            find_token(self@, token@) is None ==> !r,
            find_token(self@, token@) matches Some(t) && t.ttl is None ==> r,
            find_token(self@, token@) matches Some(t) && t.ttl matches Some(v)
                && !micros_in_range(v) ==> !r,
            exists|now: i64| r == #[trigger] spec_token_allowed(self@, token@, now),
    {
        let now = now_micros();
        let r = self.token_allowed_at(token, now);
        proof {
            assert(r == spec_token_allowed(self@, token@, now));
        }
        r
    }

    /// `listTokens`: a snapshot of all rows, in storage order.
    pub fn list_token(&self) -> (r: Vec<Token>)
        ensures
            r@ == self@,
    {
        let mut out: Vec<Token> = Vec::new();
        let n = self.rows.len();
        let mut i: usize = 0;
        while i < n
            invariant
                n == self@.len(),
                0 <= i <= n,
                out@ == self@.subrange(0, i as int),
            decreases n - i,
        {
            let row = &self.rows[i];
            let copy = Token { token: row.token.clone(), ttl: row.ttl };
            proof {
                assert(copy == self@[i as int]);
                assert(self@.subrange(0, i as int).push(self@[i as int]) =~= self@.subrange(
                    0,
                    i as int + 1,
                ));
            }
            out.push(copy);
            i = i + 1;
        }
        proof {
            assert(self@.subrange(0, n as int) =~= self@);
        }
        out
    }
}

/// Law: a token the store does not hold is never allowed — in particular
/// immediately after `remove_token` of that token, and before any `add_token`
/// of it.
pub proof fn lemma_absent_token_not_allowed(rows: Seq<Token>, key: Seq<char>, now: i64)
    requires
        find_token(rows, key) is None,
    ensures
        !spec_token_allowed(rows, key, now),
{
}

/// Law: a stored token without an expiry is allowed at every time.
pub proof fn lemma_unexpiring_token_always_allowed(rows: Seq<Token>, key: Seq<char>, now: i64)
    requires
        find_token(rows, key) matches Some(t) && t.ttl is None,
    ensures
        spec_token_allowed(rows, key, now),
{
}

/// Law: a token stored with a zero or negative duration is already expired
/// when it is added, so it is not allowed then or at any later time.
pub proof fn lemma_nonpositive_duration_token_not_allowed(
    rows: Seq<Token>,
    key: Seq<char>,
    seconds: i64,
    added_at: i64,
    now: i64,
)
    requires
        seconds <= 0,
        now >= added_at,
        find_token(rows, key) matches Some(t) && t.ttl == Some(spec_to_absolute(added_at, seconds)),
    ensures
        !spec_token_allowed(rows, key, now),
{
    assert(seconds * 1_000_000 <= 0) by (nonlinear_arith)
        requires
            seconds <= 0,
    ;
}

} // verus!
