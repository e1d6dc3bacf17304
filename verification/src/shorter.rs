//! The shorter store: short-path to target-URL mappings with an optional
//! expiry, at most one row per path.  Inserting an existing path replaces its
//! row; every read through `get_shorter` treats an expired row as absent.

use vstd::prelude::*;

use crate::ttl::{
    convert_to_ttl_at, micros_in_range, now_micros, spec_expired, spec_expiry_of, ttl_expired_at,
};

verus! {

/// A short-path to target-URL mapping.  `ttl` is an optional absolute expiry
/// instant in microseconds; `None` means the mapping never expires.
#[derive(Debug)]
pub struct Shorter {
    pub path: String,
    pub url: String,
    pub ttl: Option<i64>,
}

/// The first stored row whose path equals `key`, if any.
pub open spec fn find_shorter(rows: Seq<Shorter>, key: Seq<char>) -> Option<Shorter>
    decreases rows.len(),
{
    if rows.len() == 0 {
        None
    } else if rows[0].path@ == key {
        Some(rows[0])
    } else {
        find_shorter(rows.drop_first(), key)
    }
}

/// At most one row per path.
pub open spec fn shorter_rows_wf(rows: Seq<Shorter>) -> bool {
    forall|i: int, j: int| 0 <= i < j < rows.len() ==> rows[i].path@ != rows[j].path@
}

/// No row before index `i` carries `key`.
pub open spec fn no_shorter_before(rows: Seq<Shorter>, key: Seq<char>, i: int) -> bool {
    forall|j: int| 0 <= j < i ==> rows[j].path@ != key
}

/// The index of the first row carrying `key`, or the length if there is none.
pub open spec fn first_shorter_index(rows: Seq<Shorter>, key: Seq<char>) -> int
    decreases rows.len(),
{
    if rows.len() == 0 {
        0
    } else if rows[0].path@ == key {
        0
    } else {
        1 + first_shorter_index(rows.drop_first(), key)
    }
}

/// `getShorter` over the store contents at time `now`: the stored row, unless
/// its expiry has passed, in which case the path resolves to nothing.
pub open spec fn spec_get_shorter(rows: Seq<Shorter>, key: Seq<char>, now: i64) -> Option<Shorter> {
    match find_shorter(rows, key) {
        None => None,
        Some(s) => match s.ttl {
            None => Some(s),
            Some(v) => if spec_expired(v, now) {
                None
            } else {
                Some(s)
            },
        },
    }
}

proof fn lemma_first_shorter_index(rows: Seq<Shorter>, key: Seq<char>)
    ensures
        0 <= first_shorter_index(rows, key) <= rows.len(),
        no_shorter_before(rows, key, first_shorter_index(rows, key)),
        first_shorter_index(rows, key) < rows.len() ==> rows[first_shorter_index(
            rows,
            key,
        )].path@ == key && find_shorter(rows, key) == Some(
            rows[first_shorter_index(rows, key)],
        ),
        first_shorter_index(rows, key) == rows.len() ==> find_shorter(rows, key) is None,
    decreases rows.len(),
{
    if rows.len() == 0 {
    } else if rows[0].path@ == key {
    } else {
        let sub = rows.drop_first();
        lemma_first_shorter_index(sub, key);
        assert forall|m: int| 0 <= m < sub.len() implies sub[m] == rows[m + 1] by {}
        assert forall|j: int|
            0 <= j < 1 + first_shorter_index(sub, key) implies rows[j].path@ != key by {
            if j >= 1 {
                assert(sub[j - 1] == rows[j]);
                assert(sub[j - 1].path@ != key);
            }
        }
    }
}

/// With `key` first found at `i` (a match at `i`, none before),
/// `find_shorter` returns exactly the row at `i`.
proof fn lemma_find_shorter_at(rows: Seq<Shorter>, key: Seq<char>, i: int)
    requires
        0 <= i < rows.len(),
        rows[i].path@ == key,
        no_shorter_before(rows, key, i),
    ensures
        first_shorter_index(rows, key) == i,
        find_shorter(rows, key) == Some(rows[i]),
{
    lemma_first_shorter_index(rows, key);
    let fi = first_shorter_index(rows, key);
    if fi < i {
        assert(rows[fi].path@ != key);
    } else if fi > i {
        assert(rows[i].path@ != key);
    }
}

/// If no row carries `key`, `find_shorter` is `None`.
proof fn lemma_find_shorter_absent(rows: Seq<Shorter>, key: Seq<char>)
    requires
        forall|i: int| 0 <= i < rows.len() ==> rows[i].path@ != key,
    ensures
        find_shorter(rows, key) is None,
{
    lemma_first_shorter_index(rows, key);
}

/// Removing the row at `i` from a well-formed store removes its path and
/// leaves every other path's row unchanged.
proof fn lemma_remove_shorter_row(rows: Seq<Shorter>, i: int)
    requires
        shorter_rows_wf(rows),
        0 <= i < rows.len(),
    ensures
        shorter_rows_wf(rows.remove(i)),
        find_shorter(rows.remove(i), rows[i].path@) is None,
        forall|k: Seq<char>|
            k != rows[i].path@ ==> #[trigger] find_shorter(rows.remove(i), k) == find_shorter(
                rows,
                k,
            ),
{
    let rows2 = rows.remove(i);
    rows.remove_ensures(i);
    assert forall|m: int| 0 <= m < rows2.len() implies rows2[m].path@ != rows[i].path@ by {
        if m < i {
            assert(rows2[m] == rows[m]);
        } else {
            assert(rows2[m] == rows[m + 1]);
        }
    }
    lemma_find_shorter_absent(rows2, rows[i].path@);
    assert forall|k: Seq<char>|
        k != rows[i].path@ implies #[trigger] find_shorter(rows2, k) == find_shorter(rows, k) by {
        lemma_first_shorter_index(rows, k);
        let f1 = first_shorter_index(rows, k);
        if f1 == rows.len() {
            assert forall|m: int| 0 <= m < rows2.len() implies rows2[m].path@ != k by {
                if m < i {
                    assert(rows2[m] == rows[m]);
                } else {
                    assert(rows2[m] == rows[m + 1]);
                }
            }
            lemma_find_shorter_absent(rows2, k);
        } else if f1 < i {
            assert(rows2[f1] == rows[f1]);
            assert forall|j: int| 0 <= j < f1 implies rows2[j].path@ != k by {
                assert(rows2[j] == rows[j]);
            }
            lemma_find_shorter_at(rows2, k, f1);
        } else {
            assert(f1 > i);
            assert(rows2[f1 - 1] == rows[f1]);
            assert forall|j: int| 0 <= j < f1 - 1 implies rows2[j].path@ != k by {
                if j < i {
                    assert(rows2[j] == rows[j]);
                } else {
                    assert(rows2[j] == rows[j + 1]);
                }
            }
            lemma_find_shorter_at(rows2, k, f1 - 1);
        }
    }
}

/// Appending a row whose path is absent makes that path found and leaves
/// every other path's row unchanged.
proof fn lemma_push_shorter_row(rows: Seq<Shorter>, t: Shorter)
    requires
        find_shorter(rows, t.path@) is None,
    ensures
        find_shorter(rows.push(t), t.path@) == Some(t),
        forall|k: Seq<char>|
            k != t.path@ ==> #[trigger] find_shorter(rows.push(t), k) == find_shorter(rows, k),
        shorter_rows_wf(rows) ==> shorter_rows_wf(rows.push(t)),
{
    let rows2 = rows.push(t);
    lemma_first_shorter_index(rows, t.path@);
    assert(first_shorter_index(rows, t.path@) == rows.len());
    assert(rows2[rows.len() as int] == t);
    lemma_find_shorter_at(rows2, t.path@, rows.len() as int);
    assert forall|k: Seq<char>|
        k != t.path@ implies #[trigger] find_shorter(rows2, k) == find_shorter(rows, k) by {
        lemma_first_shorter_index(rows, k);
        let f1 = first_shorter_index(rows, k);
        if f1 == rows.len() {
            assert forall|m: int| 0 <= m < rows2.len() implies rows2[m].path@ != k by {
                if m < rows.len() {
                    assert(rows2[m] == rows[m]);
                } else {
                    assert(rows2[m] == t);
                }
            }
            lemma_find_shorter_absent(rows2, k);
        } else {
            assert(rows2[f1] == rows[f1]);
            assert forall|j: int| 0 <= j < f1 implies rows2[j].path@ != k by {
                assert(rows2[j] == rows[j]);
            }
            lemma_find_shorter_at(rows2, k, f1);
        }
    }
}

/// The in-memory shorter store.  Rows are kept unique by path.
pub struct ShorterStore {
    rows: Vec<Shorter>,
}

impl View for ShorterStore {
    type V = Seq<Shorter>;

    closed spec fn view(&self) -> Seq<Shorter> {
        self.rows@
    }
}

impl ShorterStore {
    /// At most one stored row per path.
    pub open spec fn wf(&self) -> bool {
        shorter_rows_wf(self@)
    }

    /// An empty store.
    pub fn new() -> (r: ShorterStore)
        ensures
            r.wf(),
            r@ == Seq::<Shorter>::empty(),
    {
        ShorterStore { rows: Vec::new() }
    }

    /// The index of the row carrying `path`, if one is stored.
    fn find_index(&self, path: &str) -> (r: Option<usize>)
        ensures
            match r {
                Some(i) => i < self@.len() && self@[i as int].path@ == path@ && find_shorter(
                    self@,
                    path@,
                ) == Some(self@[i as int]),
                None => find_shorter(self@, path@) is None,
            },
    {
        let key = path.to_owned();
        let n = self.rows.len();
        let mut i: usize = 0;
        while i < n
            invariant
                n == self@.len(),
                0 <= i <= n,
                key@ == path@,
                no_shorter_before(self@, path@, i as int),
            decreases n - i,
        {
            if self.rows[i].path == key {
                proof {
                    lemma_find_shorter_at(self@, path@, i as int);
                }
                return Some(i);
            }
            i = i + 1;
        }
        proof {
            lemma_find_shorter_absent(self@, path@);
        }
        None
    }

    /// `locateShorter`: the stored row for `path`, exactly as stored, with no
    /// expiry filter applied.
    pub fn locate_shorter(&self, path: &str) -> (r: Option<Shorter>)
        ensures
            r == find_shorter(self@, path@),
    {
        match self.find_index(path) {
            Some(i) => {
                let row = &self.rows[i];
                let out = Shorter { path: row.path.clone(), url: row.url.clone(), ttl: row.ttl };
                proof {
                    assert(out == self@[i as int]);
                }
                Some(out)
            },
            None => None,
        }
    }

    /// `removeShorter`: deletes the row for `path` if present; a no-op
    /// otherwise.  No other row changes.
    pub fn remove_shorter(&mut self, path: &str)
        requires
            old(self).wf(),
        ensures
            final(self).wf(),
            find_shorter(final(self)@, path@) is None,
            forall|k: Seq<char>|
                k != path@ ==> #[trigger] find_shorter(final(self)@, k) == find_shorter(
                    old(self)@,
                    k,
                ),
    {
        match self.find_index(path) {
            Some(i) => {
                proof {
                    lemma_remove_shorter_row(self@, i as int);
                }
                self.rows.remove(i);
            },
            None => {},
        }
    }

    /// `insertShorter` against an explicit clock value: any existing row for
    /// `path` is replaced; the new row stores `url` and the expiry `now +
    /// seconds`, or no expiry when no duration is given.  No other row
    /// changes.
    pub fn insert_shorter_at(&mut self, path: &str, url: &str, seconds: Option<i64>, now: i64)
        requires
            old(self).wf(),
        ensures
            final(self).wf(),
            find_shorter(final(self)@, path@) matches Some(s) && s.path@ == path@ && s.url@ == url@
                && s.ttl == spec_expiry_of(now, seconds),
            forall|k: Seq<char>|
                k != path@ ==> #[trigger] find_shorter(final(self)@, k) == find_shorter(
                    old(self)@,
                    k,
                ),
    {
        let ttl = match seconds {
            Some(s) => Some(convert_to_ttl_at(s, now)),
            None => None,
        };
        self.remove_shorter(path);
        let row = Shorter { path: path.to_owned(), url: url.to_owned(), ttl };
        proof {
            lemma_push_shorter_row(self@, row);
        }
        self.rows.push(row);
    }

    /// `insertShorter`: as `insert_shorter_at`, at the current time.
    pub fn insert_shorter(&mut self, path: &str, url: &str, seconds: Option<i64>)
        requires
            old(self).wf(),
        ensures
            final(self).wf(),
            find_shorter(final(self)@, path@) matches Some(s) && s.path@ == path@ && s.url@ == url@
                && (s.ttl is None <==> seconds is None),
            forall|k: Seq<char>|
                k != path@ ==> #[trigger] find_shorter(final(self)@, k) == find_shorter(
                    old(self)@,
                    k,
                ),
            exists|now: i64|
                find_shorter(final(self)@, path@) matches Some(s) && s.ttl == #[trigger]
                    spec_expiry_of(now, seconds),
    {
        let now = now_micros();
        self.insert_shorter_at(path, url, seconds, now);
        proof {
            assert(find_shorter(self@, path@) matches Some(s) && s.ttl == spec_expiry_of(
                now,
                seconds,
            ));
        }
    }

    /// `getShorter` against an explicit clock value: the stored row, unless
    /// its expiry has passed.
    pub fn get_shorter_at(&self, path: &str, now: i64) -> (r: Option<Shorter>)
        ensures
            r == spec_get_shorter(self@, path@, now),
    {
        match self.locate_shorter(path) {
            None => None,
            Some(s) => match s.ttl {
                None => Some(s),
                Some(v) => if ttl_expired_at(v, now) {
                    None
                } else {
                    Some(s)
                },
            },
        }
    }

    /// `getShorter`: an absent path resolves to nothing; a stored row without
    /// expiry is always returned, exactly as stored; one whose stored instant
    /// is unparseable never is; otherwise the clock decides.
    pub fn get_shorter(&self, path: &str) -> (r: Option<Shorter>)
        ensures
            find_shorter(self@, path@) is None ==> r is None,
            find_shorter(self@, path@) matches Some(s) ==> (s.ttl is None ==> r == Some(s)),
            find_shorter(self@, path@) matches Some(s) && s.ttl matches Some(v)
                && !micros_in_range(v) ==> r is None,
            r is Some ==> r == find_shorter(self@, path@),
            exists|now: i64| r == #[trigger] spec_get_shorter(self@, path@, now),
    {
        let now = now_micros();
        let r = self.get_shorter_at(path, now);
        proof {
            assert(r == spec_get_shorter(self@, path@, now));
        }
        r
    }
}

/// Law: a mapping just inserted is returned by `get_shorter` exactly as
/// stored — same path, URL and computed expiry — at every time before the
/// expiry passes, and is not returned once it has.
pub proof fn lemma_inserted_shorter_get(
    rows: Seq<Shorter>,
    path: Seq<char>,
    url: Seq<char>,
    seconds: Option<i64>,
    inserted_at: i64,
    now: i64,
)
    requires
        find_shorter(rows, path) matches Some(s) && s.path@ == path && s.url@ == url && s.ttl
            == spec_expiry_of(inserted_at, seconds),
    ensures
        seconds matches Some(d) && spec_expired(spec_expiry_of(inserted_at, seconds).unwrap(), now)
            ==> spec_get_shorter(rows, path, now) is None,
        (seconds is None || !spec_expired(spec_expiry_of(inserted_at, seconds).unwrap(), now))
            ==> (spec_get_shorter(rows, path, now) matches Some(s) && s.path@ == path && s.url@
            == url && s.ttl == spec_expiry_of(inserted_at, seconds)),
{
}

/// Law: once a path is re-inserted with a new URL, no read returns the old
/// one — `get_shorter` yields the new URL or nothing, at every time.
pub proof fn lemma_reinserted_shorter_not_stale(
    rows: Seq<Shorter>,
    path: Seq<char>,
    new_url: Seq<char>,
    old_url: Seq<char>,
    now: i64,
)
    requires
        find_shorter(rows, path) matches Some(s) && s.url@ == new_url,
        old_url != new_url,
    ensures
        !(spec_get_shorter(rows, path, now) matches Some(s) && s.url@ == old_url),
        spec_get_shorter(rows, path, now) matches Some(s) ==> s.url@ == new_url,
{
}

/// Law: a well-formed store never accumulates duplicate rows — two rows with
/// the same path are the same row.
pub proof fn lemma_no_duplicate_paths(rows: Seq<Shorter>, i: int, j: int)
    requires
        shorter_rows_wf(rows),
        0 <= i < rows.len(),
        0 <= j < rows.len(),
        rows[i].path@ == rows[j].path@,
    ensures
        i == j,
{
}

} // verus!
