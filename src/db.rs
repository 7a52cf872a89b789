//! The rank table: every user's running score, guess count and dense rank.

use vstd::prelude::*;

use crate::error::AppError;
use crate::rank::{count_above, dense_rank, first_at, lemma_dense, lemma_rank_bounds};

verus! {

/// One user's standing.
#[derive(Clone, Copy, Debug, PartialEq, Eq, Structural)]
pub struct LeaderBoardRow {
    /// The user's id.
    pub id: i32,
    /// Dense rank by total score, 1 for the best; 0 while not yet ranked.
    pub rank: u64,
    /// The sum of the points of all the user's guesses.
    pub total_score: u64,
    /// How many guesses the user has made.
    pub num_guesses: u64,
}

/// The total scores of the rows, in order.
pub open spec fn scores_of(rows: Seq<LeaderBoardRow>) -> Seq<u64> {
    rows.map_values(|r: LeaderBoardRow| r.total_score)
}

/// No two rows share an id.
pub open spec fn unique_ids(rows: Seq<LeaderBoardRow>) -> bool {
    forall|i: int, j: int|
        0 <= i < rows.len() && 0 <= j < rows.len() && i != j ==> rows[i].id != rows[j].id
}

/// Some row has id `id`.
pub open spec fn has_id(rows: Seq<LeaderBoardRow>, id: i32) -> bool {
    exists|i: int| 0 <= i < rows.len() && rows[i].id == id
}

/// Every row's rank is the dense rank of its total score.
pub open spec fn ranks_consistent(rows: Seq<LeaderBoardRow>) -> bool {
    forall|i: int|
        0 <= i < rows.len() ==> #[trigger] rows[i].rank == dense_rank(scores_of(rows), rows[i].total_score)
}

/// The rows with every rank recomputed from the total scores.
pub open spec fn reranked(rows: Seq<LeaderBoardRow>) -> Seq<LeaderBoardRow> {
    rows.map_values(
        |r: LeaderBoardRow| LeaderBoardRow { rank: dense_rank(scores_of(rows), r.total_score) as u64, ..r },
    )
}

/// The row of user `id` with `score` points and one guess added; the
/// others as they were.
pub open spec fn scored(rows: Seq<LeaderBoardRow>, id: i32, score: u32) -> Seq<LeaderBoardRow> {
    rows.map_values(|r: LeaderBoardRow| if r.id == id {
        LeaderBoardRow {
            total_score: (r.total_score + score) as u64,
            num_guesses: (r.num_guesses + 1) as u64,
            ..r
        }
    } else {
        r
    })
}

/// Adding `score` points and one guess to user `id` fits the counters.
pub open spec fn score_fits(rows: Seq<LeaderBoardRow>, id: i32, score: u32) -> bool {
    forall|i: int| 0 <= i < rows.len() && #[trigger] rows[i].id == id ==>
        rows[i].total_score + score <= u64::MAX && rows[i].num_guesses + 1 <= u64::MAX
}

/// Row `a` comes before row `b` on the leaderboard: by rank, then by id.
pub open spec fn before(a: LeaderBoardRow, b: LeaderBoardRow) -> bool {
    a.rank < b.rank || (a.rank == b.rank && a.id < b.id)
}

/// A row that belongs on a leaderboard of the top `n`.
pub open spec fn in_top(r: LeaderBoardRow, n: int) -> bool {
    1 <= r.rank <= n
}

/// How many rows a leaderboard of the top `num_users` may hold.
pub open spec fn top_limit(num_users: i32) -> int {
    if num_users <= 0 {
        0
    } else {
        num_users as int
    }
}

/// `top` is the leaderboard of the best `n` of `rows`: at most `n` rows,
/// each a row of the table with rank between 1 and `n`, in strictly
/// increasing order of rank and id, and every such row of the table left
/// out comes after all of them.
pub open spec fn is_top(rows: Seq<LeaderBoardRow>, n: int, top: Seq<LeaderBoardRow>) -> bool {
    &&& top.len() <= n
    &&& forall|i: int| 0 <= i < top.len() ==> in_top(#[trigger] top[i], n) && rows.contains(top[i])
    &&& forall|i: int, j: int| 0 <= i < j < top.len() ==> before(top[i], top[j])
    &&& forall|k: int| 0 <= k < rows.len() && in_top(#[trigger] rows[k], n) ==>
        top.contains(rows[k]) || (top.len() == n && before(top.last(), rows[k]))
}

/// What a score update answers: `UserDoesNotExist` for an unknown id,
/// `InternalServerError` where a counter would overflow, success otherwise.
pub open spec fn update_outcome(rows: Seq<LeaderBoardRow>, id: i32, score: u32) -> Result<(), AppError> {
    if !has_id(rows, id) {
        Err(AppError::UserDoesNotExist)
    } else if !score_fits(rows, id, score) {
        Err(AppError::InternalServerError)
    } else {
        Ok(())
    }
}

/// The table after a score update: scored and reranked on success,
/// unchanged on failure.
pub open spec fn update_result(rows: Seq<LeaderBoardRow>, id: i32, score: u32) -> Seq<LeaderBoardRow> {
    if update_outcome(rows, id, score) is Ok {
        reranked(scored(rows, id, score))
    } else {
        rows
    }
}

/// Row `r` comes after the last row of `out`, or `out` is empty.
pub open spec fn after_last(out: Seq<LeaderBoardRow>, r: LeaderBoardRow) -> bool {
    out.len() == 0 || before(out.last(), r)
}

/// Whether row `a` comes before row `b` on the leaderboard.
fn precedes(a: &LeaderBoardRow, b: &LeaderBoardRow) -> (r: bool)
    ensures
        r == before(*a, *b),
{
    a.rank < b.rank || (a.rank == b.rank && a.id < b.id)
}

/// The table of all users' standings. Ids are unique.
pub struct Store {
    rows: Vec<LeaderBoardRow>,
}

impl View for Store {
    type V = Seq<LeaderBoardRow>;

    closed spec fn view(&self) -> Seq<LeaderBoardRow> {
        self.rows@
    }
}

/// A write must change exactly one row; any other count is an integrity
/// failure.
pub fn check_rows_affected(rows_affected: u64) -> (r: Result<(), AppError>)
    ensures
        rows_affected == 1 <==> r is Ok,
        rows_affected != 1 ==> r == Err::<(), AppError>(AppError::InternalServerError),
{
    if rows_affected == 1 {
        Ok(())
    } else {
        Err(AppError::InternalServerError)
    }
}

/// The position of user `id` among `rows`, if any.
fn find_id(rows: &Vec<LeaderBoardRow>, id: i32) -> (r: Option<usize>)
    ensures
        match r {
            Some(i) => i < rows@.len() && rows@[i as int].id == id,
            None => !has_id(rows@, id),
        },
{
    let mut i: usize = 0;
    while i < rows.len()
        invariant
            i <= rows@.len(),
            forall|k: int| 0 <= k < i ==> rows@[k].id != id,
        decreases rows@.len() - i,
    {
        if rows[i].id == id {
            return Some(i);
        }
        i = i + 1;
    }
    None
}

/// Whether each position holds the first occurrence of its score.
fn first_flags(rows: &Vec<LeaderBoardRow>) -> (r: Vec<bool>)
    ensures
        r@.len() == rows@.len(),
        forall|j: int| 0 <= j < rows@.len() ==> r@[j] == first_at(scores_of(rows@), j),
{
    let ghost s = scores_of(rows@);
    let mut flags: Vec<bool> = Vec::new();
    let mut j: usize = 0;
    while j < rows.len()
        invariant
            j <= rows@.len(),
            s == scores_of(rows@),
            flags@.len() == j,
            forall|m: int| 0 <= m < j ==> flags@[m] == first_at(s, m),
        decreases rows@.len() - j,
    {
        let mut first = true;
        let mut k: usize = 0;
        while k < j
            invariant
                j < rows@.len(),
                k <= j,
                s == scores_of(rows@),
                first == (forall|m: int| 0 <= m < k ==> s[m] != s[j as int]),
            decreases j - k,
        {
            assert(s[k as int] == rows@[k as int].total_score && s[j as int] == rows@[j as int].total_score);
            if rows[k].total_score == rows[j].total_score {
                first = false;
            }
            k = k + 1;
        }
        flags.push(first);
        j = j + 1;
    }
    flags
}

/// The rows with every rank set to the dense rank of its total score.
fn rerank(rows: &Vec<LeaderBoardRow>) -> (r: Vec<LeaderBoardRow>)
    ensures
        r@ == reranked(rows@),
{
    let ghost s = scores_of(rows@);
    let flags = first_flags(rows);
    let mut out: Vec<LeaderBoardRow> = Vec::new();
    let mut i: usize = 0;
    while i < rows.len()
        invariant
            i <= rows@.len(),
            s == scores_of(rows@),
            flags@.len() == rows@.len(),
            forall|j: int| 0 <= j < rows@.len() ==> flags@[j] == first_at(s, j),
            out@ =~= reranked(rows@).take(i as int),
        decreases rows@.len() - i,
    {
        let v = rows[i].total_score;
        assert(s[i as int] == v);
        let mut c: u64 = 0;
        let mut j: usize = 0;
        proof {
            lemma_rank_bounds(s, i as int);
        }
        while j < rows.len()
            invariant
                i < rows@.len(),
                j <= rows@.len(),
                v == s[i as int],
                s == scores_of(rows@),
                flags@.len() == rows@.len(),
                forall|m: int| 0 <= m < rows@.len() ==> flags@[m] == first_at(s, m),
                c == count_above(s, v, j as int),
                count_above(s, v, rows@.len() as int) + 1 <= rows@.len(),
            decreases rows@.len() - j,
        {
            proof {
                crate::rank::lemma_count_prefix(s, v, j as int + 1, rows@.len() as int);
            }
            assert(s[j as int] == rows@[j as int].total_score);
            if rows[j].total_score > v && flags[j] {
                c = c + 1;
            }
            j = j + 1;
        }
        let row = rows[i];
        out.push(LeaderBoardRow { rank: c + 1, ..row });
        proof {
            assert(reranked(rows@).take(i + 1) =~= reranked(rows@).take(i as int).push(reranked(rows@)[i as int]));
        }
        i = i + 1;
    }
    assert(reranked(rows@).take(rows@.len() as int) =~= reranked(rows@));
    out
}


/// Recomputing ranks keeps every id and score, and leaves the ranks consistent.
pub proof fn lemma_reranked(rows: Seq<LeaderBoardRow>)
    requires
        rows.len() <= u64::MAX,
    ensures
        scores_of(reranked(rows)) == scores_of(rows),
        reranked(rows).len() == rows.len(),
        forall|i: int| 0 <= i < rows.len() ==> (#[trigger] reranked(rows)[i]).id == rows[i].id,
        ranks_consistent(reranked(rows)),
{
    let s = scores_of(rows);
    assert(scores_of(reranked(rows)) =~= s);
    assert forall|i: int| 0 <= i < rows.len() implies #[trigger] reranked(rows)[i].rank == dense_rank(
        scores_of(reranked(rows)),
        reranked(rows)[i].total_score,
    ) by {
        lemma_rank_bounds(s, i);
        assert(s[i] == rows[i].total_score);
        assert(reranked(rows)[i].total_score == rows[i].total_score);
    }
}

/// After a successful score update the rank column is dense from one:
/// every rank is at least one, some row has rank one, each rank above one
/// has a row with the rank just before it, equal totals share a rank and a
/// higher total has a smaller rank.
pub proof fn lemma_update_leaves_ranks_dense(rows: Seq<LeaderBoardRow>, id: i32, score: u32)
    requires
        rows.len() <= u64::MAX,
        has_id(rows, id),
        score_fits(rows, id, score),
    ensures
        ({
            let after = reranked(scored(rows, id, score));
            &&& after.len() == rows.len()
            &&& forall|i: int| 0 <= i < after.len() ==> #[trigger] after[i].rank >= 1
            &&& exists|j: int| 0 <= j < after.len() && after[j].rank == 1
            &&& forall|i: int| 0 <= i < after.len() && after[i].rank > 1 ==> exists|j: int|
                0 <= j < after.len() && #[trigger] after[j].rank + 1 == after[i].rank
            &&& forall|i: int, j: int| 0 <= i < after.len() && 0 <= j < after.len()
                && after[i].total_score == after[j].total_score ==> after[i].rank == after[j].rank
            &&& forall|i: int, j: int| 0 <= i < after.len() && 0 <= j < after.len()
                && after[i].total_score > after[j].total_score ==> after[i].rank < after[j].rank
        }),
{
    let updated = scored(rows, id, score);
    lemma_reranked(updated);
    lemma_ranks_dense(reranked(updated));
    assert(rows.len() > 0);
}

/// A score update for an unknown user fails with `UserDoesNotExist` and
/// leaves the table as it was.
pub proof fn lemma_unknown_user_changes_nothing(rows: Seq<LeaderBoardRow>, id: i32, score: u32)
    requires
        !has_id(rows, id),
    ensures
        update_outcome(rows, id, score) == Err::<(), AppError>(AppError::UserDoesNotExist),
        update_result(rows, id, score) == rows,
{
}

/// A leaderboard of the top `n` never holds more than `n` rows, nor a row
/// whose rank is below 1 or above `n`.
pub proof fn lemma_top_within_bounds(rows: Seq<LeaderBoardRow>, n: int, top: Seq<LeaderBoardRow>)
    requires
        is_top(rows, n, top),
    ensures
        top.len() <= n,
        forall|i: int| 0 <= i < top.len() ==> 1 <= #[trigger] top[i].rank <= n,
{
    assert forall|i: int| 0 <= i < top.len() implies 1 <= #[trigger] top[i].rank <= n by {
        assert(in_top(top[i], n));
    }
}

/// Where every rank is the dense rank of its total, the ranks are dense
/// from one and follow the totals.
pub proof fn lemma_ranks_dense(rows: Seq<LeaderBoardRow>)
    requires
        ranks_consistent(rows),
    ensures
        forall|i: int| 0 <= i < rows.len() ==> #[trigger] rows[i].rank >= 1,
        rows.len() > 0 ==> exists|j: int| 0 <= j < rows.len() && rows[j].rank == 1,
        forall|i: int| 0 <= i < rows.len() && rows[i].rank > 1 ==> exists|j: int|
            0 <= j < rows.len() && #[trigger] rows[j].rank + 1 == rows[i].rank,
        forall|i: int, j: int| 0 <= i < rows.len() && 0 <= j < rows.len()
            && rows[i].total_score == rows[j].total_score ==> rows[i].rank == rows[j].rank,
        forall|i: int, j: int| 0 <= i < rows.len() && 0 <= j < rows.len()
            && rows[i].total_score > rows[j].total_score ==> rows[i].rank < rows[j].rank,
{
    let s = scores_of(rows);
    lemma_dense(s);
    assert forall|i: int| 0 <= i < rows.len() implies s[i] == rows[i].total_score && #[trigger] rows[i].rank == dense_rank(s, s[i]) by {
    }
    assert forall|i: int| 0 <= i < rows.len() && rows[i].rank > 1 implies exists|j: int|
        0 <= j < rows.len() && #[trigger] rows[j].rank + 1 == rows[i].rank by {
        assert(rows[i].rank == dense_rank(s, s[i]));
        let j = choose|j: int| 0 <= j < s.len() && #[trigger] dense_rank(s, s[j]) + 1 == dense_rank(s, s[i]);
        assert(rows[j].rank == dense_rank(s, s[j]));
    }
    if rows.len() > 0 {
        let j = choose|j: int| 0 <= j < s.len() && dense_rank(s, s[j]) == 1;
        assert(rows[j].rank == dense_rank(s, s[j]));
    }
}

impl Store {
    #[verifier::type_invariant]
    spec fn ids_unique(self) -> bool {
        unique_ids(self.rows@)
    }

    /// An empty table.
    pub fn new() -> (r: Store)
        ensures
            r@ == Seq::<LeaderBoardRow>::empty(),
    {
        Store { rows: Vec::new() }
    }

    /// A table holding `rows`, which must not share ids.
    pub fn with_rows(rows: Vec<LeaderBoardRow>) -> (r: Result<Store, AppError>)
        ensures
            unique_ids(rows@) <==> r is Ok,
            r is Ok ==> r->Ok_0@ == rows@,
            !unique_ids(rows@) ==> r == Err::<Store, AppError>(AppError::InternalServerError),
    {
        let mut i: usize = 0;
        while i < rows.len()
            invariant
                i <= rows@.len(),
                forall|a: int, b: int| 0 <= a < i && 0 <= b < rows@.len() && a != b ==> rows@[a].id != rows@[b].id,
            decreases rows@.len() - i,
        {
            let mut j: usize = 0;
            while j < rows.len()
                invariant
                    i < rows@.len(),
                    j <= rows@.len(),
                    forall|b: int| 0 <= b < j && i != b ==> rows@[i as int].id != rows@[b].id,
                decreases rows@.len() - j,
            {
                if j != i && rows[i].id == rows[j].id {
                    return Err(AppError::InternalServerError);
                }
                j = j + 1;
            }
            i = i + 1;
        }
        Ok(Store { rows })
    }

    /// The rows of the table, in order.
    pub fn rows(&self) -> (r: Vec<LeaderBoardRow>)
        ensures
            r@ == self@,
    {
        let mut out: Vec<LeaderBoardRow> = Vec::new();
        let mut i: usize = 0;
        while i < self.rows.len()
            invariant
                i <= self.rows@.len(),
                out@ =~= self.rows@.take(i as int),
            decreases self.rows@.len() - i,
        {
            out.push(self.rows[i]);
            assert(self.rows@.take(i + 1) =~= self.rows@.take(i as int).push(self.rows@[i as int]));
            i = i + 1;
        }
        assert(self.rows@.take(self.rows@.len() as int) =~= self.rows@);
        out
    }

    /// Adds `score` points and one guess to user `id`, then recomputes the
    /// dense rank of every row, as one step: on failure nothing changes.
    pub fn update_score(&mut self, score: u32, id: i32) -> (r: Result<(), AppError>)
        ensures
            r == update_outcome(old(self)@, id, score),
            final(self)@ == update_result(old(self)@, id, score),
            r is Ok ==> ranks_consistent(final(self)@),
    {
        proof {
            use_type_invariant(&*self);
        }
        let i = match find_id(&self.rows, id) {
            Some(i) => i,
            None => {
                return Err(AppError::UserDoesNotExist);
            },
        };
        let row = self.rows[i];
        let total = match row.total_score.checked_add(score as u64) {
            Some(t) => t,
            None => {
                return Err(AppError::InternalServerError);
            },
        };
        let guesses = match row.num_guesses.checked_add(1) {
            Some(g) => g,
            None => {
                return Err(AppError::InternalServerError);
            },
        };
        let ghost target = scored(self.rows@, id, score);
        let mut updated: Vec<LeaderBoardRow> = Vec::new();
        let mut j: usize = 0;
        while j < self.rows.len()
            invariant
                i < self.rows@.len(),
                j <= self.rows@.len(),
                self.rows@[i as int].id == id,
                row == self.rows@[i as int],
                total == row.total_score + score,
                guesses == row.num_guesses + 1,
                unique_ids(self.rows@),
                target == scored(self.rows@, id, score),
                updated@ =~= target.take(j as int),
            decreases self.rows@.len() - j,
        {
            if j == i {
                updated.push(LeaderBoardRow { total_score: total, num_guesses: guesses, ..row });
            } else {
                updated.push(self.rows[j]);
            }
            assert(target.take(j + 1) =~= target.take(j as int).push(target[j as int]));
            j = j + 1;
        }
        assert(target.take(self.rows@.len() as int) =~= target);
        assert(score_fits(self.rows@, id, score));
        let new_rows = rerank(&updated);
        proof {
            lemma_reranked(target);
            assert(unique_ids(new_rows@));
        }
        self.rows = new_rows;
        Ok(())
    }

    /// The leaderboard: up to `num_users` rows whose rank lies between 1 and
    /// `num_users`, ordered by rank and then by id. Where more rows qualify,
    /// the first in that order are taken.
    pub fn get_top_num_users(&self, num_users: i32) -> (r: Vec<LeaderBoardRow>)
        ensures
            is_top(self@, top_limit(num_users), r@),
    {
        proof {
            use_type_invariant(self);
        }
        let ghost n = top_limit(num_users);
        let limit: u64 = if num_users <= 0 { 0 } else { num_users as u64 };
        let mut out: Vec<LeaderBoardRow> = Vec::new();
        let mut done = false;
        while !done && (out.len() as u64) < limit
            invariant
                n == limit,
                unique_ids(self.rows@),
                out@.len() <= limit,
                forall|i: int| 0 <= i < out@.len() ==> in_top(#[trigger] out@[i], n) && self.rows@.contains(out@[i]),
                forall|i: int, j: int| 0 <= i < j < out@.len() ==> before(out@[i], out@[j]),
                forall|k: int| 0 <= k < self.rows@.len() && in_top(#[trigger] self.rows@[k], n)
                    && !after_last(out@, self.rows@[k]) ==> out@.contains(self.rows@[k]),
                done ==> forall|k: int| 0 <= k < self.rows@.len() && in_top(#[trigger] self.rows@[k], n)
                    ==> out@.contains(self.rows@[k]),
            decreases limit - out@.len() + if done { 0int } else { 1int },
        {
            let mut best: Option<usize> = None;
            let mut k: usize = 0;
            while k < self.rows.len()
                invariant
                    n == limit,
                    k <= self.rows@.len(),
                    match best {
                        Some(b) => b < self.rows@.len() && in_top(self.rows@[b as int], n)
                            && after_last(out@, self.rows@[b as int])
                            && forall|m: int| 0 <= m < k && in_top(#[trigger] self.rows@[m], n)
                                && after_last(out@, self.rows@[m]) ==> !before(self.rows@[m], self.rows@[b as int]),
                        None => forall|m: int| 0 <= m < k && in_top(#[trigger] self.rows@[m], n)
                            ==> !after_last(out@, self.rows@[m]),
                    },
                decreases self.rows@.len() - k,
            {
                let row = self.rows[k];
                let eligible = 1 <= row.rank && row.rank <= limit;
                let fresh = out.len() == 0 || precedes(&out[out.len() - 1], &row);
                if eligible && fresh {
                    match best {
                        None => {
                            best = Some(k);
                        },
                        Some(b) => {
                            if precedes(&row, &self.rows[b]) {
                                best = Some(k);
                            }
                        },
                    }
                }
                k = k + 1;
            }
            match best {
                None => {
                    done = true;
                },
                Some(b) => {
                    let ghost old_out = out@;
                    out.push(self.rows[b]);
                    proof {
                        let rb = self.rows@[b as int];
                        assert(out@[old_out.len() as int] == rb);
                        assert(self.rows@.contains(rb));
                        assert forall|i: int, j: int| 0 <= i < j < out@.len() implies before(out@[i], out@[j]) by {
                            if j == old_out.len() {
                                if i < old_out.len() - 1 {
                                    assert(before(old_out[i], old_out.last()));
                                }
                                assert(out@[i] == old_out[i]);
                            } else {
                                assert(out@[i] == old_out[i] && out@[j] == old_out[j]);
                            }
                        }
                        assert forall|i: int| 0 <= i < out@.len() implies in_top(#[trigger] out@[i], n)
                            && self.rows@.contains(out@[i]) by {
                            if i < old_out.len() {
                                assert(out@[i] == old_out[i]);
                            }
                        }
                        assert forall|k2: int| 0 <= k2 < self.rows@.len() && in_top(#[trigger] self.rows@[k2], n)
                            && !after_last(out@, self.rows@[k2]) implies out@.contains(self.rows@[k2]) by {
                            let rk = self.rows@[k2];
                            if after_last(old_out, rk) {
                                assert(!before(rk, rb));
                                assert(rk.id == rb.id);
                                assert(k2 == b);
                                assert(out@[old_out.len() as int] == rk);
                            } else {
                                assert(old_out.contains(rk));
                                let i = choose|i: int| 0 <= i < old_out.len() && old_out[i] == rk;
                                assert(out@[i] == rk);
                            }
                        }
                    }
                },
            }
        }
        proof {
            assert forall|k: int| 0 <= k < self@.len() && in_top(#[trigger] self@[k], n) implies
                out@.contains(self@[k]) || (out@.len() == n && before(out@.last(), self@[k])) by {
                if !out@.contains(self@[k]) {
                    assert(!done);
                    assert(after_last(out@, self.rows@[k]));
                }
            }
        }
        out
    }
}

} // verus!
