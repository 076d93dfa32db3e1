use vstd::prelude::*;

use crate::error::{AppError, AppResult};
use crate::membership::spec_ranking_counts;
use crate::text::{concat, owned, str_eq};
use vstd::pervasive::VecAdditionalExecFns;

verus! {

/// Minimum distinct rankers before consensus/conflict labels apply.
pub const MIN_RANKERS_FOR_AGREEMENT: usize = 3;

/// One entry of a user's saved prioritisation: `proposal_id` is stored at
/// `position` in the list of `user_id`; a smaller position means a higher
/// priority.
pub struct RankingRow {
    pub user_id: String,
    pub proposal_id: String,
    pub position: i64,
}

/// A saved prioritisation entry together with what decides whether it counts:
/// the global role of its author and the author's membership status in the space.
pub struct RankingCandidate {
    pub user_id: String,
    pub proposal_id: String,
    pub position: i64,
    pub user_role: String,
    pub member_status: Option<String>,
}

pub open spec fn candidate_status(c: RankingCandidate) -> Option<Seq<char>> {
    match c.member_status {
        Some(s) => Some(s@),
        None => None,
    }
}

/// Whether the author of `c` has a prioritisation that counts.
pub open spec fn candidate_counts(c: RankingCandidate, require_approval: bool) -> bool {
    spec_ranking_counts(require_approval, c.user_role@, candidate_status(c))
}

pub open spec fn candidate_row(c: RankingCandidate) -> RankingRow {
    RankingRow { user_id: c.user_id, proposal_id: c.proposal_id, position: c.position }
}

/// The entries that take part in the Borda count, in their original order.
pub open spec fn eligible_rows(cands: Seq<RankingCandidate>, require_approval: bool) -> Seq<RankingRow>
    decreases cands.len(),
{
    if cands.len() == 0 {
        Seq::empty()
    } else {
        let rest = eligible_rows(cands.drop_last(), require_approval);
        if candidate_counts(cands.last(), require_approval) {
            rest.push(candidate_row(cands.last()))
        } else {
            rest
        }
    }
}

/// Keeps the entries whose author's prioritisation counts in the space.
pub fn eligible_ranking_rows(cands: Vec<RankingCandidate>, require_approval: bool) -> (rows: Vec<RankingRow>)
    ensures
        rows@ == eligible_rows(cands@, require_approval),
{
    let mut rows: Vec<RankingRow> = Vec::new();
    for c in it: cands.into_iter()
        invariant
            it.seq() == cands@,
            rows@ == eligible_rows(cands@.take(it.index() as int), require_approval),
    {
        proof {
            assert(cands@.take(it.index() + 1).drop_last() =~= cands@.take(it.index() as int));
        }
        let counts = if crate::membership::is_global_admin_role(c.user_role.as_str()) {
            true
        } else if !require_approval {
            true
        } else {
            match &c.member_status {
                Some(s) => str_eq(s.as_str(), crate::membership::MEMBER_STATUS_ACTIVE),
                None => false,
            }
        };
        if counts {
            rows.push(RankingRow { user_id: c.user_id, proposal_id: c.proposal_id, position: c.position });
        }
    }
    proof {
        assert(cands@.take(cands@.len() as int) =~= cands@);
    }
    rows
}


// ----------------------------------------------------------------------------
// Grouping by user
// ----------------------------------------------------------------------------

/// The users that have entries in `rows`, each once, in order of first appearance.
pub open spec fn distinct_users(rows: Seq<RankingRow>) -> Seq<Seq<char>>
    decreases rows.len(),
{
    if rows.len() == 0 {
        Seq::empty()
    } else {
        let d = distinct_users(rows.drop_last());
        if d.contains(rows.last().user_id@) {
            d
        } else {
            d.push(rows.last().user_id@)
        }
    }
}

/// The entries of user `u` as `(proposal, position)`, in their order in `rows`.
pub open spec fn user_items(rows: Seq<RankingRow>, u: Seq<char>) -> Seq<(Seq<char>, int)>
    decreases rows.len(),
{
    if rows.len() == 0 {
        Seq::empty()
    } else {
        let rest = user_items(rows.drop_last(), u);
        if rows.last().user_id@ == u {
            rest.push((rows.last().proposal_id@, rows.last().position as int))
        } else {
            rest
        }
    }
}

/// The number of entries user `u` has in `rows`: the length of that user's list.
pub open spec fn count_user(rows: Seq<RankingRow>, u: Seq<char>) -> int
    decreases rows.len(),
{
    if rows.len() == 0 {
        0
    } else {
        count_user(rows.drop_last(), u) + if rows.last().user_id@ == u { 1int } else { 0int }
    }
}

/// The group of one user, as `(proposal, position)` pairs.
pub open spec fn items_view(items: Seq<(String, i64)>) -> Seq<(Seq<char>, int)> {
    Seq::new(items.len(), |t: int| (items[t].0@, items[t].1 as int))
}

proof fn lemma_distinct_users_contains(rows: Seq<RankingRow>, j: int)
    requires
        0 <= j < rows.len(),
    ensures
        distinct_users(rows).contains(rows[j].user_id@),
    decreases rows.len(),
{
    broadcast use vstd::seq_lib::lemma_seq_contains_after_push;

    let d = distinct_users(rows.drop_last());
    if j < rows.len() - 1 {
        lemma_distinct_users_contains(rows.drop_last(), j);
        assert(rows.drop_last()[j] == rows[j]);
    } else if !d.contains(rows.last().user_id@) {
        assert(d.push(rows.last().user_id@)[d.len() as int] == rows.last().user_id@);
    }
}

proof fn lemma_distinct_users_no_dup(rows: Seq<RankingRow>)
    ensures
        distinct_users(rows).no_duplicates(),
    decreases rows.len(),
{
    if rows.len() > 0 {
        lemma_distinct_users_no_dup(rows.drop_last());
    }
}

proof fn lemma_distinct_users_sound(rows: Seq<RankingRow>, k: int)
    requires
        0 <= k < distinct_users(rows).len(),
    ensures
        exists|j: int| 0 <= j < rows.len() && #[trigger] rows[j].user_id@ == distinct_users(rows)[k],
    decreases rows.len(),
{
    let d = distinct_users(rows.drop_last());
    if k < d.len() {
        lemma_distinct_users_sound(rows.drop_last(), k);
        let j = choose|j: int| 0 <= j < rows.drop_last().len() && #[trigger] rows.drop_last()[j].user_id@ == d[k];
        assert(rows[j] == rows.drop_last()[j]);
    } else {
        assert(rows[rows.len() - 1].user_id@ == distinct_users(rows)[k]);
    }
}

proof fn lemma_count_user_is_items_len(rows: Seq<RankingRow>, u: Seq<char>)
    ensures
        count_user(rows, u) == user_items(rows, u).len(),
        0 <= count_user(rows, u) <= rows.len(),
    decreases rows.len(),
{
    if rows.len() > 0 {
        lemma_count_user_is_items_len(rows.drop_last(), u);
    }
}

proof fn lemma_count_user_positive(rows: Seq<RankingRow>, j: int)
    requires
        0 <= j < rows.len(),
    ensures
        count_user(rows, rows[j].user_id@) >= 1,
    decreases rows.len(),
{
    lemma_count_user_is_items_len(rows.drop_last(), rows[j].user_id@);
    if j < rows.len() - 1 {
        lemma_count_user_positive(rows.drop_last(), j);
        assert(rows.drop_last()[j] == rows[j]);
    }
}

/// Whether `s` holds a string equal to `x`, by index.
fn position_of(v: &Vec<String>, x: &str) -> (r: Option<usize>)
    ensures
        match r {
            Some(k) => k < v@.len() && v@[k as int]@ == x@,
            None => forall|k: int| 0 <= k < v@.len() ==> v@[k]@ != x@,
        },
{
    let mut k: usize = 0;
    while k < v.len()
        invariant
            k <= v@.len(),
            forall|t: int| 0 <= t < k ==> v@[t]@ != x@,
        decreases v@.len() - k,
    {
        if str_eq(v[k].as_str(), x) {
            return Some(k);
        }
        k += 1;
    }
    None
}

/// The distinct users of `rows`, in order of first appearance.
fn distinct_user_ids(rows: &Vec<RankingRow>) -> (users: Vec<String>)
    ensures
        users@.len() == distinct_users(rows@).len(),
        forall|k: int| 0 <= k < users@.len() ==> #[trigger] users@[k]@ == distinct_users(rows@)[k],
{
    let mut users: Vec<String> = Vec::new();
    let mut i: usize = 0;
    while i < rows.len()
        invariant
            i <= rows@.len(),
            users@.len() == distinct_users(rows@.take(i as int)).len(),
            forall|k: int| 0 <= k < users@.len() ==> #[trigger] users@[k]@ == distinct_users(rows@.take(i as int))[k],
        decreases rows@.len() - i,
    {
        let ghost d = distinct_users(rows@.take(i as int));
        proof {
            assert(rows@.take(i + 1).drop_last() =~= rows@.take(i as int));
        }
        let u = &rows[i].user_id;
        match position_of(&users, u.as_str()) {
            Some(k) => {
                assert(d[k as int] == u@);
                assert(d.contains(u@));
            },
            None => {
                assert(!d.contains(u@)) by {
                    if d.contains(u@) {
                        let k = choose|k: int| 0 <= k < d.len() && d[k] == u@;
                        assert(users@[k]@ == d[k]);
                    }
                }
                users.push(u.clone());
            },
        }
        i += 1;
    }
    proof {
        assert(rows@.take(rows@.len() as int) =~= rows@);
    }
    users
}

/// Groups the entries by user: one group per distinct user, in order of first
/// appearance, each holding that user's `(proposal, position)` pairs in order.
pub fn group_by_user(rows: &Vec<RankingRow>) -> (groups: Vec<(String, Vec<(String, i64)>)>)
    ensures
        groups@.len() == distinct_users(rows@).len(),
        forall|k: int|
            0 <= k < groups@.len() ==> {
                &&& (#[trigger] groups@[k]).0@ == distinct_users(rows@)[k]
                &&& items_view(groups@[k].1@) == user_items(rows@, distinct_users(rows@)[k])
            },
{
    let users = distinct_user_ids(rows);
    let mut groups: Vec<(String, Vec<(String, i64)>)> = Vec::new();
    let mut k: usize = 0;
    while k < users.len()
        invariant
            k <= users@.len(),
            users@.len() == distinct_users(rows@).len(),
            forall|t: int| 0 <= t < users@.len() ==> #[trigger] users@[t]@ == distinct_users(rows@)[t],
            groups@.len() == k,
            forall|t: int|
                0 <= t < k ==> {
                    &&& (#[trigger] groups@[t]).0@ == distinct_users(rows@)[t]
                    &&& items_view(groups@[t].1@) == user_items(rows@, distinct_users(rows@)[t])
                },
        decreases users@.len() - k,
    {
        let u = &users[k];
        let mut items: Vec<(String, i64)> = Vec::new();
        let mut j: usize = 0;
        while j < rows.len()
            invariant
                j <= rows@.len(),
                items_view(items@) == user_items(rows@.take(j as int), u@),
            decreases rows@.len() - j,
        {
            proof {
                assert(rows@.take(j + 1).drop_last() =~= rows@.take(j as int));
            }
            let ghost before = items@;
            if str_eq(rows[j].user_id.as_str(), u.as_str()) {
                items.push((rows[j].proposal_id.clone(), rows[j].position));
                assert(items_view(items@) =~= items_view(before).push(
                    (rows@[j as int].proposal_id@, rows@[j as int].position as int),
                ));
            }
            j += 1;
        }
        proof {
            assert(rows@.take(rows@.len() as int) =~= rows@);
        }
        groups.push((u.clone(), items));
        k += 1;
    }
    groups
}

/// Distinct users whose prioritisations are in `rows`.
pub fn count_eligible_rankers(rows: &Vec<RankingRow>) -> (n: i64)
    requires
        rows@.len() <= i64::MAX,
    ensures
        n == distinct_users(rows@).len(),
{
    let groups = group_by_user(rows);
    proof {
        lemma_distinct_users_len(rows@);
    }
    groups.len() as i64
}

// ----------------------------------------------------------------------------
// Borda count
// ----------------------------------------------------------------------------

/// How many of `items` stand at a stored position smaller than `pos`.
pub open spec fn count_below(items: Seq<(Seq<char>, int)>, pos: int) -> int
    decreases items.len(),
{
    if items.len() == 0 {
        0
    } else {
        count_below(items.drop_last(), pos) + if items.last().1 < pos { 1int } else { 0int }
    }
}

/// The 0-based place of entry `j` in its author's list: how many of the author's
/// entries stand at a smaller stored position. Only the order of the stored
/// positions matters, so entries missing from `rows` (a proposal that no longer
/// takes part) leave no gap.
pub open spec fn place(rows: Seq<RankingRow>, j: int) -> int {
    count_below(user_items(rows, rows[j].user_id@), rows[j].position as int)
}

/// Points that entry `j` gives its proposal: `n - k`, where `n` is the length of
/// its author's list and `k` its place in that list.
pub open spec fn row_points(rows: Seq<RankingRow>, j: int) -> int {
    count_user(rows, rows[j].user_id@) - place(rows, j)
}

/// Sum of `w(j)` over the entries `j < i` that rank proposal `p`.
pub open spec fn tally(rows: Seq<RankingRow>, p: Seq<char>, i: int, w: spec_fn(int) -> int) -> int
    decreases i,
{
    if i <= 0 {
        0
    } else {
        tally(rows, p, i - 1, w) + if rows[i - 1].proposal_id@ == p { w(i - 1) } else { 0 }
    }
}

pub open spec fn points_weight(rows: Seq<RankingRow>) -> spec_fn(int) -> int {
    |j: int| row_points(rows, j)
}

pub open spec fn one_weight() -> spec_fn(int) -> int {
    |j: int| 1int
}

pub open spec fn top3_weight(rows: Seq<RankingRow>) -> spec_fn(int) -> int {
    |j: int| if place(rows, j) < 3 { 1int } else { 0int }
}

pub open spec fn position_weight(rows: Seq<RankingRow>) -> spec_fn(int) -> int {
    |j: int| place(rows, j)
}

/// Borda score of `p`: the sum, over every user's list, of `n - k` for the list
/// of length `n` that holds `p` at place `k`.
pub open spec fn borda_score(rows: Seq<RankingRow>, p: Seq<char>) -> int {
    tally(rows, p, rows.len() as int, points_weight(rows))
}

/// How many lists hold `p`.
pub open spec fn rankers_of(rows: Seq<RankingRow>, p: Seq<char>) -> int {
    tally(rows, p, rows.len() as int, one_weight())
}

/// How many lists hold `p` among their first three places.
pub open spec fn top3_of(rows: Seq<RankingRow>, p: Seq<char>) -> int {
    tally(rows, p, rows.len() as int, top3_weight(rows))
}

/// Sum of the places at which `p` stands in the lists that hold it.
pub open spec fn position_sum_of(rows: Seq<RankingRow>, p: Seq<char>) -> int {
    tally(rows, p, rows.len() as int, position_weight(rows))
}

/// Some entry `j < i` ranks proposal `p`.
pub open spec fn appears_upto(rows: Seq<RankingRow>, p: Seq<char>, i: int) -> bool {
    exists|j: int| 0 <= j < i && #[trigger] rows[j].proposal_id@ == p
}

/// Some entry ranks proposal `p`.
pub open spec fn appears(rows: Seq<RankingRow>, p: Seq<char>) -> bool {
    appears_upto(rows, p, rows.len() as int)
}

/// Some element of `out` is keyed by `p`.
pub open spec fn has_key<V>(out: Seq<(String, V)>, p: Seq<char>) -> bool {
    exists|k: int| 0 <= k < out.len() && (#[trigger] out[k]).0@ == p
}

/// Sizes for which the sums fit in `i64`: at most `i32::MAX` entries.
pub open spec fn rows_bounded(rows: Seq<RankingRow>) -> bool {
    rows.len() <= i32::MAX
}

/// Per-proposal aggregates of the Borda count. The average place is
/// `position_sum / rankers_count`.
pub struct ProposalRankingStats {
    pub score: i64,
    pub rankers_count: i64,
    pub top3_count: i64,
    pub position_sum: i64,
}

pub open spec fn stats_upto(rows: Seq<RankingRow>, p: Seq<char>, s: ProposalRankingStats, i: int) -> bool {
    &&& s.score == tally(rows, p, i, points_weight(rows))
    &&& s.rankers_count == tally(rows, p, i, one_weight())
    &&& s.top3_count == tally(rows, p, i, top3_weight(rows))
    &&& s.position_sum == tally(rows, p, i, position_weight(rows))
}

/// `s` holds exactly the aggregates of proposal `p` over `rows`.
pub open spec fn stats_of(rows: Seq<RankingRow>, p: Seq<char>, s: ProposalRankingStats) -> bool {
    &&& s.score == borda_score(rows, p)
    &&& s.rankers_count == rankers_of(rows, p)
    &&& s.top3_count == top3_of(rows, p)
    &&& s.position_sum == position_sum_of(rows, p)
}

/// The keys of `out` are distinct and are exactly the proposals that the entries
/// `j < i` rank.
pub open spec fn keyed_upto<V>(rows: Seq<RankingRow>, out: Seq<(String, V)>, i: int) -> bool {
    &&& forall|a: int, b: int|
        0 <= a < out.len() && 0 <= b < out.len() && a != b ==> (#[trigger] out[a]).0@ != (#[trigger] out[b]).0@
    &&& forall|k: int| 0 <= k < out.len() ==> appears_upto(rows, (#[trigger] out[k]).0@, i)
    &&& forall|j: int| 0 <= j < i ==> has_key(out, #[trigger] rows[j].proposal_id@)
}

/// The keys of `out` are distinct and are exactly the proposals ranked in `rows`.
pub open spec fn keyed_by_proposal<V>(rows: Seq<RankingRow>, out: Seq<(String, V)>) -> bool {
    keyed_upto(rows, out, rows.len() as int)
}

proof fn lemma_tally_bound(rows: Seq<RankingRow>, p: Seq<char>, i: int, w: spec_fn(int) -> int)
    requires
        0 <= i <= rows.len(),
        forall|j: int| 0 <= j < i ==> -2147483647 <= #[trigger] w(j) <= 2147483647,
    ensures
        -2147483647 * i <= tally(rows, p, i, w) <= 2147483647 * i,
    decreases i,
{
    if i > 0 {
        lemma_tally_bound(rows, p, i - 1, w);
    }
}

proof fn lemma_tally_nonneg(rows: Seq<RankingRow>, p: Seq<char>, i: int, w: spec_fn(int) -> int)
    requires
        0 <= i <= rows.len(),
        forall|j: int| 0 <= j < i ==> 0 <= #[trigger] w(j),
    ensures
        0 <= tally(rows, p, i, w),
    decreases i,
{
    if i > 0 {
        lemma_tally_nonneg(rows, p, i - 1, w);
    }
}

proof fn lemma_count_below_bounds(items: Seq<(Seq<char>, int)>, pos: int)
    ensures
        0 <= count_below(items, pos) <= items.len(),
    decreases items.len(),
{
    if items.len() > 0 {
        lemma_count_below_bounds(items.drop_last(), pos);
    }
}

/// An item at `pos` is not below `pos`, so at most `len - 1` items are.
proof fn lemma_count_below_excludes(items: Seq<(Seq<char>, int)>, pos: int, t: int)
    requires
        0 <= t < items.len(),
        items[t].1 == pos,
    ensures
        count_below(items, pos) <= items.len() - 1,
    decreases items.len(),
{
    lemma_count_below_bounds(items.drop_last(), pos);
    if t < items.len() - 1 {
        assert(items.drop_last()[t] == items[t]);
        lemma_count_below_excludes(items.drop_last(), pos, t);
    }
}

proof fn lemma_count_below_mono(items: Seq<(Seq<char>, int)>, a: int, b: int)
    requires
        a <= b,
    ensures
        count_below(items, a) <= count_below(items, b),
    decreases items.len(),
{
    if items.len() > 0 {
        lemma_count_below_mono(items.drop_last(), a, b);
    }
}

/// An item at `a < b` is below `b` but not below `a`.
proof fn lemma_count_below_strict(items: Seq<(Seq<char>, int)>, a: int, b: int, t: int)
    requires
        a < b,
        0 <= t < items.len(),
        items[t].1 == a,
    ensures
        count_below(items, a) < count_below(items, b),
    decreases items.len(),
{
    if t < items.len() - 1 {
        assert(items.drop_last()[t] == items[t]);
        lemma_count_below_strict(items.drop_last(), a, b, t);
    } else {
        lemma_count_below_mono(items.drop_last(), a, b);
    }
}

proof fn lemma_count_below_all(items: Seq<(Seq<char>, int)>, pos: int)
    requires
        forall|t: int| 0 <= t < items.len() ==> (#[trigger] items[t]).1 < pos,
    ensures
        count_below(items, pos) == items.len(),
    decreases items.len(),
{
    if items.len() > 0 {
        assert forall|t: int| 0 <= t < items.drop_last().len() implies (#[trigger] items.drop_last()[t]).1 < pos by {
            assert(items.drop_last()[t] == items[t]);
        }
        lemma_count_below_all(items.drop_last(), pos);
    }
}

/// In a list whose stored positions increase, the item at index `k` has place `k`.
proof fn lemma_count_below_increasing(items: Seq<(Seq<char>, int)>, k: int)
    requires
        0 <= k < items.len(),
        forall|a: int, b: int| 0 <= a < b < items.len() ==> (#[trigger] items[a]).1 < (#[trigger] items[b]).1,
    ensures
        count_below(items, items[k].1) == k,
    decreases items.len(),
{
    let d = items.drop_last();
    assert forall|a: int, b: int| 0 <= a < b < d.len() implies (#[trigger] d[a]).1 < (#[trigger] d[b]).1 by {
        assert(d[a] == items[a]);
        assert(d[b] == items[b]);
    }
    if k < items.len() - 1 {
        assert(d[k] == items[k]);
        lemma_count_below_increasing(d, k);
        assert(items[k].1 < items[items.len() - 1].1);
    } else {
        assert forall|t: int| 0 <= t < d.len() implies (#[trigger] d[t]).1 < items[k].1 by {
            assert(d[t] == items[t]);
        }
        lemma_count_below_all(d, items[k].1);
    }
}

/// Entry `j` stands in its author's list.
proof fn lemma_entry_in_user_items(rows: Seq<RankingRow>, j: int) -> (t: int)
    requires
        0 <= j < rows.len(),
    ensures
        0 <= t < user_items(rows, rows[j].user_id@).len(),
        user_items(rows, rows[j].user_id@)[t] == (rows[j].proposal_id@, rows[j].position as int),
    decreases rows.len(),
{
    let u = rows[j].user_id@;
    let rest = user_items(rows.drop_last(), u);
    if j == rows.len() - 1 {
        rest.len() as int
    } else {
        assert(rows.drop_last()[j] == rows[j]);
        let t = lemma_entry_in_user_items(rows.drop_last(), j);
        if rows.last().user_id@ == u {
            assert(rest.push((rows.last().proposal_id@, rows.last().position as int))[t] == rest[t]);
        }
        t
    }
}

/// The place of an entry is below the length of its author's list.
proof fn lemma_place_bounds(rows: Seq<RankingRow>, j: int)
    requires
        0 <= j < rows.len(),
    ensures
        0 <= place(rows, j) < count_user(rows, rows[j].user_id@),
        count_user(rows, rows[j].user_id@) <= rows.len(),
{
    let items = user_items(rows, rows[j].user_id@);
    let t = lemma_entry_in_user_items(rows, j);
    lemma_count_below_bounds(items, rows[j].position as int);
    lemma_count_below_excludes(items, rows[j].position as int, t);
    lemma_count_user_is_items_len(rows, rows[j].user_id@);
}

proof fn lemma_weights_bounded(rows: Seq<RankingRow>)
    requires
        rows_bounded(rows),
    ensures
        forall|j: int| 0 <= j < rows.len() ==> -2147483647 <= #[trigger] points_weight(rows)(j) <= 2147483647,
        forall|j: int| 0 <= j < rows.len() ==> 0 <= #[trigger] position_weight(rows)(j) <= 2147483647,
        forall|j: int| 0 <= j < rows.len() ==> 0 <= #[trigger] top3_weight(rows)(j) <= 1,
        forall|j: int| 0 <= j < rows.len() ==> #[trigger] one_weight()(j) == 1,
{
    assert forall|j: int| 0 <= j < rows.len() implies -2147483647 <= #[trigger] points_weight(rows)(j) <= 2147483647 by {
        lemma_place_bounds(rows, j);
    }
    assert forall|j: int| 0 <= j < rows.len() implies 0 <= #[trigger] position_weight(rows)(j) <= 2147483647 by {
        lemma_place_bounds(rows, j);
    }
}

/// How many of `items` stand at a stored position smaller than `pos`.
pub(crate) fn count_items_below(items: &Vec<(String, i64)>, pos: i64) -> (c: usize)
    ensures
        c == count_below(items_view(items@), pos as int),
        c <= items@.len(),
{
    let ghost iv = items_view(items@);
    let mut c: usize = 0;
    let mut t: usize = 0;
    while t < items.len()
        invariant
            t <= items@.len(),
            iv == items_view(items@),
            c == count_below(iv.take(t as int), pos as int),
            c <= t,
        decreases items@.len() - t,
    {
        proof {
            assert(iv.take(t + 1).drop_last() =~= iv.take(t as int));
            assert(iv.take(t + 1).last() == iv[t as int]);
        }
        if items[t].1 < pos {
            c += 1;
        }
        t += 1;
    }
    proof {
        assert(iv.take(items@.len() as int) =~= iv);
    }
    c
}

/// The length of `u`'s list and the place in it of an entry of `u` stored at
/// `pos`, read from the groups of `rows`.
fn list_len_and_place(
    groups: &Vec<(String, Vec<(String, i64)>)>,
    u: &str,
    pos: i64,
    Ghost(rows): Ghost<Seq<RankingRow>>,
) -> (r: (usize, usize))
    requires
        groups@.len() == distinct_users(rows).len(),
        forall|k: int|
            0 <= k < groups@.len() ==> {
                &&& (#[trigger] groups@[k]).0@ == distinct_users(rows)[k]
                &&& items_view(groups@[k].1@) == user_items(rows, distinct_users(rows)[k])
            },
        distinct_users(rows).contains(u@),
    ensures
        r.0 == count_user(rows, u@),
        r.1 == count_below(user_items(rows, u@), pos as int),
{
    let mut k: usize = 0;
    while k < groups.len()
        invariant
            k <= groups@.len(),
            groups@.len() == distinct_users(rows).len(),
            forall|t: int| 0 <= t < k ==> distinct_users(rows)[t] != u@,
            forall|t: int|
                0 <= t < groups@.len() ==> {
                    &&& (#[trigger] groups@[t]).0@ == distinct_users(rows)[t]
                    &&& items_view(groups@[t].1@) == user_items(rows, distinct_users(rows)[t])
                },
        decreases groups@.len() - k,
    {
        if str_eq(groups[k].0.as_str(), u) {
            proof {
                lemma_count_user_is_items_len(rows, u@);
                assert(items_view(groups@[k as int].1@).len() == groups@[k as int].1@.len());
            }
            let below = count_items_below(&groups[k].1, pos);
            return (groups[k].1.len(), below);
        }
        k += 1;
    }
    proof {
        let t = choose|t: int| 0 <= t < distinct_users(rows).len() && distinct_users(rows)[t] == u@;
        assert(false);
    }
    (0, 0)
}

/// The place of each entry of one user's group: how many of the group's entries
/// stand at a smaller stored position.
pub fn user_places(items: &Vec<(String, i64)>) -> (places: Vec<usize>)
    ensures
        places@.len() == items@.len(),
        forall|t: int| 0 <= t < places@.len() ==> #[trigger] places@[t] == count_below(items_view(items@), items@[t].1 as int),
        forall|t: int| 0 <= t < places@.len() ==> #[trigger] places@[t] <= items@.len(),
{
    let mut places: Vec<usize> = Vec::new();
    let mut t: usize = 0;
    while t < items.len()
        invariant
            t <= items@.len(),
            places@.len() == t,
            forall|a: int| 0 <= a < t ==> #[trigger] places@[a] == count_below(items_view(items@), items@[a].1 as int),
            forall|a: int| 0 <= a < t ==> #[trigger] places@[a] <= items@.len(),
        decreases items@.len() - t,
    {
        let c = count_items_below(items, items[t].1);
        places.push(c);
        t += 1;
    }
    places
}

/// Position in `out` of the entry keyed by `p`, if any.
fn key_position<V>(out: &Vec<(String, V)>, p: &str) -> (r: Option<usize>)
    ensures
        match r {
            Some(k) => k < out@.len() && out@[k as int].0@ == p@,
            None => forall|k: int| 0 <= k < out@.len() ==> (#[trigger] out@[k]).0@ != p@,
        },
{
    let mut k: usize = 0;
    while k < out.len()
        invariant
            k <= out@.len(),
            forall|t: int| 0 <= t < k ==> (#[trigger] out@[t]).0@ != p@,
        decreases out@.len() - k,
    {
        if str_eq(out[k].0.as_str(), p) {
            return Some(k);
        }
        k += 1;
    }
    None
}

/// Per-proposal Borda score together with how many lists hold the proposal,
/// how many hold it among their first three, and the sum of its places.
pub fn compute_ranking_stats(rows: &Vec<RankingRow>) -> (out: Vec<(String, ProposalRankingStats)>)
    requires
        rows_bounded(rows@),
    ensures
        keyed_by_proposal(rows@, out@),
        forall|k: int| 0 <= k < out@.len() ==> stats_of(rows@, (#[trigger] out@[k]).0@, out@[k].1),
{
    let groups = group_by_user(rows);
    let ghost r = rows@;
    proof {
        lemma_weights_bounded(r);
    }
    let mut out: Vec<(String, ProposalRankingStats)> = Vec::new();
    let mut i: usize = 0;
    while i < rows.len()
        invariant
            i <= r.len(),
            r == rows@,
            rows_bounded(r),
            groups@.len() == distinct_users(r).len(),
            forall|k: int|
                0 <= k < groups@.len() ==> {
                    &&& (#[trigger] groups@[k]).0@ == distinct_users(r)[k]
                    &&& items_view(groups@[k].1@) == user_items(r, distinct_users(r)[k])
                },
            forall|j: int| 0 <= j < r.len() ==> -2147483647 <= #[trigger] points_weight(r)(j) <= 2147483647,
            forall|j: int| 0 <= j < r.len() ==> 0 <= #[trigger] position_weight(r)(j) <= 2147483647,
            forall|j: int| 0 <= j < r.len() ==> 0 <= #[trigger] top3_weight(r)(j) <= 1,
            forall|j: int| 0 <= j < r.len() ==> #[trigger] one_weight()(j) == 1,
            keyed_upto(r, out@, i as int),
            forall|k: int| 0 <= k < out@.len() ==> stats_upto(r, (#[trigger] out@[k]).0@, out@[k].1, i as int),
        decreases r.len() - i,
    {
        let row = &rows[i];
        proof {
            lemma_distinct_users_contains(r, i as int);
        }
        let (n, pl) = list_len_and_place(&groups, row.user_id.as_str(), row.position, Ghost(r));
        proof {
            lemma_count_user_is_items_len(r, row.user_id@);
            lemma_place_bounds(r, i as int);
            assert(points_weight(r)(i as int) == n - pl);
            assert(position_weight(r)(i as int) == pl);
        }
        let points: i64 = n as i64 - pl as i64;
        let top: i64 = if pl < 3 { 1 } else { 0 };
        let place: i64 = pl as i64;
        let ghost old_out = out@;
        match key_position(&out, row.proposal_id.as_str()) {
            Some(k) => {
                let ghost p = out@[k as int].0@;
                proof {
                    lemma_tally_bound(r, p, i as int, points_weight(r));
                    lemma_tally_bound(r, p, i as int, position_weight(r));
                    lemma_tally_bound(r, p, i as int, top3_weight(r));
                    lemma_tally_bound(r, p, i as int, one_weight());
                }
                let old = &out[k].1;
                let s = ProposalRankingStats {
                    score: old.score + points,
                    rankers_count: old.rankers_count + 1,
                    top3_count: old.top3_count + top,
                    position_sum: old.position_sum + place,
                };
                let key = out[k].0.clone();
                out.set(k, (key, s));
                proof {
                    assert forall|t: int| 0 <= t < out@.len() implies stats_upto(r, (#[trigger] out@[t]).0@, out@[t].1, i + 1) by {
                        if t != k {
                            assert(out@[t] == old_out[t]);
                        }
                    }
                    assert forall|j: int| 0 <= j < i + 1 implies has_key(out@, #[trigger] r[j].proposal_id@) by {
                        if j < i {
                            assert(has_key(old_out, r[j].proposal_id@));
                            let t = choose|t: int| 0 <= t < old_out.len() && (#[trigger] old_out[t]).0@ == r[j].proposal_id@;
                            assert(out@[t].0@ == old_out[t].0@);
                        } else {
                            assert(out@[k as int].0@ == r[j].proposal_id@);
                        }
                    }
                    assert forall|t: int| 0 <= t < out@.len() implies appears_upto(r, (#[trigger] out@[t]).0@, i + 1) by {
                        assert(appears_upto(r, old_out[t].0@, i as int));
                        let j = choose|j: int| 0 <= j < i && #[trigger] r[j].proposal_id@ == old_out[t].0@;
                        assert(out@[t].0@ == old_out[t].0@);
                    }
                    assert forall|a: int, b: int|
                        0 <= a < out@.len() && 0 <= b < out@.len() && a != b implies (#[trigger] out@[a]).0@ != (#[trigger] out@[b]).0@ by {
                        assert(out@[a].0@ == old_out[a].0@);
                        assert(out@[b].0@ == old_out[b].0@);
                    }
                }
            },
            None => {
                let s = ProposalRankingStats {
                    score: points,
                    rankers_count: 1,
                    top3_count: top,
                    position_sum: place,
                };
                proof {
                    let p = row.proposal_id@;
                    assert forall|j: int| 0 <= j < i implies r[j].proposal_id@ != p by {
                        if r[j].proposal_id@ == p {
                            assert(has_key(old_out, r[j].proposal_id@));
                            let t = choose|t: int| 0 <= t < old_out.len() && (#[trigger] old_out[t]).0@ == r[j].proposal_id@;
                        }
                    }
                    lemma_tally_zero(r, p, i as int, points_weight(r));
                    lemma_tally_zero(r, p, i as int, position_weight(r));
                    lemma_tally_zero(r, p, i as int, top3_weight(r));
                    lemma_tally_zero(r, p, i as int, one_weight());
                }
                out.push((row.proposal_id.clone(), s));
                proof {
                    let last = out@.len() - 1;
                    assert forall|t: int| 0 <= t < out@.len() implies stats_upto(r, (#[trigger] out@[t]).0@, out@[t].1, i + 1) by {
                        if t != last {
                            assert(out@[t] == old_out[t]);
                        }
                    }
                    assert forall|j: int| 0 <= j < i + 1 implies has_key(out@, #[trigger] r[j].proposal_id@) by {
                        if j < i {
                            assert(has_key(old_out, r[j].proposal_id@));
                            let t = choose|t: int| 0 <= t < old_out.len() && (#[trigger] old_out[t]).0@ == r[j].proposal_id@;
                            assert(out@[t] == old_out[t]);
                        } else {
                            assert(out@[last].0@ == r[j].proposal_id@);
                        }
                    }
                    assert forall|t: int| 0 <= t < out@.len() implies appears_upto(r, (#[trigger] out@[t]).0@, i + 1) by {
                        if t < last {
                            assert(out@[t] == old_out[t]);
                            assert(appears_upto(r, old_out[t].0@, i as int));
                            let j = choose|j: int| 0 <= j < i && #[trigger] r[j].proposal_id@ == old_out[t].0@;
                        } else {
                            assert(r[i as int].proposal_id@ == out@[t].0@);
                        }
                    }
                    assert forall|a: int, b: int|
                        0 <= a < out@.len() && 0 <= b < out@.len() && a != b implies (#[trigger] out@[a]).0@ != (#[trigger] out@[b]).0@ by {
                        if a < last && b < last {
                            assert(out@[a] == old_out[a]);
                            assert(out@[b] == old_out[b]);
                        } else if a < last {
                            assert(out@[a] == old_out[a]);
                        } else {
                            assert(out@[b] == old_out[b]);
                        }
                    }
                }
            },
        }
        i += 1;
    }
    out
}

proof fn lemma_keyed_same_keys<V, W>(rows: Seq<RankingRow>, a: Seq<(String, V)>, b: Seq<(String, W)>, i: int)
    requires
        keyed_upto(rows, a, i),
        a.len() == b.len(),
        forall|t: int| 0 <= t < a.len() ==> (#[trigger] b[t]).0@ == a[t].0@,
    ensures
        keyed_upto(rows, b, i),
{
    assert forall|k: int| 0 <= k < b.len() implies appears_upto(rows, (#[trigger] b[k]).0@, i) by {
        assert(a[k].0@ == b[k].0@);
    }
    assert forall|j: int| 0 <= j < i implies has_key(b, #[trigger] rows[j].proposal_id@) by {
        assert(has_key(a, rows[j].proposal_id@));
        let k = choose|k: int| 0 <= k < a.len() && (#[trigger] a[k]).0@ == rows[j].proposal_id@;
        assert(b[k].0@ == rows[j].proposal_id@);
    }
    assert forall|x: int, y: int|
        0 <= x < b.len() && 0 <= y < b.len() && x != y implies (#[trigger] b[x]).0@ != (#[trigger] b[y]).0@ by {
        assert(a[x].0@ == b[x].0@);
        assert(a[y].0@ == b[y].0@);
    }
}

proof fn lemma_tally_zero(rows: Seq<RankingRow>, p: Seq<char>, i: int, w: spec_fn(int) -> int)
    requires
        0 <= i <= rows.len(),
        forall|j: int| 0 <= j < i ==> rows[j].proposal_id@ != p,
    ensures
        tally(rows, p, i, w) == 0,
    decreases i,
{
    if i > 0 {
        lemma_tally_zero(rows, p, i - 1, w);
    }
}

/// Borda score of every proposal ranked in `rows`.
pub fn compute_borda_scores(rows: &Vec<RankingRow>) -> (scores: Vec<(String, i64)>)
    requires
        rows_bounded(rows@),
    ensures
        keyed_by_proposal(rows@, scores@),
        forall|k: int| 0 <= k < scores@.len() ==> (#[trigger] scores@[k]).1 == borda_score(rows@, scores@[k].0@),
{
    let stats = compute_ranking_stats(rows);
    let mut scores: Vec<(String, i64)> = Vec::new();
    let mut k: usize = 0;
    while k < stats.len()
        invariant
            k <= stats@.len(),
            scores@.len() == k,
            keyed_by_proposal(rows@, stats@),
            forall|t: int| 0 <= t < stats@.len() ==> stats_of(rows@, (#[trigger] stats@[t]).0@, stats@[t].1),
            forall|t: int| 0 <= t < k ==> (#[trigger] scores@[t]).0@ == stats@[t].0@ && scores@[t].1 == stats@[t].1.score,
        decreases stats@.len() - k,
    {
        scores.push((stats[k].0.clone(), stats[k].1.score));
        k += 1;
    }
    proof {
        lemma_keyed_same_keys(rows@, stats@, scores@, rows@.len() as int);
    }
    scores
}

proof fn lemma_distinct_users_len(rows: Seq<RankingRow>)
    ensures
        distinct_users(rows).len() <= rows.len(),
    decreases rows.len(),
{
    if rows.len() > 0 {
        lemma_distinct_users_len(rows.drop_last());
    }
}


// ----------------------------------------------------------------------------
// Saving a prioritisation
// ----------------------------------------------------------------------------

/// `ids` holds a string equal to `x`.
pub open spec fn in_list(ids: Seq<String>, x: Seq<char>) -> bool {
    exists|k: int| 0 <= k < ids.len() && (#[trigger] ids[k])@ == x
}

fn list_contains(ids: &Vec<String>, x: &str) -> (r: bool)
    ensures
        r == in_list(ids@, x@),
{
    let mut k: usize = 0;
    while k < ids.len()
        invariant
            k <= ids@.len(),
            forall|t: int| 0 <= t < k ==> (#[trigger] ids@[t])@ != x@,
        decreases ids@.len() - k,
    {
        if str_eq(ids[k].as_str(), x) {
            return true;
        }
        k += 1;
    }
    false
}

/// A saved prioritisation may only hold proposals that are active or in
/// analysis in the space (`active_ids`); the first one that is not is reported.
pub fn validate_ranking_submission(active_ids: &Vec<String>, proposal_ids: &Vec<String>) -> (r: AppResult<()>)
    ensures
        r is Ok <==> forall|i: int| 0 <= i < proposal_ids@.len() ==> in_list(active_ids@, (#[trigger] proposal_ids@[i])@),
        r is Err ==> exists|i: int| {
            &&& 0 <= i < proposal_ids@.len()
            &&& !in_list(active_ids@, (#[trigger] proposal_ids@[i])@)
            &&& forall|t: int| 0 <= t < i ==> in_list(active_ids@, (#[trigger] proposal_ids@[t])@)
            &&& r matches Err(AppError::BadRequest(m)) && m@ == "invalid or inactive proposal: "@ + proposal_ids@[i]@
        },
{
    let mut i: usize = 0;
    while i < proposal_ids.len()
        invariant
            i <= proposal_ids@.len(),
            forall|t: int| 0 <= t < i ==> in_list(active_ids@, (#[trigger] proposal_ids@[t])@),
        decreases proposal_ids@.len() - i,
    {
        if !list_contains(active_ids, proposal_ids[i].as_str()) {
            let m = concat("invalid or inactive proposal: ", proposal_ids[i].as_str());
            let r: AppResult<()> = Err(AppError::BadRequest(m));
            proof {
                assert(!in_list(active_ids@, proposal_ids@[i as int]@));
            }
            return r;
        }
        i += 1;
    }
    Ok(())
}

/// The entries a saved prioritisation is stored as: the proposal at index `i`
/// of the list stands at position `i`.
pub fn saved_ranking_rows(user_id: &str, proposal_ids: &Vec<String>) -> (rows: Vec<RankingRow>)
    requires
        proposal_ids@.len() <= i64::MAX,
    ensures
        rows@.len() == proposal_ids@.len(),
        forall|i: int|
            0 <= i < rows@.len() ==> {
                &&& (#[trigger] rows@[i]).user_id@ == user_id@
                &&& rows@[i].proposal_id@ == proposal_ids@[i]@
                &&& rows@[i].position == i
            },
{
    let mut rows: Vec<RankingRow> = Vec::new();
    let mut i: usize = 0;
    while i < proposal_ids.len()
        invariant
            i <= proposal_ids@.len(),
            proposal_ids@.len() <= i64::MAX,
            rows@.len() == i,
            forall|k: int|
                0 <= k < i ==> {
                    &&& (#[trigger] rows@[k]).user_id@ == user_id@
                    &&& rows@[k].proposal_id@ == proposal_ids@[k]@
                    &&& rows@[k].position == k
                },
        decreases proposal_ids@.len() - i,
    {
        rows.push(RankingRow { user_id: owned(user_id), proposal_id: proposal_ids[i].clone(), position: i as i64 });
        i += 1;
    }
    rows
}

/// Where a proposal's relative-position spread falls with respect to the
/// consensus and polarisation thresholds.
pub enum SpreadBand {
    /// At or below the consensus threshold.
    Low,
    /// Strictly between the two thresholds.
    Middle,
    /// At or above the polarisation threshold.
    High,
}

pub open spec fn spec_agreement(rankers: int, band: SpreadBand) -> Option<Seq<char>> {
    if rankers < MIN_RANKERS_FOR_AGREEMENT {
        None
    } else {
        match band {
            SpreadBand::Low => Some("consensus"@),
            SpreadBand::High => Some("polarized"@),
            SpreadBand::Middle => None,
        }
    }
}

/// Agreement label of a proposal: none below [`MIN_RANKERS_FOR_AGREEMENT`]
/// rankers; otherwise "consensus" for a low spread, "polarized" for a high one.
pub fn classify_agreement(rankers: usize, band: SpreadBand) -> (r: Option<&'static str>)
    ensures
        match r {
            Some(s) => spec_agreement(rankers as int, band) == Some(s@),
            None => spec_agreement(rankers as int, band) is None,
        },
{
    if rankers < MIN_RANKERS_FOR_AGREEMENT {
        return None;
    }
    match band {
        SpreadBand::Low => Some("consensus"),
        SpreadBand::High => Some("polarized"),
        SpreadBand::Middle => None,
    }
}

// ----------------------------------------------------------------------------
// Laws of the ranking
// ----------------------------------------------------------------------------

/// A prioritisation whose author's ranking does not count (in a space that
/// requires approval: neither an active member nor a platform admin) is saved but
/// changes nothing: the entries that take part in the count, and therefore every
/// Borda score, are those of the other prioritisations alone.
pub proof fn lemma_non_counting_entries_ignored(
    cands: Seq<RankingCandidate>,
    extra: Seq<RankingCandidate>,
    require_approval: bool,
)
    requires
        forall|j: int| 0 <= j < extra.len() ==> !candidate_counts(#[trigger] extra[j], require_approval),
    ensures
        eligible_rows(cands + extra, require_approval) == eligible_rows(cands, require_approval),
        forall|p: Seq<char>|
            borda_score(eligible_rows(cands + extra, require_approval), p) == #[trigger] borda_score(
                eligible_rows(cands, require_approval),
                p,
            ),
    decreases extra.len(),
{
    if extra.len() > 0 {
        let shorter = extra.drop_last();
        assert forall|j: int| 0 <= j < shorter.len() implies !candidate_counts(#[trigger] shorter[j], require_approval) by {
            assert(shorter[j] == extra[j]);
        }
        lemma_non_counting_entries_ignored(cands, shorter, require_approval);
        assert((cands + extra).drop_last() =~= cands + shorter);
        assert((cands + extra).last() == extra[extra.len() - 1]);
    } else {
        assert(cands + extra =~= cands);
    }
}

/// In a space that does not require approval, every saved prioritisation counts.
pub proof fn lemma_open_space_counts_everyone(cands: Seq<RankingCandidate>)
    ensures
        eligible_rows(cands, false) == cands.map_values(|c: RankingCandidate| candidate_row(c)),
    decreases cands.len(),
{
    if cands.len() > 0 {
        lemma_open_space_counts_everyone(cands.drop_last());
        assert(cands.map_values(|c: RankingCandidate| candidate_row(c)) =~= cands.drop_last().map_values(
            |c: RankingCandidate| candidate_row(c),
        ).push(candidate_row(cands.last())));
    } else {
        assert(cands.map_values(|c: RankingCandidate| candidate_row(c)) =~= Seq::<RankingRow>::empty());
    }
}

/// A proposal that nobody ranked has a Borda score of zero.
pub proof fn lemma_unranked_scores_zero(rows: Seq<RankingRow>, p: Seq<char>)
    requires
        !appears(rows, p),
    ensures
        borda_score(rows, p) == 0,
{
    assert forall|j: int| 0 <= j < rows.len() implies rows[j].proposal_id@ != p by {
        if rows[j].proposal_id@ == p {
            assert(appears_upto(rows, p, rows.len() as int));
        }
    }
    lemma_tally_zero(rows, p, rows.len() as int, points_weight(rows));
}

/// Within one user's list, an entry stored before another one stands at a
/// higher place and earns strictly more points.
pub proof fn lemma_higher_place_more_points(rows: Seq<RankingRow>, a: int, b: int)
    requires
        0 <= a < rows.len(),
        0 <= b < rows.len(),
        rows[a].user_id@ == rows[b].user_id@,
        rows[a].position < rows[b].position,
    ensures
        place(rows, a) < place(rows, b),
        row_points(rows, a) > row_points(rows, b),
{
    let t = lemma_entry_in_user_items(rows, a);
    lemma_count_below_strict(user_items(rows, rows[a].user_id@), rows[a].position as int, rows[b].position as int, t);
}

/// Each entry of a list of `n` proposals gives its proposal between 1 and `n`
/// points, and stands at a place between 0 and `n - 1`.
pub proof fn lemma_points_within_list(rows: Seq<RankingRow>, j: int)
    requires
        0 <= j < rows.len(),
    ensures
        0 <= place(rows, j) <= count_user(rows, rows[j].user_id@) - 1,
        1 <= row_points(rows, j) <= count_user(rows, rows[j].user_id@),
{
    lemma_place_bounds(rows, j);
}

proof fn lemma_count_single_user(rows: Seq<RankingRow>, u: Seq<char>)
    requires
        forall|j: int| 0 <= j < rows.len() ==> (#[trigger] rows[j]).user_id@ == u,
    ensures
        count_user(rows, u) == rows.len(),
    decreases rows.len(),
{
    if rows.len() > 0 {
        assert forall|j: int| 0 <= j < rows.drop_last().len() implies (#[trigger] rows.drop_last()[j]).user_id@ == u by {
            assert(rows.drop_last()[j] == rows[j]);
        }
        lemma_count_single_user(rows.drop_last(), u);
    }
}

proof fn lemma_tally_single(rows: Seq<RankingRow>, k: int, i: int, w: spec_fn(int) -> int)
    requires
        0 <= k < rows.len(),
        0 <= i <= rows.len(),
        forall|j: int| 0 <= j < rows.len() && j != k ==> (#[trigger] rows[j]).proposal_id@ != rows[k].proposal_id@,
    ensures
        tally(rows, rows[k].proposal_id@, i, w) == if k < i { w(k) } else { 0 },
    decreases i,
{
    if i > 0 {
        lemma_tally_single(rows, k, i - 1, w);
    }
}

proof fn lemma_user_items_single(rows: Seq<RankingRow>, u: Seq<char>)
    requires
        forall|j: int| 0 <= j < rows.len() ==> (#[trigger] rows[j]).user_id@ == u,
    ensures
        user_items(rows, u).len() == rows.len(),
        forall|t: int| 0 <= t < rows.len() ==> #[trigger] user_items(rows, u)[t] == (rows[t].proposal_id@, rows[t].position as int),
    decreases rows.len(),
{
    if rows.len() > 0 {
        let d = rows.drop_last();
        assert forall|j: int| 0 <= j < d.len() implies (#[trigger] d[j]).user_id@ == u by {
            assert(d[j] == rows[j]);
        }
        lemma_user_items_single(d, u);
        assert(rows.last().user_id@ == u);
        assert forall|t: int| 0 <= t < rows.len() implies #[trigger] user_items(rows, u)[t] == (rows[t].proposal_id@, rows[t].position as int) by {
            if t < rows.len() - 1 {
                assert(d[t] == rows[t]);
            }
        }
    }
}

/// When the only prioritisation is one user's list of `n` distinct proposals,
/// stored at increasing positions (which may leave gaps, for instance where a
/// proposal of the list no longer takes part), the `k`-th proposal of the list
/// scores `n - k`, is held by one list, counts among its first three exactly
/// when `k < 3`, and stands at place `k`.
pub proof fn lemma_single_list_scores(rows: Seq<RankingRow>, k: int)
    requires
        0 <= k < rows.len(),
        forall|j: int| 0 <= j < rows.len() ==> (#[trigger] rows[j]).user_id@ == rows[0].user_id@,
        forall|a: int, b: int| 0 <= a < b < rows.len() ==> (#[trigger] rows[a]).position < (#[trigger] rows[b]).position,
        forall|a: int, b: int|
            0 <= a < rows.len() && 0 <= b < rows.len() && a != b ==> (#[trigger] rows[a]).proposal_id@
                != (#[trigger] rows[b]).proposal_id@,
    ensures
        borda_score(rows, rows[k].proposal_id@) == rows.len() - k,
        rankers_of(rows, rows[k].proposal_id@) == 1,
        top3_of(rows, rows[k].proposal_id@) == if k < 3 { 1int } else { 0int },
        position_sum_of(rows, rows[k].proposal_id@) == k,
{
    let u = rows[0].user_id@;
    lemma_count_single_user(rows, u);
    lemma_user_items_single(rows, u);
    let items = user_items(rows, u);
    assert forall|a: int, b: int| 0 <= a < b < items.len() implies (#[trigger] items[a]).1 < (#[trigger] items[b]).1 by {
        assert(items[a] == (rows[a].proposal_id@, rows[a].position as int));
        assert(items[b] == (rows[b].proposal_id@, rows[b].position as int));
    }
    lemma_count_below_increasing(items, k);
    assert(rows[k].user_id@ == u);
    assert(items[k].1 == rows[k].position);
    lemma_tally_single(rows, k, rows.len() as int, points_weight(rows));
    lemma_tally_single(rows, k, rows.len() as int, one_weight());
    lemma_tally_single(rows, k, rows.len() as int, top3_weight(rows));
    lemma_tally_single(rows, k, rows.len() as int, position_weight(rows));
}

/// Which saved entries take part in the count, one candidate at a time, in
/// order: the entry of a platform admin, every entry in a space without
/// approval, and in a space with approval the entry of anyone whose membership
/// is active (whatever their global role); every other entry is left out. Kept
/// entries keep their user, proposal and stored position.
pub proof fn lemma_eligible_rows_rule(cands: Seq<RankingCandidate>, c: RankingCandidate, require_approval: bool)
    ensures
        eligible_rows(Seq::<RankingCandidate>::empty(), require_approval) == Seq::<RankingRow>::empty(),
        eligible_rows(cands.push(c), require_approval) == if c.user_role@ == "admin"@ || !require_approval
            || (c.member_status matches Some(st) && st@ == "active"@) {
            eligible_rows(cands, require_approval).push(
                RankingRow { user_id: c.user_id, proposal_id: c.proposal_id, position: c.position },
            )
        } else {
            eligible_rows(cands, require_approval)
        },
{
    assert(cands.push(c).drop_last() =~= cands);
    assert(cands.push(c).last() == c);
}

/// Agreement labels: none with fewer than three rankers; otherwise "consensus"
/// for a low spread, "polarized" for a high one, and none in between.
pub proof fn lemma_agreement_rule(rankers: int, band: SpreadBand)
    ensures
        rankers < 3 ==> spec_agreement(rankers, band) is None,
        rankers >= 3 ==> spec_agreement(rankers, band) == match band {
            SpreadBand::Low => Some("consensus"@),
            SpreadBand::High => Some("polarized"@),
            SpreadBand::Middle => None::<Seq<char>>,
        },
{
}

} // verus!
