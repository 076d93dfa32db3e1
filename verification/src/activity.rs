use vstd::prelude::*;

use crate::ordering::{rank_sorted, ranks_before, sort_and_rank, stable_rank_sort_of, stable_sort_by_rank, unranked_seq, RankKeyed, RankPositioned};
use crate::proposals::{STATUS_ACTIVE, STATUS_IN_ANALYSIS};
use crate::ranking::{count_below, items_view, user_places};
use crate::text::str_eq;

verus! {

/// A proposal with its Borda score, for ranking by score alone.
pub struct ScoredProposal {
    pub id: String,
    pub score: i64,
}

impl RankKeyed for ScoredProposal {
    open spec fn spec_score(&self) -> int {
        self.score as int
    }

    open spec fn spec_tiebreak(&self) -> int {
        0
    }

    fn score(&self) -> (r: i64) {
        self.score
    }

    fn tiebreak(&self) -> (r: i64) {
        0
    }
}

/// Orders proposals by score, highest first, keeping the given order (oldest
/// first) among equal scores.
pub fn rank_by_score(items: Vec<ScoredProposal>) -> (out: Vec<ScoredProposal>)
    ensures
        stable_rank_sort_of(items@, out@),
        forall|i: int, j: int| 0 <= i < j < out@.len() ==> (#[trigger] out@[i]).score >= (#[trigger] out@[j]).score,
{
    let out = stable_sort_by_rank(items);
    proof {
        assert forall|i: int, j: int| 0 <= i < j < out@.len() implies (#[trigger] out@[i]).score >= (#[trigger] out@[j]).score by {
            lemma_scores_descend(out@, i, j);
        }
    }
    out
}

/// Proposals ranked by score alone come highest score first.
pub proof fn lemma_scores_descend(out: Seq<ScoredProposal>, i: int, j: int)
    requires
        rank_sorted(out),
        0 <= i < j < out.len(),
    ensures
        out[i].score >= out[j].score,
{
    assert(ranks_before(out[i], out[j]));
}

/// A proposal in the user's own saved list, with the points that list gives it.
pub struct ActivityRankingItem {
    pub proposal_id: String,
    pub title: String,
    pub position: i64,
    pub points: i64,
}

/// The user's own list as `(proposal, stored position)` pairs.
pub open spec fn list_pairs(rows: Seq<(String, String, i64)>) -> Seq<(Seq<char>, int)> {
    Seq::new(rows.len(), |i: int| (rows[i].0@, rows[i].2 as int))
}

/// The user's own list `(proposal id, title, stored position)` of the proposals
/// that take part in the ranking, each entry with its place in that list (how
/// many entries stand at a smaller stored position) and the `n - place` points it
/// gives, `n` being the length of the list.
pub fn activity_ranking_items(rows: Vec<(String, String, i64)>) -> (items: Vec<ActivityRankingItem>)
    requires
        rows@.len() <= i64::MAX,
    ensures
        items@.len() == rows@.len(),
        forall|i: int|
            0 <= i < items@.len() ==> {
                &&& (#[trigger] items@[i]).proposal_id == rows@[i].0
                &&& items@[i].title == rows@[i].1
                &&& items@[i].position == count_below(list_pairs(rows@), rows@[i].2 as int)
                &&& items@[i].points == rows@.len() - count_below(list_pairs(rows@), rows@[i].2 as int)
            },
{
    let n = rows.len() as i64;
    let ghost all = rows@;
    let mut pairs: Vec<(String, i64)> = Vec::new();
    let mut j: usize = 0;
    while j < rows.len()
        invariant
            j <= rows@.len(),
            rows@ == all,
            pairs@.len() == j,
            forall|t: int| 0 <= t < j ==> (#[trigger] pairs@[t]).0@ == all[t].0@ && pairs@[t].1 == all[t].2,
        decreases rows@.len() - j,
    {
        pairs.push((rows[j].0.clone(), rows[j].2));
        j += 1;
    }
    assert(items_view(pairs@) =~= list_pairs(all));
    let places = user_places(&pairs);
    let mut items: Vec<ActivityRankingItem> = Vec::new();
    for row in it: rows.into_iter()
        invariant
            it.seq() == all,
            n == all.len(),
            n <= i64::MAX,
            places@.len() == all.len(),
            items_view(pairs@) == list_pairs(all),
            pairs@.len() == all.len(),
            forall|t: int| 0 <= t < places@.len() ==> #[trigger] places@[t] == count_below(items_view(pairs@), pairs@[t].1 as int),
            forall|t: int| 0 <= t < places@.len() ==> #[trigger] places@[t] <= all.len(),
            items@.len() == it.index(),
            forall|i: int|
                0 <= i < items@.len() ==> {
                    &&& (#[trigger] items@[i]).proposal_id == all[i].0
                    &&& items@[i].title == all[i].1
                    &&& items@[i].position == count_below(list_pairs(all), all[i].2 as int)
                    &&& items@[i].points == all.len() - count_below(list_pairs(all), all[i].2 as int)
                },
    {
        let (proposal_id, title, _position) = row;
        let k = items.len();
        proof {
            assert(items_view(pairs@)[k as int] == list_pairs(all)[k as int]);
        }
        let place = places[k] as i64;
        items.push(ActivityRankingItem { proposal_id, title, position: place, points: n - place });
    }
    items
}

/// The place shown next to one of the user's proposals: only active and
/// in-analysis proposals have one.
pub fn activity_rank_position(status: &str, rank: Option<i64>) -> (r: Option<i64>)
    ensures
        r == if status@ == STATUS_ACTIVE@ || status@ == STATUS_IN_ANALYSIS@ { rank } else { None },
{
    if str_eq(status, STATUS_ACTIVE) || str_eq(status, STATUS_IN_ANALYSIS) {
        rank
    } else {
        None
    }
}

// ----------------------------------------------------------------------------
// Space dashboard
// ----------------------------------------------------------------------------

/// A proposal on the managers' dashboard. `created_at` is in microseconds since
/// the Unix epoch.
pub struct DashboardProposalSummary {
    pub id: String,
    pub title: String,
    pub rank_position: i64,
    pub score: i64,
    pub rankers_count: i64,
    pub agreement: Option<String>,
    pub created_at: i64,
}

impl RankKeyed for DashboardProposalSummary {
    open spec fn spec_score(&self) -> int {
        self.score as int
    }

    open spec fn spec_tiebreak(&self) -> int {
        self.created_at as int
    }

    fn score(&self) -> (r: i64) {
        self.score
    }

    fn tiebreak(&self) -> (r: i64) {
        self.created_at
    }
}

impl RankPositioned for DashboardProposalSummary {
    open spec fn spec_rank_position(&self) -> int {
        self.rank_position as int
    }

    open spec fn spec_unranked(&self) -> Self {
        DashboardProposalSummary { rank_position: 0, ..*self }
    }

    proof fn lemma_unranked_keys(&self) {
    }

    fn set_rank_position(&mut self, r: i64) {
        self.rank_position = r;
    }
}

/// Orders the dashboard by score, highest first, older proposals first on equal
/// scores, and numbers it 1, 2, ...
pub fn rank_dashboard(items: Vec<DashboardProposalSummary>) -> (out: Vec<DashboardProposalSummary>)
    requires
        items@.len() < i64::MAX,
    ensures
        out@.len() == items@.len(),
        forall|i: int| 0 <= i < out@.len() ==> (#[trigger] out@[i]).rank_position == i + 1,
        stable_rank_sort_of(unranked_seq(items@), unranked_seq(out@)),
        forall|i: int, j: int| 0 <= i < j < out@.len() ==> (#[trigger] out@[i]).score > (#[trigger] out@[j]).score
            || (out@[i].score == out@[j].score && out@[i].created_at <= out@[j].created_at),
{
    let out = sort_and_rank(items);
    proof {
        assert forall|i: int, j: int| 0 <= i < j < out@.len() implies (#[trigger] out@[i]).score > (#[trigger] out@[j]).score
            || (out@[i].score == out@[j].score && out@[i].created_at <= out@[j].created_at) by {
            lemma_dashboard_by_score(out@, i, j);
        }
    }
    out
}

/// The dashboard lists a higher Borda score first and, among equal scores, the
/// older proposal first.
pub proof fn lemma_dashboard_by_score(out: Seq<DashboardProposalSummary>, i: int, j: int)
    requires
        rank_sorted(unranked_seq(out)),
        0 <= i < j < out.len(),
    ensures
        out[i].score > out[j].score || (out[i].score == out[j].score && out[i].created_at <= out[j].created_at),
{
    let u = unranked_seq(out);
    assert(u[i] == out[i].spec_unranked());
    assert(u[j] == out[j].spec_unranked());
    assert(ranks_before(u[i], u[j]));
}

} // verus!
