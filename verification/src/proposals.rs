use vstd::prelude::*;

use crate::auth::is_admin;
use crate::error::{is_bad_request, AppError, AppResult};
use crate::membership::{
    can_create_in_space, spec_can_create_in_space, spec_is_global_admin,
};
use crate::models::{
    member_role_of, status_of, CreateProposalRequest, NamespaceMember, Proposal, ProposalListItem,
    UpdateProposalRequest, User,
};
use crate::ranking::{count_below, count_items_below, items_view};
use crate::ordering::{rank_sorted, ranks_before, sort_and_rank, stable_rank_sort_of, unranked_seq, RankKeyed, RankPositioned};
use crate::text::{chars_of, concat, owned, push_decimal, str_eq, trim, trim_spec, decimal_text};

verus! {

pub const STATUS_ACTIVE: &'static str = "activa";
pub const STATUS_IN_ANALYSIS: &'static str = "en_analisis";
pub const STATUS_REJECTED: &'static str = "rechazada";

// ----------------------------------------------------------------------------
// Request paths and queries
// ----------------------------------------------------------------------------

/// Path of the routes under `/{namespace}`.
pub struct NamespacePath {
    pub namespace: String,
}

/// Path of the routes under `/{namespace}/proposals/{id}`.
pub struct ProposalPath {
    pub namespace: String,
    pub id: String,
}

/// Query of the proposal listing: `filter` is `active` (default) or `rejected`.
pub struct ListQuery {
    pub filter: String,
    pub category: Option<String>,
}

/// The listing filter used when the query names none.
pub fn default_filter() -> (r: String)
    ensures
        r@ == "active"@,
{
    owned("active")
}

/// The statuses a listing shows: rejected proposals for the `rejected` filter,
/// active and in-analysis ones otherwise.
pub fn statuses_for_filter(filter: &str) -> (r: Vec<&'static str>)
    ensures
        filter@ == "rejected"@ ==> r@.len() == 1 && r@[0]@ == STATUS_REJECTED@,
        filter@ != "rejected"@ ==> r@.len() == 2 && r@[0]@ == STATUS_ACTIVE@ && r@[1]@ == STATUS_IN_ANALYSIS@,
{
    let mut v: Vec<&'static str> = Vec::new();
    if str_eq(filter, "rejected") {
        v.push(STATUS_REJECTED);
    } else {
        v.push(STATUS_ACTIVE);
        v.push(STATUS_IN_ANALYSIS);
    }
    v
}

// ----------------------------------------------------------------------------
// Status life cycle
// ----------------------------------------------------------------------------

pub open spec fn spec_valid_status(s: Seq<char>) -> bool {
    s == STATUS_ACTIVE@ || s == STATUS_IN_ANALYSIS@ || s == STATUS_REJECTED@
}

/// The transitions an administrator may make: staying put, or one of
/// activa → en_analisis, activa → rechazada, en_analisis → activa,
/// en_analisis → rechazada, rechazada → activa.
pub open spec fn spec_transition_allowed(from: Seq<char>, to: Seq<char>) -> bool {
    ||| from == to
    ||| from == STATUS_ACTIVE@ && to == STATUS_IN_ANALYSIS@
    ||| from == STATUS_ACTIVE@ && to == STATUS_REJECTED@
    ||| from == STATUS_IN_ANALYSIS@ && to == STATUS_ACTIVE@
    ||| from == STATUS_IN_ANALYSIS@ && to == STATUS_REJECTED@
    ||| from == STATUS_REJECTED@ && to == STATUS_ACTIVE@
}

pub fn status_transition_allowed(from: &str, to: &str) -> (r: bool)
    ensures
        r == spec_transition_allowed(from@, to@),
{
    if str_eq(from, to) {
        return true;
    }
    (str_eq(from, STATUS_ACTIVE) && str_eq(to, STATUS_IN_ANALYSIS)) || (str_eq(from, STATUS_ACTIVE)
        && str_eq(to, STATUS_REJECTED)) || (str_eq(from, STATUS_IN_ANALYSIS) && str_eq(
        to,
        STATUS_ACTIVE,
    )) || (str_eq(from, STATUS_IN_ANALYSIS) && str_eq(to, STATUS_REJECTED)) || (str_eq(
        from,
        STATUS_REJECTED,
    ) && str_eq(to, STATUS_ACTIVE))
}

pub fn is_valid_status(s: &str) -> (r: bool)
    ensures
        r == spec_valid_status(s@),
{
    str_eq(s, STATUS_ACTIVE) || str_eq(s, STATUS_IN_ANALYSIS) || str_eq(s, STATUS_REJECTED)
}

/// The message refusing a transition: `transition from {from} to {to} is not allowed`.
pub open spec fn transition_message(from: Seq<char>, to: Seq<char>) -> Seq<char> {
    "transition from "@ + from + " to "@ + to + " is not allowed"@
}

/// Checks a requested status change of a proposal currently in `current`:
/// an unknown status is refused, then a transition outside the life cycle.
/// On success, tells whether the status actually changes.
pub fn check_status_change(current: &str, requested: &str) -> (r: AppResult<bool>)
    ensures
        !spec_valid_status(requested@) ==> is_bad_request(r, "invalid status"@),
        spec_valid_status(requested@) && !spec_transition_allowed(current@, requested@) ==> is_bad_request(
            r,
            transition_message(current@, requested@),
        ),
        spec_valid_status(requested@) && spec_transition_allowed(current@, requested@) ==> r == Ok::<
            bool,
            AppError,
        >(current@ != requested@),
{
    if !is_valid_status(requested) {
        return Err(AppError::BadRequest(owned("invalid status")));
    }
    if !status_transition_allowed(current, requested) {
        let mut m = concat("transition from ", current);
        m.append(" to ");
        m.append(requested);
        m.append(" is not allowed");
        return Err(AppError::BadRequest(m));
    }
    Ok(!str_eq(current, requested))
}

// ----------------------------------------------------------------------------
// Creating and editing
// ----------------------------------------------------------------------------

/// The values a new proposal is stored with (its status is always `activa`).
pub struct NewProposal {
    pub title: String,
    pub description: String,
    pub category_id: String,
    pub logo_url: Option<String>,
}

/// Longest title, in characters.
pub const MAX_TITLE_CHARS: usize = 200;

/// Longest description, in characters.
pub const MAX_DESCRIPTION_CHARS: usize = 5000;

pub open spec fn title_too_long_message() -> Seq<char> {
    "title must be at most 200 characters"@
}

pub open spec fn description_too_long_message() -> Seq<char> {
    "description must be at most 5000 characters"@
}

/// Decides a proposal creation: the author must be allowed to create in the
/// space, then have a complete profile; title and description must not be blank,
/// the title may have at most 200 characters and the description at most 5000,
/// and the category must not be blank. Title, description and category are
/// stored trimmed. The category must then also exist in the catalogue, which the
/// caller checks.
pub fn prepare_new_proposal(
    user: &User,
    membership: Option<&NamespaceMember>,
    body: &CreateProposalRequest,
) -> (r: AppResult<NewProposal>)
    ensures
        ({
            let can = spec_can_create_in_space(user.role@, status_of(membership), member_role_of(membership));
            let t = trim_spec(body.title@);
            let d = trim_spec(body.description@);
            let c = trim_spec(body.category_id@);
            &&& !can ==> (r matches Err(AppError::Forbidden))
            &&& can && !user.profile_complete ==> (r matches Err(AppError::Forbidden))
            &&& can && user.profile_complete && (t.len() == 0 || d.len() == 0)
                ==> is_bad_request(r, "title and description required"@)
            &&& can && user.profile_complete && t.len() != 0 && d.len() != 0 && t.len() > MAX_TITLE_CHARS
                ==> is_bad_request(r, title_too_long_message())
            &&& can && user.profile_complete && t.len() != 0 && d.len() != 0 && t.len() <= MAX_TITLE_CHARS
                && d.len() > MAX_DESCRIPTION_CHARS ==> is_bad_request(r, description_too_long_message())
            &&& can && user.profile_complete && t.len() != 0 && d.len() != 0 && t.len() <= MAX_TITLE_CHARS
                && d.len() <= MAX_DESCRIPTION_CHARS && c.len() == 0 ==> is_bad_request(r, "category required"@)
            &&& can && user.profile_complete && t.len() != 0 && d.len() != 0 && t.len() <= MAX_TITLE_CHARS
                && d.len() <= MAX_DESCRIPTION_CHARS && c.len() != 0 ==> (r matches Ok(p) && {
                &&& p.title@ == t
                &&& p.description@ == d
                &&& p.category_id@ == c
                &&& p.logo_url == body.logo_url
            })
        }),
{
    if !can_create_in_space(user, membership) {
        return Err(AppError::Forbidden);
    }
    if !user.profile_complete {
        return Err(AppError::Forbidden);
    }
    let title = trim(body.title.as_str());
    let description = trim(body.description.as_str());
    if title.is_empty() || description.is_empty() {
        return Err(AppError::BadRequest(owned("title and description required")));
    }
    if chars_of(title).len() > MAX_TITLE_CHARS {
        return Err(AppError::BadRequest(owned("title must be at most 200 characters")));
    }
    if chars_of(description).len() > MAX_DESCRIPTION_CHARS {
        return Err(AppError::BadRequest(owned("description must be at most 5000 characters")));
    }
    let category = trim(body.category_id.as_str());
    if category.is_empty() {
        return Err(AppError::BadRequest(owned("category required")));
    }
    Ok(NewProposal {
        title: owned(title),
        description: owned(description),
        category_id: owned(category),
        logo_url: body.logo_url.clone(),
    })
}

pub open spec fn spec_can_edit(user_role: Seq<char>, user_id: Seq<char>, author_id: Seq<char>, status: Seq<char>) -> bool {
    spec_is_global_admin(user_role) || (author_id == user_id && status == STATUS_ACTIVE@)
}

/// Platform admins edit any proposal; its author edits it while it is `activa`.
pub fn can_edit_proposal(user: &User, p: &Proposal) -> (r: bool)
    ensures
        r == spec_can_edit(user.role@, user.id@, p.author_id@, p.status@),
{
    is_admin(user) || (str_eq(p.author_id.as_str(), user.id.as_str()) && str_eq(
        p.status.as_str(),
        STATUS_ACTIVE,
    ))
}

/// The values an edited proposal is stored with. When `check_category` holds,
/// `category_id` comes from the request and must exist in the catalogue.
pub struct ProposalEdit {
    pub title: String,
    pub description: String,
    pub logo_url: Option<String>,
    pub category_id: String,
    pub check_category: bool,
}

/// The logo after an edit, as the proposal rules give it (`logo_url: ""` in
/// an edit clears the logo): an empty `logo_url` clears it, another value
/// replaces it, and no value keeps the current one.
pub open spec fn edited_logo(current: Option<String>, requested: Option<String>) -> Option<Seq<char>> {
    match requested {
        Some(u) => if u@.len() == 0 { None } else { Some(u@) },
        None => match current {
            Some(c) => Some(c@),
            None => None,
        },
    }
}

pub open spec fn opt_view(o: Option<String>) -> Option<Seq<char>> {
    match o {
        Some(s) => Some(s@),
        None => None,
    }
}

/// Whether an edit brings a title longer than 200 characters.
pub open spec fn title_too_long(title: Option<String>) -> bool {
    match title {
        Some(t) => t@.len() > MAX_TITLE_CHARS,
        None => false,
    }
}

/// Whether an edit brings a description longer than 5000 characters.
pub open spec fn description_too_long(description: Option<String>) -> bool {
    match description {
        Some(d) => d@.len() > MAX_DESCRIPTION_CHARS,
        None => false,
    }
}

fn longer_than(s: &Option<String>, max: usize) -> (r: bool)
    ensures
        r == match s {
            Some(t) => t@.len() > max,
            None => false,
        },
{
    match s {
        Some(t) => chars_of(t.as_str()).len() > max,
        None => false,
    }
}

/// Decides an edit of proposal `p` by `user`: forbidden unless
/// [`can_edit_proposal`]; a new title may have at most 200 characters and a new
/// description at most 5000; fields missing from the request keep their value;
/// a requested category is trimmed; a proposal without a category needs one.
pub fn plan_proposal_update(user: &User, p: Proposal, body: UpdateProposalRequest) -> (r: AppResult<ProposalEdit>)
    ensures
        ({
            let can = spec_can_edit(user.role@, user.id@, p.author_id@, p.status@);
            let tl = title_too_long(body.title);
            let dl = description_too_long(body.description);
            &&& !can ==> (r matches Err(AppError::Forbidden))
            &&& can && tl ==> is_bad_request(r, title_too_long_message())
            &&& can && !tl && dl ==> is_bad_request(r, description_too_long_message())
            &&& can && !tl && !dl && body.category_id is None && p.category_id is None
                ==> is_bad_request(r, "category required"@)
            &&& can && !tl && !dl && (body.category_id is Some || p.category_id is Some) ==> r is Ok
        }),
        r matches Ok(e) ==> {
            &&& e.title@ == (match body.title { Some(t) => t@, None => p.title@ })
            &&& e.description@ == (match body.description { Some(d) => d@, None => p.description@ })
            &&& opt_view(e.logo_url) == edited_logo(p.logo_url, body.logo_url)
            &&& match body.category_id {
                Some(c) => e.category_id@ == trim_spec(c@) && e.check_category,
                None => p.category_id matches Some(c) && e.category_id@ == c@ && !e.check_category,
            }
        },
{
    if !can_edit_proposal(user, &p) {
        return Err(AppError::Forbidden);
    }
    if longer_than(&body.title, MAX_TITLE_CHARS) {
        return Err(AppError::BadRequest(owned("title must be at most 200 characters")));
    }
    if longer_than(&body.description, MAX_DESCRIPTION_CHARS) {
        return Err(AppError::BadRequest(owned("description must be at most 5000 characters")));
    }
    let title = match body.title {
        Some(t) => t,
        None => p.title,
    };
    let description = match body.description {
        Some(d) => d,
        None => p.description,
    };
    let logo_url = match body.logo_url {
        Some(u) => if u.as_str().is_empty() { None } else { Some(u) },
        None => p.logo_url,
    };
    match body.category_id {
        Some(c) => {
            let trimmed = owned(trim(c.as_str()));
            Ok(ProposalEdit { title, description, logo_url, category_id: trimmed, check_category: true })
        },
        None => match p.category_id {
            Some(c) => Ok(ProposalEdit { title, description, logo_url, category_id: c, check_category: false }),
            None => Err(AppError::BadRequest(owned("category required"))),
        },
    }
}

pub open spec fn opt_eq(a: Option<String>, b: Option<String>) -> bool {
    opt_view(a) == opt_view(b)
}

/// Whether assigning `requested` as tracker changes the current one.
pub fn tracker_changed(current: &Option<String>, requested: &Option<String>) -> (r: bool)
    ensures
        r == !opt_eq(*current, *requested),
{
    match (current, requested) {
        (Some(a), Some(b)) => !str_eq(a.as_str(), b.as_str()),
        (None, None) => false,
        _ => true,
    }
}

// ----------------------------------------------------------------------------
// Ranked listing
// ----------------------------------------------------------------------------

impl RankKeyed for ProposalListItem {
    open spec fn spec_score(&self) -> int {
        self.score as int
    }

    open spec fn spec_tiebreak(&self) -> int {
        self.created_at as int
    }

    fn score(&self) -> (r: i64) {
        self.score
    }

    fn tiebreak(&self) -> (r: i64) {
        self.created_at
    }
}

impl RankPositioned for ProposalListItem {
    open spec fn spec_rank_position(&self) -> int {
        self.rank_position as int
    }

    open spec fn spec_unranked(&self) -> Self {
        ProposalListItem { rank_position: 0, ..*self }
    }

    proof fn lemma_unranked_keys(&self) {
    }

    fn set_rank_position(&mut self, r: i64) {
        self.rank_position = r;
    }
}

/// Orders the listing by Borda score, highest first, older proposals first on
/// equal scores (keeping the given order on full ties), and numbers it 1, 2, ...
pub fn sort_proposals_by_score(items: Vec<ProposalListItem>) -> (out: Vec<ProposalListItem>)
    requires
        items@.len() < i64::MAX,
    ensures
        out@.len() == items@.len(),
        forall|i: int| 0 <= i < out@.len() ==> (#[trigger] out@[i]).rank_position == i + 1,
        stable_rank_sort_of(unranked_seq(items@), unranked_seq(out@)),
        forall|i: int, j: int| 0 <= i < j < out@.len() ==> (#[trigger] out@[i]).score > (#[trigger] out@[j]).score
            || (out@[i].score == out@[j].score && out@[i].created_at <= out@[j].created_at),
{
    let out = sort_and_rank(items);
    proof {
        assert forall|i: int, j: int| 0 <= i < j < out@.len() implies (#[trigger] out@[i]).score > (#[trigger] out@[j]).score
            || (out@[i].score == out@[j].score && out@[i].created_at <= out@[j].created_at) by {
            lemma_listing_by_score(out@, i, j);
        }
    }
    out
}

/// The ranked listing puts a higher Borda score first and, among equal scores,
/// the older proposal first: an item with a strictly lower score never comes
/// before one with a higher score.
pub proof fn lemma_listing_by_score(out: Seq<ProposalListItem>, i: int, j: int)
    requires
        rank_sorted(unranked_seq(out)),
        0 <= i < j < out.len(),
    ensures
        out[i].score > out[j].score || (out[i].score == out[j].score && out[i].created_at <= out[j].created_at),
        out[i].score >= out[j].score,
{
    let u = unranked_seq(out);
    assert(u[i] == out[i].spec_unranked());
    assert(u[j] == out[j].spec_unranked());
    assert(ranks_before(u[i], u[j]));
}

/// The 1-based place of `id` in `ids`, if it is there.
pub fn rank_of(ids: &Vec<String>, id: &str) -> (r: Option<i64>)
    requires
        ids@.len() < i64::MAX,
    ensures
        match r {
            Some(k) => 1 <= k <= ids@.len() && ids@[k - 1]@ == id@ && forall|t: int|
                0 <= t < k - 1 ==> (#[trigger] ids@[t])@ != id@,
            None => forall|t: int| 0 <= t < ids@.len() ==> (#[trigger] ids@[t])@ != id@,
        },
{
    let mut k: usize = 0;
    while k < ids.len()
        invariant
            k <= ids@.len(),
            ids@.len() < i64::MAX,
            forall|t: int| 0 <= t < k ==> (#[trigger] ids@[t])@ != id@,
        decreases ids@.len() - k,
    {
        if str_eq(ids[k].as_str(), id) {
            return Some(k as i64 + 1);
        }
        k += 1;
    }
    None
}

/// Index of the first entry of `entries` for proposal `id`.
pub open spec fn first_entry(entries: Seq<(String, i64)>, id: Seq<char>, t: int) -> bool {
    &&& 0 <= t < entries.len()
    &&& entries[t].0@ == id
    &&& forall|s: int| 0 <= s < t ==> (#[trigger] entries[s]).0@ != id
}

/// What the current user's own list gives proposal `id`, given the user's
/// entries `(proposal, stored position)` for the proposals of the space that take
/// part in the ranking: its place in that list (how many entries stand at a
/// smaller stored position) and the `n - place` points a list of `n` gives it;
/// nothing when the list does not hold it.
pub fn your_contribution(entries: &Vec<(String, i64)>, id: &str) -> (r: (Option<i64>, Option<i64>))
    requires
        entries@.len() <= i64::MAX,
    ensures
        (forall|t: int| 0 <= t < entries@.len() ==> (#[trigger] entries@[t]).0@ != id@) ==> r == (None::<i64>, None::<i64>),
        r.0 is None ==> r.1 is None && forall|t: int| 0 <= t < entries@.len() ==> (#[trigger] entries@[t]).0@ != id@,
        r.0 matches Some(k) ==> exists|t: int| {
            &&& #[trigger] first_entry(entries@, id@, t)
            &&& k == count_below(items_view(entries@), entries@[t].1 as int)
            &&& r.1 == Some((entries@.len() - k) as i64)
        },
{
    let mut t: usize = 0;
    while t < entries.len()
        invariant
            t <= entries@.len(),
            entries@.len() <= i64::MAX,
            forall|s: int| 0 <= s < t ==> (#[trigger] entries@[s]).0@ != id@,
        decreases entries@.len() - t,
    {
        if str_eq(entries[t].0.as_str(), id) {
            let place = count_items_below(entries, entries[t].1);
            let n = entries.len() as i64;
            let k = place as i64;
            assert(first_entry(entries@, id@, t as int));
            return (Some(k), Some(n - k));
        }
        t += 1;
    }
    (None, None)
}


// ----------------------------------------------------------------------------
// Ranking insight
// ----------------------------------------------------------------------------

/// What the detail page says about a proposal's place in the ranking.
/// `position_sum / rankers_count` is the average place.
pub struct RankingInsight {
    pub rankers_count: i64,
    pub top3_count: i64,
    pub position_sum: i64,
    pub agreement: Option<String>,
    pub summary: String,
    pub your_position: Option<i64>,
    pub your_points: Option<i64>,
    pub points_for_first: i64,
}

/// `"s"` unless `n` is one.
pub open spec fn plural(n: int) -> Seq<char> {
    if n == 1 { Seq::empty() } else { "s"@ }
}

pub open spec fn opt_part(b: bool, part: Seq<char>) -> Seq<Seq<char>> {
    if b { seq![part] } else { Seq::empty() }
}

/// The sentences of the summary, in order.
pub open spec fn insight_parts(
    rankers: int,
    top3: int,
    rank_position: Option<i64>,
    mean_position_text: Option<Seq<char>>,
    agreement: Option<Seq<char>>,
    your_position: Option<i64>,
    your_points: Option<i64>,
) -> Seq<Seq<char>> {
    (match rank_position {
        Some(pos) => seq!["Está #"@ + decimal_text(pos as int) + " en el ranking global"@],
        None => Seq::empty(),
    }) + seq![decimal_text(rankers) + " vecino"@ + plural(rankers) + " la priorizaron"@]
        + opt_part(top3 > 0, decimal_text(top3) + " la pusieron entre sus 3 primeras"@)
        + (match mean_position_text {
        Some(t) => seq!["posición media "@ + t],
        None => Seq::empty(),
    }) + (if agreement == Some("consensus"@) {
        seq!["hay consenso claro"@]
    } else if agreement == Some("polarized"@) {
        seq!["divide opiniones"@]
    } else {
        Seq::empty()
    }) + (match (your_position, your_points) {
        (Some(yp), Some(ypts)) => seq![
            "tu #"@ + decimal_text(yp + 1) + " aporta "@ + decimal_text(ypts as int) + " punto"@ + plural(
                ypts as int,
            ),
        ],
        _ => Seq::empty(),
    })
}

/// The parts joined by `"; "`.
pub open spec fn join_parts(parts: Seq<Seq<char>>) -> Seq<char>
    decreases parts.len(),
{
    if parts.len() == 0 {
        Seq::empty()
    } else if parts.len() == 1 {
        parts[0]
    } else {
        join_parts(parts.drop_last()) + "; "@ + parts.last()
    }
}

/// The summary sentence: a fixed sentence when nobody ranked the proposal, else
/// the parts joined by `"; "` and ended with a period.
pub open spec fn insight_summary(
    rankers: int,
    top3: int,
    rank_position: Option<i64>,
    mean_position_text: Option<Seq<char>>,
    agreement: Option<Seq<char>>,
    your_position: Option<i64>,
    your_points: Option<i64>,
) -> Seq<char> {
    if rankers == 0 {
        "Todavía nadie priorizó esta propuesta."@
    } else {
        join_parts(insight_parts(rankers, top3, rank_position, mean_position_text, agreement, your_position, your_points)) + "."@
    }
}

fn push_part(parts: &mut Vec<String>, part: String)
    ensures
        final(parts)@.len() == old(parts)@.len() + 1,
        forall|i: int| 0 <= i < old(parts)@.len() ==> (#[trigger] final(parts)@[i])@ == old(parts)@[i]@,
        final(parts)@[old(parts)@.len() as int]@ == part@,
{
    parts.push(part);
}

pub open spec fn parts_view(parts: Seq<String>) -> Seq<Seq<char>> {
    Seq::new(parts.len(), |i: int| parts[i]@)
}

/// Writes the summary of a proposal's ranking. The average position is given as
/// its text, `mean_position_text`, present only when the average is positive.
/// The first part always starts with "E", a digit or "-", so the summary starts
/// with an upper-case letter or a digit as written.
pub fn build_ranking_insight(
    stats: Option<&crate::ranking::ProposalRankingStats>,
    agreement: Option<&str>,
    rank_position: Option<i64>,
    active_count: i64,
    your_position: Option<i64>,
    your_points: Option<i64>,
    mean_position_text: Option<&str>,
) -> (r: RankingInsight)
    requires
        your_position matches Some(p) ==> p < i64::MAX,
    ensures
        ({
            let rankers = match stats { Some(s) => s.rankers_count as int, None => 0 };
            let top3 = match stats { Some(s) => s.top3_count as int, None => 0 };
            &&& r.rankers_count == rankers
            &&& r.top3_count == top3
            &&& r.position_sum == (match stats { Some(s) => s.position_sum as int, None => 0 })
            &&& (match agreement { Some(a) => r.agreement matches Some(x) && x@ == a@, None => r.agreement is None })
            &&& r.your_position == your_position
            &&& r.your_points == your_points
            &&& r.points_for_first == if active_count >= 1 { active_count } else { 1 }
            &&& r.summary@ == insight_summary(
                rankers,
                top3,
                rank_position,
                match mean_position_text { Some(t) => Some(t@), None => None },
                match agreement { Some(a) => Some(a@), None => None },
                your_position,
                your_points,
            )
        }),
{
    let rankers: i64 = match stats { Some(s) => s.rankers_count, None => 0 };
    let top3: i64 = match stats { Some(s) => s.top3_count, None => 0 };
    let position_sum: i64 = match stats { Some(s) => s.position_sum, None => 0 };
    let points_for_first = if active_count >= 1 { active_count } else { 1 };
    let agreement_owned: Option<String> = match agreement {
        Some(a) => Some(owned(a)),
        None => None,
    };
    let ghost mean_v = match mean_position_text { Some(t) => Some(t@), None => None::<Seq<char>> };
    let ghost agreement_v = match agreement { Some(a) => Some(a@), None => None::<Seq<char>> };
    let summary = if rankers == 0 {
        owned("Todavía nadie priorizó esta propuesta.")
    } else {
        let parts = summary_parts(rankers, top3, rank_position, mean_position_text, agreement, your_position, your_points);
        join_with_period(&parts)
    };
    RankingInsight {
        rankers_count: rankers,
        top3_count: top3,
        position_sum,
        agreement: agreement_owned,
        summary,
        your_position,
        your_points,
        points_for_first,
    }
}

fn rank_part(pos: i64) -> (t: String)
    ensures
        t@ == "Está #"@ + decimal_text(pos as int) + " en el ranking global"@,
{
    let mut t = owned("Está #");
    push_decimal(&mut t, pos);
    t.append(" en el ranking global");
    t
}

fn rankers_part(rankers: i64) -> (t: String)
    ensures
        t@ == decimal_text(rankers as int) + " vecino"@ + plural(rankers as int) + " la priorizaron"@,
{
    let mut t = String::new();
    push_decimal(&mut t, rankers);
    t.append(" vecino");
    if rankers != 1 {
        t.append("s");
    }
    t.append(" la priorizaron");
    proof {
        if rankers == 1 {
            assert(decimal_text(rankers as int) + " vecino"@ + plural(rankers as int) =~= decimal_text(rankers as int) + " vecino"@);
        }
    }
    t
}

fn top3_part(top3: i64) -> (t: String)
    ensures
        t@ == decimal_text(top3 as int) + " la pusieron entre sus 3 primeras"@,
{
    let mut t = String::new();
    push_decimal(&mut t, top3);
    t.append(" la pusieron entre sus 3 primeras");
    t
}

fn your_part(yp: i64, ypts: i64) -> (t: String)
    requires
        yp < i64::MAX,
    ensures
        t@ == "tu #"@ + decimal_text(yp + 1) + " aporta "@ + decimal_text(ypts as int) + " punto"@ + plural(ypts as int),
{
    let mut t = owned("tu #");
    push_decimal(&mut t, yp + 1);
    t.append(" aporta ");
    push_decimal(&mut t, ypts);
    t.append(" punto");
    if ypts != 1 {
        t.append("s");
    }
    proof {
        let base = "tu #"@ + decimal_text(yp + 1) + " aporta "@ + decimal_text(ypts as int) + " punto"@;
        if ypts == 1 {
            assert(base + plural(ypts as int) =~= base);
        }
    }
    t
}

fn summary_parts(
    rankers: i64,
    top3: i64,
    rank_position: Option<i64>,
    mean_position_text: Option<&str>,
    agreement: Option<&str>,
    your_position: Option<i64>,
    your_points: Option<i64>,
) -> (parts: Vec<String>)
    requires
        your_position matches Some(p) ==> p < i64::MAX,
    ensures
        parts@.len() > 0,
        parts_view(parts@) == insight_parts(
            rankers as int,
            top3 as int,
            rank_position,
            match mean_position_text { Some(t) => Some(t@), None => None },
            match agreement { Some(a) => Some(a@), None => None },
            your_position,
            your_points,
        ),
{
    let mut parts: Vec<String> = Vec::new();
    match rank_position {
        Some(pos) => push_part(&mut parts, rank_part(pos)),
        None => {},
    }
    let ghost v1 = parts_view(parts@);
    push_part(&mut parts, rankers_part(rankers));
    let ghost v2 = parts_view(parts@);
    assert(v2 =~= v1 + seq![decimal_text(rankers as int) + " vecino"@ + plural(rankers as int) + " la priorizaron"@]);
    if top3 > 0 {
        push_part(&mut parts, top3_part(top3));
    }
    let ghost v3 = parts_view(parts@);
    assert(v3 =~= v2 + opt_part(top3 > 0, decimal_text(top3 as int) + " la pusieron entre sus 3 primeras"@));
    match mean_position_text {
        Some(text) => push_part(&mut parts, concat("posición media ", text)),
        None => {},
    }
    let ghost v4 = parts_view(parts@);
    match agreement {
        Some(a) => {
            if str_eq(a, "consensus") {
                push_part(&mut parts, owned("hay consenso claro"));
            } else if str_eq(a, "polarized") {
                push_part(&mut parts, owned("divide opiniones"));
            }
        },
        None => {},
    }
    let ghost v5 = parts_view(parts@);
    match (your_position, your_points) {
        (Some(yp), Some(ypts)) => push_part(&mut parts, your_part(yp, ypts)),
        _ => {},
    }
    proof {
        let mean_v = match mean_position_text { Some(t) => Some(t@), None => None::<Seq<char>> };
        let agreement_v = match agreement { Some(a) => Some(a@), None => None::<Seq<char>> };
        let s4: Seq<Seq<char>> = match mean_v {
            Some(t) => seq!["posición media "@ + t],
            None => Seq::empty(),
        };
        let s5: Seq<Seq<char>> = if agreement_v == Some("consensus"@) {
            seq!["hay consenso claro"@]
        } else if agreement_v == Some("polarized"@) {
            seq!["divide opiniones"@]
        } else {
            Seq::empty()
        };
        let s6: Seq<Seq<char>> = match (your_position, your_points) {
            (Some(yp), Some(ypts)) => seq![
                "tu #"@ + decimal_text(yp + 1) + " aporta "@ + decimal_text(ypts as int) + " punto"@ + plural(ypts as int),
            ],
            _ => Seq::empty(),
        };
        assert(v4 =~= v3 + s4);
        assert(v5 =~= v4 + s5);
        assert(parts_view(parts@) =~= v5 + s6);
        let s1: Seq<Seq<char>> = match rank_position {
            Some(pos) => seq!["Está #"@ + decimal_text(pos as int) + " en el ranking global"@],
            None => Seq::empty(),
        };
        assert(v1 =~= s1);
    }
    parts
}

/// The parts joined by `"; "`, followed by a period.
fn join_with_period(parts: &Vec<String>) -> (s: String)
    requires
        parts@.len() > 0,
    ensures
        s@ == join_parts(parts_view(parts@)) + "."@,
{
    let mut s = owned(parts[0].as_str());
    let mut i: usize = 1;
    proof {
        assert(parts_view(parts@).take(1) =~= seq![parts@[0]@]);
    }
    while i < parts.len()
        invariant
            1 <= i <= parts@.len(),
            s@ == join_parts(parts_view(parts@).take(i as int)),
        decreases parts@.len() - i,
    {
        s.append("; ");
        s.append(parts[i].as_str());
        proof {
            let pv = parts_view(parts@);
            assert(pv.take(i + 1).drop_last() =~= pv.take(i as int));
            assert(pv.take(i + 1).last() == parts@[i as int]@);
        }
        i += 1;
    }
    proof {
        assert(parts_view(parts@).take(parts@.len() as int) =~= parts_view(parts@));
    }
    s.append(".");
    s
}


// ----------------------------------------------------------------------------
// Laws of proposals
// ----------------------------------------------------------------------------

/// A rejected proposal can only be reopened (back to `activa`), never moved
/// straight to analysis.
pub proof fn lemma_rejected_only_reopens(to: Seq<char>)
    requires
        spec_transition_allowed(STATUS_REJECTED@, to),
    ensures
        to == STATUS_REJECTED@ || to == STATUS_ACTIVE@,
{
    reveal_strlit("rechazada");
    reveal_strlit("activa");
    reveal_strlit("en_analisis");
}

/// Every transition that changes the status leads from a valid status to a
/// valid status.
pub proof fn lemma_transitions_stay_valid(from: Seq<char>, to: Seq<char>)
    requires
        spec_transition_allowed(from, to),
        from != to,
    ensures
        spec_valid_status(from),
        spec_valid_status(to),
{
}

/// Each transition of the life cycle is allowed, and keeping the status is
/// always allowed.
pub proof fn lemma_life_cycle(s: Seq<char>)
    ensures
        spec_transition_allowed(s, s),
        spec_transition_allowed(STATUS_ACTIVE@, STATUS_IN_ANALYSIS@),
        spec_transition_allowed(STATUS_ACTIVE@, STATUS_REJECTED@),
        spec_transition_allowed(STATUS_IN_ANALYSIS@, STATUS_ACTIVE@),
        spec_transition_allowed(STATUS_IN_ANALYSIS@, STATUS_REJECTED@),
        spec_transition_allowed(STATUS_REJECTED@, STATUS_ACTIVE@),
{
}

/// Someone who is not a platform admin edits only their own proposals, and only
/// while they are `activa`.
pub proof fn lemma_edit_rights(user_role: Seq<char>, user_id: Seq<char>, author_id: Seq<char>, status: Seq<char>)
    requires
        spec_can_edit(user_role, user_id, author_id, status),
        !spec_is_global_admin(user_role),
    ensures
        author_id == user_id,
        status == STATUS_ACTIVE@,
{
}

proof fn lemma_join_one(a: Seq<char>)
    ensures
        join_parts(seq![a]) == a,
{
}

proof fn lemma_join_push(parts: Seq<Seq<char>>, x: Seq<char>)
    requires
        parts.len() > 0,
    ensures
        join_parts(parts.push(x)) == join_parts(parts) + "; "@ + x,
{
    assert(parts.push(x).drop_last() =~= parts);
    assert(parts.push(x).last() == x);
}

/// The top-3 sentence of the summary is there exactly when someone put the
/// proposal among their first three: with `top3 > 0` the parts are those for
/// `top3 = 0` with "`top3` la pusieron entre sus 3 primeras" inserted right after
/// the sentence on the number of rankers; otherwise they are those for `top3 = 0`.
pub proof fn lemma_top3_sentence(
    rankers: int,
    top3: int,
    rank_position: Option<i64>,
    mean_position_text: Option<Seq<char>>,
    agreement: Option<Seq<char>>,
    your_position: Option<i64>,
    your_points: Option<i64>,
)
    ensures
        ({
            let with = insight_parts(rankers, top3, rank_position, mean_position_text, agreement, your_position, your_points);
            let without = insight_parts(rankers, 0, rank_position, mean_position_text, agreement, your_position, your_points);
            let at = if rank_position is Some { 2int } else { 1int };
            &&& top3 > 0 ==> with == without.insert(at, decimal_text(top3) + " la pusieron entre sus 3 primeras"@)
            &&& top3 <= 0 ==> with == without
        }),
{
    let with = insight_parts(rankers, top3, rank_position, mean_position_text, agreement, your_position, your_points);
    let without = insight_parts(rankers, 0, rank_position, mean_position_text, agreement, your_position, your_points);
    let at: int = if rank_position is Some { 2int } else { 1int };
    if top3 > 0 {
        assert(with =~= without.insert(at, decimal_text(top3) + " la pusieron entre sus 3 primeras"@));
    } else {
        assert(with =~= without);
    }
}

/// The summary, written out, when the detail page has no mean, agreement or
/// contribution to show: nobody ranked it, or "Está #k en el ranking global"
/// (when it has a place), "n vecino(s) la priorizaron", and
/// "t la pusieron entre sus 3 primeras" when `t > 0`, joined by "; " and ended
/// with a period.
pub proof fn lemma_summary_text(rankers: int, top3: int, rank_position: Option<i64>)
    ensures
        insight_summary(rankers, top3, rank_position, None, None, None, None) == if rankers == 0 {
            "Todavía nadie priorizó esta propuesta."@
        } else {
            (match rank_position {
                Some(k) => "Está #"@ + decimal_text(k as int) + " en el ranking global"@ + "; "@,
                None => Seq::<char>::empty(),
            }) + decimal_text(rankers) + " vecino"@ + (if rankers == 1 { Seq::<char>::empty() } else { "s"@ })
                + " la priorizaron"@ + (if top3 > 0 {
                "; "@ + decimal_text(top3) + " la pusieron entre sus 3 primeras"@
            } else {
                Seq::<char>::empty()
            }) + "."@
        },
{
    if rankers != 0 {
        let parts = insight_parts(rankers, top3, rank_position, None, None, None, None);
        let b = decimal_text(rankers) + " vecino"@ + plural(rankers) + " la priorizaron"@;
        let c = decimal_text(top3) + " la pusieron entre sus 3 primeras"@;
        let head: Seq<Seq<char>> = match rank_position {
            Some(k) => seq!["Está #"@ + decimal_text(k as int) + " en el ranking global"@, b],
            None => seq![b],
        };
        if top3 > 0 {
            assert(parts =~= head.push(c));
            lemma_join_push(head, c);
        } else {
            assert(parts =~= head);
        }
        match rank_position {
            Some(k) => {
                let a = "Está #"@ + decimal_text(k as int) + " en el ranking global"@;
                assert(seq![a].push(b) =~= head);
                lemma_join_one(a);
                lemma_join_push(seq![a], b);
                assert(join_parts(head) =~= a + "; "@ + b);
            },
            None => {
                lemma_join_one(b);
            },
        }
        let tail: Seq<char> = if top3 > 0 { "; "@ + c } else { Seq::<char>::empty() };
        assert(join_parts(parts) =~= join_parts(head) + tail);
        assert(plural(rankers) == (if rankers == 1 { Seq::<char>::empty() } else { "s"@ }));
        match rank_position {
            Some(k) => {
                assert(join_parts(parts) + "."@ =~= "Está #"@ + decimal_text(k as int) + " en el ranking global"@ + "; "@ + b + tail + "."@);
            },
            None => {
                assert(join_parts(parts) + "."@ =~= b + tail + "."@);
            },
        }
    }
}

/// The other optional sentences of the summary, each relative to the parts
/// without it: the mean place ("posición media" and its text) comes right after
/// the top-3 sentence; "hay consenso claro" for consensus and "divide opiniones"
/// for a polarized ranking come after that, and no sentence for any other
/// agreement; "tu #(p+1) aporta x punto(s)" comes last, only when both the
/// user's place and points are known.
pub proof fn lemma_optional_sentences(
    rankers: int,
    top3: int,
    rank_position: Option<i64>,
    mean_position_text: Option<Seq<char>>,
    agreement: Option<Seq<char>>,
    your_position: Option<i64>,
    your_points: Option<i64>,
)
    ensures
        ({
            let base = (if rank_position is Some { 1int } else { 0int }) + 1 + (if top3 > 0 { 1int } else { 0int });
            let no_mean = insight_parts(rankers, top3, rank_position, None, agreement, your_position, your_points);
            let all = insight_parts(rankers, top3, rank_position, mean_position_text, agreement, your_position, your_points);
            &&& mean_position_text matches Some(t) ==> all == no_mean.insert(base, "posición media "@ + t)
        }),
        ({
            let at = (if rank_position is Some { 1int } else { 0int }) + 1 + (if top3 > 0 { 1int } else { 0int })
                + (if mean_position_text is Some { 1int } else { 0int });
            let none = insight_parts(rankers, top3, rank_position, mean_position_text, None, your_position, your_points);
            &&& insight_parts(rankers, top3, rank_position, mean_position_text, Some("consensus"@), your_position, your_points)
                == none.insert(at, "hay consenso claro"@)
            &&& insight_parts(rankers, top3, rank_position, mean_position_text, Some("polarized"@), your_position, your_points)
                == none.insert(at, "divide opiniones"@)
            &&& (agreement != Some("consensus"@) && agreement != Some("polarized"@) ==> insight_parts(
                rankers, top3, rank_position, mean_position_text, agreement, your_position, your_points) == none)
        }),
        ({
            let mine = insight_parts(rankers, top3, rank_position, mean_position_text, agreement, your_position, your_points);
            let not_mine = insight_parts(rankers, top3, rank_position, mean_position_text, agreement, None, None);
            match (your_position, your_points) {
                (Some(yp), Some(ypts)) => mine == not_mine.push(
                    "tu #"@ + decimal_text(yp + 1) + " aporta "@ + decimal_text(ypts as int) + " punto"@
                        + (if ypts == 1 { Seq::<char>::empty() } else { "s"@ })),
                _ => mine == not_mine,
            }
        }),
{
    let base = (if rank_position is Some { 1int } else { 0int }) + 1 + (if top3 > 0 { 1int } else { 0int });
    match mean_position_text {
        Some(t) => {
            let no_mean = insight_parts(rankers, top3, rank_position, None, agreement, your_position, your_points);
            let all = insight_parts(rankers, top3, rank_position, mean_position_text, agreement, your_position, your_points);
            assert(all =~= no_mean.insert(base, "posición media "@ + t));
        },
        None => {},
    }
    let at = base + (if mean_position_text is Some { 1int } else { 0int });
    let none = insight_parts(rankers, top3, rank_position, mean_position_text, None, your_position, your_points);
    reveal_strlit("consensus");
    reveal_strlit("polarized");
    assert("consensus"@ != "polarized"@) by {
        assert("consensus"@[0] != "polarized"@[0]);
    }
    assert(insight_parts(rankers, top3, rank_position, mean_position_text, Some("consensus"@), your_position, your_points)
        =~= none.insert(at, "hay consenso claro"@));
    assert(insight_parts(rankers, top3, rank_position, mean_position_text, Some("polarized"@), your_position, your_points)
        =~= none.insert(at, "divide opiniones"@));
    if agreement != Some("consensus"@) && agreement != Some("polarized"@) {
        assert(insight_parts(rankers, top3, rank_position, mean_position_text, agreement, your_position, your_points) =~= none);
    }
    let mine = insight_parts(rankers, top3, rank_position, mean_position_text, agreement, your_position, your_points);
    let not_mine = insight_parts(rankers, top3, rank_position, mean_position_text, agreement, None, None);
    match (your_position, your_points) {
        (Some(yp), Some(ypts)) => {
            assert(plural(ypts as int) == (if ypts == 1 { Seq::<char>::empty() } else { "s"@ }));
            assert(mine =~= not_mine.push(
                "tu #"@ + decimal_text(yp + 1) + " aporta "@ + decimal_text(ypts as int) + " punto"@
                    + (if ypts == 1 { Seq::<char>::empty() } else { "s"@ })));
        },
        _ => {
            assert(mine =~= not_mine);
        },
    }
}

/// The proposal life cycle, written out: keeping the status is always allowed;
/// otherwise `activa` may go to `en_analisis` or `rechazada`, `en_analisis` to
/// `activa` or `rechazada`, and `rechazada` only back to `activa`.
pub proof fn lemma_transition_rule(from: Seq<char>, to: Seq<char>)
    ensures
        spec_transition_allowed(from, to) <==> (from == to
            || (from == "activa"@ && (to == "en_analisis"@ || to == "rechazada"@))
            || (from == "en_analisis"@ && (to == "activa"@ || to == "rechazada"@))
            || (from == "rechazada"@ && to == "activa"@)),
        spec_valid_status(to) <==> (to == "activa"@ || to == "en_analisis"@ || to == "rechazada"@),
{
}

/// Who edits a proposal: a platform admin always; its author only while it is
/// `activa`; nobody else.
pub proof fn lemma_edit_rule(user_role: Seq<char>, user_id: Seq<char>, author_id: Seq<char>, status: Seq<char>)
    ensures
        spec_can_edit(user_role, user_id, author_id, status) <==> (user_role == "admin"@
            || (author_id == user_id && status == "activa"@)),
{
}

} // verus!
