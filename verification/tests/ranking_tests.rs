use priora_api::ranking::{
    classify_agreement, compute_borda_scores, compute_ranking_stats, count_eligible_rankers,
    eligible_ranking_rows, group_by_user, saved_ranking_rows, user_places, validate_ranking_submission,
    RankingCandidate, RankingRow, SpreadBand, MIN_RANKERS_FOR_AGREEMENT,
};
use priora_api::error::AppError;

fn row(user: &str, proposal: &str, position: i64) -> RankingRow {
    RankingRow { user_id: user.to_string(), proposal_id: proposal.to_string(), position }
}

fn list(user: &str, proposals: &[&str]) -> Vec<RankingRow> {
    proposals.iter().enumerate().map(|(i, p)| row(user, p, i as i64)).collect()
}

fn score_of(scores: &[(String, i64)], p: &str) -> Option<i64> {
    scores.iter().find(|(k, _)| k == p).map(|(_, s)| *s)
}

fn demo_rows() -> Vec<RankingRow> {
    let mut rows = list("carlos", &["p201", "p206", "p202", "p205", "p203", "p208", "p207"]);
    rows.extend(list("ana", &["p202", "p201", "p203", "p208", "p206", "p205", "p207"]));
    rows.extend(list("luis", &["p206", "p205", "p201", "p208", "p202", "p207", "p203"]));
    rows
}

#[test]
fn borda_scores_of_three_lists() {
    let scores = compute_borda_scores(&demo_rows());
    assert_eq!(scores.len(), 7);
    assert_eq!(score_of(&scores, "p201"), Some(18));
    assert_eq!(score_of(&scores, "p202"), Some(15));
    assert_eq!(score_of(&scores, "p203"), Some(9));
    assert_eq!(score_of(&scores, "p205"), Some(12));
    assert_eq!(score_of(&scores, "p206"), Some(16));
    assert_eq!(score_of(&scores, "p207"), Some(4));
    assert_eq!(score_of(&scores, "p208"), Some(10));
    assert_eq!(score_of(&scores, "p999"), None);
}

#[test]
fn single_list_gives_n_minus_position() {
    let rows = list("u", &["a", "b", "c", "d"]);
    let scores = compute_borda_scores(&rows);
    assert_eq!(score_of(&scores, "a"), Some(4));
    assert_eq!(score_of(&scores, "b"), Some(3));
    assert_eq!(score_of(&scores, "c"), Some(2));
    assert_eq!(score_of(&scores, "d"), Some(1));
}

#[test]
fn dropped_entry_leaves_no_gap() {
    // u saved [r, a, b]; r was rejected, so only a and b reach the count.
    let rows = vec![row("u", "a", 1), row("u", "b", 2)];
    let scores = compute_borda_scores(&rows);
    assert_eq!(score_of(&scores, "a"), Some(2));
    assert_eq!(score_of(&scores, "b"), Some(1));
    let stats = compute_ranking_stats(&rows);
    let (_, sa) = stats.iter().find(|(k, _)| k == "a").unwrap();
    assert_eq!(sa.position_sum, 0);
    assert_eq!(sa.top3_count, 1);
    let (_, sb) = stats.iter().find(|(k, _)| k == "b").unwrap();
    assert_eq!(sb.position_sum, 1);
}

#[test]
fn places_follow_stored_order() {
    // Entries arrive out of order and with gaps: places count what stands before.
    let rows = vec![row("u", "c", 9), row("u", "a", 2), row("u", "b", 5)];
    let scores = compute_borda_scores(&rows);
    assert_eq!(score_of(&scores, "a"), Some(3));
    assert_eq!(score_of(&scores, "b"), Some(2));
    assert_eq!(score_of(&scores, "c"), Some(1));
    let items = vec![("c".to_string(), 9), ("a".to_string(), 2), ("b".to_string(), 5)];
    assert_eq!(user_places(&items), vec![2, 0, 1]);
    assert!(user_places(&Vec::new()).is_empty());
}

#[test]
fn lists_of_different_lengths() {
    // A list of two gives 2 and 1; a list of three gives 3, 2 and 1.
    let mut rows = list("u1", &["a", "b"]);
    rows.extend(list("u2", &["b", "c", "a"]));
    let scores = compute_borda_scores(&rows);
    assert_eq!(score_of(&scores, "a"), Some(2 + 1));
    assert_eq!(score_of(&scores, "b"), Some(1 + 3));
    assert_eq!(score_of(&scores, "c"), Some(2));
    // first appearance order of the keys
    let keys: Vec<&str> = scores.iter().map(|(k, _)| k.as_str()).collect();
    assert_eq!(keys, vec!["a", "b", "c"]);
}

#[test]
fn no_rows_no_scores() {
    assert!(compute_borda_scores(&Vec::new()).is_empty());
    assert_eq!(count_eligible_rankers(&Vec::new()), 0);
}

#[test]
fn ranking_stats_counts() {
    let stats = compute_ranking_stats(&demo_rows());
    let (_, s201) = stats.iter().find(|(k, _)| k == "p201").unwrap();
    assert_eq!(s201.score, 18);
    assert_eq!(s201.rankers_count, 3);
    assert_eq!(s201.top3_count, 3);
    assert_eq!(s201.position_sum, 0 + 1 + 2);
    let (_, s207) = stats.iter().find(|(k, _)| k == "p207").unwrap();
    assert_eq!(s207.score, 4);
    assert_eq!(s207.top3_count, 0);
    assert_eq!(s207.position_sum, 6 + 6 + 5);
    let (_, s208) = stats.iter().find(|(k, _)| k == "p208").unwrap();
    assert_eq!(s208.top3_count, 0);
    assert_eq!(s208.position_sum, 5 + 3 + 3);
}

#[test]
fn grouping_keeps_first_appearance_order() {
    let rows = vec![row("b", "x", 0), row("a", "y", 0), row("b", "z", 1)];
    let groups = group_by_user(&rows);
    assert_eq!(groups.len(), 2);
    assert_eq!(groups[0].0, "b");
    assert_eq!(groups[0].1, vec![("x".to_string(), 0), ("z".to_string(), 1)]);
    assert_eq!(groups[1].0, "a");
    assert_eq!(groups[1].1, vec![("y".to_string(), 0)]);
    assert_eq!(count_eligible_rankers(&demo_rows()), 3);
}

fn candidate(user: &str, proposal: &str, position: i64, role: &str, status: Option<&str>) -> RankingCandidate {
    RankingCandidate {
        user_id: user.to_string(),
        proposal_id: proposal.to_string(),
        position,
        user_role: role.to_string(),
        member_status: status.map(|s| s.to_string()),
    }
}

fn candidates() -> Vec<RankingCandidate> {
    vec![
        candidate("active", "p", 0, "regular", Some("active")),
        candidate("pending", "p", 0, "regular", Some("pending")),
        candidate("admin", "q", 0, "admin", None),
        candidate("outsider", "q", 0, "proponent", None),
        candidate("rejected", "p", 0, "regular", Some("rejected")),
        candidate("disabled", "q", 0, "regular", Some("disabled")),
    ]
}

#[test]
fn approval_keeps_active_members_and_admins() {
    let rows = eligible_ranking_rows(candidates(), true);
    let users: Vec<&str> = rows.iter().map(|r| r.user_id.as_str()).collect();
    assert_eq!(users, vec!["active", "admin"]);
}

#[test]
fn open_space_keeps_everyone() {
    let rows = eligible_ranking_rows(candidates(), false);
    assert_eq!(rows.len(), 6);
    assert_eq!(rows[3].user_id, "outsider");
    assert_eq!(rows[3].proposal_id, "q");
}

#[test]
fn pending_prioritisation_does_not_change_scores() {
    let base = vec![candidate("active", "p", 0, "regular", Some("active"))];
    let mut more = vec![candidate("active", "p", 0, "regular", Some("active"))];
    more.push(candidate("pending", "p", 0, "regular", Some("pending")));
    more.push(candidate("pending", "q", 1, "regular", Some("pending")));
    let a = compute_borda_scores(&eligible_ranking_rows(base, true));
    let b = compute_borda_scores(&eligible_ranking_rows(more, true));
    assert_eq!(a, b);
    assert_eq!(a, vec![("p".to_string(), 1)]);
}

#[test]
fn agreement_labels() {
    assert_eq!(MIN_RANKERS_FOR_AGREEMENT, 3);
    assert_eq!(classify_agreement(2, SpreadBand::Low), None);
    assert_eq!(classify_agreement(3, SpreadBand::Low), Some("consensus"));
    assert_eq!(classify_agreement(3, SpreadBand::High), Some("polarized"));
    assert_eq!(classify_agreement(10, SpreadBand::Middle), None);
}

#[test]
fn submission_must_hold_active_proposals() {
    let active = vec!["a".to_string(), "b".to_string()];
    assert!(validate_ranking_submission(&active, &vec!["b".to_string(), "a".to_string()]).is_ok());
    assert!(validate_ranking_submission(&active, &Vec::new()).is_ok());
    match validate_ranking_submission(&active, &vec!["a".to_string(), "x".to_string(), "y".to_string()]) {
        Err(AppError::BadRequest(m)) => assert_eq!(m, "invalid or inactive proposal: x"),
        other => panic!("unexpected {:?}", other),
    }
}

#[test]
fn saved_rows_follow_list_order() {
    let ids = vec!["a".to_string(), "b".to_string(), "c".to_string()];
    let rows = saved_ranking_rows("u", &ids);
    assert_eq!(rows.len(), 3);
    assert_eq!(rows[2].proposal_id, "c");
    assert_eq!(rows[2].position, 2);
    assert_eq!(rows[0].user_id, "u");
    let scores = compute_borda_scores(&rows);
    assert_eq!(scores, vec![("a".to_string(), 3), ("b".to_string(), 2), ("c".to_string(), 1)]);
}
