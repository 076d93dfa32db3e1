use priora_api::error::AppError;
use priora_api::models::{
    Category, CreateProposalRequest, NamespaceMember, Proposal, ProposalListItem,
    UpdateProposalRequest, User, UserPublic,
};
use priora_api::proposals::{
    build_ranking_insight, can_edit_proposal, check_status_change, default_filter,
    is_valid_status, plan_proposal_update, prepare_new_proposal, rank_of, sort_proposals_by_score,
    status_transition_allowed, statuses_for_filter, tracker_changed, your_contribution,
};
use priora_api::ranking::ProposalRankingStats;

fn user(id: &str, role: &str, profile_complete: bool) -> User {
    User {
        id: id.to_string(),
        google_sub: format!("dev:{id}"),
        email: format!("{id}@priora.local"),
        name: format!("Name {id}"),
        picture_url: None,
        role: role.to_string(),
        street: None,
        floor_apt: None,
        city: None,
        postal_code: None,
        profile_complete,
        created_at: 0,
        updated_at: 0,
    }
}

fn proposal(author: &str, status: &str) -> Proposal {
    Proposal {
        id: "p1".to_string(),
        title: "Plaza".to_string(),
        description: "Renovar la plaza".to_string(),
        logo_url: Some("/uploads/a.png".to_string()),
        status: status.to_string(),
        author_id: author.to_string(),
        tracker_id: None,
        category_id: Some("recreacion".to_string()),
        namespace_id: Some("ns-1".to_string()),
        created_at: 10,
        updated_at: 10,
    }
}

#[test]
fn life_cycle_transitions() {
    assert!(status_transition_allowed("activa", "en_analisis"));
    assert!(status_transition_allowed("activa", "rechazada"));
    assert!(status_transition_allowed("en_analisis", "activa"));
    assert!(status_transition_allowed("en_analisis", "rechazada"));
    assert!(status_transition_allowed("rechazada", "activa"));
    assert!(status_transition_allowed("rechazada", "rechazada"));
    assert!(!status_transition_allowed("rechazada", "en_analisis"));
    assert!(!status_transition_allowed("activa", "cerrada"));
    assert!(is_valid_status("en_analisis"));
    assert!(!is_valid_status("cerrada"));
}

#[test]
fn status_change_checks() {
    assert_eq!(check_status_change("activa", "en_analisis").unwrap(), true);
    assert_eq!(check_status_change("activa", "activa").unwrap(), false);
    match check_status_change("activa", "cerrada") {
        Err(AppError::BadRequest(m)) => assert_eq!(m, "invalid status"),
        _ => panic!("expected a refusal"),
    }
    match check_status_change("rechazada", "en_analisis") {
        Err(AppError::BadRequest(m)) => assert_eq!(m, "transition from rechazada to en_analisis is not allowed"),
        _ => panic!("expected a refusal"),
    }
}

#[test]
fn listing_filters() {
    assert_eq!(default_filter(), "active");
    assert_eq!(statuses_for_filter("rejected"), vec!["rechazada"]);
    assert_eq!(statuses_for_filter("active"), vec!["activa", "en_analisis"]);
    assert_eq!(statuses_for_filter("anything"), vec!["activa", "en_analisis"]);
}

fn create_body(title: &str, description: &str, category: &str) -> CreateProposalRequest {
    CreateProposalRequest {
        title: title.to_string(),
        description: description.to_string(),
        logo_url: None,
        category_id: category.to_string(),
    }
}

#[test]
fn creating_proposals() {
    let proponent = user("p", "proponent", true);
    let p = prepare_new_proposal(&proponent, None, &create_body("  Plaza  ", "\tRenovar\n", " recreacion ")).unwrap();
    assert_eq!(p.title, "Plaza");
    assert_eq!(p.description, "Renovar");
    assert_eq!(p.category_id, "recreacion");
    assert_eq!(p.logo_url, None);

    let regular = user("r", "regular", true);
    assert!(matches!(prepare_new_proposal(&regular, None, &create_body("a", "b", "c")), Err(AppError::Forbidden)));
    let no_profile = user("p", "proponent", false);
    assert!(matches!(prepare_new_proposal(&no_profile, None, &create_body("a", "b", "c")), Err(AppError::Forbidden)));
    match prepare_new_proposal(&proponent, None, &create_body("   ", "b", "c")) {
        Err(AppError::BadRequest(m)) => assert_eq!(m, "title and description required"),
        _ => panic!("expected a refusal"),
    }
    match prepare_new_proposal(&proponent, None, &create_body("a", "b", " ")) {
        Err(AppError::BadRequest(m)) => assert_eq!(m, "category required"),
        _ => panic!("expected a refusal"),
    }
    let member = NamespaceMember {
        namespace_id: "ns-1".to_string(),
        user_id: "r".to_string(),
        role: "proponent".to_string(),
        status: "active".to_string(),
        requested_at: 0,
        reviewed_at: None,
        reviewed_by: None,
    };
    assert!(prepare_new_proposal(&regular, Some(&member), &create_body("a", "b", "c")).is_ok());
}

#[test]
fn proposal_text_limits() {
    let proponent = user("p", "proponent", true);
    let title_200 = "ñ".repeat(200);
    let description_5000 = "é".repeat(5000);
    let p = prepare_new_proposal(&proponent, None, &create_body(&title_200, &description_5000, "c")).unwrap();
    assert_eq!(p.title.chars().count(), 200);
    match prepare_new_proposal(&proponent, None, &create_body(&"t".repeat(201), "b", "c")) {
        Err(AppError::BadRequest(m)) => assert_eq!(m, "title must be at most 200 characters"),
        _ => panic!("expected a refusal"),
    }
    match prepare_new_proposal(&proponent, None, &create_body("a", &"d".repeat(5001), "c")) {
        Err(AppError::BadRequest(m)) => assert_eq!(m, "description must be at most 5000 characters"),
        _ => panic!("expected a refusal"),
    }
    let author = user("u1", "proponent", true);
    let long_title = UpdateProposalRequest { title: Some("t".repeat(201)), description: None, logo_url: None, category_id: None };
    match plan_proposal_update(&author, proposal("u1", "activa"), long_title) {
        Err(AppError::BadRequest(m)) => assert_eq!(m, "title must be at most 200 characters"),
        _ => panic!("expected a refusal"),
    }
    let long_description = UpdateProposalRequest { title: None, description: Some("d".repeat(5001)), logo_url: None, category_id: None };
    match plan_proposal_update(&author, proposal("u1", "activa"), long_description) {
        Err(AppError::BadRequest(m)) => assert_eq!(m, "description must be at most 5000 characters"),
        _ => panic!("expected a refusal"),
    }
}

#[test]
fn editing_rights() {
    let author = user("u1", "proponent", true);
    let other = user("u2", "proponent", true);
    let admin = user("a", "admin", true);
    assert!(can_edit_proposal(&author, &proposal("u1", "activa")));
    assert!(!can_edit_proposal(&author, &proposal("u1", "en_analisis")));
    assert!(!can_edit_proposal(&other, &proposal("u1", "activa")));
    assert!(can_edit_proposal(&admin, &proposal("u1", "rechazada")));
}

#[test]
fn editing_merges_fields() {
    let author = user("u1", "proponent", true);
    let body = UpdateProposalRequest {
        title: Some("Nueva plaza".to_string()),
        description: None,
        logo_url: Some(String::new()),
        category_id: Some(" convivencia ".to_string()),
    };
    let e = plan_proposal_update(&author, proposal("u1", "activa"), body).unwrap();
    assert_eq!(e.title, "Nueva plaza");
    assert_eq!(e.description, "Renovar la plaza");
    assert_eq!(e.logo_url, None);
    assert_eq!(e.category_id, "convivencia");
    assert!(e.check_category);

    let keep = UpdateProposalRequest { title: None, description: None, logo_url: None, category_id: None };
    let e = plan_proposal_update(&author, proposal("u1", "activa"), keep).unwrap();
    assert_eq!(e.logo_url, Some("/uploads/a.png".to_string()));
    assert_eq!(e.category_id, "recreacion");
    assert!(!e.check_category);

    let mut without_category = proposal("u1", "activa");
    without_category.category_id = None;
    let keep = UpdateProposalRequest { title: None, description: None, logo_url: None, category_id: None };
    match plan_proposal_update(&author, without_category, keep) {
        Err(AppError::BadRequest(m)) => assert_eq!(m, "category required"),
        _ => panic!("expected a refusal"),
    }
    let other = user("u2", "regular", true);
    let keep = UpdateProposalRequest { title: None, description: None, logo_url: None, category_id: None };
    assert!(matches!(plan_proposal_update(&other, proposal("u1", "activa"), keep), Err(AppError::Forbidden)));
}

#[test]
fn tracker_changes() {
    assert!(!tracker_changed(&None, &None));
    assert!(tracker_changed(&None, &Some("a".to_string())));
    assert!(tracker_changed(&Some("a".to_string()), &None));
    assert!(!tracker_changed(&Some("a".to_string()), &Some("a".to_string())));
    assert!(tracker_changed(&Some("a".to_string()), &Some("b".to_string())));
}

fn item(id: &str, score: i64, created_at: i64) -> ProposalListItem {
    ProposalListItem {
        id: id.to_string(),
        title: id.to_string(),
        description: String::new(),
        logo_url: None,
        status: "activa".to_string(),
        author: UserPublic { id: "u".to_string(), name: "U".to_string(), picture_url: None, role: "regular".to_string() },
        tracker: None,
        category: Category { id: "seguridad".to_string(), name: "Seguridad".to_string() },
        rank_position: 0,
        score,
        rankers_count: 0,
        agreement: None,
        created_at,
    }
}

#[test]
fn listing_sorted_by_score_then_age() {
    let items = vec![item("new-low", 3, 30), item("old-mid", 10, 5), item("new-mid", 10, 20), item("top", 18, 40), item("tie-b", 3, 30)];
    let out = sort_proposals_by_score(items);
    let ids: Vec<&str> = out.iter().map(|i| i.id.as_str()).collect();
    assert_eq!(ids, vec!["top", "old-mid", "new-mid", "new-low", "tie-b"]);
    let ranks: Vec<i64> = out.iter().map(|i| i.rank_position).collect();
    assert_eq!(ranks, vec![1, 2, 3, 4, 5]);
    assert!(sort_proposals_by_score(Vec::new()).is_empty());
}

#[test]
fn place_in_ranking() {
    let ids = vec!["a".to_string(), "b".to_string(), "c".to_string()];
    assert_eq!(rank_of(&ids, "a"), Some(1));
    assert_eq!(rank_of(&ids, "c"), Some(3));
    assert_eq!(rank_of(&ids, "z"), None);
    let entries = vec![("x".to_string(), 0), ("y".to_string(), 2), ("z".to_string(), 5)];
    assert_eq!(your_contribution(&entries, "x"), (Some(0), Some(3)));
    assert_eq!(your_contribution(&entries, "y"), (Some(1), Some(2)));
    assert_eq!(your_contribution(&entries, "z"), (Some(2), Some(1)));
    assert_eq!(your_contribution(&entries, "w"), (None, None));
    assert_eq!(your_contribution(&Vec::new(), "x"), (None, None));
}

#[test]
fn insight_without_rankers() {
    let r = build_ranking_insight(None, None, None, 0, None, None, None);
    assert_eq!(r.summary, "Todavía nadie priorizó esta propuesta.");
    assert_eq!(r.rankers_count, 0);
    assert_eq!(r.points_for_first, 1);
}

#[test]
fn insight_full_summary() {
    let stats = ProposalRankingStats { score: 18, rankers_count: 3, top3_count: 2, position_sum: 2 };
    let r = build_ranking_insight(Some(&stats), Some("consensus"), Some(2), 7, Some(0), Some(7), Some("1.7"));
    assert_eq!(
        r.summary,
        "Está #2 en el ranking global; 3 vecinos la priorizaron; 2 la pusieron entre sus 3 primeras; posición media 1.7; hay consenso claro; tu #1 aporta 7 puntos."
    );
    assert_eq!(r.points_for_first, 7);
    assert_eq!(r.agreement, Some("consensus".to_string()));
    assert_eq!(r.your_points, Some(7));
}

#[test]
fn insight_singular_forms() {
    let stats = ProposalRankingStats { score: 1, rankers_count: 1, top3_count: 0, position_sum: 0 };
    let r = build_ranking_insight(Some(&stats), Some("polarized"), None, 3, Some(4), Some(1), None);
    assert_eq!(r.summary, "1 vecino la priorizaron; divide opiniones; tu #5 aporta 1 punto.");
    let r = build_ranking_insight(Some(&stats), None, Some(1), 3, None, None, None);
    assert_eq!(r.summary, "Está #1 en el ranking global; 1 vecino la priorizaron.");
}
