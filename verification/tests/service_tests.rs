use priora_api::activity::{activity_rank_position, activity_ranking_items, rank_by_score, rank_dashboard, DashboardProposalSummary, ScoredProposal};
use priora_api::auth::{
    callback_redirect, check_dev_login, check_google_login, dev_google_sub, effective_default_role,
    ensure_admin, ensure_profile, google_client_settings, impersonation_source, is_email_reference,
    oauth_code, oauth_identity, session_claims, stop_impersonation, token_from_headers,
    validate_default_role, CallbackQuery, SESSION_SECONDS,
};
use priora_api::config::{flag_value, non_empty, parse_u16, port_value, text_value, Config};
use priora_api::error::AppError;
use priora_api::models::{User, UserPublic};
use priora_api::uploads::{check_logo_size, logo_extension, logo_file_name, upload_url, MAX_LOGO_BYTES};

fn user(id: &str, role: &str, profile_complete: bool) -> User {
    User {
        id: id.to_string(),
        google_sub: format!("dev:{id}"),
        email: format!("{id}@priora.local"),
        name: format!("Name {id}"),
        picture_url: Some("http://img".to_string()),
        role: role.to_string(),
        street: None,
        floor_apt: None,
        city: None,
        postal_code: None,
        profile_complete,
        created_at: 0,
        updated_at: 0,
    }
}

fn config(id: Option<&str>, secret: Option<&str>, uri: Option<&str>, dev_auth: bool) -> Config {
    Config {
        database_url: "sqlite::memory:".to_string(),
        jwt_secret: "secret".to_string(),
        host: "127.0.0.1".to_string(),
        port: 3000,
        frontend_url: "http://localhost:5173".to_string(),
        dev_auth,
        dev_impersonation: false,
        impersonate_query_key: "priora_as".to_string(),
        seed_demo_data: false,
        google_client_id: id.map(|s| s.to_string()),
        google_client_secret: secret.map(|s| s.to_string()),
        google_redirect_uri: uri.map(|s| s.to_string()),
    }
}

#[test]
fn bearer_and_cookie_tokens() {
    assert_eq!(token_from_headers(Some("Bearer abc.def"), None), Some("abc.def".to_string()));
    assert_eq!(token_from_headers(Some("Basic xyz"), None), None);
    assert_eq!(token_from_headers(Some("Basic xyz"), Some("token=t1")), Some("t1".to_string()));
    assert_eq!(token_from_headers(None, Some("theme=dark; token=t2; other=1")), Some("t2".to_string()));
    assert_eq!(token_from_headers(None, Some("theme=dark;  token=  ")), Some(String::new()));
    assert_eq!(token_from_headers(None, Some("theme=dark")), None);
    assert_eq!(token_from_headers(None, Some("")), None);
    assert_eq!(token_from_headers(None, None), None);
    assert_eq!(token_from_headers(Some("Bearer a"), Some("token=b")), Some("a".to_string()));
}

#[test]
fn sessions_last_seven_days() {
    assert_eq!(SESSION_SECONDS, 7 * 24 * 60 * 60);
    let c = session_claims("u1", Some("admin"), 1_000);
    assert_eq!(c.sub, "u1");
    assert_eq!(c.exp, 1_000 + 604_800);
    assert_eq!(c.impersonator_id, Some("admin".to_string()));
    assert_eq!(session_claims("u1", None, 0).impersonator_id, None);
}

#[test]
fn impersonation_rules() {
    let admin = user("a", "admin", true);
    let regular = user("r", "regular", true);
    assert_eq!(impersonation_source(Some(&admin), false).unwrap(), Some("a".to_string()));
    assert_eq!(impersonation_source(Some(&admin), true).unwrap(), Some("a".to_string()));
    assert!(matches!(impersonation_source(Some(&regular), false), Err(AppError::Forbidden)));
    assert_eq!(impersonation_source(Some(&regular), true).unwrap(), None);
    assert_eq!(impersonation_source(None, true).unwrap(), None);
    assert!(matches!(impersonation_source(None, false), Err(AppError::Forbidden)));
    assert_eq!(stop_impersonation(Some("a".to_string())).unwrap(), "a");
    match stop_impersonation(None) {
        Err(AppError::BadRequest(m)) => assert_eq!(m, "not impersonating"),
        _ => panic!("expected a refusal"),
    }
    assert!(is_email_reference("carlos.mendez@priora.local"));
    assert!(!is_email_reference("11111111-1111-4111-a111-111111111101"));
}

#[test]
fn sign_in_helpers() {
    assert_eq!(dev_google_sub("ana@priora.local"), "dev:ana@priora.local");
    assert_eq!(callback_redirect("http://localhost:5173", "jwt"), "http://localhost:5173/auth/callback?token=jwt");
    match oauth_code(CallbackQuery { code: Some("c".to_string()), error: Some("denied".to_string()) }) {
        Err(AppError::BadRequest(m)) => assert_eq!(m, "OAuth denied"),
        _ => panic!("expected a refusal"),
    }
    match oauth_code(CallbackQuery { code: None, error: None }) {
        Err(AppError::BadRequest(m)) => assert_eq!(m, "missing code"),
        _ => panic!("expected a refusal"),
    }
    assert_eq!(oauth_code(CallbackQuery { code: Some("c".to_string()), error: None }).unwrap(), "c");
    let (s, e, n) = oauth_identity(Some("sub-1"), None, None).unwrap();
    assert_eq!((s.as_str(), e.as_str(), n.as_str()), ("sub-1", "unknown@google.com", "Usuario"));
    let (_, e, n) = oauth_identity(Some("sub-1"), Some("x@y"), Some("X")).unwrap();
    assert_eq!((e.as_str(), n.as_str()), ("x@y", "X"));
    match oauth_identity(None, Some("x@y"), None) {
        Err(AppError::Internal(m)) => assert_eq!(m, "missing sub"),
        _ => panic!("expected an error"),
    }
}

#[test]
fn google_configuration() {
    let full = config(Some("id"), Some("secret"), Some("http://cb"), true);
    assert!(full.google_oauth_enabled());
    assert!(check_google_login(&full).is_ok());
    assert_eq!(google_client_settings(&full).unwrap(), ("id".to_string(), "secret".to_string(), "http://cb".to_string()));
    let partial = config(Some("id"), None, Some("http://cb"), false);
    assert!(!partial.google_oauth_enabled());
    match check_google_login(&partial) {
        Err(AppError::BadRequest(m)) => assert_eq!(m, "Google OAuth not configured. Use dev login."),
        _ => panic!("expected a refusal"),
    }
    match google_client_settings(&partial) {
        Err(AppError::BadRequest(m)) => assert_eq!(m, "Google OAuth not configured"),
        _ => panic!("expected a refusal"),
    }
    assert!(check_dev_login(&full).is_ok());
    assert!(matches!(check_dev_login(&partial), Err(AppError::Forbidden)));
}

#[test]
fn roles_and_profile_gates() {
    assert!(ensure_profile(&user("u", "regular", true)).is_ok());
    assert!(matches!(ensure_profile(&user("u", "regular", false)), Err(AppError::Forbidden)));
    assert!(ensure_admin(&user("a", "admin", false)).is_ok());
    assert!(matches!(ensure_admin(&user("u", "proponent", true)), Err(AppError::Forbidden)));
    assert_eq!(effective_default_role(Some("regular".to_string())), "regular");
    assert_eq!(effective_default_role(Some("admin".to_string())), "proponent");
    assert_eq!(effective_default_role(None), "proponent");
    assert_eq!(validate_default_role(&user("a", "admin", true), " regular ").unwrap(), "regular");
    match validate_default_role(&user("a", "admin", true), "admin") {
        Err(AppError::BadRequest(m)) => assert_eq!(m, "default_user_role must be regular or proponent"),
        _ => panic!("expected a refusal"),
    }
    assert!(matches!(validate_default_role(&user("u", "regular", true), "regular"), Err(AppError::Forbidden)));
    let p = UserPublic::from(user("u", "proponent", true));
    assert_eq!((p.id.as_str(), p.name.as_str(), p.role.as_str()), ("u", "Name u", "proponent"));
    assert_eq!(p.picture_url, Some("http://img".to_string()));
}

#[test]
fn settings_values() {
    assert!(flag_value(Some("true"), false));
    assert!(flag_value(Some("1"), false));
    assert!(!flag_value(Some("yes"), true));
    assert!(flag_value(None, true));
    assert!(!flag_value(None, false));
    assert_eq!(text_value(None, "sqlite:priora.db?mode=rwc"), "sqlite:priora.db?mode=rwc");
    assert_eq!(text_value(Some("x".to_string()), "d"), "x");
    assert_eq!(non_empty(Some(String::new())), None);
    assert_eq!(non_empty(Some("a".to_string())), Some("a".to_string()));
    assert_eq!(non_empty(None), None);
    assert_eq!(port_value(Some("3100")), 3100);
    assert_eq!(port_value(Some("+80")), 80);
    assert_eq!(port_value(Some("0080")), 80);
    assert_eq!(port_value(Some("65535")), 65535);
    assert_eq!(port_value(Some("65536")), 3000);
    assert_eq!(port_value(Some("99999999999")), 3000);
    assert_eq!(port_value(Some("")), 3000);
    assert_eq!(port_value(Some("+")), 3000);
    assert_eq!(port_value(Some("-1")), 3000);
    assert_eq!(port_value(Some("80a")), 3000);
    assert_eq!(port_value(None), 3000);
    for s in ["0", "1", "+7", "443", "65535", "65536", "", "abc", " 1", "1 "] {
        assert_eq!(parse_u16(s), s.parse::<u16>().ok(), "input {s:?}");
    }
}

#[test]
fn logo_uploads() {
    assert_eq!(logo_extension("image/jpeg").unwrap(), "jpg");
    assert_eq!(logo_extension("image/jpg").unwrap(), "jpg");
    assert_eq!(logo_extension("image/png").unwrap(), "png");
    assert_eq!(logo_extension("image/webp").unwrap(), "webp");
    match logo_extension("image/gif") {
        Err(AppError::BadRequest(m)) => assert_eq!(m, "logo must be JPEG, PNG, or WebP"),
        _ => panic!("expected a refusal"),
    }
    assert_eq!(MAX_LOGO_BYTES, 2 * 1024 * 1024);
    assert!(check_logo_size(1).is_ok());
    assert!(check_logo_size(MAX_LOGO_BYTES).is_ok());
    match check_logo_size(0) {
        Err(AppError::BadRequest(m)) => assert_eq!(m, "empty file"),
        _ => panic!("expected a refusal"),
    }
    match check_logo_size(MAX_LOGO_BYTES + 1) {
        Err(AppError::BadRequest(m)) => assert_eq!(m, "logo must be at most 2 MB"),
        _ => panic!("expected a refusal"),
    }
    assert_eq!(logo_file_name("abc", "png"), "abc.png");
    assert_eq!(upload_url("abc.png"), "/uploads/abc.png");
}

#[test]
fn activity_ordering() {
    let items = vec![
        ScoredProposal { id: "old".to_string(), score: 5 },
        ScoredProposal { id: "mid".to_string(), score: 9 },
        ScoredProposal { id: "new".to_string(), score: 5 },
    ];
    let ids: Vec<String> = rank_by_score(items).into_iter().map(|p| p.id).collect();
    assert_eq!(ids, vec!["mid", "old", "new"]);
    let list = activity_ranking_items(vec![
        ("a".to_string(), "A".to_string(), 0),
        ("b".to_string(), "B".to_string(), 1),
    ]);
    assert_eq!(list[0].points, 2);
    assert_eq!(list[1].points, 1);
    assert_eq!(list[1].title, "B");
    // A rejected proposal left the list: the others keep their order, without gaps.
    let list = activity_ranking_items(vec![
        ("a".to_string(), "A".to_string(), 1),
        ("b".to_string(), "B".to_string(), 3),
    ]);
    assert_eq!(list[0].position, 0);
    assert_eq!(list[0].points, 2);
    assert_eq!(list[1].position, 1);
    assert_eq!(list[1].points, 1);
    assert_eq!(activity_rank_position("activa", Some(2)), Some(2));
    assert_eq!(activity_rank_position("en_analisis", Some(1)), Some(1));
    assert_eq!(activity_rank_position("rechazada", Some(1)), None);
}

fn summary(id: &str, score: i64, created_at: i64) -> DashboardProposalSummary {
    DashboardProposalSummary {
        id: id.to_string(),
        title: id.to_string(),
        rank_position: 0,
        score,
        rankers_count: 0,
        agreement: None,
        created_at,
    }
}

#[test]
fn dashboard_ordering() {
    let out = rank_dashboard(vec![summary("b", 1, 2), summary("a", 1, 1), summary("c", 4, 9)]);
    let ids: Vec<&str> = out.iter().map(|s| s.id.as_str()).collect();
    assert_eq!(ids, vec!["c", "a", "b"]);
    assert_eq!(out[2].rank_position, 3);
}
