use priora_api::comments::{can_delete_comment, default_limit, prepare_comment};
use priora_api::error::AppError;
use priora_api::models::{CreateNamespaceRequest, Namespace, NamespaceMember, UpdateProfileRequest, User};
use priora_api::namespaces::{is_valid_slug, prepare_namespace};
use priora_api::users::{check_admin_demotion, check_role_update, demotes_admin, is_valid_role, validate_profile_update};

fn user(id: &str, role: &str) -> User {
    User {
        id: id.to_string(),
        google_sub: format!("dev:{id}"),
        email: format!("{id}@priora.local"),
        name: format!("Name {id}"),
        picture_url: None,
        role: role.to_string(),
        street: None,
        floor_apt: None,
        city: None,
        postal_code: None,
        profile_complete: true,
        created_at: 0,
        updated_at: 0,
    }
}

fn profile(street: &str, city: &str) -> UpdateProfileRequest {
    UpdateProfileRequest { street: street.to_string(), floor_apt: Some("3B".to_string()), city: city.to_string(), postal_code: None }
}

#[test]
fn profile_address_rules() {
    let a = validate_profile_update(profile("  Calle de Prueba 123 ", " Barrio Test ")).unwrap();
    assert_eq!(a.street, "Calle de Prueba 123");
    assert_eq!(a.city, "Barrio Test");
    assert_eq!(a.floor_apt, Some("3B".to_string()));
    match validate_profile_update(profile("  Av 1 ", "X")) {
        Err(AppError::BadRequest(m)) => assert_eq!(m, "street must be at least 5 characters"),
        _ => panic!("expected a refusal"),
    }
    // characters are counted, not UTF-8 bytes
    match validate_profile_update(profile("Ñu 1", "X")) {
        Err(AppError::BadRequest(m)) => assert_eq!(m, "street must be at least 5 characters"),
        _ => panic!("expected a refusal"),
    }
    assert!(validate_profile_update(profile("Ñu 12", "X")).is_ok());
    match validate_profile_update(profile("Calle 1", "   ")) {
        Err(AppError::BadRequest(m)) => assert_eq!(m, "city is required"),
        _ => panic!("expected a refusal"),
    }
}

#[test]
fn role_changes() {
    let admin = user("a", "admin");
    assert_eq!(check_role_update(&admin, "u2", " proponent ").unwrap(), "proponent");
    assert!(matches!(check_role_update(&user("r", "regular"), "u2", "admin"), Err(AppError::Forbidden)));
    match check_role_update(&admin, "u2", "owner") {
        Err(AppError::BadRequest(m)) => assert_eq!(m, "role must be regular, proponent, or admin"),
        _ => panic!("expected a refusal"),
    }
    match check_role_update(&admin, "a", "regular") {
        Err(AppError::BadRequest(m)) => assert_eq!(m, "cannot change your own role"),
        _ => panic!("expected a refusal"),
    }
    assert!(is_valid_role("admin") && !is_valid_role("space_admin"));
}

#[test]
fn last_admin_is_kept() {
    let other_admin = user("b", "admin");
    assert!(demotes_admin(&other_admin, "regular"));
    assert!(!demotes_admin(&other_admin, "admin"));
    assert!(!demotes_admin(&user("r", "regular"), "proponent"));
    match check_admin_demotion(1) {
        Err(AppError::BadRequest(m)) => assert_eq!(m, "cannot demote the last administrator"),
        _ => panic!("expected a refusal"),
    }
    assert!(check_admin_demotion(2).is_ok());
}

#[test]
fn slugs() {
    assert!(is_valid_slug("barrio-test"));
    assert!(is_valid_slug("b2"));
    assert!(is_valid_slug("9-de-julio"));
    assert!(!is_valid_slug("b"));
    assert!(!is_valid_slug("-barrio"));
    assert!(!is_valid_slug("barrio-"));
    assert!(!is_valid_slug("barrio--test"));
    assert!(!is_valid_slug("Barrio"));
    assert!(!is_valid_slug("barrio_test"));
    assert!(!is_valid_slug("niño"));
    assert!(is_valid_slug(&"a".repeat(64)));
    assert!(!is_valid_slug(&"a".repeat(65)));
}

#[test]
fn creating_spaces() {
    let admin = user("a", "admin");
    let body = CreateNamespaceRequest { slug: "  Barrio-Norte ".to_string(), name: "  Barrio Norte ".to_string() };
    let n = prepare_namespace(&admin, &body).unwrap();
    assert_eq!(n.slug, "barrio-norte");
    assert_eq!(n.name, "Barrio Norte");
    assert!(matches!(prepare_namespace(&user("r", "regular"), &body), Err(AppError::Forbidden)));
    let empty = CreateNamespaceRequest { slug: "ok".to_string(), name: "  ".to_string() };
    match prepare_namespace(&admin, &empty) {
        Err(AppError::BadRequest(m)) => assert_eq!(m, "name is required"),
        _ => panic!("expected a refusal"),
    }
    let long = CreateNamespaceRequest { slug: "ok".to_string(), name: "n".repeat(101) };
    match prepare_namespace(&admin, &long) {
        Err(AppError::BadRequest(m)) => assert_eq!(m, "name is too long"),
        _ => panic!("expected a refusal"),
    }
    let bad = CreateNamespaceRequest { slug: "no slug".to_string(), name: "Nombre".to_string() };
    match prepare_namespace(&admin, &bad) {
        Err(AppError::BadRequest(m)) => assert_eq!(m, "slug must be 2–64 chars: lowercase letters, numbers, and hyphens"),
        _ => panic!("expected a refusal"),
    }
}

fn space(require_member_approval: bool) -> Namespace {
    Namespace { id: "ns".to_string(), slug: "s".to_string(), name: "S".to_string(), require_member_approval, created_at: 0 }
}

#[test]
fn commenting_rules() {
    assert_eq!(default_limit(), 10);
    let u = user("u", "regular");
    assert_eq!(prepare_comment(&space(false), &u, None, "activa", "  Hola  ").unwrap(), "Hola");
    assert_eq!(prepare_comment(&space(false), &u, None, "en_analisis", "Hola").unwrap(), "Hola");
    match prepare_comment(&space(false), &u, None, "rechazada", "Hola") {
        Err(AppError::BadRequest(m)) => assert_eq!(m, "cannot comment on rejected proposals"),
        _ => panic!("expected a refusal"),
    }
    match prepare_comment(&space(false), &u, None, "activa", " \n ") {
        Err(AppError::BadRequest(m)) => assert_eq!(m, "content required"),
        _ => panic!("expected a refusal"),
    }
    assert_eq!(prepare_comment(&space(false), &u, None, "activa", &"ü".repeat(2000)).unwrap().chars().count(), 2000);
    match prepare_comment(&space(false), &u, None, "activa", &"x".repeat(2001)) {
        Err(AppError::BadRequest(m)) => assert_eq!(m, "content must be at most 2000 characters"),
        _ => panic!("expected a refusal"),
    }
    assert!(matches!(prepare_comment(&space(true), &u, None, "activa", "Hola"), Err(AppError::Forbidden)));
    let active = NamespaceMember {
        namespace_id: "ns".to_string(),
        user_id: "u".to_string(),
        role: "regular".to_string(),
        status: "active".to_string(),
        requested_at: 0,
        reviewed_at: None,
        reviewed_by: None,
    };
    assert!(prepare_comment(&space(true), &u, Some(&active), "activa", "Hola").is_ok());
}

#[test]
fn deleting_comments() {
    assert!(can_delete_comment(&user("u", "regular"), "u"));
    assert!(!can_delete_comment(&user("u", "regular"), "v"));
    assert!(can_delete_comment(&user("a", "admin"), "v"));
}
