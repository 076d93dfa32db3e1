use priora_api::error::AppError;
use priora_api::membership::{
    authorize_member_update, can_comment, can_create_in_space, can_manage_space,
    check_membership_request, is_active_member, is_active_space_admin, is_global_admin,
    member_to_public, membership_me, membership_request_outcome, membership_to_update,
    plan_member_update, ranking_counts, validate_member_role, validate_member_status,
    MembershipRequestOutcome,
};
use priora_api::models::{Namespace, NamespaceMember, UpdateMemberRequest, User};

fn user(id: &str, role: &str, profile_complete: bool) -> User {
    User {
        id: id.to_string(),
        google_sub: format!("dev:{id}"),
        email: format!("{id}@priora.local"),
        name: format!("Name {id}"),
        picture_url: None,
        role: role.to_string(),
        street: Some("Calle de Prueba 123".to_string()),
        floor_apt: None,
        city: Some("Barrio Test".to_string()),
        postal_code: None,
        profile_complete,
        created_at: 0,
        updated_at: 0,
    }
}

fn space(require_member_approval: bool) -> Namespace {
    Namespace {
        id: "ns-1".to_string(),
        slug: "barrio-test".to_string(),
        name: "Barrio Test".to_string(),
        require_member_approval,
        created_at: 0,
    }
}

fn member(user_id: &str, role: &str, status: &str) -> NamespaceMember {
    NamespaceMember {
        namespace_id: "ns-1".to_string(),
        user_id: user_id.to_string(),
        role: role.to_string(),
        status: status.to_string(),
        requested_at: 100,
        reviewed_at: Some(150),
        reviewed_by: Some("admin-0".to_string()),
    }
}

#[test]
fn open_space_lets_everyone_take_part() {
    let ns = space(false);
    let regular = user("u1", "regular", true);
    assert!(ranking_counts(&ns, &regular, None));
    assert!(can_comment(&ns, &regular, None));
    assert!(!can_manage_space(&regular, None));
    assert!(!can_create_in_space(&regular, None));
}

#[test]
fn approval_blocks_until_active() {
    let ns = space(true);
    let regular = user("u1", "regular", true);
    for status in ["pending", "rejected", "disabled"] {
        let m = member("u1", "regular", status);
        assert!(!ranking_counts(&ns, &regular, Some(&m)));
        assert!(!can_comment(&ns, &regular, Some(&m)));
    }
    assert!(!ranking_counts(&ns, &regular, None));
    let active = member("u1", "regular", "active");
    assert!(ranking_counts(&ns, &regular, Some(&active)));
    assert!(can_comment(&ns, &regular, Some(&active)));
    assert!(is_active_member(Some(&active)));
}

#[test]
fn admins_always_take_part_and_manage() {
    let ns = space(true);
    let admin = user("a", "admin", true);
    assert!(is_global_admin(&admin));
    assert!(ranking_counts(&ns, &admin, None));
    assert!(can_comment(&ns, &admin, None));
    assert!(can_manage_space(&admin, None));
    assert!(can_create_in_space(&admin, None));
}

#[test]
fn space_admin_and_proponent_rights() {
    let regular = user("u1", "regular", true);
    let sa = member("u1", "space_admin", "active");
    assert!(is_active_space_admin(Some(&sa)));
    assert!(can_manage_space(&regular, Some(&sa)));
    assert!(can_create_in_space(&regular, Some(&sa)));
    let pending_sa = member("u1", "space_admin", "pending");
    assert!(!is_active_space_admin(Some(&pending_sa)));
    assert!(!can_manage_space(&regular, Some(&pending_sa)));
    let space_proponent = member("u1", "proponent", "active");
    assert!(can_create_in_space(&regular, Some(&space_proponent)));
    assert!(!can_manage_space(&regular, Some(&space_proponent)));
    let global_proponent = user("p", "proponent", true);
    assert!(can_create_in_space(&global_proponent, None));
}

#[test]
fn member_status_and_role_validation() {
    for s in ["pending", "active", "disabled", "rejected"] {
        assert!(validate_member_status(s).is_ok());
    }
    match validate_member_status("banned") {
        Err(AppError::BadRequest(m)) => assert_eq!(m, "status must be pending, active, disabled, or rejected"),
        other => panic!("unexpected {:?}", other),
    }
    for r in ["regular", "proponent", "space_admin"] {
        assert!(validate_member_role(r).is_ok());
    }
    match validate_member_role("admin") {
        Err(AppError::BadRequest(m)) => assert_eq!(m, "role must be regular, proponent, or space_admin"),
        other => panic!("unexpected {:?}", other),
    }
}

#[test]
fn request_creates_pending_membership() {
    match membership_request_outcome(None, "ns-1", "u1", 500) {
        Ok(MembershipRequestOutcome::Created(m)) => {
            assert_eq!(m.status, "pending");
            assert_eq!(m.role, "regular");
            assert_eq!(m.user_id, "u1");
            assert_eq!(m.namespace_id, "ns-1");
            assert_eq!(m.requested_at, 500);
            assert_eq!(m.reviewed_at, None);
        }
        _ => panic!("expected a new pending membership"),
    }
}

#[test]
fn request_keeps_active_and_pending() {
    for s in ["active", "pending"] {
        let m = member("u1", "regular", s);
        assert!(matches!(
            membership_request_outcome(Some(&m), "ns-1", "u1", 500),
            Ok(MembershipRequestOutcome::Unchanged)
        ));
    }
}

#[test]
fn request_reopens_rejected_and_refuses_disabled() {
    let rejected = member("u1", "proponent", "rejected");
    match membership_request_outcome(Some(&rejected), "ns-1", "u1", 700) {
        Ok(MembershipRequestOutcome::Reopened(m)) => {
            assert_eq!(m.status, "pending");
            assert_eq!(m.role, "proponent");
            assert_eq!(m.requested_at, 700);
            assert_eq!(m.reviewed_at, None);
            assert_eq!(m.reviewed_by, None);
            // requesting again leaves it as it is
            assert!(matches!(
                membership_request_outcome(Some(&m), "ns-1", "u1", 800),
                Ok(MembershipRequestOutcome::Unchanged)
            ));
        }
        _ => panic!("expected a reopened request"),
    }
    let disabled = member("u1", "regular", "disabled");
    match membership_request_outcome(Some(&disabled), "ns-1", "u1", 700) {
        Err(AppError::BadRequest(m)) => assert_eq!(m, "your access to this space is disabled"),
        _ => panic!("expected a refusal"),
    }
    let odd = member("u1", "regular", "weird");
    match membership_request_outcome(Some(&odd), "ns-1", "u1", 700) {
        Err(AppError::BadRequest(m)) => assert_eq!(m, "invalid membership status"),
        _ => panic!("expected a refusal"),
    }
}

#[test]
fn request_needs_profile_and_approval_space() {
    let incomplete = user("u1", "regular", false);
    assert!(matches!(check_membership_request(&incomplete, &space(true)), Err(AppError::Forbidden)));
    let complete = user("u1", "regular", true);
    match check_membership_request(&complete, &space(false)) {
        Err(AppError::BadRequest(m)) => assert_eq!(m, "this space does not require member approval"),
        _ => panic!("expected a refusal"),
    }
    assert!(check_membership_request(&complete, &space(true)).is_ok());
}

#[test]
fn member_update_access() {
    let regular = user("u1", "regular", true);
    assert!(matches!(authorize_member_update(&regular, None, "u2"), Err(AppError::Forbidden)));
    let admin = user("a", "admin", true);
    match authorize_member_update(&admin, None, "a") {
        Err(AppError::BadRequest(m)) => assert_eq!(m, "cannot change your own membership"),
        _ => panic!("expected a refusal"),
    }
    assert!(authorize_member_update(&admin, None, "u2").is_ok());
    let sa = member("u1", "space_admin", "active");
    assert!(authorize_member_update(&regular, Some(&sa), "u2").is_ok());
}

#[test]
fn admin_adds_missing_member_as_active() {
    let admin = user("a", "admin", true);
    let (m, inserted) = membership_to_update(&admin, None, "ns-1", "u2", 900).unwrap();
    assert!(inserted);
    assert_eq!(m.status, "active");
    assert_eq!(m.role, "regular");
    assert_eq!(m.reviewed_at, Some(900));
    assert_eq!(m.reviewed_by, Some("a".to_string()));
    let regular = user("u1", "regular", true);
    assert!(matches!(membership_to_update(&regular, None, "ns-1", "u2", 900), Err(AppError::NotFound)));
    let existing = member("u2", "regular", "pending");
    let (m, inserted) = membership_to_update(&regular, Some(existing), "ns-1", "u2", 900).unwrap();
    assert!(!inserted);
    assert_eq!(m.status, "pending");
}

fn body(status: Option<&str>, role: Option<&str>) -> UpdateMemberRequest {
    UpdateMemberRequest { status: status.map(|s| s.to_string()), role: role.map(|s| s.to_string()) }
}

#[test]
fn approving_records_the_reviewer() {
    let sa_user = user("sa", "regular", true);
    let pending = member("u2", "regular", "pending");
    let m = plan_member_update(&sa_user, pending, &body(Some("active"), None), 1000).unwrap();
    assert_eq!(m.status, "active");
    assert_eq!(m.role, "regular");
    assert_eq!(m.reviewed_at, Some(1000));
    assert_eq!(m.reviewed_by, Some("sa".to_string()));
    assert_eq!(m.requested_at, 100);
}

#[test]
fn back_to_pending_clears_review_and_same_status_keeps_it() {
    let admin = user("a", "admin", true);
    let active = member("u2", "regular", "active");
    let m = plan_member_update(&admin, active, &body(Some("pending"), None), 1000).unwrap();
    assert_eq!(m.reviewed_at, None);
    assert_eq!(m.reviewed_by, None);
    let active = member("u2", "regular", "active");
    let m = plan_member_update(&admin, active, &body(None, Some("proponent")), 1000).unwrap();
    assert_eq!(m.role, "proponent");
    assert_eq!(m.reviewed_at, Some(150));
    assert_eq!(m.reviewed_by, Some("admin-0".to_string()));
}

#[test]
fn only_admins_touch_space_admins() {
    let sa_user = user("sa", "regular", true);
    let regular = member("u2", "regular", "active");
    assert!(matches!(
        plan_member_update(&sa_user, regular, &body(None, Some("space_admin")), 1),
        Err(AppError::Forbidden)
    ));
    let other_sa = member("u3", "space_admin", "active");
    assert!(matches!(
        plan_member_update(&sa_user, other_sa, &body(Some("disabled"), None), 1),
        Err(AppError::Forbidden)
    ));
    let admin = user("a", "admin", true);
    let regular = member("u2", "regular", "active");
    let m = plan_member_update(&admin, regular, &body(None, Some("space_admin")), 1).unwrap();
    assert_eq!(m.role, "space_admin");
}

#[test]
fn update_validates_status_then_role() {
    let admin = user("a", "admin", true);
    match plan_member_update(&admin, member("u2", "regular", "active"), &body(Some("gone"), Some("boss")), 1) {
        Err(AppError::BadRequest(m)) => assert_eq!(m, "status must be pending, active, disabled, or rejected"),
        _ => panic!("expected a refusal"),
    }
    match plan_member_update(&admin, member("u2", "regular", "active"), &body(None, Some("boss")), 1) {
        Err(AppError::BadRequest(m)) => assert_eq!(m, "role must be regular, proponent, or space_admin"),
        _ => panic!("expected a refusal"),
    }
}

#[test]
fn membership_me_for_visitors_and_members() {
    let ns = space(true);
    let anonymous = membership_me(&ns, None, None);
    assert!(anonymous.require_member_approval);
    assert!(!anonymous.can_comment && !anonymous.ranking_counts);
    assert!(!anonymous.can_manage_space && !anonymous.can_create_proposal);
    assert!(anonymous.membership.is_none());

    let regular = user("u1", "regular", true);
    let pending = membership_me(&ns, Some(&regular), Some(member("u1", "regular", "pending")));
    assert!(!pending.can_comment);
    assert!(!pending.ranking_counts);
    let shown = pending.membership.as_ref().unwrap();
    assert_eq!(shown.status, "pending");
    assert_eq!(shown.user_id, "u1");
    assert_eq!(shown.email, "u1@priora.local");
    assert_eq!(shown.name, "Name u1");
    assert_eq!(shown.street, Some("Calle de Prueba 123".to_string()));
    assert_eq!(shown.city, Some("Barrio Test".to_string()));
    assert_eq!(shown.picture_url, None);
    assert_eq!(shown.requested_at, 100);
    assert_eq!(shown.reviewed_at, Some(150));

    let active = membership_me(&ns, Some(&regular), Some(member("u1", "regular", "active")));
    assert!(active.can_comment);
    assert!(active.ranking_counts);
    assert!(!active.can_manage_space);

    let incomplete = user("u9", "regular", false);
    let r = membership_me(&space(false), Some(&incomplete), None);
    assert!(!r.can_comment);
    assert!(r.ranking_counts);

    let admin = user("a", "admin", true);
    let r = membership_me(&ns, Some(&admin), None);
    assert!(r.can_manage_space && r.can_create_proposal && r.can_comment && r.ranking_counts);
}

#[test]
fn public_member_view() {
    let u = user("u1", "regular", true);
    let p = member_to_public(&u, member("u1", "proponent", "active"));
    assert_eq!(p.user_id, "u1");
    assert_eq!(p.name, "Name u1");
    assert_eq!(p.email, "u1@priora.local");
    assert_eq!(p.street, Some("Calle de Prueba 123".to_string()));
    assert_eq!(p.role, "proponent");
    assert_eq!(p.status, "active");
    assert_eq!(p.requested_at, 100);
    assert_eq!(p.reviewed_at, Some(150));
}
