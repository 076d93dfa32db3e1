use vstd::prelude::*;

use crate::auth::is_admin;
use crate::error::{is_bad_request, AppError, AppResult};
use crate::membership::{spec_is_global_admin, ROLE_ADMIN, ROLE_PROPONENT, ROLE_REGULAR};
use crate::models::{UpdateProfileRequest, User};
use crate::text::{chars_of, owned, str_eq, trim, trim_spec};

verus! {

/// The global roles.
pub open spec fn spec_valid_role(r: Seq<char>) -> bool {
    r == ROLE_REGULAR@ || r == ROLE_PROPONENT@ || r == ROLE_ADMIN@
}

pub fn is_valid_role(r: &str) -> (b: bool)
    ensures
        b == spec_valid_role(r@),
{
    str_eq(r, ROLE_REGULAR) || str_eq(r, ROLE_PROPONENT) || str_eq(r, ROLE_ADMIN)
}

/// An address as stored: street and city trimmed.
pub struct ProfileAddress {
    pub street: String,
    pub floor_apt: Option<String>,
    pub city: String,
    pub postal_code: Option<String>,
}

/// Checks an address: the trimmed street must have at least 5 characters,
/// and the trimmed city must not be empty.
pub fn validate_profile_update(body: UpdateProfileRequest) -> (r: AppResult<ProfileAddress>)
    ensures
        trim_spec(body.street@).len() < 5 ==> is_bad_request(r, "street must be at least 5 characters"@),
        trim_spec(body.street@).len() >= 5 && trim_spec(body.city@).len() == 0 ==> is_bad_request(r, "city is required"@),
        trim_spec(body.street@).len() >= 5 && trim_spec(body.city@).len() != 0 ==> (r matches Ok(a) && {
            &&& a.street@ == trim_spec(body.street@)
            &&& a.city@ == trim_spec(body.city@)
            &&& a.floor_apt == body.floor_apt
            &&& a.postal_code == body.postal_code
        }),
{
    let street = trim(body.street.as_str());
    if chars_of(street).len() < 5 {
        return Err(AppError::BadRequest(owned("street must be at least 5 characters")));
    }
    let city = trim(body.city.as_str());
    if city.is_empty() {
        return Err(AppError::BadRequest(owned("city is required")));
    }
    Ok(ProfileAddress {
        street: owned(street),
        floor_apt: body.floor_apt,
        city: owned(city),
        postal_code: body.postal_code,
    })
}

/// First checks of a change of `target_id`'s global role to `requested` by
/// `actor`: only platform admins; the trimmed role must be a global role; nobody
/// changes their own role. Returns the trimmed role.
pub fn check_role_update(actor: &User, target_id: &str, requested: &str) -> (r: AppResult<String>)
    ensures
        !spec_is_global_admin(actor.role@) ==> r matches Err(AppError::Forbidden),
        spec_is_global_admin(actor.role@) && !spec_valid_role(trim_spec(requested@)) ==> is_bad_request(
            r,
            "role must be regular, proponent, or admin"@,
        ),
        spec_is_global_admin(actor.role@) && spec_valid_role(trim_spec(requested@)) && target_id@ == actor.id@
            ==> is_bad_request(r, "cannot change your own role"@),
        spec_is_global_admin(actor.role@) && spec_valid_role(trim_spec(requested@)) && target_id@ != actor.id@
            ==> (r matches Ok(role) && role@ == trim_spec(requested@)),
{
    if !is_admin(actor) {
        return Err(AppError::Forbidden);
    }
    let role = trim(requested);
    if !is_valid_role(role) {
        return Err(AppError::BadRequest(owned("role must be regular, proponent, or admin")));
    }
    if str_eq(target_id, actor.id.as_str()) {
        return Err(AppError::BadRequest(owned("cannot change your own role")));
    }
    Ok(owned(role))
}

pub open spec fn spec_demotes_admin(target_role: Seq<char>, new_role: Seq<char>) -> bool {
    target_role == ROLE_ADMIN@ && new_role != ROLE_ADMIN@
}

/// Whether giving `target` the role `role` takes away an admin.
pub fn demotes_admin(target: &User, role: &str) -> (r: bool)
    ensures
        r == spec_demotes_admin(target.role@, role@),
{
    str_eq(target.role.as_str(), ROLE_ADMIN) && !str_eq(role, ROLE_ADMIN)
}

/// An admin may only be demoted while another admin remains.
pub fn check_admin_demotion(admin_count: i64) -> (r: AppResult<()>)
    ensures
        admin_count <= 1 ==> is_bad_request(r, "cannot demote the last administrator"@),
        admin_count > 1 ==> r is Ok,
{
    if admin_count <= 1 {
        return Err(AppError::BadRequest(owned("cannot demote the last administrator")));
    }
    Ok(())
}

/// Number of platform administrators among the stored users' roles.
pub open spec fn admin_count(roles: Seq<Seq<char>>) -> int
    decreases roles.len(),
{
    if roles.len() == 0 {
        0
    } else {
        admin_count(roles.drop_last()) + if roles.last() == ROLE_ADMIN@ { 1int } else { 0int }
    }
}

/// Changing the role of user `t` changes the admin count by what that user's
/// role loses or gains.
proof fn lemma_admin_count_update(roles: Seq<Seq<char>>, t: int, new_role: Seq<char>)
    requires
        0 <= t < roles.len(),
    ensures
        admin_count(roles.update(t, new_role)) == admin_count(roles)
            - (if roles[t] == ROLE_ADMIN@ { 1int } else { 0int })
            + (if new_role == ROLE_ADMIN@ { 1int } else { 0int }),
    decreases roles.len(),
{
    let u = roles.update(t, new_role);
    if t == roles.len() - 1 {
        assert(u.drop_last() =~= roles.drop_last());
    } else {
        lemma_admin_count_update(roles.drop_last(), t, new_role);
        assert(u.drop_last() =~= roles.drop_last().update(t, new_role));
    }
}

/// The platform never loses its last administrator. `roles` are the roles of
/// the stored users, at least one of them an admin; user `t` gets `new_role`
/// after the checks passed: a demotion of an admin ([`demotes_admin`]) goes
/// through only when [`check_admin_demotion`], given `admin_count(roles)`, accepts
/// it. Afterwards at least one admin remains.
pub proof fn lemma_last_admin_kept(roles: Seq<Seq<char>>, t: int, new_role: Seq<char>)
    requires
        admin_count(roles) >= 1,
        0 <= t < roles.len(),
        spec_demotes_admin(roles[t], new_role) ==> admin_count(roles) > 1,
    ensures
        admin_count(roles.update(t, new_role)) >= 1,
{
    lemma_admin_count_update(roles, t, new_role);
}

/// The global roles are exactly regular, proponent and admin, and a role
/// change takes away an admin exactly when the user was an admin and the new
/// role is not admin.
pub proof fn lemma_role_rules(role: Seq<char>, target_role: Seq<char>)
    ensures
        spec_valid_role(role) <==> (role == "regular"@ || role == "proponent"@ || role == "admin"@),
        spec_demotes_admin(target_role, role) <==> (target_role == "admin"@ && role != "admin"@),
{
}

} // verus!
