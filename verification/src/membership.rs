use vstd::prelude::*;

use crate::error::{is_bad_request, is_forbidden, AppError, AppResult};
use crate::models::{
    member_role_of, status_of, MembershipMeResponse, Namespace, NamespaceMember,
    NamespaceMemberPublic, UpdateMemberRequest, User,
};
use crate::text::{owned, str_eq};

verus! {

pub const MEMBER_STATUS_PENDING: &'static str = "pending";
pub const MEMBER_STATUS_ACTIVE: &'static str = "active";
pub const MEMBER_STATUS_DISABLED: &'static str = "disabled";
pub const MEMBER_STATUS_REJECTED: &'static str = "rejected";

pub const MEMBER_ROLE_REGULAR: &'static str = "regular";
pub const MEMBER_ROLE_PROPONENT: &'static str = "proponent";
pub const MEMBER_ROLE_SPACE_ADMIN: &'static str = "space_admin";

/// The global role of platform administrators.
pub const ROLE_ADMIN: &'static str = "admin";
/// The global role of users who may create proposals anywhere.
pub const ROLE_PROPONENT: &'static str = "proponent";
/// The global role of ordinary residents.
pub const ROLE_REGULAR: &'static str = "regular";

// ----------------------------------------------------------------------------
// The rules, over characters
// ----------------------------------------------------------------------------

pub open spec fn spec_is_global_admin(role: Seq<char>) -> bool {
    role == ROLE_ADMIN@
}

pub open spec fn spec_is_active_member(status: Option<Seq<char>>) -> bool {
    status == Some(MEMBER_STATUS_ACTIVE@)
}

pub open spec fn spec_is_active_space_admin(status: Option<Seq<char>>, role: Option<Seq<char>>) -> bool {
    status == Some(MEMBER_STATUS_ACTIVE@) && role == Some(MEMBER_ROLE_SPACE_ADMIN@)
}

/// Platform admins and active space admins manage a space.
pub open spec fn spec_can_manage_space(user_role: Seq<char>, status: Option<Seq<char>>, role: Option<Seq<char>>) -> bool {
    spec_is_global_admin(user_role) || spec_is_active_space_admin(status, role)
}

/// Platform admins, global proponents, and active proponents or space admins of
/// the space may create proposals in it.
pub open spec fn spec_can_create_in_space(user_role: Seq<char>, status: Option<Seq<char>>, role: Option<Seq<char>>) -> bool {
    ||| spec_is_global_admin(user_role)
    ||| user_role == ROLE_PROPONENT@
    ||| status == Some(MEMBER_STATUS_ACTIVE@)
        && (role == Some(MEMBER_ROLE_PROPONENT@) || role == Some(MEMBER_ROLE_SPACE_ADMIN@))
}

/// Whether a user's prioritisation counts in a space's Borda ranking: always for
/// platform admins, for everyone while the space does not require approval, and
/// otherwise only for active members.
pub open spec fn spec_ranking_counts(require_approval: bool, role: Seq<char>, status: Option<Seq<char>>) -> bool {
    spec_is_global_admin(role) || !require_approval || spec_is_active_member(status)
}

/// Whether a user may comment in a space (the profile requirement is checked apart).
pub open spec fn spec_can_comment(require_approval: bool, role: Seq<char>, status: Option<Seq<char>>) -> bool {
    spec_is_global_admin(role) || !require_approval || spec_is_active_member(status)
}

pub open spec fn spec_valid_member_status(s: Seq<char>) -> bool {
    s == MEMBER_STATUS_PENDING@ || s == MEMBER_STATUS_ACTIVE@ || s == MEMBER_STATUS_DISABLED@
        || s == MEMBER_STATUS_REJECTED@
}

pub open spec fn spec_valid_member_role(s: Seq<char>) -> bool {
    s == MEMBER_ROLE_REGULAR@ || s == MEMBER_ROLE_PROPONENT@ || s == MEMBER_ROLE_SPACE_ADMIN@
}

pub open spec fn member_status_message() -> Seq<char> {
    "status must be pending, active, disabled, or rejected"@
}

pub open spec fn member_role_message() -> Seq<char> {
    "role must be regular, proponent, or space_admin"@
}

// ----------------------------------------------------------------------------
// Permission predicates
// ----------------------------------------------------------------------------

pub fn is_global_admin(user: &User) -> (r: bool)
    ensures
        r == spec_is_global_admin(user.role@),
{
    is_global_admin_role(user.role.as_str())
}

/// Whether a global role is the platform administrator role.
pub fn is_global_admin_role(role: &str) -> (r: bool)
    ensures
        r == spec_is_global_admin(role@),
{
    str_eq(role, ROLE_ADMIN)
}

pub fn is_active_space_admin(membership: Option<&NamespaceMember>) -> (r: bool)
    ensures
        r == spec_is_active_space_admin(status_of(membership), member_role_of(membership)),
{
    match membership {
        Some(m) => str_eq(m.status.as_str(), MEMBER_STATUS_ACTIVE) && str_eq(
            m.role.as_str(),
            MEMBER_ROLE_SPACE_ADMIN,
        ),
        None => false,
    }
}

pub fn can_manage_space(user: &User, membership: Option<&NamespaceMember>) -> (r: bool)
    ensures
        r == spec_can_manage_space(user.role@, status_of(membership), member_role_of(membership)),
{
    is_global_admin(user) || is_active_space_admin(membership)
}

pub fn can_create_in_space(user: &User, membership: Option<&NamespaceMember>) -> (r: bool)
    ensures
        r == spec_can_create_in_space(user.role@, status_of(membership), member_role_of(membership)),
{
    if is_global_admin(user) || str_eq(user.role.as_str(), ROLE_PROPONENT) {
        return true;
    }
    match membership {
        Some(m) => str_eq(m.status.as_str(), MEMBER_STATUS_ACTIVE) && (str_eq(
            m.role.as_str(),
            MEMBER_ROLE_PROPONENT,
        ) || str_eq(m.role.as_str(), MEMBER_ROLE_SPACE_ADMIN)),
        None => false,
    }
}

pub fn is_active_member(membership: Option<&NamespaceMember>) -> (r: bool)
    ensures
        r == spec_is_active_member(status_of(membership)),
{
    match membership {
        Some(m) => str_eq(m.status.as_str(), MEMBER_STATUS_ACTIVE),
        None => false,
    }
}

/// When approval is off, everyone participates. When on, only active members.
pub fn ranking_counts(ns: &Namespace, user: &User, membership: Option<&NamespaceMember>) -> (r: bool)
    ensures
        r == spec_ranking_counts(ns.require_member_approval, user.role@, status_of(membership)),
{
    if is_global_admin(user) {
        return true;
    }
    if !ns.require_member_approval {
        return true;
    }
    is_active_member(membership)
}

pub fn can_comment(ns: &Namespace, user: &User, membership: Option<&NamespaceMember>) -> (r: bool)
    ensures
        r == spec_can_comment(ns.require_member_approval, user.role@, status_of(membership)),
{
    if is_global_admin(user) {
        return true;
    }
    if !ns.require_member_approval {
        return true;
    }
    is_active_member(membership)
}

// ----------------------------------------------------------------------------
// Validation
// ----------------------------------------------------------------------------

pub fn validate_member_status(status: &str) -> (r: AppResult<()>)
    ensures
        r is Ok <==> spec_valid_member_status(status@),
        r is Err ==> is_bad_request(r, member_status_message()),
{
    if str_eq(status, MEMBER_STATUS_PENDING) || str_eq(status, MEMBER_STATUS_ACTIVE) || str_eq(
        status,
        MEMBER_STATUS_DISABLED,
    ) || str_eq(status, MEMBER_STATUS_REJECTED) {
        Ok(())
    } else {
        Err(AppError::BadRequest("status must be pending, active, disabled, or rejected".to_owned()))
    }
}

pub fn validate_member_role(role: &str) -> (r: AppResult<()>)
    ensures
        r is Ok <==> spec_valid_member_role(role@),
        r is Err ==> is_bad_request(r, member_role_message()),
{
    if str_eq(role, MEMBER_ROLE_REGULAR) || str_eq(role, MEMBER_ROLE_PROPONENT) || str_eq(
        role,
        MEMBER_ROLE_SPACE_ADMIN,
    ) {
        Ok(())
    } else {
        Err(AppError::BadRequest("role must be regular, proponent, or space_admin".to_owned()))
    }
}


// ----------------------------------------------------------------------------
// Requesting membership
// ----------------------------------------------------------------------------

/// What a membership request does to the stored membership.
pub enum MembershipRequestOutcome {
    /// The user is already active or pending: nothing changes.
    Unchanged,
    /// A rejected membership goes back to pending: store this record over it.
    Reopened(NamespaceMember),
    /// The user had no membership: store this new pending one.
    Created(NamespaceMember),
}

/// A fresh pending request of a regular member, made at `now`.
pub open spec fn pending_request(namespace_id: Seq<char>, user_id: Seq<char>, role: Seq<char>, now: i64, m: NamespaceMember) -> bool {
    &&& m.namespace_id@ == namespace_id
    &&& m.user_id@ == user_id
    &&& m.role@ == role
    &&& m.status@ == MEMBER_STATUS_PENDING@
    &&& m.requested_at == now
    &&& m.reviewed_at is None
    &&& m.reviewed_by is None
}

pub open spec fn disabled_message() -> Seq<char> {
    "your access to this space is disabled"@
}

pub open spec fn invalid_status_message() -> Seq<char> {
    "invalid membership status"@
}

/// Decides a user's request to join a space at time `now`, given the user's
/// current membership: active and pending members keep theirs; a disabled member
/// is refused; a rejected member becomes pending again with the review cleared;
/// a user without membership gets a pending regular membership.
pub fn membership_request_outcome(
    existing: Option<&NamespaceMember>,
    namespace_id: &str,
    user_id: &str,
    now: i64,
) -> (r: AppResult<MembershipRequestOutcome>)
    ensures
        match existing {
            None => r matches Ok(MembershipRequestOutcome::Created(m)) && pending_request(
                namespace_id@,
                user_id@,
                MEMBER_ROLE_REGULAR@,
                now,
                m,
            ),
            Some(e) => {
                if e.status@ == MEMBER_STATUS_ACTIVE@ || e.status@ == MEMBER_STATUS_PENDING@ {
                    r matches Ok(MembershipRequestOutcome::Unchanged)
                } else if e.status@ == MEMBER_STATUS_DISABLED@ {
                    is_bad_request(r, disabled_message())
                } else if e.status@ == MEMBER_STATUS_REJECTED@ {
                    r matches Ok(MembershipRequestOutcome::Reopened(m)) && pending_request(
                        e.namespace_id@,
                        e.user_id@,
                        e.role@,
                        now,
                        m,
                    )
                } else {
                    is_bad_request(r, invalid_status_message())
                }
            },
        },
{
    match existing {
        Some(e) => {
            if str_eq(e.status.as_str(), MEMBER_STATUS_ACTIVE) || str_eq(e.status.as_str(), MEMBER_STATUS_PENDING) {
                Ok(MembershipRequestOutcome::Unchanged)
            } else if str_eq(e.status.as_str(), MEMBER_STATUS_DISABLED) {
                Err(AppError::BadRequest(owned("your access to this space is disabled")))
            } else if str_eq(e.status.as_str(), MEMBER_STATUS_REJECTED) {
                Ok(MembershipRequestOutcome::Reopened(NamespaceMember {
                    namespace_id: e.namespace_id.clone(),
                    user_id: e.user_id.clone(),
                    role: e.role.clone(),
                    status: owned(MEMBER_STATUS_PENDING),
                    requested_at: now,
                    reviewed_at: None,
                    reviewed_by: None,
                }))
            } else {
                Err(AppError::BadRequest(owned("invalid membership status")))
            }
        },
        None => Ok(MembershipRequestOutcome::Created(NamespaceMember {
            namespace_id: owned(namespace_id),
            user_id: owned(user_id),
            role: owned(MEMBER_ROLE_REGULAR),
            status: owned(MEMBER_STATUS_PENDING),
            requested_at: now,
            reviewed_at: None,
            reviewed_by: None,
        })),
    }
}

/// Membership requests exist only in spaces that require approval, and need a
/// complete profile (checked first).
pub fn check_membership_request(user: &User, ns: &Namespace) -> (r: AppResult<()>)
    ensures
        !user.profile_complete ==> r matches Err(AppError::Forbidden),
        user.profile_complete && !ns.require_member_approval ==> is_bad_request(
            r,
            "this space does not require member approval"@,
        ),
        r is Ok <==> user.profile_complete && ns.require_member_approval,
{
    if !user.profile_complete {
        return Err(AppError::Forbidden);
    }
    if !ns.require_member_approval {
        return Err(AppError::BadRequest(owned("this space does not require member approval")));
    }
    Ok(())
}

// ----------------------------------------------------------------------------
// Managing members
// ----------------------------------------------------------------------------

/// Query of `GET /{ns}/members`: an optional status to filter by.
pub struct MembersQuery {
    pub status: Option<String>,
}

/// Path of `PATCH /{ns}/members/{user_id}`.
pub struct MemberPath {
    pub namespace: String,
    pub user_id: String,
}

/// First checks of a change to `target_user_id`'s membership by `actor`: the
/// actor must manage the space, and may not change their own membership.
pub fn authorize_member_update(
    actor: &User,
    actor_membership: Option<&NamespaceMember>,
    target_user_id: &str,
) -> (r: AppResult<()>)
    ensures
        !spec_can_manage_space(actor.role@, status_of(actor_membership), member_role_of(actor_membership))
            ==> r matches Err(AppError::Forbidden),
        spec_can_manage_space(actor.role@, status_of(actor_membership), member_role_of(actor_membership))
            && target_user_id@ == actor.id@ ==> is_bad_request(r, "cannot change your own membership"@),
        r is Ok <==> spec_can_manage_space(actor.role@, status_of(actor_membership), member_role_of(actor_membership))
            && target_user_id@ != actor.id@,
{
    if !can_manage_space(actor, actor_membership) {
        return Err(AppError::Forbidden);
    }
    if str_eq(target_user_id, actor.id.as_str()) {
        return Err(AppError::BadRequest(owned("cannot change your own membership")));
    }
    Ok(())
}

/// The membership to change. A user without membership can only be changed by a
/// platform admin, who thereby makes them an active regular member reviewed by
/// the admin at `now` (the returned flag asks the caller to insert it).
pub fn membership_to_update(
    actor: &User,
    existing: Option<NamespaceMember>,
    namespace_id: &str,
    target_user_id: &str,
    now: i64,
) -> (r: AppResult<(NamespaceMember, bool)>)
    ensures
        match existing {
            Some(e) => r == Ok::<(NamespaceMember, bool), AppError>((e, false)),
            None => if spec_is_global_admin(actor.role@) {
                r matches Ok((m, true)) && {
                    &&& m.namespace_id@ == namespace_id@
                    &&& m.user_id@ == target_user_id@
                    &&& m.role@ == MEMBER_ROLE_REGULAR@
                    &&& m.status@ == MEMBER_STATUS_ACTIVE@
                    &&& m.requested_at == now
                    &&& m.reviewed_at == Some(now)
                    &&& m.reviewed_by matches Some(b) && b@ == actor.id@
                }
            } else {
                r matches Err(AppError::NotFound)
            },
        },
{
    match existing {
        Some(e) => Ok((e, false)),
        None => {
            if !is_global_admin(actor) {
                return Err(AppError::NotFound);
            }
            Ok((NamespaceMember {
                namespace_id: owned(namespace_id),
                user_id: owned(target_user_id),
                role: owned(MEMBER_ROLE_REGULAR),
                status: owned(MEMBER_STATUS_ACTIVE),
                requested_at: now,
                reviewed_at: Some(now),
                reviewed_by: Some(actor.id.clone()),
            }, true))
        },
    }
}

pub open spec fn requested_or(field: Option<String>, current: Seq<char>) -> Seq<char> {
    match field {
        Some(v) => v@,
        None => current,
    }
}

/// The review stamp after a change: a status change to active, rejected or
/// disabled is reviewed by `actor_id` at `now`; a change back to pending clears
/// the review; otherwise the review stays.
pub open spec fn review_after(
    old_status: Seq<char>,
    new_status: Seq<char>,
    old_at: Option<i64>,
    old_by: Option<Seq<char>>,
    actor_id: Seq<char>,
    now: i64,
) -> (Option<i64>, Option<Seq<char>>) {
    if new_status != old_status && (new_status == MEMBER_STATUS_ACTIVE@ || new_status
        == MEMBER_STATUS_REJECTED@ || new_status == MEMBER_STATUS_DISABLED@) {
        (Some(now), Some(actor_id))
    } else if new_status != old_status && new_status == MEMBER_STATUS_PENDING@ {
        (None, None)
    } else {
        (old_at, old_by)
    }
}

pub open spec fn opt_string_view(o: Option<String>) -> Option<Seq<char>> {
    match o {
        Some(s) => Some(s@),
        None => None,
    }
}

/// Only platform admins grant or revoke the space-admin role.
pub open spec fn touches_space_admin(old_role: Seq<char>, new_role: Seq<char>) -> bool {
    new_role != old_role && (new_role == MEMBER_ROLE_SPACE_ADMIN@ || old_role == MEMBER_ROLE_SPACE_ADMIN@)
}

/// Whether a change that results in `new_status` and `new_role` may be made by
/// an actor with global role `actor_role` to a member whose role was `old_role`.
pub open spec fn spec_member_update_allowed(actor_role: Seq<char>, old_role: Seq<char>, new_status: Seq<char>, new_role: Seq<char>) -> bool {
    &&& spec_valid_member_status(new_status)
    &&& spec_valid_member_role(new_role)
    &&& (spec_is_global_admin(actor_role) || (!touches_space_admin(old_role, new_role) && old_role != MEMBER_ROLE_SPACE_ADMIN@))
}

/// Applies a change of status and/or role to `existing`, made by `actor` at
/// `now`. Missing fields keep their value; the resulting status and role must be
/// valid; only platform admins grant or revoke `space_admin`, and only they may
/// change a space admin's membership at all.
pub fn plan_member_update(actor: &User, existing: NamespaceMember, body: &UpdateMemberRequest, now: i64) -> (r: AppResult<NamespaceMember>)
    ensures
        ({
            let new_status = requested_or(body.status, existing.status@);
            let new_role = requested_or(body.role, existing.role@);
            let admin = spec_is_global_admin(actor.role@);
            &&& !spec_valid_member_status(new_status) ==> is_bad_request(r, member_status_message())
            &&& spec_valid_member_status(new_status) && !spec_valid_member_role(new_role) ==> is_bad_request(r, member_role_message())
            &&& spec_valid_member_status(new_status) && spec_valid_member_role(new_role) && !admin && (touches_space_admin(existing.role@, new_role)
                || existing.role@ == MEMBER_ROLE_SPACE_ADMIN@) ==> is_forbidden(r)
            &&& spec_valid_member_status(new_status) && spec_valid_member_role(new_role) && (admin || (!touches_space_admin(existing.role@, new_role)
                && existing.role@ != MEMBER_ROLE_SPACE_ADMIN@)) ==> r is Ok
            &&& (r is Ok <==> spec_member_update_allowed(actor.role@, existing.role@, new_status, new_role))
            &&& r is Ok ==> {
                let m = r->Ok_0;
                let review = review_after(existing.status@, new_status, existing.reviewed_at, opt_string_view(existing.reviewed_by), actor.id@, now);
                &&& m.namespace_id == existing.namespace_id
                &&& m.user_id == existing.user_id
                &&& m.requested_at == existing.requested_at
                &&& m.status@ == new_status
                &&& m.role@ == new_role
                &&& m.reviewed_at == review.0
                &&& opt_string_view(m.reviewed_by) == review.1
            }
        }),
{
    let new_status: String = match &body.status {
        Some(s) => s.clone(),
        None => existing.status.clone(),
    };
    let new_role: String = match &body.role {
        Some(s) => s.clone(),
        None => existing.role.clone(),
    };
    validate_member_status(new_status.as_str())?;
    validate_member_role(new_role.as_str())?;
    let admin = is_global_admin(actor);
    if !str_eq(new_role.as_str(), existing.role.as_str()) && (str_eq(new_role.as_str(), MEMBER_ROLE_SPACE_ADMIN)
        || str_eq(existing.role.as_str(), MEMBER_ROLE_SPACE_ADMIN)) && !admin {
        return Err(AppError::Forbidden);
    }
    if !admin && str_eq(existing.role.as_str(), MEMBER_ROLE_SPACE_ADMIN) {
        return Err(AppError::Forbidden);
    }
    let status_changed = !str_eq(new_status.as_str(), existing.status.as_str());
    let (reviewed_at, reviewed_by) = if status_changed && (str_eq(new_status.as_str(), MEMBER_STATUS_ACTIVE)
        || str_eq(new_status.as_str(), MEMBER_STATUS_REJECTED) || str_eq(new_status.as_str(), MEMBER_STATUS_DISABLED)) {
        (Some(now), Some(actor.id.clone()))
    } else if status_changed && str_eq(new_status.as_str(), MEMBER_STATUS_PENDING) {
        (None, None)
    } else {
        (existing.reviewed_at, existing.reviewed_by)
    };
    Ok(NamespaceMember {
        namespace_id: existing.namespace_id,
        user_id: existing.user_id,
        role: new_role,
        status: new_status,
        requested_at: existing.requested_at,
        reviewed_at,
        reviewed_by,
    })
}

/// `p` shows membership `m` of user `u`: the membership's user, role, status and
/// dates with the user's name, email, picture, street and city.
pub open spec fn is_public_of(u: User, m: NamespaceMember, p: NamespaceMemberPublic) -> bool {
    &&& p.user_id == m.user_id
    &&& p.name == u.name
    &&& p.email == u.email
    &&& p.picture_url == u.picture_url
    &&& p.street == u.street
    &&& p.city == u.city
    &&& p.role == m.role
    &&& p.status == m.status
    &&& p.requested_at == m.requested_at
    &&& p.reviewed_at == m.reviewed_at
}

/// What a member looks like to the space's managers.
pub fn member_to_public(user: &User, m: NamespaceMember) -> (r: NamespaceMemberPublic)
    ensures
        is_public_of(*user, m, r),
{
    NamespaceMemberPublic {
        user_id: m.user_id,
        name: user.name.clone(),
        email: user.email.clone(),
        picture_url: user.picture_url.clone(),
        street: user.street.clone(),
        city: user.city.clone(),
        role: m.role,
        status: m.status,
        requested_at: m.requested_at,
        reviewed_at: m.reviewed_at,
    }
}

/// What the visitor may do in `ns`: nothing for anonymous visitors; otherwise
/// comments need a complete profile and [`can_comment`], and the other rights
/// follow [`ranking_counts`], [`can_manage_space`] and [`can_create_in_space`].
pub fn membership_me(ns: &Namespace, user: Option<&User>, membership: Option<NamespaceMember>) -> (r: MembershipMeResponse)
    ensures
        r.require_member_approval == ns.require_member_approval,
        match user {
            None => !r.can_comment && !r.ranking_counts && !r.can_manage_space && !r.can_create_proposal
                && r.membership is None,
            Some(u) => {
                let mr = match membership { Some(m) => Some(&m), None => None::<&NamespaceMember> };
                &&& r.can_comment == (u.profile_complete && spec_can_comment(ns.require_member_approval, u.role@, status_of(mr)))
                &&& r.ranking_counts == spec_ranking_counts(ns.require_member_approval, u.role@, status_of(mr))
                &&& r.can_manage_space == spec_can_manage_space(u.role@, status_of(mr), member_role_of(mr))
                &&& r.can_create_proposal == spec_can_create_in_space(u.role@, status_of(mr), member_role_of(mr))
                &&& (r.membership is Some <==> membership is Some)
                &&& (r.membership matches Some(p) ==> membership matches Some(m) && is_public_of(*u, m, p))
            },
        },
{
    match user {
        None => MembershipMeResponse {
            require_member_approval: ns.require_member_approval,
            membership: None,
            can_comment: false,
            ranking_counts: false,
            can_manage_space: false,
            can_create_proposal: false,
        },
        Some(u) => {
            let can_c = u.profile_complete && can_comment(ns, u, membership.as_ref());
            let counts = ranking_counts(ns, u, membership.as_ref());
            let manage = can_manage_space(u, membership.as_ref());
            let create = can_create_in_space(u, membership.as_ref());
            let public = match membership {
                Some(m) => Some(member_to_public(u, m)),
                None => None,
            };
            MembershipMeResponse {
                require_member_approval: ns.require_member_approval,
                membership: public,
                can_comment: can_c,
                ranking_counts: counts,
                can_manage_space: manage,
                can_create_proposal: create,
            }
        },
    }
}


// ----------------------------------------------------------------------------
// Laws of membership
// ----------------------------------------------------------------------------

/// Platform administrators manage every space, create proposals, comment and
/// count in the ranking everywhere, whatever their membership.
pub proof fn lemma_admin_can_do_everything(require_approval: bool, status: Option<Seq<char>>, role: Option<Seq<char>>)
    ensures
        spec_can_manage_space(ROLE_ADMIN@, status, role),
        spec_can_create_in_space(ROLE_ADMIN@, status, role),
        spec_ranking_counts(require_approval, ROLE_ADMIN@, status),
        spec_can_comment(require_approval, ROLE_ADMIN@, status),
{
}

/// In a space that does not require approval, everybody's prioritisation counts
/// and everybody may comment.
pub proof fn lemma_open_space_participation(user_role: Seq<char>, status: Option<Seq<char>>)
    ensures
        spec_ranking_counts(false, user_role, status),
        spec_can_comment(false, user_role, status),
{
}

/// In a space that requires approval, a user who is not a platform admin counts
/// in the ranking, and may comment, exactly when their membership is active:
/// pending, rejected and disabled members and non-members do not.
pub proof fn lemma_approval_requires_active_membership(user_role: Seq<char>, status: Option<Seq<char>>)
    requires
        !spec_is_global_admin(user_role),
    ensures
        spec_ranking_counts(true, user_role, status) <==> status == Some(MEMBER_STATUS_ACTIVE@),
        spec_can_comment(true, user_role, status) <==> status == Some(MEMBER_STATUS_ACTIVE@),
{
}

/// Commenting and counting in the ranking are always granted together.
pub proof fn lemma_comment_iff_ranking_counts(require_approval: bool, user_role: Seq<char>, status: Option<Seq<char>>)
    ensures
        spec_can_comment(require_approval, user_role, status) == spec_ranking_counts(require_approval, user_role, status),
{
}

/// An active space admin manages the space and may create proposals in it.
pub proof fn lemma_space_admin_rights(user_role: Seq<char>)
    ensures
        spec_can_manage_space(user_role, Some(MEMBER_STATUS_ACTIVE@), Some(MEMBER_ROLE_SPACE_ADMIN@)),
        spec_can_create_in_space(user_role, Some(MEMBER_STATUS_ACTIVE@), Some(MEMBER_ROLE_SPACE_ADMIN@)),
{
}

/// A membership that is not active gives no right to manage the space.
pub proof fn lemma_inactive_membership_cannot_manage(user_role: Seq<char>, status: Seq<char>, role: Option<Seq<char>>)
    requires
        !spec_is_global_admin(user_role),
        status != MEMBER_STATUS_ACTIVE@,
    ensures
        !spec_can_manage_space(user_role, Some(status), role),
{
}

/// A request leaves active and pending memberships as they are, and whatever a
/// request stores is pending: requesting again changes nothing.
pub proof fn lemma_request_idempotent(namespace_id: Seq<char>, user_id: Seq<char>, role: Seq<char>, now: i64, m: NamespaceMember)
    requires
        pending_request(namespace_id, user_id, role, now, m),
    ensures
        m.status@ == MEMBER_STATUS_PENDING@,
        m.status@ == MEMBER_STATUS_ACTIVE@ || m.status@ == MEMBER_STATUS_PENDING@,
{
}

/// Only platform admins grant or revoke the space-admin role: a change that a
/// space admin may make neither involves a space admin before nor after.
pub proof fn lemma_only_admins_touch_space_admins(actor_role: Seq<char>, old_role: Seq<char>, new_status: Seq<char>, new_role: Seq<char>)
    requires
        !spec_is_global_admin(actor_role),
        spec_member_update_allowed(actor_role, old_role, new_status, new_role),
    ensures
        old_role != MEMBER_ROLE_SPACE_ADMIN@,
        new_role != MEMBER_ROLE_SPACE_ADMIN@,
{
}

/// An allowed membership change always leaves a valid status and a valid role.
pub proof fn lemma_update_keeps_valid(actor_role: Seq<char>, old_role: Seq<char>, new_status: Seq<char>, new_role: Seq<char>)
    requires
        spec_member_update_allowed(actor_role, old_role, new_status, new_role),
    ensures
        spec_valid_member_status(new_status),
        spec_valid_member_role(new_role),
{
}

/// Who may create proposals in a space: platform admins and global proponents
/// anywhere; anyone else only with an active membership whose space role is
/// proponent or space admin. A regular member, active or not, may not.
pub proof fn lemma_who_can_create(user_role: Seq<char>, status: Option<Seq<char>>, role: Option<Seq<char>>)
    ensures
        spec_can_create_in_space(user_role, status, role) <==> (user_role == "admin"@ || user_role == "proponent"@
            || (status == Some("active"@) && (role == Some("proponent"@) || role == Some("space_admin"@)))),
        user_role != "admin"@ && user_role != "proponent"@ ==> !spec_can_create_in_space(user_role, status, Some("regular"@)),
{
    reveal_strlit("admin");
    reveal_strlit("proponent");
    reveal_strlit("active");
    reveal_strlit("space_admin");
    reveal_strlit("regular");
    assert("regular"@.len() != "proponent"@.len());
    assert("regular"@.len() != "space_admin"@.len());
}

/// Who manages a space: platform admins, and users whose membership is active
/// with the space-admin role; nobody else.
pub proof fn lemma_who_can_manage(user_role: Seq<char>, status: Option<Seq<char>>, role: Option<Seq<char>>)
    ensures
        spec_can_manage_space(user_role, status, role) <==> (user_role == "admin"@
            || (status == Some("active"@) && role == Some("space_admin"@))),
{
}

/// Whose prioritisation counts, and who may comment: platform admins always,
/// everybody in a space without approval, and otherwise exactly the users with
/// an active membership, whatever their global or space role.
pub proof fn lemma_whose_ranking_counts(require_approval: bool, user_role: Seq<char>, status: Option<Seq<char>>)
    ensures
        spec_ranking_counts(require_approval, user_role, status) <==> (user_role == "admin"@ || !require_approval
            || status == Some("active"@)),
        spec_can_comment(require_approval, user_role, status) <==> (user_role == "admin"@ || !require_approval
            || status == Some("active"@)),
{
}

/// Which member changes are allowed: the resulting status must be pending,
/// active, disabled or rejected and the resulting role regular, proponent or
/// space admin; a platform admin may make any such change, anyone else (a space
/// admin) only while neither the old nor the new role is space admin. So a
/// space admin may move a member between regular and proponent, with any valid
/// status.
pub proof fn lemma_member_update_rule(actor_role: Seq<char>, old_role: Seq<char>, new_status: Seq<char>, new_role: Seq<char>)
    ensures
        spec_member_update_allowed(actor_role, old_role, new_status, new_role) <==> (
            (new_status == "pending"@ || new_status == "active"@ || new_status == "disabled"@ || new_status == "rejected"@)
            && (new_role == "regular"@ || new_role == "proponent"@ || new_role == "space_admin"@)
            && (actor_role == "admin"@ || (old_role != "space_admin"@ && new_role != "space_admin"@))),
        (new_status == "pending"@ || new_status == "active"@ || new_status == "disabled"@ || new_status == "rejected"@)
            && (old_role == "regular"@ || old_role == "proponent"@) && (new_role == "regular"@ || new_role == "proponent"@)
            ==> spec_member_update_allowed(actor_role, old_role, new_status, new_role),
{
    reveal_strlit("regular");
    reveal_strlit("proponent");
    reveal_strlit("space_admin");
    assert("regular"@.len() != "space_admin"@.len());
    assert("proponent"@.len() != "space_admin"@.len());
}

} // verus!
