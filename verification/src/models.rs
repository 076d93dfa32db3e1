use vstd::prelude::*;

verus! {

/// A registered resident. Timestamps are microseconds since the Unix epoch.
pub struct User {
    pub id: String,
    pub google_sub: String,
    pub email: String,
    pub name: String,
    pub picture_url: Option<String>,
    pub role: String,
    pub street: Option<String>,
    pub floor_apt: Option<String>,
    pub city: Option<String>,
    pub postal_code: Option<String>,
    pub profile_complete: bool,
    pub created_at: i64,
    pub updated_at: i64,
}

/// A neighbourhood space. `created_at` is in microseconds since the Unix epoch.
pub struct Namespace {
    pub id: String,
    pub slug: String,
    pub name: String,
    pub require_member_approval: bool,
    pub created_at: i64,
}

/// Membership of a user in a space. Timestamps are microseconds since the Unix epoch.
pub struct NamespaceMember {
    pub namespace_id: String,
    pub user_id: String,
    pub role: String,
    pub status: String,
    pub requested_at: i64,
    pub reviewed_at: Option<i64>,
    pub reviewed_by: Option<String>,
}

/// The status of an optional membership, as characters.
pub open spec fn status_of(m: Option<&NamespaceMember>) -> Option<Seq<char>> {
    match m {
        Some(m) => Some(m.status@),
        None => None,
    }
}

/// The space role of an optional membership, as characters.
pub open spec fn member_role_of(m: Option<&NamespaceMember>) -> Option<Seq<char>> {
    match m {
        Some(m) => Some(m.role@),
        None => None,
    }
}

/// Public projection of a user, as shown next to proposals and comments.
pub struct UserPublic {
    pub id: String,
    pub name: String,
    pub picture_url: Option<String>,
    pub role: String,
}

impl UserPublic {
    /// Keeps the public fields of `u`.
    pub fn from(u: User) -> (r: UserPublic)
        ensures
            r.id == u.id,
            r.name == u.name,
            r.picture_url == u.picture_url,
            r.role == u.role,
    {
        UserPublic { id: u.id, name: u.name, picture_url: u.picture_url, role: u.role }
    }
}

/// A proposal category of the fixed catalogue.
pub struct Category {
    pub id: String,
    pub name: String,
}

/// What a member of a space looks like to the space's managers.
pub struct NamespaceMemberPublic {
    pub user_id: String,
    pub name: String,
    pub email: String,
    pub picture_url: Option<String>,
    pub street: Option<String>,
    pub city: Option<String>,
    pub role: String,
    pub status: String,
    pub requested_at: i64,
    pub reviewed_at: Option<i64>,
}

/// What the current visitor may do in a space.
pub struct MembershipMeResponse {
    pub require_member_approval: bool,
    pub membership: Option<NamespaceMemberPublic>,
    pub can_comment: bool,
    pub ranking_counts: bool,
    pub can_manage_space: bool,
    pub can_create_proposal: bool,
}

/// Body of `PATCH /namespaces/{slug}`.
pub struct UpdateNamespaceRequest {
    pub require_member_approval: Option<bool>,
}

/// Body of `PATCH /{ns}/members/{user_id}`.
pub struct UpdateMemberRequest {
    pub status: Option<String>,
    pub role: Option<String>,
}

/// A proposal as stored. Timestamps are microseconds since the Unix epoch.
pub struct Proposal {
    pub id: String,
    pub title: String,
    pub description: String,
    pub logo_url: Option<String>,
    pub status: String,
    pub author_id: String,
    pub tracker_id: Option<String>,
    pub category_id: Option<String>,
    pub namespace_id: Option<String>,
    pub created_at: i64,
    pub updated_at: i64,
}

/// A proposal in the ranked listing. `created_at` is in microseconds since the
/// Unix epoch; `rank_position` is 1-based.
pub struct ProposalListItem {
    pub id: String,
    pub title: String,
    pub description: String,
    pub logo_url: Option<String>,
    pub status: String,
    pub author: UserPublic,
    pub tracker: Option<UserPublic>,
    pub category: Category,
    pub rank_position: i64,
    pub score: i64,
    pub rankers_count: i64,
    pub agreement: Option<String>,
    pub created_at: i64,
}

/// A comment on a proposal. Timestamps are microseconds since the Unix epoch.
pub struct Comment {
    pub id: String,
    pub proposal_id: String,
    pub author_id: String,
    pub content: String,
    pub created_at: i64,
    pub edited_at: Option<i64>,
}

/// Body of `PATCH /users/me`.
pub struct UpdateProfileRequest {
    pub street: String,
    pub floor_apt: Option<String>,
    pub city: String,
    pub postal_code: Option<String>,
}

/// Body of `POST /namespaces`.
pub struct CreateNamespaceRequest {
    pub slug: String,
    pub name: String,
}

/// Body of `PATCH /users/{id}/role`.
pub struct UpdateRoleRequest {
    pub role: String,
}

/// Body of `POST /{ns}/proposals`.
pub struct CreateProposalRequest {
    pub title: String,
    pub description: String,
    pub logo_url: Option<String>,
    pub category_id: String,
}

/// Body of `PATCH /{ns}/proposals/{id}`.
pub struct UpdateProposalRequest {
    pub title: Option<String>,
    pub description: Option<String>,
    pub logo_url: Option<String>,
    pub category_id: Option<String>,
}

/// Body of `PATCH /{ns}/proposals/{id}/status`.
pub struct UpdateStatusRequest {
    pub status: String,
}

/// Body of `PATCH /{ns}/proposals/{id}/tracker`.
pub struct UpdateTrackerRequest {
    pub tracker_id: Option<String>,
}

/// Body of `PUT /{ns}/rankings/me`: proposal ids, highest priority first.
pub struct SaveRankingRequest {
    pub proposal_ids: Vec<String>,
}

/// Body of `POST /{ns}/proposals/{id}/comments`.
pub struct CreateCommentRequest {
    pub content: String,
}

/// Body of `POST /auth/dev-login`.
pub struct DevLoginRequest {
    pub email: String,
    pub name: String,
    pub role: Option<String>,
}

/// A user's saved order of proposals, highest priority first.
pub struct RankingResponse {
    pub proposal_ids: Vec<String>,
}

} // verus!
