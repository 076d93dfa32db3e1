use vstd::prelude::*;

use crate::auth::is_admin;
use crate::error::{is_bad_request, AppError, AppResult};
use crate::membership::{can_comment, spec_can_comment, spec_is_global_admin};
use crate::models::{status_of, Namespace, NamespaceMember, User};
use crate::proposals::STATUS_REJECTED;
use crate::text::{chars_of, owned, str_eq, trim, trim_spec};

verus! {

/// Query of the comment listing.
pub struct CommentsQuery {
    pub limit: i64,
    pub offset: i64,
}

/// Path of `DELETE /{namespace}/comments/{id}`.
pub struct CommentDeletePath {
    pub namespace: String,
    pub id: String,
}

/// Longest comment, in characters.
pub const MAX_COMMENT_CHARS: usize = 2000;

/// Comments shown per page when the query names no limit.
pub fn default_limit() -> (r: i64)
    ensures
        r == 10,
{
    10
}

/// Decides a new comment on a proposal in `proposal_status`: the author must be
/// allowed to comment in the space; rejected proposals take no comments; the
/// content must not be blank nor longer than 2000 characters, and is stored
/// trimmed. (The complete profile is checked before the proposal is looked up.)
pub fn prepare_comment(
    ns: &Namespace,
    user: &User,
    membership: Option<&NamespaceMember>,
    proposal_status: &str,
    content: &str,
) -> (r: AppResult<String>)
    ensures
        ({
            let can = spec_can_comment(ns.require_member_approval, user.role@, status_of(membership));
            let c = trim_spec(content@);
            &&& !can ==> (r matches Err(AppError::Forbidden))
            &&& can && proposal_status@ == STATUS_REJECTED@ ==> is_bad_request(r, "cannot comment on rejected proposals"@)
            &&& can && proposal_status@ != STATUS_REJECTED@ && c.len() == 0 ==> is_bad_request(r, "content required"@)
            &&& can && proposal_status@ != STATUS_REJECTED@ && c.len() > MAX_COMMENT_CHARS
                ==> is_bad_request(r, "content must be at most 2000 characters"@)
            &&& can && proposal_status@ != STATUS_REJECTED@ && c.len() != 0 && c.len() <= MAX_COMMENT_CHARS
                ==> (r matches Ok(x) && x@ == c)
        }),
{
    if !can_comment(ns, user, membership) {
        return Err(AppError::Forbidden);
    }
    if str_eq(proposal_status, STATUS_REJECTED) {
        return Err(AppError::BadRequest(owned("cannot comment on rejected proposals")));
    }
    let c = trim(content);
    if c.is_empty() {
        return Err(AppError::BadRequest(owned("content required")));
    }
    if chars_of(c).len() > MAX_COMMENT_CHARS {
        return Err(AppError::BadRequest(owned("content must be at most 2000 characters")));
    }
    Ok(owned(c))
}

pub fn can_delete_comment(user: &User, comment_author_id: &str) -> (r: bool)
    ensures
        r == (comment_author_id@ == user.id@ || spec_is_global_admin(user.role@)),
{
    str_eq(comment_author_id, user.id.as_str()) || is_admin(user)
}

} // verus!
