use vstd::prelude::*;

use crate::auth::is_admin;
use crate::error::{is_bad_request, AppError, AppResult};
use crate::membership::spec_is_global_admin;
use crate::models::{CreateNamespaceRequest, User};
use crate::text::{byte_len, chars_of, lowercase_of, owned, to_lowercase, trim, trim_spec};

verus! {

pub open spec fn is_ascii_lower(c: char) -> bool {
    'a' <= c <= 'z'
}

pub open spec fn is_ascii_digit(c: char) -> bool {
    '0' <= c <= '9'
}

/// A slug: 2 to 64 bytes of lower-case ASCII letters, digits and hyphens,
/// starting with a letter or digit, without a double hyphen and not ending in one.
pub open spec fn spec_valid_slug(s: Seq<char>) -> bool {
    &&& 2 <= byte_len(s) <= 64
    &&& s.len() > 0
    &&& (is_ascii_lower(s[0]) || is_ascii_digit(s[0]))
    &&& forall|i: int| 0 <= i < s.len() ==> is_ascii_lower(#[trigger] s[i]) || is_ascii_digit(s[i]) || s[i] == '-'
    &&& forall|i: int| 0 <= i < s.len() - 1 ==> !(#[trigger] s[i] == '-' && s[i + 1] == '-')
    &&& s.last() != '-'
}

pub fn is_valid_slug(slug: &str) -> (r: bool)
    ensures
        r == spec_valid_slug(slug@),
{
    let len = slug.len();
    if len < 2 || len > 64 {
        return false;
    }
    let v = chars_of(slug);
    if v.len() == 0 {
        return false;
    }
    let first = v[0];
    if !(('a' <= first && first <= 'z') || ('0' <= first && first <= '9')) {
        return false;
    }
    let mut i: usize = 0;
    while i < v.len()
        invariant
            v@ == slug@,
            i <= v@.len(),
            forall|t: int| 0 <= t < i ==> is_ascii_lower(#[trigger] v@[t]) || is_ascii_digit(v@[t]) || v@[t] == '-',
            forall|t: int| 0 <= t < i && t < v@.len() - 1 ==> !(#[trigger] v@[t] == '-' && v@[t + 1] == '-'),
        decreases v@.len() - i,
    {
        let c = v[i];
        if !(('a' <= c && c <= 'z') || ('0' <= c && c <= '9') || c == '-') {
            return false;
        }
        if c == '-' && i + 1 < v.len() && v[i + 1] == '-' {
            return false;
        }
        i += 1;
    }
    if v[v.len() - 1] == '-' {
        return false;
    }
    true
}

/// A new space as stored: trimmed name, trimmed lower-cased slug.
pub struct NewNamespace {
    pub slug: String,
    pub name: String,
}

pub open spec fn slug_message() -> Seq<char> {
    "slug must be 2–64 chars: lowercase letters, numbers, and hyphens"@
}

/// Decides the creation of a space: only platform admins; the trimmed name must
/// not be empty nor exceed 100 bytes; the slug, trimmed and lower-cased, must be
/// valid. Whether it is already taken the caller checks.
pub fn prepare_namespace(actor: &User, body: &CreateNamespaceRequest) -> (r: AppResult<NewNamespace>)
    ensures
        !spec_is_global_admin(actor.role@) ==> r matches Err(AppError::Forbidden),
        spec_is_global_admin(actor.role@) && trim_spec(body.name@).len() == 0 ==> is_bad_request(r, "name is required"@),
        spec_is_global_admin(actor.role@) && trim_spec(body.name@).len() != 0 && byte_len(trim_spec(body.name@)) > 100
            ==> is_bad_request(r, "name is too long"@),
        spec_is_global_admin(actor.role@) && trim_spec(body.name@).len() != 0 && byte_len(trim_spec(body.name@)) <= 100
            && !spec_valid_slug(lowercase_of(trim_spec(body.slug@))) ==> is_bad_request(r, slug_message()),
        spec_is_global_admin(actor.role@) && trim_spec(body.name@).len() != 0 && byte_len(trim_spec(body.name@)) <= 100
            && spec_valid_slug(lowercase_of(trim_spec(body.slug@))) ==> (r matches Ok(n) && n.name@ == trim_spec(body.name@)
            && n.slug@ == lowercase_of(trim_spec(body.slug@))),
{
    if !is_admin(actor) {
        return Err(AppError::Forbidden);
    }
    let name = trim(body.name.as_str());
    let slug = to_lowercase(trim(body.slug.as_str()));
    if name.is_empty() {
        return Err(AppError::BadRequest(owned("name is required")));
    }
    if name.len() > 100 {
        return Err(AppError::BadRequest(owned("name is too long")));
    }
    if !is_valid_slug(slug.as_str()) {
        return Err(AppError::BadRequest(owned("slug must be 2–64 chars: lowercase letters, numbers, and hyphens")));
    }
    Ok(NewNamespace { slug, name: owned(name) })
}

} // verus!
