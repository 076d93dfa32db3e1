use vstd::prelude::*;

use crate::error::{is_bad_request, AppError, AppResult};
use crate::text::{concat, owned, str_eq};

verus! {

/// Largest accepted logo, in bytes (2 MB).
pub const MAX_LOGO_BYTES: usize = 2097152;

/// The file extension for an accepted image content type.
pub open spec fn spec_logo_extension(content_type: Seq<char>) -> Option<Seq<char>> {
    if content_type == "image/jpeg"@ || content_type == "image/jpg"@ {
        Some("jpg"@)
    } else if content_type == "image/png"@ {
        Some("png"@)
    } else if content_type == "image/webp"@ {
        Some("webp"@)
    } else {
        None
    }
}

/// Logos must be JPEG, PNG or WebP; gives the extension to store them with.
pub fn logo_extension(content_type: &str) -> (r: AppResult<&'static str>)
    ensures
        match spec_logo_extension(content_type@) {
            Some(e) => r matches Ok(x) && x@ == e,
            None => is_bad_request(r, "logo must be JPEG, PNG, or WebP"@),
        },
{
    if str_eq(content_type, "image/jpeg") || str_eq(content_type, "image/jpg") {
        Ok("jpg")
    } else if str_eq(content_type, "image/png") {
        Ok("png")
    } else if str_eq(content_type, "image/webp") {
        Ok("webp")
    } else {
        Err(AppError::BadRequest(owned("logo must be JPEG, PNG, or WebP")))
    }
}

/// A logo must not be empty nor larger than [`MAX_LOGO_BYTES`].
pub fn check_logo_size(len: usize) -> (r: AppResult<()>)
    ensures
        len == 0 ==> is_bad_request(r, "empty file"@),
        0 < len <= MAX_LOGO_BYTES ==> r is Ok,
        len > MAX_LOGO_BYTES ==> is_bad_request(r, "logo must be at most 2 MB"@),
{
    if len == 0 {
        return Err(AppError::BadRequest(owned("empty file")));
    }
    if len > MAX_LOGO_BYTES {
        return Err(AppError::BadRequest(owned("logo must be at most 2 MB")));
    }
    Ok(())
}

/// The stored file name `{stem}.{ext}`.
pub fn logo_file_name(stem: &str, ext: &str) -> (r: String)
    ensures
        r@ == stem@ + "."@ + ext@,
{
    let mut r = concat(stem, ".");
    r.append(ext);
    r
}

/// The public URL of an uploaded file: `/uploads/{file_name}`.
pub fn upload_url(file_name: &str) -> (r: String)
    ensures
        r@ == "/uploads/"@ + file_name@,
{
    concat("/uploads/", file_name)
}

} // verus!
