//! Front covers from the Cover Art Archive: the request URL and how its
//! response is judged.

use vstd::prelude::*;
use crate::musicbrainz::{is_success, status_message};

verus! {

/// The front-cover URL of a release.
pub open spec fn cover_url_text(release_id: Seq<char>) -> Seq<char> {
    "https://coverartarchive.org/release/"@ + release_id + "/front"@
}

/// The Cover Art Archive URL of a release's front cover.
pub fn front_cover_url(release_id: &str) -> (r: String)
    ensures
        r@ == cover_url_text(release_id@),
{
    let mut s = String::from_str("https://coverartarchive.org/release/");
    s.append(release_id);
    s.append("/front");
    s
}

/// A cover response: many releases have no art at all (404), reported as
/// "no cover art available", which callers treat as no cover rather than
/// as a failure; any other non-success fails with its status.
pub fn check_cover_response(code: u16, status: &str) -> (r: Result<(), String>)
    ensures
        code == 404 ==> (r matches Err(m) && m@ == "no cover art available for this release"@),
        code != 404 && is_success(code) ==> r is Ok,
        code != 404 && !is_success(code) ==> (r matches Err(m) && m@ == status_message(
            "Cover Art Archive"@,
            status@,
        )),
{
    if code == 404 {
        Err(String::from_str("no cover art available for this release"))
    } else if 200 <= code && code <= 299 {
        Ok(())
    } else {
        let mut s = String::from_str("Cover Art Archive");
        s.append(" returned status ");
        s.append(status);
        Err(s)
    }
}

/// The image's MIME type: the response's `Content-Type` when it has a
/// readable one, else JPEG.
pub fn cover_mime(content_type: Option<&str>) -> (r: String)
    ensures
        match content_type {
            Some(t) => r@ == t@,
            None => r@ == "image/jpeg"@,
        },
{
    match content_type {
        Some(t) => String::from_str(t),
        None => String::from_str("image/jpeg"),
    }
}

} // verus!
