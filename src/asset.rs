//! Static files of the web viewer: what is answered for a requested path.

use vstd::prelude::*;

verus! {

/// A static file, named by its path below the site root.
pub struct StaticFile<T>(pub T);

/// The MIME type that mime_guess gives a path, falling back to
/// `application/octet-stream`.
pub uninterp spec fn mime_of(path: Seq<char>) -> Seq<char>;

/// Relies on `mime_guess::from_path` and `MimeGuess::first_or_octet_stream`:
/// the MIME type guessed from the path's extension.
#[verifier::external_body]
fn guess_mime(path: &str) -> (r: String)
    ensures
        r@ == mime_of(path@),
{
    mime_guess::from_path(path).first_or_octet_stream().as_ref().to_string()
}

/// An HTTP answer for a static file.
pub struct StaticResponse {
    pub status: u16,
    pub content_type: Option<String>,
    pub body: Vec<u8>,
}

/// The body of the answer for a missing file: the ASCII text "404".
pub open spec fn not_found_body() -> Seq<u8> {
    seq![0x34u8, 0x30u8, 0x34u8]
}

impl StaticFile<String> {
    /// The answer for this file, given its content if the site holds it:
    /// status 200 with the content and the MIME type guessed from the path,
    /// or status 404 with the body "404" and no content type.
    pub fn into_response(self, content: Option<Vec<u8>>) -> (r: StaticResponse)
        ensures
            match content {
                Some(data) => r.status == 200 && r.body@ == data@ && r.content_type is Some
                    && r.content_type->0@ == mime_of(self.0@),
                None => r.status == 404 && r.body@ == not_found_body() && r.content_type is None,
            },
    {
        match content {
            Some(data) => {
                let mime = guess_mime(self.0.as_str());
                StaticResponse { status: 200, content_type: Some(mime), body: data }
            },
            None => {
                let body: Vec<u8> = vec![0x34u8, 0x30u8, 0x34u8];
                assert(body@ =~= not_found_body());
                StaticResponse { status: 404, content_type: None, body }
            },
        }
    }
}

} // verus!
