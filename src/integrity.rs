//! Content digests in Subresource Integrity form (`sha256-<base64>`).
use vstd::prelude::*;
use crate::text::matches_at;

verus! {

/// The SRI text that ssri computes for this content.
pub uninterp spec fn sri_of(content: Seq<char>) -> Seq<char>;

/// Relies on `ssri::Integrity::from` and its `Display`: the SHA-256 digest of
/// the content's UTF-8 bytes written as `sha256-<base64>`, a function of the
/// content alone.
#[verifier::external_body]
fn sri_digest(content: &str) -> (r: String)
    ensures
        r@ == sri_of(content@),
{
    ssri::Integrity::from(content).to_string()
}

/// The digest of some content.
pub fn digest_of(content: &str) -> (r: String)
    ensures
        r@ == sri_of(content@),
{
    sri_digest(content)
}

/// Digests compare as text: another algorithm or encoding of the same
/// content counts as a mismatch.
pub fn digests_match(a: &str, b: &str) -> (r: bool)
    ensures
        r == (a@ == b@),
{
    let same_len = a.unicode_len() == b.unicode_len();
    let r = same_len && matches_at(a, b, 0);
    assert(a@.len() == b@.len() ==> a@ =~= a@.subrange(0, b@.len() as int));
    r
}

/// Cached content is fresh when its digest is the one the manifest gives.
pub fn is_fresh(content: &str, expected_digest: &str) -> (r: bool)
    ensures
        r == (sri_of(content@) == expected_digest@),
{
    let d = sri_digest(content);
    digests_match(d.as_str(), expected_digest)
}

} // verus!
