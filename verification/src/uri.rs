//! The request targets and authorities of the `http` crate.
//!
//! Whether a text is a URI or an authority, and which, is for the parsers
//! of `http` to say: this module names what they make of a text and takes
//! it on trust that equal texts are read alike.

use vstd::prelude::*;

verus! {

#[verifier::external_type_specification]
#[verifier::external_body]
pub struct ExUri(http::Uri);

#[verifier::external_type_specification]
#[verifier::external_body]
pub struct ExAuthority(http::uri::Authority);

/// What the parser of `http` makes of a text: the URI that it spells, or
/// `None` where it spells none.
pub uninterp spec fn parsed_uri(text: Seq<u8>) -> Option<http::Uri>;

/// Calls `http::Uri::try_from` on the bytes. The result is what the parser
/// makes of them; nothing is claimed about which texts it takes.
#[verifier::external_body]
pub(crate) fn parse_uri(text: &[u8]) -> (uri: Option<http::Uri>)
    ensures
        uri == parsed_uri(text@),
{
    http::Uri::try_from(text).ok()
}

/// What the parser of `http` makes of a text: the authority that it spells,
/// or `None` where it spells none.
pub uninterp spec fn parsed_authority(text: Seq<char>) -> Option<http::uri::Authority>;

/// Calls `http::uri::Authority::try_from` on the text. The result is what
/// the parser makes of it; nothing is claimed about which texts it takes.
#[verifier::external_body]
pub(crate) fn parse_authority(text: &str) -> (authority: Option<http::uri::Authority>)
    ensures
        authority == parsed_authority(text@),
{
    http::uri::Authority::try_from(text).ok()
}

} // verus!
