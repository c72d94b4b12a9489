//! The page that the browser loads. It is stored compressed.

use vstd::prelude::*;

verus! {

/// What a gzip stream holds, if it is one.
pub uninterp spec fn inflated(bytes: Seq<u8>) -> Option<Seq<u8>>;

/// `flate2::read::GzDecoder`, read to its end. What comes out depends on the bytes alone.
#[verifier::external_body]
fn inflate(bytes: &[u8]) -> (r: Option<Vec<u8>>)
    ensures
        match r {
            Some(plain) => inflated(bytes@) == Some(plain@),
            None => inflated(bytes@) is None,
        },
{
    let mut plain = Vec::new();
    let mut decoder = flate2::read::GzDecoder::new(bytes);
    std::io::Read::read_to_end(&mut decoder, &mut plain).ok()?;
    Some(plain)
}

/// The page in the clear, given how it is stored. None when what is stored is no gzip stream.
pub fn index_html_plain(stored: &[u8]) -> (r: Option<Vec<u8>>)
    ensures
        match r {
            Some(plain) => inflated(stored@) == Some(plain@),
            None => inflated(stored@) is None,
        },
{
    inflate(stored)
}

} // verus!
