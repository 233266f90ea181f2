//! Gzip-compressed assets, inflated through `flate2`.
use vstd::prelude::*;
use std::io::Read;

verus! {

/// What `flate2::read::GzDecoder` reads to the end from the bytes, or `None`
/// when the stream is not valid gzip.
pub uninterp spec fn gunzipped(raw: Seq<u8>) -> Option<Seq<u8>>;

/// Inflates with `flate2::read::GzDecoder::new(raw).read_to_end`.
#[verifier::external_body]
fn gunzip_bytes(raw: &[u8]) -> (r: Option<Vec<u8>>)
    ensures
        match r {
            Some(v) => gunzipped(raw@) == Some(v@),
            None => gunzipped(raw@) is None,
        },
{
    let mut out = Vec::new();
    match flate2::read::GzDecoder::new(raw).read_to_end(&mut out) {
        Ok(_) => Some(out),
        Err(_) => None,
    }
}

/// The gzip stream was not valid.
#[derive(Debug, PartialEq, Eq, Structural)]
pub struct GzError;

/// Inflates a gzip-compressed asset read from disk.
pub fn decompress_gz(raw: &[u8]) -> (r: Result<Vec<u8>, GzError>)
    ensures
        match gunzipped(raw@) {
            Some(v) => r matches Ok(out) && out@ == v,
            None => r == Err::<Vec<u8>, GzError>(GzError),
        },
{
    match gunzip_bytes(raw) {
        Some(v) => Ok(v),
        None => Err(GzError),
    }
}

} // verus!
