//! Compression of a body into a gzip stream, the one form of compression
//! that the server has.

use flate2::write::GzEncoder;
use flate2::Compression;
use std::io::Write;
use vstd::prelude::*;

verus! {

/// What the gzip encoder makes of `data`: the whole stream that it writes,
/// or `None` where it reports an error.
pub uninterp spec fn gzip_output(data: Seq<u8>) -> Option<Seq<u8>>;

/// Compresses `data` with `flate2::write::GzEncoder`: a new encoder over an
/// empty vector at the default level, `write_all` of `data`, then `finish`.
///
/// Nothing is proved of this function. Its contract claims one thing of the
/// encoder: that the outcome depends on `data` alone. The header that the
/// encoder writes holds no time and names no operating system, and the
/// deflate stream and the checksum after it are computed from `data`. An
/// error of either call is handed on as `None`.
#[verifier::external_body]
pub(crate) fn gzip(data: &[u8]) -> (r: Option<Vec<u8>>)
    ensures
        match r {
            Some(v) => gzip_output(data@) == Some(v@),
            None => gzip_output(data@) is None,
        },
{
    let mut encoder = GzEncoder::new(Vec::new(), Compression::default());
    match encoder.write_all(data) {
        Ok(()) => encoder.finish().ok(),
        Err(_) => None,
    }
}

} // verus!
