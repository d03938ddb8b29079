//! Gzip compression of a response payload.

use flate2::write::GzEncoder;
use flate2::Compression;
use std::io::Write;
use vstd::prelude::*;

verus! {

/// Declares `std::io::Error`, the error that the encoder's `finish` may
/// return. Nothing is known of a value of it.
#[verifier::external_type_specification]
#[verifier::external_body]
pub struct ExIoError(std::io::Error);

/// The gzip stream that the encoder makes of `data` at the default
/// compression level, with the header it writes when none is configured.
pub uninterp spec fn gzip_encoding(data: Seq<u8>) -> Seq<u8>;

/// Compresses `data` into a gzip stream.
///
/// Trusted: this drives `flate2::write::GzEncoder` over a `Vec<u8>`:
/// `GzEncoder::new` with `Compression::default()`, one `write_all` of the
/// data, then `finish`. The contract only names the stream that `finish`
/// hands back; it does not promise that `finish` succeeds.
#[verifier::external_body]
pub(crate) fn gzip(data: &[u8]) -> (r: Result<Vec<u8>, std::io::Error>)
    ensures
        r matches Ok(stream) ==> stream@ == gzip_encoding(data@),
{
    let mut encoder = GzEncoder::new(Vec::new(), Compression::default());
    let _ = encoder.write_all(data);
    encoder.finish()
}

} // verus!
