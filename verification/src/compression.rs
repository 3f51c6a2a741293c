//! The install pipeline's decompression step: a verified archive is run
//! through a zstd decompression filter, and the resulting payload is what
//! gets written to the artifact's destination.

use vstd::prelude::*;

use crate::UpdateError;

verus! {

/// What zstd decompression yields on given archive bytes: `None` where the
/// bytes are not a well-formed zstd frame, otherwise the decompressed
/// payload.
pub uninterp spec fn zstd_inflate(archive: Seq<u8>) -> Option<Seq<u8>>;

/// Relies on `async_compression`'s zstd decoder: whether the bytes decode,
/// and to what, depends on the bytes alone.
#[verifier::external_body]
fn zstd_decompress(archive: &Vec<u8>) -> (r: Option<Vec<u8>>)
    ensures
        match r {
            Some(payload) => zstd_inflate(archive@) == Some(payload@),
            None => zstd_inflate(archive@) is None,
        },
{
    let mut payload = Vec::new();
    let mut decoder = async_compression::futures::bufread::ZstdDecoder::new(&archive[..]);
    match futures::executor::block_on(
        futures::io::AsyncReadExt::read_to_end(&mut decoder, &mut payload),
    ) {
        Ok(_) => Some(payload),
        Err(_) => None,
    }
}

/// Decompresses a downloaded, checksum-verified archive into the payload to
/// install: succeeds with the decompressed bytes exactly when the archive is
/// a well-formed zstd frame, and fails with a decompression error otherwise.
pub fn decompress(archive: &Vec<u8>) -> (r: Result<Vec<u8>, UpdateError>)
    ensures
        match r {
            Ok(payload) => zstd_inflate(archive@) == Some(payload@),
            Err(e) => zstd_inflate(archive@) is None && e matches UpdateError::Decompress,
        },
{
    match zstd_decompress(archive) {
        Some(payload) => Ok(payload),
        None => Err(UpdateError::Decompress),
    }
}

} // verus!
