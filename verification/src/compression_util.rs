//! Compression of bytes in memory.
use vstd::prelude::*;

verus! {

#[derive(Debug, Clone, Copy, PartialEq, Eq, Structural)]
pub enum CompressionType {
    Zstd,
}

/// Why bytes could not be compressed.
#[derive(Debug)]
pub enum CompressionError {
    Zstd(std::io::Error),
}

#[verifier::external_type_specification]
#[verifier::external_body]
pub struct ExIoError(std::io::Error);

/// The Zstandard frame that `zstd::bulk::compress` writes for the bytes at that level.
pub uninterp spec fn zstd_frame(bytes: Seq<u8>, level: i32) -> Seq<u8>;

/// Calls `zstd::bulk::compress`. Trusted: the frame that it writes, if it writes one,
/// depends on the bytes and the level alone. Whether it writes one also depends on the
/// memory at hand, so nothing is said of that.
#[verifier::external_body]
fn zstd_compress(bytes: &[u8], level: i32) -> (result: Result<Vec<u8>, std::io::Error>)
    ensures
        match result {
            Ok(frame) => frame@ == zstd_frame(bytes@, level),
            Err(_) => true,
        },
{
    zstd::bulk::compress(bytes, level)
}

/// The outcome of a Zstandard call as this library reports it.
pub fn zstd_outcome(result: Result<Vec<u8>, std::io::Error>) -> (outcome: Result<
    Vec<u8>,
    CompressionError,
>)
    ensures
        match result {
            Ok(frame) => outcome == Ok::<Vec<u8>, CompressionError>(frame),
            Err(error) => outcome == Err::<Vec<u8>, CompressionError>(
                CompressionError::Zstd(error),
            ),
        },
{
    match result {
        Ok(frame) => Ok(frame),
        Err(error) => Err(CompressionError::Zstd(error)),
    }
}

/// The bytes, compressed.
pub fn compress_bytes(compression_type: CompressionType, level: i32, bytes: &[u8]) -> (compressed:
    Result<Vec<u8>, CompressionError>)
    ensures
        match (compression_type, compressed) {
            (CompressionType::Zstd, Ok(frame)) => frame@ == zstd_frame(bytes@, level),
            (CompressionType::Zstd, Err(_)) => true,
        },
{
    match compression_type {
        CompressionType::Zstd => zstd_outcome(zstd_compress(bytes, level)),
    }
}

} // verus!
