//! The stream codec: lossless compression of artifacts at maximum ratio.
//!
//! The codec itself is an outside crate; the library names what it produces
//! ([`gzip_of`]) and what decoding yields ([`gunzip_of`]), and states the
//! documented round trip: decoding an encoded buffer gives the buffer back.

use vstd::prelude::*;
use std::io::{Read, Write};

verus! {

/// The byte stream the codec produces for `data` at maximum compression.
/// The codec writes reproducible streams, so the result depends on the
/// input bytes alone.
pub uninterp spec fn gzip_of(data: Seq<u8>) -> Seq<u8>;

/// What decoding yields for `data`: the decoded bytes when `data` is a
/// well-formed encoded stream, and nothing otherwise.  Deterministic in the
/// input bytes alone.
pub uninterp spec fn gunzip_of(data: Seq<u8>) -> Option<Seq<u8>>;

/// Relies on flate2's write::GzEncoder at Compression::best, which emits a
/// reproducible stream (fixed header, no timestamp), and on the documented
/// losslessness of the format: what was encoded decodes back.  Writing into
/// an in-memory buffer cannot fail, so the encoder's finish returns Ok.
#[verifier::external_body]
fn gzip_encode(data: &[u8]) -> (r: Vec<u8>)
    ensures
        r@ == gzip_of(data@),
        gunzip_of(r@) == Some(data@),
{
    let mut encoder = flate2::write::GzEncoder::new(Vec::new(), flate2::Compression::best());
    encoder.write_all(data).expect("writing into a Vec cannot fail");
    encoder.finish().expect("writing into a Vec cannot fail")
}

/// Relies on flate2's read::GzDecoder: reading to the end yields the decoded
/// bytes of a well-formed stream and an error otherwise, deterministically.
#[verifier::external_body]
fn gzip_decode(data: &[u8]) -> (r: Result<Vec<u8>, String>)
    ensures
        r is Ok <==> gunzip_of(data@) is Some,
        r matches Ok(out) ==> Some(out@) == gunzip_of(data@),
{
    let mut decoder = flate2::read::GzDecoder::new(data);
    let mut out = Vec::new();
    match decoder.read_to_end(&mut out) {
        Ok(_) => Ok(out),
        Err(e) => Err(format!("{}", e)),
    }
}

/// Compress a buffer at maximum ratio.
///
/// The second clause is the codec round trip: for every buffer, decoding
/// the compressed artifact gives the original bytes back.
pub fn compress_bytes(data: &Vec<u8>) -> (r: Vec<u8>)
    ensures
        r@ == gzip_of(data@),
        gunzip_of(r@) == Some(data@),
{
    gzip_encode(data.as_slice())
}

/// Decompress an encoded artifact; fails exactly on byte streams that are
/// not well-formed encodings, with the codec's message.
pub fn decompress_bytes(data: &Vec<u8>) -> (r: Result<Vec<u8>, String>)
    ensures
        r is Ok <==> gunzip_of(data@) is Some,
        r matches Ok(out) ==> Some(out@) == gunzip_of(data@),
{
    gzip_decode(data.as_slice())
}

} // verus!
