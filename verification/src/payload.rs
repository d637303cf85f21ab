//! The payload encoder: serialized bodies above a size threshold are
//! compressed before transmission.
//!
//! The threshold comparison is strictly "greater than": a body of exactly the
//! threshold length is sent unmodified. A compression failure would surface
//! as a distinct error, never as a silent downgrade to an uncompressed body;
//! with the in-memory compressor used here it cannot occur, and the encoder
//! promises success on every input.

use vstd::prelude::*;

use crate::error::CustomError;

verus! {

/// The byte-length cutoff above which outgoing bodies are compressed.
pub const GZIP_THRESHOLD: usize = 1024;

/// What `gzip_bytes` returns for the given input: the gzip stream produced by
/// the compressor, a function of the input bytes alone.
pub uninterp spec fn gzip_of(bytes: Seq<u8>) -> Seq<u8>;

/// Relies on `flate2::write::GzEncoder` at the default compression level,
/// writing into a `Vec` sink: it compresses the bytes into a gzip stream
/// whose content depends on the input alone (the header it writes carries no
/// time stamp and a fixed operating-system byte), and it succeeds on every
/// input (the encoder surfaces only its inner writer's errors, writing to a
/// `Vec` is infallible, and the crate's own compressor arms return only its
/// ok, stream-end and buffer statuses for this level and flush sequence).
#[verifier::external_body]
fn gzip_bytes(src: &[u8]) -> (r: Result<Vec<u8>, String>)
    ensures
        r is Ok,
        r matches Ok(v) ==> v@ == gzip_of(src@),
{
    let mut enc = flate2::write::GzEncoder::new(Vec::new(), flate2::Compression::default());
    if let Err(e) = std::io::Write::write_all(&mut enc, src) {
        return Err(e.to_string());
    }
    enc.finish().map_err(|e| e.to_string())
}

/// An encoded request body: the bytes to send, and whether they were
/// compressed (in which case the transport must mark the content encoding).
pub struct EncodedPayload {
    pub bytes: Vec<u8>,
    pub gzipped: bool,
}

/// Encodes a serialized body for transmission. A body of at most
/// [`GZIP_THRESHOLD`] bytes passes through unmodified; a longer body is
/// compressed and marked. A compression failure would surface as `GzipErr`,
/// but compression into an in-memory buffer always succeeds, so the call is
/// promised to return the encoded payload.
pub fn encode_payload(body: Vec<u8>) -> (r: Result<EncodedPayload, CustomError>)
    ensures
        body@.len() <= GZIP_THRESHOLD ==> (r matches Ok(p) && p.bytes@ == body@ && !p.gzipped),
        body@.len() > GZIP_THRESHOLD ==> (r matches Ok(p) && p.gzipped && p.bytes@ == gzip_of(
            body@,
        )),
{
    if body.len() <= GZIP_THRESHOLD {
        Ok(EncodedPayload { bytes: body, gzipped: false })
    } else {
        match gzip_bytes(body.as_slice()) {
            Ok(compressed) => Ok(EncodedPayload { bytes: compressed, gzipped: true }),
            Err(e) => Err(CustomError::GzipErr(e)),
        }
    }
}

} // verus!
