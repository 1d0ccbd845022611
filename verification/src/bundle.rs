use vstd::prelude::*;

use std::io::Read;
use std::io::Write;

verus! {

/// What a gzip stream decodes to, if it is valid: gzip decoding is a
/// function of the bytes alone, fixed by the format.
pub uninterp spec fn gunzip_of(b: Seq<u8>) -> Option<Seq<u8>>;

/// Relies on flate2's GzEncoder over a byte-vector sink: writes into a
/// `Vec` sink always make progress, a fresh deflate stream fed once and
/// finished does not error, and decoding the produced stream yields
/// exactly the input bytes.
#[verifier::external_body]
fn gzip_compress(data: &Vec<u8>) -> (r: Option<Vec<u8>>)
    ensures
        r is Some,
        r matches Some(v) ==> gunzip_of(v@) == Some(data@),
{
    let mut encoder = flate2::write::GzEncoder::new(Vec::new(), flate2::Compression::default());
    match encoder.write_all(data).and_then(|_| encoder.finish()) {
        Ok(v) => Some(v),
        Err(_) => None,
    }
}

/// Relies on flate2's GzDecoder: reading it decodes the gzip stream at the
/// start of the input, failing exactly on input it cannot decode.
#[verifier::external_body]
fn gzip_decompress(data: &Vec<u8>) -> (r: Option<Vec<u8>>)
    ensures
        r matches Some(v) ==> gunzip_of(data@) == Some(v@),
        r is None ==> gunzip_of(data@) is None,
{
    let mut decoder = flate2::read::GzDecoder::new(&data[..]);
    let mut out = Vec::new();
    match decoder.read_to_end(&mut out) {
        Ok(_) => Some(out),
        Err(_) => None,
    }
}

/// Compress a serialized record into an opaque export bundle. Decoding the
/// bundle restores the bytes exactly.
pub fn encode_bundle(data: &Vec<u8>) -> (r: Vec<u8>)
    ensures
        gunzip_of(r@) == Some(data@),
{
    gzip_compress(data).unwrap()
}

/// Decode an export bundle back into the serialized record it carries.
/// Returns the decoded bytes exactly when the bundle is a valid gzip
/// stream.
pub fn decode_bundle(data: &Vec<u8>) -> (r: Result<Vec<u8>, String>)
    ensures
        match r {
            Ok(v) => gunzip_of(data@) == Some(v@),
            Err(_) => gunzip_of(data@) is None,
        },
{
    match gzip_decompress(data) {
        Some(v) => Ok(v),
        None => Err("Failed to decompress data".to_owned()),
    }
}

} // verus!
