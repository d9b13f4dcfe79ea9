//! The transfer form of a device configuration: its text, compressed as
//! gzip and written as base64.

use flate2::read::GzDecoder;
use flate2::write::GzEncoder;
use flate2::Compression;
use std::io::Read;
use std::io::Write;
use vstd::prelude::*;

verus! {

/// The text that `base64::encode` gives for bytes.
pub uninterp spec fn base64_text(bytes: Seq<u8>) -> Seq<char>;

/// The bytes that `base64::decode` reads from a text; `None` where it
/// reports an error.
pub uninterp spec fn base64_bytes(text: Seq<char>) -> Option<Seq<u8>>;

/// The gzip stream that `flate2`'s `GzEncoder` gives for a text at the
/// default level; `None` where finishing the stream fails.
pub uninterp spec fn gzip_bytes(text: Seq<char>) -> Option<Seq<u8>>;

/// The text that `flate2`'s `GzDecoder` reads from a gzip stream; `None`
/// where reading fails or the content is not UTF-8.
pub uninterp spec fn gunzip_text(bytes: Seq<u8>) -> Option<Seq<char>>;

/// Calls `base64::encode`. The result is the named text of the bytes.
#[verifier::external_body]
fn encode_base64(bytes: &Vec<u8>) -> (r: String)
    ensures
        r@ == base64_text(bytes@),
{
    base64::encode(bytes)
}

/// Calls `base64::decode`. The result is the named reading of the text; an
/// error becomes `None`.
#[verifier::external_body]
fn decode_base64(text: &str) -> (r: Option<Vec<u8>>)
    ensures
        match r {
            Some(bytes) => base64_bytes(text@) == Some(bytes@),
            None => base64_bytes(text@).is_none(),
        },
{
    base64::decode(text).ok()
}

/// Writes the text through a `GzEncoder` at the default level and finishes
/// the stream. The result is the named gzip stream of the text; an error
/// on finishing becomes `None`.
#[verifier::external_body]
fn compress(text: &str) -> (r: Option<Vec<u8>>)
    ensures
        match r {
            Some(bytes) => gzip_bytes(text@) == Some(bytes@),
            None => gzip_bytes(text@).is_none(),
        },
{
    let mut encoder = GzEncoder::new(Vec::new(), Compression::default());
    write!(encoder, "{}", text).ok();
    encoder.finish().ok()
}

/// Reads the bytes through a `GzDecoder` into a string. The result is the
/// named text of the stream; an error becomes `None`.
#[verifier::external_body]
fn decompress(bytes: &Vec<u8>) -> (r: Option<String>)
    ensures
        match r {
            Some(text) => gunzip_text(bytes@) == Some(text@),
            None => gunzip_text(bytes@).is_none(),
        },
{
    let mut decoder = GzDecoder::new(&bytes[..]);
    let mut text = String::new();
    match decoder.read_to_string(&mut text) {
        Ok(_) => Some(text),
        Err(_) => None,
    }
}

/// The transfer form of a configuration text: base64 over gzip.
pub open spec fn exported(text: Seq<char>) -> Option<Seq<char>> {
    match gzip_bytes(text) {
        Some(bytes) => Some(base64_text(bytes)),
        None => None,
    }
}

/// The configuration text inside a transfer form; `None` where the form is
/// no base64, no gzip stream, or holds no UTF-8.
pub open spec fn imported(form: Seq<char>) -> Option<Seq<char>> {
    match base64_bytes(form) {
        Some(bytes) => gunzip_text(bytes),
        None => None,
    }
}

/// Packs a configuration text into its transfer form.
pub fn export_text(text: &str) -> (r: Option<String>)
    ensures
        match r {
            Some(form) => exported(text@) == Some(form@),
            None => exported(text@).is_none(),
        },
{
    match compress(text) {
        Some(bytes) => Some(encode_base64(&bytes)),
        None => None,
    }
}

/// Unpacks a transfer form into the configuration text it holds.
pub fn import_text(form: &str) -> (r: Option<String>)
    ensures
        match r {
            Some(text) => imported(form@) == Some(text@),
            None => imported(form@).is_none(),
        },
{
    match decode_base64(form) {
        Some(bytes) => decompress(&bytes),
        None => None,
    }
}

} // verus!
