//! How well decoded text compresses.
//!
//! Text that repeats itself, the way Whisper does when its decoding degenerates,
//! compresses very well. A high ratio is a reason to decode again at a higher
//! temperature.
use std::io::Write;

use vstd::prelude::*;
use vstd::utf8::encode_utf8;

verus! {

/// The length of a text in bytes over that of its compressed form.
#[derive(Clone, Copy, Debug, PartialEq, Eq, Structural)]
pub struct CompressionRatio {
    pub text_len: usize,
    pub compressed_len: usize,
}

/// A [`CompressionRatio`] over numbers of any size.
pub struct RatioView {
    pub text_len: nat,
    pub compressed_len: nat,
}

impl View for CompressionRatio {
    type V = RatioView;

    open spec fn view(&self) -> RatioView {
        RatioView {
            text_len: self.text_len as nat,
            compressed_len: self.compressed_len as nat,
        }
    }
}

/// The ratio of text that is empty or that could not be compressed.
pub open spec fn unit_ratio() -> RatioView {
    RatioView { text_len: 1, compressed_len: 1 }
}

/// The zlib stream, at the default level, of the given bytes, or nothing where
/// the encoder fails.
pub uninterp spec fn zlib_stream(data: Seq<u8>) -> Option<Seq<u8>>;

/// `flate2::write::ZlibEncoder`, written to once and finished, over a `Vec` and
/// at the default level: its output is the zlib stream of the data.
#[verifier::external_body]
fn zlib_compress(data: &[u8]) -> (r: Option<Vec<u8>>)
    ensures
        match r {
            Some(stream) => zlib_stream(data@) == Some(stream@),
            None => zlib_stream(data@) == None::<Seq<u8>>,
        },
{
    let mut encoder = flate2::write::ZlibEncoder::new(Vec::new(), flate2::Compression::default());
    if encoder.write_all(data).is_err() {
        return None;
    }
    encoder.finish().ok()
}

/// The ratio for `text_len` bytes of text, given their zlib stream.
pub open spec fn ratio_of(text_len: nat, stream: Option<Seq<u8>>) -> RatioView {
    if text_len > 0 && stream is Some && stream->0.len() > 0 {
        RatioView { text_len, compressed_len: stream->0.len() }
    } else {
        unit_ratio()
    }
}

/// The compression ratio of a text.
pub open spec fn text_ratio(text: Seq<char>) -> RatioView {
    ratio_of(encode_utf8(text).len(), zlib_stream(encode_utf8(text)))
}

/// The ratio of `text_len` bytes of text to the zlib stream that was made of them.
pub fn ratio_of_stream(text_len: usize, stream: &Option<Vec<u8>>) -> (r: CompressionRatio)
    ensures
        r@ == ratio_of(
            text_len as nat,
            match stream {
                Some(bytes) => Some(bytes@),
                None => None,
            },
        ),
        text_len > 0 && stream is Some && stream->0@.len() > 0 ==> r.text_len == text_len
            && r.compressed_len as nat == stream->0@.len(),
{
    match stream {
        Some(bytes) => if text_len > 0 && bytes.len() > 0 {
            CompressionRatio { text_len, compressed_len: bytes.len() }
        } else {
            CompressionRatio { text_len: 1, compressed_len: 1 }
        },
        None => CompressionRatio { text_len: 1, compressed_len: 1 },
    }
}

/// The compression ratio of a text: the number of its bytes over that of its zlib
/// stream, and 1 for an empty text.
pub fn compression_ratio(text: &str) -> (r: CompressionRatio)
    ensures
        r@ == text_ratio(text@),
        encode_utf8(text@).len() > 0 && zlib_stream(encode_utf8(text@)) is Some && zlib_stream(
            encode_utf8(text@),
        )->0.len() > 0 ==> r.text_len as nat == encode_utf8(text@).len() && r.compressed_len as nat
            == zlib_stream(encode_utf8(text@))->0.len(),
{
    let bytes = text.as_bytes();
    if bytes.len() == 0 {
        return CompressionRatio { text_len: 1, compressed_len: 1 };
    }
    let stream = zlib_compress(bytes);
    ratio_of_stream(bytes.len(), &stream)
}

impl RatioView {
    /// The ratio is above 2.4, that is 12/5.
    pub open spec fn repetitive(self) -> bool {
        5 * self.text_len > 12 * self.compressed_len
    }
}

impl CompressionRatio {
    /// Whether the text compresses so well that it must be repeating itself: more
    /// than 2.4 bytes of text to a compressed byte.
    pub fn is_repetitive(&self) -> (r: bool)
        ensures
            r == self@.repetitive(),
            r <==> 5 * self.text_len > 12 * self.compressed_len,
    {
        5 * (self.text_len as u128) > 12 * (self.compressed_len as u128)
    }
}

} // verus!
