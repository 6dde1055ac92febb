use std::io::Write;

use whisper_stream::compression::{compression_ratio, ratio_of_stream, CompressionRatio};

fn zlib_len(text: &str) -> usize {
    let mut encoder = flate2::write::ZlibEncoder::new(Vec::new(), flate2::Compression::default());
    encoder.write_all(text.as_bytes()).unwrap();
    encoder.finish().unwrap().len()
}

#[test]
fn empty_text_has_ratio_one() {
    let ratio = compression_ratio("");
    assert_eq!(ratio, CompressionRatio { text_len: 1, compressed_len: 1 });
    assert!(!ratio.is_repetitive());
}

#[test]
fn text_is_measured_in_bytes() {
    let text = "Grüße aus Köln";
    let ratio = compression_ratio(text);
    assert_eq!(ratio.text_len, text.len());
    assert_eq!(ratio.compressed_len, zlib_len(text));
    assert_ne!(ratio.compressed_len, ratio.text_len);
}

#[test]
fn a_loop_is_repetitive() {
    let text = "thank you. ".repeat(40);
    let ratio = compression_ratio(&text);
    assert_eq!(ratio.text_len, 440);
    assert_eq!(ratio.compressed_len, zlib_len(&text));
    assert!(ratio.is_repetitive());
    assert!(!compression_ratio("And so my fellow Americans, ask not").is_repetitive());
}

#[test]
fn threshold_agrees_with_double_precision() {
    for text_len in 1..400usize {
        for compressed_len in 1..200usize {
            let ratio = CompressionRatio { text_len, compressed_len };
            let value = text_len as f64 / compressed_len as f64;
            assert_eq!(
                ratio.is_repetitive(),
                value > candle_transformers::models::whisper::COMPRESSION_RATIO_THRESHOLD,
                "{text_len}/{compressed_len}"
            );
        }
    }
    assert!(!CompressionRatio { text_len: 12, compressed_len: 5 }.is_repetitive());
}

#[test]
fn missing_or_empty_streams_count_as_one() {
    let one = CompressionRatio { text_len: 1, compressed_len: 1 };
    assert_eq!(ratio_of_stream(7, &None), one);
    assert_eq!(ratio_of_stream(7, &Some(vec![])), one);
    assert_eq!(ratio_of_stream(0, &Some(vec![1])), one);
    assert_eq!(
        ratio_of_stream(7, &Some(vec![1, 2, 3])),
        CompressionRatio { text_len: 7, compressed_len: 3 }
    );
}
