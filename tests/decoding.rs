use std::io::Write;
use yukikaze::body::{collect_decoded, decode, BodyReadError, Recorder};
use yukikaze::content_encoding::ContentEncoding;

fn gzip(data: &[u8]) -> Vec<u8> {
    let mut e = flate2::write::GzEncoder::new(Vec::new(), flate2::Compression::default());
    e.write_all(data).expect("compress");
    e.finish().expect("finish")
}

fn zlib(data: &[u8]) -> Vec<u8> {
    let mut e = flate2::write::ZlibEncoder::new(Vec::new(), flate2::Compression::default());
    e.write_all(data).expect("compress");
    e.finish().expect("finish")
}

fn raw_deflate(data: &[u8]) -> Vec<u8> {
    let mut e = flate2::write::DeflateEncoder::new(Vec::new(), flate2::Compression::default());
    e.write_all(data).expect("compress");
    e.finish().expect("finish")
}

fn brotli(data: &[u8]) -> Vec<u8> {
    let mut e = compu::encoder::Interface::brotli_rust(compu::encoder::BrotliOptions::new());
    let mut out = Vec::new();
    e.encode_vec_full(data, &mut out, compu::encoder::EncodeOp::Finish).expect("compress");
    out
}

fn split(data: &[u8], n: usize) -> Vec<Vec<u8>> {
    data.chunks(n).map(|c| c.to_vec()).collect()
}

const TEXT: &[u8] = b"Beautiful and elegant Yukikaze is little HTTP library. Beautiful and elegant.";

#[test]
fn gzip_body_is_decoded() {
    let chunks = split(&gzip(TEXT), 7);
    let mut n = Recorder::new();
    let body = collect_decoded(&chunks, ContentEncoding::Gzip, None, &mut n).expect("To decode");
    assert_eq!(body, TEXT.to_vec());
    assert_eq!(n.counts(), &chunks.iter().map(|c| c.len()).collect::<Vec<_>>());
}

#[test]
fn deflate_body_is_decoded() {
    let chunks = split(&zlib(TEXT), 5);
    let body = collect_decoded(&chunks, ContentEncoding::Deflate, None, &mut Recorder::new()).expect("To decode");
    assert_eq!(body, TEXT.to_vec());
}

#[test]
fn brotli_body_is_decoded() {
    let chunks = split(&brotli(TEXT), 3);
    let body = collect_decoded(&chunks, ContentEncoding::Brotli, None, &mut Recorder::new()).expect("To decode");
    assert_eq!(body, TEXT.to_vec());
}

#[test]
fn raw_deflate_is_rejected() {
    let chunks = split(&raw_deflate(TEXT), 8);
    let r = collect_decoded(&chunks, ContentEncoding::Deflate, None, &mut Recorder::new());
    assert!(matches!(r, Err(BodyReadError::DecompressionError)));
}

#[test]
fn truncated_stream_is_incomplete() {
    let data = gzip(TEXT);
    let chunks = split(&data[..data.len() - 10], 6);
    let r = collect_decoded(&chunks, ContentEncoding::Gzip, None, &mut Recorder::new());
    assert!(matches!(r, Err(BodyReadError::IncompleteDecompression)));
    let empty: Vec<Vec<u8>> = Vec::new();
    let r = collect_decoded(&empty, ContentEncoding::Gzip, None, &mut Recorder::new());
    assert!(matches!(r, Err(BodyReadError::IncompleteDecompression)));
}

#[test]
fn decoded_length_is_limited() {
    let big = vec![b'a'; 10000];
    let chunks = split(&gzip(&big), 4);
    let mut n = Recorder::new();
    match collect_decoded(&chunks, ContentEncoding::Gzip, Some(100), &mut n) {
        Err(BodyReadError::Overflow(p)) => {
            assert!(p.len() > 100);
            assert!(p.iter().all(|b| *b == b'a'));
        },
        _ => panic!("Expected overflow"),
    }
    assert!(n.counts().len() < chunks.len());
}

#[test]
fn identity_through_decoder_path() {
    let chunks = vec![b"ab".to_vec(), b"cd".to_vec()];
    assert_eq!(collect_decoded(&chunks, ContentEncoding::Identity, Some(4), &mut Recorder::new()).expect("fits"), b"abcd".to_vec());
    match collect_decoded(&chunks, ContentEncoding::Identity, Some(3), &mut Recorder::new()) {
        Err(BodyReadError::Overflow(p)) => assert_eq!(p, b"abcd".to_vec()),
        _ => panic!("Expected overflow"),
    }
    assert_eq!(decode(ContentEncoding::Gzip, &gzip(b"xyz")), Some((b"xyz".to_vec(), true)));
    assert!(decode(ContentEncoding::Gzip, b"not gzip at all").is_none());
}
