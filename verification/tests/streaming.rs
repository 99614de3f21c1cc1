//! Streaming behaviour of the transcoding reader: charset correctness,
//! chunking and output-capacity invariance, replacement of malformed input,
//! the re-entered final flush, idempotent end-of-stream, and source failure.

use textreader::charsets;
use textreader::ByteSource;
use textreader::FailingSource;
use textreader::MemSource;
use textreader::SourceError;
use textreader::TextDecoder;
use textreader::TextReader;

/// Drain a reader by repeated reads of at most `cap` bytes (at least five,
/// the decoder's minimum working space), concatenating everything produced.
/// A zero-length result then means end-of-stream has been reached.
fn drain<R: ByteSource>(reader: &mut TextReader<R>, cap: usize) -> Vec<u8> {
    let mut all: Vec<u8> = Vec::new();
    loop {
        let chunk = reader.read(cap).unwrap();
        if chunk.is_empty() {
            return all;
        }
        all.extend_from_slice(&chunk);
    }
}

#[test]
fn windows_1252_byte_becomes_two_utf8_bytes() {
    let mut reader = TextReader::new(MemSource::new(vec![0xC9]), charsets::WINDOWS_1252);
    let mut out: Vec<u8> = Vec::new();
    assert_eq!(reader.read_to_end(&mut out).ok(), Some(2));
    assert_eq!(out, vec![0xC3, 0x89]);
    assert_eq!(String::from_utf8(out).unwrap(), "É");
}

#[test]
fn utf8_round_trip_reproduces_input_bytes() {
    let input = "par été — güter: 囲碁 𐍈".as_bytes().to_vec();
    let mut reader = TextReader::new(MemSource::new(input.clone()), charsets::UTF_8);
    let mut out: Vec<u8> = Vec::new();
    reader.read_to_end(&mut out).unwrap();
    assert_eq!(out, input);
}

#[test]
fn chunked_fills_and_small_buffers_give_identical_output() {
    let input = "aé€あ𐍈z".as_bytes().to_vec();
    let mut reference = TextReader::new(MemSource::new(input.clone()), charsets::UTF_8);
    let mut expected: Vec<u8> = Vec::new();
    reference.read_to_end(&mut expected).unwrap();

    for chunk in 1..6 {
        for cap in 5..9 {
            let mut reader = TextReader::new(
                MemSource::with_chunk_size(input.clone(), chunk),
                charsets::UTF_8,
            );
            let got = drain(&mut reader, cap);
            assert_eq!(got, expected);
        }
    }
}

#[test]
fn chunked_latin1_matches_unchunked() {
    let input = b"qu\xC9bec".to_vec();
    for chunk in 1..4 {
        let mut reader = TextReader::new(
            MemSource::with_chunk_size(input.clone(), chunk),
            charsets::WINDOWS_1252,
        );
        let got = drain(&mut reader, 5);
        assert_eq!(String::from_utf8(got).unwrap(), "quÉbec");
    }
}

#[test]
fn malformed_utf8_is_replaced_not_rejected() {
    let mut reader = TextReader::new(MemSource::new(vec![0xFF, b'a']), charsets::UTF_8);
    let mut text = String::new();
    reader.read_to_string(&mut text).unwrap();
    assert_eq!(text, "\u{FFFD}a");
}

#[test]
fn truncated_sequence_is_flushed_as_replacement() {
    let mut reader = TextReader::new(MemSource::new(vec![b'a', 0xC3]), charsets::UTF_8);
    let mut text = String::new();
    reader.read_to_string(&mut text).unwrap();
    assert_eq!(text, "a\u{FFFD}");
}

#[test]
fn final_flush_respects_backpressure_and_is_reissued() {
    let mut reader = TextReader::new(MemSource::new(vec![b'a', 0xC3]), charsets::UTF_8);
    let first = reader.read(5).unwrap();
    assert_eq!(first, vec![b'a']);
    let stalled = reader.read(4).unwrap();
    assert_eq!(stalled, Vec::<u8>::new());
    let flushed = reader.read(5).unwrap();
    assert_eq!(flushed, vec![0xEF, 0xBF, 0xBD]);
    assert_eq!(reader.read(16).unwrap(), Vec::<u8>::new());
}

#[test]
fn eof_is_idempotent() {
    let mut reader = TextReader::new(MemSource::new(b"hi".to_vec()), charsets::UTF_8);
    let got = drain(&mut reader, 16);
    assert_eq!(got, b"hi".to_vec());
    assert_eq!(reader.read(16).unwrap(), Vec::<u8>::new());
    assert_eq!(reader.read(16).unwrap(), Vec::<u8>::new());
    let mut text = String::new();
    assert_eq!(reader.read_to_string(&mut text).ok(), Some(0));
    assert_eq!(text, "");
}

#[test]
fn large_input_survives_every_drain_capacity() {
    let mut input: Vec<u8> = Vec::new();
    for _ in 0..10_000 {
        input.push(0xC9);
    }
    for cap in [5, 6, 7, 4096] {
        let mut reader = TextReader::new(MemSource::new(input.clone()), charsets::WINDOWS_1252);
        let got = drain(&mut reader, cap);
        assert_eq!(got.len(), 20_000);
        for pair in got.chunks(2) {
            assert_eq!(pair, [0xC3, 0x89]);
        }
    }
}

#[test]
fn source_failure_is_propagated() {
    let mut reader = TextReader::new(FailingSource, charsets::UTF_8);
    assert_eq!(reader.read(16), Err(SourceError));
    let mut text = String::new();
    assert_eq!(reader.read_to_string(&mut text), Err(SourceError));
    assert_eq!(text, "");
}

#[test]
fn empty_input_decodes_to_nothing() {
    let mut reader = TextReader::new(MemSource::new(Vec::new()), charsets::UTF_8);
    let mut text = String::new();
    assert_eq!(reader.read_to_string(&mut text).ok(), Some(0));
    assert_eq!(text, "");
}

#[test]
fn split_byte_order_mark_prefix_is_flushed_safely() {
    let mut reader = TextReader::new(
        MemSource::with_chunk_size(vec![0xEF, 0xBB], 1),
        charsets::WINDOWS_1252,
    );
    let got = drain(&mut reader, 5);
    assert_eq!(got, "ï»".as_bytes().to_vec());

    let mut reader = TextReader::new(
        MemSource::with_chunk_size(vec![0xEF, 0xBB], 1),
        charsets::UTF_8,
    );
    let mut text = String::new();
    reader.read_to_string(&mut text).unwrap();
    assert_eq!(text, "\u{FFFD}");
}

#[test]
fn leading_byte_order_mark_is_sniffed_away() {
    let mut reader = TextReader::new(
        MemSource::new(vec![0xEF, 0xBB, 0xBF, b'o', b'k']),
        charsets::UTF_8,
    );
    let mut out: Vec<u8> = Vec::new();
    reader.read_to_end(&mut out).unwrap();
    assert_eq!(out, b"ok".to_vec());
}

#[test]
fn push_style_transcoder_streams_chunk_by_chunk() {
    let input = b"qu\xC9bec".to_vec();
    let mut decoder = TextDecoder::new(charsets::WINDOWS_1252);
    let mut all: Vec<u8> = Vec::new();
    for piece in input.chunks(2) {
        let (done, nread, out) = decoder.feed(piece, 3 * piece.len() + 32, false);
        assert!(done);
        assert_eq!(nread, piece.len());
        all.extend_from_slice(&out);
    }
    let (done, nread, out) = decoder.feed(&[], 32, true);
    assert!(done);
    assert_eq!(nread, 0);
    all.extend_from_slice(&out);
    assert_eq!(String::from_utf8(all).unwrap(), "quÉbec");
}
