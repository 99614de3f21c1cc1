//! The carried-over reader tests: decoding to a string from UTF-8 and
//! Windows-1252 sources, small and large.

use textreader::charsets;
use textreader::MemSource;
use textreader::TextReader;

#[test]
fn test_stream_decoder_utf8() {
    let mut reader = TextReader::new(
        MemSource::new("québec".as_bytes().to_vec()),
        charsets::UTF_8,
    );

    let mut text = String::new();
    assert_eq!(reader.read_to_string(&mut text).ok(), Some(7));

    assert_eq!(text, "québec");
}

#[test]
fn test_stream_decoder_latin1() {
    let mut reader = TextReader::new(MemSource::new(b"qu\xC9bec".to_vec()), charsets::WINDOWS_1252);

    let mut text = String::new();
    assert_eq!(reader.read_to_string(&mut text).ok(), Some(7));

    assert_eq!(text, "quÉbec");
}

#[test]
fn test_string_reader_large_buffer_latin1() {
    let mut buf = vec![];
    for _ in 0..10_000 {
        buf.push(201);
    }
    let mut reader = TextReader::new(MemSource::new(buf), charsets::WINDOWS_1252);

    let mut text = String::new();
    reader.read_to_string(&mut text).unwrap();

    assert_eq!(text.len(), 20_000);

    for c in text.chars() {
        assert_eq!(c, 'É');
    }
}
