//! A streaming byte-to-text transcoder: an incremental reader that consumes
//! bytes in a source character encoding and produces a stream of valid UTF-8
//! bytes, without materializing the full input in memory.

pub mod charsets;
pub mod decoder;
pub mod reader;
pub mod source;

pub use charsets::Charset;
pub use decoder::TextDecoder;
pub use reader::TextReader;
pub use source::ByteSource;
pub use source::FailingSource;
pub use source::MemSource;
pub use source::SourceError;
