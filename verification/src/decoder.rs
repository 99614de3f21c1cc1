//! A stateful, resumable charset-to-UTF-8 decoder. The conversion itself is
//! done by the `encoding_rs` crate; this module states, as trusted contracts,
//! what that crate's streaming decoder does, and tracks in ghost state the
//! bytes fed to it and the bytes it has produced.

use vstd::prelude::*;
use vstd::utf8::valid_utf8;

use crate::charsets::Charset;

verus! {

#[verifier::external_type_specification]
#[verifier::external_body]
pub struct ExDecoder(encoding_rs::Decoder);

/// The complete UTF-8 output that decoding `input` from `charset` yields, with
/// malformed sequences replaced by U+FFFD. The mapping depends on the charset
/// and the input bytes alone; its value is fixed only by what the trusted
/// contracts below state of it.
pub uninterp spec fn decoded_of(charset: Charset, input: Seq<u8>) -> Seq<u8>;

/// True when the bytes begin with the UTF-8 byte-order mark. The decoder that
/// `encoding_rs` constructs sniffs and removes a leading byte-order mark, so a
/// stream that starts with one does not decode to itself even when it is valid
/// UTF-8.
pub open spec fn starts_with_utf8_bom(s: Seq<u8>) -> bool {
    s.len() >= 3 && s[0] == 0xefu8 && s[1] == 0xbbu8 && s[2] == 0xbfu8
}

/// Relies on `encoding_rs::Encoding::new_decoder` (through the statics
/// `UTF_8` and `WINDOWS_1252`): it returns a decoder for the chosen encoding
/// in its initial state, with no input consumed and no buffered output.
#[verifier::external_body]
fn new_raw_decoder(charset: Charset) -> encoding_rs::Decoder {
    match charset {
        Charset::Utf8 => encoding_rs::UTF_8.new_decoder(),
        Charset::Windows1252 => encoding_rs::WINDOWS_1252.new_decoder(),
    }
}

/// A streaming decoder for one charset. It holds partial multi-byte sequence
/// state across calls; `fed` and `emitted` record the whole history of input
/// bytes it consumed and output bytes it produced, and `finished` records that
/// the final call for the stream has completed, after which it must not be
/// used again.
pub(crate) struct StreamDecoder {
    inner: encoding_rs::Decoder,
    charset: Charset,
    fed: Ghost<Seq<u8>>,
    emitted: Ghost<Seq<u8>>,
    finished: Ghost<bool>,
}

impl StreamDecoder {
    /// The charset this decoder converts from.
    pub(crate) closed spec fn charset(&self) -> Charset {
        self.charset
    }

    /// All input bytes this decoder has consumed so far.
    pub(crate) closed spec fn fed(&self) -> Seq<u8> {
        self.fed@
    }

    /// All UTF-8 output bytes this decoder has produced so far.
    pub(crate) closed spec fn emitted(&self) -> Seq<u8> {
        self.emitted@
    }

    /// Whether the final call for this stream has completed.
    pub(crate) closed spec fn finished(&self) -> bool {
        self.finished@
    }

    /// A fresh streaming decoder for the given charset: nothing fed, nothing
    /// produced, final call not yet made. The raw decoder underneath is newly
    /// constructed, so the ghost history starting empty matches its state.
    pub(crate) fn new(charset: Charset) -> (d: StreamDecoder)
        ensures
            d.charset() == charset,
            d.fed() == Seq::<u8>::empty(),
            d.emitted() == Seq::<u8>::empty(),
            !d.finished(),
    {
        StreamDecoder {
            inner: new_raw_decoder(charset),
            charset,
            fed: Ghost(Seq::empty()),
            emitted: Ghost(Seq::empty()),
            finished: Ghost(false),
        }
    }

    /// One decode step. Feeds `src` to the decoder and returns
    /// `(input_exhausted, bytes_read, output)`, where `output` holds at most
    /// `out_cap` bytes; `last` marks the final call for the stream. The
    /// capacity must be at least five bytes: the crate documents four as the
    /// minimum output space for decoding to UTF-8, but its byte-order-mark
    /// sniffing can buffer the bytes EF BB across calls and later flush them
    /// through the Windows-1252 mapping as two two-byte characters, and its
    /// conservative space check (more than two bytes beyond the write
    /// position for each character) then panics on a four-byte buffer; five
    /// bytes satisfy that check for every reachable flush of the encodings
    /// `new` constructs, and smaller capacities are excluded here.
    ///
    /// Relies on `encoding_rs::Decoder::decode_to_utf8`, whose documentation
    /// and source promise: it reads some prefix of `src` and writes UTF-8
    /// output that always consists of complete characters; `InputEmpty` means
    /// all of `src` was consumed; malformed input is replaced with U+FFFD,
    /// never an error; once the final call returns `InputEmpty` the decoder
    /// must not be used again (it panics); an output buffer of
    /// `max_utf8_buffer_length` bytes — at most three bytes per input byte
    /// plus a small constant for buffered state, for the encodings `new`
    /// constructs — never reports `OutputFull`; `OutputFull` is reported only
    /// once fewer than four bytes of output space remain unused, four bytes
    /// being the documented minimum output space for decoding to UTF-8 and
    /// the largest UTF-8 encoding of one character; the total output over a
    /// stream is a function of the charset and the concatenated input alone
    /// (`decoded_of`), and the UTF-8 decoder passes a valid UTF-8 stream
    /// through unchanged once a leading byte-order mark is ruled out.
    #[verifier::external_body]
    pub(crate) fn decode_step(&mut self, src: &[u8], out_cap: usize, last: bool) -> (r: (
        bool,
        usize,
        Vec<u8>,
    ))
        requires
            !old(self).finished(),
            out_cap >= 5,
        ensures
            final(self).charset() == old(self).charset(),
            r.1 <= src@.len(),
            r.2@.len() <= out_cap,
            final(self).fed() == old(self).fed() + src@.take(r.1 as int),
            final(self).emitted() == old(self).emitted() + r.2@,
            valid_utf8(r.2@),
            r.0 ==> r.1 == src@.len(),
            final(self).finished() == (last && r.0),
            (last && r.0) ==> final(self).emitted() == decoded_of(
                old(self).charset(),
                final(self).fed(),
            ),
            (old(self).charset() == Charset::Utf8 && valid_utf8(final(self).fed())
                && !starts_with_utf8_bom(final(self).fed())) ==> decoded_of(
                Charset::Utf8,
                final(self).fed(),
            ) == final(self).fed(),
            out_cap >= 3 * src@.len() + 32 ==> r.0,
            !r.0 ==> out_cap < r.2@.len() + 4,
    {
        let mut dst = vec![0u8; out_cap];
        let (res, read, written, _) = self.inner.decode_to_utf8(src, &mut dst, last);
        dst.truncate(written);
        (matches!(res, encoding_rs::CoderResult::InputEmpty), read, dst)
    }
}

/// A push-style transcoder for callers that own their I/O loop: hand in one
/// source chunk at a time, with a flag marking the final chunk, and take the
/// produced UTF-8 bytes back. It carries the same decoder and the same
/// contracts as the pull-based reader, so unverified surroundings can stream
/// from a real byte source without materializing the input, while the
/// decoding semantics stay pinned to `decoded_of`.
pub struct TextDecoder {
    inner: StreamDecoder,
    done: bool,
}

impl TextDecoder {
    /// The charset this transcoder decodes from.
    pub closed spec fn charset(&self) -> Charset {
        self.inner.charset()
    }

    /// All input bytes fed so far.
    pub closed spec fn fed(&self) -> Seq<u8> {
        self.inner.fed()
    }

    /// All UTF-8 bytes produced so far.
    pub closed spec fn emitted(&self) -> Seq<u8> {
        self.inner.emitted()
    }

    /// Whether the final chunk has been fully decoded; after that the
    /// transcoder must not be fed again.
    pub closed spec fn finished(&self) -> bool {
        self.done
    }

    /// Well-formedness: established by `new` and preserved by `feed`.
    pub closed spec fn wf(&self) -> bool {
        self.done == self.inner.finished()
    }

    /// A fresh transcoder for the given charset.
    pub fn new(charset: Charset) -> (d: TextDecoder)
        ensures
            d.wf(),
            d.charset() == charset,
            d.fed() == Seq::<u8>::empty(),
            d.emitted() == Seq::<u8>::empty(),
            !d.finished(),
    {
        TextDecoder { inner: StreamDecoder::new(charset), done: false }
    }

    /// Feed one chunk and take back `(input_exhausted, bytes_read, output)`:
    /// some prefix of `chunk` is consumed, at most `out_cap` bytes of UTF-8
    /// come out, and `last` marks the stream's end. A capacity of
    /// `3 * chunk.len() + 32` always exhausts the chunk, so a caller's loop
    /// needs one `feed` per chunk and one final `feed` of an empty chunk;
    /// with a smaller capacity, re-feed the unconsumed rest (and re-issue the
    /// final call) until `input_exhausted` comes back. Once the final feed
    /// reports the input exhausted, everything produced is exactly the
    /// decoding of the concatenated input, and the transcoder is finished.
    pub fn feed(&mut self, chunk: &[u8], out_cap: usize, last: bool) -> (r: (bool, usize, Vec<u8>))
        requires
            old(self).wf(),
            !old(self).finished(),
            out_cap >= 5,
        ensures
            final(self).wf(),
            final(self).charset() == old(self).charset(),
            r.1 <= chunk@.len(),
            r.2@.len() <= out_cap,
            final(self).fed() == old(self).fed() + chunk@.take(r.1 as int),
            final(self).emitted() == old(self).emitted() + r.2@,
            valid_utf8(r.2@),
            r.0 ==> r.1 == chunk@.len(),
            final(self).finished() == (last && r.0),
            (last && r.0) ==> final(self).emitted() == decoded_of(
                old(self).charset(),
                final(self).fed(),
            ),
            (old(self).charset() == Charset::Utf8 && valid_utf8(final(self).fed())
                && !starts_with_utf8_bom(final(self).fed())) ==> decoded_of(
                Charset::Utf8,
                final(self).fed(),
            ) == final(self).fed(),
            out_cap >= 3 * chunk@.len() + 32 ==> r.0,
            !r.0 ==> out_cap < r.2@.len() + 4,
    {
        let (done, nread, out) = self.inner.decode_step(chunk, out_cap, last);
        if last && done {
            self.done = true;
        }
        (done, nread, out)
    }
}

} // verus!
