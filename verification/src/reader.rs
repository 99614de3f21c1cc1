//! The transcoding reader: wraps a byte source and a streaming decoder and
//! converts a stream of bytes in a source charset into a stream of valid
//! UTF-8 bytes, pulling source chunks on demand and honouring backpressure
//! from the caller's output capacity.

use vstd::prelude::*;
use vstd::utf8::decode_utf8;
use vstd::utf8::valid_utf8;
use vstd::utf8::valid_utf8_concat;
use vstd::string::StringExecFns;

use crate::charsets::Charset;
use crate::decoder::StreamDecoder;
use crate::decoder::decoded_of;
use crate::decoder::starts_with_utf8_bom;
use crate::source::ByteSource;
use crate::source::SourceError;

verus! {

/// Relies on `String::from_utf8`: on bytes that are valid UTF-8 it returns
/// `Ok` with the string of exactly the characters those bytes encode.
#[verifier::external_body]
fn utf8_bytes_to_string(v: Vec<u8>) -> (r: String)
    requires
        valid_utf8(v@),
    ensures
        r@ == decode_utf8(v@),
{
    String::from_utf8(v).unwrap_or_default()
}

/// Boundary and chunking invariance: a reader that reaches end-of-stream has
/// produced exactly `decoded_of` of its charset and whole input stream (the
/// ensures of `read` and `read_to_end`), and that value depends on the
/// charset and the input bytes alone. So two complete runs over the same
/// input agree byte for byte, no matter how their sources chunked the bytes
/// across fills and what output capacities their reads gave; only the count
/// and boundaries of intermediate reads may differ, never the concatenated
/// result.
pub proof fn lemma_chunking_invariance(cs: Charset, input: Seq<u8>, out1: Seq<u8>, out2: Seq<u8>)
    requires
        out1 == decoded_of(cs, input),
        out2 == decoded_of(cs, input),
    ensures
        out1 == out2,
{
}

/// `TextReader` converts bytes in a specific charset to bytes in UTF-8.
///
/// It wraps a byte source and owns a stateful decoder; repeated `read` calls
/// pull chunks from the source, feed them to the decoder, and hand back the
/// produced UTF-8 bytes, until a read at end-of-stream returns nothing. The
/// `read_to_string` method drains the whole stream into a `String`.
pub struct TextReader<R: ByteSource> {
    inner: R,
    decoder: StreamDecoder,
    eof: bool,
}

impl<R: ByteSource> TextReader<R> {
    /// The charset this reader decodes from.
    pub closed spec fn charset(&self) -> Charset {
        self.decoder.charset()
    }

    /// The source bytes already handed to the decoder.
    pub closed spec fn fed(&self) -> Seq<u8> {
        self.decoder.fed()
    }

    /// The source bytes not yet handed to the decoder.
    pub closed spec fn unread(&self) -> Seq<u8> {
        self.inner.pending()
    }

    /// The whole input stream this reader decodes: what was already fed to
    /// the decoder followed by what still waits in the source. A read moves
    /// bytes from the second part to the first and leaves the whole unchanged.
    pub open spec fn stream(&self) -> Seq<u8> {
        self.fed() + self.unread()
    }

    /// All UTF-8 bytes this reader has produced so far.
    pub closed spec fn emitted(&self) -> Seq<u8> {
        self.decoder.emitted()
    }

    /// Whether end-of-stream has been reached: once true, every further read
    /// returns nothing and the decoder is never invoked again.
    pub closed spec fn at_eof(&self) -> bool {
        self.eof
    }

    /// Well-formedness: established by `new` and preserved by every method.
    /// The end-of-stream flag agrees with the decoder having made its final
    /// call, and at end-of-stream the source is drained.
    pub closed spec fn wf(&self) -> bool {
        self.eof == self.decoder.finished() && (self.eof ==> self.inner.pending().len() == 0)
    }

    /// Create a new `TextReader` over `inner` with the given charset.
    pub fn new(inner: R, charset: Charset) -> (r: TextReader<R>)
        ensures
            r.wf(),
            r.charset() == charset,
            r.fed() == Seq::<u8>::empty(),
            r.unread() == inner.pending(),
            r.stream() == inner.pending(),
            r.emitted() == Seq::<u8>::empty(),
            !r.at_eof(),
    {
        let r = TextReader { inner, decoder: StreamDecoder::new(charset), eof: false };
        proof {
            assert(r.stream() =~= r.unread());
        }
        r
    }

    /// One pull-based read: decode and return at most `out_cap` UTF-8 bytes.
    ///
    /// The returned bytes extend the reader's output stream; the input stream
    /// is never changed, only moved from the source into the decoder, and no
    /// source byte the decoder did not use is consumed. After end-of-stream
    /// has been signalled the call returns nothing and touches neither the
    /// source nor the decoder. The only error is the source's own failure;
    /// malformed input is replaced, never rejected. When this call is the one
    /// that reaches end-of-stream, everything produced over the reader's life
    /// is exactly the decoding of the whole input stream — whatever chunking
    /// the source chose and whatever capacities earlier calls gave; and a
    /// valid UTF-8 stream without a leading byte-order mark, decoded as
    /// UTF-8, is reproduced byte for byte. Five bytes is the decoder's
    /// minimum working space: once fewer than five bytes of capacity remain,
    /// the call stops and returns what it has — so a capacity under five
    /// yields nothing and changes nothing — while a call that returns with
    /// at least five bytes of its capacity unused has consumed source bytes
    /// or reached end-of-stream, and a zero-length result from a capacity of
    /// at least five signals permanent end-of-stream.
    pub fn read(&mut self, out_cap: usize) -> (r: Result<Vec<u8>, SourceError>)
        requires
            old(self).wf(),
        ensures
            final(self).wf(),
            final(self).charset() == old(self).charset(),
            final(self).stream() == old(self).stream(),
            (r matches Ok(out) ==> out@.len() <= out_cap),
            (r matches Ok(out) ==> valid_utf8(out@)),
            (r matches Ok(out) ==> final(self).emitted() == old(self).emitted() + out@),
            (r matches Ok(out) ==> (old(self).at_eof() ==> *final(self) == *old(self) && out@.len()
                == 0)),
            old(self).at_eof() ==> final(self).at_eof(),
            (!old(self).at_eof() && final(self).at_eof() ==> final(self).emitted() == decoded_of(
                old(self).charset(),
                old(self).stream(),
            ) && final(self).unread().len() == 0),
            (!old(self).at_eof() && final(self).at_eof() && old(self).charset() == Charset::Utf8
                && valid_utf8(old(self).stream()) && !starts_with_utf8_bom(old(self).stream())
                ==> final(self).emitted() == old(self).stream()),
            (r matches Ok(out) ==> (!old(self).at_eof() && out@.len() + 5 <= out_cap
                ==> (final(self).at_eof()
                || final(self).unread().len() < old(self).unread().len()))),
            (r matches Ok(out) ==> (out_cap >= 5 && out@.len() == 0 ==> final(self).at_eof())),
            (!old(self).at_eof() && out_cap < 5 ==> (r matches Ok(out) && out@.len() == 0
                && *final(self) == *old(self))),
            r is Err ==> !final(self).at_eof(),
            r is Err ==> old(self).emitted().is_prefix_of(final(self).emitted()),
    {
        if self.eof {
            return Ok(Vec::new());
        }
        if out_cap < 5 {
            return Ok(Vec::new());
        }
        let ghost cs: Charset = self.charset();
        let ghost init_stream: Seq<u8> = self.stream();
        let ghost init_emitted: Seq<u8> = self.emitted();
        let mut total: Vec<u8> = Vec::new();
        loop
            invariant_except_break
                cs == old(self).charset(),
                init_stream == old(self).stream(),
                init_emitted == old(self).emitted(),
                !old(self).at_eof(),
                self.wf(),
                !self.eof,
                self.charset() == cs,
                self.stream() == init_stream,
                self.emitted() == init_emitted + total@,
                total@.len() <= out_cap,
                valid_utf8(total@),
                self.unread().len() <= old(self).unread().len(),
                self.unread().len() == old(self).unread().len() ==> total@.len() == 0,
                out_cap >= 5,
            ensures
                cs == old(self).charset(),
                init_stream == old(self).stream(),
                init_emitted == old(self).emitted(),
                !old(self).at_eof(),
                self.wf(),
                self.charset() == cs,
                self.stream() == init_stream,
                self.emitted() == init_emitted + total@,
                total@.len() <= out_cap,
                valid_utf8(total@),
                self.eof ==> self.emitted() == decoded_of(cs, init_stream)
                    && self.unread().len() == 0,
                self.unread().len() <= old(self).unread().len(),
                total@.len() + 5 <= out_cap ==> self.eof
                    || self.unread().len() < old(self).unread().len(),
                total@.len() == 0 && out_cap >= 5 ==> self.eof,
                self.eof && cs == Charset::Utf8 && valid_utf8(init_stream)
                    && !starts_with_utf8_bom(init_stream) ==> self.emitted() == init_stream,
            decreases self.inner.pending().len(),
        {
            if out_cap - total.len() < 5 {
                break;
            }
            let chunk = match self.inner.fill() {
                Ok(c) => c,
                Err(e) => {
                    proof {
                        assert(init_emitted.is_prefix_of(init_emitted + total@)) by {
                            assert((init_emitted + total@).take(init_emitted.len() as int)
                                =~= init_emitted);
                        }
                    }
                    return Err(e);
                },
            };
            let cap_rem = out_cap - total.len();
            let ghost pend: Seq<u8> = self.inner.pending();
            let ghost fed0: Seq<u8> = self.decoder.fed();
            if chunk.len() == 0 {
                let (done, _nread, mut out) = self.decoder.decode_step(
                    chunk.as_slice(),
                    cap_rem,
                    true,
                );
                proof {
                    assert(chunk@.take(_nread as int) =~= Seq::<u8>::empty());
                    assert(self.decoder.fed() =~= fed0);
                    assert(fed0 =~= init_stream);
                    assert(init_emitted + total@ + out@ =~= init_emitted + (total@ + out@));
                    valid_utf8_concat(total@, out@);
                }
                total.append(&mut out);
                if done {
                    self.eof = true;
                }
                break;
            } else {
                let (done, nread, mut out) = self.decoder.decode_step(
                    chunk.as_slice(),
                    cap_rem,
                    false,
                );
                proof {
                    assert(chunk@.take(nread as int) =~= pend.take(nread as int));
                }
                self.inner.consume(nread);
                proof {
                    assert(self.stream() =~= init_stream) by {
                        assert(self.decoder.fed() == fed0 + pend.take(nread as int));
                        assert(self.inner.pending() == pend.skip(nread as int));
                        assert(fed0 + pend.take(nread as int) + pend.skip(nread as int) =~= fed0
                            + pend);
                    }
                    assert(init_emitted + total@ + out@ =~= init_emitted + (total@ + out@));
                    valid_utf8_concat(total@, out@);
                }
                total.append(&mut out);
                if !done {
                    break;
                }
            }
        }
        Ok(total)
    }

    /// Read to end-of-stream, appending every decoded UTF-8 byte to `out`;
    /// returns the number of bytes appended. It grows its decoding capacity
    /// with each source chunk, so backpressure never cuts the drain short;
    /// what lands in `out` is exactly the decoding of the whole input stream.
    pub fn read_to_end(&mut self, out: &mut Vec<u8>) -> (r: Result<usize, SourceError>)
        requires
            old(self).wf(),
        ensures
            final(self).wf(),
            final(self).charset() == old(self).charset(),
            (r matches Ok(n) ==> final(self).at_eof() && final(self).unread().len() == 0),
            (r matches Ok(n) ==> old(out)@.is_prefix_of(final(out)@)),
            (r matches Ok(n) ==> n as int == final(out)@.len() - old(out)@.len()),
            (r matches Ok(n) ==> valid_utf8(final(out)@.skip(old(out)@.len() as int))),
            (r matches Ok(n) ==> final(self).emitted() == old(self).emitted()
                + final(out)@.skip(old(out)@.len() as int)),
            (r matches Ok(n) ==> (old(self).at_eof() ==> final(out)@ == old(out)@ && n == 0)),
            (r matches Ok(n) ==> (!old(self).at_eof() ==> final(self).emitted() == decoded_of(
                old(self).charset(),
                old(self).stream(),
            ))),
            (r matches Ok(n) ==> (!old(self).at_eof() && old(self).emitted()
                == Seq::<u8>::empty() ==> final(out)@ == old(out)@ + decoded_of(
                old(self).charset(),
                old(self).stream(),
            ))),
            (r matches Ok(n) ==> (!old(self).at_eof() && old(self).emitted()
                == Seq::<u8>::empty() && old(self).charset() == Charset::Utf8 && valid_utf8(
                old(self).stream(),
            ) && !starts_with_utf8_bom(old(self).stream()) ==> final(out)@ == old(out)@
                + old(self).stream())),
            old(self).at_eof() ==> final(self).at_eof(),
            r is Err ==> !final(self).at_eof(),
            r is Err ==> final(self).stream() == old(self).stream(),
            r is Err ==> old(self).emitted().is_prefix_of(final(self).emitted()),
            r is Err ==> old(out)@.is_prefix_of(final(out)@),
    {
        let ghost cs: Charset = self.charset();
        let ghost init_stream: Seq<u8> = self.stream();
        let ghost init_emitted: Seq<u8> = self.emitted();
        let ghost init_out: Seq<u8> = out@;
        if self.eof {
            proof {
                assert(out@.skip(init_out.len() as int) =~= Seq::<u8>::empty());
                assert(init_out.is_prefix_of(out@)) by {
                    assert(out@.take(init_out.len() as int) =~= init_out);
                }
                assert(self.emitted() =~= init_emitted + out@.skip(init_out.len() as int));
            }
            return Ok(0);
        }
        let start_len = out.len();
        while !self.eof
            invariant
                !old(self).at_eof(),
                cs == old(self).charset(),
                init_stream == old(self).stream(),
                init_emitted == old(self).emitted(),
                init_out == old(out)@,
                start_len == init_out.len(),
                self.wf(),
                self.charset() == cs,
                self.stream() == init_stream,
                init_out.is_prefix_of(out@),
                start_len <= out@.len(),
                self.emitted() == init_emitted + out@.skip(start_len as int),
                valid_utf8(out@.skip(start_len as int)),
                self.eof ==> self.emitted() == decoded_of(cs, init_stream),
                self.eof && cs == Charset::Utf8 && valid_utf8(init_stream)
                    && !starts_with_utf8_bom(init_stream) ==> self.emitted() == init_stream,
            decreases self.inner.pending().len() + (if self.eof {
                0int
            } else {
                1int
            }),
        {
            let ghost pend: Seq<u8> = self.inner.pending();
            let ghost fed0: Seq<u8> = self.decoder.fed();
            let ghost out0: Seq<u8> = out@;
            let chunk0 = match self.inner.fill() {
                Ok(c) => c,
                Err(e) => {
                    proof {
                        assert(init_emitted.is_prefix_of(init_emitted + out@.skip(
                            start_len as int,
                        ))) by {
                            assert((init_emitted + out@.skip(start_len as int)).take(
                                init_emitted.len() as int,
                            ) =~= init_emitted);
                        }
                    }
                    return Err(e);
                },
            };
            if chunk0.len() == 0 {
                let (done, _nread, mut piece) = self.decoder.decode_step(
                    chunk0.as_slice(),
                    32,
                    true,
                );
                proof {
                    assert(done);
                    assert(chunk0@.take(_nread as int) =~= Seq::<u8>::empty());
                    assert(self.decoder.fed() =~= fed0);
                    assert(fed0 =~= init_stream);
                }
                let ghost piece0: Seq<u8> = piece@;
                out.append(&mut piece);
                self.eof = true;
                proof {
                    assert(start_len <= out0.len());
                    assert(out@ == out0 + piece0);
                    assert(out@.skip(start_len as int) =~= out0.skip(start_len as int) + piece0);
                    assert(init_emitted + out0.skip(start_len as int) + piece0 =~= init_emitted + (
                    out0.skip(start_len as int) + piece0));
                    valid_utf8_concat(out0.skip(start_len as int), piece0);
                    assert(init_out.is_prefix_of(out@)) by {
                        assert(out@.take(init_out.len() as int) =~= init_out);
                    }
                }
            } else {
                let mut chunk = chunk0;
                chunk.truncate(4096);
                proof {
                    assert(chunk@ =~= pend.take(chunk@.len() as int));
                }
                let cap = 3 * chunk.len() + 32;
                let (done, nread, mut piece) = self.decoder.decode_step(
                    chunk.as_slice(),
                    cap,
                    false,
                );
                proof {
                    assert(done);
                    assert(chunk@.take(nread as int) =~= pend.take(nread as int));
                }
                self.inner.consume(nread);
                let ghost piece0: Seq<u8> = piece@;
                out.append(&mut piece);
                proof {
                    assert(self.stream() =~= init_stream) by {
                        assert(self.decoder.fed() == fed0 + pend.take(nread as int));
                        assert(self.inner.pending() == pend.skip(nread as int));
                        assert(fed0 + pend.take(nread as int) + pend.skip(nread as int) =~= fed0
                            + pend);
                    }
                    assert(start_len <= out0.len());
                    assert(out@ == out0 + piece0);
                    assert(out@.skip(start_len as int) =~= out0.skip(start_len as int) + piece0);
                    assert(init_emitted + out0.skip(start_len as int) + piece0 =~= init_emitted + (
                    out0.skip(start_len as int) + piece0));
                    valid_utf8_concat(out0.skip(start_len as int), piece0);
                    assert(init_out.is_prefix_of(out@)) by {
                        assert(out@.take(init_out.len() as int) =~= init_out);
                    }
                }
            }
        }
        proof {
            assert(out@.len() >= start_len);
            assert((!old(self).at_eof() && old(self).emitted() == Seq::<u8>::empty())
                ==> out@ =~= init_out + decoded_of(cs, init_stream)) by {
                if old(self).emitted() == Seq::<u8>::empty() {
                    assert(out@.skip(start_len as int) =~= decoded_of(cs, init_stream) ==> out@
                        =~= init_out + decoded_of(cs, init_stream));
                }
            }
        }
        Ok(out.len() - start_len)
    }

    /// Read to end-of-stream and append the decoded text to `text`; returns
    /// the number of UTF-8 bytes appended. The appended characters are
    /// exactly the characters encoded by the UTF-8 bytes the reader
    /// produced — for a fresh reader, the decoding of the whole input stream;
    /// for a fresh UTF-8 reader over a valid UTF-8 stream with no leading
    /// byte-order mark, the stream's own characters.
    pub fn read_to_string(&mut self, text: &mut String) -> (r: Result<usize, SourceError>)
        requires
            old(self).wf(),
        ensures
            final(self).wf(),
            final(self).charset() == old(self).charset(),
            (r matches Ok(n) ==> final(self).at_eof() && final(self).unread().len() == 0),
            (r matches Ok(n) ==> n as int == final(self).emitted().len() - old(
                self,
            ).emitted().len()),
            (r matches Ok(n) ==> old(self).emitted().is_prefix_of(final(self).emitted())),
            (r matches Ok(n) ==> final(text)@ == old(text)@ + decode_utf8(
                final(self).emitted().skip(old(self).emitted().len() as int),
            )),
            (r matches Ok(n) ==> (old(self).at_eof() ==> final(text)@ == old(text)@ && n == 0)),
            (r matches Ok(n) ==> (!old(self).at_eof() ==> final(self).emitted() == decoded_of(
                old(self).charset(),
                old(self).stream(),
            ))),
            (r matches Ok(n) ==> (!old(self).at_eof() && old(self).emitted()
                == Seq::<u8>::empty() ==> final(text)@ == old(text)@ + decode_utf8(decoded_of(
                old(self).charset(),
                old(self).stream(),
            )))),
            (r matches Ok(n) ==> (!old(self).at_eof() && old(self).emitted()
                == Seq::<u8>::empty() && old(self).charset() == Charset::Utf8 && valid_utf8(
                old(self).stream(),
            ) && !starts_with_utf8_bom(old(self).stream()) ==> final(text)@ == old(text)@
                + decode_utf8(old(self).stream()))),
            old(self).at_eof() ==> final(self).at_eof(),
            r is Err ==> !final(self).at_eof(),
            r is Err ==> final(self).stream() == old(self).stream(),
            r is Err ==> old(self).emitted().is_prefix_of(final(self).emitted()),
            r is Err ==> final(text)@ == old(text)@,
    {
        let mut buf: Vec<u8> = Vec::new();
        let n = match self.read_to_end(&mut buf) {
            Ok(n) => n,
            Err(e) => {
                return Err(e);
            },
        };
        let ghost bufv: Seq<u8> = buf@;
        proof {
            assert(buf@.skip(0) =~= buf@);
            assert(self.emitted().skip(old(self).emitted().len() as int) =~= bufv);
        }
        let s = utf8_bytes_to_string(buf);
        let ghost text0: Seq<char> = text@;
        text.append(s.as_str());
        proof {
            if n == 0 {
                assert(decode_utf8(Seq::<u8>::empty()) =~= Seq::<char>::empty());
                assert(text@ =~= text0);
            }
        }
        Ok(n)
    }
}

} // verus!
