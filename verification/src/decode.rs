//! The byte decoding stage: a chosen encoding plus the stateful decoder of the
//! `encoding` crate, turning byte chunks into text chunks best-effort and
//! forwarding them to a downstream sink.

use vstd::prelude::*;
use vstd::slice::slice_subrange;
use crate::sink::TextSink;
use crate::sink::views_of;

verus! {

/// The character encodings this front end can choose or be handed as a
/// transport-layer hint: the three byte-order-mark encodings and a repertoire
/// of common single-byte encodings. A transport hint naming an encoding
/// outside this repertoire cannot be expressed, and such a stream falls back
/// to the UTF-8 default.
#[derive(Clone, Copy, PartialEq, Eq, Structural, Debug)]
pub enum EncodingId {
    Utf8,
    Utf16Be,
    Utf16Le,
    Windows1252,
    Windows1251,
    Iso8859_1,
    Iso8859_2,
    Koi8R,
}

/// True of the encodings whose code unit is a byte pair, for which the
/// decoding stage holds back a trailing odd byte rather than leaving it
/// inside the decoder across calls.
pub open spec fn spec_is_pair_coded(enc: EncodingId) -> bool {
    enc == EncodingId::Utf16Be || enc == EncodingId::Utf16Le
}

/// The text the lossy decoding protocol for `enc` has emitted after being fed
/// exactly the bytes `fed`, before it is finished: the decoder's output with
/// each malformed sequence replaced by the replacement character. Bytes that
/// end in the middle of a multi-byte sequence are held back, so this can lag.
pub uninterp spec fn decoded_prefix(enc: EncodingId, fed: Seq<u8>) -> Seq<char>;

/// The total text once the protocol has been fed exactly the bytes `fed` and
/// then finished, a trailing incomplete sequence replaced by the replacement
/// character.
pub uninterp spec fn decoded(enc: EncodingId, fed: Seq<u8>) -> Seq<char>;

/// The diagnostic messages the protocol has emitted after being fed exactly
/// the bytes `fed`, one per malformed sequence.
pub uninterp spec fn decode_errors(enc: EncodingId, fed: Seq<u8>) -> Seq<Seq<char>>;

/// The total diagnostic messages once the protocol has been fed exactly the
/// bytes `fed` and then finished.
pub uninterp spec fn decode_errors_total(enc: EncodingId, fed: Seq<u8>) -> Seq<Seq<char>>;

/// The encoding a decoder handle was created for.
pub uninterp spec fn raw_enc(d: RawDecoderHandle) -> EncodingId;

/// All bytes a decoder handle has been fed so far.
pub uninterp spec fn raw_fed(d: RawDecoderHandle) -> Seq<u8>;

/// Owns one stateful decoder of the `encoding` crate; `raw_enc` gives the
/// encoding it was created for and `raw_fed` the bytes it has consumed.
#[verifier::external_body]
pub struct RawDecoderHandle {
    inner: Box<dyn encoding::types::RawDecoder>,
}

/// Relies on `encoding::types::Encoding::raw_decoder`: a fresh decoder has
/// been fed nothing, has emitted nothing, and emits nothing when finished
/// immediately.
#[verifier::external_body]
fn raw_decoder_new(enc: EncodingId) -> (d: RawDecoderHandle)
    ensures
        raw_enc(d) == enc,
        raw_fed(d) == Seq::<u8>::empty(),
        decoded_prefix(enc, raw_fed(d)) == Seq::<char>::empty(),
        decoded(enc, raw_fed(d)) == Seq::<char>::empty(),
        decode_errors(enc, raw_fed(d)) == Seq::<Seq<char>>::empty(),
        decode_errors_total(enc, raw_fed(d)) == Seq::<Seq<char>>::empty(),
{
    let e: encoding::types::EncodingRef = match enc {
        EncodingId::Utf8 => encoding::all::UTF_8,
        EncodingId::Utf16Be => encoding::all::UTF_16BE,
        EncodingId::Utf16Le => encoding::all::UTF_16LE,
        EncodingId::Windows1252 => encoding::all::WINDOWS_1252,
        EncodingId::Windows1251 => encoding::all::WINDOWS_1251,
        EncodingId::Iso8859_1 => encoding::all::ISO_8859_1,
        EncodingId::Iso8859_2 => encoding::all::ISO_8859_2,
        EncodingId::Koi8R => encoding::all::KOI8_R,
    };
    RawDecoderHandle { inner: e.raw_decoder() }
}

/// Relies on `encoding::types::RawDecoder::raw_feed` and the recovery
/// protocol its module documents: feed, and on an error emit the replacement
/// character, record the cause, and feed again from the error's `upto`
/// offset. The offset is within the current input — `0 <= upto <= len` — as
/// long as the UTF-16 decoder holds no lone lead byte when the call starts;
/// it holds one exactly when the total bytes fed so far is odd, which the
/// precondition rules out (the UTF-8 and windows-1252 decoders never report
/// an offset outside the current input). Everything emitted is deterministic
/// in the encoding and the bytes fed so far. When a pair-coded decoder has
/// consumed an even total, one further byte is merely the first half of a
/// code unit: held, emitting no text and no diagnostic, whatever the byte.
#[verifier::external_body]
fn raw_decoder_feed(d: &mut RawDecoderHandle, chunk: &[u8]) -> (r: (String, Vec<String>))
    requires
        spec_is_pair_coded(raw_enc(*old(d))) ==> raw_fed(*old(d)).len() % 2 == 0,
    ensures
        raw_enc(*final(d)) == raw_enc(*old(d)),
        raw_fed(*final(d)) == raw_fed(*old(d)) + chunk@,
        decoded_prefix(raw_enc(*old(d)), raw_fed(*final(d))) == decoded_prefix(
            raw_enc(*old(d)),
            raw_fed(*old(d)),
        ) + r.0@,
        decode_errors(raw_enc(*old(d)), raw_fed(*final(d))) == decode_errors(
            raw_enc(*old(d)),
            raw_fed(*old(d)),
        ) + views_of(r.1@),
        spec_is_pair_coded(raw_enc(*old(d))) && raw_fed(*final(d)).len() % 2 == 0
            ==> forall|b: u8|
            #[trigger] decoded_prefix(raw_enc(*old(d)), raw_fed(*final(d)).push(b))
                == decoded_prefix(raw_enc(*old(d)), raw_fed(*final(d))),
        spec_is_pair_coded(raw_enc(*old(d))) && raw_fed(*final(d)).len() % 2 == 0
            ==> forall|b: u8|
            #[trigger] decode_errors(raw_enc(*old(d)), raw_fed(*final(d)).push(b))
                == decode_errors(raw_enc(*old(d)), raw_fed(*final(d))),
{
    let mut out = String::new();
    let mut errs: Vec<String> = Vec::new();
    let mut rest: &[u8] = chunk;
    loop {
        match d.inner.raw_feed(rest, &mut out) {
            (_, Some(err)) => {
                out.push('\u{fffd}');
                errs.push(err.cause.into_owned());
                rest = &rest[err.upto as usize..];
            }
            (_, None) => break,
        }
    }
    (out, errs)
}

/// Relies on `encoding::types::RawDecoder::raw_finish`: finishing flushes the
/// remaining text; a trailing incomplete sequence becomes the replacement
/// character and its cause is reported.
#[verifier::external_body]
fn raw_decoder_finish(d: RawDecoderHandle) -> (r: (String, Vec<String>))
    ensures
        decoded(raw_enc(d), raw_fed(d)) == decoded_prefix(raw_enc(d), raw_fed(d)) + r.0@,
        decode_errors_total(raw_enc(d), raw_fed(d)) == decode_errors(raw_enc(d), raw_fed(d))
            + views_of(r.1@),
{
    let mut d = d;
    let mut out = String::new();
    let mut errs: Vec<String> = Vec::new();
    if let Some(err) = d.inner.raw_finish(&mut out) {
        out.push('\u{fffd}');
        errs.push(err.cause.into_owned());
    }
    (out, errs)
}

/// The text a streaming decoder emits while its fed bytes grow from `a` to `b`.
pub open spec fn decoded_delta(enc: EncodingId, a: Seq<u8>, b: Seq<u8>) -> Seq<char> {
    decoded_prefix(enc, b).skip(decoded_prefix(enc, a).len() as int)
}

/// The diagnostics a streaming decoder emits while its fed bytes grow from
/// `a` to `b`.
pub open spec fn errors_delta(enc: EncodingId, a: Seq<u8>, b: Seq<u8>) -> Seq<Seq<char>> {
    decode_errors(enc, b).skip(decode_errors(enc, a).len() as int)
}

/// The text a streaming decoder emits when it is finished after being fed `fed`.
pub open spec fn decoded_tail(enc: EncodingId, fed: Seq<u8>) -> Seq<char> {
    decoded(enc, fed).skip(decoded_prefix(enc, fed).len() as int)
}

/// The diagnostics a streaming decoder emits when it is finished after being
/// fed `fed`.
pub open spec fn errors_tail(enc: EncodingId, fed: Seq<u8>) -> Seq<Seq<char>> {
    decode_errors_total(enc, fed).skip(decode_errors(enc, fed).len() as int)
}

/// The byte decoding stage: a chosen encoding, its stateful decoder, and the
/// sink the decoded text flows to. Decoding is best-effort: malformed
/// sequences become replacement characters plus a diagnostic, never a
/// failure. For pair-coded encodings the stage holds a trailing odd byte back
/// from the decoder until its partner, or the end of the stream, arrives.
pub struct LossyDecoder<S: TextSink> {
    encoding: EncodingId,
    raw: RawDecoderHandle,
    held: Vec<u8>,
    inner: S,
}

impl<S: TextSink> LossyDecoder<S> {
    /// The encoding this stage decodes with.
    pub closed spec fn enc(&self) -> EncodingId {
        self.encoding
    }

    /// All bytes this stage has been fed so far, the held-back odd byte
    /// included.
    pub closed spec fn fed(&self) -> Seq<u8> {
        raw_fed(self.raw) + self.held@
    }

    /// The sink this stage forwards to.
    pub closed spec fn sink(&self) -> S {
        self.inner
    }

    /// The text the downstream sink has received so far.
    pub open spec fn received(&self) -> Seq<char> {
        self.sink().received()
    }

    /// The diagnostics the downstream sink has received so far.
    pub open spec fn reported(&self) -> Seq<Seq<char>> {
        self.sink().reported()
    }

    /// Well-formed between operations: the decoder matches the chosen
    /// encoding, at most one byte is held back, a pair-coded decoder has been
    /// fed an even number of bytes, and the held byte is known to add neither
    /// text nor diagnostics until completed.
    pub closed spec fn wf(&self) -> bool {
        &&& raw_enc(self.raw) == self.encoding
        &&& self.held@.len() <= 1
        &&& (spec_is_pair_coded(self.encoding) ==> raw_fed(self.raw).len() % 2 == 0)
        &&& (!spec_is_pair_coded(self.encoding) ==> self.held@.len() == 0)
        &&& (self.held@.len() == 1 ==> decoded_prefix(self.encoding, self.fed())
            == decoded_prefix(self.encoding, raw_fed(self.raw)) && decode_errors(
            self.encoding,
            self.fed(),
        ) == decode_errors(self.encoding, raw_fed(self.raw)))
    }

    /// A stage over `sink` that decodes with `encoding` and has seen no bytes.
    pub fn new(encoding: EncodingId, sink: S) -> (r: LossyDecoder<S>)
        ensures
            r.wf(),
            r.enc() == encoding,
            r.fed() == Seq::<u8>::empty(),
            r.sink() == sink,
            decoded_prefix(encoding, r.fed()) == Seq::<char>::empty(),
            decoded(encoding, r.fed()) == Seq::<char>::empty(),
            decode_errors(encoding, r.fed()) == Seq::<Seq<char>>::empty(),
            decode_errors_total(encoding, r.fed()) == Seq::<Seq<char>>::empty(),
    {
        let r = LossyDecoder {
            encoding,
            raw: raw_decoder_new(encoding),
            held: Vec::new(),
            inner: sink,
        };
        proof {
            assert(r.fed() =~= Seq::<u8>::empty());
        }
        r
    }

    /// Decode one byte chunk and forward the resulting text, and one
    /// diagnostic per malformed sequence, to the sink.
    pub fn process(&mut self, t: &[u8])
        requires
            old(self).wf(),
        ensures
            final(self).wf(),
            final(self).enc() == old(self).enc(),
            final(self).fed() == old(self).fed() + t@,
            decoded_prefix(old(self).enc(), old(self).fed()).is_prefix_of(
                decoded_prefix(old(self).enc(), final(self).fed()),
            ),
            decode_errors(old(self).enc(), old(self).fed()).is_prefix_of(
                decode_errors(old(self).enc(), final(self).fed()),
            ),
            final(self).received() == old(self).received() + decoded_delta(
                old(self).enc(),
                old(self).fed(),
                final(self).fed(),
            ),
            final(self).reported() == old(self).reported() + errors_delta(
                old(self).enc(),
                old(self).fed(),
                final(self).fed(),
            ),
    {
        let ghost e = self.encoding;
        let ghost f0 = self.fed();
        let ghost raw0 = raw_fed(self.raw);
        let mut buf: Vec<u8> = Vec::new();
        if self.held.len() > 0 {
            buf.push(self.held[0]);
        }
        self.held = Vec::new();
        let mut i: usize = 0;
        while i < t.len()
            invariant
                i <= t@.len(),
                buf@ == old(self).held@ + t@.take(i as int),
            decreases t@.len() - i,
        {
            buf.push(*vstd::slice::slice_index_get(t, i));
            proof {
                assert(old(self).held@ + t@.take(i as int + 1) =~= (old(self).held@ + t@.take(
                    i as int,
                )).push(t@[i as int]));
            }
            i = i + 1;
        }
        proof {
            assert(t@.take(t@.len() as int) =~= t@);
        }
        let pair_coded = self.encoding == EncodingId::Utf16Be || self.encoding
            == EncodingId::Utf16Le;
        let feed_len: usize = if pair_coded {
            buf.len() - buf.len() % 2
        } else {
            buf.len()
        };
        let front = slice_subrange(buf.as_slice(), 0, feed_len);
        let (out, errs) = raw_decoder_feed(&mut self.raw, front);
        if feed_len < buf.len() {
            self.held.push(*vstd::slice::slice_index_get(buf.as_slice(), feed_len));
        }
        let ghost raw1 = raw_fed(self.raw);
        let ghost f1 = self.fed();
        let ghost dec1 = self.raw;
        let ghost held1 = self.held@;
        proof {
            assert(raw1 =~= raw0 + buf@.take(feed_len as int));
            assert(f1 =~= f0 + t@);
            if old(self).held@.len() == 1 {
                assert(f0 =~= raw0 + old(self).held@);
            } else {
                assert(f0 =~= raw0);
            }
            assert(decoded_prefix(e, f0) == decoded_prefix(e, raw0));
            assert(decode_errors(e, f0) == decode_errors(e, raw0));
            if held1.len() == 1 {
                assert(f1 =~= raw1.push(held1[0]));
            } else {
                assert(f1 =~= raw1);
            }
            assert(decoded_prefix(e, f1) == decoded_prefix(e, raw1));
            assert(decode_errors(e, f1) == decode_errors(e, raw1));
            assert(decoded_prefix(e, f1) == decoded_prefix(e, f0) + out@);
            assert(decode_errors(e, f1) == decode_errors(e, f0) + views_of(errs@));
            assert(decoded_prefix(e, f1).skip(decoded_prefix(e, f0).len() as int) =~= out@);
            assert(decode_errors(e, f1).skip(decode_errors(e, f0).len() as int) =~= views_of(
                errs@,
            ));
        }
        self.inner.process(out.as_str());
        let mut j: usize = 0;
        while j < errs.len()
            invariant
                j <= errs.len(),
                self.raw == dec1,
                self.held@ == held1,
                self.encoding == e,
                self.inner.received() == old(self).received() + decoded_delta(e, f0, f1),
                self.inner.reported() == old(self).reported() + views_of(errs@.take(j as int)),
            decreases errs.len() - j,
        {
            self.inner.error(errs[j].as_str());
            proof {
                assert(views_of(errs@.take(j as int + 1)) =~= views_of(errs@.take(j as int)).push(
                    errs@[j as int]@,
                ));
            }
            j = j + 1;
        }
        proof {
            assert(errs@.take(errs@.len() as int) =~= errs@);
        }
    }

    /// Forward one diagnostic to the sink; the decoder state is untouched.
    pub fn error(&mut self, desc: &str)
        requires
            old(self).wf(),
        ensures
            final(self).wf(),
            final(self).enc() == old(self).enc(),
            final(self).fed() == old(self).fed(),
            final(self).received() == old(self).received(),
            final(self).reported() == old(self).reported().push(desc@),
    {
        self.inner.error(desc);
    }

    /// Hand the held-back odd byte, if any, to the decoder, flush the
    /// trailing partial sequence, report an incomplete one as a decode error,
    /// and finalize the sink.
    pub fn finish(self) -> (r: S::Output)
        requires
            self.wf(),
        ensures
            decoded(self.enc(), self.fed()) == decoded_prefix(self.enc(), self.fed())
                + decoded_tail(self.enc(), self.fed()),
            decode_errors_total(self.enc(), self.fed()) == decode_errors(self.enc(), self.fed())
                + errors_tail(self.enc(), self.fed()),
            S::result_ok(
                self.received() + decoded_tail(self.enc(), self.fed()),
                self.reported() + errors_tail(self.enc(), self.fed()),
                &r,
            ),
    {
        let LossyDecoder { encoding, raw, held, inner } = self;
        let mut raw = raw;
        let mut sink = inner;
        let ghost e = self.enc();
        let ghost f = self.fed();
        if held.len() > 0 {
            let (flushed, flushed_errs) = raw_decoder_feed(&mut raw, held.as_slice());
            proof {
                assert(raw_fed(raw) =~= f);
                assert(flushed@ =~= Seq::<char>::empty());
                assert(views_of(flushed_errs@) =~= Seq::<Seq<char>>::empty());
                assert(decoded_prefix(e, f) + flushed@ =~= decoded_prefix(e, f));
            }
        } else {
            proof {
                assert(raw_fed(raw) =~= f);
            }
        }
        let (out, errs) = raw_decoder_finish(raw);
        proof {
            assert(decoded(e, f).skip(decoded_prefix(e, f).len() as int) =~= out@);
            assert(decode_errors_total(e, f).skip(decode_errors(e, f).len() as int) =~= views_of(
                errs@,
            ));
        }
        sink.process(out.as_str());
        let mut i: usize = 0;
        while i < errs.len()
            invariant
                i <= errs.len(),
                sink.received() == self.received() + decoded_tail(e, f),
                sink.reported() == self.reported() + views_of(errs@.take(i as int)),
            decreases errs.len() - i,
        {
            sink.error(errs[i].as_str());
            proof {
                assert(views_of(errs@.take(i as int + 1)) =~= views_of(errs@.take(i as int)).push(
                    errs@[i as int]@,
                ));
            }
            i = i + 1;
        }
        proof {
            assert(errs@.take(errs@.len() as int) =~= errs@);
        }
        sink.finish()
    }

    /// Access the sink this stage forwards to.
    pub fn inner_sink(&self) -> (r: &S)
        ensures
            *r == self.sink(),
    {
        &self.inner
    }

    /// Access the sink this stage forwards to, bypassing the decoder.
    pub fn inner_sink_mut(&mut self) -> (r: &mut S)
        ensures
            *r == old(self).sink(),
            final(self).sink() == *final(r),
            final(self).enc() == old(self).enc(),
            final(self).fed() == old(self).fed(),
            final(self).wf() == old(self).wf(),
    {
        &mut self.inner
    }
}

} // verus!
