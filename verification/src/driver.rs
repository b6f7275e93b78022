//! The byte stream state machine: mediates between "not yet decided" and
//! "decided" modes, owns a provisional byte buffer until the encoding
//! decision is made, and accepts direct injection of pre-decoded text at any
//! point. Exactly one encoding is ever chosen per stream.

use vstd::prelude::*;
use vstd::pervasive::arbitrary;
use vstd::pervasive::unreached;
use vstd::slice::slice_subrange;
use crate::decode::EncodingId;
use crate::decode::LossyDecoder;
use crate::decode::decode_errors;
use crate::decode::decode_errors_total;
use crate::decode::decoded;
use crate::decode::decoded_delta;
use crate::decode::decoded_prefix;
use crate::decode::decoded_tail;
use crate::decode::errors_delta;
use crate::decode::errors_tail;
use crate::sink::TextSink;

verus! {

/// How many buffered bytes `detect_encoding` needs before a decision is
/// attempted. Intentionally small: enough for byte-order-mark detection only;
/// content-based sniffing over a larger window is a documented non-goal.
pub const PRESCAN_BYTES: usize = 3;

/// All-encompassing parser setting structure. The tokenizer and tree builder
/// this front end feeds are opaque collaborators behind the sink interface,
/// so no settings for them are interpreted here.
#[derive(Clone, Copy, Default)]
pub struct XmlParseOpts {}

/// Options for choosing a character encoding.
#[derive(Clone, Copy, Default)]
pub struct BytesOpts {
    /// The character encoding specified by the transport layer, if any.
    /// In HTTP for example, this is the `charset` parameter of the
    /// `Content-Type` response header.
    pub transport_layer_encoding: Option<EncodingId>,
}

/// A parser front end ready to receive decoded text: a direct pass-through to
/// the downstream sink, the join point where the buffering path and the
/// decided path converge.
pub struct XmlParser<Sink: TextSink> {
    /// The downstream sink that accumulates the final result.
    pub sink: Sink,
}

/// Wrap `sink` into a parser front end ready to receive decoded text.
pub fn parse_document<Sink: TextSink>(sink: Sink, _opts: XmlParseOpts) -> (r: XmlParser<Sink>)
    ensures
        r.sink == sink,
{
    XmlParser { sink }
}

impl<Sink: TextSink> TextSink for XmlParser<Sink> {
    type Output = Sink::Output;

    open spec fn received(&self) -> Seq<char> {
        self.sink.received()
    }

    open spec fn reported(&self) -> Seq<Seq<char>> {
        self.sink.reported()
    }

    open spec fn result_ok(received: Seq<char>, reported: Seq<Seq<char>>, out: &Sink::Output) -> bool {
        Sink::result_ok(received, reported, out)
    }

    fn process(&mut self, t: &str) {
        self.sink.process(t);
    }

    fn error(&mut self, desc: &str) {
        self.sink.error(desc);
    }

    fn finish(self) -> (r: Sink::Output) {
        self.sink.finish()
    }
}

impl<Sink: TextSink> XmlParser<Sink> {
    /// Wrap this parser into a stage that accepts bytes known to be UTF-8.
    /// Decoding is lossy: malformed sequences become replacement characters.
    pub fn from_utf8(self) -> (r: LossyDecoder<XmlParser<Sink>>)
        ensures
            r.wf(),
            r.enc() == EncodingId::Utf8,
            r.fed() == Seq::<u8>::empty(),
            r.sink() == self,
            decoded_prefix(EncodingId::Utf8, r.fed()) == Seq::<char>::empty(),
            decoded(EncodingId::Utf8, r.fed()) == Seq::<char>::empty(),
            decode_errors(EncodingId::Utf8, r.fed()) == Seq::<Seq<char>>::empty(),
            decode_errors_total(EncodingId::Utf8, r.fed()) == Seq::<Seq<char>>::empty(),
    {
        LossyDecoder::new(EncodingId::Utf8, self)
    }

    /// Wrap this parser into a stage that accepts bytes and detects the
    /// character encoding: a byte-order mark first, then the transport-layer
    /// hint, then the UTF-8 default.
    pub fn from_bytes(self, opts: BytesOpts) -> (r: BytesParser<Sink>)
        ensures
            r.wf(),
            !r.decided(),
            r.buffered() == Seq::<u8>::empty(),
            r.pushed() == Seq::<u8>::empty(),
            r.byte_pure(),
            r.report_free(),
            r.hint() == opts.transport_layer_encoding,
            r.sink_received() == self.sink.received(),
            r.sink_reported() == self.sink.reported(),
            r.base_text() == self.sink.received(),
            r.base_reported() == self.sink.reported(),
    {
        let ghost bt = self.sink.received();
        let ghost br = self.sink.reported();
        BytesParser {
            state: BytesParserState::Initial { parser: self },
            opts,
            pushed: Ghost(Seq::empty()),
            byte_pure: Ghost(true),
            report_free: Ghost(true),
            base_text: Ghost(bt),
            base_reported: Ghost(br),
        }
    }
}

/// True when the stream begins with the UTF-8 byte-order mark.
pub open spec fn has_utf8_bom(b: Seq<u8>) -> bool {
    b.len() >= 3 && b[0] == 0xefu8 && b[1] == 0xbbu8 && b[2] == 0xbfu8
}

/// True when the stream begins with the big-endian UTF-16 byte-order mark.
pub open spec fn has_utf16be_bom(b: Seq<u8>) -> bool {
    b.len() >= 2 && b[0] == 0xfeu8 && b[1] == 0xffu8
}

/// True when the stream begins with the little-endian UTF-16 byte-order mark.
pub open spec fn has_utf16le_bom(b: Seq<u8>) -> bool {
    b.len() >= 2 && b[0] == 0xffu8 && b[1] == 0xfeu8
}

/// The encoding chosen for a stream beginning with `b` under hint `hint`:
/// a byte-order mark outranks the hint, the hint outranks the UTF-8 default.
pub open spec fn spec_detect(b: Seq<u8>, hint: Option<EncodingId>) -> EncodingId {
    if has_utf8_bom(b) {
        EncodingId::Utf8
    } else if has_utf16be_bom(b) {
        EncodingId::Utf16Be
    } else if has_utf16le_bom(b) {
        EncodingId::Utf16Le
    } else {
        match hint {
            Option::Some(e) => e,
            Option::None => EncodingId::Utf8,
        }
    }
}

/// How many leading bytes form the byte-order mark that detection consumed.
pub open spec fn spec_bom_len(b: Seq<u8>) -> nat {
    if has_utf8_bom(b) {
        3
    } else if has_utf16be_bom(b) || has_utf16le_bom(b) {
        2
    } else {
        0
    }
}

/// The bytes handed to the decoder when the decision is made on buffer `b`:
/// the buffer with its byte-order mark, if any, consumed.
pub open spec fn decision_fed(b: Seq<u8>) -> Seq<u8> {
    b.skip(spec_bom_len(b) as int)
}

/// The text emitted at the moment of a decision on buffer `b` under `hint`.
pub open spec fn decision_text(b: Seq<u8>, hint: Option<EncodingId>) -> Seq<char> {
    decoded_prefix(spec_detect(b, hint), decision_fed(b))
}

/// The diagnostics emitted at the moment of a decision on buffer `b`.
pub open spec fn decision_errors(b: Seq<u8>, hint: Option<EncodingId>) -> Seq<Seq<char>> {
    decode_errors(spec_detect(b, hint), decision_fed(b))
}

/// The total text a byte stream `b` decodes to: detect on `b`, consume the
/// byte-order mark, feed everything, finish. A function of the whole byte
/// sequence and the hint alone, independent of chunk boundaries.
pub open spec fn byte_stream_text(b: Seq<u8>, hint: Option<EncodingId>) -> Seq<char> {
    decoded(spec_detect(b, hint), decision_fed(b))
}

/// The total diagnostics a byte stream `b` decodes with.
pub open spec fn byte_stream_errors(b: Seq<u8>, hint: Option<EncodingId>) -> Seq<Seq<char>> {
    decode_errors_total(spec_detect(b, hint), decision_fed(b))
}

/// Choose the encoding for a stream beginning with `bytes`: the UTF-8, then
/// UTF-16BE, then UTF-16LE byte-order marks, then the transport-layer hint,
/// then the UTF-8 default. Total: never fails, for any prefix length.
pub fn detect_encoding(bytes: &[u8], opts: &BytesOpts) -> (r: EncodingId)
    ensures
        r == spec_detect(bytes@, opts.transport_layer_encoding),
{
    if bytes.len() >= 3 && *vstd::slice::slice_index_get(bytes, 0) == 0xef && *vstd::slice::slice_index_get(bytes, 1) == 0xbb
        && *vstd::slice::slice_index_get(bytes, 2) == 0xbf {
        return EncodingId::Utf8;
    }
    if bytes.len() >= 2 && *vstd::slice::slice_index_get(bytes, 0) == 0xfe && *vstd::slice::slice_index_get(bytes, 1) == 0xff {
        return EncodingId::Utf16Be;
    }
    if bytes.len() >= 2 && *vstd::slice::slice_index_get(bytes, 0) == 0xff && *vstd::slice::slice_index_get(bytes, 1) == 0xfe {
        return EncodingId::Utf16Le;
    }
    match opts.transport_layer_encoding {
        Option::Some(e) => e,
        Option::None => EncodingId::Utf8,
    }
}

/// How many leading bytes of `bytes` are the byte-order mark that detection
/// consumed.
fn bom_length(bytes: &[u8]) -> (r: usize)
    ensures
        r as nat == spec_bom_len(bytes@),
        r <= bytes@.len(),
{
    if bytes.len() >= 3 && *vstd::slice::slice_index_get(bytes, 0) == 0xef && *vstd::slice::slice_index_get(bytes, 1) == 0xbb
        && *vstd::slice::slice_index_get(bytes, 2) == 0xbf {
        return 3;
    }
    if bytes.len() >= 2 && *vstd::slice::slice_index_get(bytes, 0) == 0xfe && *vstd::slice::slice_index_get(bytes, 1) == 0xff {
        return 2;
    }
    if bytes.len() >= 2 && *vstd::slice::slice_index_get(bytes, 0) == 0xff && *vstd::slice::slice_index_get(bytes, 1) == 0xfe {
        return 2;
    }
    0
}

/// If a stream begins with a byte-order mark, the chosen encoding matches the
/// mark, regardless of any hint supplied.
pub proof fn lemma_bom_overrides_hint(b: Seq<u8>, hint: Option<EncodingId>)
    ensures
        has_utf8_bom(b) ==> spec_detect(b, hint) == EncodingId::Utf8,
        has_utf16be_bom(b) ==> spec_detect(b, hint) == EncodingId::Utf16Be,
        has_utf16le_bom(b) ==> spec_detect(b, hint) == EncodingId::Utf16Le,
{
}

/// For a stream without a byte-order mark, the hint is used when supplied,
/// and the UTF-8 default otherwise.
pub proof fn lemma_hint_or_default(b: Seq<u8>, hint: Option<EncodingId>)
    requires
        !has_utf8_bom(b),
        !has_utf16be_bom(b),
        !has_utf16le_bom(b),
    ensures
        spec_detect(b, hint) == (match hint {
            Option::Some(e) => e,
            Option::None => EncodingId::Utf8,
        }),
{
}

/// Once a stream prefix is long enough for the prescan, extending it changes
/// neither the detected encoding nor the byte-order mark, and the decoder
/// input grows by exactly the extension.
pub proof fn lemma_detect_extend(a: Seq<u8>, t: Seq<u8>, hint: Option<EncodingId>)
    requires
        a.len() >= PRESCAN_BYTES as nat,
    ensures
        spec_detect(a + t, hint) == spec_detect(a, hint),
        spec_bom_len(a + t) == spec_bom_len(a),
        decision_fed(a + t) == decision_fed(a) + t,
{
    let b = a + t;
    assert(b[0] == a[0]);
    assert(b[1] == a[1]);
    assert(b[2] == a[2]);
    assert(decision_fed(a + t) =~= decision_fed(a) + t);
}

enum BytesParserState<Sink: TextSink> {
    Initial { parser: XmlParser<Sink> },
    Buffering { parser: XmlParser<Sink>, buffer: Vec<u8> },
    Parsing { decoder: LossyDecoder<XmlParser<Sink>> },
    Transient,
}

/// The byte stream state machine: buffers bytes while undecided, owns a live
/// decoding stage once the single, irrevocable encoding decision is made, and
/// forwards injected pre-decoded text in arrival order.
pub struct BytesParser<Sink: TextSink> {
    state: BytesParserState<Sink>,
    opts: BytesOpts,
    pushed: Ghost<Seq<u8>>,
    byte_pure: Ghost<bool>,
    report_free: Ghost<bool>,
    base_text: Ghost<Seq<char>>,
    base_reported: Ghost<Seq<Seq<char>>>,
}

impl<Sink: TextSink> BytesParser<Sink> {
    /// True once the encoding decision has been made.
    pub closed spec fn decided(&self) -> bool {
        self.state is Parsing
    }

    /// The bytes buffered while undecided; empty once decided.
    pub closed spec fn buffered(&self) -> Seq<u8> {
        match self.state {
            BytesParserState::Initial { .. } => Seq::empty(),
            BytesParserState::Buffering { buffer, .. } => buffer@,
            _ => Seq::empty(),
        }
    }

    /// The encoding chosen for the stream; meaningful once decided.
    pub closed spec fn enc(&self) -> EncodingId {
        match self.state {
            BytesParserState::Parsing { decoder } => decoder.enc(),
            _ => arbitrary(),
        }
    }

    /// The bytes handed to the decoder so far; meaningful once decided.
    pub closed spec fn fed(&self) -> Seq<u8> {
        match self.state {
            BytesParserState::Parsing { decoder } => decoder.fed(),
            _ => arbitrary(),
        }
    }

    /// The text the downstream sink has received so far.
    pub closed spec fn sink_received(&self) -> Seq<char> {
        match self.state {
            BytesParserState::Initial { parser } => parser.received(),
            BytesParserState::Buffering { parser, .. } => parser.received(),
            BytesParserState::Parsing { decoder } => decoder.received(),
            BytesParserState::Transient => arbitrary(),
        }
    }

    /// The diagnostics the downstream sink has received so far.
    pub closed spec fn sink_reported(&self) -> Seq<Seq<char>> {
        match self.state {
            BytesParserState::Initial { parser } => parser.reported(),
            BytesParserState::Buffering { parser, .. } => parser.reported(),
            BytesParserState::Parsing { decoder } => decoder.reported(),
            BytesParserState::Transient => arbitrary(),
        }
    }

    /// The transport-layer hint this stream was constructed with.
    pub closed spec fn hint(&self) -> Option<EncodingId> {
        self.opts.transport_layer_encoding
    }

    /// All bytes pushed into this stream so far, as one sequence.
    pub closed spec fn pushed(&self) -> Seq<u8> {
        self.pushed@
    }

    /// True while no non-empty text chunk has been injected: the stream has
    /// been driven by bytes alone.
    pub closed spec fn byte_pure(&self) -> bool {
        self.byte_pure@
    }

    /// True while no diagnostic has been forwarded through `error`: every
    /// message the sink received came from the decoder itself.
    pub closed spec fn report_free(&self) -> bool {
        self.report_free@
    }

    /// The text the sink had already received when this stream was created.
    pub closed spec fn base_text(&self) -> Seq<char> {
        self.base_text@
    }

    /// The diagnostics the sink had already received when this stream was
    /// created.
    pub closed spec fn base_reported(&self) -> Seq<Seq<char>> {
        self.base_reported@
    }

    spec fn decoder_wf(&self) -> bool {
        match self.state {
            BytesParserState::Parsing { decoder } => decoder.wf(),
            _ => true,
        }
    }

    spec fn byte_pure_inv(&self) -> bool {
        if self.decided() {
            &&& self.pushed@.len() >= PRESCAN_BYTES as nat
            &&& self.enc() == spec_detect(self.pushed@, self.hint())
            &&& self.fed() == decision_fed(self.pushed@)
            &&& self.sink_received() == self.base_text@ + decoded_prefix(self.enc(), self.fed())
            &&& (self.report_free@ ==> self.sink_reported() == self.base_reported@ + decode_errors(
                self.enc(),
                self.fed(),
            ))
        } else {
            &&& self.pushed@ == self.buffered()
            &&& self.sink_received() == self.base_text@
            &&& (self.report_free@ ==> self.sink_reported() == self.base_reported@)
        }
    }

    /// Well-formed between public operations: the transient transition marker
    /// is never observable, the buffer stays below the prescan threshold while
    /// undecided, the live decoding stage is itself well-formed, and a
    /// byte-only stream is fully described by the bytes pushed so far.
    pub closed spec fn wf(&self) -> bool {
        &&& !(self.state is Transient)
        &&& (!self.decided() ==> self.buffered().len() < PRESCAN_BYTES as nat)
        &&& self.decoder_wf()
        &&& (self.byte_pure@ ==> self.byte_pure_inv())
    }

    /// True once the encoding decision has been made.
    pub fn is_decided(&self) -> (r: bool)
        requires
            self.wf(),
        ensures
            r == self.decided(),
    {
        match &self.state {
            BytesParserState::Parsing { .. } => true,
            _ => false,
        }
    }

    /// Access the underlying parser.
    pub fn str_parser(&self) -> (r: &XmlParser<Sink>)
        requires
            self.wf(),
        ensures
            r.received() == self.sink_received(),
            r.reported() == self.sink_reported(),
    {
        match &self.state {
            BytesParserState::Initial { parser } => parser,
            BytesParserState::Buffering { parser, .. } => parser,
            BytesParserState::Parsing { decoder } => decoder.inner_sink(),
            BytesParserState::Transient => unreached(),
        }
    }

    /// Access the underlying parser. Mutating the parser directly steps
    /// outside this stream's accounting, so well-formedness is re-established
    /// only when the parser's view is left as it was found.
    pub fn str_parser_mut(&mut self) -> (r: &mut XmlParser<Sink>)
        requires
            old(self).wf(),
        ensures
            r.received() == old(self).sink_received(),
            r.reported() == old(self).sink_reported(),
            final(self).sink_received() == final(r).received(),
            final(self).sink_reported() == final(r).reported(),
            final(self).decided() == old(self).decided(),
            final(self).buffered() == old(self).buffered(),
            final(self).hint() == old(self).hint(),
            final(self).pushed() == old(self).pushed(),
            final(self).byte_pure() == old(self).byte_pure(),
            final(self).report_free() == old(self).report_free(),
            final(self).base_text() == old(self).base_text(),
            final(self).base_reported() == old(self).base_reported(),
            old(self).decided() ==> final(self).enc() == old(self).enc() && final(self).fed()
                == old(self).fed(),
            final(r).received() == old(self).sink_received() && final(r).reported() == old(
                self,
            ).sink_reported() ==> final(self).wf(),
    {
        match &mut self.state {
            BytesParserState::Initial { parser } => parser,
            BytesParserState::Buffering { parser, .. } => parser,
            BytesParserState::Parsing { decoder } => decoder.inner_sink_mut(),
            BytesParserState::Transient => unreached(),
        }
    }

    /// Run the detector over `buffer` and the hint, construct the decoding
    /// stage, feed it the whole buffer with the byte-order mark consumed, and
    /// enter the decided mode. The single irrevocable decision of the stream.
    fn start_parsing(&mut self, parser: XmlParser<Sink>, buffer: Vec<u8>)
        ensures
            final(self).opts == old(self).opts,
            final(self).pushed == old(self).pushed,
            final(self).byte_pure == old(self).byte_pure,
            final(self).report_free == old(self).report_free,
            final(self).base_text == old(self).base_text,
            final(self).base_reported == old(self).base_reported,
            final(self).decided(),
            final(self).decoder_wf(),
            final(self).enc() == spec_detect(buffer@, old(self).hint()),
            final(self).fed() == decision_fed(buffer@),
            final(self).sink_received() == parser.received() + decision_text(
                buffer@,
                old(self).hint(),
            ),
            final(self).sink_reported() == parser.reported() + decision_errors(
                buffer@,
                old(self).hint(),
            ),
            decoded_prefix(final(self).enc(), Seq::<u8>::empty()) == Seq::<char>::empty(),
            decode_errors(final(self).enc(), Seq::<u8>::empty()) == Seq::<Seq<char>>::empty(),
    {
        let ghost hint = self.opts.transport_layer_encoding;
        let encoding = detect_encoding(buffer.as_slice(), &self.opts);
        let k = bom_length(buffer.as_slice());
        let mut decoder = LossyDecoder::new(encoding, parser);
        let tail = slice_subrange(buffer.as_slice(), k, buffer.len());
        proof {
            assert(tail@ =~= decision_fed(buffer@));
        }
        decoder.process(tail);
        proof {
            assert(Seq::<u8>::empty() + tail@ =~= tail@);
            assert(decoded_prefix(encoding, decision_fed(buffer@)).skip(0) =~= decoded_prefix(
                encoding,
                decision_fed(buffer@),
            ));
            assert(decode_errors(encoding, decision_fed(buffer@)).skip(0) =~= decode_errors(
                encoding,
                decision_fed(buffer@),
            ));
        }
        self.state = BytesParserState::Parsing { decoder };
    }

    /// Push one byte chunk. While undecided, the chunk is buffered; the
    /// moment the buffer reaches the prescan size the encoding decision is
    /// made and the whole buffer is decoded. Once decided, the chunk flows
    /// straight through the decoder to the sink.
    pub fn process(&mut self, t: &[u8])
        requires
            old(self).wf(),
        ensures
            final(self).wf(),
            final(self).hint() == old(self).hint(),
            final(self).base_text() == old(self).base_text(),
            final(self).base_reported() == old(self).base_reported(),
            final(self).byte_pure() == old(self).byte_pure(),
            final(self).report_free() == old(self).report_free(),
            final(self).pushed() == old(self).pushed() + t@,
            (!old(self).decided() && old(self).buffered().len() + t@.len() < PRESCAN_BYTES as nat)
                ==> {
                &&& !final(self).decided()
                &&& final(self).buffered() == old(self).buffered() + t@
                &&& final(self).sink_received() == old(self).sink_received()
                &&& final(self).sink_reported() == old(self).sink_reported()
            },
            (!old(self).decided() && old(self).buffered().len() + t@.len() >= PRESCAN_BYTES as nat)
                ==> {
                &&& final(self).decided()
                &&& final(self).enc() == spec_detect(old(self).buffered() + t@, old(self).hint())
                &&& final(self).fed() == decision_fed(old(self).buffered() + t@)
                &&& final(self).sink_received() == old(self).sink_received() + decision_text(
                    old(self).buffered() + t@,
                    old(self).hint(),
                )
                &&& final(self).sink_reported() == old(self).sink_reported() + decision_errors(
                    old(self).buffered() + t@,
                    old(self).hint(),
                )
                &&& decoded_prefix(final(self).enc(), Seq::<u8>::empty()) == Seq::<char>::empty()
                &&& decode_errors(final(self).enc(), Seq::<u8>::empty()) == Seq::<Seq<
                    char,
                >>::empty()
            },
            old(self).decided() ==> {
                &&& final(self).decided()
                &&& final(self).enc() == old(self).enc()
                &&& final(self).fed() == old(self).fed() + t@
                &&& decoded_prefix(old(self).enc(), old(self).fed()).is_prefix_of(
                    decoded_prefix(old(self).enc(), final(self).fed()),
                )
                &&& final(self).sink_received() == old(self).sink_received() + decoded_delta(
                    old(self).enc(),
                    old(self).fed(),
                    final(self).fed(),
                )
                &&& final(self).sink_reported() == old(self).sink_reported() + errors_delta(
                    old(self).enc(),
                    old(self).fed(),
                    final(self).fed(),
                )
            },
    {
        let ghost hint = self.opts.transport_layer_encoding;
        match &mut self.state {
            BytesParserState::Parsing { decoder } => {
                decoder.process(t);
                self.pushed = Ghost(self.pushed@ + t@);
                proof {
                    if old(self).byte_pure@ {
                        lemma_detect_extend(old(self).pushed@, t@, hint);
                        let e = old(self).enc();
                        let f0 = old(self).fed();
                        let f1 = self.fed();
                        assert(f1 == f0 + t@);
                        assert(f1 == decision_fed(self.pushed@));
                        assert(self.enc() == spec_detect(self.pushed@, hint));
                        assert(decoded_prefix(e, f0) + decoded_delta(e, f0, f1) =~= decoded_prefix(
                            e,
                            f1,
                        ));
                        assert(self.sink_received() == (self.base_text@ + decoded_prefix(e, f0))
                            + decoded_delta(e, f0, f1));
                        assert((self.base_text@ + decoded_prefix(e, f0)) + decoded_delta(e, f0, f1)
                            =~= self.base_text@ + decoded_prefix(e, f1));
                        if old(self).report_free@ {
                            assert(decode_errors(e, f0) + errors_delta(e, f0, f1) =~= decode_errors(
                                e,
                                f1,
                            ));
                            assert((self.base_reported@ + decode_errors(e, f0)) + errors_delta(
                                e,
                                f0,
                                f1,
                            ) =~= self.base_reported@ + decode_errors(e, f1));
                        }
                    }
                }
                return ;
            },
            _ => {},
        }
        let mut taken = BytesParserState::Transient;
        core::mem::swap(&mut self.state, &mut taken);
        let (parser, mut buffer) = match taken {
            BytesParserState::Initial { parser } => (parser, Vec::new()),
            BytesParserState::Buffering { parser, buffer } => (parser, buffer),
            _ => unreached(),
        };
        let mut i: usize = 0;
        while i < t.len()
            invariant
                i <= t@.len(),
                buffer@ == old(self).buffered() + t@.take(i as int),
            decreases t@.len() - i,
        {
            buffer.push(*vstd::slice::slice_index_get(t, i));
            proof {
                assert(old(self).buffered() + t@.take(i as int + 1) =~= (old(self).buffered()
                    + t@.take(i as int)).push(t@[i as int]));
            }
            i = i + 1;
        }
        proof {
            assert(t@.take(t@.len() as int) =~= t@);
        }
        self.pushed = Ghost(self.pushed@ + t@);
        if buffer.len() >= PRESCAN_BYTES {
            self.start_parsing(parser, buffer);
        } else {
            self.state = BytesParserState::Buffering { parser, buffer };
        }
    }

    /// Insert a pre-decoded text chunk in the middle of the byte stream.
    ///
    /// An empty chunk is a no-op and never forces a decision. A non-empty
    /// chunk while undecided forces an immediate decision on exactly the
    /// bytes buffered so far, and the chunk reaches the sink immediately
    /// after the decoded buffer, preserving arrival order. Once decided, the
    /// chunk bypasses the decoder and goes straight to the sink.
    pub fn process_unicode(&mut self, t: &str)
        requires
            old(self).wf(),
        ensures
            final(self).wf(),
            final(self).hint() == old(self).hint(),
            final(self).base_text() == old(self).base_text(),
            final(self).base_reported() == old(self).base_reported(),
            final(self).report_free() == old(self).report_free(),
            final(self).pushed() == old(self).pushed(),
            t@.len() == 0 ==> *final(self) == *old(self),
            t@.len() > 0 ==> !final(self).byte_pure() && final(self).decided(),
            t@.len() > 0 && old(self).decided() ==> {
                &&& final(self).enc() == old(self).enc()
                &&& final(self).fed() == old(self).fed()
                &&& final(self).sink_received() == old(self).sink_received() + t@
                &&& final(self).sink_reported() == old(self).sink_reported()
            },
            t@.len() > 0 && !old(self).decided() ==> {
                &&& final(self).enc() == spec_detect(old(self).buffered(), old(self).hint())
                &&& final(self).fed() == decision_fed(old(self).buffered())
                &&& final(self).sink_received() == old(self).sink_received() + decision_text(
                    old(self).buffered(),
                    old(self).hint(),
                ) + t@
                &&& final(self).sink_reported() == old(self).sink_reported() + decision_errors(
                    old(self).buffered(),
                    old(self).hint(),
                )
                &&& decoded_prefix(final(self).enc(), Seq::<u8>::empty()) == Seq::<char>::empty()
                &&& decode_errors(final(self).enc(), Seq::<u8>::empty()) == Seq::<Seq<
                    char,
                >>::empty()
            },
    {
        if t.is_empty() {
            return ;
        }
        match &mut self.state {
            BytesParserState::Parsing { decoder } => {
                let parser = decoder.inner_sink_mut();
                parser.process(t);
                self.byte_pure = Ghost(false);
                return ;
            },
            _ => {},
        }
        let mut taken = BytesParserState::Transient;
        core::mem::swap(&mut self.state, &mut taken);
        let (parser, buffer) = match taken {
            BytesParserState::Initial { parser } => (parser, Vec::new()),
            BytesParserState::Buffering { parser, buffer } => (parser, buffer),
            _ => unreached(),
        };
        proof {
            assert(buffer@ == old(self).buffered());
        }
        self.start_parsing(parser, buffer);
        match &mut self.state {
            BytesParserState::Parsing { decoder } => {
                let parser = decoder.inner_sink_mut();
                parser.process(t);
            },
            _ => {
                proof {
                    assert(false);
                }
            },
        }
        self.byte_pure = Ghost(false);
    }

    /// Forward a diagnostic message to whichever stage is active. Errors are
    /// observational: they never change the mode or the buffered bytes.
    pub fn error(&mut self, desc: &str)
        requires
            old(self).wf(),
        ensures
            final(self).wf(),
            final(self).hint() == old(self).hint(),
            final(self).base_text() == old(self).base_text(),
            final(self).base_reported() == old(self).base_reported(),
            final(self).byte_pure() == old(self).byte_pure(),
            !final(self).report_free(),
            final(self).pushed() == old(self).pushed(),
            final(self).decided() == old(self).decided(),
            final(self).buffered() == old(self).buffered(),
            old(self).decided() ==> final(self).enc() == old(self).enc() && final(self).fed()
                == old(self).fed(),
            final(self).sink_received() == old(self).sink_received(),
            final(self).sink_reported() == old(self).sink_reported().push(desc@),
    {
        match &mut self.state {
            BytesParserState::Initial { parser } => parser.error(desc),
            BytesParserState::Buffering { parser, .. } => parser.error(desc),
            BytesParserState::Parsing { decoder } => decoder.error(desc),
            BytesParserState::Transient => unreached(),
        }
        self.report_free = Ghost(false);
    }

    /// Consume the stream and produce the sink's final result. If still
    /// undecided, detection runs on the (possibly short, possibly empty)
    /// buffer, the buffer is decoded, and the decoder is finalized; if
    /// decided, the live decoder is finalized. For a stream driven by bytes
    /// alone, the text the sink ends up with is a function of the
    /// concatenation of all pushed bytes and the hint only — chunk boundaries
    /// cannot affect it; when no diagnostic was injected through `error`, the
    /// same holds of the diagnostics.
    pub fn finish(self) -> (r: Sink::Output)
        requires
            self.wf(),
        ensures
            !self.decided() ==> Sink::result_ok(
                self.sink_received() + byte_stream_text(self.buffered(), self.hint()),
                self.sink_reported() + byte_stream_errors(self.buffered(), self.hint()),
                &r,
            ),
            self.decided() ==> Sink::result_ok(
                self.sink_received() + decoded_tail(self.enc(), self.fed()),
                self.sink_reported() + errors_tail(self.enc(), self.fed()),
                &r,
            ),
            !self.decided() && self.buffered().len() == 0 ==> byte_stream_text(
                self.buffered(),
                self.hint(),
            ) == Seq::<char>::empty() && byte_stream_errors(self.buffered(), self.hint())
                == Seq::<Seq<char>>::empty(),
            self.byte_pure() && !self.decided() ==> self.sink_received() + byte_stream_text(
                self.buffered(),
                self.hint(),
            ) == self.base_text() + byte_stream_text(self.pushed(), self.hint()),
            self.byte_pure() && self.decided() ==> self.sink_received() + decoded_tail(
                self.enc(),
                self.fed(),
            ) == self.base_text() + byte_stream_text(self.pushed(), self.hint()),
            self.byte_pure() && self.report_free() && !self.decided() ==> self.sink_reported()
                + byte_stream_errors(self.buffered(), self.hint()) == self.base_reported()
                + byte_stream_errors(self.pushed(), self.hint()),
            self.byte_pure() && self.report_free() && self.decided() ==> self.sink_reported()
                + errors_tail(self.enc(), self.fed()) == self.base_reported()
                + byte_stream_errors(self.pushed(), self.hint()),
    {
        let BytesParser { state, opts, .. } = self;
        match state {
            BytesParserState::Initial { parser } => finish_undecided(parser, Vec::new(), &opts),
            BytesParserState::Buffering { parser, buffer } => finish_undecided(
                parser,
                buffer,
                &opts,
            ),
            BytesParserState::Parsing { decoder } => {
                let r = decoder.finish();
                proof {
                    if self.byte_pure() {
                        let e = self.enc();
                        let f = self.fed();
                        assert((self.base_text@ + decoded_prefix(e, f)) + decoded_tail(e, f)
                            =~= self.base_text@ + (decoded_prefix(e, f) + decoded_tail(e, f)));
                        if self.report_free() {
                            assert((self.base_reported@ + decode_errors(e, f)) + errors_tail(e, f)
                                =~= self.base_reported@ + (decode_errors(e, f) + errors_tail(
                                e,
                                f,
                            )));
                        }
                    }
                }
                r
            },
            BytesParserState::Transient => unreached(),
        }
    }
}

/// Decode a still-buffered stream at end of input: detect on the buffer,
/// consume the byte-order mark, feed the rest, and finalize.
fn finish_undecided<Sink: TextSink>(parser: XmlParser<Sink>, buffer: Vec<u8>, opts: &BytesOpts) -> (r:
    Sink::Output)
    ensures
        Sink::result_ok(
            parser.received() + byte_stream_text(buffer@, opts.transport_layer_encoding),
            parser.reported() + byte_stream_errors(buffer@, opts.transport_layer_encoding),
            &r,
        ),
        buffer@.len() == 0 ==> byte_stream_text(buffer@, opts.transport_layer_encoding)
            == Seq::<char>::empty() && byte_stream_errors(buffer@, opts.transport_layer_encoding)
            == Seq::<Seq<char>>::empty(),
{
    let ghost hint = opts.transport_layer_encoding;
    let encoding = detect_encoding(buffer.as_slice(), opts);
    let k = bom_length(buffer.as_slice());
    let mut decoder = LossyDecoder::new(encoding, parser);
    let tail = slice_subrange(buffer.as_slice(), k, buffer.len());
    proof {
        assert(tail@ =~= decision_fed(buffer@));
    }
    decoder.process(tail);
    proof {
        assert(Seq::<u8>::empty() + tail@ =~= tail@);
        let f = decision_fed(buffer@);
        assert(decoded_prefix(encoding, f).skip(0) =~= decoded_prefix(encoding, f));
        assert(decode_errors(encoding, f).skip(0) =~= decode_errors(encoding, f));
    }
    let r = decoder.finish();
    proof {
        let f = decision_fed(buffer@);
        assert((parser.received() + decoded_prefix(encoding, f)) + decoded_tail(encoding, f)
            =~= parser.received() + (decoded_prefix(encoding, f) + decoded_tail(encoding, f)));
        assert((parser.reported() + decode_errors(encoding, f)) + errors_tail(encoding, f)
            =~= parser.reported() + (decode_errors(encoding, f) + errors_tail(encoding, f)));
    }
    r
}

} // verus!
