use xml5ever::decode::EncodingId;
use xml5ever::driver::detect_encoding;
use xml5ever::driver::parse_document;
use xml5ever::driver::BytesOpts;
use xml5ever::driver::XmlParseOpts;
use xml5ever::driver::PRESCAN_BYTES;
use xml5ever::sink::StringSink;

fn bytes_parser(hint: Option<EncodingId>) -> xml5ever::driver::BytesParser<StringSink> {
    parse_document(StringSink::new(), XmlParseOpts::default()).from_bytes(BytesOpts {
        transport_layer_encoding: hint,
    })
}

#[test]
fn utf8_bom_is_consumed() {
    let mut p = bytes_parser(None);
    p.process(&[0xEF, 0xBB, 0xBF, 0x3C, 0x74, 0x3E]);
    let out = p.finish();
    assert_eq!(out.text, "<t>");
    assert!(out.errors.is_empty());
}

#[test]
fn utf8_bom_overrides_hint() {
    let opts = BytesOpts {
        transport_layer_encoding: Some(EncodingId::Utf16Be),
    };
    let chosen = detect_encoding(&[0xEF, 0xBB, 0xBF, 0x3C], &opts);
    assert_eq!(chosen, EncodingId::Utf8);
    let mut p = bytes_parser(Some(EncodingId::Utf16Be));
    p.process(&[0xEF, 0xBB, 0xBF, 0x3C, 0x74, 0x3E]);
    let out = p.finish();
    assert_eq!(out.text, "<t>");
}

#[test]
fn utf16be_bom_is_used() {
    let chosen = detect_encoding(&[0xFE, 0xFF, 0x00], &BytesOpts::default());
    assert_eq!(chosen, EncodingId::Utf16Be);
    let mut p = bytes_parser(Some(EncodingId::Windows1252));
    p.process(&[0xFE, 0xFF, 0x00, 0x3C, 0x00, 0x74, 0x00, 0x3E]);
    let out = p.finish();
    assert_eq!(out.text, "<t>");
}

#[test]
fn utf16le_bom_is_used() {
    let chosen = detect_encoding(&[0xFF, 0xFE, 0x3C], &BytesOpts::default());
    assert_eq!(chosen, EncodingId::Utf16Le);
    let mut p = bytes_parser(None);
    p.process(&[0xFF, 0xFE, 0x3C, 0x00, 0x74, 0x00, 0x3E, 0x00]);
    let out = p.finish();
    assert_eq!(out.text, "<t>");
}

#[test]
fn hint_is_used_without_bom() {
    let opts = BytesOpts {
        transport_layer_encoding: Some(EncodingId::Utf16Le),
    };
    assert_eq!(detect_encoding(&[0x3C, 0x00, 0x74], &opts), EncodingId::Utf16Le);
    let mut p = bytes_parser(Some(EncodingId::Utf16Le));
    p.process(&[0x3C, 0x00, 0x74, 0x00, 0x3E, 0x00]);
    let out = p.finish();
    assert_eq!(out.text, "<t>");
}

#[test]
fn default_is_utf8_without_bom_or_hint() {
    assert_eq!(detect_encoding(&[0x3C, 0x74, 0x3E], &BytesOpts::default()), EncodingId::Utf8);
    let mut p = bytes_parser(None);
    p.process(&[0x3C, 0x74, 0x3E]);
    let out = p.finish();
    assert_eq!(out.text, "<t>");
    assert!(out.errors.is_empty());
}

#[test]
fn windows1252_hint_decodes_high_bytes() {
    let mut p = bytes_parser(Some(EncodingId::Windows1252));
    p.process(&[0x3C, 0xE9, 0x3E]);
    let out = p.finish();
    assert_eq!(out.text, "<\u{e9}>");
}

#[test]
fn latin1_hint_maps_bytes_to_code_points() {
    let mut p = bytes_parser(Some(EncodingId::Iso8859_1));
    p.process(&[0x3C, 0xE9, 0xFF]);
    let out = p.finish();
    assert_eq!(out.text, "<\u{e9}\u{ff}");
    assert!(out.errors.is_empty());
}

#[test]
fn windows1251_hint_decodes_cyrillic() {
    let mut p = bytes_parser(Some(EncodingId::Windows1251));
    p.process(&[0xC0, 0xE1, 0x21]);
    let out = p.finish();
    assert_eq!(out.text, "\u{410}\u{431}!");
    assert!(out.errors.is_empty());
}

#[test]
fn koi8r_hint_decodes_cyrillic() {
    let mut p = bytes_parser(Some(EncodingId::Koi8R));
    p.process(&[0xF7, 0xC5, 0x21]);
    let out = p.finish();
    assert_eq!(out.text, "\u{412}\u{435}!");
    assert!(out.errors.is_empty());
}

#[test]
fn detection_on_empty_prefix_uses_hint_then_default() {
    assert_eq!(detect_encoding(&[], &BytesOpts::default()), EncodingId::Utf8);
    let opts = BytesOpts {
        transport_layer_encoding: Some(EncodingId::Windows1252),
    };
    assert_eq!(detect_encoding(&[], &opts), EncodingId::Windows1252);
}

#[test]
fn empty_stream_finishes_empty() {
    let p = bytes_parser(None);
    let out = p.finish();
    assert_eq!(out.text, "");
    assert!(out.errors.is_empty());
}

#[test]
fn short_stream_below_prescan_still_finishes() {
    assert!(1 < PRESCAN_BYTES);
    let mut p = bytes_parser(None);
    p.process(&[0x3C]);
    assert!(!p.is_decided());
    let out = p.finish();
    assert_eq!(out.text, "<");
    assert!(out.errors.is_empty());
}

#[test]
fn empty_text_injection_never_decides() {
    let mut p = bytes_parser(None);
    p.process_unicode("");
    assert!(!p.is_decided());
    p.process(&[0x3C]);
    p.process_unicode("");
    assert!(!p.is_decided());
    p.process(&[0x74, 0x3E]);
    assert!(p.is_decided());
    p.process_unicode("");
    let out = p.finish();
    assert_eq!(out.text, "<t>");
}

#[test]
fn text_injection_while_undecided_forces_decision() {
    let mut p = bytes_parser(None);
    p.process(&[0x3C]);
    assert!(!p.is_decided());
    p.process_unicode("X");
    assert!(p.is_decided());
    let out = p.finish();
    assert_eq!(out.text, "<X");
}

#[test]
fn text_injection_on_fresh_stream_decides() {
    let mut p = bytes_parser(None);
    p.process_unicode("hello");
    assert!(p.is_decided());
    let out = p.finish();
    assert_eq!(out.text, "hello");
}

#[test]
fn text_injection_after_decision_bypasses_decoder() {
    let mut p = bytes_parser(None);
    p.process(&[0x3C, 0x74, 0x3E]);
    assert!(p.is_decided());
    p.process_unicode("X");
    p.process(&[0x21]);
    let out = p.finish();
    assert_eq!(out.text, "<t>X!");
}

#[test]
fn chunk_boundaries_do_not_change_output() {
    let input: Vec<u8> = vec![0xEF, 0xBB, 0xBF, 0x3C, 0x74, 0xC3, 0xA9, 0x3E, 0xE2, 0x82, 0xAC];
    let mut whole = bytes_parser(None);
    whole.process(&input);
    let expected = whole.finish().text;
    for cut in 0..=input.len() {
        let mut p = bytes_parser(None);
        p.process(&input[..cut]);
        p.process(&input[cut..]);
        assert_eq!(p.finish().text, expected);
    }
    let mut one_by_one = bytes_parser(None);
    for b in &input {
        one_by_one.process(&[*b]);
    }
    assert_eq!(one_by_one.finish().text, expected);
}

#[test]
fn utf16_lone_lead_surrogate_split_across_chunks() {
    let mut p = bytes_parser(Some(EncodingId::Utf16Be));
    p.process(&[0xD8, 0x00, 0x00]);
    p.process(&[0x41]);
    let out = p.finish();
    assert_eq!(out.text, "\u{fffd}A");
    assert_eq!(out.errors.len(), 1);
}

#[test]
fn utf16_bom_then_surrogate_split_across_chunks() {
    let mut p = bytes_parser(None);
    p.process(&[0xFE, 0xFF, 0xD8, 0x00, 0x00]);
    p.process(&[0x41]);
    let out = p.finish();
    assert_eq!(out.text, "\u{fffd}A");
    assert_eq!(out.errors.len(), 1);
}

#[test]
fn utf16_chunk_boundaries_do_not_change_output() {
    // A lone lead surrogate, a supplementary-plane pair, and a lone trailing byte.
    let input: Vec<u8> = vec![
        0xFE, 0xFF, 0xD8, 0x00, 0x00, 0x41, 0xD8, 0x3D, 0xDE, 0x00, 0x00, 0x3C, 0x00,
    ];
    let mut whole = bytes_parser(None);
    whole.process(&input);
    let whole = whole.finish();
    for cut in 0..=input.len() {
        let mut p = bytes_parser(None);
        p.process(&input[..cut]);
        p.process(&input[cut..]);
        let out = p.finish();
        assert_eq!(out.text, whole.text);
        assert_eq!(out.errors.len(), whole.errors.len());
    }
    let mut one_by_one = bytes_parser(None);
    for b in &input {
        one_by_one.process(&[*b]);
    }
    let out = one_by_one.finish();
    assert_eq!(out.text, whole.text);
    assert_eq!(out.errors.len(), whole.errors.len());
}

#[test]
fn utf16_odd_chunks_reassemble() {
    let mut p = bytes_parser(Some(EncodingId::Utf16Be));
    p.process(&[0x00]);
    p.process(&[0x3C, 0x00]);
    p.process(&[0x74]);
    let out = p.finish();
    assert_eq!(out.text, "<t");
    assert!(out.errors.is_empty());
}

#[test]
fn utf16_trailing_odd_byte_is_an_incomplete_sequence() {
    let mut p = bytes_parser(Some(EncodingId::Utf16Le));
    p.process(&[0x3C, 0x00, 0x74]);
    let out = p.finish();
    assert_eq!(out.text, "<\u{fffd}");
    assert_eq!(out.errors.len(), 1);
}

#[test]
fn multibyte_sequence_split_across_chunks() {
    let mut p = bytes_parser(None);
    p.process(&[0x3C, 0x74, 0xE2]);
    p.process(&[0x82, 0xAC]);
    let out = p.finish();
    assert_eq!(out.text, "<t\u{20ac}");
    assert!(out.errors.is_empty());
}

#[test]
fn malformed_byte_is_replaced_and_reported() {
    let mut p = bytes_parser(None);
    p.process(&[0x3C, 0xFF, 0x3E]);
    let out = p.finish();
    assert_eq!(out.text, "<\u{fffd}>");
    assert_eq!(out.errors.len(), 1);
}

#[test]
fn incomplete_trailing_sequence_is_replaced_at_finish() {
    let mut p = bytes_parser(None);
    p.process(&[0x3C, 0x74, 0x3E, 0xE2, 0x82]);
    let out = p.finish();
    assert_eq!(out.text, "<t>\u{fffd}");
    assert_eq!(out.errors.len(), 1);
}

#[test]
fn report_error_reaches_sink_in_any_mode() {
    let mut p = bytes_parser(None);
    p.error("before any bytes");
    p.process(&[0x3C]);
    p.error("while buffering");
    p.process(&[0x74, 0x3E]);
    p.error("after the decision");
    let out = p.finish();
    assert_eq!(out.text, "<t>");
    assert_eq!(
        out.errors,
        vec![
            "before any bytes".to_string(),
            "while buffering".to_string(),
            "after the decision".to_string()
        ]
    );
}

#[test]
fn str_parser_reads_the_sink_mid_stream() {
    let mut p = bytes_parser(None);
    p.process(&[0x3C, 0x74, 0x3E]);
    assert_eq!(p.str_parser().sink.text, "<t>");
    p.str_parser_mut().sink.text.push('!');
    let out = p.finish();
    assert_eq!(out.text, "<t>!");
}

#[test]
fn from_utf8_decodes_lossily() {
    let mut d = parse_document(StringSink::new(), XmlParseOpts::default()).from_utf8();
    d.process(b"<title>Test");
    let out = d.finish();
    assert_eq!(out.text, "<title>Test");
    assert!(out.errors.is_empty());

    let mut d = parse_document(StringSink::new(), XmlParseOpts::default()).from_utf8();
    d.process(&[0x61, 0xFF]);
    d.error("driver-level diagnostic");
    let out = d.finish();
    assert_eq!(out.text, "a\u{fffd}");
    assert_eq!(out.errors.len(), 2);
    assert_eq!(out.errors[1], "driver-level diagnostic");
}

#[test]
fn inner_sink_accessors_reach_the_parser() {
    let mut d = parse_document(StringSink::new(), XmlParseOpts::default()).from_utf8();
    d.process(b"ab");
    assert_eq!(d.inner_sink().sink.text, "ab");
    d.inner_sink_mut().sink.text.push('c');
    let out = d.finish();
    assert_eq!(out.text, "abc");
}
