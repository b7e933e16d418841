//! Decoder behaviour: the scenarios of each wire format, and concrete
//! instances of the chunking-invariance and empty-chunk laws.

use llm_repl::decode::{concat_chunks, Decoder, WireFormat};

fn feed_all(d: &mut Decoder, bytes: &[u8]) -> Vec<Vec<u8>> {
    d.feed(&bytes.to_vec())
}

fn collect_chunks(format: WireFormat, reads: &[&[u8]]) -> (Vec<Vec<u8>>, bool, bool) {
    let mut d = Decoder::new(format);
    let mut out: Vec<Vec<u8>> = Vec::new();
    for r in reads {
        out.extend(feed_all(&mut d, r));
    }
    if let Some(t) = d.finish() {
        out.push(t);
    }
    (out, d.is_done(), d.is_failed())
}

#[test]
fn newline_three_reads() {
    let mut d = Decoder::new(WireFormat::NewlineJson);
    let a = feed_all(&mut d, b"{\"response\":\"Hel\"}\n");
    let b = feed_all(&mut d, b"{\"response\":\"lo\",\"done\":false}\n");
    let c = feed_all(&mut d, b"{\"response\":\"!\",\"done\":true}\n");
    assert_eq!(a, vec![b"Hel".to_vec()]);
    assert_eq!(b, vec![b"lo".to_vec()]);
    assert_eq!(c, vec![b"!".to_vec()]);
    assert!(d.is_done());
    assert!(!d.is_failed());
}

#[test]
fn newline_done_flag_ends_stream() {
    let mut d = Decoder::new(WireFormat::NewlineJson);
    let a = feed_all(&mut d, b"{\"response\":\"x\",\"done\":true}\n{\"response\":\"y\"}\n");
    assert_eq!(a, vec![b"x".to_vec()]);
    assert!(d.is_done());
}

#[test]
fn newline_without_done_field_defaults_open() {
    // A line with `done` absent still yields its text, and the stream stays
    // open: absence of the flag means "not finished", not "malformed".
    let mut d = Decoder::new(WireFormat::NewlineJson);
    let a = feed_all(&mut d, b"{\"response\":\"Hel\"}\n");
    assert_eq!(a, vec![b"Hel".to_vec()]);
    assert!(!d.is_done());
}

#[test]
fn newline_malformed_field_voids_whole_line() {
    // A non-string `response` voids the entire line, its `done` flag
    // included: the stream stays open for the next line.
    let mut d = Decoder::new(WireFormat::NewlineJson);
    let a = feed_all(&mut d, b"{\"response\":5,\"done\":true}\n");
    assert!(a.is_empty());
    assert!(!d.is_done());
    let b = feed_all(&mut d, b"{\"response\":\"on\",\"done\":true}\n");
    assert_eq!(b, vec![b"on".to_vec()]);
    assert!(d.is_done());
}

#[test]
fn newline_malformed_line_skipped() {
    let mut d = Decoder::new(WireFormat::NewlineJson);
    let a = feed_all(&mut d, b"garbage\n{\"response\":\"ok\",\"done\":true}\n");
    assert_eq!(a, vec![b"ok".to_vec()]);
    assert!(d.is_done());
}

#[test]
fn newline_empty_chunk_suppressed() {
    let mut d = Decoder::new(WireFormat::NewlineJson);
    let a = feed_all(&mut d, b"{\"response\":\"\",\"done\":false}\n{\"done\":true}\n");
    assert!(a.is_empty());
    assert!(d.is_done());
}

#[test]
fn newline_unicode_escapes() {
    let mut d = Decoder::new(WireFormat::NewlineJson);
    let a = feed_all(&mut d, b"{\"response\":\"\\u00e9 \\ud83d\\ude00\",\"done\":true}\n");
    assert_eq!(a, vec![vec![0xc3, 0xa9, 0x20, 0xf0, 0x9f, 0x98, 0x80]]);
}

#[test]
fn newline_simple_escapes() {
    let mut d = Decoder::new(WireFormat::NewlineJson);
    let a = feed_all(&mut d, b"{\"response\":\"a\\n\\\"b\\\\\",\"done\":true}\n");
    assert_eq!(a, vec![b"a\n\"b\\".to_vec()]);
}

#[test]
fn sse_hi_then_done() {
    let mut d = Decoder::new(WireFormat::Sse);
    let a = feed_all(&mut d, b"data: {\"choices\":[{\"delta\":{\"content\":\"Hi\"}}]}\n\n");
    let b = feed_all(&mut d, b"data: [DONE]\n\n");
    assert_eq!(a, vec![b"Hi".to_vec()]);
    assert!(b.is_empty());
    assert!(d.is_done());
    assert!(!d.is_failed());
}

#[test]
fn sse_event_split_across_reads() {
    let mut d = Decoder::new(WireFormat::Sse);
    let a = feed_all(&mut d, b"data: {\"choices\":[{\"delta\":{\"con");
    let b = feed_all(&mut d, b"tent\":\"Hi\"}}]}\n\n");
    assert!(a.is_empty());
    assert_eq!(b, vec![b"Hi".to_vec()]);
}

#[test]
fn sse_malformed_event_spoils_only_its_block() {
    let mut d = Decoder::new(WireFormat::Sse);
    let a = feed_all(&mut d, b"data: {bad}\n\ndata: {\"choices\":[{\"delta\":{\"content\":\"ok\"}}]}\n\n");
    assert_eq!(a, vec![b"ok".to_vec()]);
    assert!(!d.is_failed());
}

#[test]
fn sse_comment_lines_ignored() {
    let mut d = Decoder::new(WireFormat::Sse);
    let a = feed_all(
        &mut d,
        b": keepalive\ndata: {\"choices\":[{\"delta\":{\"content\":\"x\"}}]}\n\n",
    );
    assert_eq!(a, vec![b"x".to_vec()]);
}

#[test]
fn sse_leftover_gets_final_attempt() {
    let mut d = Decoder::new(WireFormat::Sse);
    let a = feed_all(&mut d, b"data: {\"choices\":[{\"delta\":{\"content\":\"Z\"}}]}");
    assert!(a.is_empty());
    let f = d.finish();
    assert_eq!(f, Some(b"Z".to_vec()));
    assert!(d.is_done());
}

#[test]
fn sse_multiple_choices_concatenated() {
    let mut d = Decoder::new(WireFormat::Sse);
    let a = feed_all(
        &mut d,
        b"data: {\"choices\":[{\"delta\":{\"content\":\"a\"}},{\"delta\":{\"content\":\"b\"}}]}\n\n",
    );
    assert_eq!(a, vec![b"ab".to_vec()]);
}

#[test]
fn fragmented_two_frames() {
    let mut d = Decoder::new(WireFormat::FragmentedArray);
    let a = feed_all(
        &mut d,
        b"[{\"candidates\":[{\"content\":{\"parts\":[{\"text\":\"Hel\"}]}}]}]",
    );
    let b = feed_all(
        &mut d,
        b" [{\"candidates\":[{\"content\":{\"parts\":[{\"text\":\"lo\"}]}}]}]",
    );
    assert_eq!(a, vec![b"Hel".to_vec()]);
    assert_eq!(b, vec![b"lo".to_vec()]);
    assert!(!d.is_failed());
}

#[test]
fn fragmented_frame_split_mid_string() {
    let mut d = Decoder::new(WireFormat::FragmentedArray);
    let a = feed_all(&mut d, b"[{\"candidates\":[{\"content\":{\"parts\":[{\"text\":\"He");
    let b = feed_all(&mut d, b"llo\"}]}}]}]");
    assert!(a.is_empty());
    assert_eq!(b, vec![b"Hello".to_vec()]);
}

#[test]
fn fragmented_terminal_element_without_text_yields_nothing() {
    let mut d = Decoder::new(WireFormat::FragmentedArray);
    let a = feed_all(&mut d, b"[{\"candidates\":[{\"finishReason\":\"STOP\"}]}]");
    assert!(a.is_empty());
    assert!(!d.is_failed());
}

#[test]
fn fragmented_syntax_error_is_terminal() {
    let mut d = Decoder::new(WireFormat::FragmentedArray);
    let a = feed_all(&mut d, b"[5]");
    assert!(a.is_empty());
    assert!(d.is_failed());
    // Once failed, further bytes change nothing.
    let b = feed_all(
        &mut d,
        b"[{\"candidates\":[{\"content\":{\"parts\":[{\"text\":\"x\"}]}}]}]",
    );
    assert!(b.is_empty());
    assert!(d.is_failed());
}

#[test]
fn fragmented_non_array_head_is_terminal() {
    let mut d = Decoder::new(WireFormat::FragmentedArray);
    let a = feed_all(&mut d, b"{\"x\":1}");
    assert!(a.is_empty());
    assert!(d.is_failed());
}

#[test]
fn byte_at_a_time_matches_whole_payload() {
    let payloads: Vec<(&[u8], WireFormat)> = vec![
        (
            b"{\"response\":\"Hel\"}\n{\"response\":\"lo\",\"done\":false}\n{\"response\":\"!\",\"done\":true}\n",
            WireFormat::NewlineJson,
        ),
        (
            b"data: {\"choices\":[{\"delta\":{\"content\":\"Hi\"}}]}\n\ndata: [DONE]\n\n",
            WireFormat::Sse,
        ),
        (
            b"[{\"candidates\":[{\"content\":{\"parts\":[{\"text\":\"a\\\"b\"}]}}]}] [{\"candidates\":[{\"content\":{\"parts\":[{\"text\":\"c\"}]}}]}]",
            WireFormat::FragmentedArray,
        ),
    ];
    for (payload, format) in payloads {
        let (whole, wd, wf) = collect_chunks(format, &[payload]);
        let singles: Vec<&[u8]> = payload.chunks(1).collect();
        let (bytewise, bd, bf) = collect_chunks(format, &singles);
        assert_eq!(whole, bytewise);
        assert_eq!(wd, bd);
        assert_eq!(wf, bf);
    }
}

#[test]
fn every_split_offset_gives_same_chunks() {
    let payload: &[u8] =
        b"{\"response\":\"He\"}\n{\"response\":\"y\",\"done\":false}\nnoise\n{\"done\":true}\n";
    let (reference, _, _) = collect_chunks(WireFormat::NewlineJson, &[payload]);
    for cut in 0..=payload.len() {
        let (split, _, _) = collect_chunks(WireFormat::NewlineJson, &[
            &payload[..cut],
            &payload[cut..],
        ]);
        assert_eq!(reference, split, "differs when cut at {}", cut);
    }
}

#[test]
fn response_text_is_chunk_concatenation() {
    let (chunks, _, _) = collect_chunks(
        WireFormat::NewlineJson,
        &[b"{\"response\":\"Hel\"}\n{\"response\":\"lo\",\"done\":true}\n"],
    );
    assert_eq!(concat_chunks(&chunks), b"Hello".to_vec());
    assert_eq!(concat_chunks(&Vec::new()), Vec::<u8>::new());
}

#[test]
fn no_decoder_yields_empty_chunks() {
    let cases: Vec<(&[u8], WireFormat)> = vec![
        (b"{\"response\":\"\",\"done\":false}\n{\"response\":\"x\",\"done\":true}\n",
            WireFormat::NewlineJson),
        (b"data: {\"choices\":[{\"delta\":{}}]}\n\ndata: [DONE]\n\n", WireFormat::Sse),
        (b"[{\"candidates\":[]}] [{\"candidates\":[{\"content\":{\"parts\":[{\"text\":\"q\"}]}}]}]",
            WireFormat::FragmentedArray),
    ];
    for (payload, format) in cases {
        let (chunks, _, _) = collect_chunks(format, &[payload]);
        for c in &chunks {
            assert!(!c.is_empty());
        }
    }
}
