use db_advisor::stream::StreamAssembler;
use db_advisor::stream::line_content_bytes;
use db_advisor::stream::needs_single_shot_retry;

#[test]
fn one_chunk_assembles_the_content() {
    let payload = "data: {\"choices\":[{\"delta\":{\"content\":\"h\\u00e9llo\"}}]}\n\ndata: [DONE]\n"
        .as_bytes();
    let mut a = StreamAssembler::new();
    a.feed(payload);
    assert_eq!(a.finish(), "héllo".as_bytes().to_vec());
}

#[test]
fn every_split_point_assembles_identically() {
    let payload = "data: {\"choices\":[{\"delta\":{\"content\":\"héllo\"}}]}\ndata: [DONE]\n"
        .as_bytes();
    let mut whole = StreamAssembler::new();
    whole.feed(payload);
    let expected = whole.finish();
    assert_eq!(expected, "héllo".as_bytes().to_vec());
    for cut in 0..=payload.len() {
        let mut split = StreamAssembler::new();
        split.feed(&payload[..cut]);
        split.feed(&payload[cut..]);
        assert_eq!(split.finish(), expected, "split at byte {} differs", cut);
    }
}

#[test]
fn three_way_split_mid_prefix_and_mid_character() {
    let payload = "data: {\"choices\":[{\"delta\":{\"content\":\"héllo\"}}]}\n".as_bytes();
    // the second cut lands inside the two-byte character é
    let e_pos = payload.windows(2).position(|w| w == "é".as_bytes()).unwrap();
    let mut a = StreamAssembler::new();
    a.feed(&payload[..3]);
    a.feed(&payload[3..e_pos + 1]);
    a.feed(&payload[e_pos + 1..]);
    assert_eq!(a.finish(), "héllo".as_bytes().to_vec());
}

#[test]
fn terminator_only_stream_yields_no_content_and_asks_for_retry() {
    let mut a = StreamAssembler::new();
    a.feed(b"data: [DONE]\n");
    a.feed(b"\n");
    a.feed(b"data: [DONE]\n");
    let content = a.finish();
    assert_eq!(content, Vec::<u8>::new());
    assert!(needs_single_shot_retry(&content));
}

#[test]
fn content_disables_the_retry() {
    let mut a = StreamAssembler::new();
    a.feed(b"data: {\"choices\":[{\"delta\":{\"content\":\"x\"}}]}\n");
    let content = a.finish();
    assert_eq!(content, b"x".to_vec());
    assert!(!needs_single_shot_retry(&content));
}

#[test]
fn malformed_events_are_swallowed_and_the_stream_continues() {
    let mut a = StreamAssembler::new();
    a.feed(b"data: {broken\n");
    a.feed(b"noise line\n");
    a.feed(b"data: {\"choices\":[{\"delta\":{\"content\":\"ok\"}}]}\n");
    assert_eq!(a.finish(), b"ok".to_vec());
}

#[test]
fn delta_is_preferred_over_message() {
    let mut a = StreamAssembler::new();
    a.feed(
        b"data: {\"choices\":[{\"delta\":{\"content\":\"d\"},\"message\":{\"content\":\"m\"}}]}\n",
    );
    assert_eq!(a.finish(), b"d".to_vec());
}

#[test]
fn full_message_is_used_when_no_delta_is_present() {
    let mut a = StreamAssembler::new();
    a.feed(b"data: {\"choices\":[{\"message\":{\"content\":\"m\"}}]}\n");
    assert_eq!(a.finish(), b"m".to_vec());
}

#[test]
fn a_choice_of_the_wrong_shape_fails_its_whole_event() {
    let mut a = StreamAssembler::new();
    a.feed(b"data: {\"choices\":[{\"delta\":{\"content\":5}}]}\n");
    a.feed(b"data: {\"choices\":[{\"delta\":{\"content\":\"kept\"}}]}\n");
    assert_eq!(a.finish(), b"kept".to_vec());
}

#[test]
fn residual_line_without_newline_is_flushed_at_the_end() {
    let mut a = StreamAssembler::new();
    a.feed(b"data: {\"choices\":[{\"delta\":{\"content\":\"tail\"}}]}");
    assert_eq!(a.finish(), b"tail".to_vec());
}

#[test]
fn crlf_line_endings_are_tolerated() {
    let mut a = StreamAssembler::new();
    a.feed(b"data: {\"choices\":[{\"delta\":{\"content\":\"ab\"}}]}\r\ndata: [DONE]\r\n");
    assert_eq!(a.finish(), b"ab".to_vec());
}

#[test]
fn fragments_concatenate_in_arrival_order() {
    let mut a = StreamAssembler::new();
    a.feed(b"data: {\"choices\":[{\"delta\":{\"content\":\"foo\"}}]}\n");
    a.feed(b"data: {\"choices\":[{\"delta\":{\"content\":\"bar\"}}]}\n");
    assert_eq!(a.finish(), b"foobar".to_vec());
}

#[test]
fn line_decoding_is_a_single_swallowing_boundary() {
    // the per-line policy in isolation: content, noise, terminator, malformed
    assert_eq!(
        line_content_bytes(b"data: {\"choices\":[{\"delta\":{\"content\":\"x\"}}]}"),
        b"x".to_vec()
    );
    assert_eq!(line_content_bytes(b"  data: [DONE]  "), Vec::<u8>::new());
    assert_eq!(line_content_bytes(b""), Vec::<u8>::new());
    assert_eq!(line_content_bytes(b"event: ping"), Vec::<u8>::new());
    assert_eq!(line_content_bytes(b"data: "), Vec::<u8>::new());
    assert_eq!(line_content_bytes(b"data: {not json"), Vec::<u8>::new());
    assert_eq!(line_content_bytes(b"data: {\"choices\":\"no\"}"), Vec::<u8>::new());
}

#[test]
fn multiple_choices_contribute_in_order() {
    let line = b"data: {\"choices\":[{\"delta\":{\"content\":\"a\"}},{\"message\":{\"content\":\"b\"}}]}";
    assert_eq!(line_content_bytes(line), b"ab".to_vec());
}

#[test]
fn null_delta_falls_back_to_the_message() {
    let line = b"data: {\"choices\":[{\"delta\":null,\"message\":{\"content\":\"m\"}}]}";
    assert_eq!(line_content_bytes(line), b"m".to_vec());
}
