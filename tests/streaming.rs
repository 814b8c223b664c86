use completion_simulator::stream::{split_into_chunks, ChunkStreamer, Phase, StreamEvent, WINDOW_SIZE};
use completion_simulator::wire::{
    content_chunk, done_event, frame_event, generate_id, usage_chunk, CREATED, FINGERPRINT, MODEL_TAG,
    OBJECT_TAG,
};

fn drain(streamer: &mut ChunkStreamer) -> Vec<StreamEvent> {
    let mut out = Vec::new();
    while let Some(e) = streamer.next_event() {
        out.push(e);
        streamer.on_sent(true);
    }
    out
}

#[test]
fn scenario_question_answer_text_in_windows_of_ten() {
    let text = "Pertanyaan: X\n\nJawaban: Y";
    let chunks = split_into_chunks(text);
    assert_eq!(WINDOW_SIZE, 10);
    assert_eq!(chunks.len(), 3);
    for c in &chunks {
        assert!(c.len() <= 10);
    }
    assert_eq!(chunks.concat(), text);
    let mut streamer = ChunkStreamer::new(chunks.len());
    let events = drain(&mut streamer);
    assert_eq!(
        events,
        vec![
            StreamEvent::Content(0),
            StreamEvent::Content(1),
            StreamEvent::Content(2),
            StreamEvent::Usage,
            StreamEvent::Sentinel
        ]
    );
    let last = usage_chunk(generate_id());
    assert!(last.usage.as_ref().unwrap().total_tokens > 0);
    assert!(last.choices.is_empty());
    assert_eq!(done_event(), "data: [DONE]\n\n");
}

#[test]
fn chunk_count_is_ceiling_of_length_over_window() {
    for (len, expected) in [(0usize, 0usize), (1, 1), (9, 1), (10, 1), (11, 2), (20, 2), (21, 3), (100, 10)] {
        let text = "a".repeat(len);
        let chunks = split_into_chunks(&text);
        assert_eq!(chunks.len(), expected, "length {}", len);
        assert_eq!(chunks.concat(), text);
        let mut streamer = ChunkStreamer::new(chunks.len());
        let events = drain(&mut streamer);
        assert_eq!(events.len(), expected + 2);
        for (i, e) in events.iter().take(expected).enumerate() {
            assert_eq!(*e, StreamEvent::Content(i));
        }
        assert_eq!(events[expected], StreamEvent::Usage);
        assert_eq!(events[expected + 1], StreamEvent::Sentinel);
    }
}

#[test]
fn window_may_cut_a_multibyte_character() {
    // "é" is two bytes: the fifth one straddles the first window boundary.
    let text = "abcdefghié";
    let chunks = split_into_chunks(text);
    assert_eq!(chunks.len(), 2);
    assert_eq!(chunks[0], "abcdefghi\u{FFFD}");
    assert_eq!(chunks[1], "\u{FFFD}");
}

#[test]
fn disconnect_closes_stream_without_usage_or_sentinel() {
    let mut streamer = ChunkStreamer::new(3);
    assert_eq!(streamer.phase(), Phase::Streaming);
    assert_eq!(streamer.next_event(), Some(StreamEvent::Content(0)));
    streamer.on_sent(true);
    assert_eq!(streamer.next_event(), Some(StreamEvent::Content(1)));
    streamer.on_sent(false);
    assert_eq!(streamer.phase(), Phase::Closed);
    assert_eq!(streamer.next_event(), None);
}

#[test]
fn phases_follow_the_stream() {
    let mut streamer = ChunkStreamer::new(1);
    assert_eq!(streamer.phase(), Phase::Streaming);
    streamer.on_sent(true);
    assert_eq!(streamer.phase(), Phase::Finalizing);
    streamer.on_sent(true);
    assert_eq!(streamer.phase(), Phase::Done);
    streamer.on_sent(true);
    assert_eq!(streamer.phase(), Phase::Closed);
    assert_eq!(streamer.next_event(), None);
}

#[test]
fn empty_text_streams_only_usage_and_sentinel() {
    let chunks = split_into_chunks("");
    assert!(chunks.is_empty());
    let mut streamer = ChunkStreamer::new(0);
    assert_eq!(drain(&mut streamer), vec![StreamEvent::Usage, StreamEvent::Sentinel]);
}

#[test]
fn content_chunk_carries_header_and_delta() {
    let c = content_chunk("chatcmpl-Aiabc".to_string(), "Halo".to_string());
    assert_eq!(c.id, "chatcmpl-Aiabc");
    assert_eq!(c.object, "chat.completion.chunk");
    assert_eq!(c.object, OBJECT_TAG);
    assert_eq!(c.created, 1735278816);
    assert_eq!(c.created, CREATED);
    assert_eq!(c.model, MODEL_TAG);
    assert_eq!(c.system_fingerprint, FINGERPRINT);
    assert_eq!(c.choices.len(), 1);
    assert_eq!(c.choices[0].index, 0);
    assert_eq!(c.choices[0].delta.content, "Halo");
    assert!(c.choices[0].logprobs.is_none());
    assert!(c.choices[0].finish_reason.is_none());
    assert!(c.usage.is_none());
}

#[test]
fn usage_chunk_has_placeholder_counts() {
    let c = usage_chunk("x".to_string());
    let u = c.usage.unwrap();
    assert_eq!(u.prompt_tokens, 20);
    assert_eq!(u.completion_tokens, 30);
    assert_eq!(u.total_tokens, 50);
    assert_eq!(c.id, "x");
}

#[test]
fn frame_wraps_payload() {
    assert_eq!(frame_event("{\"a\":1}"), "data: {\"a\":1}\n\n");
    assert_eq!(frame_event(""), "data: \n\n");
}

#[test]
fn generated_ids_have_prefix_and_random_suffix() {
    let a = generate_id();
    let b = generate_id();
    assert_eq!(a.len(), 41);
    assert!(a.starts_with("chatcmpl-Ai"));
    assert!(a[11..].chars().all(|c| c.is_ascii_alphanumeric()));
    assert_ne!(a, b);
}
