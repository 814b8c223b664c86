use completion_simulator::config::{parse_source_mode, SourceMode};
use completion_simulator::error::{ServiceError, TransportError};
use completion_simulator::response::{
    format_response_from_db, has_markdown_extension, respond_from_candidates, response_at,
    select_random_markdown, select_random_response_from_db, unescape, ResponseSimulator,
};

fn record(q: &str, a: &str, r: &str) -> ResponseSimulator {
    ResponseSimulator {
        qa_id: None,
        pertanyaan: q.to_string(),
        jawaban: a.to_string(),
        referensi: r.to_string(),
    }
}

#[test]
fn selection_is_close_to_uniform() {
    let candidates = vec![record("a", "1", ""), record("b", "2", ""), record("c", "3", ""), record("d", "4", "")];
    let trials = 40_000;
    let mut counts = [0usize; 4];
    for _ in 0..trials {
        let picked = select_random_response_from_db(&candidates).unwrap();
        let i = candidates.iter().position(|c| c == picked).unwrap();
        counts[i] += 1;
    }
    for c in counts {
        let share = c as f64 / trials as f64;
        assert!((share - 0.25).abs() < 0.02, "share {}", share);
    }
}

#[test]
fn empty_candidate_set_is_refused() {
    let none: Vec<ResponseSimulator> = Vec::new();
    assert_eq!(select_random_response_from_db(&none), Err(ServiceError::EmptyResultSet));
    let r = respond_from_candidates(&Ok(none));
    assert_eq!(r, Err(ServiceError::EmptyResultSet));
    assert_eq!(r.unwrap_err().to_transport(), TransportError::FetchFailed);
}

#[test]
fn fetch_failure_passes_through() {
    let r = respond_from_candidates(&Err(ServiceError::SourceUnavailable));
    assert_eq!(r, Err(ServiceError::SourceUnavailable));
    assert_eq!(ServiceError::SourceUnavailable.to_transport(), TransportError::FetchFailed);
}

#[test]
fn single_candidate_is_always_rendered() {
    let r = respond_from_candidates(&Ok(vec![record("Apa?", "Ini.", "")])).unwrap();
    assert_eq!(r, "**Pertanyaan:**\nApa?\n\n**Jawaban:**\nIni.");
}

#[test]
fn response_at_index() {
    let c = vec![record("a", "1", ""), record("b", "2", "")];
    assert_eq!(response_at(&c, 1).unwrap().pertanyaan, "b");
    assert_eq!(response_at(&c, 2), Err(ServiceError::EmptyResultSet));
}

#[test]
fn format_with_references() {
    let r = record("Q", "A", "R1");
    assert_eq!(
        format_response_from_db(&r),
        "**Pertanyaan:**\nQ\n\n**Jawaban:**\nA\n\n**Referensi:**\nR1"
    );
}

#[test]
fn format_without_references() {
    let r = record("Q", "A", "");
    assert_eq!(format_response_from_db(&r), "**Pertanyaan:**\nQ\n\n**Jawaban:**\nA");
}

#[test]
fn format_turns_escaped_newlines_into_line_breaks() {
    let r = record("line1\\nline2", "x\\\\ny", "");
    assert_eq!(format_response_from_db(&r), "**Pertanyaan:**\nline1\nline2\n\n**Jawaban:**\nx\\\ny");
    assert_eq!(unescape("a\\nb\\n"), "a\nb\n");
    assert_eq!(unescape("\\"), "\\");
    assert_eq!(unescape(""), "");
}

#[test]
fn markdown_names() {
    assert!(has_markdown_extension("a.md"));
    assert!(has_markdown_extension("x.y.md"));
    assert!(!has_markdown_extension(".md"));
    assert!(!has_markdown_extension("a.MD"));
    assert!(!has_markdown_extension("notes.txt"));
    assert!(!has_markdown_extension("md"));
}

#[test]
fn markdown_selection() {
    let names: Vec<String> = vec!["a.txt".to_string(), "b.md".to_string(), "c".to_string()];
    for _ in 0..20 {
        assert_eq!(select_random_markdown(&names), Ok(1));
    }
    let none: Vec<String> = vec!["a.txt".to_string()];
    assert_eq!(select_random_markdown(&none), Err(ServiceError::EmptyResultSet));
}

#[test]
fn source_modes() {
    assert_eq!(parse_source_mode("file"), Ok(SourceMode::File));
    assert_eq!(parse_source_mode("database"), Ok(SourceMode::Database));
    assert_eq!(parse_source_mode("redis"), Err(ServiceError::InvalidSourceMode));
    assert_eq!(parse_source_mode(""), Err(ServiceError::InvalidSourceMode));
    assert_eq!(ServiceError::InvalidSourceMode.to_transport(), TransportError::BadConfiguration);
    assert_eq!(ServiceError::ConsumerDisconnected.to_transport(), TransportError::Silent);
    assert_eq!(ServiceError::AdmissionClosed.to_transport(), TransportError::FetchFailed);
}
