use completion_simulator::admission::{Admission, AdmissionGate};
use completion_simulator::cache::{cache_key, ResponseCache};
use completion_simulator::error::ServiceError;
use completion_simulator::response::ResponseSimulator;

fn one() -> Vec<ResponseSimulator> {
    vec![ResponseSimulator {
        qa_id: Some(7),
        pertanyaan: "q".to_string(),
        jawaban: "a".to_string(),
        referensi: String::new(),
    }]
}

#[test]
fn hit_within_ttl_is_repeatable() {
    let mut c = ResponseCache::new();
    let k = cache_key("sim:", "responses");
    assert_eq!(k, "sim:responses");
    assert!(c.set_with_ttl(&k, "v1".to_string(), 60, 100));
    assert_eq!(c.get(&k, 100), Some("v1".to_string()));
    assert_eq!(c.get(&k, 130), Some("v1".to_string()));
    assert_eq!(c.get(&k, 159), Some("v1".to_string()));
}

#[test]
fn entry_expires_after_ttl() {
    let mut c = ResponseCache::new();
    let k = "k".to_string();
    assert!(c.set_with_ttl(&k, "v".to_string(), 60, 100));
    assert_eq!(c.get(&k, 160), None);
    assert_eq!(c.get(&k, 1000), None);
    assert_eq!(c.get(&"other".to_string(), 100), None);
}

#[test]
fn rewrite_replaces_value() {
    let mut c = ResponseCache::new();
    let k = "k".to_string();
    assert!(c.set_with_ttl(&k, "old".to_string(), 10, 0));
    assert!(c.set_with_ttl(&"j".to_string(), "other".to_string(), 10, 0));
    assert!(c.set_with_ttl(&k, "new".to_string(), 100, 50));
    assert_eq!(c.get(&k, 60), Some("new".to_string()));
    assert_eq!(c.get(&"j".to_string(), 5), Some("other".to_string()));
}

#[test]
fn fresh_fetch_is_stored_and_returned() {
    let mut c = ResponseCache::new();
    let k = "k".to_string();
    let r = c.complete_fetch(&k, 10, 30, Ok(one()), Some("encoded".to_string()));
    assert_eq!(r, Ok(one()));
    assert_eq!(c.get(&k, 20), Some("encoded".to_string()));
    assert_eq!(c.get(&k, 40), None);
}

#[test]
fn failed_write_still_returns_fresh_value() {
    let mut c = ResponseCache::new();
    let k = "k".to_string();
    let r = c.complete_fetch(&k, 10, 30, Ok(one()), None);
    assert_eq!(r, Ok(one()));
    assert_eq!(c.get(&k, 20), None);
    let r = c.complete_fetch(&k, u64::MAX, 30, Ok(one()), Some("x".to_string()));
    assert_eq!(r, Ok(one()));
    assert_eq!(c.get(&k, 20), None);
    assert!(!c.set_with_ttl(&k, "x".to_string(), 1, u64::MAX));
}

#[test]
fn empty_or_failed_fetch_is_not_stored() {
    let mut c = ResponseCache::new();
    let k = "k".to_string();
    assert_eq!(c.complete_fetch(&k, 0, 30, Ok(Vec::new()), Some("[]".to_string())), Ok(Vec::new()));
    assert_eq!(c.get(&k, 1), None);
    assert_eq!(
        c.complete_fetch(&k, 0, 30, Err(ServiceError::SourceUnavailable), None),
        Err(ServiceError::SourceUnavailable)
    );
    assert_eq!(c.get(&k, 1), None);
}

#[test]
fn gate_admits_at_most_limit() {
    let mut g = AdmissionGate::new(2);
    assert_eq!(g.try_acquire(), Ok(Admission::Admitted));
    assert_eq!(g.try_acquire(), Ok(Admission::Admitted));
    assert_eq!(g.try_acquire(), Ok(Admission::MustWait));
    assert_eq!(g.active_count(), 2);
    g.release();
    assert_eq!(g.active_count(), 1);
    assert_eq!(g.try_acquire(), Ok(Admission::Admitted));
    assert_eq!(g.try_acquire(), Ok(Admission::MustWait));
}

#[test]
fn closed_gate_fails_instead_of_waiting() {
    let mut g = AdmissionGate::new(1);
    assert_eq!(g.try_acquire(), Ok(Admission::Admitted));
    g.close();
    assert!(g.is_shut());
    assert_eq!(g.try_acquire(), Err(ServiceError::AdmissionClosed));
    g.release();
    assert_eq!(g.try_acquire(), Err(ServiceError::AdmissionClosed));
    assert_eq!(g.active_count(), 0);
}

#[test]
fn release_on_idle_gate_is_harmless() {
    let mut g = AdmissionGate::new(0);
    g.release();
    assert_eq!(g.active_count(), 0);
    assert_eq!(g.try_acquire(), Ok(Admission::MustWait));
}
