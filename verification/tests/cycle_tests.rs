use autogramthis::cycle::CycleDetector;

#[test]
fn test_detector_reports_period_of_synthetic_cycle() {
    // a stream of states with period three: signatures 1,2,3 repeat forever
    let mut det = CycleDetector::new(100);
    assert!(!det.observe("1".to_string(), "A".to_string()));
    assert!(!det.observe("2".to_string(), "B".to_string()));
    assert!(!det.observe("3".to_string(), "C".to_string()));
    // first repeat: recording starts with the current sentence
    assert!(!det.observe("1".to_string(), "A".to_string()));
    assert!(det.recording);
    assert!(!det.observe("2".to_string(), "B".to_string()));
    assert!(!det.observe("3".to_string(), "C".to_string()));
    // the next repeat closes the cycle; the recorded sequence is one period
    assert!(det.observe("1".to_string(), "A".to_string()));
    assert_eq!(det.recorded, vec!["A".to_string(), "B".to_string(), "C".to_string()]);
}

#[test]
fn test_detector_completes_only_on_recorded_sentence() {
    let mut det = CycleDetector::new(100);
    assert!(!det.observe("1".to_string(), "A".to_string()));
    assert!(!det.observe("1".to_string(), "B".to_string()));
    assert!(det.recording);
    // "C" was never recorded, so nothing completes yet
    assert!(!det.observe("9".to_string(), "C".to_string()));
    assert!(det.observe("9".to_string(), "B".to_string()));
}

#[test]
fn test_detector_cache_eviction_forgets_and_rediscovers() {
    // with a cache bounded at two signatures, the third insertion clears the
    // cache, so an earlier signature is forgotten rather than detected
    let mut det = CycleDetector::new(2);
    assert!(!det.observe("1".to_string(), "A".to_string()));
    assert!(!det.observe("2".to_string(), "B".to_string()));
    assert!(!det.observe("3".to_string(), "C".to_string()));
    assert_eq!(det.signatures.len(), 0);
    assert!(!det.observe("1".to_string(), "A".to_string()));
    assert!(!det.recording);
    // the cycle is found again once the cache holds the signature
    assert!(!det.observe("2".to_string(), "B".to_string()));
    assert!(!det.observe("1".to_string(), "A".to_string()));
    assert!(det.recording);
}
