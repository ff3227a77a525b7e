use resumable_download::progress::Progress;
use resumable_download::registry::{cancel_download, release_completed, SessionRegistry};
use resumable_download::DownloadError;

#[test]
fn new_table_is_empty() {
    let reg = SessionRegistry::new();
    assert!(!reg.is_registered("a"));
    assert!(!reg.is_registered(""));
}

#[test]
fn registered_download_is_found() {
    let mut reg = SessionRegistry::new();
    let token = reg.register("a".to_string());
    assert!(reg.is_registered("a"));
    assert!(!reg.is_registered("b"));
    assert!(!token.is_cancelled());
}

#[test]
fn cancel_signals_the_handle_and_removes_it() {
    let mut reg = SessionRegistry::new();
    let token = reg.register("a".to_string());
    let other = reg.register("b".to_string());
    assert!(reg.cancel("a"));
    assert!(token.is_cancelled());
    assert!(!other.is_cancelled());
    assert!(!reg.is_registered("a"));
    assert!(reg.is_registered("b"));
}

#[test]
fn cancel_of_an_unknown_id_does_nothing() {
    let mut reg = SessionRegistry::new();
    assert!(!reg.cancel("nobody"));
    let token = reg.register("a".to_string());
    assert!(!reg.cancel("nobody"));
    assert!(!reg.cancel(""));
    assert!(reg.is_registered("a"));
    assert!(!token.is_cancelled());
}

#[test]
fn cancel_twice_is_cancel_once() {
    let mut reg = SessionRegistry::new();
    let token = reg.register("a".to_string());
    let other = reg.register("b".to_string());
    assert!(reg.cancel("a"));
    assert!(!reg.cancel("a"));
    assert!(!reg.cancel("a"));
    assert!(token.is_cancelled());
    assert!(!other.is_cancelled());
    assert!(!reg.is_registered("a"));
    assert!(reg.is_registered("b"));
}

#[test]
fn register_again_replaces_the_handle() {
    let mut reg = SessionRegistry::new();
    let first = reg.register("a".to_string());
    let second = reg.register("a".to_string());
    assert!(first != second);
    assert!(reg.is_registered("a"));
    assert!(reg.cancel("a"));
    assert!(second.is_cancelled());
    assert!(!first.is_cancelled());
    assert!(!reg.is_registered("a"));
    assert!(!reg.cancel("a"));
}

#[test]
fn take_hands_the_stored_handle_out() {
    let mut reg = SessionRegistry::new();
    let token = reg.register("a".to_string());
    let taken = reg.take("a").unwrap();
    assert!(taken == token);
    assert!(!taken.is_cancelled());
    assert!(!reg.is_registered("a"));
    assert!(reg.take("a").is_none());
    assert!(reg.take("b").is_none());
    taken.cancel();
    assert!(token.is_cancelled());
}

#[test]
fn cancel_download_pauses_a_running_download() {
    let mut reg = SessionRegistry::new();
    let token = reg.register("job-1".to_string());
    let other = reg.register("job-2".to_string());
    cancel_download(&mut reg, "job-1");
    assert!(token.is_cancelled());
    assert!(!reg.is_registered("job-1"));
    cancel_download(&mut reg, "job-1");
    cancel_download(&mut reg, "job-3");
    assert!(reg.is_registered("job-2"));
    assert!(!other.is_cancelled());
}

#[test]
fn registration_after_cancel_starts_clean() {
    let mut reg = SessionRegistry::new();
    let first = reg.register("a".to_string());
    assert!(reg.cancel("a"));
    let second = reg.register("a".to_string());
    assert!(first.is_cancelled());
    assert!(!second.is_cancelled());
    assert!(reg.is_registered("a"));
}

#[test]
fn completed_round_lets_go_of_the_handle() {
    let mut reg = SessionRegistry::new();
    let token = reg.register("a".to_string());
    let other = reg.register("b".to_string());
    let done = Ok(Progress { transferred: 1000, emit: false, completed: true });
    assert!(release_completed(&mut reg, "a", &done));
    assert!(!reg.is_registered("a"));
    assert!(reg.is_registered("b"));
    assert!(!token.is_cancelled());
    assert!(!other.is_cancelled());
    // nothing is left to cancel
    assert!(!reg.cancel("a"));
    assert!(!token.is_cancelled());
}

#[test]
fn other_rounds_keep_the_handle() {
    let mut reg = SessionRegistry::new();
    let token = reg.register("a".to_string());
    let rounds = vec![
        Ok(Progress { transferred: 10, emit: true, completed: false }),
        Err(DownloadError::Paused),
        Err(DownloadError::MissingContentLength),
        Err(DownloadError::SegmentTransferFailed { index: 0, cause: "x".to_string() }),
    ];
    for round in &rounds {
        assert!(!release_completed(&mut reg, "a", round));
        assert!(reg.is_registered("a"));
    }
    assert!(!token.is_cancelled());
    assert!(reg.cancel("a"));
    assert!(token.is_cancelled());
}

#[test]
fn completed_round_of_an_unknown_id_changes_nothing() {
    let mut reg = SessionRegistry::new();
    reg.register("b".to_string());
    let done = Ok(Progress { transferred: 1, emit: true, completed: true });
    assert!(release_completed(&mut reg, "a", &done));
    assert!(reg.is_registered("b"));
    assert!(!reg.is_registered("a"));
}
