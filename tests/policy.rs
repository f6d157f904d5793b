use tiktok_batch::download::{DownloadOutcome, DownloadState, ProcessStatus};

fn args(v: &[&str]) -> Vec<String> {
    v.iter().map(|s| s.to_string()).collect()
}

/// Runs the policy for `url` against the given process results and returns
/// the invocations made and the outcome.
fn simulate(url: &str, statuses: &[ProcessStatus]) -> (Vec<Vec<String>>, Option<DownloadOutcome>) {
    let mut st = DownloadState::start();
    let mut calls = Vec::new();
    let mut next = statuses.iter();
    while let Some(a) = st.pending_invocation(url) {
        calls.push(a);
        match next.next() {
            Some(s) => st = st.advance(*s),
            None => break,
        }
    }
    (calls, st.outcome())
}

#[test]
fn first_success_needs_no_fallback() {
    let (calls, out) = simulate("u", &[ProcessStatus::Succeeded, ProcessStatus::Succeeded]);
    assert_eq!(calls, vec![args(&["u"])]);
    assert_eq!(out, Some(DownloadOutcome::Success));
}

#[test]
fn failure_then_fallback_success() {
    let (calls, out) = simulate("u", &[ProcessStatus::ExitedWithFailure, ProcessStatus::Succeeded]);
    assert_eq!(calls, vec![args(&["u"]), args(&["-o", "%(id)s.%(ext)s", "u"])]);
    assert_eq!(out, Some(DownloadOutcome::Success));
}

#[test]
fn failure_then_fallback_failure() {
    let (calls, out) = simulate(
        "u",
        &[ProcessStatus::ExitedWithFailure, ProcessStatus::ExitedWithFailure, ProcessStatus::Succeeded],
    );
    assert_eq!(calls.len(), 2);
    assert_eq!(out, Some(DownloadOutcome::Failure));
}

#[test]
fn fallback_spawn_failure_is_failure() {
    let (calls, out) = simulate("u", &[ProcessStatus::ExitedWithFailure, ProcessStatus::SpawnFailed]);
    assert_eq!(calls.len(), 2);
    assert_eq!(out, Some(DownloadOutcome::Failure));
}

#[test]
fn spawn_failure_is_fatal_without_retry() {
    let (calls, out) = simulate("u", &[ProcessStatus::SpawnFailed, ProcessStatus::Succeeded]);
    assert_eq!(calls, vec![args(&["u"])]);
    assert_eq!(out, Some(DownloadOutcome::FatalFailure));
}

#[test]
fn unfinished_state_has_no_outcome() {
    assert_eq!(DownloadState::start().outcome(), None);
    assert_eq!(DownloadState::Fallback.outcome(), None);
    assert_eq!(DownloadState::Finished(DownloadOutcome::Success).pending_invocation("u"), None);
}
