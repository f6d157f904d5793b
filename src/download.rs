//! The per-link download policy: one primary invocation of the external
//! downloader, and at most one fallback invocation with an alternate output
//! naming template. The caller performs each invocation and reports how the
//! process ended; the policy decides what happens next.
use vstd::prelude::*;

verus! {

/// Flag that selects the downloader's output naming template.
pub const OUTPUT_FLAG: &'static str = "-o";

/// Short output naming template used by the fallback invocation.
pub const FALLBACK_TEMPLATE: &'static str = "%(id)s.%(ext)s";

/// How one invocation of the external downloader ended.
#[derive(Clone, Copy, Debug, PartialEq, Eq, Structural)]
pub enum ProcessStatus {
    /// The process ran and exited with a success status.
    Succeeded,
    /// The process ran and exited with a failure status.
    ExitedWithFailure,
    /// The process could not be created at all.
    SpawnFailed,
}

/// Final result of downloading one link.
#[derive(Clone, Copy, Debug, PartialEq, Eq, Structural)]
pub enum DownloadOutcome {
    Success,
    /// Both the primary and the fallback invocation failed.
    Failure,
    /// The primary invocation could not be created; no fallback is tried.
    FatalFailure,
}

/// Where the policy stands for one link.
#[derive(Clone, Copy, Debug, PartialEq, Eq, Structural)]
pub enum DownloadState {
    /// The primary invocation is to be performed.
    Primary,
    /// The primary invocation failed; the fallback is to be performed.
    Fallback,
    /// No further invocation; the outcome is final.
    Finished(DownloadOutcome),
}

/// Arguments of the primary invocation: the link alone.
pub open spec fn primary_args(url: Seq<char>) -> Seq<Seq<char>> {
    seq![url]
}

/// Arguments of the fallback invocation: the short naming template, then the link.
pub open spec fn fallback_args(url: Seq<char>) -> Seq<Seq<char>> {
    seq![OUTPUT_FLAG@, FALLBACK_TEMPLATE@, url]
}

/// The invocation owed in state `st`, if any.
pub open spec fn invocation_of(st: DownloadState, url: Seq<char>) -> Option<Seq<Seq<char>>> {
    match st {
        DownloadState::Primary => Some(primary_args(url)),
        DownloadState::Fallback => Some(fallback_args(url)),
        DownloadState::Finished(_) => None,
    }
}

/// The state after an invocation in state `st` ended with `status`.
pub open spec fn next_state(st: DownloadState, status: ProcessStatus) -> DownloadState {
    match st {
        DownloadState::Primary => match status {
            ProcessStatus::Succeeded => DownloadState::Finished(DownloadOutcome::Success),
            ProcessStatus::ExitedWithFailure => DownloadState::Fallback,
            ProcessStatus::SpawnFailed => DownloadState::Finished(DownloadOutcome::FatalFailure),
        },
        DownloadState::Fallback => match status {
            ProcessStatus::Succeeded => DownloadState::Finished(DownloadOutcome::Success),
            _ => DownloadState::Finished(DownloadOutcome::Failure),
        },
        DownloadState::Finished(o) => DownloadState::Finished(o),
    }
}

/// Runs the policy from `st` against the process results in `statuses`, one
/// per invocation, until it finishes or the results run out. Gives the state
/// reached and the invocations performed, in order.
pub open spec fn run_policy(st: DownloadState, url: Seq<char>, statuses: Seq<ProcessStatus>) -> (
    DownloadState,
    Seq<Seq<Seq<char>>>,
)
    decreases statuses.len(),
{
    match invocation_of(st, url) {
        None => (st, seq![]),
        Some(args) => if statuses.len() == 0 {
            (st, seq![])
        } else {
            let rest = run_policy(next_state(st, statuses[0]), url, statuses.drop_first());
            (rest.0, seq![args] + rest.1)
        },
    }
}

impl DownloadState {
    /// The state in which every link starts.
    pub fn start() -> (r: DownloadState)
        ensures
            r == DownloadState::Primary,
    {
        DownloadState::Primary
    }

    /// The arguments of the invocation to perform now for `url`, or `None`
    /// when the outcome is final.
    pub fn pending_invocation(&self, url: &str) -> (r: Option<Vec<String>>)
        ensures
            r is None <==> invocation_of(*self, url@) is None,
            r matches Some(v) ==> invocation_of(*self, url@) == Some(v.deep_view()),
    {
        match self {
            DownloadState::Primary => {
                let mut v: Vec<String> = Vec::new();
                v.push(url.to_string());
                assert(v.deep_view() =~= primary_args(url@));
                Some(v)
            },
            DownloadState::Fallback => {
                let mut v: Vec<String> = Vec::new();
                v.push(OUTPUT_FLAG.to_string());
                v.push(FALLBACK_TEMPLATE.to_string());
                v.push(url.to_string());
                assert(v.deep_view() =~= fallback_args(url@));
                Some(v)
            },
            DownloadState::Finished(_) => None,
        }
    }

    /// The state after the pending invocation ended with `status`.
    pub fn advance(self, status: ProcessStatus) -> (r: DownloadState)
        ensures
            r == next_state(self, status),
    {
        match self {
            DownloadState::Primary => match status {
                ProcessStatus::Succeeded => DownloadState::Finished(DownloadOutcome::Success),
                ProcessStatus::ExitedWithFailure => DownloadState::Fallback,
                ProcessStatus::SpawnFailed => DownloadState::Finished(DownloadOutcome::FatalFailure),
            },
            DownloadState::Fallback => match status {
                ProcessStatus::Succeeded => DownloadState::Finished(DownloadOutcome::Success),
                _ => DownloadState::Finished(DownloadOutcome::Failure),
            },
            DownloadState::Finished(o) => DownloadState::Finished(o),
        }
    }

    /// The final outcome, once no invocation is pending.
    pub fn outcome(&self) -> (r: Option<DownloadOutcome>)
        ensures
            r is None <==> !(*self is Finished),
            r matches Some(o) ==> *self == DownloadState::Finished(o),
    {
        match self {
            DownloadState::Finished(o) => Some(*o),
            _ => None,
        }
    }
}

/// A primary invocation that succeeds finishes the link with `Success`, and
/// no second invocation takes place.
pub proof fn lemma_success_needs_one_invocation(url: Seq<char>, statuses: Seq<ProcessStatus>)
    requires
        statuses.len() >= 1,
        statuses[0] == ProcessStatus::Succeeded,
    ensures
        run_policy(DownloadState::Primary, url, statuses) == (
            DownloadState::Finished(DownloadOutcome::Success),
            seq![primary_args(url)],
        ),
{
    let rest = run_policy(DownloadState::Finished(DownloadOutcome::Success), url, statuses.drop_first());
    assert(seq![primary_args(url)] + rest.1 =~= seq![primary_args(url)]);
}

/// A primary invocation that exits with failure is followed by exactly one
/// fallback invocation with the alternate arguments; the link then succeeds
/// if and only if the fallback succeeds.
pub proof fn lemma_failure_gets_one_fallback(url: Seq<char>, statuses: Seq<ProcessStatus>)
    requires
        statuses.len() >= 2,
        statuses[0] == ProcessStatus::ExitedWithFailure,
    ensures
        run_policy(DownloadState::Primary, url, statuses) == (
            DownloadState::Finished(
                if statuses[1] == ProcessStatus::Succeeded {
                    DownloadOutcome::Success
                } else {
                    DownloadOutcome::Failure
                },
            ),
            seq![primary_args(url), fallback_args(url)],
        ),
{
    let s1 = statuses.drop_first();
    assert(s1[0] == statuses[1]);
    let fin = next_state(DownloadState::Fallback, s1[0]);
    let rest = run_policy(fin, url, s1.drop_first());
    assert(rest == (fin, Seq::<Seq<Seq<char>>>::empty()));
    let mid = run_policy(DownloadState::Fallback, url, s1);
    assert(mid.0 == fin);
    assert(mid.1 =~= seq![fallback_args(url)]);
    assert(seq![primary_args(url)] + mid.1 =~= seq![primary_args(url), fallback_args(url)]);
}

/// A primary invocation whose process cannot be created finishes the link
/// with `FatalFailure` at once, with no fallback invocation.
pub proof fn lemma_spawn_failure_is_fatal(url: Seq<char>, statuses: Seq<ProcessStatus>)
    requires
        statuses.len() >= 1,
        statuses[0] == ProcessStatus::SpawnFailed,
    ensures
        run_policy(DownloadState::Primary, url, statuses) == (
            DownloadState::Finished(DownloadOutcome::FatalFailure),
            seq![primary_args(url)],
        ),
{
    let rest = run_policy(DownloadState::Finished(DownloadOutcome::FatalFailure), url, statuses.drop_first());
    assert(seq![primary_args(url)] + rest.1 =~= seq![primary_args(url)]);
}

} // verus!
