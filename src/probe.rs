use vstd::prelude::*;

verus! {

/// HTTP status that ends the sweep with a download.
pub const OK_STATUS: u16 = 200;

/// What probing one candidate link gave.
pub enum ProbeOutcome {
    /// The server answered with this status code.
    Status(u16),
    /// The request failed before any status came back.
    NetworkError,
}

/// What the probe loop asks its driver to do next.
pub enum ProbeStep {
    /// Issue a GET for the candidate at this index.
    Request(usize),
    /// Save the body just received for the candidate at this index; the sweep is done.
    Download(usize),
    /// No candidate is left: the sweep failed.
    Exhausted,
}

/// Whether an outcome ends the sweep with success.
pub open spec fn is_success(o: ProbeOutcome) -> bool {
    o == ProbeOutcome::Status(OK_STATUS)
}

/// The step that opens a sweep over `n` candidates.
pub open spec fn start_spec(n: nat) -> ProbeStep {
    if n == 0 {
        ProbeStep::Exhausted
    } else {
        ProbeStep::Request(0)
    }
}

/// The step after candidate `i` of `n` gave outcome `o`.
pub open spec fn after_spec(n: nat, i: nat, o: ProbeOutcome) -> ProbeStep {
    if is_success(o) {
        ProbeStep::Download(i as usize)
    } else if i + 1 < n {
        ProbeStep::Request((i + 1) as usize)
    } else {
        ProbeStep::Exhausted
    }
}

/// The step that opens a sweep over `n` candidates.
pub fn first_step(n: usize) -> (r: ProbeStep)
    ensures
        r == start_spec(n as nat),
{
    if n == 0 {
        ProbeStep::Exhausted
    } else {
        ProbeStep::Request(0)
    }
}

/// The step after candidate `current` of `n` gave `outcome`. A status other
/// than success and a network failure alike move on to the next candidate.
pub fn next_step(n: usize, current: usize, outcome: ProbeOutcome) -> (r: ProbeStep)
    requires
        current < n,
    ensures
        r == after_spec(n as nat, current as nat, outcome),
{
    let success = match outcome {
        ProbeOutcome::Status(code) => code == OK_STATUS,
        ProbeOutcome::NetworkError => false,
    };
    if success {
        ProbeStep::Download(current)
    } else if current + 1 < n {
        ProbeStep::Request(current + 1)
    } else {
        ProbeStep::Exhausted
    }
}

/// Where a sweep over `n` candidates ends once candidate `i` is requested,
/// when candidate `j` answers `outcomes[j]`, and how many requests it issues
/// from there on: each step is the one `after_spec` gives.
pub open spec fn drive_from(n: nat, i: nat, outcomes: Seq<ProbeOutcome>) -> (ProbeStep, nat)
    decreases n - i,
{
    if i >= n {
        (ProbeStep::Exhausted, 0)
    } else {
        match after_spec(n, i, outcomes[i as int]) {
            ProbeStep::Request(_) => (drive_from(n, i + 1, outcomes).0, drive_from(n, i + 1, outcomes).1 + 1),
            last => (last, 1),
        }
    }
}

/// Where a whole sweep over `n` candidates ends, and how many requests it issues.
pub open spec fn sweep(n: nat, outcomes: Seq<ProbeOutcome>) -> (ProbeStep, nat) {
    match start_spec(n) {
        ProbeStep::Request(_) => drive_from(n, 0, outcomes),
        last => (last, 0),
    }
}

proof fn lemma_drive_hit(n: nat, i: nat, outcomes: Seq<ProbeOutcome>, k: nat)
    requires
        i <= k < n,
        outcomes.len() == n,
        is_success(outcomes[k as int]),
        forall|j: int| i <= j < k ==> !is_success(#[trigger] outcomes[j]),
    ensures
        drive_from(n, i, outcomes) == (ProbeStep::Download(k as usize), (k - i + 1) as nat),
    decreases k - i,
{
    if i < k {
        lemma_drive_hit(n, i + 1, outcomes, k);
    }
}

proof fn lemma_drive_miss(n: nat, i: nat, outcomes: Seq<ProbeOutcome>)
    requires
        i <= n,
        outcomes.len() == n,
        forall|j: int| i <= j < n ==> !is_success(#[trigger] outcomes[j]),
    ensures
        drive_from(n, i, outcomes) == (ProbeStep::Exhausted, (n - i) as nat),
    decreases n - i,
{
    if i < n {
        lemma_drive_miss(n, i + 1, outcomes);
    }
}

/// A sweep stops at the first candidate that answers with success: it asks
/// for that candidate's body, and issues no request past it.
pub proof fn lemma_stops_at_first_success(n: nat, outcomes: Seq<ProbeOutcome>, k: nat)
    requires
        n <= usize::MAX,
        outcomes.len() == n,
        k < n,
        is_success(outcomes[k as int]),
        forall|j: int| 0 <= j < k ==> !is_success(#[trigger] outcomes[j]),
    ensures
        sweep(n, outcomes) == (ProbeStep::Download(k as usize), k + 1),
{
    lemma_drive_hit(n, 0, outcomes, k);
}

/// A sweep in which no candidate answers with success probes every candidate
/// once and ends exhausted, never asking for a download.
pub proof fn lemma_all_miss_exhausts(n: nat, outcomes: Seq<ProbeOutcome>)
    requires
        n <= usize::MAX,
        outcomes.len() == n,
        forall|j: int| 0 <= j < n ==> !is_success(#[trigger] outcomes[j]),
    ensures
        sweep(n, outcomes) == (ProbeStep::Exhausted, n),
{
    lemma_drive_miss(n, 0, outcomes);
}

} // verus!
