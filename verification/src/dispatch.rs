//! Dispatch of one signing worker per discovered file and aggregation of
//! the workers' terminal outcomes.
//!
//! A worker is modelled by the values it is bound to: the file to sign and
//! the shared key and certificate paths. The surrounding binary spawns one
//! thread per worker, runs the external signer in it, and joins every
//! thread exactly once; the terminal result of each join is fed back here
//! as an [`Outcome`] to be counted into the final [`Report`].
use vstd::prelude::*;

use crate::walk::files_in_list;
use crate::walk::FsNode;

verus! {

broadcast use vstd::seq::group_seq_axioms, vstd::std_specs::vec::group_vec_axioms;

/// One signing attempt, bound to exactly one discovered file and to the
/// shared key and certificate configuration.
pub struct Worker {
    /// The file the external signer is invoked on, in place.
    pub file: String,
    /// The path of the private key handed to the signer.
    pub key: String,
    /// The path of the certificate handed to the signer.
    pub cert: String,
}

/// The terminal result of one signing attempt. Exactly one outcome exists
/// per worker that was started.
pub enum Outcome {
    /// The signer ran to completion and reported this exit code.
    Exited { code: i32 },
    /// The signer terminated without reporting an exit code.
    Interrupted,
    /// The signer could not be spawned at all.
    LaunchFailure,
    /// The signer was spawned but its exit status could not be observed.
    WaitFailure,
    /// The worker itself ended abnormally and could not be joined.
    JoinFailure,
}

/// Whether one outcome counts as a failure in the aggregate report: only a
/// zero exit code of the external signer counts as success; any other exit
/// code, a missing exit code, or a launch, wait or join failure counts as
/// exactly one failure.
pub open spec fn is_failure(outcome: Outcome) -> bool {
    match outcome {
        Outcome::Exited { code } => code != 0,
        _ => true,
    }
}

/// The workers that dispatching a sequence of discovered file paths starts:
/// one per path, in order, each bound to its path and to the shared key and
/// certificate paths.
pub open spec fn workers_for(paths: Seq<String>, key: String, cert: String) -> Seq<Worker> {
    paths.map_values(|p: String| Worker { file: p, key: key, cert: cert })
}

/// How many outcomes of a sequence count as failures.
pub open spec fn failure_count(outcomes: Seq<Outcome>) -> nat
    decreases outcomes,
{
    if outcomes.len() == 0 {
        0
    } else {
        failure_count(outcomes.drop_last()) + if is_failure(outcomes.last()) {
            1nat
        } else {
            0nat
        }
    }
}

/// How many outcomes of a sequence count as successes.
pub open spec fn success_count(outcomes: Seq<Outcome>) -> nat
    decreases outcomes,
{
    if outcomes.len() == 0 {
        0
    } else {
        success_count(outcomes.drop_last()) + if is_failure(outcomes.last()) {
            0nat
        } else {
            1nat
        }
    }
}

/// The aggregate of one run: how many workers were started and how many of
/// their outcomes were failures. This is the only state that outlives a run.
pub struct Report {
    /// Total number of workers started.
    pub started: usize,
    /// Number of outcomes that were not a zero-like exit of the signer.
    pub failures: usize,
}

/// Law: every worker is accounted for exactly once. However the outcomes
/// fall, the failures and the successes together cover all of them, so no
/// worker's outcome is lost and none is counted twice.
pub proof fn lemma_no_outcome_lost(outcomes: Seq<Outcome>)
    ensures
        failure_count(outcomes) + success_count(outcomes) == outcomes.len(),
    decreases outcomes,
{
    if outcomes.len() > 0 {
        lemma_no_outcome_lost(outcomes.drop_last());
    }
}

/// Law: a zero exit code of the signer contributes nothing to the failure
/// count; any other outcome — a non-zero exit, a missing exit code, or a
/// launch, wait or join failure — contributes exactly one.
pub proof fn lemma_outcome_contribution(outcomes: Seq<Outcome>, outcome: Outcome)
    ensures
        is_failure(outcome) <==> !(outcome matches Outcome::Exited { code: 0 }),
        !is_failure(outcome) ==> failure_count(outcomes.push(outcome)) == failure_count(outcomes),
        is_failure(outcome) ==> failure_count(outcomes.push(outcome)) == failure_count(outcomes)
            + 1,
{
    assert(outcomes.push(outcome).drop_last() =~= outcomes);
    assert(outcomes.push(outcome).last() == outcome);
}

/// Law: dispatch starts exactly one worker per file that discovery finds
/// under the given roots, duplicates from overlapping roots included, and
/// binds each worker to its file and to the shared key and certificate.
pub proof fn lemma_one_worker_per_file(roots: Seq<FsNode>, key: String, cert: String)
    ensures
        workers_for(files_in_list(roots), key, cert).len() == files_in_list(roots).len(),
        forall|i: int|
            0 <= i < files_in_list(roots).len() ==> #[trigger] workers_for(
                files_in_list(roots),
                key,
                cert,
            )[i].file == files_in_list(roots)[i],
{
}

/// Start one worker per received file path, in order of receipt, each bound
/// to that path and to the shared key and certificate paths, and record it
/// after the workers already recorded. No path is dropped or double-counted.
#[verifier::loop_isolation(false)]
pub fn threader(rx: &Vec<String>, key_path: &String, cert_path: &String, threads: &mut Vec<Worker>)
    ensures
        final(threads)@ == old(threads)@ + workers_for(rx@, *key_path, *cert_path),
{
    let n = rx.len();
    let mut i: usize = 0;
    assert(threads@ =~= old(threads)@ + workers_for(rx@.take(0), *key_path, *cert_path));
    while i < n
        invariant
            i <= n,
            threads@ == old(threads)@ + workers_for(rx@.take(i as int), *key_path, *cert_path),
        decreases n - i,
    {
        let worker = Worker {
            file: rx[i].clone(),
            key: key_path.clone(),
            cert: cert_path.clone(),
        };
        threads.push(worker);
        assert(threads@ =~= old(threads)@ + workers_for(rx@.take(i + 1), *key_path, *cert_path));
        i = i + 1;
    }
    assert(rx@.take(n as int) =~= rx@);
}

/// Whether one worker outcome counts as a failure: anything but a zero exit
/// code of the external signer does.
pub fn outcome_failed(outcome: &Outcome) -> (failed: bool)
    ensures
        failed == is_failure(*outcome),
{
    match outcome {
        Outcome::Exited { code } => *code != 0,
        Outcome::Interrupted => true,
        Outcome::LaunchFailure => true,
        Outcome::WaitFailure => true,
        Outcome::JoinFailure => true,
    }
}

/// Count every joined worker's outcome exactly once, adding one to the
/// failure counter for each outcome that is not a zero-like exit of the
/// signer and leaving it untouched for each that is.
#[verifier::loop_isolation(false)]
pub fn wait(outcomes: Vec<Outcome>, failures: &mut usize)
    requires
        *old(failures) + outcomes@.len() <= usize::MAX,
    ensures
        *final(failures) == *old(failures) + failure_count(outcomes@),
{
    let n = outcomes.len();
    let mut i: usize = 0;
    assert(failure_count(outcomes@.take(0)) == 0);
    while i < n
        invariant
            i <= n,
            *failures == *old(failures) + failure_count(outcomes@.take(i as int)),
            failure_count(outcomes@.take(i as int)) <= i,
        decreases n - i,
    {
        proof {
            assert(outcomes@.take(i + 1).drop_last() =~= outcomes@.take(i as int));
            assert(outcomes@.take(i + 1).last() == outcomes@[i as int]);
        }
        if outcome_failed(&outcomes[i]) {
            *failures = *failures + 1;
        }
        i = i + 1;
    }
    assert(outcomes@.take(n as int) =~= outcomes@);
}

/// Build the aggregate report of one finished run from the workers that
/// were started and the outcome that joining each of them produced, exactly
/// one outcome per worker.
pub fn run_report(threads: &Vec<Worker>, outcomes: Vec<Outcome>) -> (report: Report)
    requires
        outcomes@.len() == threads@.len(),
    ensures
        report.started == threads@.len(),
        report.failures == failure_count(outcomes@),
        report.failures <= report.started,
{
    let started = threads.len();
    let ghost outcomes_seq = outcomes@;
    let mut failures: usize = 0;
    proof {
        lemma_no_outcome_lost(outcomes_seq);
    }
    wait(outcomes, &mut failures);
    Report { started, failures }
}

} // verus!
