//! Laws of the queue protocol as a whole.
//!
//! The store operations are each specified row by row; this module states
//! what they guarantee across a whole run: claims hand out the pending
//! jobs first-in-first-out, a sequence of claims takes each pending job
//! exactly once, and every job's observed status only ever walks forward
//! along `pending -> processing -> {done | error}`.

use vstd::prelude::*;

use crate::job::{Job, with_status};
use crate::status::{JobStatus, is_terminal, lemma_reaches_transitive, lemma_terminal_frozen, status_reaches};
use crate::store::{
    id_has_status, ids_strictly_increasing, is_first_pending, is_pending, seq_has_pending,
};

verus! {

/// The ids of the rows still waiting for a worker, in table order — the
/// order in which claims will hand them out.
pub open spec fn pending_ids(jobs: Seq<Job>) -> Seq<u64>
    decreases jobs.len(),
{
    if jobs.len() == 0 {
        Seq::empty()
    } else if is_pending(jobs[0]) {
        seq![jobs[0].id] + pending_ids(jobs.drop_first())
    } else {
        pending_ids(jobs.drop_first())
    }
}

pub open spec fn u64s_strictly_increasing(s: Seq<u64>) -> bool {
    forall|i: int, j: int| 0 <= i < j < s.len() ==> s[i] < s[j]
}

/// What the atomic claim does to the table: the oldest pending row, if
/// any, becomes `processing`.
pub open spec fn spec_claim_jobs(jobs: Seq<Job>) -> Seq<Job> {
    if seq_has_pending(jobs) {
        let k = choose|k: int| is_first_pending(jobs, k);
        jobs.update(k, with_status(jobs[k], JobStatus::Processing))
    } else {
        jobs
    }
}

/// What the atomic claim returns: the id of the oldest pending row, if
/// any.
pub open spec fn spec_claim_result(jobs: Seq<Job>) -> Option<u64> {
    if seq_has_pending(jobs) {
        let k = choose|k: int| is_first_pending(jobs, k);
        Some(jobs[k].id)
    } else {
        None
    }
}

/// A table with a pending row has an oldest pending row.
pub proof fn lemma_first_pending_exists(jobs: Seq<Job>)
    requires
        seq_has_pending(jobs),
    ensures
        exists|k: int| is_first_pending(jobs, k),
    decreases jobs.len(),
{
    if is_pending(jobs[0]) {
        assert(is_first_pending(jobs, 0));
    } else {
        let w = choose|i: int| 0 <= i < jobs.len() && is_pending(jobs[i]);
        assert(jobs.drop_first()[w - 1] == jobs[w]);
        assert(seq_has_pending(jobs.drop_first()));
        lemma_first_pending_exists(jobs.drop_first());
        let k = choose|k: int| is_first_pending(jobs.drop_first(), k);
        assert forall|i: int| 0 <= i < k + 1 implies !is_pending(jobs[i]) by {
            if i > 0 {
                assert(jobs[i] == jobs.drop_first()[i - 1]);
            }
        }
        assert(jobs[k + 1] == jobs.drop_first()[k]);
        assert(is_first_pending(jobs, k + 1));
    }
}

/// There is only one oldest pending row.
pub proof fn lemma_first_pending_unique(jobs: Seq<Job>, k1: int, k2: int)
    requires
        is_first_pending(jobs, k1),
        is_first_pending(jobs, k2),
    ensures
        k1 == k2,
{
}

/// `pending_ids` lists exactly the ids of the pending rows, and in a
/// well-formed table it is strictly increasing.
pub proof fn lemma_pending_ids_frame(jobs: Seq<Job>)
    ensures
        forall|x: u64| #[trigger] pending_ids(jobs).contains(x) ==> exists|i: int|
            0 <= i < jobs.len() && is_pending(jobs[i]) && jobs[i].id == x,
        forall|i: int|
            0 <= i < jobs.len() && is_pending(jobs[i]) ==> pending_ids(jobs).contains(
                #[trigger] jobs[i].id,
            ),
        ids_strictly_increasing(jobs) ==> u64s_strictly_increasing(pending_ids(jobs)),
        pending_ids(jobs).len() == 0 <==> !seq_has_pending(jobs),
    decreases jobs.len(),
{
    if jobs.len() == 0 {
        return ;
    }
    let rest = jobs.drop_first();
    lemma_pending_ids_frame(rest);
    assert(forall|i: int| 0 <= i < rest.len() ==> rest[i] == jobs[i + 1]);
    let p = pending_ids(jobs);
    let pr = pending_ids(rest);

    // membership, both directions
    assert forall|x: u64| #[trigger] p.contains(x) implies exists|i: int|
        0 <= i < jobs.len() && is_pending(jobs[i]) && jobs[i].id == x by {
        let w = choose|w: int| 0 <= w < p.len() && p[w] == x;
        if is_pending(jobs[0]) {
            if w == 0 {
                assert(is_pending(jobs[0]) && jobs[0].id == x);
            } else {
                assert(pr[w - 1] == x);
                assert(pr.contains(x));
                let i = choose|i: int| 0 <= i < rest.len() && is_pending(rest[i]) && rest[i].id
                    == x;
                assert(is_pending(jobs[i + 1]) && jobs[i + 1].id == x);
            }
        } else {
            assert(pr.contains(x));
            let i = choose|i: int| 0 <= i < rest.len() && is_pending(rest[i]) && rest[i].id == x;
            assert(is_pending(jobs[i + 1]) && jobs[i + 1].id == x);
        }
    }
    assert forall|i: int| 0 <= i < jobs.len() && is_pending(jobs[i]) implies p.contains(
        #[trigger] jobs[i].id,
    ) by {
        if i == 0 {
            assert(p[0] == jobs[0].id);
        } else {
            assert(rest[i - 1] == jobs[i]);
            assert(pr.contains(jobs[i].id));
            let w = choose|w: int| 0 <= w < pr.len() && pr[w] == jobs[i].id;
            if is_pending(jobs[0]) {
                assert(p[w + 1] == jobs[i].id);
            } else {
                assert(p[w] == jobs[i].id);
            }
        }
    }

    // strict increase
    if ids_strictly_increasing(jobs) {
        assert(ids_strictly_increasing(rest));
        if is_pending(jobs[0]) {
            assert forall|i: int, j: int| 0 <= i < j < p.len() implies p[i] < p[j] by {
                if i == 0 {
                    assert(p[j] == pr[j - 1]);
                    assert(pr.contains(pr[j - 1]));
                    let w = choose|w: int|
                        0 <= w < rest.len() && is_pending(rest[w]) && rest[w].id == pr[j - 1];
                    assert(jobs[w + 1].id == pr[j - 1]);
                    assert(jobs[0].id < jobs[w + 1].id);
                } else {
                    assert(p[i] == pr[i - 1] && p[j] == pr[j - 1]);
                }
            }
        }
    }
}

/// The claim takes the head of the pending queue: it returns the first
/// pending id, and what remains pending afterwards is exactly the rest of
/// the queue, in the same order.
pub proof fn lemma_claim_takes_first_pending(jobs: Seq<Job>, k: int)
    requires
        is_first_pending(jobs, k),
    ensures
        pending_ids(jobs).len() > 0,
        jobs[k].id == pending_ids(jobs)[0],
        pending_ids(jobs.update(k, with_status(jobs[k], JobStatus::Processing)))
            == pending_ids(jobs).drop_first(),
    decreases jobs.len(),
{
    let upd = jobs.update(k, with_status(jobs[k], JobStatus::Processing));
    if k == 0 {
        assert(pending_ids(jobs) == seq![jobs[0].id] + pending_ids(jobs.drop_first()));
        assert(!is_pending(upd[0]));
        assert(upd.drop_first() =~= jobs.drop_first());
        assert(pending_ids(upd) == pending_ids(jobs.drop_first()));
        assert(pending_ids(jobs).drop_first() =~= pending_ids(jobs.drop_first()));
    } else {
        assert(!is_pending(jobs[0]));
        let rest = jobs.drop_first();
        assert(forall|i: int| 0 <= i < rest.len() ==> rest[i] == jobs[i + 1]);
        assert(is_first_pending(rest, k - 1));
        lemma_claim_takes_first_pending(rest, k - 1);
        assert(upd[0] == jobs[0]);
        assert(upd.drop_first() =~= rest.update(k - 1, with_status(rest[k - 1], JobStatus::Processing)));
        assert(pending_ids(upd) == pending_ids(upd.drop_first()));
        assert(pending_ids(jobs) == pending_ids(rest));
    }
}

/// Bundled facts about one claim on a well-formed table.
pub proof fn lemma_spec_claim(jobs: Seq<Job>)
    requires
        ids_strictly_increasing(jobs),
    ensures
        spec_claim_jobs(jobs).len() == jobs.len(),
        forall|i: int| 0 <= i < jobs.len() ==> #[trigger] spec_claim_jobs(jobs)[i].id == jobs[i].id,
        ids_strictly_increasing(spec_claim_jobs(jobs)),
        seq_has_pending(jobs) ==> (spec_claim_result(jobs) == Some(pending_ids(jobs)[0])
            && pending_ids(spec_claim_jobs(jobs)) == pending_ids(jobs).drop_first()
            && pending_ids(jobs).len() > 0),
        !seq_has_pending(jobs) ==> (spec_claim_result(jobs) is None && spec_claim_jobs(jobs)
            == jobs && pending_ids(jobs).len() == 0),
        forall|i: int|
            0 <= i < jobs.len() ==> status_reaches(
                jobs[i].status,
                #[trigger] spec_claim_jobs(jobs)[i].status,
            ),
    decreases jobs.len(),
{
    lemma_pending_ids_frame(jobs);
    if seq_has_pending(jobs) {
        lemma_first_pending_exists(jobs);
        let k = choose|k: int| is_first_pending(jobs, k);
        lemma_claim_takes_first_pending(jobs, k);
    }
}

/// The table after `k` successive claims.
pub open spec fn apply_claims(jobs: Seq<Job>, k: nat) -> Seq<Job>
    decreases k,
{
    if k == 0 {
        jobs
    } else {
        apply_claims(spec_claim_jobs(jobs), (k - 1) as nat)
    }
}

/// What `k` successive claims return, in order.
pub open spec fn claim_outcomes(jobs: Seq<Job>, k: nat) -> Seq<Option<u64>>
    decreases k,
{
    if k == 0 {
        Seq::empty()
    } else {
        seq![spec_claim_result(jobs)] + claim_outcomes(spec_claim_jobs(jobs), (k - 1) as nat)
    }
}

/// Successive claims hand out the pending queue as a prefix, in order:
/// the `i`-th claim returns the `i`-th pending id while any remain, and
/// nothing once the queue is empty.
pub proof fn lemma_claims_take_pending_prefix(jobs: Seq<Job>, k: nat)
    requires
        ids_strictly_increasing(jobs),
    ensures
        claim_outcomes(jobs, k).len() == k,
        forall|i: int|
            0 <= i < k && i < pending_ids(jobs).len() ==> #[trigger] claim_outcomes(jobs, k)[i]
                == Some(pending_ids(jobs)[i]),
        forall|i: int|
            pending_ids(jobs).len() <= i < k ==> #[trigger] claim_outcomes(jobs, k)[i] is None,
        ids_strictly_increasing(apply_claims(jobs, k)),
        k <= pending_ids(jobs).len() ==> pending_ids(apply_claims(jobs, k)) == pending_ids(
            jobs,
        ).skip(k as int),
        k >= pending_ids(jobs).len() ==> pending_ids(apply_claims(jobs, k)) == Seq::<u64>::empty(),
    decreases k,
{
    lemma_pending_ids_frame(jobs);
    if k > 0 {
        lemma_spec_claim(jobs);
        let claimed = spec_claim_jobs(jobs);
        lemma_claims_take_pending_prefix(claimed, (k - 1) as nat);
        let p = pending_ids(jobs);
        let outs = claim_outcomes(jobs, k);
        let rest_outs = claim_outcomes(claimed, (k - 1) as nat);
        assert(forall|i: int| 0 < i < k ==> #[trigger] outs[i] == rest_outs[i - 1]);
        if seq_has_pending(jobs) {
            assert(pending_ids(claimed) == p.drop_first());
            assert(p.drop_first() =~= p.skip(1));
            assert forall|i: int| 0 <= i < k && i < p.len() implies #[trigger] outs[i] == Some(
                p[i],
            ) by {
                if i > 0 {
                    assert(rest_outs[i - 1] == Some(p.skip(1)[i - 1]));
                }
            }
            if k as int <= p.len() {
                assert(p.skip(1).skip(k as int - 1) =~= p.skip(k as int));
            }
        } else {
            assert(p.len() == 0);
            assert(claimed == jobs);
        }
    }
}

/// At most one claim per job: however many claims run against the table,
/// no two successful ones return the same job, a claim succeeds exactly
/// while pending jobs remain, and once the claims outnumber the `m`
/// initially pending jobs, every one of those jobs has been claimed —
/// `m` successful claims in total, each job taken exactly once.
pub proof fn lemma_at_most_one_claim(jobs: Seq<Job>, k: nat)
    requires
        ids_strictly_increasing(jobs),
    ensures
        forall|a: int, b: int|
            #![trigger claim_outcomes(jobs, k)[a], claim_outcomes(jobs, k)[b]]
            0 <= a < b < k && claim_outcomes(jobs, k)[a] is Some ==> claim_outcomes(jobs, k)[a]
                != claim_outcomes(jobs, k)[b],
        forall|i: int|
            0 <= i < k ==> (#[trigger] claim_outcomes(jobs, k)[i] is Some <==> i < pending_ids(
                jobs,
            ).len()),
        k >= pending_ids(jobs).len() ==> forall|i: int|
            0 <= i < jobs.len() && is_pending(#[trigger] jobs[i]) ==> exists|a: int|
                0 <= a < k && claim_outcomes(jobs, k)[a] == Some(jobs[i].id),
{
    lemma_pending_ids_frame(jobs);
    lemma_claims_take_pending_prefix(jobs, k);
    let p = pending_ids(jobs);
    let outs = claim_outcomes(jobs, k);
    assert forall|a: int, b: int|
        #![trigger outs[a], outs[b]]
        0 <= a < b < k && outs[a] is Some implies outs[a] != outs[b] by {
        if b < p.len() {
            assert(outs[a] == Some(p[a]) && outs[b] == Some(p[b]));
            assert(p[a] < p[b]);
        } else {
            assert(outs[b] is None);
        }
    }
    if k >= p.len() {
        assert forall|i: int|
            0 <= i < jobs.len() && is_pending(#[trigger] jobs[i]) implies exists|a: int|
            0 <= a < k && claim_outcomes(jobs, k)[a] == Some(jobs[i].id) by {
            assert(p.contains(jobs[i].id));
            let w = choose|w: int| 0 <= w < p.len() && p[w] == jobs[i].id;
            assert(outs[w] == Some(jobs[i].id));
        }
    }
}

/// `s2` extends `s1`: rows were only appended.
pub open spec fn extension_of(s2: Seq<Job>, s1: Seq<Job>) -> bool {
    &&& s1.len() <= s2.len()
    &&& forall|i: int| 0 <= i < s1.len() ==> s2[i] == #[trigger] s1[i]
}

/// First-in-first-out under a single worker: a claim takes the oldest
/// pending job, and after it — no matter how many new jobs have been
/// created in between — the next claim returns a strictly larger id.
/// Ids grow in creation order, so a single worker repeatedly claiming
/// processes jobs in exactly the order they were created.
pub proof fn lemma_fifo_single_worker(s1: Seq<Job>, s2: Seq<Job>)
    requires
        ids_strictly_increasing(s1),
        seq_has_pending(s1),
        ids_strictly_increasing(s2),
        extension_of(s2, spec_claim_jobs(s1)),
    ensures
        spec_claim_result(s1) is Some,
        spec_claim_result(s2) matches Some(id2) ==> (spec_claim_result(s1) matches Some(id1)
            && id1 < id2),
{
    lemma_spec_claim(s1);
    lemma_pending_ids_frame(s1);
    let p1 = pending_ids(s1);
    let id1 = p1[0];
    let claimed = spec_claim_jobs(s1);
    lemma_pending_ids_frame(claimed);
    lemma_first_pending_exists(s1);
    let k1 = choose|k: int| is_first_pending(s1, k);
    lemma_claim_takes_first_pending(s1, k1);
    assert(s1[k1].id == id1);
    if spec_claim_result(s2) is Some {
        lemma_spec_claim(s2);
        lemma_pending_ids_frame(s2);
        let p2 = pending_ids(s2);
        let id2 = p2[0];
        assert(seq_has_pending(s2));
        assert(p2.contains(id2));
        let w = choose|w: int| 0 <= w < s2.len() && is_pending(s2[w]) && s2[w].id == id2;
        if w < claimed.len() {
            assert(s2[w] == claimed[w]);
            assert(pending_ids(claimed).contains(claimed[w].id));
            assert(pending_ids(claimed) == p1.drop_first());
            let v = choose|v: int|
                0 <= v < p1.drop_first().len() && p1.drop_first()[v] == claimed[w].id;
            assert(p1[v + 1] == claimed[w].id);
            assert(p1[0] < p1[v + 1]);
        } else {
            assert(s2[k1] == claimed[k1]);
            assert(claimed[k1].id == s1[k1].id);
            assert(s2[k1].id < s2[w].id);
        }
    }
}

/// Creation timestamps strictly increase along the table.
pub open spec fn created_at_strictly_increasing(jobs: Seq<Job>) -> bool {
    forall|i: int, j: int| 0 <= i < j < jobs.len() ==> jobs[i].created_at < jobs[j].created_at
}

/// When jobs were created with strictly increasing timestamps, the id
/// order — the order in which claims hand jobs out — is exactly the
/// creation-time order.
pub proof fn lemma_id_order_is_creation_order(jobs: Seq<Job>, a: int, b: int)
    requires
        ids_strictly_increasing(jobs),
        created_at_strictly_increasing(jobs),
        0 <= a < jobs.len(),
        0 <= b < jobs.len(),
        jobs[a].id < jobs[b].id,
    ensures
        jobs[a].created_at < jobs[b].created_at,
{
    if a == b {
        assert(false);
    } else if b < a {
        assert(jobs[b].id < jobs[a].id);
        assert(false);
    }
}

/// One operation of the queue protocol, as it acts on the table rows: a
/// read (which changes nothing), the creation of a new pending job, the
/// atomic claim, or a worker finalizing one of its processing jobs.
pub open spec fn protocol_step(s1: Seq<Job>, s2: Seq<Job>) -> bool {
    ||| s2 == s1
    ||| (exists|j: Job| is_pending(j) && s2 == s1.push(j))
    ||| s2 == spec_claim_jobs(s1)
    ||| finalize_step(s1, s2)
}

/// A worker records the outcome of one job it holds in `processing`:
/// that row becomes terminal (its result fields may be overwritten, its
/// id stays), and every other row is untouched.
pub open spec fn finalize_step(s1: Seq<Job>, s2: Seq<Job>) -> bool {
    &&& s1.len() == s2.len()
    &&& exists|k: int|
        0 <= k < s1.len() && s1[k].status == JobStatus::Processing && is_terminal(s2[k].status)
            && s2[k].id == s1[k].id && (forall|i: int|
            0 <= i < s1.len() && i != k ==> s2[i] == #[trigger] s1[i])
}

/// Statuses only move forward from `before` to `after`, row by row.
pub open spec fn statuses_monotone_from(before: Seq<Job>, after: Seq<Job>) -> bool {
    &&& before.len() <= after.len()
    &&& forall|i: int|
        0 <= i < before.len() ==> status_reaches(before[i].status, #[trigger] after[i].status)
}

/// Every single protocol operation moves statuses only forward.
pub proof fn lemma_protocol_step_monotone(s1: Seq<Job>, s2: Seq<Job>)
    requires
        protocol_step(s1, s2),
    ensures
        statuses_monotone_from(s1, s2),
{
    if s2 == spec_claim_jobs(s1) && seq_has_pending(s1) {
        lemma_first_pending_exists(s1);
    }
}

/// A run of the protocol: consecutive tables joined by protocol steps.
pub open spec fn protocol_run(tr: Seq<Seq<Job>>) -> bool {
    forall|i: int| 0 <= i < tr.len() - 1 ==> protocol_step(#[trigger] tr[i], tr[i + 1])
}

/// State monotonicity: along any run of the protocol, every job's
/// observed status sequence walks forward along
/// `pending -> processing -> {done | error}` — each later observation is
/// reachable from each earlier one, so the observations form a prefix of
/// that chain.
pub proof fn lemma_run_statuses_monotone(tr: Seq<Seq<Job>>, a: int, b: int)
    requires
        protocol_run(tr),
        0 <= a <= b < tr.len(),
    ensures
        statuses_monotone_from(tr[a], tr[b]),
    decreases b - a,
{
    if a < b {
        lemma_run_statuses_monotone(tr, a, b - 1);
        lemma_protocol_step_monotone(tr[b - 1], tr[b]);
        assert forall|i: int| 0 <= i < tr[a].len() implies status_reaches(
            tr[a][i].status,
            #[trigger] tr[b][i].status,
        ) by {
            lemma_reaches_transitive(tr[a][i].status, tr[b - 1][i].status, tr[b][i].status);
        }
    }
}

/// A job observed in a terminal state never changes state again, at any
/// later point of the run.
pub proof fn lemma_terminal_never_changes(tr: Seq<Seq<Job>>, a: int, b: int, i: int)
    requires
        protocol_run(tr),
        0 <= a <= b < tr.len(),
        0 <= i < tr[a].len(),
        is_terminal(tr[a][i].status),
    ensures
        tr[b][i].status == tr[a][i].status,
{
    lemma_run_statuses_monotone(tr, a, b);
    lemma_terminal_frozen(tr[a][i].status, tr[b][i].status);
}

/// The contract of [`crate::store::JobStore::claim_next_pending`]
/// describes exactly the spec-level claim, and hence one protocol step.
pub proof fn lemma_claim_is_protocol_step(before: Seq<Job>, after: Seq<Job>, r: Option<u64>)
    requires
        r is Some <==> seq_has_pending(before),
        r is None ==> after == before,
        forall|k: int|
            is_first_pending(before, k) ==> (after == before.update(
                k,
                with_status(before[k], JobStatus::Processing),
            ) && r == Some(before[k].id)),
    ensures
        after == spec_claim_jobs(before),
        r == spec_claim_result(before),
        protocol_step(before, after),
{
    if seq_has_pending(before) {
        lemma_first_pending_exists(before);
    }
}

/// The contract of [`crate::store::JobStore::create_job`] describes one
/// protocol step: one new pending row appended.
pub proof fn lemma_create_is_protocol_step(before: Seq<Job>, after: Seq<Job>)
    requires
        after.len() == before.len() + 1,
        forall|i: int| 0 <= i < before.len() ==> after[i] == #[trigger] before[i],
        is_pending(after.last()),
    ensures
        protocol_step(before, after),
{
    assert(after =~= before.push(after.last()));
}

/// The contracts of the three worker report operations each describe one
/// protocol step: the reported row becomes terminal, nothing else moves.
pub proof fn lemma_report_is_protocol_step(before: Seq<Job>, after: Seq<Job>, id: u64)
    requires
        ids_strictly_increasing(before),
        id_has_status(before, id, JobStatus::Processing),
        before.len() == after.len(),
        forall|i: int|
            0 <= i < before.len() && before[i].id != id ==> after[i] == #[trigger] before[i],
        forall|i: int|
            0 <= i < before.len() && #[trigger] before[i].id == id ==> (is_terminal(
                after[i].status,
            ) && after[i].id == before[i].id),
    ensures
        finalize_step(before, after),
        protocol_step(before, after),
{
    let k = choose|k: int|
        0 <= k < before.len() && before[k].id == id && before[k].status == JobStatus::Processing;
    crate::store::lemma_unique_id(before, k);
    assert(0 <= k < before.len() && before[k].status == JobStatus::Processing && is_terminal(
        after[k].status,
    ) && after[k].id == before[k].id && (forall|i: int|
        0 <= i < before.len() && i != k ==> after[i] == #[trigger] before[i]));
}

} // verus!
