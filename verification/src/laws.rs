use vstd::prelude::*;

use crate::job::{ApiError, BabyProverError, ProverHeartbeat, ProverJob};
use crate::machine::{
    feeds, is_terminal, lemma_state_at_prefix, lemma_state_at_push, lemma_state_at_unfold,
    lemma_wf_prefix, run_outcome, run_state, size_at, spec_step, state_at, wf_events, Event,
    RoundState,
};

verus! {

/// The answer "no multiblock job exists".
pub open spec fn mb_none() -> Event {
    Event::MultiblockAnswer { answer: None }
}

/// The answer "the multiblock `[block_from; block_to]` with job `job_id`
/// is available".
pub open spec fn multi_some(block_from: u64, block_to: u64, job_id: u32) -> Event {
    Event::MultiblockAnswer { answer: Some(((block_from, block_to), job_id)) }
}

/// A heartbeat send that the channel accepted.
pub open spec fn hb_ok() -> Event {
    Event::HeartbeatSent { delivered: true }
}

/// A single-block answer that offers no job: either no answer at all or the
/// sentinel job identifier `0`.
pub open spec fn sentinel_answer(e: Event) -> bool {
    match e {
        Event::BlockAnswer { answer } => match answer {
            Some((block, job_id)) => job_id == 0,
            None => true,
        },
        _ => false,
    }
}

/// The heartbeat message that a heartbeat state sends.
pub open spec fn heartbeat_of(s: RoundState) -> Option<ProverHeartbeat> {
    match s {
        RoundState::MultiHeartbeat { job_id, .. } => Some(
            ProverHeartbeat::WorkingOn(ProverJob::MultiblockProve(job_id)),
        ),
        RoundState::BlockHeartbeat { job_id, .. } => Some(
            ProverHeartbeat::WorkingOn(ProverJob::BlockProve(job_id)),
        ),
        _ => None,
    }
}

/// The job whose data a state fetches or whose proof it publishes, if any.
pub open spec fn work_job(s: RoundState) -> Option<ProverJob> {
    match s {
        RoundState::MultiFetch { job_id, .. } => Some(ProverJob::MultiblockProve(job_id)),
        RoundState::MultiPublish { job_id, .. } => Some(ProverJob::MultiblockProve(job_id)),
        RoundState::BlockFetch { job_id, .. } => Some(ProverJob::BlockProve(job_id)),
        RoundState::BlockPublish { job_id, .. } => Some(ProverJob::BlockProve(job_id)),
        _ => None,
    }
}

/// Somewhere in the trace, a heartbeat naming `job` was delivered.
pub open spec fn sent_heartbeat(cfg: Seq<usize>, evs: Seq<Event>, job: ProverJob) -> bool {
    exists|k: int|
        0 <= k < evs.len() && evs[k] == hb_ok() && heartbeat_of(
            #[trigger] state_at(cfg, evs, k),
        ) == Some(ProverHeartbeat::WorkingOn(job))
}

/// Somewhere in the trace, size class `k` was queried and offered no job.
pub open spec fn scanned_sentinel(cfg: Seq<usize>, evs: Seq<Event>, k: int) -> bool {
    exists|p: int|
        0 <= p < evs.len() && #[trigger] state_at(cfg, evs, p) == (RoundState::Scan {
            idx: k as usize,
        }) && sentinel_answer(evs[p])
}

/// Somewhere in the trace, a size-class query answered with the job
/// `(block, job_id)`.
pub open spec fn found_block(cfg: Seq<usize>, evs: Seq<Event>, block: u64, job_id: u32) -> bool {
    exists|p: int|
        0 <= p < evs.len() && (#[trigger] state_at(cfg, evs, p)) is Scan && evs[p] == (
        Event::BlockAnswer { answer: Some((block, job_id)) })
}

/// How many heartbeats the trace delivered.
pub open spec fn hb_count(evs: Seq<Event>) -> int
    decreases evs.len(),
{
    if evs.len() == 0 {
        0
    } else {
        hb_count(evs.drop_last()) + if evs.last() == hb_ok() {
            1int
        } else {
            0int
        }
    }
}

/// The number of delivered heartbeats each state admits: none before the
/// round's single heartbeat, exactly one after it.
pub open spec fn hb_count_ok(s: RoundState, n: int) -> bool {
    match s {
        RoundState::Start => n == 0,
        RoundState::Scan { .. } => n == 0,
        RoundState::MultiHeartbeat { .. } => n == 0,
        RoundState::BlockHeartbeat { .. } => n == 0,
        RoundState::Lost => n == 0,
        RoundState::MultiFetch { .. } => n == 1,
        RoundState::MultiPublish { .. } => n == 1,
        RoundState::BlockFetch { .. } => n == 1,
        RoundState::BlockPublish { .. } => n == 1,
        RoundState::Done => n == 1,
        RoundState::Failed { .. } => 0 <= n <= 1,
    }
}

/// The round only moves forward: discovery, then scan, then heartbeat, then
/// fetch, then publish, then an end.
pub open spec fn phase(s: RoundState) -> int {
    match s {
        RoundState::Start => 0,
        RoundState::Scan { .. } => 1,
        RoundState::MultiHeartbeat { .. } => 2,
        RoundState::BlockHeartbeat { .. } => 2,
        RoundState::MultiFetch { .. } => 3,
        RoundState::BlockFetch { .. } => 3,
        RoundState::MultiPublish { .. } => 4,
        RoundState::BlockPublish { .. } => 4,
        RoundState::Done => 5,
        RoundState::Lost => 5,
        RoundState::Failed { .. } => 5,
    }
}

/// Everything a well-formed trace guarantees about the state it reaches:
/// how that state came about, which heartbeat was delivered before it, and
/// that the round never moves backwards.
pub open spec fn run_inv(cfg: Seq<usize>, evs: Seq<Event>) -> bool {
    let s = run_state(cfg, evs);
    &&& (s matches RoundState::Scan { idx } ==> idx < cfg.len() && evs.len() >= 1 && evs[0]
        == mb_none() && (forall|k: int| 0 <= k < idx ==> #[trigger] scanned_sentinel(cfg, evs, k)))
    &&& (s matches RoundState::MultiHeartbeat { block_from, block_to, job_id } ==> evs.len() >= 1
        && evs[0] == multi_some(block_from, block_to, job_id))
    &&& (s matches RoundState::MultiFetch { block_from, block_to, job_id } ==> evs.len() >= 1
        && evs[0] == multi_some(block_from, block_to, job_id) && sent_heartbeat(
        cfg,
        evs,
        ProverJob::MultiblockProve(job_id),
    ))
    &&& (s matches RoundState::MultiPublish { block_from, block_to, job_id } ==> evs.len() >= 1
        && evs[0] == multi_some(block_from, block_to, job_id) && sent_heartbeat(
        cfg,
        evs,
        ProverJob::MultiblockProve(job_id),
    ))
    &&& (s matches RoundState::BlockHeartbeat { block, job_id } ==> evs.len() >= 1 && evs[0]
        == mb_none() && (job_id == 0 ==> block == 0 && (forall|k: int|
        0 <= k < cfg.len() ==> #[trigger] scanned_sentinel(cfg, evs, k))) && (job_id != 0
        ==> found_block(cfg, evs, block, job_id)))
    &&& (s matches RoundState::BlockFetch { block, job_id } ==> evs.len() >= 1 && evs[0]
        == mb_none() && job_id != 0 && found_block(cfg, evs, block, job_id) && sent_heartbeat(
        cfg,
        evs,
        ProverJob::BlockProve(job_id),
    ))
    &&& (s matches RoundState::BlockPublish { block, job_id } ==> evs.len() >= 1 && evs[0]
        == mb_none() && job_id != 0 && found_block(cfg, evs, block, job_id) && sent_heartbeat(
        cfg,
        evs,
        ProverJob::BlockProve(job_id),
    ))
    &&& hb_count_ok(s, hb_count(evs))
    &&& (forall|p: int| 0 <= p <= evs.len() ==> phase(#[trigger] state_at(cfg, evs, p)) <= phase(s))
}

/// A delivered heartbeat stays in the trace when an event is appended.
proof fn lemma_sent_push(cfg: Seq<usize>, evs: Seq<Event>, e: Event, job: ProverJob)
    requires
        sent_heartbeat(cfg, evs, job),
    ensures
        sent_heartbeat(cfg, evs.push(e), job),
{
    let k = choose|k: int|
        0 <= k < evs.len() && evs[k] == hb_ok() && heartbeat_of(
            #[trigger] state_at(cfg, evs, k),
        ) == Some(ProverHeartbeat::WorkingOn(job));
    lemma_state_at_push(cfg, evs, e, k);
    assert(evs.push(e)[k] == evs[k]);
    assert(heartbeat_of(state_at(cfg, evs.push(e), k)) == Some(ProverHeartbeat::WorkingOn(job)));
}

/// An exhausted size class stays exhausted when an event is appended.
proof fn lemma_scanned_push(cfg: Seq<usize>, evs: Seq<Event>, e: Event, k: int)
    requires
        scanned_sentinel(cfg, evs, k),
    ensures
        scanned_sentinel(cfg, evs.push(e), k),
{
    let p = choose|p: int|
        0 <= p < evs.len() && #[trigger] state_at(cfg, evs, p) == (RoundState::Scan {
            idx: k as usize,
        }) && sentinel_answer(evs[p]);
    lemma_state_at_push(cfg, evs, e, p);
    assert(evs.push(e)[p] == evs[p]);
    assert(state_at(cfg, evs.push(e), p) == (RoundState::Scan { idx: k as usize }));
}

/// A found single-block job stays in the trace when an event is appended.
proof fn lemma_found_push(cfg: Seq<usize>, evs: Seq<Event>, e: Event, block: u64, job_id: u32)
    requires
        found_block(cfg, evs, block, job_id),
    ensures
        found_block(cfg, evs.push(e), block, job_id),
{
    let p = choose|p: int|
        0 <= p < evs.len() && (#[trigger] state_at(cfg, evs, p)) is Scan && evs[p] == (
        Event::BlockAnswer { answer: Some((block, job_id)) });
    lemma_state_at_push(cfg, evs, e, p);
    assert(evs.push(e)[p] == evs[p]);
    assert((state_at(cfg, evs.push(e), p)) is Scan);
}

/// Every answered call keeps the phase from going backwards.
proof fn lemma_phase_step(cfg: Seq<usize>, s: RoundState, e: Event)
    requires
        feeds(s, e),
    ensures
        phase(s) <= phase(spec_step(cfg, s, e)),
{
}

/// The trace invariant holds of every well-formed trace.
pub proof fn lemma_run_inv(cfg: Seq<usize>, evs: Seq<Event>)
    requires
        wf_events(cfg, evs),
    ensures
        run_inv(cfg, evs),
    decreases evs.len(),
{
    if evs.len() == 0 {
        assert(evs.take(0) =~= evs);
        assert(state_at(cfg, evs, 0) == RoundState::Start);
    } else {
        let n = evs.len() - 1;
        let prefix = evs.drop_last();
        let e = evs.last();
        assert(prefix =~= evs.take(n));
        lemma_wf_prefix(cfg, evs, n);
        lemma_run_inv(cfg, prefix);
        let s0 = run_state(cfg, prefix);
        let s1 = run_state(cfg, evs);
        assert(s1 == spec_step(cfg, s0, e));
        assert(state_at(cfg, evs, n) == s0);
        assert(feeds(s0, e));
        assert(prefix.push(e) =~= evs);
        // The states the run went through do not change under push.
        assert forall|k: int| 0 <= k <= n implies state_at(cfg, evs, k) == state_at(
            cfg,
            prefix,
            k,
        ) by {
            lemma_state_at_push(cfg, prefix, e, k);
        }
        assert(hb_count(evs) == hb_count(prefix) + if e == hb_ok() {
            1int
        } else {
            0int
        });
        // The phase never goes backwards.
        lemma_phase_step(cfg, s0, e);
        assert(evs.take(evs.len() as int) =~= evs);
        assert(state_at(cfg, evs, evs.len() as int) == s1);
        assert forall|p: int| 0 <= p <= evs.len() implies phase(#[trigger] state_at(cfg, evs, p))
            <= phase(s1) by {
            if p <= n {
                assert(phase(state_at(cfg, prefix, p)) <= phase(s0));
            }
        }
        // A run that is still at `Start` has consumed no event.
        if s0 == RoundState::Start && n >= 1 {
            assert(state_at(cfg, prefix, 0) == RoundState::Start);
            assert(feeds(state_at(cfg, prefix, 0), prefix[0]));
            lemma_state_at_unfold(cfg, prefix, 0);
            assert(phase(state_at(cfg, prefix, 1)) >= 1);
            assert(false);
        }
        // Establish the structural conjuncts for the new state.
        match s0 {
            RoundState::Start => {
                assert(n == 0);
                assert(evs[0] == e);
            },
            RoundState::MultiHeartbeat { block_from, block_to, job_id } => {
                assert(evs[0] == prefix[0]);
                if e == hb_ok() {
                    assert(state_at(cfg, evs, n) == s0);
                    assert(evs[n] == e);
                    assert(heartbeat_of(state_at(cfg, evs, n)) == Some(
                        ProverHeartbeat::WorkingOn(ProverJob::MultiblockProve(job_id)),
                    ));
                    assert(sent_heartbeat(cfg, evs, ProverJob::MultiblockProve(job_id)));
                }
            },
            RoundState::MultiFetch { block_from, block_to, job_id } => {
                assert(evs[0] == prefix[0]);
                lemma_sent_push(cfg, prefix, e, ProverJob::MultiblockProve(job_id));
            },
            RoundState::MultiPublish { block_from, block_to, job_id } => {
                assert(evs[0] == prefix[0]);
                lemma_sent_push(cfg, prefix, e, ProverJob::MultiblockProve(job_id));
            },
            RoundState::Scan { idx } => {
                assert(evs[0] == prefix[0]);
                assert forall|k: int| 0 <= k < idx implies #[trigger] scanned_sentinel(
                    cfg,
                    evs,
                    k,
                ) by {
                    assert(scanned_sentinel(cfg, prefix, k));
                    lemma_scanned_push(cfg, prefix, e, k);
                }
                if sentinel_answer(e) {
                    assert(state_at(cfg, evs, n) == (RoundState::Scan { idx: idx as usize }));
                    assert(evs[n] == e);
                    assert(scanned_sentinel(cfg, evs, idx as int));
                }
                match e {
                    Event::BlockAnswer { answer: Some((block, job_id)) } => {
                        if job_id != 0 {
                            assert(state_at(cfg, evs, n) is Scan);
                            assert(evs[n] == e);
                            assert(found_block(cfg, evs, block, job_id));
                        }
                    },
                    _ => {
                    },
                }
            },
            RoundState::BlockHeartbeat { block, job_id } => {
                assert(evs[0] == prefix[0]);
                if job_id != 0 {
                    let ghost bj = ProverJob::BlockProve(job_id);
                    if e == hb_ok() {
                        assert(evs[n] == e);
                        assert(heartbeat_of(state_at(cfg, evs, n)) == Some(
                            ProverHeartbeat::WorkingOn(bj),
                        ));
                        assert(sent_heartbeat(cfg, evs, bj));
                    }
                    lemma_found_push(cfg, prefix, e, block, job_id);
                }
            },
            RoundState::BlockFetch { block, job_id } => {
                assert(evs[0] == prefix[0]);
                lemma_found_push(cfg, prefix, e, block, job_id);
                lemma_sent_push(cfg, prefix, e, ProverJob::BlockProve(job_id));
            },
            RoundState::BlockPublish { block, job_id } => {
                assert(evs[0] == prefix[0]);
                lemma_found_push(cfg, prefix, e, block, job_id);
                lemma_sent_push(cfg, prefix, e, ProverJob::BlockProve(job_id));
            },
            _ => {
            },
        }
    }
}

/// Priority law: when the opening query answers with a multiblock job, the
/// round never reaches a scan state — no per-size query is ever issued —
/// and every heartbeat it delivers names exactly that multiblock job.
pub proof fn lemma_priority(
    cfg: Seq<usize>,
    evs: Seq<Event>,
    block_from: u64,
    block_to: u64,
    job_id: u32,
)
    requires
        wf_events(cfg, evs),
        evs.len() >= 1,
        evs[0] == multi_some(block_from, block_to, job_id),
    ensures
        forall|p: int| 0 <= p <= evs.len() ==> !((#[trigger] state_at(cfg, evs, p)) is Scan),
        forall|p: int|
            0 <= p < evs.len() && (#[trigger] evs[p]) is HeartbeatSent ==> heartbeat_of(
                state_at(cfg, evs, p),
            ) == Some(ProverHeartbeat::WorkingOn(ProverJob::MultiblockProve(job_id))),
{
    assert forall|p: int| 0 <= p <= evs.len() implies !((#[trigger] state_at(cfg, evs, p))
        is Scan) by {
        lemma_wf_prefix(cfg, evs, p);
        lemma_run_inv(cfg, evs.take(p));
        if state_at(cfg, evs, p) is Scan {
            assert(evs.take(p)[0] == evs[0]);
        }
    }
    assert forall|p: int|
        0 <= p < evs.len() && (#[trigger] evs[p]) is HeartbeatSent implies heartbeat_of(
        state_at(cfg, evs, p),
    ) == Some(ProverHeartbeat::WorkingOn(ProverJob::MultiblockProve(job_id))) by {
        assert(feeds(state_at(cfg, evs, p), evs[p]));
        lemma_wf_prefix(cfg, evs, p);
        lemma_run_inv(cfg, evs.take(p));
        assert(evs.take(p)[0] == evs[0]);
    }
}

/// First-match law: a state about to query size class `idx` queries them in
/// the listed order — every earlier class was already queried and offered
/// nothing — and no multiblock job existed.
pub proof fn lemma_first_match(cfg: Seq<usize>, evs: Seq<Event>, p: int, idx: usize)
    requires
        wf_events(cfg, evs),
        0 <= p <= evs.len(),
        state_at(cfg, evs, p) == (RoundState::Scan { idx }),
    ensures
        idx < cfg.len(),
        evs.len() >= 1 && evs[0] == mb_none(),
        forall|k: int| 0 <= k < idx ==> #[trigger] scanned_sentinel(cfg, evs.take(p), k),
{
    lemma_wf_prefix(cfg, evs, p);
    lemma_run_inv(cfg, evs.take(p));
    if p == 0 {
        assert(evs.take(0) =~= Seq::<Event>::empty());
        assert(false);
    }
    assert(evs.take(p)[0] == evs[0]);
}

/// First-match law, selection: the first size class whose answer carries a
/// non-sentinel job identifier is taken, and the scan stops there.
pub proof fn lemma_first_match_selects(
    cfg: Seq<usize>,
    evs: Seq<Event>,
    p: int,
    idx: usize,
    block: u64,
    job_id: u32,
)
    requires
        wf_events(cfg, evs),
        0 <= p < evs.len(),
        state_at(cfg, evs, p) == (RoundState::Scan { idx }),
        evs[p] == (Event::BlockAnswer { answer: Some((block, job_id)) }),
        job_id != 0,
    ensures
        state_at(cfg, evs, p + 1) == (RoundState::BlockHeartbeat { block, job_id }),
{
    lemma_state_at_unfold(cfg, evs, p);
}

/// The phase of the round never goes backwards along a trace.
pub proof fn lemma_phase_monotone(cfg: Seq<usize>, evs: Seq<Event>, p: int, q: int)
    requires
        wf_events(cfg, evs),
        0 <= p <= q <= evs.len(),
    ensures
        phase(state_at(cfg, evs, p)) <= phase(state_at(cfg, evs, q)),
{
    lemma_wf_prefix(cfg, evs, q);
    lemma_run_inv(cfg, evs.take(q));
    lemma_state_at_prefix(cfg, evs, q, p);
    assert(phase(state_at(cfg, evs.take(q), p)) <= phase(run_state(cfg, evs.take(q))));
}

/// First-match law, order: between two scan states the index only grows —
/// the size classes are queried in the listed order.
pub proof fn lemma_scan_in_order(
    cfg: Seq<usize>,
    evs: Seq<Event>,
    p: int,
    q: int,
    i: usize,
    j: usize,
)
    requires
        wf_events(cfg, evs),
        cfg.len() <= usize::MAX,
        0 <= p <= q <= evs.len(),
        state_at(cfg, evs, p) == (RoundState::Scan { idx: i }),
        state_at(cfg, evs, q) == (RoundState::Scan { idx: j }),
    ensures
        i <= j,
    decreases q - p,
{
    if p < q {
        lemma_first_match(cfg, evs, p, i);
        lemma_state_at_unfold(cfg, evs, p);
        assert(feeds(state_at(cfg, evs, p), evs[p]));
        lemma_phase_monotone(cfg, evs, p + 1, q);
        let s_next = state_at(cfg, evs, p + 1);
        assert(phase(s_next) <= 1);
        assert(s_next !is Start) by {
            lemma_first_match(cfg, evs, q, j);
            if s_next is Start {
                lemma_wf_prefix(cfg, evs, p + 1);
                lemma_run_inv(cfg, evs.take(p + 1));
                assert(state_at(cfg, evs.take(p + 1), p + 1) == run_state(cfg, evs.take(p + 1)))
                    by {
                    assert(evs.take(p + 1).take(p + 1) =~= evs.take(p + 1));
                }
                lemma_state_at_prefix(cfg, evs, p + 1, p + 1);
                assert(run_state(cfg, evs.take(p + 1)) == RoundState::Start);
                assert(phase(state_at(cfg, evs.take(p + 1), p)) <= 0);
            }
        }
        assert(s_next == (RoundState::Scan { idx: (i + 1) as usize }));
        lemma_scan_in_order(cfg, evs, p + 1, q, (i + 1) as usize, j);
    }
}

/// Once the round has moved past the scan — a job was selected, or the scan
/// never began — no size class is queried any more.
pub proof fn lemma_no_scan_after_choice(cfg: Seq<usize>, evs: Seq<Event>, p: int, q: int)
    requires
        wf_events(cfg, evs),
        0 <= p <= q <= evs.len(),
        !((state_at(cfg, evs, p)) is Start),
        !((state_at(cfg, evs, p)) is Scan),
    ensures
        !((state_at(cfg, evs, q)) is Scan),
{
    lemma_wf_prefix(cfg, evs, q);
    lemma_run_inv(cfg, evs.take(q));
    lemma_state_at_prefix(cfg, evs, q, p);
    assert(phase(state_at(cfg, evs.take(q), p)) <= phase(run_state(cfg, evs.take(q))));
    assert(evs.take(q).take(q) =~= evs.take(q));
    assert(state_at(cfg, evs.take(q), q) == run_state(cfg, evs.take(q)));
    assert(phase(state_at(cfg, evs, p)) >= 2);
}

/// Events of a round in which no work exists anywhere: the multiblock query
/// answers "none", every size-class query offers no job, and the heartbeat
/// channel accepts the round's message.
pub open spec fn idle_event(e: Event) -> bool {
    e == mb_none() || sentinel_answer(e) || e == hb_ok()
}

/// No-op idle law: a round whose queries all offer no job issues no data
/// fetch and no publication, every heartbeat it sends names the sentinel
/// job `0`, and if it ran to its end it ended successfully, with exactly
/// one heartbeat delivered.  The premise assumes, beyond the idle answers,
/// that the channel accepted the round's heartbeat (`hb_ok`): a refused
/// heartbeat is the fatal wiring fault and ends any round, idle or not,
/// with `BabyProverError::HeartbeatLost` instead of success.
pub proof fn lemma_idle_round(cfg: Seq<usize>, evs: Seq<Event>)
    requires
        wf_events(cfg, evs),
        forall|i: int| 0 <= i < evs.len() ==> idle_event(#[trigger] evs[i]),
    ensures
        forall|p: int| 0 <= p <= evs.len() ==> (work_job(#[trigger] state_at(cfg, evs, p))) is None,
        forall|p: int|
            0 <= p < evs.len() && (#[trigger] evs[p]) is HeartbeatSent ==> heartbeat_of(
                state_at(cfg, evs, p),
            ) == Some(ProverHeartbeat::WorkingOn(ProverJob::BlockProve(0))),
        is_terminal(run_state(cfg, evs)) ==> run_state(cfg, evs) == RoundState::Done && hb_count(
            evs,
        ) == 1 && run_outcome(cfg, evs) == Ok::<(), BabyProverError>(()),
{
    assert forall|p: int| 0 <= p <= evs.len() implies (work_job(
        #[trigger] state_at(cfg, evs, p),
    )) is None by {
        lemma_wf_prefix(cfg, evs, p);
        lemma_run_inv(cfg, evs.take(p));
        let s = state_at(cfg, evs, p);
        if s is MultiFetch || s is MultiPublish {
            assert(evs.take(p)[0] == evs[0]);
            assert(idle_event(evs[0]));
            assert(false);
        }
        if s is BlockFetch || s is BlockPublish {
            let (block, job_id) = match s {
                RoundState::BlockFetch { block, job_id } => (block, job_id),
                RoundState::BlockPublish { block, job_id } => (block, job_id),
                _ => (0u64, 0u32),
            };
            assert(found_block(cfg, evs.take(p), block, job_id));
            let w = choose|w: int|
                0 <= w < evs.take(p).len() && (#[trigger] state_at(cfg, evs.take(p), w)) is Scan
                    && evs.take(p)[w] == (Event::BlockAnswer { answer: Some((block, job_id)) });
            assert(evs.take(p)[w] == evs[w]);
            assert(idle_event(evs[w]));
            assert(false);
        }
    }
    assert forall|p: int|
        0 <= p < evs.len() && (#[trigger] evs[p]) is HeartbeatSent implies heartbeat_of(
        state_at(cfg, evs, p),
    ) == Some(ProverHeartbeat::WorkingOn(ProverJob::BlockProve(0))) by {
        assert(feeds(state_at(cfg, evs, p), evs[p]));
        lemma_wf_prefix(cfg, evs, p);
        lemma_run_inv(cfg, evs.take(p));
        let s = state_at(cfg, evs, p);
        if s is MultiHeartbeat {
            assert(evs.take(p)[0] == evs[0]);
            assert(idle_event(evs[0]));
            assert(false);
        }
        match s {
            RoundState::BlockHeartbeat { block, job_id } => {
                if job_id != 0 {
                    assert(found_block(cfg, evs.take(p), block, job_id));
                    let w = choose|w: int|
                        0 <= w < evs.take(p).len() && (#[trigger] state_at(cfg, evs.take(p), w))
                            is Scan && evs.take(p)[w] == (Event::BlockAnswer {
                            answer: Some((block, job_id)),
                        });
                    assert(evs.take(p)[w] == evs[w]);
                    assert(idle_event(evs[w]));
                    assert(false);
                }
            },
            _ => {
            },
        }
    }
    if is_terminal(run_state(cfg, evs)) {
        lemma_run_inv(cfg, evs);
        let n = evs.len() - 1;
        if evs.len() == 0 {
            assert(run_state(cfg, evs) == RoundState::Start);
            assert(false);
        }
        let prefix = evs.drop_last();
        let e = evs.last();
        assert(prefix =~= evs.take(n));
        lemma_wf_prefix(cfg, evs, n);
        assert(state_at(cfg, evs, n) == run_state(cfg, prefix));
        assert(feeds(run_state(cfg, prefix), e));
        assert(idle_event(evs[n]));
        assert(e == evs[n]);
        match run_state(cfg, prefix) {
            RoundState::MultiHeartbeat { .. } => {
                lemma_run_inv(cfg, prefix);
                assert(prefix[0] == evs[0]);
                assert(idle_event(evs[0]));
                assert(false);
            },
            _ => {
            },
        }
        assert(run_state(cfg, evs) == RoundState::Done);
    }
}

/// Heartbeat-precedes-work law: before any state that fetches data or
/// publishes a proof for a job, a heartbeat naming exactly that job was
/// already delivered; and that job is never the sentinel.
pub proof fn lemma_heartbeat_precedes_work(cfg: Seq<usize>, evs: Seq<Event>, p: int, job: ProverJob)
    requires
        wf_events(cfg, evs),
        0 <= p <= evs.len(),
        work_job(state_at(cfg, evs, p)) == Some(job),
    ensures
        sent_heartbeat(cfg, evs.take(p), job),
        job matches ProverJob::BlockProve(job_id) ==> job_id != 0,
{
    lemma_wf_prefix(cfg, evs, p);
    lemma_run_inv(cfg, evs.take(p));
}

/// Where the error of a failed round must point: at the operation the
/// failing state was about to perform, with that operation's block, range
/// or size-class identifiers.
pub open spec fn error_matches(cfg: Seq<usize>, s: RoundState, detail: String, err: ApiError) -> bool {
    match s {
        RoundState::Start => err == (ApiError::MultiblockToProve { detail }),
        RoundState::MultiFetch { block_from, block_to, .. } => err == (ApiError::MultiblockData {
            block_from,
            block_to,
            detail,
        }),
        RoundState::MultiPublish { block_from, block_to, .. } => err
            == (ApiError::PublishMultiblock { block_from, block_to, detail }),
        RoundState::Scan { idx } => err == (ApiError::BlockToProve {
            chunks: size_at(cfg, idx as int),
            detail,
        }),
        RoundState::BlockFetch { block, .. } => err == (ApiError::BlockData { block, detail }),
        RoundState::BlockPublish { block, .. } => err == (ApiError::PublishBlock { block, detail }),
        _ => false,
    }
}

/// Error-context law: a failed round failed on its very last event, and its
/// error names the operation that state was performing together with the
/// identifiers — block, range bounds, or size class — it was performed on.
pub proof fn lemma_error_context(cfg: Seq<usize>, evs: Seq<Event>, error: ApiError)
    requires
        wf_events(cfg, evs),
        run_state(cfg, evs) == (RoundState::Failed { error }),
    ensures
        evs.len() >= 1,
        evs.last() matches Event::ApiFailed { detail } && error_matches(
            cfg,
            state_at(cfg, evs, evs.len() - 1),
            detail,
            error,
        ),
{
    if evs.len() == 0 {
        assert(run_state(cfg, evs) == RoundState::Start);
        assert(false);
    }
    let n = evs.len() - 1;
    assert(evs.drop_last() =~= evs.take(n));
    assert(state_at(cfg, evs, n) == run_state(cfg, evs.drop_last()));
    assert(feeds(state_at(cfg, evs, n), evs.last()));
}

/// One-heartbeat law: a round that ran to a successful end delivered
/// exactly one heartbeat.
pub proof fn lemma_one_heartbeat(cfg: Seq<usize>, evs: Seq<Event>)
    requires
        wf_events(cfg, evs),
        run_state(cfg, evs) == RoundState::Done,
    ensures
        hb_count(evs) == 1,
{
    lemma_run_inv(cfg, evs);
}

} // verus!
