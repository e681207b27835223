//! The bounded, resumable bulk-deletion pipeline.
//!
//! One run is a state machine: fetch a batch, act on its targets one at a
//! time in returned order, then fetch again — the first page is re-queried
//! after each batch because acting removes records from the source.  A fetch
//! failure or an empty batch ends the run; an action failure aborts the run
//! in delete mode and is skipped in unlike mode.  The transitions are pinned
//! down by specification functions, and the per-batch loop is verified for
//! every behaviour a transport can have.
use crate::error::DtaError;
use crate::twitter_client::TwitterClientTrait;
use crate::twitter_object::Tweet;
use vstd::prelude::*;

verus! {

/// What one run of the pipeline does to each target.
#[derive(Clone, Copy, PartialEq, Eq, Structural, Debug)]
pub enum PipelineMode {
    /// Delete the user's tweets; an action failure aborts the run.
    DeleteTweets,
    /// Remove the user's likes; an action failure is skipped.
    UnlikeLikes,
}

/// The state of one pipeline run.
pub enum PipelineState {
    /// About to request the next page of targets.
    FetchingBatch { acted: u64 },
    /// Acting on a fetched batch, at position `next`, in returned order.
    ActingOnBatch { targets: Vec<Tweet>, next: usize, acted: u64 },
    /// The run ended: nothing was left to do, or a fetch failed.
    Done { acted: u64 },
    /// The run ended on a failed action in delete mode.
    Aborted { failed_id: String, acted: u64 },
}

impl PipelineState {
    /// A batch in progress points at a real target.
    pub open spec fn wf(self) -> bool {
        match self {
            PipelineState::ActingOnBatch { targets, next, acted } => next < targets@.len(),
            _ => true,
        }
    }

    /// How many targets were successfully acted on so far.
    pub open spec fn spec_acted(self) -> u64 {
        match self {
            PipelineState::FetchingBatch { acted } => acted,
            PipelineState::ActingOnBatch { targets, next, acted } => acted,
            PipelineState::Done { acted } => acted,
            PipelineState::Aborted { failed_id, acted } => acted,
        }
    }

    /// The batch being worked through, where one is.
    pub open spec fn spec_targets(self) -> Seq<Tweet> {
        match self {
            PipelineState::ActingOnBatch { targets, next, acted } => targets@,
            _ => Seq::empty(),
        }
    }

    /// The position in the batch being worked through, where one is.
    pub open spec fn spec_next(self) -> int {
        match self {
            PipelineState::ActingOnBatch { targets, next, acted } => next as int,
            _ => 0,
        }
    }

    /// The id of the failed action, where the run aborted.
    pub open spec fn spec_failed_id(self) -> Seq<char> {
        match self {
            PipelineState::Aborted { failed_id, acted } => failed_id@,
            _ => Seq::empty(),
        }
    }

    /// Whether the run has ended.
    pub open spec fn is_terminal(self) -> bool {
        self is Done || self is Aborted
    }
}

/// What the transport should do next for a given state.
pub enum PipelineCommand {
    /// Request the next page of targets.
    Fetch,
    /// Act on the target with this id.
    Act { id: String },
    /// The run has ended; do nothing more.
    Stop,
}

/// A fresh run: no batch yet, nothing acted on.
pub fn pipeline_start() -> (s: PipelineState)
    ensures
        s == (PipelineState::FetchingBatch { acted: 0u64 }),
{
    PipelineState::FetchingBatch { acted: 0 }
}

/// The action counter after one more success, capped at its maximum.
pub open spec fn spec_inc_acted(acted: u64) -> u64 {
    if acted == u64::MAX {
        acted
    } else {
        (acted + 1) as u64
    }
}

/// The state after a fetch outcome: a failure or an empty page ends the
/// run; a non-empty page starts a batch at its first target.
pub open spec fn spec_on_fetch(acted: u64, outcome: Result<Vec<Tweet>, DtaError>) -> PipelineState {
    match outcome {
        Ok(targets) => if targets@.len() == 0 {
            PipelineState::Done { acted }
        } else {
            PipelineState::ActingOnBatch { targets, next: 0, acted }
        },
        Err(e) => PipelineState::Done { acted },
    }
}

/// The state after one action outcome in a batch: success advances (counting
/// the action) and a finished batch goes back to fetching; a failure aborts
/// the run with the failing id in delete mode, and is skipped in unlike mode.
pub open spec fn spec_on_action(mode: PipelineMode, state: PipelineState, ok: bool) -> PipelineState {
    match state {
        PipelineState::ActingOnBatch { targets, next, acted } => {
            if ok {
                if next + 1 == targets@.len() {
                    PipelineState::FetchingBatch { acted: spec_inc_acted(acted) }
                } else {
                    PipelineState::ActingOnBatch {
                        targets,
                        next: (next + 1) as usize,
                        acted: spec_inc_acted(acted),
                    }
                }
            } else {
                match mode {
                    PipelineMode::DeleteTweets => PipelineState::Aborted {
                        failed_id: targets@[next as int].id,
                        acted,
                    },
                    PipelineMode::UnlikeLikes => {
                        if next + 1 == targets@.len() {
                            PipelineState::FetchingBatch { acted }
                        } else {
                            PipelineState::ActingOnBatch { targets, next: (next + 1) as usize, acted }
                        }
                    },
                }
            }
        },
        _ => state,
    }
}

/// What to do next: fetch when between batches, act on the target at the
/// current position within a batch, stop when the run has ended.
pub fn next_command(s: &PipelineState) -> (c: PipelineCommand)
    requires
        s.wf(),
    ensures
        match *s {
            PipelineState::FetchingBatch { .. } => c is Fetch,
            PipelineState::ActingOnBatch { .. } => c matches PipelineCommand::Act { id } && id@
                == s.spec_targets()[s.spec_next()].id@,
            _ => c is Stop,
        },
{
    match s {
        PipelineState::FetchingBatch { .. } => PipelineCommand::Fetch,
        PipelineState::ActingOnBatch { targets, next, .. } => PipelineCommand::Act {
            id: targets[*next].id.clone(),
        },
        _ => PipelineCommand::Stop,
    }
}

/// Apply a fetch outcome.
pub fn on_fetch_result(acted: u64, outcome: Result<Vec<Tweet>, DtaError>) -> (s: PipelineState)
    ensures
        s == spec_on_fetch(acted, outcome),
        s.wf(),
{
    match outcome {
        Ok(targets) => {
            if targets.len() == 0 {
                PipelineState::Done { acted }
            } else {
                PipelineState::ActingOnBatch { targets, next: 0, acted }
            }
        },
        Err(_) => PipelineState::Done { acted },
    }
}

/// Apply one action outcome within a batch.
pub fn on_action_result(mode: PipelineMode, state: PipelineState, outcome: Result<(), DtaError>) -> (s:
    PipelineState)
    requires
        state is ActingOnBatch,
        state.wf(),
    ensures
        s == spec_on_action(mode, state, outcome is Ok),
        s.wf(),
{
    match state {
        PipelineState::ActingOnBatch { targets, next, acted } => {
            let n = targets.len();
            proof {
                assert(next < n);
            }
            let new_acted: u64 = if acted == u64::MAX {
                acted
            } else {
                acted + 1
            };
            match outcome {
                Ok(_) => {
                    if next + 1 == n {
                        PipelineState::FetchingBatch { acted: new_acted }
                    } else {
                        PipelineState::ActingOnBatch { targets, next: next + 1, acted: new_acted }
                    }
                },
                Err(_) => {
                    match mode {
                        PipelineMode::DeleteTweets => {
                            let failed_id = targets[next].id.clone();
                            PipelineState::Aborted { failed_id, acted }
                        },
                        PipelineMode::UnlikeLikes => {
                            if next + 1 == n {
                                PipelineState::FetchingBatch { acted }
                            } else {
                                PipelineState::ActingOnBatch { targets, next: next + 1, acted }
                            }
                        },
                    }
                },
            }
        },
        _ => state,
    }
}

/// The run's result: success with the count of acted targets for a finished
/// run, the failing id for an aborted one.
pub fn pipeline_result(state: &PipelineState) -> (r: Result<u64, DtaError>)
    requires
        state.is_terminal(),
    ensures
        match *state {
            PipelineState::Done { acted } => r matches Ok(n) && n == acted,
            PipelineState::Aborted { .. } => r matches Err(e) && e matches DtaError::ActionFailed {
                id,
            } && id@ == state.spec_failed_id(),
            _ => true,
        },
{
    match state {
        PipelineState::Done { acted } => Ok(*acted),
        PipelineState::Aborted { failed_id, .. } => Err(
            DtaError::ActionFailed { id: failed_id.clone() },
        ),
        _ => Ok(0),
    }
}

/// Work through the current batch, acting on each remaining target in
/// returned order, pausing between actions.  In unlike mode the loop always
/// comes back to fetching; in delete mode it may abort, and the failing id
/// is the id of one of the batch's targets.
pub fn run_batch<C: TwitterClientTrait>(client: &C, mode: PipelineMode, state: PipelineState) -> (r:
    PipelineState)
    requires
        state is ActingOnBatch,
        state.wf(),
    ensures
        r is FetchingBatch || r is Aborted,
        mode is UnlikeLikes ==> r is FetchingBatch,
        r is Aborted ==> mode is DeleteTweets && exists|k: int|
            0 <= k < state.spec_targets().len() && r.spec_failed_id()
                == #[trigger] state.spec_targets()[k].id@,
        r.spec_acted() >= state.spec_acted(),
{
    let ghost orig_targets = state.spec_targets();
    let mut st = state;
    loop
        invariant_except_break
            st is ActingOnBatch,
        invariant
            st.wf(),
            st is ActingOnBatch || st is FetchingBatch || st is Aborted,
            st is ActingOnBatch ==> st.spec_targets() == orig_targets,
            st is Aborted ==> mode is DeleteTweets && exists|k: int|
                0 <= k < orig_targets.len() && st.spec_failed_id()
                    == #[trigger] orig_targets[k].id@,
            mode is UnlikeLikes ==> !(st is Aborted),
            st.spec_acted() >= state.spec_acted(),
        ensures
            st is FetchingBatch || st is Aborted,
        decreases orig_targets.len() - st.spec_next(),
    {
        let cmd = next_command(&st);
        let outcome = match cmd {
            PipelineCommand::Act { id } => {
                match mode {
                    PipelineMode::DeleteTweets => client.delete_tweet(id.as_str()),
                    PipelineMode::UnlikeLikes => client.delete_liked(id.as_str()),
                }
            },
            _ => Ok(()),
        };
        client.pause();
        let ghost pre = st;
        st = on_action_result(mode, st, outcome);
        proof {
            match pre {
                PipelineState::ActingOnBatch { targets, .. } => {
                    assert(vstd::std_specs::vec::spec_vec_len(&targets) == targets@.len()) by {
                        vstd::std_specs::vec::axiom_spec_len(&targets);
                    }
                },
                _ => {
                },
            }
            assert(st == spec_on_action(mode, pre, outcome is Ok));
            if st is Aborted {
                assert(st.spec_failed_id() == orig_targets[pre.spec_next()].id@);
            }
            if st is ActingOnBatch {
                assert(st.spec_targets() == orig_targets);
                assert(st.spec_next() == pre.spec_next() + 1);
            }
        }
        match &st {
            PipelineState::ActingOnBatch { .. } => {
            },
            _ => {
                break ;
            },
        }
    }
    st
}

/// One full round of the pipeline: fetch a page for the given mode and, if
/// it holds targets, work through the batch.  The result is a fresh
/// fetching state, a finished run, or (in delete mode only) an aborted run.
pub fn run_round<C: TwitterClientTrait>(
    client: &C,
    mode: PipelineMode,
    since: &Option<String>,
    until: &Option<String>,
    acted: u64,
) -> (r: PipelineState)
    ensures
        r is FetchingBatch || r is Done || r is Aborted,
        mode is UnlikeLikes ==> !(r is Aborted),
        r is Aborted ==> mode is DeleteTweets,
        r.spec_acted() >= acted,
{
    let outcome = match mode {
        PipelineMode::DeleteTweets => client.fetch_timeline(clone_date_opt(since), clone_date_opt(until)),
        PipelineMode::UnlikeLikes => client.fetch_likes(),
    };
    let st = on_fetch_result(acted, outcome);
    match &st {
        PipelineState::ActingOnBatch { .. } => run_batch(client, mode, st),
        _ => st,
    }
}

/// A copy of an optional date bound, character for character.
pub fn clone_date_opt(o: &Option<String>) -> (r: Option<String>)
    ensures
        match o {
            Some(s) => r matches Some(rs) && rs@ == s@,
            None => r is None,
        },
{
    match o {
        Some(s) => Some(s.clone()),
        None => None,
    }
}

/// An empty or failed fetch ends the run at once, with the count unchanged:
/// the pipeline terminates after exactly one fetch when nothing comes back.
pub proof fn lemma_empty_fetch_terminates(acted: u64, outcome: Result<Vec<Tweet>, DtaError>)
    requires
        outcome matches Ok(ts) ==> ts@.len() == 0,
    ensures
        spec_on_fetch(acted, outcome) is Done,
        spec_on_fetch(acted, outcome).spec_acted() == acted,
{
}

/// In delete mode, a failed action aborts the run at the failing target:
/// the next state carries that target's id, is terminal, and the count of
/// acted targets is unchanged — nothing after the failing target is acted on.
pub proof fn lemma_delete_failure_aborts(state: PipelineState)
    requires
        state is ActingOnBatch,
        state.wf(),
    ensures
        spec_on_action(PipelineMode::DeleteTweets, state, false) is Aborted,
        spec_on_action(PipelineMode::DeleteTweets, state, false).spec_failed_id()
            == state.spec_targets()[state.spec_next()].id@,
        spec_on_action(PipelineMode::DeleteTweets, state, false).is_terminal(),
        spec_on_action(PipelineMode::DeleteTweets, state, false).spec_acted() == state.spec_acted(),
{
}

/// In unlike mode, a failed action never aborts the run: the position
/// advances past the failing target, and after the last target the run goes
/// back to fetching — every target of the batch is attempted.
pub proof fn lemma_unlike_failure_continues(state: PipelineState)
    requires
        state is ActingOnBatch,
        state.wf(),
    ensures
        !(spec_on_action(PipelineMode::UnlikeLikes, state, false) is Aborted),
        state.spec_next() + 1 < state.spec_targets().len() ==> spec_on_action(
            PipelineMode::UnlikeLikes,
            state,
            false,
        ) is ActingOnBatch && spec_on_action(PipelineMode::UnlikeLikes, state, false).spec_next()
            == state.spec_next() + 1,
        state.spec_next() + 1 == state.spec_targets().len() ==> spec_on_action(
            PipelineMode::UnlikeLikes,
            state,
            false,
        ) is FetchingBatch,
{
    match state {
        PipelineState::ActingOnBatch { targets, next, acted } => {
            assert(vstd::std_specs::vec::spec_vec_len(&targets) == targets@.len()) by {
                vstd::std_specs::vec::axiom_spec_len(&targets);
            }
        },
        _ => {
        },
    }
}

} // verus!
