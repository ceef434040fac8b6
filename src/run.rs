use vstd::prelude::*;

use crate::engine::{
    answers, blocks_for, fill_of, scratch_path_of, transition, Action, Event, Sanitization,
    Stage, BLOCK_SIZE, MAX_BLOCKS_PER_PASS, PASSES,
};
use crate::pattern::Fill;
use crate::safety::{lemma_system_volume_refused, safety_verdict};
use crate::volume::{first_named, identifiers_distinct, SanitizeError};

verus! {

/// The patterns of the first `n` writes of an overwrite with `blocks` blocks per
/// pass: `blocks` zero blocks, then `blocks` one blocks, then random blocks.
pub open spec fn fill_schedule(blocks: u64, n: int) -> Seq<Fill> {
    Seq::new(n as nat, |i: int| fill_of((i / blocks as int) as u64))
}

/// The patterns of the write actions among `actions`, in order.
pub open spec fn writes_of(actions: Seq<Action>) -> Seq<Fill>
    decreases actions.len(),
{
    if actions.len() == 0 {
        seq![]
    } else {
        let prev = writes_of(actions.drop_last());
        match actions.last() {
            Action::Write(f) => prev.push(f),
            _ => prev,
        }
    }
}

/// `states`, `events` and `actions` record a sanitization: state `k` answered
/// by event `k` became state `k + 1` and asked for action `k`.
pub open spec fn is_run(states: Seq<Sanitization>, events: Seq<Event>, actions: Seq<Action>) -> bool {
    &&& states.len() == events.len() + 1
    &&& actions.len() == events.len()
    &&& forall|k: int| 0 <= k <= events.len() ==> (#[trigger] states[k]).well_formed()
    &&& forall|k: int| 0 <= k < events.len() ==> #[trigger] answers(states[k].stage, events[k])
    &&& forall|k: int| 0 <= k < events.len() ==> #[trigger] transition(
        states[k],
        events[k],
        states[k + 1],
        actions[k],
    )
}

/// What the writes asked for up to state `s` have been, given how far it is.
pub open spec fn writes_so_far(s: Sanitization, w: Seq<Fill>, blocks: u64) -> bool {
    match s.stage {
        Stage::Listing | Stage::Probing | Stage::Creating => w.len() == 0,
        Stage::Writing { pass, block } => w == fill_schedule(blocks, pass * blocks + block + 1),
        Stage::Flushing { pass } => w == fill_schedule(blocks, (pass + 1) * blocks),
        Stage::Removing => w == fill_schedule(blocks, PASSES * blocks),
        Stage::Finished => true,
    }
}

proof fn lemma_step_of_run(states: Seq<Sanitization>, events: Seq<Event>, actions: Seq<Action>, k: int)
    requires
        is_run(states, events, actions),
        0 <= k < events.len(),
    ensures
        answers(states[k].stage, events[k]),
        transition(states[k], events[k], states[k + 1], actions[k]),
{
}

proof fn lemma_schedule_push(blocks: u64, n: int, pass: u64)
    requires
        0 <= n,
        blocks > 0,
        pass * blocks <= n < (pass + 1) * blocks,
    ensures
        fill_schedule(blocks, n + 1) == fill_schedule(blocks, n).push(fill_of(pass)),
{
    assert(n / blocks as int == pass) by (nonlinear_arith)
        requires
            blocks > 0,
            pass * blocks <= n < (pass + 1) * blocks,
    ;
    assert(fill_schedule(blocks, n + 1) =~= fill_schedule(blocks, n).push(fill_of(pass)));
}

proof fn lemma_run_prefix(states: Seq<Sanitization>, events: Seq<Event>, actions: Seq<Action>, k: int)
    requires
        is_run(states, events, actions),
        states[0].stage is Listing,
        1 <= k <= events.len(),
        events.len() >= 1,
        !(states[1].stage is Finished),
    ensures
        !(states[k].stage is Listing),
        states[k].identifier == states[0].identifier,
        states[k].blocks == states[1].blocks,
        states[k].blocks <= MAX_BLOCKS_PER_PASS,
        !(states[k].stage is Finished) ==> writes_so_far(
            states[k],
            writes_of(actions.take(k)),
            states[1].blocks,
        ),
        states[k].stage is Finished && actions[k - 1] is Complete ==> k >= 2 && states[k
            - 1].stage is Removing && writes_of(actions.take(k)) == fill_schedule(
            states[1].blocks,
            PASSES * states[1].blocks,
        ),
    decreases k,
{
    let b = states[1].blocks;
    lemma_step_of_run(states, events, actions, 0);
    assert(actions.take(1).drop_last() =~= actions.take(0));
    assert(actions.take(1).last() == actions[0]);
    assert(writes_of(actions.take(0)) =~= seq![]);
    if k > 1 {
        lemma_run_prefix(states, events, actions, k - 1);
        let s = states[k - 1];
        let t = states[k];
        let a = actions[k - 1];
        lemma_step_of_run(states, events, actions, k - 1);
        assert(actions.take(k).drop_last() =~= actions.take(k - 1));
        assert(actions.take(k).last() == a);
        assert(s.well_formed());
        match s.stage {
            Stage::Writing { pass, block } => {
                if events[k - 1] is Done {
                    if block + 1 < b {
                        assert(pass * b + block + 1 < (pass + 1) * b) by (nonlinear_arith)
                            requires
                                block + 1 < b,
                        ;
                        assert(pass * b <= pass * b + block + 1) by (nonlinear_arith);
                        lemma_schedule_push(b, pass * b + block + 1, pass);
                    } else {
                        assert(pass * b + block + 1 == (pass + 1) * b) by (nonlinear_arith)
                            requires
                                block + 1 == b,
                        ;
                    }
                }
            },
            Stage::Creating => {
                assert(writes_of(actions.take(k - 1)) =~= seq![]);
                if events[k - 1] is Done {
                    if b > 0 {
                        lemma_schedule_push(b, 0, 0);
                        assert(fill_schedule(b, 0) =~= seq![]);
                        assert(0 * b + 0 + 1 == 1) by (nonlinear_arith);
                    } else {
                        assert(fill_schedule(b, (0 + 1) * b) =~= seq![]);
                    }
                }
            },
            Stage::Flushing { pass } => {
                if events[k - 1] is Done && pass + 1 < PASSES {
                    if b > 0 {
                        assert((pass + 1) * b <= (pass + 1) * b + 0 < (pass + 1 + 1) * b) by (nonlinear_arith)
                            requires
                                b > 0,
                        ;
                        lemma_schedule_push(b, (pass + 1) * b, (pass + 1) as u64);
                        assert((pass + 1) * b + 0 + 1 == (pass + 1) * b + 1);
                    } else {
                        assert((pass + 1) * b == 0 && (pass + 1 + 1) * b == 0) by (nonlinear_arith)
                            requires
                                b == 0,
                        ;
                    }
                }
                if events[k - 1] is Done && pass + 1 >= PASSES {
                    assert(pass + 1 == PASSES);
                }
            },
            _ => {},
        }
    }
}

/// A sanitization that completes has resolved a volume in the fresh catalog,
/// fixed its blocks per pass by the policy and that volume's capacity, asked
/// for exactly `3 × blocks` writes (all zeros, then all ones, then random
/// bytes, each pass flushed), then for the scratch file's removal, and reports
/// exactly `3 × blocks` mebibytes written.
pub proof fn lemma_completed_run(states: Seq<Sanitization>, events: Seq<Event>, actions: Seq<Action>)
    requires
        is_run(states, events, actions),
        states[0].stage is Listing,
        events.len() >= 1,
        actions.last() is Complete,
    ensures
        ({
            let n = events.len() as int;
            let b = states[n].blocks;
            &&& events[0] is Listed
            &&& forall|i: int| #[trigger]
                first_named(events[0]->Listed_0@, states[0].identifier@, i) ==> b == blocks_for(
                    states[0].pass_length,
                    events[0]->Listed_0@[i].capacity_bytes,
                )
            &&& writes_of(actions) == fill_schedule(b, PASSES * b)
            &&& n >= 2 && actions[n - 2] is RemoveScratch && actions[n - 2]->RemoveScratch_0@
                == scratch_path_of(states[0].identifier@)
            &&& actions[n - 1]->Complete_0.bytes_written == PASSES * b * BLOCK_SIZE
        }),
{
    let n = events.len() as int;
    lemma_step_of_run(states, events, actions, 0);
    if n == 1 {
        assert(false);
    }
    lemma_step_of_run(states, events, actions, 1);
    lemma_run_prefix(states, events, actions, n);
    assert(actions.take(n) =~= actions);
    let r = states[n - 1];
    lemma_step_of_run(states, events, actions, n - 1);
    lemma_step_of_run(states, events, actions, n - 2);
    assert(events[0] is Listed);
    let vs = events[0]->Listed_0@;
    let id = states[0].identifier@;
    assert(safety_verdict(vs, id) is Ok);
    assert forall|i: int| #[trigger] first_named(vs, id, i) implies states[n].blocks == blocks_for(
        states[0].pass_length,
        vs[i].capacity_bytes,
    ) by {
        assert(states[1].blocks == blocks_for(states[0].pass_length, vs[i].capacity_bytes));
    }

    assert(PASSES * r.blocks * BLOCK_SIZE <= PASSES * MAX_BLOCKS_PER_PASS * BLOCK_SIZE) by (nonlinear_arith)
        requires
            r.blocks <= MAX_BLOCKS_PER_PASS,
    ;
}

/// A sanitization whose fresh catalog flags its target as the system volume
/// stops at resolution with `SystemVolumeProtected`, asking for no file action.
pub proof fn lemma_system_target_refused(s: Sanitization, e: Event, t: Sanitization, a: Action, i: int)
    requires
        transition(s, e, t, a),
        s.stage is Listing,
        e is Listed,
        identifiers_distinct(e->Listed_0@),
        0 <= i < e->Listed_0@.len(),
        e->Listed_0@[i].is_system,
        e->Listed_0@[i].identifier@ == s.identifier@,
    ensures
        t.stage is Finished,
        a == Action::Fail(SanitizeError::SystemVolumeProtected),
{
    lemma_system_volume_refused(e->Listed_0@, i);
}

} // verus!
