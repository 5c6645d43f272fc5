//! Runs of ticks.
//!
//! A tick of the poller turns the claims `c` into `c` and the entities it is
//! shown, and makes `tick_attachments` of the registry, `c` and those
//! entities. A run is what that gives over a sequence of ticks.

use crate::poller::{
    lemma_tick_attaches_once, tick_attachments, times_attached, Attachment,
};
use crate::registry::Animations;
use vstd::prelude::*;

verus! {

/// The claimed entities after a run of ticks, each tick given by the
/// entities of the players it is shown.
pub open spec fn claims_after(claimed: Set<u64>, ticks: Seq<Seq<u64>>) -> Set<u64>
    decreases ticks.len(),
{
    if ticks.len() == 0 {
        claimed
    } else {
        claims_after(claimed, ticks.drop_last()).union(ticks.last().to_set())
    }
}

/// The attachments made over a run of ticks, in the order in which they are
/// made.
pub open spec fn run_attachments(
    registry: Animations,
    claimed: Set<u64>,
    ticks: Seq<Seq<u64>>,
) -> Seq<Attachment>
    decreases ticks.len(),
{
    if ticks.len() == 0 {
        Seq::empty()
    } else {
        run_attachments(registry, claimed, ticks.drop_last()) + tick_attachments(
            registry,
            claims_after(claimed, ticks.drop_last()),
            ticks.last(),
        )
    }
}

/// Whether some tick of the run is shown a player of `entity`.
pub open spec fn sighted_in(ticks: Seq<Seq<u64>>, entity: u64) -> bool {
    exists|t: int| 0 <= t < ticks.len() && (#[trigger] ticks[t]).contains(entity)
}

/// After a run of ticks the claimed entities are those claimed before it and
/// those shown in one of its ticks. In particular a claimed entity stays
/// claimed.
pub proof fn lemma_claims_after_contains(claimed: Set<u64>, ticks: Seq<Seq<u64>>, entity: u64)
    ensures
        claims_after(claimed, ticks).contains(entity) <==> claimed.contains(entity) || sighted_in(
            ticks,
            entity,
        ),
    decreases ticks.len(),
{
    if ticks.len() > 0 {
        let earlier = ticks.drop_last();
        lemma_claims_after_contains(claimed, earlier, entity);
        if sighted_in(earlier, entity) {
            let t = choose|t: int| 0 <= t < earlier.len() && (#[trigger] earlier[t]).contains(entity);
            assert(ticks[t].contains(entity));
        }
        if ticks.last().contains(entity) {
            assert(ticks[ticks.len() - 1].contains(entity));
        }
        if sighted_in(ticks, entity) {
            let t = choose|t: int| 0 <= t < ticks.len() && (#[trigger] ticks[t]).contains(entity);
            if t < earlier.len() {
                assert(earlier[t].contains(entity));
            }
        }
    }
}

/// Counting the attachments of an entity in two runs of attachments, one after
/// the other, adds up.
pub proof fn lemma_times_attached_concat(
    first: Seq<Attachment>,
    second: Seq<Attachment>,
    entity: u64,
)
    ensures
        times_attached(first + second, entity) == times_attached(first, entity) + times_attached(
            second,
            entity,
        ),
    decreases second.len(),
{
    if second.len() == 0 {
        assert(first + second =~= first);
    } else {
        lemma_times_attached_concat(first, second.drop_last(), entity);
        assert((first + second).drop_last() =~= first + second.drop_last());
    }
}

/// Over any run of ticks, an entity that was unseen at its start and is shown
/// in at least one tick gets exactly one attachment, however many ticks show
/// it and however often. Every other entity gets none.
pub proof fn lemma_run_attaches_once(
    registry: Animations,
    claimed: Set<u64>,
    ticks: Seq<Seq<u64>>,
    entity: u64,
)
    ensures
        times_attached(run_attachments(registry, claimed, ticks), entity) == (if !claimed.contains(
            entity,
        ) && sighted_in(ticks, entity) {
            1nat
        } else {
            0nat
        }),
    decreases ticks.len(),
{
    if ticks.len() > 0 {
        let earlier = ticks.drop_last();
        let before = claims_after(claimed, earlier);
        lemma_run_attaches_once(registry, claimed, earlier, entity);
        lemma_claims_after_contains(claimed, earlier, entity);
        lemma_tick_attaches_once(registry, before, ticks.last(), entity);
        lemma_times_attached_concat(
            run_attachments(registry, claimed, earlier),
            tick_attachments(registry, before, ticks.last()),
            entity,
        );
        if sighted_in(earlier, entity) {
            let t = choose|t: int| 0 <= t < earlier.len() && (#[trigger] earlier[t]).contains(entity);
            assert(ticks[t].contains(entity));
        }
        if ticks.last().contains(entity) {
            assert(ticks[ticks.len() - 1].contains(entity));
        }
        if sighted_in(ticks, entity) {
            let t = choose|t: int| 0 <= t < ticks.len() && (#[trigger] ticks[t]).contains(entity);
            if t < earlier.len() {
                assert(earlier[t].contains(entity));
            }
        }
    }
}

} // verus!
