use crate::claims::Claims;
use crate::engine::{
    active_animations, fading, main_animation, play_repeating, started_on_repeat,
};
use crate::registry::Animations;
use bevy::animation::transition::AnimationTransitions;
use bevy::animation::AnimationPlayer;
use vstd::prelude::*;

verus! {

/// What the engine is asked to put on one newly claimed entity: the graph,
/// and the transition state that came of starting `clip` on the entity's
/// player.
#[derive(Clone, Copy, Debug, PartialEq, Eq)]
pub struct Attachment {
    pub entity: u64,
    pub clip: u32,
    pub graph: u64,
}

/// The attachment that a registry prescribes for `entity`: its first clip and
/// its graph.
pub open spec fn attachment_for(registry: Animations, entity: u64) -> Attachment {
    Attachment { entity, clip: registry.animations@[0], graph: registry.graph }
}

/// Whether some player of this tick belongs to an entity that is still unseen.
pub open spec fn has_unclaimed(claimed: Set<u64>, players: Seq<u64>) -> bool {
    exists|i: int| 0 <= i < players.len() && !claimed.contains(#[trigger] players[i])
}

/// The entities that a tick claims, in the order in which it meets them: each
/// entity of `players` that was not claimed before the tick, at its first
/// occurrence.
pub open spec fn first_sightings(claimed: Set<u64>, players: Seq<u64>) -> Seq<u64>
    decreases players.len(),
{
    if players.len() == 0 {
        Seq::empty()
    } else {
        let earlier = players.drop_last();
        let entity = players.last();
        if claimed.contains(entity) || earlier.contains(entity) {
            first_sightings(claimed, earlier)
        } else {
            first_sightings(claimed, earlier).push(entity)
        }
    }
}

/// The attachments that a tick makes: one for each entity that it claims, in
/// the order in which it claims them.
pub open spec fn tick_attachments(
    registry: Animations,
    claimed: Set<u64>,
    players: Seq<u64>,
) -> Seq<Attachment> {
    first_sightings(claimed, players).map_values(|entity: u64| attachment_for(registry, entity))
}

/// The entities of the players that a tick is shown, in the order shown.
pub open spec fn entities(players: Seq<(u64, &mut AnimationPlayer)>) -> Seq<u64> {
    players.map_values(|shown: (u64, &mut AnimationPlayer)| shown.0)
}

/// The attachments that were made, without their transition states.
pub open spec fn records(attachments: Seq<(Attachment, AnimationTransitions)>) -> Seq<Attachment> {
    attachments.map_values(|made: (Attachment, AnimationTransitions)| made.0)
}

/// Whether the tick claims the entity at place `i` of `players` there: the
/// entity was unseen before the tick and stands at no earlier place.
pub open spec fn is_first_sighting(claimed: Set<u64>, players: Seq<u64>, i: int) -> bool {
    !claimed.contains(players[i]) && !players.take(i).contains(players[i])
}

/// What a tick leaves of a player that held `before`: where it claims the
/// player's entity, `clip` has been started on repeat and nothing else has
/// changed among the player's animations; elsewhere the player is as it was.
pub open spec fn player_after_tick(
    claimed_here: bool,
    clip: u32,
    before: AnimationPlayer,
    after: AnimationPlayer,
) -> bool {
    if claimed_here {
        active_animations(after) == active_animations(before).insert(
            clip,
            started_on_repeat(active_animations(before), clip),
        )
    } else {
        after == before
    }
}

/// A transition state as the tick attaches it: `clip` is its main animation
/// and it fades nothing out.
pub open spec fn plays_only(transitions: AnimationTransitions, clip: u32) -> bool {
    main_animation(transitions) == Some(clip) && fading(transitions) == Seq::<u32>::empty()
}

/// One tick of the attachment poller.
///
/// `players` holds the animation players that the poller is shown on this
/// tick, each with its entity. An entity that is still unseen is claimed where
/// it first stands: the registry's first clip is started on that player, from
/// its beginning and on repeat, and an attachment is made of the registry's
/// graph and of a new transition state that has the clip as its main
/// animation. Every other player is left as it is.
///
/// The registry is read only if there is an unseen entity, and only then does
/// it have to hold a clip.
pub fn setup_scene_once_loaded(
    animations: &Animations,
    claims: &mut Claims,
    players: Vec<(u64, &mut AnimationPlayer)>,
) -> (attachments: Vec<(Attachment, AnimationTransitions)>)
    requires
        has_unclaimed(old(claims)@, entities(players@)) ==> animations.wf(),
    ensures
        final(claims)@ == old(claims)@.union(entities(players@).to_set()),
        old(claims)@.subset_of(final(claims)@),
        records(attachments@) == tick_attachments(*animations, old(claims)@, entities(players@)),
        forall|k: int|
            0 <= k < attachments@.len() ==> {
                &&& (#[trigger] attachments@[k]).0.clip == animations.animations@[0]
                &&& attachments@[k].0.graph == animations.graph
                &&& plays_only(attachments@[k].1, animations.animations@[0])
            },
        forall|i: int|
            0 <= i < players@.len() ==> player_after_tick(
                is_first_sighting(old(claims)@, entities(players@), i),
                animations.animations@[0],
                *(#[trigger] players@[i]).1,
                *final(players@[i].1),
            ),
        players@.len() == 0 ==> attachments@.len() == 0 && final(claims)@ == old(claims)@,
{
    let ghost before = claims@;
    let ghost shown = players@;
    let ghost ids = entities(shown);
    let mut attachments: Vec<(Attachment, AnimationTransitions)> = Vec::new();
    for pair in iter: players.into_iter()
        invariant
            iter.seq() == shown,
            ids == entities(shown),
            has_unclaimed(before, ids) ==> animations.wf(),
            claims@ == before.union(ids.take(iter.index() as int).to_set()),
            records(attachments@) == tick_attachments(
                *animations,
                before,
                ids.take(iter.index() as int),
            ),
            forall|k: int|
                0 <= k < attachments@.len() ==> {
                    &&& (#[trigger] attachments@[k]).0.clip == animations.animations@[0]
                    &&& attachments@[k].0.graph == animations.graph
                    &&& plays_only(attachments@[k].1, animations.animations@[0])
                },
            forall|i: int|
                0 <= i < iter.index() ==> player_after_tick(
                    is_first_sighting(before, ids, i),
                    animations.animations@[0],
                    *(#[trigger] shown[i]).1,
                    *final(shown[i].1),
                ),
    {
        let ghost at = iter.index() as int;
        let ghost seen = ids.take(at);
        let ghost next = ids.take(at + 1);
        let (entity, player): (u64, &mut AnimationPlayer) = pair;
        proof {
            assert(ids[at] == entity);
            assert(next =~= seen.push(entity));
            assert(next.drop_last() =~= seen);
            seen.lemma_push_to_set_commute(entity);
        }
        let ghost made_before = records(attachments@);
        if claims.claim(entity) {
            assert(!before.contains(ids[at]));
            let clip: u32 = animations.animations[0];
            let mut transitions = AnimationTransitions::new();
            play_repeating(&mut transitions, player, clip, 0);
            assert(fading(transitions) =~= Seq::<u32>::empty());
            attachments.push((Attachment { entity, clip, graph: animations.graph }, transitions));
            assert(records(attachments@) =~= made_before.push(
                attachment_for(*animations, entity),
            ));
        }
        assert(records(attachments@) =~= tick_attachments(*animations, before, next));
        assert(claims@ =~= before.union(next.to_set()));
    }
    proof {
        assert(ids.take(ids.len() as int) =~= ids);
        if shown.len() == 0 {
            assert(claims@ =~= before);
        }
    }
    attachments
}

/// How many of `attachments` are made for `entity`.
pub open spec fn times_attached(attachments: Seq<Attachment>, entity: u64) -> nat
    decreases attachments.len(),
{
    if attachments.len() == 0 {
        0
    } else if attachments.last().entity == entity {
        times_attached(attachments.drop_last(), entity) + 1
    } else {
        times_attached(attachments.drop_last(), entity)
    }
}

/// A tick claims an entity exactly if it is shown a player of that entity and
/// the entity was unseen before the tick.
pub proof fn lemma_first_sightings_contains(claimed: Set<u64>, players: Seq<u64>, entity: u64)
    ensures
        first_sightings(claimed, players).contains(entity) <==> players.contains(entity)
            && !claimed.contains(entity),
    decreases players.len(),
{
    if players.len() > 0 {
        let earlier = players.drop_last();
        lemma_first_sightings_contains(claimed, earlier, entity);
        assert(players =~= earlier.push(players.last()));
        vstd::seq_lib::lemma_seq_contains_after_push(earlier, players.last(), entity);
        vstd::seq_lib::lemma_seq_contains_after_push(
            first_sightings(claimed, earlier),
            players.last(),
            entity,
        );
    }
}

/// A tick claims no entity twice, however often it is shown.
pub proof fn lemma_first_sightings_no_duplicates(claimed: Set<u64>, players: Seq<u64>)
    ensures
        first_sightings(claimed, players).no_duplicates(),
    decreases players.len(),
{
    if players.len() > 0 {
        let earlier = players.drop_last();
        lemma_first_sightings_no_duplicates(claimed, earlier);
        lemma_first_sightings_contains(claimed, earlier, players.last());
    }
}

/// Within one tick, an entity that is shown while still unseen gets exactly
/// one attachment, and every other entity gets none.
pub proof fn lemma_tick_attaches_once(
    registry: Animations,
    claimed: Set<u64>,
    players: Seq<u64>,
    entity: u64,
)
    ensures
        times_attached(tick_attachments(registry, claimed, players), entity) == (if players.contains(
            entity,
        ) && !claimed.contains(entity) {
            1nat
        } else {
            0nat
        }),
    decreases players.len(),
{
    if players.len() > 0 {
        let earlier = players.drop_last();
        let last = players.last();
        lemma_tick_attaches_once(registry, claimed, earlier, entity);
        assert(players =~= earlier.push(last));
        vstd::seq_lib::lemma_seq_contains_after_push(earlier, last, entity);
        if !(claimed.contains(last) || earlier.contains(last)) {
            let made = tick_attachments(registry, claimed, players);
            assert(made.drop_last() =~= tick_attachments(registry, claimed, earlier));
            assert(made.last().entity == last);
        }
    }
}

/// A tick that is shown only claimed entities attaches nothing. So a second
/// tick over the same players, straight after the first, makes no attachment.
pub proof fn lemma_repeated_tick_attaches_nothing(
    registry: Animations,
    claimed: Set<u64>,
    players: Seq<u64>,
)
    ensures
        !has_unclaimed(claimed, players) ==> tick_attachments(registry, claimed, players).len()
            == 0,
        tick_attachments(registry, claimed.union(players.to_set()), players).len() == 0,
{
    lemma_nothing_unclaimed_nothing_claimed(claimed, players);
    let after = claimed.union(players.to_set());
    assert(!has_unclaimed(after, players)) by {
        assert forall|i: int| 0 <= i < players.len() implies after.contains(
            #[trigger] players[i],
        ) by {
            assert(players.contains(players[i]));
        }
    }
    lemma_nothing_unclaimed_nothing_claimed(after, players);
}

proof fn lemma_nothing_unclaimed_nothing_claimed(claimed: Set<u64>, players: Seq<u64>)
    ensures
        !has_unclaimed(claimed, players) ==> first_sightings(claimed, players).len() == 0,
    decreases players.len(),
{
    if players.len() > 0 && !has_unclaimed(claimed, players) {
        let earlier = players.drop_last();
        assert(!has_unclaimed(claimed, earlier)) by {
            assert forall|i: int| 0 <= i < earlier.len() implies claimed.contains(
                #[trigger] earlier[i],
            ) by {
                assert(earlier[i] == players[i]);
            }
        }
        lemma_nothing_unclaimed_nothing_claimed(claimed, earlier);
        assert(claimed.contains(players[players.len() - 1]));
    }
}

/// The players that a tick starts and the attachments that it makes go
/// together: an entity is attached exactly if one of its players is started,
/// and where one entity has several players, none but the first is started.
pub proof fn lemma_one_player_started_per_attachment(
    claimed: Set<u64>,
    players: Seq<u64>,
    entity: u64,
)
    ensures
        first_sightings(claimed, players).contains(entity) <==> exists|i: int|
            0 <= i < players.len() && players[i] == entity && #[trigger] is_first_sighting(
                claimed,
                players,
                i,
            ),
        forall|i: int, j: int|
            #![trigger players[i], is_first_sighting(claimed, players, j)]
            0 <= i < j < players.len() && players[i] == players[j] ==> !is_first_sighting(
                claimed,
                players,
                j,
            ),
{
    lemma_first_sightings_contains(claimed, players, entity);
    if players.contains(entity) && !claimed.contains(entity) {
        let i = lemma_first_place(players, entity);
        assert(is_first_sighting(claimed, players, i));
    }
    assert forall|i: int, j: int|
        #![trigger players[i], is_first_sighting(claimed, players, j)]
        0 <= i < j < players.len() && players[i] == players[j] implies !is_first_sighting(
        claimed,
        players,
        j,
    ) by {
        assert(players.take(j)[i] == players[j]);
    }
}

proof fn lemma_first_place(players: Seq<u64>, entity: u64) -> (i: int)
    requires
        players.contains(entity),
    ensures
        0 <= i < players.len(),
        players[i] == entity,
        !players.take(i).contains(entity),
    decreases players.len(),
{
    let earlier = players.drop_last();
    if earlier.contains(entity) {
        let i = lemma_first_place(earlier, entity);
        assert(players.take(i) =~= earlier.take(i));
        i
    } else {
        let j = choose|j: int| 0 <= j < players.len() && players[j] == entity;
        if j < players.len() - 1 {
            assert(earlier[j] == entity);
        }
        assert(players.take(players.len() - 1) =~= earlier);
        players.len() - 1
    }
}

} // verus!
