use bevy::animation::graph::AnimationNodeIndex;
use bevy::animation::transition::AnimationTransitions;
use bevy::animation::{AnimationPlayer, RepeatAnimation};
use scene_viewer::claims::Claims;
use scene_viewer::poller::{setup_scene_once_loaded, Attachment};
use scene_viewer::registry::Animations;

fn registry() -> Animations {
    Animations { animations: vec![4, 8, 15], graph: 23 }
}

fn records(made: &Vec<(Attachment, AnimationTransitions)>) -> Vec<Attachment> {
    made.iter().map(|(attachment, _)| *attachment).collect()
}

fn untouched(player: &AnimationPlayer) -> bool {
    player.playing_animations().count() == 0
}

#[test]
fn new_player_is_attached_with_first_clip_and_graph() {
    let mut claims = Claims::new();
    let mut player = AnimationPlayer::default();
    let made = setup_scene_once_loaded(&registry(), &mut claims, vec![(42, &mut player)]);
    assert_eq!(records(&made), vec![Attachment { entity: 42, clip: 4, graph: 23 }]);
    assert!(claims.is_claimed(42));
}

#[test]
fn new_player_plays_the_first_clip_from_its_beginning_on_repeat() {
    let mut claims = Claims::new();
    let mut player = AnimationPlayer::default();
    let made = setup_scene_once_loaded(&registry(), &mut claims, vec![(42, &mut player)]);
    let first = AnimationNodeIndex::new(4);
    assert!(player.is_playing_animation(first));
    assert_eq!(player.playing_animations().count(), 1);
    let active = player.animation(first).unwrap();
    assert_eq!(active.repeat_mode(), RepeatAnimation::Forever);
    assert_eq!(active.seek_time(), 0.0);
    assert_eq!(active.elapsed(), 0.0);
    assert_eq!(active.completions(), 0);
    assert!(!active.is_paused());
    assert!(!active.is_finished());
    assert_eq!(made.len(), 1);
    assert_eq!(made[0].1.get_main_animation(), Some(first));
}

#[test]
fn other_clips_of_the_registry_are_not_started() {
    let mut claims = Claims::new();
    let mut player = AnimationPlayer::default();
    let _made = setup_scene_once_loaded(&registry(), &mut claims, vec![(42, &mut player)]);
    assert!(!player.is_playing_animation(AnimationNodeIndex::new(0)));
    assert!(!player.is_playing_animation(AnimationNodeIndex::new(8)));
    assert!(!player.is_playing_animation(AnimationNodeIndex::new(15)));
}

#[test]
fn players_are_attached_in_the_order_shown() {
    let mut claims = Claims::new();
    let (mut a, mut b, mut c) =
        (AnimationPlayer::default(), AnimationPlayer::default(), AnimationPlayer::default());
    let made = setup_scene_once_loaded(
        &registry(),
        &mut claims,
        vec![(9, &mut a), (3, &mut b), (6, &mut c)],
    );
    let entities: Vec<u64> = made.iter().map(|(attachment, _)| attachment.entity).collect();
    assert_eq!(entities, vec![9, 3, 6]);
    for (attachment, transitions) in &made {
        assert_eq!(attachment.clip, 4);
        assert_eq!(attachment.graph, 23);
        assert_eq!(transitions.get_main_animation(), Some(AnimationNodeIndex::new(4)));
    }
    for player in [&a, &b, &c] {
        assert!(player.is_playing_animation(AnimationNodeIndex::new(4)));
    }
}

#[test]
fn entity_shown_twice_in_one_tick_is_attached_once() {
    let mut claims = Claims::new();
    let (mut a, mut b, mut c, mut d) = (
        AnimationPlayer::default(),
        AnimationPlayer::default(),
        AnimationPlayer::default(),
        AnimationPlayer::default(),
    );
    let made = setup_scene_once_loaded(
        &registry(),
        &mut claims,
        vec![(5, &mut a), (5, &mut b), (9, &mut c), (5, &mut d)],
    );
    assert_eq!(
        records(&made),
        vec![
            Attachment { entity: 5, clip: 4, graph: 23 },
            Attachment { entity: 9, clip: 4, graph: 23 },
        ]
    );
    assert!(a.is_playing_animation(AnimationNodeIndex::new(4)));
    assert!(untouched(&b));
    assert!(c.is_playing_animation(AnimationNodeIndex::new(4)));
    assert!(untouched(&d));
}

#[test]
fn same_players_on_the_next_tick_get_nothing() {
    let mut claims = Claims::new();
    let (mut a, mut b) = (AnimationPlayer::default(), AnimationPlayer::default());
    let first = setup_scene_once_loaded(&registry(), &mut claims, vec![(1, &mut a), (2, &mut b)]);
    assert_eq!(first.len(), 2);
    a.animation_mut(AnimationNodeIndex::new(4)).unwrap().set_seek_time(1.5);
    let second = setup_scene_once_loaded(&registry(), &mut claims, vec![(1, &mut a), (2, &mut b)]);
    assert!(second.is_empty());
    assert_eq!(a.animation(AnimationNodeIndex::new(4)).unwrap().seek_time(), 1.5);
    assert!(claims.is_claimed(1) && claims.is_claimed(2));
}

#[test]
fn claimed_entity_is_skipped_and_unseen_one_is_attached() {
    let mut claims = Claims::new();
    assert!(claims.claim(1));
    let (mut a, mut b) = (AnimationPlayer::default(), AnimationPlayer::default());
    let made = setup_scene_once_loaded(&registry(), &mut claims, vec![(1, &mut a), (2, &mut b)]);
    assert_eq!(records(&made), vec![Attachment { entity: 2, clip: 4, graph: 23 }]);
    assert!(untouched(&a));
    assert!(b.is_playing_animation(AnimationNodeIndex::new(4)));
    assert!(claims.is_claimed(1));
    assert!(claims.is_claimed(2));
}

#[test]
fn tick_without_players_attaches_nothing_and_claims_nothing() {
    let mut claims = Claims::new();
    assert!(claims.claim(11));
    let made = setup_scene_once_loaded(&registry(), &mut claims, Vec::new());
    assert!(made.is_empty());
    assert!(claims.is_claimed(11));
    assert!(!claims.is_claimed(12));
}

#[test]
fn tick_without_players_does_not_read_the_registry() {
    let empty = Animations { animations: Vec::new(), graph: 0 };
    let mut claims = Claims::new();
    let made = setup_scene_once_loaded(&empty, &mut claims, Vec::new());
    assert!(made.is_empty());
}

#[test]
fn tick_with_only_claimed_players_does_not_read_the_registry() {
    let empty = Animations { animations: Vec::new(), graph: 0 };
    let mut claims = Claims::new();
    assert!(claims.claim(3));
    let (mut a, mut b) = (AnimationPlayer::default(), AnimationPlayer::default());
    let made = setup_scene_once_loaded(&empty, &mut claims, vec![(3, &mut a), (3, &mut b)]);
    assert!(made.is_empty());
    assert!(untouched(&a) && untouched(&b));
}

#[test]
fn player_keeps_its_other_animations_when_claimed() {
    let other = AnimationNodeIndex::new(5);
    let mut player = AnimationPlayer::default();
    player.play(other).set_repeat(RepeatAnimation::Count(3)).set_seek_time(1.5);
    let mut claims = Claims::new();
    let _made = setup_scene_once_loaded(&registry(), &mut claims, vec![(42, &mut player)]);
    let kept = player.animation(other).unwrap();
    assert_eq!(kept.repeat_mode(), RepeatAnimation::Count(3));
    assert_eq!(kept.seek_time(), 1.5);
    assert!(player.is_playing_animation(AnimationNodeIndex::new(4)));
    assert_eq!(player.playing_animations().count(), 2);
}

#[test]
fn clip_that_was_already_running_is_rewound_and_set_on_repeat() {
    let first = AnimationNodeIndex::new(4);
    let mut player = AnimationPlayer::default();
    player.play(first).set_repeat(RepeatAnimation::Never).set_seek_time(2.25);
    let mut claims = Claims::new();
    let made = setup_scene_once_loaded(&registry(), &mut claims, vec![(42, &mut player)]);
    let active = player.animation(first).unwrap();
    assert_eq!(active.repeat_mode(), RepeatAnimation::Forever);
    assert_eq!(active.seek_time(), 0.0);
    assert!(!active.is_paused());
    assert_eq!(player.playing_animations().count(), 1);
    assert_eq!(made[0].1.get_main_animation(), Some(first));
}

#[test]
fn clip_that_was_paused_stays_paused() {
    let first = AnimationNodeIndex::new(4);
    let mut player = AnimationPlayer::default();
    player.play(first).set_seek_time(0.75).pause();
    let mut claims = Claims::new();
    let _made = setup_scene_once_loaded(&registry(), &mut claims, vec![(42, &mut player)]);
    let active = player.animation(first).unwrap();
    assert!(active.is_paused());
    assert_eq!(active.repeat_mode(), RepeatAnimation::Forever);
    assert_eq!(active.seek_time(), 0.0);
}

#[test]
fn entity_appearing_on_the_fifth_tick_is_claimed_once_for_good() {
    let registry = registry();
    let mut claims = Claims::new();
    let mut player = AnimationPlayer::default();
    let mut all: Vec<Attachment> = Vec::new();
    for tick in 1..=100u32 {
        let players = if tick == 5 { vec![(77, &mut player)] } else { Vec::new() };
        let made = setup_scene_once_loaded(&registry, &mut claims, players);
        if tick == 5 {
            assert_eq!(records(&made), vec![Attachment { entity: 77, clip: 4, graph: 23 }]);
        } else {
            assert!(made.is_empty());
        }
        assert_eq!(claims.is_claimed(77), tick >= 5);
        all.extend(records(&made));
    }
    assert_eq!(all, vec![Attachment { entity: 77, clip: 4, graph: 23 }]);
    assert!(player.is_playing_animation(AnimationNodeIndex::new(4)));
}

#[test]
fn entity_shown_on_every_tick_from_the_fifth_is_attached_once() {
    let registry = registry();
    let mut claims = Claims::new();
    let mut player = AnimationPlayer::default();
    let mut count = 0;
    for tick in 1..=100u32 {
        let players = if tick >= 5 { vec![(77, &mut player)] } else { Vec::new() };
        let made = setup_scene_once_loaded(&registry, &mut claims, players);
        count += made.iter().filter(|(attachment, _)| attachment.entity == 77).count();
        assert_eq!(claims.is_claimed(77), tick >= 5);
        if tick == 50 {
            player.animation_mut(AnimationNodeIndex::new(4)).unwrap().set_seek_time(3.0);
        }
    }
    assert_eq!(count, 1);
    assert_eq!(player.animation(AnimationNodeIndex::new(4)).unwrap().seek_time(), 3.0);
}

#[test]
fn two_entities_appearing_on_different_ticks_get_one_attachment_each() {
    let registry = registry();
    let mut claims = Claims::new();
    let ticks: Vec<Vec<u64>> = vec![vec![], vec![1], vec![1, 2], vec![2, 1, 2], vec![]];
    let mut all: Vec<Attachment> = Vec::new();
    for entities in &ticks {
        let mut fresh: Vec<AnimationPlayer> =
            entities.iter().map(|_| AnimationPlayer::default()).collect();
        let players = entities.iter().copied().zip(fresh.iter_mut()).collect();
        all.extend(records(&setup_scene_once_loaded(&registry, &mut claims, players)));
    }
    assert_eq!(
        all,
        vec![
            Attachment { entity: 1, clip: 4, graph: 23 },
            Attachment { entity: 2, clip: 4, graph: 23 },
        ]
    );
}
