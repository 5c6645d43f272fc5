use bevy::animation::graph::AnimationNodeIndex;
use bevy::animation::{AnimationPlayer, RepeatAnimation};
use scene_viewer::claims::Claims;
use scene_viewer::poller::setup_scene_once_loaded;
use scene_viewer::scene::setup;

#[test]
fn claimed_player_plays_the_first_clip_of_the_published_registry() {
    let registry = setup().publish(vec![1], 12).unwrap();
    let mut claims = Claims::new();
    let mut player = AnimationPlayer::default();
    let made = setup_scene_once_loaded(&registry, &mut claims, vec![(600, &mut player)]);
    assert_eq!(made.len(), 1);
    assert_eq!(made[0].0.entity, 600);
    assert_eq!(made[0].0.clip, 1);
    assert_eq!(made[0].0.graph, 12);
    let first = AnimationNodeIndex::new(registry.animations[0] as usize);
    assert_eq!(made[0].1.get_main_animation(), Some(first));
    assert_eq!(player.animation(first).unwrap().repeat_mode(), RepeatAnimation::Forever);
    assert_eq!(player.animation(first).unwrap().seek_time(), 0.0);
}
