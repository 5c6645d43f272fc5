//! The engine's own types and functions, as far as this library calls them.
//!
//! Nothing in this file is proved. Each contract states what the engine's
//! source shows of the function that is called.

use bevy::animation::graph::AnimationNodeIndex;
use bevy::animation::transition::AnimationTransitions;
use bevy::animation::AnimationPlayer;
use bevy::gltf::GltfAssetLabel;
use std::time::Duration;
use vstd::prelude::*;

verus! {

/// `bevy::animation::AnimationPlayer`: the animations that an entity is
/// playing or has paused.
#[verifier::external_type_specification]
#[verifier::external_body]
pub struct ExAnimationPlayer(AnimationPlayer);

/// `bevy::animation::transition::AnimationTransitions`: which animation of a
/// player is the main one, and which ones are fading out.
#[verifier::external_type_specification]
#[verifier::external_body]
pub struct ExAnimationTransitions(AnimationTransitions);

/// What a player holds of one of its animations, as far as this library
/// speaks of it.
pub struct ClipState {
    /// The animation's repeat mode is `RepeatAnimation::Forever`.
    pub repeats: bool,
    /// The animation stands where `ActiveAnimation::replay` puts it: its seek
    /// time and its elapsed time are zero, and it has completed no run.
    pub at_start: bool,
    /// The animation is paused: `ActiveAnimation::is_paused`.
    pub paused: bool,
}

/// What a player that held `before` holds of `clip` once the clip has been
/// started on repeat: it repeats from its beginning, and it is paused only if
/// the player held it paused already.
pub open spec fn started_on_repeat(before: Map<u32, ClipState>, clip: u32) -> ClipState {
    ClipState {
        repeats: true,
        at_start: true,
        paused: before.dom().contains(clip) && before[clip].paused,
    }
}

/// The animations that a player holds, playing or paused, each under the index
/// of its node in the animation graph.
pub uninterp spec fn active_animations(player: AnimationPlayer) -> Map<u32, ClipState>;

/// The node index that `AnimationTransitions::get_main_animation` returns.
pub uninterp spec fn main_animation(transitions: AnimationTransitions) -> Option<u32>;

/// The animations that a transition state is fading out, oldest first, each
/// by the index of its node.
pub uninterp spec fn fading(transitions: AnimationTransitions) -> Seq<u32>;

/// The animations that fade out once `clip` has been played: the former main
/// animation joins them if the player holds it and has not paused it, and
/// `clip` itself leaves them.
pub open spec fn fading_after_play(
    main: Option<u32>,
    fades: Seq<u32>,
    active: Map<u32, ClipState>,
    clip: u32,
) -> Seq<u32> {
    let joined = if main is Some && active.dom().contains(main->0) && !active[main->0].paused {
        fades.push(main->0)
    } else {
        fades
    };
    joined.filter(|animation: u32| animation != clip)
}

/// `AnimationTransitions::new`: the default transition state, which has no
/// main animation and fades nothing out.
pub assume_specification[ AnimationTransitions::new ]() -> (transitions: AnimationTransitions)
    ensures
        main_animation(transitions) is None,
        fading(transitions) == Seq::<u32>::empty(),
;

/// `AnimationTransitions::play` on the node `clip`, with `fade_millis` as the
/// time over which the former main animation fades out, and then
/// `ActiveAnimation::repeat` on the animation that `play` hands back.
///
/// `play` makes `clip` the main animation. It puts the former main animation
/// among the fading ones if the player holds it unpaused, and keeps of the
/// fading ones those that are not `clip`. Then it calls
/// `AnimationPlayer::start`, which takes the player's entry for `clip`, or
/// makes one that is not paused, and replays it; `repeat` sets that entry's
/// repeat mode to forever. No other entry of the player is written.
#[verifier::external_body]
pub(crate) fn play_repeating(
    transitions: &mut AnimationTransitions,
    player: &mut AnimationPlayer,
    clip: u32,
    fade_millis: u64,
)
    ensures
        active_animations(*final(player)) == active_animations(*old(player)).insert(
            clip,
            started_on_repeat(active_animations(*old(player)), clip),
        ),
        main_animation(*final(transitions)) == Some(clip),
        fading(*final(transitions)) == fading_after_play(
            main_animation(*old(transitions)),
            fading(*old(transitions)),
            active_animations(*old(player)),
            clip,
        ),
{
    let node = AnimationNodeIndex::new(clip as usize);
    transitions.play(player, node, Duration::from_millis(fade_millis)).repeat();
}

/// The character that stands for a decimal digit.
pub open spec fn digit(d: nat) -> char {
    if d == 0 {
        '0'
    } else if d == 1 {
        '1'
    } else if d == 2 {
        '2'
    } else if d == 3 {
        '3'
    } else if d == 4 {
        '4'
    } else if d == 5 {
        '5'
    } else if d == 6 {
        '6'
    } else if d == 7 {
        '7'
    } else if d == 8 {
        '8'
    } else {
        '9'
    }
}

/// A number in decimal, without sign or leading zeros.
pub open spec fn decimal(n: nat) -> Seq<char>
    decreases n,
{
    if n < 10 {
        seq![digit(n)]
    } else {
        decimal(n / 10).push(digit(n % 10))
    }
}

/// A file name that the engine's asset paths take as it stands: it holds
/// neither `#` nor `:`, so it names no asset source and carries no label.
pub open spec fn is_plain_file(file: Seq<char>) -> bool {
    !file.contains('#') && !file.contains(':')
}

/// `GltfAssetLabel::Animation(index).from_asset(file)`, written out by the
/// `Display` of the `AssetPath` that comes back.
///
/// `from_asset` parses `file` as an asset path and panics where that fails. A
/// plain file name parses as a path without source or label. The label that
/// `from_asset` then sets is the `Display` of `GltfAssetLabel::Animation`: the
/// word `Animation` and the index in decimal. An asset path without source is
/// displayed as its path, `#` and its label.
#[verifier::external_body]
pub(crate) fn gltf_animation_path(file: &str, index: usize) -> (path: String)
    requires
        is_plain_file(file@),
    ensures
        path@ == file@ + "#Animation"@ + decimal(index as nat),
{
    GltfAssetLabel::Animation(index).from_asset(file.to_string()).to_string()
}

} // verus!
