use crate::engine::{decimal, digit, gltf_animation_path, is_plain_file};
use crate::registry::Animations;
use vstd::prelude::*;

verus! {

/// A key that a camera control is bound to.
#[derive(Clone, Copy, Debug, PartialEq, Eq)]
pub enum Key {
    KeyA,
    KeyD,
    KeyS,
    KeyW,
}

/// Where the camera may go. Lengths are in world units, angles in degrees.
///
/// The bound is a rectangle in the ground plane, given by its centre and by
/// half of its width and depth.
#[derive(Clone, Copy, Debug, PartialEq, Eq)]
pub struct CameraConfig {
    pub bound_center: (i32, i32),
    pub bound_half_size: (i32, i32),
    pub min_angle_degrees: i32,
    pub height_max: i32,
}

/// How the camera answers to keys, mouse and screen edges.
///
/// The speed is in world units per second. The two fractions are written in
/// hundredths: an edge width of 1 is one hundredth of the screen.
#[derive(Clone, Copy, Debug, PartialEq, Eq)]
pub struct ControlsConfig {
    pub edge_pan_width_hundredths: u32,
    pub key_left: Key,
    pub key_right: Key,
    pub key_up: Key,
    pub key_down: Key,
    pub pan_speed: u32,
    pub zoom_sensitivity_hundredths: u32,
}

/// The directional light: illuminance in lux, and its rotation as yaw, pitch
/// and roll in degrees, applied in that order.
#[derive(Clone, Copy, Debug, PartialEq, Eq)]
pub struct LightConfig {
    pub illuminance: u32,
    pub shadows_enabled: bool,
    pub yaw_degrees: i32,
    pub pitch_degrees: i32,
    pub roll_degrees: i32,
}

/// Everything the engine is asked for at startup.
#[derive(Debug)]
pub struct SceneSetup {
    /// The asset paths of the clips of the animation graph, in the order of
    /// their nodes.
    pub clips: Vec<String>,
    /// The asset path of the scene.
    pub scene: String,
    pub camera: CameraConfig,
    pub controls: ControlsConfig,
    pub light: LightConfig,
    /// The name that the light's entity carries.
    pub light_name: String,
}

/// The startup plan: one clip and the scene of the same model file, the
/// camera with its bound and controls, and the light.
pub fn setup() -> (plan: SceneSetup)
    ensures
        plan.clips@.len() == 1,
        plan.clips@[0]@ == "vehicle_depot.gltf#Animation0"@,
        plan.scene@ == "vehicle_depot.gltf#Scene0"@,
        plan.camera == (CameraConfig {
            bound_center: (0, 0),
            bound_half_size: (1000, 1000),
            min_angle_degrees: 60,
            height_max: 50,
        }),
        plan.controls == (ControlsConfig {
            edge_pan_width_hundredths: 1,
            key_left: Key::KeyA,
            key_right: Key::KeyD,
            key_up: Key::KeyW,
            key_down: Key::KeyS,
            pan_speed: 165,
            zoom_sensitivity_hundredths: 20,
        }),
        plan.light == (LightConfig {
            illuminance: 1000,
            shadows_enabled: true,
            yaw_degrees: 150,
            pitch_degrees: -40i32,
            roll_degrees: 0,
        }),
        plan.light_name@ == "Light"@,
{
    let file = "vehicle_depot.gltf";
    proof {
        reveal_strlit("vehicle_depot.gltf");
        reveal_strlit("#Animation");
        reveal_strlit("vehicle_depot.gltf#Animation0");
        assert(is_plain_file(file@));
        assert(decimal(0) =~= seq![digit(0)]);
    }
    let clip = gltf_animation_path(file, 0);
    assert(clip@ =~= "vehicle_depot.gltf#Animation0"@);
    let mut clips: Vec<String> = Vec::new();
    clips.push(clip);
    SceneSetup {
        clips,
        scene: "vehicle_depot.gltf#Scene0".to_string(),
        camera: CameraConfig {
            bound_center: (0, 0),
            bound_half_size: (1000, 1000),
            min_angle_degrees: 60,
            height_max: 50,
        },
        controls: ControlsConfig {
            edge_pan_width_hundredths: 1,
            key_left: Key::KeyA,
            key_right: Key::KeyD,
            key_up: Key::KeyW,
            key_down: Key::KeyS,
            pan_speed: 165,
            zoom_sensitivity_hundredths: 20,
        },
        light: LightConfig {
            illuminance: 1000,
            shadows_enabled: true,
            yaw_degrees: 150,
            pitch_degrees: -40,
            roll_degrees: 0,
        },
        light_name: "Light".to_string(),
    }
}

impl SceneSetup {
    /// Makes the registry out of what the engine built from the plan: the
    /// node of each clip, in the plan's order, and the graph that holds them.
    ///
    /// There is a registry exactly if the engine built one node for each clip
    /// of the plan, and at least one.
    pub fn publish(&self, nodes: Vec<u32>, graph: u64) -> (registry: Option<Animations>)
        ensures
            registry is Some <==> nodes@.len() == self.clips@.len() && nodes@.len() > 0,
            registry matches Some(r) ==> r.animations@ == nodes@ && r.graph == graph && r.wf(),
    {
        if nodes.len() == self.clips.len() && nodes.len() > 0 {
            Some(Animations { animations: nodes, graph })
        } else {
            None
        }
    }
}

} // verus!
