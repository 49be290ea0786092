//! The editor's configuration: which windows are open, how objects are placed,
//! and the game camera that the scene is saved with.

use vstd::prelude::*;
use crate::geometry::{zero_vec3, Scalar, Vec3};

verus! {

/// The first-person camera.
pub const FIRST_PERSON: i32 = 0;

/// The camera that orbits a target object.
pub const ORBITING: i32 = 1;

/// The camera of the running game, saved with the scene.
pub struct GameOptions {
    pub first_game_loop: bool,
    pub camera_type: i32,
    /// Index of the orbited object in the scene's object list.
    pub camera_target: i32,
    pub camera_distance: Scalar,
    pub camera_location: Vec3,
    pub camera_horizontal_rotation: bool,
    pub camera_vertical_rotation: bool,
}

impl GameOptions {
    pub open spec fn wf(&self) -> bool {
        self.camera_distance.wf() && self.camera_location.wf()
    }

    /// A first-person camera at the origin, orbiting at distance 90 when
    /// switched, with rotation locked.
    pub fn new() -> (r: GameOptions)
        ensures
            r.first_game_loop,
            r.camera_type == FIRST_PERSON,
            r.camera_target == 0,
            r.camera_distance@ == "90"@,
            r.camera_location@ == zero_vec3(),
            !r.camera_horizontal_rotation,
            !r.camera_vertical_rotation,
            r.wf(),
    {
        let distance = Scalar::from_text("90");
        proof {
            reveal_strlit("90");
            assert(crate::text::all_digits("90"@));
        }
        let camera_distance = distance.unwrap();
        GameOptions {
            first_game_loop: true,
            camera_type: FIRST_PERSON,
            camera_target: 0,
            camera_distance,
            camera_location: Vec3::zero(),
            camera_horizontal_rotation: false,
            camera_vertical_rotation: false,
        }
    }
}

impl Clone for GameOptions {
    fn clone(&self) -> (r: GameOptions)
        ensures
            r == *self,
    {
        GameOptions {
            first_game_loop: self.first_game_loop,
            camera_type: self.camera_type,
            camera_target: self.camera_target,
            camera_distance: self.camera_distance.clone(),
            camera_location: self.camera_location.clone(),
            camera_horizontal_rotation: self.camera_horizontal_rotation,
            camera_vertical_rotation: self.camera_vertical_rotation,
        }
    }
}

/// Which of the editor's windows are open.
#[derive(Clone, Copy)]
pub struct EditorWindows {
    pub world_objects: bool,
    pub model_list: bool,
    pub loaded_models: bool,
    pub scene_details: bool,
    pub camera_options: bool,
    pub lights: bool,
    pub load_window: bool,
    pub saved: bool,
    pub error_window: bool,
}

impl EditorWindows {
    /// Every window open but the notices.
    pub fn new() -> (r: EditorWindows)
        ensures
            r.world_objects && r.model_list && r.loaded_models && r.scene_details,
            r.camera_options && r.lights && r.load_window,
            !r.saved && !r.error_window,
    {
        EditorWindows {
            world_objects: true,
            model_list: true,
            loaded_models: true,
            scene_details: true,
            camera_options: true,
            lights: true,
            load_window: true,
            saved: false,
            error_window: false,
        }
    }
}

/// How new objects are placed and what the editor shows.
#[derive(Clone, Copy)]
pub struct EditorOptions {
    pub snap_to_grid: bool,
    pub show_axis: bool,
    pub place_with_mouse: bool,
    /// The entry chosen in the list of models that can get an instanced buffer.
    pub instanced_option: i32,
}

impl EditorOptions {
    /// Placement follows the mouse, off the grid, with the axes shown.
    pub fn new() -> (r: EditorOptions)
        ensures
            !r.snap_to_grid,
            r.show_axis,
            r.place_with_mouse,
            r.instanced_option == 0,
    {
        EditorOptions {
            snap_to_grid: false,
            show_axis: true,
            place_with_mouse: true,
            instanced_option: 0,
        }
    }
}

} // verus!
