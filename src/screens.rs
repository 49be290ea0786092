//! The screens the program shows, one at a time: the loading screen, then the
//! editor. Each frame the current screen takes input and may hand over to the
//! next one.

use vstd::prelude::*;
use crate::codec::{known_models_of, known_view};
use crate::geometry::Vec3;
use crate::input::{input_step, kept_sizes, pairs_view, strings_view, InputEvent, SceneData};
use crate::session::{EditorScreen, Selection};

verus! {

/// The splash shown while the renderer starts; its fade timer is kept by the
/// caller.
pub struct LoadScreen {
    pub data: SceneData,
    pub first_loop: bool,
    pub loop_num: u32,
}

impl LoadScreen {
    pub fn new() -> (r: LoadScreen)
        ensures
            r.data.wf(),
            !r.data.next_scene,
            r.data.sizes() == Seq::<(Seq<char>, crate::geometry::Vec3View)>::empty(),
            r.first_loop,
            r.loop_num == 0,
    {
        LoadScreen { data: SceneData::new_default(), first_loop: true, loop_num: 0 }
    }

    /// One frame; `timer_done` says whether the logo has been shown long
    /// enough, which ends the screen. The first frame is over once the second
    /// has begun.
    pub fn update(&mut self, timer_done: bool)
        ensures
            final(self).data.next_scene == (old(self).data.next_scene || timer_done),
            final(self).first_loop == (old(self).first_loop && old(self).loop_num != 1),
            final(self).loop_num == if old(self).loop_num < u32::MAX {
                old(self).loop_num + 1
            } else {
                old(self).loop_num as int
            },
            final(self).data.wf() == old(self).data.wf(),
            final(self).data.sizes() == old(self).data.sizes(),
    {
        if timer_done {
            self.data.next_scene = true;
        }
        if self.loop_num == 1 {
            self.first_loop = false;
        }
        if self.loop_num < u32::MAX {
            self.loop_num = self.loop_num + 1;
        }
    }
}

/// The screen being shown.
pub enum Screen {
    Loading(LoadScreen),
    Editor(EditorScreen),
}

impl Screen {
    pub open spec fn data_of(&self) -> SceneData {
        match self {
            Screen::Loading(l) => l.data,
            Screen::Editor(e) => e.data,
        }
    }

    pub open spec fn wf(&self) -> bool {
        match self {
            Screen::Loading(l) => l.data.wf(),
            Screen::Editor(e) => e.wf(),
        }
    }

    /// The program starts on the loading screen.
    pub fn new() -> (r: Screen)
        ensures
            r.wf(),
            r matches Screen::Loading(_),
    {
        Screen::Loading(LoadScreen::new())
    }

    pub fn data(&self) -> (r: &SceneData)
        ensures
            *r == self.data_of(),
    {
        match self {
            Screen::Loading(l) => &l.data,
            Screen::Editor(e) => &e.data,
        }
    }

    /// Whether this screen is done and the next one should be shown.
    pub fn scene_finished(&self) -> (r: bool)
        ensures
            r == self.data_of().next_scene,
    {
        self.data().next_scene
    }

    /// Takes in one window event; says whether the program should close.
    pub fn handle_input(&mut self, event: InputEvent) -> (r: bool)
        requires
            old(self).wf(),
        ensures
            final(self).wf(),
            r == final(self).data_of().should_close,
            input_step(old(self).data_of(), final(self).data_of(), event),
    {
        match self {
            Screen::Loading(l) => l.data.handle_input(event),
            Screen::Editor(e) => e.data.handle_input(event),
        }
    }

    /// Hands over the models to load, and forgets them.
    pub fn get_models_to_load(&mut self) -> (r: Vec<(String, String)>)
        requires
            old(self).wf(),
        ensures
            final(self).wf(),
            pairs_view(r@) == old(self).data_of().to_load(),
            final(self).data_of().to_load() == Seq::<(Seq<char>, Seq<char>)>::empty(),
            final(self).data_of().sizes() == old(self).data_of().sizes(),
    {
        match self {
            Screen::Loading(l) => l.data.get_models_to_load(),
            Screen::Editor(e) => e.data.get_models_to_load(),
        }
    }

    /// Hands over the models to drop, and forgets them; they leave the list of
    /// loaded models.
    pub fn get_models_to_unload(&mut self) -> (r: Vec<String>)
        requires
            old(self).wf(),
        ensures
            final(self).wf(),
            strings_view(r@) == old(self).data_of().to_unload(),
            final(self).data_of().to_unload() == Seq::<Seq<char>>::empty(),
            final(self).data_of().sizes() == kept_sizes(
                old(self).data_of().sizes(),
                old(self).data_of().to_unload(),
            ),
    {
        match self {
            Screen::Loading(l) => l.data.get_models_to_unload(),
            Screen::Editor(e) => e.data.get_models_to_unload(),
        }
    }

    /// A model has finished loading, with this size.
    pub fn add_model_size(&mut self, reference: String, size: Vec3)
        requires
            old(self).wf(),
        ensures
            final(self).wf(),
            final(self).data_of().sizes() == old(self).data_of().sizes().push((reference@, size@)),
    {
        match self {
            Screen::Loading(l) => l.data.add_model_size(reference, size),
            Screen::Editor(e) => e.data.add_model_size(reference, size),
        }
    }

    /// The screen after this one: the editor, with the loaded models and the
    /// models found among `model_paths`. An editor whose window changed size
    /// comes back with its scene, selection dropped; otherwise a fresh editor
    /// starts.
    pub fn future_scene(self, model_paths: &Vec<String>) -> (r: Screen)
        requires
            self.wf(),
        ensures
            r.wf(),
            r.data_of().sizes() == self.data_of().sizes(),
            r matches Screen::Editor(e) && known_view(e.known_models@) == known_models_of(
                model_paths@.map_values(|p: String| p@),
            ) && e.selection == Selection::Idle,
            self matches Screen::Editor(prev) ==> (prev.data.window_resized ==> (r matches Screen::Editor(e)
                && e.world_objects == prev.world_objects && e.scene_name == prev.scene_name
                && e.game_options == prev.game_options && e.run_game == prev.run_game)),
    {
        match self {
            Screen::Loading(l) => Screen::Editor(EditorScreen::new(l.data.model_sizes, model_paths)),
            Screen::Editor(e) => {
                if e.data.window_resized {
                    Screen::Editor(
                        EditorScreen::new_with_data(
                            e.data.model_sizes,
                            model_paths,
                            e.object_being_placed,
                            e.scene_name,
                            e.placing_height,
                            e.world_objects,
                            e.windows,
                            e.options,
                            e.game_options,
                            e.run_game,
                            e.instanced_buffers,
                        ),
                    )
                } else {
                    Screen::Editor(EditorScreen::new(e.data.model_sizes, model_paths))
                }
            },
        }
    }
}

} // verus!
