use maat_editor::geometry::{Scalar, Vec3};
use maat_editor::input::{InputEvent, MouseButton, SceneData};
use maat_editor::screens::{LoadScreen, Screen};
use maat_editor::session::{
    scene_name_from_path, DrawCommand, EditorScreen, ModeChange, PlacementInput, Selection,
};
use maat_editor::world_object::ScriptState;

fn sc(s: &str) -> Scalar {
    Scalar::from_text(s).unwrap()
}

fn v3(x: &str, y: &str, z: &str) -> Vec3 {
    Vec3::new(sc(x), sc(y), sc(z))
}

fn texts(v: &Vec3) -> (String, String, String) {
    (v.x.text(), v.y.text(), v.z.text())
}

fn editor() -> EditorScreen {
    let sizes = vec![("Hexagon".to_string(), v3("1", "1", "1")), ("Axis".to_string(), v3("2", "2", "2"))];
    let paths = vec!["./Models/Hexagon.glb".to_string(), "./Models/Axis.glb".to_string()];
    EditorScreen::new(sizes, &paths)
}

fn click(left: bool, right: bool) -> PlacementInput {
    PlacementInput { left_clicked: left, right_clicked: right, one_pressed: false, moved_to: None }
}

fn place(e: &mut EditorScreen, model: usize, pos: Vec3) {
    e.select_model(model);
    e.change_selected_object();
    e.set_placement_position(pos);
    e.update_input(click(true, false));
}

#[test]
fn ids_are_max_plus_one() {
    let mut e = editor();
    assert_eq!(e.next_id(), Some(0));
    place(&mut e, 0, v3("1", "2", "3"));
    place(&mut e, 1, v3("0", "0", "0"));
    place(&mut e, 0, v3("0", "0", "0"));
    let ids: Vec<u32> = e.world_objects.iter().map(|o| o.id()).collect();
    assert_eq!(ids, vec![0, 1, 2]);
    assert_eq!(e.world_objects[1].name(), "Axis1");
    assert!(e.delete_object(1).is_none());
    assert_eq!(e.next_id(), Some(3));
    e.delete_object(1);
    assert_eq!(e.next_id(), Some(1));
    place(&mut e, 1, v3("0", "0", "0"));
    let ids: Vec<u32> = e.world_objects.iter().map(|o| o.id()).collect();
    assert_eq!(ids, vec![0, 1]);
}

#[test]
fn next_id_follows_the_largest_not_the_last() {
    let mut e = editor();
    let mut scene = Vec::new();
    scene.extend_from_slice(
        b"id,name,model,location,instanced,x,y,z,rot_x,rot_y,rot_z,size_x,size_y,size_z\n\
          9,A9,Axis,./Models/Axis.glb,false,0,0,0,0,0,0,1,1,1\n\
          4,A4,Axis,./Models/Axis.glb,false,0,0,0,0,0,0,1,1,1\n",
    );
    e.load_scene("loaded".to_string(), Ok(scene), Err("none".to_string()));
    assert_eq!(e.next_id(), Some(10));
    assert_eq!(e.scene_name, "loaded");
    assert_eq!(e.data.get_models_to_load(), vec![("Axis".to_string(), "./Models/Axis.glb".to_string())]);
}

#[test]
fn placing_then_cancelling_keeps_the_scene() {
    let mut e = editor();
    e.change_selected_object();
    assert_eq!(e.selection, Selection::Placing);
    assert!(e.object_being_placed.is_some());
    e.update_input(click(false, true));
    assert!(e.object_being_placed.is_none());
    assert_eq!(e.selection, Selection::Idle);
    assert!(e.world_objects.is_empty());
    e.update_input(click(true, false));
    assert!(e.world_objects.is_empty());
}

#[test]
fn unknown_model_places_nothing() {
    let sizes = vec![("Ghost".to_string(), v3("1", "1", "1"))];
    let mut e = EditorScreen::new(sizes, &vec!["./Models/Axis.glb".to_string()]);
    e.change_selected_object();
    assert!(e.object_being_placed.is_none());
    assert_eq!(e.selection, Selection::Idle);
}

#[test]
fn nudging_moves_the_edited_object() {
    let mut e = editor();
    place(&mut e, 0, v3("1", "2", "3"));
    e.select(Selection::Editing(0));
    assert_eq!(texts(&e.selected_position().unwrap()), ("1".to_string(), "2".to_string(), "3".to_string()));
    e.update_input(PlacementInput {
        left_clicked: false,
        right_clicked: false,
        one_pressed: false,
        moved_to: Some(v3("1.5", "2", "3")),
    });
    assert_eq!(texts(&e.world_objects[0].position()), ("1.5".to_string(), "2".to_string(), "3".to_string()));
    e.select(Selection::Editing(5));
    assert_eq!(e.selection, Selection::Idle);
}

#[test]
fn run_mode_toggles_once_per_press() {
    let mut e = editor();
    assert_eq!(e.apply_run_mode(false, true), ModeChange::Started);
    e.end_frame(true, false);
    let was = e.run_game;
    assert_eq!(e.apply_run_mode(was, true), ModeChange::Unchanged);
    assert!(e.run_game);
    e.end_frame(true, false);
    e.end_frame(false, false);
    let was = e.run_game;
    assert_eq!(e.apply_run_mode(was, true), ModeChange::Stopped);
    assert!(!e.run_game);
}

#[test]
fn leaving_run_mode_restores_transforms() {
    let mut e = editor();
    place(&mut e, 0, v3("1", "2", "3"));
    place(&mut e, 1, v3("-4", "0", "8"));
    assert_eq!(e.apply_run_mode(false, true), ModeChange::Started);
    e.end_frame(true, false);
    assert!(e.begin_game_frame());
    assert!(!e.options.show_axis);
    for i in 0..e.world_objects.len() {
        e.load_object_script(i, Some("-- script".to_string()));
        let (_, function, state) = e.script_call(i).unwrap();
        assert!(function.ends_with("update"));
        let moved = ScriptState {
            transform: maat_editor::geometry::Transform::new(v3("9", "9", "9"), v3("45", "0", "0"), v3("2", "2", "2")),
            velocity: state.velocity,
            acceleration: state.acceleration,
        };
        e.apply_script_result(i, moved);
    }
    assert_eq!(texts(&e.world_objects[0].position()), ("9".to_string(), "9".to_string(), "9".to_string()));
    e.end_frame(false, false);
    assert_eq!(e.apply_run_mode(true, true), ModeChange::Stopped);
    assert_eq!(texts(&e.world_objects[0].position()), ("1".to_string(), "2".to_string(), "3".to_string()));
    assert_eq!(texts(&e.world_objects[0].rotation()), ("0".to_string(), "0".to_string(), "0".to_string()));
    assert_eq!(texts(&e.world_objects[1].position()), ("-4".to_string(), "0".to_string(), "8".to_string()));
    assert_eq!(texts(&e.world_objects[1].size()), ("1".to_string(), "1".to_string(), "1".to_string()));
    e.begin_edit_frame();
    assert!(e.options.show_axis);
}

#[test]
fn camera_follows_its_target() {
    let mut e = editor();
    place(&mut e, 0, v3("1", "2", "3"));
    e.game_options.camera_target = 0;
    assert_eq!(texts(&e.camera_target_position().unwrap()), ("1".to_string(), "2".to_string(), "3".to_string()));
    e.game_options.camera_target = 1;
    assert!(e.camera_target_position().is_none());
    e.game_options.camera_target = -1;
    assert!(e.camera_target_position().is_none());
}

#[test]
fn removing_a_buffer_clears_every_object_of_its_model() {
    let mut e = editor();
    e.request_instanced_buffer("Hexagon".to_string());
    e.request_instanced_buffer("Hexagon".to_string());
    e.apply_added_buffers();
    assert_eq!(e.instanced_buffers.names(), &vec!["Hexagon".to_string()]);
    assert_eq!(e.instanced_choices(), vec!["Axis".to_string()]);
    place(&mut e, 0, v3("0", "0", "0"));
    e.select(Selection::Editing(0));
    e.set_selected_instanced(true);
    assert!(e.world_objects[0].instanced_rendered());
    e.select(Selection::Idle);
    e.select_model(1);
    e.select_model(0);
    e.change_selected_object();
    e.set_selected_instanced(true);
    assert!(e.object_being_placed.as_ref().unwrap().instanced_rendered());
    e.remove_instanced_buffer(&"Hexagon".to_string());
    assert!(!e.world_objects[0].instanced_rendered());
    assert!(!e.object_being_placed.as_ref().unwrap().instanced_rendered());
    assert_eq!(e.instanced_choices(), vec!["Hexagon".to_string(), "Axis".to_string()]);
}

#[test]
fn draw_plan_orders_the_frame() {
    let mut e = editor();
    place(&mut e, 0, v3("0", "0", "0"));
    place(&mut e, 1, v3("0", "0", "0"));
    e.select(Selection::Editing(1));
    e.request_instanced_buffer("Axis".to_string());
    assert_eq!(
        e.draw(),
        vec![
            DrawCommand::AddInstancedBuffer(0),
            DrawCommand::SetLight,
            DrawCommand::SetCamera,
            DrawCommand::Object(0, false),
            DrawCommand::Object(1, true),
            DrawCommand::Axis,
        ]
    );
    e.apply_added_buffers();
    e.change_selected_object();
    e.options.show_axis = false;
    assert_eq!(
        e.draw(),
        vec![
            DrawCommand::SetLight,
            DrawCommand::SetCamera,
            DrawCommand::Object(0, false),
            DrawCommand::Object(1, false),
            DrawCommand::Candidate,
            DrawCommand::Instanced(0),
        ]
    );
}

#[test]
fn save_copies_scripts_into_a_new_scene() {
    let mut e = editor();
    place(&mut e, 0, v3("0", "0", "0"));
    place(&mut e, 1, v3("0", "0", "0"));
    e.world_objects[1].script_created();
    let (copies, files) = e.save();
    assert!(copies.is_empty());
    assert!(e.windows.saved);
    assert_eq!(files.scene_path, "./Scenes/empty_scene/empty_scene.csv");
    e.set_scene_name("other".to_string());
    let (copies, files) = e.save();
    assert_eq!(copies.len(), 1);
    assert_eq!(copies[0].from, "./Scenes/empty_scene/Objects/Axis1.lua");
    assert_eq!(copies[0].to, "./Scenes/other/Objects/Axis1.lua");
    assert_eq!(files.directory, "./Scenes/other");
}

#[test]
fn new_and_delete_scene_empty_the_editor() {
    let mut e = editor();
    place(&mut e, 0, v3("0", "0", "0"));
    e.reset();
    assert!(e.world_objects.is_empty());
    assert_eq!(e.scene_name, "new_scene");
    assert!(!e.windows.load_window);
    place(&mut e, 0, v3("0", "0", "0"));
    assert_eq!(e.delete_scene(), "./Scenes/new_scene");
    assert!(e.world_objects.is_empty());
    assert_eq!(e.scene_name, "empty_scene");
}

#[test]
fn selection_upkeep() {
    let mut e = editor();
    e.select(Selection::Placing);
    e.update_selection();
    assert!(e.object_being_placed.is_some());
    e.select(Selection::Idle);
    e.update_selection();
    assert!(e.object_being_placed.is_none());
    let mut empty = EditorScreen::new(Vec::new(), &Vec::new());
    empty.select(Selection::Placing);
    empty.update_selection();
    assert_eq!(empty.selection, Selection::Idle);
}

#[test]
fn known_models_are_marked_loaded() {
    let sizes = vec![("Axis".to_string(), v3("1", "1", "1"))];
    let paths = vec!["./Models/Hexagon.glb".to_string(), "./Models/Axis.glb".to_string()];
    let mut e = EditorScreen::new(sizes, &paths);
    assert!(!e.known_models[1].2);
    e.begin_edit_frame();
    assert!(!e.known_models[0].2);
    assert!(e.known_models[1].2);
}

#[test]
fn scene_names_from_folder_entries() {
    assert_eq!(scene_name_from_path("./Scenes/level1"), "level1");
    assert_eq!(scene_name_from_path("level2"), "level2");
    assert_eq!(scene_name_from_path("./Scenes/"), "");
}

#[test]
fn keys_and_buttons() {
    let mut d = SceneData::new_default();
    assert!(!d.handle_input(InputEvent::KeyPressed(17)));
    d.handle_input(InputEvent::KeyPressed(17));
    d.handle_input(InputEvent::KeyPressed(30));
    assert_eq!(d.currently_pressed(), vec![17, 30]);
    d.handle_input(InputEvent::KeyReleased(17));
    assert_eq!(d.currently_pressed(), vec![30]);
    assert_eq!(d.released_this_render(), vec![17]);
    d.handle_input(InputEvent::Other);
    assert!(d.released_this_render().is_empty());
    d.handle_input(InputEvent::MousePressed(MouseButton::Left));
    assert!(d.left_mouse());
    assert!(d.mouse.left_dragged);
    d.handle_input(InputEvent::MouseReleased(MouseButton::Left));
    assert!(!d.left_mouse());
    assert!(!d.mouse.left_dragged);
    d.handle_input(InputEvent::MousePressed(MouseButton::Middle));
    assert!(!d.mouse.middle_dragged);
    d.handle_input(InputEvent::Other);
    assert!(d.mouse.middle_dragged);
}

#[test]
fn model_queues() {
    let mut d = SceneData::new(vec![
        ("A".to_string(), v3("1", "1", "1")),
        ("B".to_string(), v3("1", "1", "1")),
        ("A".to_string(), v3("2", "2", "2")),
    ]);
    d.queue_model_load("C".to_string(), "./Models/C.glb".to_string());
    assert_eq!(d.get_models_to_load(), vec![("C".to_string(), "./Models/C.glb".to_string())]);
    assert!(d.get_models_to_load().is_empty());
    d.queue_model_unload("A".to_string());
    assert_eq!(d.get_models_to_unload(), vec!["A".to_string()]);
    assert_eq!(d.model_sizes().iter().map(|m| m.0.clone()).collect::<Vec<_>>(), vec!["B".to_string()]);
}

#[test]
fn screens_hand_over_to_the_editor() {
    let mut load = LoadScreen::new();
    load.update(false);
    assert!(load.first_loop);
    load.update(false);
    assert!(!load.first_loop);
    load.update(true);
    assert!(load.data.next_scene);
    let mut screen = Screen::new();
    screen.add_model_size("Axis".to_string(), v3("1", "1", "1"));
    assert!(!screen.scene_finished());
    let next = screen.future_scene(&vec!["./Models/Axis.glb".to_string()]);
    match next {
        Screen::Editor(e) => {
            assert_eq!(e.data.model_sizes().len(), 1);
            assert_eq!(e.known_models.len(), 1);
        },
        Screen::Loading(_) => panic!("expected the editor"),
    }
}

#[test]
fn removing_a_buffer_keeps_the_others_in_order() {
    let mut e = editor();
    for name in ["Hexagon", "Axis", "Tree"] {
        e.request_instanced_buffer(name.to_string());
    }
    e.apply_added_buffers();
    e.remove_instanced_buffer(&"Axis".to_string());
    assert_eq!(e.instanced_buffers.names(), &vec!["Hexagon".to_string(), "Tree".to_string()]);
}

#[test]
fn reset_keeps_the_game_camera() {
    let mut e = editor();
    e.game_options.camera_type = 1;
    e.game_options.camera_target = 4;
    e.reset();
    assert_eq!(e.game_options.camera_type, 1);
    assert_eq!(e.game_options.camera_target, 4);
}

#[test]
fn a_resized_window_ends_the_screen() {
    let mut e = editor();
    e.check_window_resized();
    assert!(!e.data.next_scene);
    e.data.window_resized = true;
    e.check_window_resized();
    assert!(e.data.next_scene);
}
