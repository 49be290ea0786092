use maat_editor::bridge::{state_from_globals, state_global_names, state_globals};
use maat_editor::geometry::{Scalar, Transform, Vec3};
use maat_editor::light::{Light, LightObject};
use maat_editor::logs::Logs;
use maat_editor::registry::InstancedBuffers;
use maat_editor::world_object::{script_dir, script_path, ScriptState, WorldObject};

fn sc(s: &str) -> Scalar {
    Scalar::from_text(s).unwrap()
}

fn v3(x: &str, y: &str, z: &str) -> Vec3 {
    Vec3::new(sc(x), sc(y), sc(z))
}

fn texts(v: &Vec3) -> (String, String, String) {
    (v.x.text(), v.y.text(), v.z.text())
}

#[test]
fn new_object_is_named_after_model_and_id() {
    let o = WorldObject::new_empty(12, "Hexagon".to_string(), "./Models/Hexagon.glb".to_string(), "level".to_string());
    assert_eq!(o.name(), "Hexagon12");
    assert_eq!(o.id(), 12);
    assert_eq!(texts(&o.position()), ("0".to_string(), "0".to_string(), "0".to_string()));
    assert_eq!(texts(&o.size()), ("1".to_string(), "1".to_string(), "1".to_string()));
    assert_eq!(o.script_file(), "./Scenes/level/Objects/Hexagon12.lua");
    assert_eq!(o.update_function(), "Hexagon12update");
    assert!(!o.has_script());
}

#[test]
fn script_paths() {
    assert_eq!(script_dir("a"), "./Scenes/a/Objects/");
    assert_eq!(script_path("a", "b"), "./Scenes/a/Objects/b.lua");
}

#[test]
fn creating_a_script_twice_writes_once() {
    let mut o = WorldObject::new_empty(0, "Axis".to_string(), "l".to_string(), "s".to_string());
    let w = o.create_script().unwrap();
    assert_eq!(w.directory, "./Scenes/s/Objects/");
    assert_eq!(w.path, "./Scenes/s/Objects/Axis0.lua");
    assert!(w.contents.starts_with("-- ref_num\n-- delta_time\n"));
    assert!(w.contents.contains("function Axis0update()\n  x = x + vel_x*delta_time;"));
    assert!(w.contents.ends_with("end"));
    o.script_created();
    assert!(o.has_script());
    assert!(o.create_script().is_none());
    o.script_created();
    assert!(o.has_script());
}

#[test]
fn deleting_without_script_changes_nothing() {
    let mut o = WorldObject::new_empty(0, "Axis".to_string(), "l".to_string(), "s".to_string());
    assert!(o.delete_script().is_none());
    assert!(!o.has_script());
    o.script_created();
    o.load_script(Some("x = 1".to_string()));
    assert_eq!(o.delete_script(), Some("./Scenes/s/Objects/Axis0.lua".to_string()));
    assert!(!o.has_script());
    assert!(o.script().is_none());
    assert!(o.delete_script().is_none());
}

#[test]
fn saving_copies_only_into_another_scene() {
    let mut o = WorldObject::new_empty(3, "Axis".to_string(), "l".to_string(), "old".to_string());
    assert!(o.save_script("new").is_none());
    o.script_created();
    assert!(o.save_script("old").is_none());
    let c = o.save_script("new").unwrap();
    assert_eq!(c.directory, "./Scenes/new/Objects/");
    assert_eq!(c.from, "./Scenes/old/Objects/Axis3.lua");
    assert_eq!(c.to, "./Scenes/new/Objects/Axis3.lua");
}

#[test]
fn renaming_keeps_the_old_script_path_rule() {
    let mut o = WorldObject::new_empty(1, "Axis".to_string(), "l".to_string(), "s".to_string());
    o.set_name("Door".to_string());
    assert_eq!(o.script_file(), "./Scenes/s/Objects/Door.lua");
}

#[test]
fn script_state_goes_and_reset_restores() {
    let mut o = WorldObject::new_with_name(
        0,
        "Box0".to_string(),
        "s".to_string(),
        "Box".to_string(),
        "l".to_string(),
        Transform::new(v3("1", "2", "3"), v3("0", "90", "0"), v3("1", "1", "1")),
        false,
        true,
    );
    assert!(o.has_script());
    let mut state = o.script_state();
    state.transform.position = v3("5", "5", "5");
    state.velocity = v3("1", "0", "0");
    o.update_game(state);
    assert_eq!(texts(&o.position()), ("5".to_string(), "5".to_string(), "5".to_string()));
    assert_eq!(texts(&o.script_state().velocity), ("1".to_string(), "0".to_string(), "0".to_string()));
    o.reset();
    assert_eq!(texts(&o.position()), ("1".to_string(), "2".to_string(), "3".to_string()));
    assert_eq!(texts(&o.rotation()), ("0".to_string(), "90".to_string(), "0".to_string()));
}

#[test]
fn set_position_moves_shown_and_authored() {
    let mut o = WorldObject::new_empty(0, "Axis".to_string(), "l".to_string(), "s".to_string());
    o.set_position(v3("4", "0", "-2"));
    assert_eq!(texts(&o.position()), ("4".to_string(), "0".to_string(), "-2".to_string()));
    o.reset();
    assert_eq!(texts(&o.position()), ("4".to_string(), "0".to_string(), "-2".to_string()));
}

#[test]
fn instanced_only_with_a_buffer() {
    let mut buffers = InstancedBuffers::new();
    let mut o = WorldObject::new_empty(0, "Tree".to_string(), "l".to_string(), "s".to_string());
    o.set_instanced(true, buffers.names());
    assert!(!o.instanced_rendered());
    buffers.add("Tree".to_string());
    o.set_instanced(true, buffers.names());
    assert!(o.instanced_rendered());
    o.set_instanced(false, buffers.names());
    assert!(!o.instanced_rendered());
}

#[test]
fn registry_adds_once_and_remove_clears_flags() {
    let mut buffers = InstancedBuffers::new();
    buffers.add("Tree".to_string());
    buffers.add("Rock".to_string());
    buffers.add("Tree".to_string());
    assert_eq!(buffers.names(), &vec!["Tree".to_string(), "Rock".to_string()]);
    let mut objects = vec![
        WorldObject::new_empty(0, "Tree".to_string(), "l".to_string(), "s".to_string()),
        WorldObject::new_empty(1, "Rock".to_string(), "l".to_string(), "s".to_string()),
        WorldObject::new_empty(2, "Tree".to_string(), "l".to_string(), "s".to_string()),
    ];
    for o in objects.iter_mut() {
        o.set_instanced(true, buffers.names());
    }
    buffers.remove(&"Tree".to_string(), &mut objects);
    assert_eq!(buffers.names(), &vec!["Rock".to_string()]);
    assert!(!buffers.contains(&"Tree".to_string()));
    assert!(!objects[0].instanced_rendered());
    assert!(objects[1].instanced_rendered());
    assert!(!objects[2].instanced_rendered());
    buffers.remove(&"Missing".to_string(), &mut objects);
    assert_eq!(buffers.len(), 1);
    assert!(objects[1].instanced_rendered());
}

#[test]
fn instanced_buffer_removed_matches_model_only() {
    let mut buffers = InstancedBuffers::new();
    buffers.add("Tree".to_string());
    let mut o = WorldObject::new_empty(0, "Tree".to_string(), "l".to_string(), "s".to_string());
    o.set_instanced(true, buffers.names());
    o.instanced_buffer_removed(&"Rock".to_string());
    assert!(o.instanced_rendered());
    o.instanced_buffer_removed(&"Tree".to_string());
    assert!(!o.instanced_rendered());
}

#[test]
fn logs_keep_latest_and_history() {
    let mut logs = Logs::new();
    assert_eq!(logs.last_error(), "No Errors");
    assert!(!logs.is_shown());
    logs.add_error("first".to_string());
    logs.add_error("second".to_string());
    assert!(logs.is_shown());
    assert_eq!(logs.last_error(), "second");
    logs.dismiss();
    assert!(!logs.is_shown());
    assert_eq!(logs.take_unwritten(), vec!["first".to_string(), "second".to_string()]);
    assert!(logs.take_unwritten().is_empty());
}

#[test]
fn lights_start_white_at_origin() {
    let l = Light::new();
    assert_eq!(l.intensity.text(), "100");
    assert_eq!(texts(&l.colour), ("1".to_string(), "1".to_string(), "1".to_string()));
    let mut o = LightObject::new_on(3, "Sun".to_string());
    assert_eq!(o.id(), 3);
    assert_eq!(o.name(), "Sun");
    o.set_position(v3("0", "10", "0"));
    assert_eq!(texts(&o.position()), ("0".to_string(), "10".to_string(), "0".to_string()));
    assert_eq!(o.intensity().text(), "100");
}

#[test]
fn script_globals_in_order_and_read_back() {
    let state = ScriptState {
        transform: Transform::new(v3("1", "2", "3"), v3("4", "5", "6"), v3("7", "8", "9")),
        velocity: v3("10", "11", "12"),
        acceleration: v3("13", "14", "15"),
    };
    let names = state_global_names();
    assert_eq!(
        names,
        vec!["x", "y", "z", "rot_x", "rot_y", "rot_z", "size_x", "size_y", "size_z", "vel_x", "vel_y", "vel_z", "acc_x", "acc_y", "acc_z"]
    );
    let values: Vec<String> = state_globals(&state).iter().map(|s| s.text()).collect();
    assert_eq!(values, (1..=15).map(|i| i.to_string()).collect::<Vec<_>>());
    let mut read: Vec<Option<Scalar>> = vec![None; 15];
    read[0] = Some(sc("-1"));
    read[9] = Some(sc("0.5"));
    read[14] = Some(sc("99"));
    let after = state_from_globals(&state, &read);
    assert_eq!(texts(&after.transform.position), ("-1".to_string(), "2".to_string(), "3".to_string()));
    assert_eq!(texts(&after.velocity), ("0.5".to_string(), "11".to_string(), "12".to_string()));
    assert_eq!(texts(&after.acceleration), ("13".to_string(), "14".to_string(), "99".to_string()));
    assert_eq!(texts(&after.transform.size), ("7".to_string(), "8".to_string(), "9".to_string()));
}

#[test]
fn loading_without_a_file_means_no_script() {
    let mut o = WorldObject::new_empty(0, "Axis".to_string(), "l".to_string(), "s".to_string());
    o.script_created();
    o.load_script(Some("x = 1".to_string()));
    assert!(o.has_script());
    assert!(o.script().is_some());
    o.load_script(None);
    assert!(!o.has_script());
    assert!(o.script().is_none());
    o.bind_script(true);
    assert!(o.has_script());
    o.bind_script(false);
    assert!(!o.has_script());
}
