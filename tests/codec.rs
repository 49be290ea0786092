use maat_editor::codec::{
    camera_from_row, export, get_models, import, object_from_row, object_to_row, read_objects,
};
use maat_editor::geometry::{Scalar, Transform, Vec3};
use maat_editor::logs::Logs;
use maat_editor::options::GameOptions;
use maat_editor::world_object::WorldObject;

fn sc(s: &str) -> Scalar {
    Scalar::from_text(s).unwrap()
}

fn v3(x: &str, y: &str, z: &str) -> Vec3 {
    Vec3::new(sc(x), sc(y), sc(z))
}

fn texts(v: &Vec3) -> (String, String, String) {
    (v.x.text(), v.y.text(), v.z.text())
}

fn placed(id: u32, model: &str, pos: Vec3) -> WorldObject {
    WorldObject::new_with_name(
        id,
        format!("{}{}", model, id),
        "demo".to_string(),
        model.to_string(),
        format!("./Models/{}.glb", model),
        Transform::new(pos, v3("0", "0", "0"), v3("1", "1", "1")),
        false,
        false,
    )
}

fn row(fields: &[&str]) -> Vec<String> {
    fields.iter().map(|s| s.to_string()).collect()
}

#[test]
fn export_then_import_two_objects() {
    let objects = vec![placed(0, "Hexagon", v3("1", "2", "3")), placed(1, "Axis", v3("0", "0", "0"))];
    let files = export("demo", &objects, &GameOptions::new());
    let mut logs = Logs::new();
    let (used, read, options) =
        import("demo", Ok(files.scene_bytes), Ok(files.camera_bytes), &mut logs);
    assert_eq!(
        used,
        vec![
            ("Hexagon".to_string(), "./Models/Hexagon.glb".to_string()),
            ("Axis".to_string(), "./Models/Axis.glb".to_string()),
        ]
    );
    assert_eq!(read.len(), 2);
    for (a, b) in objects.iter().zip(read.iter()) {
        assert_eq!(a.id(), b.id());
        assert_eq!(a.name(), b.name());
        assert_eq!(a.model(), b.model());
        assert_eq!(a.location(), b.location());
        assert_eq!(a.instanced_rendered(), b.instanced_rendered());
        assert_eq!(texts(&a.position()), texts(&b.position()));
        assert_eq!(texts(&a.rotation()), texts(&b.rotation()));
        assert_eq!(texts(&a.size()), texts(&b.size()));
        assert_eq!(b.directory(), "demo");
        assert!(!b.has_script());
    }
    assert_eq!(options.camera_type, 0);
    assert_eq!(options.camera_distance.text(), "90");
    assert!(!logs.is_shown());
}

#[test]
fn export_writes_header_then_rows() {
    let objects = vec![placed(0, "Hexagon", v3("1", "2", "3"))];
    let files = export("demo", &objects, &GameOptions::new());
    assert_eq!(files.directory, "./Scenes/demo");
    assert_eq!(files.scene_path, "./Scenes/demo/demo.csv");
    assert_eq!(files.camera_path, "./Scenes/demo/camera.csv");
    assert_eq!(
        String::from_utf8(files.scene_bytes).unwrap(),
        "id,name,model,location,instanced,x,y,z,rot_x,rot_y,rot_z,size_x,size_y,size_z\n\
         0,Hexagon0,Hexagon,./Models/Hexagon.glb,false,1,2,3,0,0,0,1,1,1\n"
    );
    assert_eq!(
        String::from_utf8(files.camera_bytes).unwrap(),
        "type,target_id,distance,x,y,z\n0,0,90,0,0,0\n"
    );
}

#[test]
fn round_trip_keeps_awkward_fields() {
    let mut a = WorldObject::new_with_name(
        4_000_000_000,
        "odd, \"quoted\" name".to_string(),
        "demo".to_string(),
        "Hex".to_string(),
        "./Models/Hex.glb".to_string(),
        Transform::new(v3("-1.25", "+0.5", "inf"), v3("NaN", "-0", "360"), v3("0.001", "2", "3")),
        true,
        false,
    );
    a.set_name("odd, \"quoted\"\nname".to_string());
    let mut options = GameOptions::new();
    options.camera_type = 1;
    options.camera_target = -3;
    options.camera_distance = sc("12.5");
    options.camera_location = v3("-4", "5", "6.75");
    let files = export("demo", &vec![a], &options);
    let mut logs = Logs::new();
    let (_, read, back) = import("demo", Ok(files.scene_bytes), Ok(files.camera_bytes), &mut logs);
    assert_eq!(read.len(), 1);
    assert_eq!(read[0].id(), 4_000_000_000);
    assert_eq!(read[0].name(), "odd, \"quoted\"\nname");
    assert!(read[0].instanced_rendered());
    assert_eq!(texts(&read[0].position()), ("-1.25".to_string(), "+0.5".to_string(), "inf".to_string()));
    assert_eq!(texts(&read[0].rotation()), ("NaN".to_string(), "-0".to_string(), "360".to_string()));
    assert_eq!(back.camera_type, 1);
    assert_eq!(back.camera_target, -3);
    assert_eq!(back.camera_distance.text(), "12.5");
    assert_eq!(texts(&back.camera_location), ("-4".to_string(), "5".to_string(), "6.75".to_string()));
}

#[test]
fn malformed_row_is_skipped_and_logged() {
    let text = "id,name,model,location,instanced,x,y,z,rot_x,rot_y,rot_z,size_x,size_y,size_z\n\
                0,A0,A,./Models/A.glb,false,1,2,3,0,0,0,1,1,1\n\
                x,B1,B,./Models/B.glb,false,1,2,3,0,0,0,1,1,1\n\
                2,C2,C,./Models/C.glb,maybe,1,2,3,0,0,0,1,1,1\n\
                3,D3,D,./Models/D.glb,true,1,2,3,0,0,0,1,1\n\
                4,E4,E,./Models/E.glb,true,1,2x3,3,0,0,0,1,1,1\n\
                5,A5,A,./Models/Other.glb,true,1,2,3,0,0,0,1,1,1\n";
    let mut logs = Logs::new();
    let (used, read, _) = import(
        "demo",
        Ok(text.as_bytes().to_vec()),
        Err("no camera file".to_string()),
        &mut logs,
    );
    assert_eq!(read.iter().map(|o| o.id()).collect::<Vec<_>>(), vec![0, 5]);
    assert_eq!(
        used,
        vec![
            ("A".to_string(), "./Models/A.glb".to_string()),
            ("A".to_string(), "./Models/Other.glb".to_string()),
        ]
    );
    assert!(logs.is_shown());
    assert_eq!(logs.last_error(), "Camera: no camera file");
    assert_eq!(logs.take_unwritten().len(), 5);
}

#[test]
fn missing_scene_file_gives_defaults() {
    let mut logs = Logs::new();
    let (used, read, options) =
        import("gone", Err("not found".to_string()), Err("not found".to_string()), &mut logs);
    assert!(used.is_empty());
    assert!(read.is_empty());
    assert_eq!(options.camera_distance.text(), "90");
    assert_eq!(
        logs.take_unwritten(),
        vec!["Scene details: not found".to_string(), "Camera: not found".to_string()]
    );
}

#[test]
fn last_camera_row_wins() {
    let text = "type,target_id,distance,x,y,z\n0,0,10,1,2,3\n1,2,20,4,5,6\n1,bad,30,7,8,9\n";
    let mut logs = Logs::new();
    let (_, _, options) =
        import("demo", Err("none".to_string()), Ok(text.as_bytes().to_vec()), &mut logs);
    assert_eq!(options.camera_type, 1);
    assert_eq!(options.camera_target, 2);
    assert_eq!(options.camera_distance.text(), "20");
    assert_eq!(logs.take_unwritten().len(), 2);
}

#[test]
fn rows_parse_by_column() {
    let r = row(&["7", "N7", "N", "./Models/N.glb", "true", "1", "2", "3", "4", "5", "6", "7", "8", "9"]);
    let o = object_from_row(&r, "s").unwrap();
    assert_eq!(o.id(), 7);
    assert!(o.instanced_rendered());
    assert_eq!(texts(&o.size()), ("7".to_string(), "8".to_string(), "9".to_string()));
    assert_eq!(object_to_row(&o), r);
    assert!(object_from_row(&row(&["-1", "N", "N", "l", "true", "1", "2", "3", "4", "5", "6", "7", "8", "9"]), "s").is_none());
    assert!(object_from_row(&row(&["4294967296", "N", "N", "l", "true", "1", "2", "3", "4", "5", "6", "7", "8", "9"]), "s").is_none());
    assert!(object_from_row(&row(&["1", "N", "N", "l", "True", "1", "2", "3", "4", "5", "6", "7", "8", "9"]), "s").is_none());
    let c = camera_from_row(&row(&["-2147483648", "+5", "1.5", "0", "0", "0"])).unwrap();
    assert_eq!(c.0, i32::MIN);
    assert_eq!(c.1, 5);
    assert!(camera_from_row(&row(&["2147483648", "0", "1", "0", "0", "0"])).is_none());
}

#[test]
fn unreadable_record_is_logged() {
    let records = vec![
        Ok(row(&["id"])),
        Err("bad record".to_string()),
        Ok(row(&["3", "C3", "C", "./Models/C.glb", "false", "0", "0", "0", "0", "0", "0", "1", "1", "1"])),
    ];
    let mut logs = Logs::new();
    let (used, read) = read_objects("s", &records, &mut logs);
    assert_eq!(read.len(), 1);
    assert_eq!(used.len(), 1);
    assert_eq!(logs.last_error(), "Scene details data:bad record");
}

#[test]
fn model_files_are_named_by_file_name() {
    let paths = vec![
        "./Models/Axis.glb".to_string(),
        "./Models/readme.txt".to_string(),
        "Hexagon.glb".to_string(),
        "./Models/sub/Tree.v2.glb".to_string(),
        "glb".to_string(),
        ".glb".to_string(),
    ];
    assert_eq!(
        get_models(&paths),
        vec![
            ("Axis".to_string(), "./Models/Axis.glb".to_string(), false),
            ("Hexagon".to_string(), "Hexagon.glb".to_string(), false),
            ("Tree.v2".to_string(), "./Models/sub/Tree.v2.glb".to_string(), false),
            ("".to_string(), ".glb".to_string(), false),
        ]
    );
}

#[test]
fn coordinate_texts() {
    for ok in [
        "0", "-1", "+2.5", "10.25", "inf", "-inf", "NaN", "007", "1.", ".5", "1e3", "-2.5E-3",
        "+1e+7", "Inf", "INFINITY", "-infinity", "nan", "nAn",
    ] {
        assert!(Scalar::from_text(ok).is_some(), "{}", ok);
        assert!(ok.parse::<f32>().is_ok(), "{}", ok);
    }
    for bad in [
        "", "-", ".", "e5", "1e", "1e+", "1.2.3", " 1", "--1", "+-1", "abc", "in", "1e3.5", "infinit",
        "1 ",
    ] {
        assert!(Scalar::from_text(bad).is_none(), "{}", bad);
        assert!(bad.parse::<f32>().is_err(), "{}", bad);
    }
    for f in [0.0f32, -1.5, 3.25, 1.0e-7, 123456.78, f32::INFINITY, f32::NEG_INFINITY, f32::NAN, -0.0] {
        let text = f.to_string();
        let s = Scalar::from_text(&text).unwrap();
        let back: f32 = s.text().parse().unwrap();
        assert!(back == f || (back.is_nan() && f.is_nan()));
    }
}

#[test]
fn used_models_are_distinct_pairs_in_first_seen_order() {
    let text = "id,name,model,location,instanced,x,y,z,rot_x,rot_y,rot_z,size_x,size_y,size_z\n\
                0,A0,A,x,false,0,0,0,0,0,0,1,1,1\n\
                1,B1,B,y,false,0,0,0,0,0,0,1,1,1\n\
                2,A2,A,y,false,0,0,0,0,0,0,1,1,1\n\
                3,A3,A,x,false,0,0,0,0,0,0,1,1,1\n";
    let mut logs = Logs::new();
    let (used, read, _) = import("demo", Ok(text.as_bytes().to_vec()), Err("none".to_string()), &mut logs);
    assert_eq!(read.len(), 4);
    assert_eq!(
        used,
        vec![
            ("A".to_string(), "x".to_string()),
            ("B".to_string(), "y".to_string()),
            ("A".to_string(), "y".to_string()),
        ]
    );
}

#[test]
fn a_failed_import_shows_its_error_and_keeps_earlier_lines() {
    let mut logs = Logs::new();
    logs.add_error("earlier".to_string());
    logs.dismiss();
    let text = "type,target_id,distance,x,y,z\n0,0,10,1,2,3\n";
    import("demo", Err("gone".to_string()), Ok(text.as_bytes().to_vec()), &mut logs);
    assert!(logs.is_shown());
    assert_eq!(logs.last_error(), "Scene details: gone");
    assert_eq!(logs.take_unwritten(), vec!["earlier".to_string(), "Scene details: gone".to_string()]);
}
