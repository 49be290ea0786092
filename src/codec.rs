//! The scene files: one row per object in `{scene}.csv` and the game camera in
//! `camera.csv`, each under a header row, in a fixed column order, every value
//! as decimal text. The CSV framing itself is the `csv` crate's.

use vstd::prelude::*;
use crate::geometry::{is_scalar_text, transform_valid, vec3_valid, zero_vec3, Scalar, TransformView, Transform, Vec3, Vec3View};
use crate::logs::{lemma_logged_twice, logged, Logs};
use crate::options::GameOptions;
use crate::text::{
    bool_text, bool_to_text, decimal_text, i32_text, lemma_bool_text_round_trip,
    lemma_i32_text_round_trip, lemma_u32_text_round_trip, parse_bool, parse_i32, parse_u32,
    parsed_bool, parsed_i32, parsed_u32, signed_text, u32_text,
};
use crate::world_object::{ObjectView, WorldObject};

verus! {

/// The bytes that the `csv` writer gives for one record and its terminator.
pub uninterp spec fn csv_record_bytes(fields: Seq<Seq<char>>) -> Seq<u8>;

/// The records that the `csv` reader finds in `bytes`, in order; `None` for one
/// that it reports as an error.
pub uninterp spec fn csv_records_of(bytes: Seq<u8>) -> Seq<Option<Seq<Seq<char>>>>;

pub open spec fn fields_view(v: Seq<String>) -> Seq<Seq<char>> {
    v.map_values(|s: String| s@)
}

pub open spec fn records_view(v: Seq<Result<Vec<String>, String>>) -> Seq<Option<Seq<Seq<char>>>> {
    v.map_values(
        |r: Result<Vec<String>, String>|
            match r {
                Ok(f) => Some(fields_view(f@)),
                Err(_) => None,
            },
    )
}

/// Relies on `csv::Writer` with its default settings, writing into memory: the
/// bytes of one record and its terminator. The first record of a fresh writer
/// meets no field-count check, and writing into a `Vec` does not fail.
#[verifier::external_body]
fn csv_record(fields: &Vec<String>) -> (r: Vec<u8>)
    ensures
        r@ == csv_record_bytes(fields_view(fields@)),
{
    let mut writer = csv::Writer::from_writer(Vec::new());
    if writer.write_record(fields).is_err() {
        return Vec::new();
    }
    writer.into_inner().unwrap_or_default()
}

/// Relies on `csv::ReaderBuilder` with headers off, so that the header row is
/// the first record, and otherwise default settings: every record in order,
/// and the reader's error, as text, for one that it refuses.
#[verifier::external_body]
fn csv_records(bytes: &Vec<u8>) -> (r: Vec<Result<Vec<String>, String>>)
    ensures
        records_view(r@) == csv_records_of(bytes@),
{
    let mut reader = csv::ReaderBuilder::new().has_headers(false).from_reader(bytes.as_slice());
    let mut out = Vec::new();
    for record in reader.records() {
        out.push(record.map(|r| r.iter().map(String::from).collect()).map_err(|e| e.to_string()));
    }
    out
}

/// What one row of the scene file holds of an object.
pub struct ObjectRecord {
    pub id: u32,
    pub name: Seq<char>,
    pub model: Seq<char>,
    pub location: Seq<char>,
    pub instanced: bool,
    pub transform: TransformView,
}

/// What one row of the camera file holds.
pub struct CameraRecord {
    pub camera_type: i32,
    pub target: i32,
    pub distance: Seq<char>,
    pub location: Vec3View,
}

pub open spec fn record_of(o: ObjectView) -> ObjectRecord {
    ObjectRecord {
        id: o.id,
        name: o.name,
        model: o.model,
        location: o.location,
        instanced: o.instanced,
        transform: o.transform,
    }
}

pub open spec fn camera_record_of_options(g: GameOptions) -> CameraRecord {
    CameraRecord {
        camera_type: g.camera_type,
        target: g.camera_target,
        distance: g.camera_distance@,
        location: g.camera_location@,
    }
}

/// An object read from a scene file: where the row puts it, at rest, with no
/// script bound yet.
pub open spec fn imported(scene: Seq<char>, r: ObjectRecord) -> ObjectView {
    ObjectView {
        id: r.id,
        name: r.name,
        model: r.model,
        location: r.location,
        directory: scene,
        transform: r.transform,
        velocity: zero_vec3(),
        acceleration: zero_vec3(),
        default_transform: r.transform,
        has_script: false,
        script: None,
        instanced: r.instanced,
    }
}

pub open spec fn scene_header() -> Seq<Seq<char>> {
    seq![
        "id"@, "name"@, "model"@, "location"@, "instanced"@, "x"@, "y"@, "z"@, "rot_x"@,
        "rot_y"@, "rot_z"@, "size_x"@, "size_y"@, "size_z"@,
    ]
}

pub open spec fn camera_header() -> Seq<Seq<char>> {
    seq!["type"@, "target_id"@, "distance"@, "x"@, "y"@, "z"@]
}

pub open spec fn object_row(r: ObjectRecord) -> Seq<Seq<char>> {
    let t = r.transform;
    seq![
        decimal_text(r.id as nat), r.name, r.model, r.location, bool_text(r.instanced),
        t.0.0, t.0.1, t.0.2, t.1.0, t.1.1, t.1.2, t.2.0, t.2.1, t.2.2,
    ]
}

pub open spec fn camera_row(c: CameraRecord) -> Seq<Seq<char>> {
    seq![
        signed_text(c.camera_type as int), signed_text(c.target as int), c.distance,
        c.location.0, c.location.1, c.location.2,
    ]
}

/// The rows of a scene file: the header, then one row per object in order.
pub open spec fn scene_rows(objects: Seq<ObjectView>) -> Seq<Seq<Seq<char>>> {
    seq![scene_header()] + objects.map_values(|o: ObjectView| object_row(record_of(o)))
}

/// The rows of a camera file: the header and one row.
pub open spec fn camera_rows(g: GameOptions) -> Seq<Seq<Seq<char>>> {
    seq![camera_header(), camera_row(camera_record_of_options(g))]
}

/// The bytes of a file that holds `rows`.
pub open spec fn encoded(rows: Seq<Seq<Seq<char>>>) -> Seq<u8>
    decreases rows.len(),
{
    if rows.len() == 0 {
        Seq::empty()
    } else {
        encoded(rows.drop_last()) + csv_record_bytes(rows.last())
    }
}

pub open spec fn vec3_at(row: Seq<Seq<char>>, k: int) -> Vec3View {
    (row[k], row[k + 1], row[k + 2])
}

/// The object that a row describes, if every one of its first fourteen fields
/// reads as its column's type.
pub open spec fn parse_object_row(row: Seq<Seq<char>>) -> Option<ObjectRecord> {
    if row.len() >= 14 && parsed_u32(row[0]).is_some() && parsed_bool(row[4]).is_some() && (
    forall|k: int| 5 <= k < 14 ==> is_scalar_text(#[trigger] row[k])) {
        Some(
            ObjectRecord {
                id: parsed_u32(row[0]).unwrap(),
                name: row[1],
                model: row[2],
                location: row[3],
                instanced: parsed_bool(row[4]).unwrap(),
                transform: (vec3_at(row, 5), vec3_at(row, 8), vec3_at(row, 11)),
            },
        )
    } else {
        None
    }
}

/// The camera that a row describes, if its first six fields read as their
/// columns' types.
pub open spec fn parse_camera_row(row: Seq<Seq<char>>) -> Option<CameraRecord> {
    if row.len() >= 6 && parsed_i32(row[0]).is_some() && parsed_i32(row[1]).is_some() && (
    forall|k: int| 2 <= k < 6 ==> is_scalar_text(#[trigger] row[k])) {
        Some(
            CameraRecord {
                camera_type: parsed_i32(row[0]).unwrap(),
                target: parsed_i32(row[1]).unwrap(),
                distance: row[2],
                location: vec3_at(row, 3),
            },
        )
    } else {
        None
    }
}

/// The objects of the well-formed rows after the header, in order.
pub open spec fn object_records_of(records: Seq<Option<Seq<Seq<char>>>>) -> Seq<ObjectRecord>
    decreases records.len(),
{
    if records.len() <= 1 {
        Seq::empty()
    } else {
        let prev = object_records_of(records.drop_last());
        match records.last() {
            Some(row) => match parse_object_row(row) {
                Some(r) => prev.push(r),
                None => prev,
            },
            None => prev,
        }
    }
}

/// How many rows after the header are malformed.
pub open spec fn object_failures_of(records: Seq<Option<Seq<Seq<char>>>>) -> nat
    decreases records.len(),
{
    if records.len() <= 1 {
        0
    } else {
        let prev = object_failures_of(records.drop_last());
        match records.last() {
            Some(row) => if parse_object_row(row).is_some() { prev } else { prev + 1 },
            None => prev + 1,
        }
    }
}

/// The camera of the last well-formed row after the header.
pub open spec fn camera_record_of(records: Seq<Option<Seq<Seq<char>>>>) -> Option<CameraRecord>
    decreases records.len(),
{
    if records.len() <= 1 {
        None
    } else {
        let prev = camera_record_of(records.drop_last());
        match records.last() {
            Some(row) => match parse_camera_row(row) {
                Some(c) => Some(c),
                None => prev,
            },
            None => prev,
        }
    }
}

/// How many camera rows after the header are malformed.
pub open spec fn camera_failures_of(records: Seq<Option<Seq<Seq<char>>>>) -> nat
    decreases records.len(),
{
    if records.len() <= 1 {
        0
    } else {
        let prev = camera_failures_of(records.drop_last());
        match records.last() {
            Some(row) => if parse_camera_row(row).is_some() { prev } else { prev + 1 },
            None => prev + 1,
        }
    }
}

pub open spec fn uses_model(used: Seq<(Seq<char>, Seq<char>)>, model: (Seq<char>, Seq<char>)) -> bool {
    exists|i: int| 0 <= i < used.len() && #[trigger] used[i] == model
}

/// The models that the objects use, as (model, asset path) pairs: each
/// distinct pair once, where it is first seen.
pub open spec fn used_models_of(recs: Seq<ObjectRecord>) -> Seq<(Seq<char>, Seq<char>)>
    decreases recs.len(),
{
    if recs.len() == 0 {
        Seq::empty()
    } else {
        let prev = used_models_of(recs.drop_last());
        let pair = (recs.last().model, recs.last().location);
        if uses_model(prev, pair) {
            prev
        } else {
            prev.push(pair)
        }
    }
}

/// The game options that a camera file gives: the defaults, with the camera of
/// its last well-formed row.
pub open spec fn options_from(g: GameOptions, c: Option<CameraRecord>) -> bool {
    &&& g.first_game_loop
    &&& !g.camera_horizontal_rotation
    &&& !g.camera_vertical_rotation
    &&& match c {
        Some(c) => camera_record_of_options(g) == c,
        None => {
            &&& g.camera_type == 0
            &&& g.camera_target == 0
            &&& g.camera_distance@ == "90"@
            &&& g.camera_location@ == zero_vec3()
        },
    }
}

pub open spec fn used_view(v: Seq<(String, String)>) -> Seq<(Seq<char>, Seq<char>)> {
    v.map_values(|p: (String, String)| (p.0@, p.1@))
}

pub open spec fn objects_view(v: Seq<WorldObject>) -> Seq<ObjectView> {
    v.map_values(|o: WorldObject| o@)
}

/// The records as the reader gives back rows that it reads without error.
pub open spec fn as_read(rows: Seq<Seq<Seq<char>>>) -> Seq<Option<Seq<Seq<char>>>> {
    rows.map_values(|r: Seq<Seq<char>>| Some(r))
}

/// The records of a file that was read, or none where it could not be.
pub open spec fn file_records(file: Result<Vec<u8>, String>) -> Seq<Option<Seq<Seq<char>>>> {
    match file {
        Ok(b) => csv_records_of(b@),
        Err(_) => Seq::empty(),
    }
}

/// The objects that a scene file's records give, in the scene `scene`.
pub open spec fn imported_objects(scene: Seq<char>, records: Seq<Option<Seq<Seq<char>>>>) -> Seq<ObjectView> {
    object_records_of(records).map_values(|o: ObjectRecord| imported(scene, o))
}

/// The files of a saved scene: its folder, to make first, and what each file
/// holds.
pub struct SceneFiles {
    pub directory: String,
    pub scene_path: String,
    pub scene_bytes: Vec<u8>,
    pub camera_path: String,
    pub camera_bytes: Vec<u8>,
}

fn push_text(row: &mut Vec<String>, s: String)
    ensures
        fields_view(final(row)@) == fields_view(old(row)@).push(s@),
{
    row.push(s);
    assert(fields_view(row@) =~= fields_view(old(row)@).push(s@));
}

fn push_vec3(row: &mut Vec<String>, v: &Vec3)
    ensures
        fields_view(final(row)@) == fields_view(old(row)@).push(v.x@).push(v.y@).push(v.z@),
{
    push_text(row, v.x.text());
    push_text(row, v.y.text());
    push_text(row, v.z.text());
}

fn words(names: &[&str]) -> (r: Vec<String>)
    ensures
        fields_view(r@) == names@.map_values(|s: &str| s@),
{
    let mut r: Vec<String> = Vec::new();
    let mut i: usize = 0;
    while i < names.len()
        invariant
            i <= names@.len(),
            fields_view(r@) == names@.subrange(0, i as int).map_values(|s: &str| s@),
        decreases names@.len() - i,
    {
        push_text(&mut r, String::from_str(names[i]));
        assert(names@.subrange(0, i + 1) =~= names@.subrange(0, i as int).push(names@[i as int]));
        i += 1;
    }
    assert(names@.subrange(0, names@.len() as int) =~= names@);
    r
}

/// The header row of a scene file.
pub fn scene_header_row() -> (r: Vec<String>)
    ensures
        fields_view(r@) == scene_header(),
{
    let names = [
        "id", "name", "model", "location", "instanced", "x", "y", "z", "rot_x", "rot_y",
        "rot_z", "size_x", "size_y", "size_z",
    ];
    let r = words(&names);
    assert(names@.map_values(|s: &str| s@) =~= scene_header());
    r
}

/// The header row of a camera file.
pub fn camera_header_row() -> (r: Vec<String>)
    ensures
        fields_view(r@) == camera_header(),
{
    let names = ["type", "target_id", "distance", "x", "y", "z"];
    let r = words(&names);
    assert(names@.map_values(|s: &str| s@) =~= camera_header());
    r
}

/// The row of the scene file that holds `object`.
pub fn object_to_row(object: &WorldObject) -> (r: Vec<String>)
    ensures
        fields_view(r@) == object_row(record_of(object@)),
{
    let mut row: Vec<String> = Vec::new();
    push_text(&mut row, u32_text(object.id()));
    push_text(&mut row, object.name());
    push_text(&mut row, object.model());
    push_text(&mut row, object.location());
    push_text(&mut row, bool_to_text(object.instanced_rendered()));
    push_vec3(&mut row, &object.position());
    push_vec3(&mut row, &object.rotation());
    push_vec3(&mut row, &object.size());
    assert(fields_view(row@) =~= object_row(record_of(object@)));
    row
}

/// The data row of the camera file.
pub fn camera_to_row(options: &GameOptions) -> (r: Vec<String>)
    ensures
        fields_view(r@) == camera_row(camera_record_of_options(*options)),
{
    let mut row: Vec<String> = Vec::new();
    push_text(&mut row, i32_text(options.camera_type));
    push_text(&mut row, i32_text(options.camera_target));
    push_text(&mut row, options.camera_distance.text());
    push_vec3(&mut row, &options.camera_location);
    assert(fields_view(row@) =~= camera_row(camera_record_of_options(*options)));
    row
}

/// The bytes of a file that holds `rows`, in order.
pub fn encode_rows(rows: &Vec<Vec<String>>) -> (r: Vec<u8>)
    ensures
        r@ == encoded(rows@.map_values(|f: Vec<String>| fields_view(f@))),
{
    let ghost all = rows@.map_values(|f: Vec<String>| fields_view(f@));
    let mut out: Vec<u8> = Vec::new();
    let mut i: usize = 0;
    while i < rows.len()
        invariant
            i <= rows@.len(),
            all == rows@.map_values(|f: Vec<String>| fields_view(f@)),
            out@ == encoded(all.subrange(0, i as int)),
        decreases rows@.len() - i,
    {
        let mut bytes = csv_record(&rows[i]);
        proof {
            let next = all.subrange(0, i + 1);
            assert(next.drop_last() =~= all.subrange(0, i as int));
            assert(next.last() == all[i as int]);
        }
        out.append(&mut bytes);
        i += 1;
    }
    assert(all.subrange(0, rows@.len() as int) =~= all);
    out
}

/// Every row of a scene file: the header, then one row per object in order.
pub fn scene_records(objects: &Vec<WorldObject>) -> (r: Vec<Vec<String>>)
    ensures
        r@.map_values(|f: Vec<String>| fields_view(f@)) == scene_rows(objects_view(objects@)),
{
    let ghost objs = objects_view(objects@);
    let mut rows: Vec<Vec<String>> = Vec::new();
    rows.push(scene_header_row());
    let mut i: usize = 0;
    while i < objects.len()
        invariant
            i <= objects@.len(),
            objs == objects_view(objects@),
            rows@.map_values(|f: Vec<String>| fields_view(f@)) == scene_rows(
                objs.subrange(0, i as int),
            ),
        decreases objects@.len() - i,
    {
        let row = object_to_row(&objects[i]);
        let ghost before = rows@;
        rows.push(row);
        proof {
            assert(objs.subrange(0, i + 1) =~= objs.subrange(0, i as int).push(objs[i as int]));
            assert(rows@ =~= before.push(row));
            assert(objs[i as int] == objects@[i as int]@);
            assert(rows@.map_values(|f: Vec<String>| fields_view(f@)) =~= before.map_values(
                |f: Vec<String>| fields_view(f@),
            ).push(fields_view(row@)));
            assert(objs.subrange(0, i + 1).map_values(|o: ObjectView| object_row(record_of(o)))
                =~= objs.subrange(0, i as int).map_values(|o: ObjectView| object_row(record_of(o))).push(
                object_row(record_of(objs[i as int])),
            ));
            assert(rows@.map_values(|f: Vec<String>| fields_view(f@)) =~= scene_rows(
                objs.subrange(0, i + 1),
            ));
        }
        i += 1;
    }
    assert(objs.subrange(0, objects@.len() as int) =~= objs);
    rows
}

/// Every row of a camera file: the header and the camera's row.
pub fn camera_records(options: &GameOptions) -> (r: Vec<Vec<String>>)
    ensures
        r@.map_values(|f: Vec<String>| fields_view(f@)) == camera_rows(*options),
{
    let mut rows: Vec<Vec<String>> = Vec::new();
    rows.push(camera_header_row());
    rows.push(camera_to_row(options));
    assert(rows@.map_values(|f: Vec<String>| fields_view(f@)) =~= camera_rows(*options));
    rows
}

/// The files that save a scene: `./Scenes/{scene}/{scene}.csv` with its
/// objects and `./Scenes/{scene}/camera.csv` with its camera.
pub fn export(scene_name: &str, world_objects: &Vec<WorldObject>, camera_details: &GameOptions) -> (r:
    SceneFiles)
    ensures
        r.directory@ == "./Scenes/"@ + scene_name@,
        r.scene_path@ == "./Scenes/"@ + scene_name@ + "/"@ + scene_name@ + ".csv"@,
        r.scene_bytes@ == encoded(scene_rows(objects_view(world_objects@))),
        r.camera_path@ == "./Scenes/"@ + scene_name@ + "/camera.csv"@,
        r.camera_bytes@ == encoded(camera_rows(*camera_details)),
{
    let mut directory = String::from_str("./Scenes/");
    directory.append(scene_name);
    let mut scene_path = directory.clone();
    scene_path.append("/");
    scene_path.append(scene_name);
    scene_path.append(".csv");
    let mut camera_path = directory.clone();
    camera_path.append("/camera.csv");
    SceneFiles {
        directory,
        scene_path,
        scene_bytes: encode_rows(&scene_records(world_objects)),
        camera_path,
        camera_bytes: encode_rows(&camera_records(camera_details)),
    }
}

fn vec3_from(row: &Vec<String>, k: usize) -> (r: Option<Vec3>)
    requires
        k + 3 <= row.len(),
    ensures
        r.is_some() == (is_scalar_text(row@[k as int]@) && is_scalar_text(row@[k + 1]@)
            && is_scalar_text(row@[k + 2]@)),
        r matches Some(v) ==> v@ == vec3_at(fields_view(row@), k as int) && v.wf(),
{
    let x = Scalar::from_text(row[k].as_str());
    let y = Scalar::from_text(row[k + 1].as_str());
    let z = Scalar::from_text(row[k + 2].as_str());
    match (x, y, z) {
        (Some(x), Some(y), Some(z)) => Some(Vec3::new(x, y, z)),
        _ => None,
    }
}

/// The object that a row of the scene file describes, in the scene `scene`.
pub fn object_from_row(row: &Vec<String>, scene: &str) -> (r: Option<WorldObject>)
    ensures
        r.is_some() == parse_object_row(fields_view(row@)).is_some(),
        r matches Some(o) ==> o@ == imported(scene@, parse_object_row(fields_view(row@)).unwrap())
            && o.wf(),
{
    let ghost f = fields_view(row@);
    if row.len() < 14 {
        return None;
    }
    let id = parse_u32(row[0].as_str());
    let instanced = parse_bool(row[4].as_str());
    let position = vec3_from(row, 5);
    let rotation = vec3_from(row, 8);
    let size = vec3_from(row, 11);
    match (id, instanced, position, rotation, size) {
        (Some(id), Some(instanced), Some(position), Some(rotation), Some(size)) => {
            assert(forall|k: int| 5 <= k < 14 ==> is_scalar_text(#[trigger] f[k]));
            let transform = Transform::new(position, rotation, size);
            let o = WorldObject::new_with_name(
                id,
                row[1].clone(),
                String::from_str(scene),
                row[2].clone(),
                row[3].clone(),
                transform,
                instanced,
                false,
            );
            Some(o)
        },
        _ => {
            proof {
                if parse_object_row(f).is_some() {
                    assert(is_scalar_text(f[5]) && is_scalar_text(f[6]) && is_scalar_text(f[7]));
                    assert(is_scalar_text(f[8]) && is_scalar_text(f[9]) && is_scalar_text(f[10]));
                    assert(is_scalar_text(f[11]) && is_scalar_text(f[12]) && is_scalar_text(f[13]));
                }
            }
            None
        },
    }
}

/// The camera that a row of the camera file describes.
pub fn camera_from_row(row: &Vec<String>) -> (r: Option<(i32, i32, Scalar, Vec3)>)
    ensures
        r.is_some() == parse_camera_row(fields_view(row@)).is_some(),
        r matches Some(c) ==> {
            let p = parse_camera_row(fields_view(row@)).unwrap();
            &&& c.0 == p.camera_type
            &&& c.1 == p.target
            &&& c.2@ == p.distance
            &&& c.3@ == p.location
            &&& c.2.wf() && c.3.wf()
        },
{
    let ghost f = fields_view(row@);
    if row.len() < 6 {
        return None;
    }
    let camera_type = parse_i32(row[0].as_str());
    let target = parse_i32(row[1].as_str());
    let distance = Scalar::from_text(row[2].as_str());
    let location = vec3_from(row, 3);
    match (camera_type, target, distance, location) {
        (Some(t), Some(g), Some(d), Some(l)) => {
            assert(forall|k: int| 2 <= k < 6 ==> is_scalar_text(#[trigger] f[k]));
            Some((t, g, d, l))
        },
        _ => {
            proof {
                if parse_camera_row(f).is_some() {
                    assert(is_scalar_text(f[2]) && is_scalar_text(f[3]) && is_scalar_text(f[4])
                        && is_scalar_text(f[5]));
                }
            }
            None
        },
    }
}

fn add_used_model(used: &mut Vec<(String, String)>, model: String, location: String)
    ensures
        used_view(final(used)@) == if uses_model(used_view(old(used)@), (model@, location@)) {
            used_view(old(used)@)
        } else {
            used_view(old(used)@).push((model@, location@))
        },
{
    let mut i: usize = 0;
    while i < used.len()
        invariant
            i <= used@.len(),
            forall|j: int| 0 <= j < i ==> (#[trigger] used_view(used@)[j]) != (model@, location@),
        decreases used@.len() - i,
    {
        assert(used_view(used@)[i as int] == (used@[i as int].0@, used@[i as int].1@));
        if used[i].0 == model && used[i].1 == location {
            return;
        }
        i += 1;
    }
    let ghost before = used@;
    used.push((model, location));
    assert(used_view(used@) =~= used_view(before).push((model@, location@)));
}

/// The objects of a scene file's records, and the models that they use.
/// A malformed row is left out, with an error in `logs`; the rest are read.
pub fn read_objects(scene_name: &str, records: &Vec<Result<Vec<String>, String>>, logs: &mut Logs) -> (r: (
    Vec<(String, String)>,
    Vec<WorldObject>,
))
    ensures
        objects_view(r.1@) == object_records_of(records_view(records@)).map_values(
            |o: ObjectRecord| imported(scene_name@, o),
        ),
        used_view(r.0@) == used_models_of(object_records_of(records_view(records@))),
        forall|i: int| 0 <= i < r.1@.len() ==> (#[trigger] r.1@[i]).wf(),
        logged(old(logs)@, final(logs)@, object_failures_of(records_view(records@))),
{
    let ghost recs = records_view(records@);
    let mut used: Vec<(String, String)> = Vec::new();
    let mut objects: Vec<WorldObject> = Vec::new();
    assert(logs@.unwritten.subrange(0, logs@.unwritten.len() as int) =~= logs@.unwritten);
    if records.len() == 0 {
        assert(objects_view(objects@) =~= Seq::<ObjectView>::empty());
        assert(used_view(used@) =~= Seq::<(Seq<char>, Seq<char>)>::empty());
        return (used, objects);
    }
    assert(recs.subrange(0, 1).len() == 1);
    let mut i: usize = 1;
    assert(objects_view(objects@) =~= Seq::<ObjectView>::empty());
    assert(used_view(used@) =~= Seq::<(Seq<char>, Seq<char>)>::empty());
    while i < records.len()
        invariant
            1 <= i <= records@.len(),
            recs == records_view(records@),
            objects_view(objects@) == object_records_of(recs.subrange(0, i as int)).map_values(
                |o: ObjectRecord| imported(scene_name@, o),
            ),
            used_view(used@) == used_models_of(object_records_of(recs.subrange(0, i as int))),
            forall|j: int| 0 <= j < objects@.len() ==> (#[trigger] objects@[j]).wf(),
            logged(old(logs)@, logs@, object_failures_of(recs.subrange(0, i as int))),
        decreases records@.len() - i,
    {
        let ghost prefix = recs.subrange(0, i as int);
        let ghost next = recs.subrange(0, i + 1);
        assert(next.drop_last() =~= prefix);
        assert(next.last() == recs[i as int]);
        let ghost prev_recs = object_records_of(prefix);
        let ghost logs_before = logs@;
        match &records[i] {
            Ok(row) => {
                match object_from_row(row, scene_name) {
                    Some(object) => {
                        let ghost rec = parse_object_row(fields_view(row@)).unwrap();
                        assert(object_records_of(next) == prev_recs.push(rec));
                        add_used_model(&mut used, object.model(), object.location());
                        let ghost before = objects@;
                        objects.push(object);
                        assert(objects_view(objects@) =~= objects_view(before).push(
                            imported(scene_name@, rec),
                        ));
                        assert(prev_recs.push(rec).map_values(
                            |o: ObjectRecord| imported(scene_name@, o),
                        ) =~= prev_recs.map_values(|o: ObjectRecord| imported(scene_name@, o)).push(
                            imported(scene_name@, rec),
                        ));
                        assert(prev_recs.push(rec).drop_last() =~= prev_recs);
                    },
                    None => {
                        logs.add_error(String::from_str("Scene details data: a row has a malformed field"));
                        proof {
                            lemma_logged_twice(old(logs)@, logs_before, logs@, object_failures_of(prefix), 1);
                        }
                    },
                }
            },
            Err(e) => {
                let mut msg = String::from_str("Scene details data:");
                msg.append(e.as_str());
                logs.add_error(msg);
                proof {
                    lemma_logged_twice(old(logs)@, logs_before, logs@, object_failures_of(prefix), 1);
                }
            },
        }
        i += 1;
    }
    assert(recs.subrange(0, records@.len() as int) =~= recs);
    (used, objects)
}

/// The game options of a camera file's records: the defaults, with the camera
/// of the last well-formed row. A malformed row is left out, with an error in
/// `logs`.
pub fn read_game_options(records: &Vec<Result<Vec<String>, String>>, logs: &mut Logs) -> (r: GameOptions)
    ensures
        options_from(r, camera_record_of(records_view(records@))),
        r.wf(),
        logged(old(logs)@, final(logs)@, camera_failures_of(records_view(records@))),
{
    let ghost recs = records_view(records@);
    let mut options = GameOptions::new();
    assert(logs@.unwritten.subrange(0, logs@.unwritten.len() as int) =~= logs@.unwritten);
    if records.len() == 0 {
        return options;
    }
    let mut i: usize = 1;
    while i < records.len()
        invariant
            1 <= i <= records@.len(),
            recs == records_view(records@),
            options_from(options, camera_record_of(recs.subrange(0, i as int))),
            options.wf(),
            logged(old(logs)@, logs@, camera_failures_of(recs.subrange(0, i as int))),
        decreases records@.len() - i,
    {
        let ghost prefix = recs.subrange(0, i as int);
        let ghost next = recs.subrange(0, i + 1);
        assert(next.drop_last() =~= prefix);
        assert(next.last() == recs[i as int]);
        let ghost logs_before = logs@;
        match &records[i] {
            Ok(row) => {
                match camera_from_row(row) {
                    Some((camera_type, target, distance, location)) => {
                        options.camera_type = camera_type;
                        options.camera_target = target;
                        options.camera_distance = distance;
                        options.camera_location = location;
                    },
                    None => {
                        logs.add_error(String::from_str("Camera: a row has a malformed field"));
                        proof {
                            lemma_logged_twice(old(logs)@, logs_before, logs@, camera_failures_of(prefix), 1);
                        }
                    },
                }
            },
            Err(e) => {
                logs.add_error(String::from_str(e.as_str()));
                proof {
                    lemma_logged_twice(old(logs)@, logs_before, logs@, camera_failures_of(prefix), 1);
                }
            },
        }
        i += 1;
    }
    assert(recs.subrange(0, records@.len() as int) =~= recs);
    options
}

/// Reads a saved scene from the contents of its two files, or the error met
/// in reading each: the models that its objects use, the objects, and the game
/// options. A file that could not be read gives no objects, or the default
/// options, and an error in `logs`.
pub fn import(
    scene_name: &str,
    scene_file: Result<Vec<u8>, String>,
    camera_file: Result<Vec<u8>, String>,
    logs: &mut Logs,
) -> (r: (Vec<(String, String)>, Vec<WorldObject>, GameOptions))
    ensures
        objects_view(r.1@) == imported_objects(scene_name@, file_records(scene_file)),
        used_view(r.0@) == used_models_of(object_records_of(file_records(scene_file))),
        options_from(r.2, camera_record_of(file_records(camera_file))),
        forall|i: int| 0 <= i < r.1@.len() ==> (#[trigger] r.1@[i]).wf(),
        r.2.wf(),
        logged(
            old(logs)@,
            final(logs)@,
            match scene_file {
                Ok(b) => object_failures_of(csv_records_of(b@)),
                Err(_) => 1,
            } + match camera_file {
                Ok(b) => camera_failures_of(csv_records_of(b@)),
                Err(_) => 1,
            },
        ),
{
    let ghost start = logs@;
    let (used, objects) = match &scene_file {
        Ok(bytes) => read_objects(scene_name, &csv_records(bytes), logs),
        Err(e) => {
            let mut msg = String::from_str("Scene details: ");
            msg.append(e.as_str());
            logs.add_error(msg);
            let ghost noted = logs@;
            let none: Vec<Result<Vec<String>, String>> = Vec::new();
            assert(records_view(none@) =~= Seq::<Option<Seq<Seq<char>>>>::empty());
            let read = read_objects(scene_name, &none, logs);
            proof {
                lemma_logged_twice(start, noted, logs@, 1, 0);
            }
            read
        },
    };
    let ghost middle = logs@;
    let options = match &camera_file {
        Ok(bytes) => read_game_options(&csv_records(bytes), logs),
        Err(e) => {
            let mut msg = String::from_str("Camera: ");
            msg.append(e.as_str());
            logs.add_error(msg);
            GameOptions::new()
        },
    };
    proof {
        let first = match scene_file {
            Ok(b) => object_failures_of(csv_records_of(b@)),
            Err(_) => 1,
        };
        let second = match camera_file {
            Ok(b) => camera_failures_of(csv_records_of(b@)),
            Err(_) => 1,
        };
        lemma_logged_twice(start, middle, logs@, first, second);
    }
    (used, objects, options)
}

/// The extension of the model files that the editor can load.
pub open spec fn model_extension() -> Seq<char> {
    ".glb"@
}

pub open spec fn is_model_path(p: Seq<char>) -> bool {
    p.len() >= 4 && p.subrange(p.len() - 4, p.len() as int) == model_extension()
}

/// The index of the last `/` in `s`, or -1.
pub open spec fn last_slash(s: Seq<char>) -> int
    decreases s.len(),
{
    if s.len() == 0 {
        -1
    } else if s.last() == '/' {
        s.len() - 1
    } else {
        last_slash(s.drop_last())
    }
}

/// The file name of a model path, without its folders and extension.
pub open spec fn model_name_of(p: Seq<char>) -> Seq<char> {
    let stem = p.subrange(0, p.len() - 4);
    stem.subrange(last_slash(stem) + 1, stem.len() as int)
}

/// The models among `paths`, in order: name, path, and not loaded yet.
pub open spec fn known_models_of(paths: Seq<Seq<char>>) -> Seq<(Seq<char>, Seq<char>, bool)>
    decreases paths.len(),
{
    if paths.len() == 0 {
        Seq::empty()
    } else {
        let prev = known_models_of(paths.drop_last());
        let p = paths.last();
        if is_model_path(p) {
            prev.push((model_name_of(p), p, false))
        } else {
            prev
        }
    }
}

pub open spec fn known_view(v: Seq<(String, String, bool)>) -> Seq<(Seq<char>, Seq<char>, bool)> {
    v.map_values(|m: (String, String, bool)| (m.0@, m.1@, m.2))
}

proof fn lemma_last_slash_bounds(s: Seq<char>)
    ensures
        -1 <= last_slash(s) < s.len(),
        last_slash(s) >= 0 ==> s[last_slash(s)] == '/',
        forall|j: int| last_slash(s) < j < s.len() ==> s[j] != '/',
    decreases s.len(),
{
    if s.len() > 0 && s.last() != '/' {
        lemma_last_slash_bounds(s.drop_last());
        assert forall|j: int| last_slash(s) < j < s.len() implies s[j] != '/' by {
            if j < s.len() - 1 {
                assert(s[j] == s.drop_last()[j]);
            }
        }
    }
}

proof fn lemma_last_slash_is(s: Seq<char>, k: int)
    requires
        -1 <= k < s.len(),
        k >= 0 ==> s[k] == '/',
        forall|j: int| k < j < s.len() ==> s[j] != '/',
    ensures
        last_slash(s) == k,
    decreases s.len(),
{
    if s.len() > 0 && k < s.len() - 1 {
        assert(s.last() != '/');
        lemma_last_slash_is(s.drop_last(), k);
    }
}

/// The name and path of a model file, if `path` is one.
pub fn model_of_path(path: &String) -> (r: Option<(String, String, bool)>)
    ensures
        r.is_some() == is_model_path(path@),
        r matches Some(m) ==> (m.0@, m.1@, m.2) == (model_name_of(path@), path@, false),
{
    let s = path.as_str();
    let n = s.unicode_len();
    if n < 4 {
        return None;
    }
    let ext = s.substring_char(n - 4, n);
    let glb = String::from_str(".glb");
    if String::from_str(ext) != glb {
        return None;
    }
    let stem_len = n - 4;
    let ghost stem = path@.subrange(0, stem_len as int);
    let mut k: usize = stem_len;
    while k > 0
        invariant
            k <= stem_len,
            stem_len == n - 4,
            n == s@.len(),
            stem == s@.subrange(0, stem_len as int),
            forall|j: int| k <= j < stem_len ==> stem[j] != '/',
        ensures
            forall|j: int| k <= j < stem_len ==> stem[j] != '/',
            k > 0 ==> stem[k - 1] == '/',
        decreases k,
    {
        if s.get_char(k - 1) == '/' {
            break;
        }
        k -= 1;
    }
    proof {
        lemma_last_slash_is(stem, k as int - 1);
        lemma_last_slash_bounds(stem);
    }
    let name = String::from_str(s.substring_char(k, stem_len));
    assert(name@ =~= model_name_of(path@));
    Some((name, path.clone(), false))
}

/// The models among the files of the models folder, in order: each file with
/// the model extension, named by its file name without folders or extension,
/// marked as not loaded.
pub fn get_models(paths: &Vec<String>) -> (r: Vec<(String, String, bool)>)
    ensures
        known_view(r@) == known_models_of(paths@.map_values(|p: String| p@)),
{
    let ghost all = paths@.map_values(|p: String| p@);
    let mut known: Vec<(String, String, bool)> = Vec::new();
    let mut i: usize = 0;
    assert(known_view(known@) =~= known_models_of(all.subrange(0, 0)));
    while i < paths.len()
        invariant
            i <= paths@.len(),
            all == paths@.map_values(|p: String| p@),
            known_view(known@) == known_models_of(all.subrange(0, i as int)),
        decreases paths@.len() - i,
    {
        let ghost next = all.subrange(0, i + 1);
        assert(next.drop_last() =~= all.subrange(0, i as int));
        assert(next.last() == paths@[i as int]@);
        match model_of_path(&paths[i]) {
            Some(m) => {
                let ghost before = known@;
                known.push(m);
                assert(known_view(known@) =~= known_view(before).push((m.0@, m.1@, m.2)));
            },
            None => {},
        }
        i += 1;
    }
    assert(all.subrange(0, paths@.len() as int) =~= all);
    known
}

/// A record whose coordinates the scene files accept reads back from its row.
pub proof fn lemma_object_row_round_trip(r: ObjectRecord)
    requires
        transform_valid(r.transform),
    ensures
        parse_object_row(object_row(r)) == Some(r),
{
    lemma_u32_text_round_trip(r.id);
    lemma_bool_text_round_trip(r.instanced);
    let row = object_row(r);
    assert forall|k: int| 5 <= k < 14 implies is_scalar_text(#[trigger] row[k]) by {}
    assert(vec3_at(row, 5) == r.transform.0);
    assert(vec3_at(row, 8) == r.transform.1);
    assert(vec3_at(row, 11) == r.transform.2);
}

/// A camera whose coordinates the scene files accept reads back from its row.
pub proof fn lemma_camera_row_round_trip(c: CameraRecord)
    requires
        is_scalar_text(c.distance),
        vec3_valid(c.location),
    ensures
        parse_camera_row(camera_row(c)) == Some(c),
{
    lemma_i32_text_round_trip(c.camera_type);
    lemma_i32_text_round_trip(c.target);
    let row = camera_row(c);
    assert forall|k: int| 2 <= k < 6 implies is_scalar_text(#[trigger] row[k]) by {}
    assert(vec3_at(row, 3) == c.location);
}

/// Reading back the rows of a saved scene gives every object, field for field
/// and in order, with no row refused, and the camera that was saved.
pub proof fn lemma_scene_round_trip(objects: Seq<ObjectView>, options: GameOptions)
    requires
        forall|i: int| 0 <= i < objects.len() ==> transform_valid(#[trigger] objects[i].transform),
        options.wf(),
    ensures
        object_records_of(as_read(scene_rows(objects))) == objects.map_values(
            |o: ObjectView| record_of(o),
        ),
        object_failures_of(as_read(scene_rows(objects))) == 0,
        camera_record_of(as_read(camera_rows(options))) == Some(camera_record_of_options(options)),
        camera_failures_of(as_read(camera_rows(options))) == 0,
    decreases objects.len(),
{
    if objects.len() == 0 {
        assert(as_read(scene_rows(objects)).len() == 1);
        assert(objects.map_values(|o: ObjectView| record_of(o)) =~= Seq::<ObjectRecord>::empty());
    } else {
        let prev = objects.drop_last();
        let o = objects.last();
        lemma_scene_round_trip(prev, options);
        lemma_object_row_round_trip(record_of(o));
        let all = as_read(scene_rows(objects));
        assert(all.drop_last() =~= as_read(scene_rows(prev)));
        assert(all.last() == Some(object_row(record_of(o))));
        assert(objects.map_values(|o: ObjectView| record_of(o)) =~= prev.map_values(
            |o: ObjectView| record_of(o),
        ).push(record_of(o)));
    }
    let cam = as_read(camera_rows(options));
    lemma_camera_row_round_trip(camera_record_of_options(options));
    assert(cam.drop_last().len() == 1);
    assert(camera_failures_of(cam.drop_last()) == 0);
    assert(camera_record_of(cam.drop_last()).is_none());
    assert(cam.last() == Some(camera_row(camera_record_of_options(options))));
}

} // verus!
