//! The editor session: the scene's objects, the object being placed, the
//! selection, run mode and the menu commands. The camera, the light and all
//! arithmetic on coordinates stay with the caller.

use vstd::prelude::*;
use crate::codec::{
    export, file_records, get_models, import, imported_objects, known_view, objects_view,
    options_from, camera_record_of, object_records_of, used_models_of, SceneFiles,
};
use crate::input::pairs_view;
use crate::registry::names_view;
use crate::world_object::{script_dir_of, script_path_of, ScriptCopy, ScriptState};
use crate::geometry::{identity_transform, zero_vec3, Scalar, TransformView, Vec3, Vec3View};
use crate::input::SceneData;
use crate::logs::Logs;
use crate::options::{EditorOptions, EditorWindows, GameOptions};
use crate::registry::InstancedBuffers;
use crate::text::decimal_text;
use crate::world_object::{ObjectView, WorldObject};

verus! {

/// What the editor acts on: nothing, the object being placed, or one of the
/// scene's objects, by index.
#[derive(Clone, Copy, Debug, PartialEq, Eq, Structural)]
pub enum Selection {
    Idle,
    Placing,
    Editing(usize),
}

/// How run mode changed in a frame.
#[derive(Clone, Copy, Debug, PartialEq, Eq, Structural)]
pub enum ModeChange {
    Unchanged,
    Started,
    Stopped,
}

/// The mouse and key input that placement reads in a frame. `moved_to` is the
/// selected object's position after the nudge keys, where one was pressed.
pub struct PlacementInput {
    pub left_clicked: bool,
    pub right_clicked: bool,
    pub one_pressed: bool,
    pub moved_to: Option<Vec3>,
}

pub open spec fn max_id(s: Seq<ObjectView>) -> int
    decreases s.len(),
{
    if s.len() == 0 {
        -1
    } else {
        let m = max_id(s.drop_last());
        if s.last().id as int > m {
            s.last().id as int
        } else {
            m
        }
    }
}

/// The id of the next object: one more than the largest, 0 for an empty
/// scene, and none where the largest is already `u32::MAX`.
pub open spec fn next_id_of(s: Seq<ObjectView>) -> Option<u32> {
    if max_id(s) < u32::MAX {
        Some((max_id(s) + 1) as u32)
    } else {
        None
    }
}

pub open spec fn ids_distinct(s: Seq<ObjectView>) -> bool {
    forall|i: int, j: int| 0 <= i < s.len() && 0 <= j < s.len() && i != j ==> s[i].id != s[j].id
}

/// Every id in `s` is below `id`.
pub open spec fn ids_below(s: Seq<ObjectView>, id: u32) -> bool {
    forall|i: int| 0 <= i < s.len() ==> (#[trigger] s[i]).id < id
}

pub proof fn lemma_max_id(s: Seq<ObjectView>)
    ensures
        max_id(s) >= -1,
        max_id(s) <= u32::MAX,
        forall|i: int| 0 <= i < s.len() ==> (#[trigger] s[i]).id <= max_id(s),
    decreases s.len(),
{
    if s.len() > 0 {
        lemma_max_id(s.drop_last());
        assert forall|i: int| 0 <= i < s.len() implies (#[trigger] s[i]).id <= max_id(s) by {
            if i < s.len() - 1 {
                assert(s[i] == s.drop_last()[i]);
            }
        }
    }
}

/// The next id is 0 in an empty scene; otherwise, below `u32::MAX`, it is one
/// more than the largest id that an object of the scene has.
pub proof fn lemma_next_id_is_largest_plus_one(s: Seq<ObjectView>)
    ensures
        s.len() == 0 ==> next_id_of(s) == Some(0u32),
        s.len() > 0 ==> exists|i: int| 0 <= i < s.len() && (#[trigger] s[i]).id == max_id(s),
        s.len() > 0 && max_id(s) < u32::MAX ==> next_id_of(s) == Some((max_id(s) + 1) as u32),
    decreases s.len(),
{
    lemma_max_id(s);
    if s.len() > 0 {
        let d = s.drop_last();
        lemma_next_id_is_largest_plus_one(d);
        if s.last().id as int > max_id(d) {
            assert(s[s.len() - 1].id == max_id(s));
        } else {
            let i = choose|i: int| 0 <= i < d.len() && (#[trigger] d[i]).id == max_id(d);
            assert(s[i] == d[i]);
        }
    }
}

/// The next id is above every id in the scene.
pub proof fn lemma_next_id_fresh(s: Seq<ObjectView>)
    ensures
        next_id_of(s) matches Some(id) ==> ids_below(s, id),
{
    lemma_max_id(s);
}

/// The known model called `name`: the first entry with that name.
pub open spec fn known_model_named(known: Seq<(Seq<char>, Seq<char>, bool)>, name: Seq<char>) -> Option<int> {
    if exists|i: int| 0 <= i < known.len() && (#[trigger] known[i]).0 == name {
        Some(choose|i: int| 0 <= i < known.len() && (#[trigger] known[i]).0 == name && forall|j: int| 0 <= j < i ==> known[j].0 != name)
    } else {
        None
    }
}

pub open spec fn candidate_view(c: Option<WorldObject>) -> Option<ObjectView> {
    match c {
        Some(o) => Some(o@),
        None => None,
    }
}

/// A new object of model `name` from `location`, named after its model and
/// id, at the origin, with no script.
pub open spec fn fresh_object(id: u32, name: Seq<char>, location: Seq<char>, scene: Seq<char>) -> ObjectView {
    ObjectView {
        id,
        name: name + decimal_text(id as nat),
        model: name,
        location,
        directory: scene,
        transform: identity_transform(),
        velocity: zero_vec3(),
        acceleration: zero_vec3(),
        default_transform: identity_transform(),
        has_script: false,
        script: None,
        instanced: false,
    }
}

/// An object put back to its authored transform.
pub open spec fn at_rest(o: ObjectView) -> ObjectView {
    ObjectView { transform: o.default_transform, ..o }
}

pub open spec fn strings_of(v: Seq<String>) -> Seq<Seq<char>> {
    v.map_values(|s: String| s@)
}

/// The buffers after each of `added` is given one, in order.
pub open spec fn with_buffers(buffers: Seq<Seq<char>>, added: Seq<Seq<char>>) -> Seq<Seq<char>>
    decreases added.len(),
{
    if added.len() == 0 {
        buffers
    } else {
        let prev = with_buffers(buffers, added.drop_last());
        if prev.contains(added.last()) {
            prev
        } else {
            prev.push(added.last())
        }
    }
}

/// A known model, marked as loaded where its name is among `loaded`.
pub open spec fn mark_one(m: (Seq<char>, Seq<char>, bool), loaded: Seq<Seq<char>>) -> (Seq<char>, Seq<char>, bool) {
    if loaded.contains(m.0) {
        (m.0, m.1, true)
    } else {
        m
    }
}

pub open spec fn mark_loaded(known: Seq<(Seq<char>, Seq<char>, bool)>, loaded: Seq<Seq<char>>) -> Seq<(Seq<char>, Seq<char>, bool)> {
    known.map_values(|m: (Seq<char>, Seq<char>, bool)| mark_one(m, loaded))
}

pub open spec fn copy_view(c: ScriptCopy) -> (Seq<char>, Seq<char>, Seq<char>) {
    (c.directory@, c.from@, c.to@)
}

pub open spec fn copies_view(v: Seq<ScriptCopy>) -> Seq<(Seq<char>, Seq<char>, Seq<char>)> {
    v.map_values(|c: ScriptCopy| copy_view(c))
}

/// The script copies that saving as `scene` makes, in order: one for each
/// object with a script from another scene's folder.
pub open spec fn copies_of(objects: Seq<ObjectView>, scene: Seq<char>) -> Seq<(Seq<char>, Seq<char>, Seq<char>)>
    decreases objects.len(),
{
    if objects.len() == 0 {
        Seq::empty()
    } else {
        let prev = copies_of(objects.drop_last(), scene);
        let o = objects.last();
        if o.has_script && scene != o.directory {
            prev.push((script_dir_of(scene), script_path_of(o.directory, o.name), script_path_of(scene, o.name)))
        } else {
            prev
        }
    }
}

proof fn lemma_contains_names(v: Seq<String>, model: Seq<char>)
    ensures
        (exists|i: int| 0 <= i < v.len() && v[i]@ == model) == names_view(v).contains(model),
{
    if exists|i: int| 0 <= i < v.len() && v[i]@ == model {
        let i = choose|i: int| 0 <= i < v.len() && v[i]@ == model;
        assert(names_view(v)[i] == model);
    }
    if names_view(v).contains(model) {
        let i = choose|i: int| 0 <= i < names_view(v).len() && names_view(v)[i] == model;
        assert(v[i]@ == model);
    }
}

/// What placement acts on: the scene's objects, the object being placed, and
/// the selection.
pub struct PlacementView {
    pub objects: Seq<ObjectView>,
    pub candidate: Option<ObjectView>,
    pub selection: Selection,
}

/// An object moved, as authored, to `pos`.
pub open spec fn moved(o: ObjectView, pos: Vec3View) -> ObjectView {
    ObjectView {
        transform: (pos, o.transform.1, o.transform.2),
        default_transform: (pos, o.default_transform.1, o.default_transform.2),
        ..o
    }
}

/// The selection dropped, with the object being placed.
pub open spec fn cancelled(p: PlacementView) -> PlacementView {
    PlacementView { objects: p.objects, candidate: None, selection: Selection::Idle }
}

/// What is selected moved to `pos`.
pub open spec fn nudged(p: PlacementView, pos: Vec3View) -> PlacementView {
    match p.selection {
        Selection::Placing => PlacementView {
            candidate: match p.candidate {
                Some(c) => Some(moved(c, pos)),
                None => None,
            },
            ..p
        },
        Selection::Editing(k) => if k < p.objects.len() {
            PlacementView { objects: p.objects.update(k as int, moved(p.objects[k as int], pos)), ..p }
        } else {
            p
        },
        Selection::Idle => p,
    }
}

/// The object being placed put into the scene, and the selection dropped.
pub open spec fn committed(p: PlacementView) -> PlacementView {
    PlacementView {
        objects: match p.candidate {
            Some(c) => p.objects.push(c),
            None => p.objects,
        },
        candidate: None,
        selection: Selection::Idle,
    }
}

/// Placing started on the loaded model at index `k` of `sizes`, found among
/// `known`, with the next id, in the scene `scene`; nothing changes where the
/// model is not loaded or not known, or no id is left.
pub open spec fn start_placing(
    p: PlacementView,
    sizes: Seq<(Seq<char>, Vec3View)>,
    known: Seq<(Seq<char>, Seq<char>, bool)>,
    k: int,
    scene: Seq<char>,
) -> PlacementView {
    if k < sizes.len() && known_model_named(known, sizes[k].0).is_some() && next_id_of(p.objects).is_some() {
        PlacementView {
            candidate: Some(
                fresh_object(
                    next_id_of(p.objects).unwrap(),
                    sizes[k].0,
                    known[known_model_named(known, sizes[k].0).unwrap()].1,
                    scene,
                ),
            ),
            selection: Selection::Placing,
            ..p
        }
    } else {
        p
    }
}

/// The objects as leaving run mode puts them: each at its authored transform.
pub open spec fn stopped(objects: Seq<ObjectView>) -> Seq<ObjectView> {
    objects.map_values(|o: ObjectView| at_rest(o))
}

/// What an object's script wrote back in one step of a run.
pub struct ScriptStep {
    pub index: int,
    pub transform: TransformView,
    pub velocity: Vec3View,
    pub acceleration: Vec3View,
}

/// The objects after one script step: the object at the step's index takes
/// the state its script wrote back.
pub open spec fn script_step(objects: Seq<ObjectView>, step: ScriptStep) -> Seq<ObjectView> {
    if 0 <= step.index < objects.len() {
        objects.update(
            step.index,
            ObjectView {
                transform: step.transform,
                velocity: step.velocity,
                acceleration: step.acceleration,
                ..objects[step.index]
            },
        )
    } else {
        objects
    }
}

/// The objects after the script steps of a run, in order.
pub open spec fn run_steps(objects: Seq<ObjectView>, steps: Seq<ScriptStep>) -> Seq<ObjectView>
    decreases steps.len(),
{
    if steps.len() == 0 {
        objects
    } else {
        script_step(run_steps(objects, steps.drop_last()), steps.last())
    }
}

/// However the scripts move, turn and scale the objects during a run, leaving
/// run mode puts every object back to the transform it had before the run,
/// where it stood at its authored transform then.
pub proof fn lemma_run_restores(objects: Seq<ObjectView>, steps: Seq<ScriptStep>)
    requires
        forall|i: int| 0 <= i < objects.len() ==> (#[trigger] objects[i]).transform == objects[i].default_transform,
    ensures
        stopped(run_steps(objects, steps)).len() == objects.len(),
        forall|i: int|
            0 <= i < objects.len() ==> (#[trigger] stopped(run_steps(objects, steps))[i]).transform
                == objects[i].transform,
    decreases steps.len(),
{
    lemma_run_keeps_authored(objects, steps);
}

proof fn lemma_run_keeps_authored(objects: Seq<ObjectView>, steps: Seq<ScriptStep>)
    ensures
        run_steps(objects, steps).len() == objects.len(),
        forall|i: int|
            0 <= i < objects.len() ==> (#[trigger] run_steps(objects, steps)[i]).default_transform
                == objects[i].default_transform,
    decreases steps.len(),
{
    if steps.len() > 0 {
        lemma_run_keeps_authored(objects, steps.drop_last());
        let prev = run_steps(objects, steps.drop_last());
        assert forall|i: int| 0 <= i < objects.len() implies (#[trigger] run_steps(objects, steps)[i]).default_transform
            == objects[i].default_transform by {
            assert(run_steps(objects, steps)[i].default_transform == prev[i].default_transform);
        }
    }
}

/// A change to a scene's object list: an object added, which gets the next
/// id, or the object at an index deleted.
pub enum SceneEdit {
    Add(ObjectView),
    Delete(int),
}

pub open spec fn apply_edit(s: Seq<ObjectView>, e: SceneEdit) -> Seq<ObjectView> {
    match e {
        SceneEdit::Add(o) => match next_id_of(s) {
            Some(id) => s.push(ObjectView { id, ..o }),
            None => s,
        },
        SceneEdit::Delete(i) => if 0 <= i < s.len() {
            s.remove(i)
        } else {
            s
        },
    }
}

pub open spec fn apply_edits(s: Seq<ObjectView>, edits: Seq<SceneEdit>) -> Seq<ObjectView>
    decreases edits.len(),
{
    if edits.len() == 0 {
        s
    } else {
        apply_edit(apply_edits(s, edits.drop_last()), edits.last())
    }
}

/// Adding an object with an id above all the others keeps the ids distinct.
pub proof fn lemma_push_fresh(s: Seq<ObjectView>, o: ObjectView)
    requires
        ids_distinct(s),
        ids_below(s, o.id),
    ensures
        ids_distinct(s.push(o)),
{
    let t = s.push(o);
    assert forall|i: int, j: int| 0 <= i < t.len() && 0 <= j < t.len() && i != j implies t[i].id != t[j].id by {
        if i < s.len() {
            assert(t[i] == s[i]);
        }
        if j < s.len() {
            assert(t[j] == s[j]);
        }
    }
}

/// Deleting an object keeps the ids distinct.
pub proof fn lemma_remove_keeps_distinct(s: Seq<ObjectView>, k: int)
    requires
        ids_distinct(s),
        0 <= k < s.len(),
    ensures
        ids_distinct(s.remove(k)),
{
    let t = s.remove(k);
    assert forall|i: int, j: int| 0 <= i < t.len() && 0 <= j < t.len() && i != j implies t[i].id != t[j].id by {
        let si = if i < k { i } else { i + 1 };
        let sj = if j < k { j } else { j + 1 };
        assert(t[i] == s[si]);
        assert(t[j] == s[sj]);
    }
}

/// After any sequence of additions and deletions, the objects of a scene whose
/// ids were distinct still have distinct ids; each added object got one more
/// than the largest id then present, or 0 in an empty scene.
pub proof fn lemma_ids_stay_distinct(s: Seq<ObjectView>, edits: Seq<SceneEdit>)
    requires
        ids_distinct(s),
    ensures
        ids_distinct(apply_edits(s, edits)),
    decreases edits.len(),
{
    if edits.len() > 0 {
        let prev = apply_edits(s, edits.drop_last());
        lemma_ids_stay_distinct(s, edits.drop_last());
        match edits.last() {
            SceneEdit::Add(o) => {
                lemma_next_id_fresh(prev);
                if let Some(id) = next_id_of(prev) {
                    lemma_push_fresh(prev, ObjectView { id, ..o });
                }
            },
            SceneEdit::Delete(i) => {
                if 0 <= i < prev.len() {
                    lemma_remove_keeps_distinct(prev, i);
                }
            },
        }
    }
}

/// The name of a scene from an entry of the scenes folder: the entry without
/// the folder's `./Scenes/` prefix, where it has one.
pub open spec fn scene_name_of(path: Seq<char>) -> Seq<char> {
    let prefix = "./Scenes/"@;
    if path.len() >= prefix.len() && path.subrange(0, prefix.len() as int) == prefix {
        path.subrange(prefix.len() as int, path.len() as int)
    } else {
        path
    }
}

/// The name of the scene that the scenes folder lists at `path`.
pub fn scene_name_from_path(path: &str) -> (r: String)
    ensures
        r@ == scene_name_of(path@),
{
    let prefix = "./Scenes/";
    let n = path.unicode_len();
    let p = prefix.unicode_len();
    if n >= p && String::from_str(path.substring_char(0, p)) == String::from_str(prefix) {
        String::from_str(path.substring_char(p, n))
    } else {
        String::from_str(path)
    }
}

/// One step of drawing a frame; the caller turns each into a renderer call.
#[derive(Clone, Copy, Debug, PartialEq, Eq, Structural)]
pub enum DrawCommand {
    /// Make the instanced buffer asked for at this index among the pending ones.
    AddInstancedBuffer(usize),
    SetLight,
    SetCamera,
    /// Draw the scene's object at this index; as a preview where it is selected.
    Object(usize, bool),
    /// Draw the object being placed, as a preview.
    Candidate,
    /// Draw the axes.
    Axis,
    /// Draw the instances of the buffer at this index.
    Instanced(usize),
}

/// The draw steps of a frame, in order: the pending buffers, the light and
/// the camera, every object (a preview for the one being edited), the object
/// being placed, the axes where shown, then every instanced buffer.
pub open spec fn draw_plan(
    pending: nat,
    objects: nat,
    selection: Selection,
    placing: bool,
    show_axis: bool,
    buffers: nat,
) -> Seq<DrawCommand> {
    Seq::new(pending, |i: int| DrawCommand::AddInstancedBuffer(i as usize)) + seq![
        DrawCommand::SetLight,
        DrawCommand::SetCamera,
    ] + Seq::new(
        objects,
        |i: int| DrawCommand::Object(i as usize, selection == Selection::Editing(i as usize)),
    ) + (if placing {
        seq![DrawCommand::Candidate]
    } else {
        Seq::empty()
    }) + (if show_axis {
        seq![DrawCommand::Axis]
    } else {
        Seq::empty()
    }) + Seq::new(buffers, |i: int| DrawCommand::Instanced(i as usize))
}

pub struct EditorScreen {
    pub data: SceneData,
    pub placing_height: Scalar,
    pub object_being_placed: Option<WorldObject>,
    pub world_objects: Vec<WorldObject>,
    pub mouse_over_ui: bool,
    pub selected_model: usize,
    pub selection: Selection,
    pub known_models: Vec<(String, String, bool)>,
    pub run_game: bool,
    pub f6_released_last_frame: bool,
    pub right_clicked_last_frame: bool,
    pub scene_name: String,
    pub logs: Logs,
    pub windows: EditorWindows,
    pub options: EditorOptions,
    pub game_options: GameOptions,
    pub instanced_buffers: InstancedBuffers,
    pub instanced_buffers_added: Vec<String>,
}

impl EditorScreen {
    pub open spec fn objects(&self) -> Seq<ObjectView> {
        objects_view(self.world_objects@)
    }

    pub open spec fn candidate(&self) -> Option<ObjectView> {
        candidate_view(self.object_being_placed)
    }

    pub open spec fn placement(&self) -> PlacementView {
        PlacementView { objects: self.objects(), candidate: self.candidate(), selection: self.selection }
    }

    /// Placing started on the selected model.
    pub open spec fn started_placing(&self) -> PlacementView {
        start_placing(
            self.placement(),
            self.data.sizes(),
            known_view(self.known_models@),
            self.selected_model as int,
            self.scene_name@,
        )
    }

    /// The selection points at something that exists, and the buffers are
    /// listed once each.
    pub open spec fn wf(&self) -> bool {
        &&& self.data.wf()
        &&& self.instanced_buffers.wf()
        &&& (self.selection matches Selection::Editing(i) ==> i < self.world_objects@.len())
    }

    /// The scene's ids are distinct, and the object being placed has an id
    /// above all of them.
    pub open spec fn ids_ok(&self) -> bool {
        &&& ids_distinct(self.objects())
        &&& (self.candidate() matches Some(c) ==> ids_below(self.objects(), c.id))
    }

    /// An empty scene called `empty_scene`, with the models found among
    /// `model_paths` and the loaded ones in `model_sizes`.
    pub fn new(model_sizes: Vec<(String, Vec3)>, model_paths: &Vec<String>) -> (r: EditorScreen)
        ensures
            r.wf(),
            r.ids_ok(),
            r.objects() == Seq::<ObjectView>::empty(),
            r.candidate().is_none(),
            r.selection == Selection::Idle,
            !r.run_game,
            r.f6_released_last_frame,
            r.scene_name@ == "empty_scene"@,
            r.instanced_buffers@ == Seq::<Seq<char>>::empty(),
            r.data.sizes() == crate::input::sizes_view(model_sizes@),
            known_view(r.known_models@) == crate::codec::known_models_of(
                model_paths@.map_values(|p: String| p@),
            ),
    {
        let r = EditorScreen {
            data: SceneData::new(model_sizes),
            placing_height: Scalar::zero(),
            object_being_placed: None,
            world_objects: Vec::new(),
            mouse_over_ui: false,
            selected_model: 0,
            selection: Selection::Idle,
            known_models: get_models(model_paths),
            run_game: false,
            f6_released_last_frame: true,
            right_clicked_last_frame: false,
            scene_name: String::from_str("empty_scene"),
            logs: Logs::new(),
            windows: EditorWindows::new(),
            options: EditorOptions::new(),
            game_options: GameOptions::new(),
            instanced_buffers: InstancedBuffers::new(),
            instanced_buffers_added: Vec::new(),
        };
        assert(r.objects() =~= Seq::<ObjectView>::empty());
        r
    }

    /// The id that the next new object gets.
    pub fn next_id(&self) -> (r: Option<u32>)
        ensures
            r == next_id_of(self.objects()),
    {
        let ghost s = self.objects();
        let mut max: Option<u32> = None;
        let mut i: usize = 0;
        while i < self.world_objects.len()
            invariant
                i <= self.world_objects@.len(),
                s == self.objects(),
                max_id(s.subrange(0, i as int)) == match max {
                    Some(m) => m as int,
                    None => -1,
                },
            decreases self.world_objects@.len() - i,
        {
            let id = self.world_objects[i].id();
            proof {
                let next = s.subrange(0, i + 1);
                assert(next.drop_last() =~= s.subrange(0, i as int));
                assert(next.last() == s[i as int]);
            }
            match max {
                Some(m) => {
                    if id > m {
                        max = Some(id);
                    }
                },
                None => {
                    max = Some(id);
                },
            }
            i += 1;
        }
        assert(s.subrange(0, s.len() as int) =~= s);
        match max {
            None => Some(0),
            Some(m) => {
                if m < u32::MAX {
                    Some(m + 1)
                } else {
                    None
                }
            },
        }
    }

    fn known_model_location(&self, name: &String) -> (r: Option<String>)
        ensures
            match known_model_named(known_view(self.known_models@), name@) {
                Some(i) => r matches Some(l) && l@ == known_view(self.known_models@)[i].1,
                None => r.is_none(),
            },
    {
        let ghost known = known_view(self.known_models@);
        let mut i: usize = 0;
        while i < self.known_models.len()
            invariant
                i <= self.known_models@.len(),
                known == known_view(self.known_models@),
                forall|j: int| 0 <= j < i ==> known[j].0 != name@,
            decreases self.known_models@.len() - i,
        {
            if self.known_models[i].0 == *name {
                let ghost k = i as int;
                assert(known[k].0 == name@);
                let ghost chosen = known_model_named(known, name@).unwrap();
                assert(chosen == k) by {
                    if chosen < k {
                        assert(known[chosen].0 == name@);
                    } else if chosen > k {
                        assert(known[k].0 != name@);
                    }
                }
                return Some(self.known_models[i].1.clone());
            }
            i += 1;
        }
        None
    }

    /// Starts placing a new object of the selected loaded model, with the next
    /// id, where that model is among the known ones; otherwise nothing changes.
    pub fn change_selected_object(&mut self)
        ensures
            final(self).placement() == old(self).started_placing(),
            final(self).world_objects == old(self).world_objects,
            final(self).data == old(self).data,
            final(self).scene_name == old(self).scene_name,
            final(self).known_models == old(self).known_models,
            final(self).instanced_buffers == old(self).instanced_buffers,
            final(self).run_game == old(self).run_game,
            final(self).selected_model == old(self).selected_model,
            old(self).wf() ==> final(self).wf(),
            old(self).ids_ok() ==> final(self).ids_ok(),
    {
        if self.selected_model >= self.data.model_sizes.len() {
            return;
        }
        let model_name = self.data.model_sizes[self.selected_model].0.clone();
        let location = match self.known_model_location(&model_name) {
            Some(l) => l,
            None => return,
        };
        let id = match self.next_id() {
            Some(id) => id,
            None => return,
        };
        proof {
            lemma_next_id_fresh(self.objects());
        }
        self.object_being_placed = Some(
            WorldObject::new_empty(id, model_name, location, self.scene_name.clone()),
        );
        self.selection = Selection::Placing;
    }

    /// Drops the object being placed and the selection.
    pub fn cancel_selection(&mut self)
        ensures
            final(self).placement() == cancelled(old(self).placement()),
            final(self).world_objects == old(self).world_objects,
            final(self).data == old(self).data,
            final(self).scene_name == old(self).scene_name,
            final(self).known_models == old(self).known_models,
            final(self).selected_model == old(self).selected_model,
            final(self).run_game == old(self).run_game,
            old(self).wf() ==> final(self).wf(),
            old(self).ids_ok() ==> final(self).ids_ok(),
    {
        self.object_being_placed = None;
        self.selection = Selection::Idle;
    }

    /// Puts the object being placed into the scene, after the others, and drops
    /// the selection.
    pub fn commit_candidate(&mut self)
        ensures
            final(self).placement() == committed(old(self).placement()),
            final(self).data == old(self).data,
            final(self).scene_name == old(self).scene_name,
            final(self).known_models == old(self).known_models,
            final(self).selected_model == old(self).selected_model,
            final(self).run_game == old(self).run_game,
            old(self).wf() ==> final(self).wf(),
            old(self).ids_ok() ==> final(self).ids_ok(),
            forall|i: int|
                0 <= i < old(self).world_objects@.len() ==> final(self).world_objects@[i]
                    == old(self).world_objects@[i],
    {
        let candidate = self.object_being_placed.take();
        match candidate {
            Some(object) => {
                let ghost before = self.objects();
                self.world_objects.push(object);
                proof {
                    assert(self.objects() =~= before.push(object@));
                    let now = self.objects();
                    if ids_distinct(before) && ids_below(before, object@.id) {
                        assert forall|i: int, j: int|
                            0 <= i < now.len() && 0 <= j < now.len() && i != j implies now[i].id
                            != now[j].id by {
                            if i == now.len() - 1 {
                                assert(now[j] == before[j]);
                            } else if j == now.len() - 1 {
                                assert(now[i] == before[i]);
                            } else {
                                assert(now[i] == before[i]);
                                assert(now[j] == before[j]);
                            }
                        }
                    }
                }
            },
            None => {},
        }
        self.selection = Selection::Idle;
    }

    /// The shown position of what is selected.
    pub fn selected_position(&self) -> (r: Option<Vec3>)
        requires
            self.wf(),
        ensures
            match self.selection {
                Selection::Idle => r.is_none(),
                Selection::Placing => match self.candidate() {
                    Some(c) => r matches Some(p) && p@ == c.transform.0,
                    None => r.is_none(),
                },
                Selection::Editing(i) => r matches Some(p) && p@ == self.objects()[i as int].transform.0,
            },
    {
        match self.selection {
            Selection::Idle => None,
            Selection::Placing => match &self.object_being_placed {
                Some(o) => Some(o.position()),
                None => None,
            },
            Selection::Editing(i) => Some(self.world_objects[i].position()),
        }
    }

    /// Moves what is selected to `pos`.
    pub fn set_selected_position(&mut self, pos: Vec3)
        requires
            old(self).wf(),
        ensures
            final(self).wf(),
            old(self).ids_ok() ==> final(self).ids_ok(),
            final(self).placement() == nudged(old(self).placement(), pos@),
            final(self).data == old(self).data,
            final(self).scene_name == old(self).scene_name,
            final(self).known_models == old(self).known_models,
            final(self).selected_model == old(self).selected_model,
            final(self).run_game == old(self).run_game,
    {
        match self.selection {
            Selection::Idle => {},
            Selection::Placing => {
                match self.object_being_placed.take() {
                    Some(mut o) => {
                        o.set_position(pos);
                        self.object_being_placed = Some(o);
                    },
                    None => {},
                }
            },
            Selection::Editing(k) => {
                let ghost before = self.objects();
                let mut o = self.world_objects.remove(k);
                o.set_position(pos);
                self.world_objects.insert(k, o);
                proof {
                    let now = self.objects();
                    assert(now =~= before.update(k as int, o@));
                    assert forall|i: int, j: int|
                        0 <= i < now.len() && 0 <= j < now.len() && i != j && ids_distinct(before)
                            implies now[i].id != now[j].id by {
                        assert(now[i].id == before[i].id);
                        assert(now[j].id == before[j].id);
                    }
                    if let Some(c) = self.candidate() {
                        assert forall|i: int| 0 <= i < now.len() && ids_below(before, c.id) implies (
                        #[trigger] now[i]).id < c.id by {
                            assert(now[i].id == before[i].id);
                        }
                    }
                }
            },
        }
    }

    /// Moves the object being placed to where the cursor points on the ground.
    pub fn set_placement_position(&mut self, pos: Vec3)
        ensures
            final(self).candidate() == match old(self).candidate() {
                Some(c) => Some(ObjectView {
                    transform: (pos@, c.transform.1, c.transform.2),
                    default_transform: (pos@, c.default_transform.1, c.default_transform.2),
                    ..c
                }),
                None => None,
            },
            final(self).world_objects == old(self).world_objects,
            final(self).selection == old(self).selection,
            final(self).data == old(self).data,
            final(self).run_game == old(self).run_game,
            old(self).wf() ==> final(self).wf(),
            old(self).ids_ok() ==> final(self).ids_ok(),
    {
        match self.object_being_placed.take() {
            Some(mut o) => {
                o.set_position(pos);
                self.object_being_placed = Some(o);
            },
            None => {},
        }
    }

    /// One frame of placement input, in order: a right click drops the
    /// selection; the nudged position moves what is still selected; a left
    /// click puts the object being placed into the scene; the `1` key starts
    /// placing the selected model.
    pub fn update_input(&mut self, input: PlacementInput)
        requires
            old(self).wf(),
        ensures
            final(self).wf(),
            old(self).ids_ok() ==> final(self).ids_ok(),
            ({
                let start = old(self).placement();
                let cancel_step = if input.right_clicked { cancelled(start) } else { start };
                let nudge_step = match input.moved_to {
                    Some(pos) => nudged(cancel_step, pos@),
                    None => cancel_step,
                };
                let commit_step = if input.left_clicked { committed(nudge_step) } else { nudge_step };
                final(self).placement() == if input.one_pressed {
                    start_placing(
                        commit_step,
                        old(self).data.sizes(),
                        known_view(old(self).known_models@),
                        old(self).selected_model as int,
                        old(self).scene_name@,
                    )
                } else {
                    commit_step
                }
            }),
            final(self).right_clicked_last_frame == input.right_clicked,
            final(self).data == old(self).data,
            final(self).run_game == old(self).run_game,
    {
        if input.right_clicked {
            self.cancel_selection();
        }
        match input.moved_to {
            Some(pos) => {
                self.set_selected_position(pos);
            },
            None => {},
        }
        if input.left_clicked {
            self.commit_candidate();
        }
        if input.one_pressed {
            self.change_selected_object();
        }
        self.right_clicked_last_frame = input.right_clicked;
    }

    /// Gives a buffer to each model asked for since the last frame, in order.
    pub fn apply_added_buffers(&mut self)
        requires
            old(self).wf(),
        ensures
            final(self).wf(),
            old(self).ids_ok() ==> final(self).ids_ok(),
            final(self).instanced_buffers@ == with_buffers(
                old(self).instanced_buffers@,
                strings_of(old(self).instanced_buffers_added@),
            ),
            final(self).instanced_buffers_added@ == Seq::<String>::empty(),
            final(self).world_objects == old(self).world_objects,
            final(self).object_being_placed == old(self).object_being_placed,
            final(self).selection == old(self).selection,
            final(self).run_game == old(self).run_game,
    {
        let mut added: Vec<String> = Vec::new();
        std::mem::swap(&mut added, &mut self.instanced_buffers_added);
        let ghost names = strings_of(added@);
        let ghost start = self.instanced_buffers@;
        let mut i: usize = 0;
        while i < added.len()
            invariant
                i <= added@.len(),
                names == strings_of(added@),
                self.instanced_buffers.wf(),
                self.instanced_buffers@ == with_buffers(start, names.subrange(0, i as int)),
                self.data.wf(),
                self.selection == old(self).selection,
                self.world_objects == old(self).world_objects,
                self.object_being_placed == old(self).object_being_placed,
                self.run_game == old(self).run_game,
                self.instanced_buffers_added@ == Seq::<String>::empty(),
            decreases added@.len() - i,
        {
            let ghost next = names.subrange(0, i + 1);
            assert(next.drop_last() =~= names.subrange(0, i as int));
            assert(next.last() == added@[i as int]@);
            self.instanced_buffers.add(added[i].clone());
            i += 1;
        }
        assert(names.subrange(0, added@.len() as int) =~= names);
    }

    /// Switches run mode on a fresh press of the run key. `was_running` is the
    /// mode at the start of the frame, before the menus. Leaving run mode puts
    /// every object back to its authored transform.
    pub fn apply_run_mode(&mut self, was_running: bool, f6_pressed: bool) -> (r: ModeChange)
        requires
            old(self).wf(),
        ensures
            final(self).wf(),
            old(self).ids_ok() ==> final(self).ids_ok(),
            final(self).run_game == if f6_pressed && old(self).f6_released_last_frame {
                !old(self).run_game
            } else {
                old(self).run_game
            },
            r == if final(self).run_game && !was_running {
                ModeChange::Started
            } else if !final(self).run_game && was_running {
                ModeChange::Stopped
            } else {
                ModeChange::Unchanged
            },
            r == ModeChange::Stopped ==> final(self).objects() == stopped(old(self).objects()),
            r != ModeChange::Stopped ==> final(self).world_objects == old(self).world_objects,
            final(self).object_being_placed == old(self).object_being_placed,
            final(self).selection == old(self).selection,
            final(self).f6_released_last_frame == old(self).f6_released_last_frame,
    {
        if f6_pressed && self.f6_released_last_frame {
            self.run_game = !self.run_game;
        }
        if self.run_game && !was_running {
            ModeChange::Started
        } else if !self.run_game && was_running {
            self.reset_objects();
            ModeChange::Stopped
        } else {
            ModeChange::Unchanged
        }
    }

    /// Puts every object back to its authored transform.
    fn reset_objects(&mut self)
        requires
            old(self).wf(),
        ensures
            final(self).wf(),
            old(self).ids_ok() ==> final(self).ids_ok(),
            final(self).objects() == old(self).objects().map_values(|o: ObjectView| at_rest(o)),
            final(self).object_being_placed == old(self).object_being_placed,
            final(self).selection == old(self).selection,
            final(self).run_game == old(self).run_game,
            final(self).f6_released_last_frame == old(self).f6_released_last_frame,
            final(self).data == old(self).data,
            final(self).instanced_buffers == old(self).instanced_buffers,
    {
        let ghost start = self.objects();
        let mut i: usize = 0;
        while i < self.world_objects.len()
            invariant
                i <= self.world_objects@.len(),
                self.world_objects@.len() == start.len(),
                forall|j: int| 0 <= j < i ==> (#[trigger] self.objects()[j]) == at_rest(start[j]),
                forall|j: int| i <= j < self.world_objects@.len() ==> (#[trigger] self.objects()[j]) == start[j],
                start == old(self).objects(),
                self.object_being_placed == old(self).object_being_placed,
                self.selection == old(self).selection,
                self.run_game == old(self).run_game,
                self.f6_released_last_frame == old(self).f6_released_last_frame,
                self.data == old(self).data,
                self.instanced_buffers == old(self).instanced_buffers,
            decreases self.world_objects@.len() - i,
        {
            assert(self.objects()[i as int] == start[i as int]);
            let ghost vbefore = self.world_objects@;
            let ghost obefore = self.objects();
            assert(obefore[i as int] == vbefore[i as int]@);
            let mut o = self.world_objects.remove(i);
            o.reset();
            self.world_objects.insert(i, o);
            proof {
                assert(self.world_objects@ =~= vbefore.update(i as int, o));
                assert(self.objects() =~= obefore.update(i as int, o@));
                assert(o@ == at_rest(start[i as int]));
                assert forall|j: int| 0 <= j < i + 1 implies (#[trigger] self.objects()[j]) == at_rest(start[j]) by {
                    if j < i {
                        assert(self.objects()[j] == obefore[j]);
                    }
                }
                assert forall|j: int| i + 1 <= j < self.world_objects@.len() implies (#[trigger] self.objects()[j]) == start[j] by {
                    assert(self.objects()[j] == obefore[j]);
                }
            }
            i += 1;
        }
        assert(self.objects() =~= start.map_values(|o: ObjectView| at_rest(o)));
        proof {
            let now = self.objects();
            assert forall|a: int, b: int|
                0 <= a < now.len() && 0 <= b < now.len() && a != b && ids_distinct(start) implies now[a].id
                != now[b].id by {
                assert(now[a].id == start[a].id);
                assert(now[b].id == start[b].id);
            }
            if let Some(c) = self.candidate() {
                assert forall|a: int| 0 <= a < now.len() && ids_below(start, c.id) implies (
                #[trigger] now[a]).id < c.id by {
                    assert(now[a].id == start[a].id);
                }
            }
        }
    }

    /// Keeps the selection in step: placing with no model loaded stops;
    /// placing with no object yet starts one; otherwise no object is being
    /// placed.
    pub fn update_selection(&mut self)
        requires
            old(self).wf(),
        ensures
            final(self).wf(),
            old(self).ids_ok() ==> final(self).ids_ok(),
            final(self).placement() == match old(self).selection {
                Selection::Placing => if old(self).data.sizes().len() == 0 {
                    PlacementView { selection: Selection::Idle, ..old(self).placement() }
                } else if old(self).candidate().is_none() {
                    old(self).started_placing()
                } else {
                    old(self).placement()
                },
                _ => PlacementView { candidate: None, ..old(self).placement() },
            },
            final(self).world_objects == old(self).world_objects,
            final(self).run_game == old(self).run_game,
    {
        match self.selection {
            Selection::Placing => {
                if self.data.model_sizes.len() == 0 {
                    self.selection = Selection::Idle;
                } else if self.object_being_placed.is_none() {
                    self.change_selected_object();
                }
            },
            _ => {
                self.object_being_placed = None;
            },
        }
    }

    /// The first frame of a run hides the axes; says whether this was it.
    pub fn begin_game_frame(&mut self) -> (r: bool)
        ensures
            r == old(self).game_options.first_game_loop,
            !final(self).game_options.first_game_loop,
            r ==> !final(self).options.show_axis,
            !r ==> final(self).options == old(self).options,
            final(self).world_objects == old(self).world_objects,
            final(self).object_being_placed == old(self).object_being_placed,
            final(self).selection == old(self).selection,
            final(self).run_game == old(self).run_game,
            final(self).data == old(self).data,
            final(self).instanced_buffers == old(self).instanced_buffers,
    {
        if self.game_options.first_game_loop {
            self.options.show_axis = false;
            self.game_options.first_game_loop = false;
            true
        } else {
            false
        }
    }

    /// An editing frame: after a run the axes show again, and every known
    /// model that has loaded is marked so.
    pub fn begin_edit_frame(&mut self)
        ensures
            final(self).game_options.first_game_loop,
            !old(self).game_options.first_game_loop ==> final(self).options.show_axis,
            known_view(final(self).known_models@) == mark_loaded(
                known_view(old(self).known_models@),
                old(self).data.sizes().map_values(|p: (Seq<char>, Vec3View)| p.0),
            ),
            final(self).world_objects == old(self).world_objects,
            final(self).object_being_placed == old(self).object_being_placed,
            final(self).selection == old(self).selection,
            final(self).run_game == old(self).run_game,
            final(self).data == old(self).data,
            final(self).instanced_buffers == old(self).instanced_buffers,
    {
        if !self.game_options.first_game_loop {
            self.options.show_axis = true;
            self.game_options.first_game_loop = true;
        }
        let ghost loaded = self.data.sizes().map_values(|p: (Seq<char>, Vec3View)| p.0);
        let ghost start = known_view(self.known_models@);
        let mut j: usize = 0;
        while j < self.known_models.len()
            invariant
                j <= self.known_models@.len(),
                self.known_models@.len() == start.len(),
                loaded == self.data.sizes().map_values(|p: (Seq<char>, Vec3View)| p.0),
                forall|k: int| 0 <= k < j ==> (#[trigger] known_view(self.known_models@)[k]) == mark_one(start[k], loaded),
                forall|k: int| j <= k < self.known_models@.len() ==> (#[trigger] known_view(self.known_models@)[k]) == start[k],
                self.game_options.first_game_loop,
                !old(self).game_options.first_game_loop ==> self.options.show_axis,
                self.world_objects == old(self).world_objects,
                self.object_being_placed == old(self).object_being_placed,
                self.selection == old(self).selection,
                self.run_game == old(self).run_game,
                self.data == old(self).data,
                self.instanced_buffers == old(self).instanced_buffers,
            decreases self.known_models@.len() - j,
        {
            assert(known_view(self.known_models@)[j as int].0 == self.known_models@[j as int].0@);
            let mut i: usize = 0;
            let mut found = false;
            while i < self.data.model_sizes.len()
                invariant
                    i <= self.data.model_sizes@.len(),
                    j < self.known_models@.len(),
                    loaded == self.data.sizes().map_values(|p: (Seq<char>, Vec3View)| p.0),
                    found == exists|k: int| 0 <= k < i && loaded[k] == self.known_models@[j as int].0@,
                decreases self.data.model_sizes@.len() - i,
            {
                assert(loaded[i as int] == self.data.model_sizes@[i as int].0@);
                if self.data.model_sizes[i].0 == self.known_models[j].0 {
                    found = true;
                }
                i += 1;
            }
            proof {
                if found {
                    let k = choose|k: int| 0 <= k < i && loaded[k] == self.known_models@[j as int].0@;
                    assert(loaded[k] == start[j as int].0);
                    assert(loaded.contains(start[j as int].0));
                } else {
                    assert(!loaded.contains(start[j as int].0)) by {
                        if loaded.contains(start[j as int].0) {
                            let k = choose|k: int| 0 <= k < loaded.len() && loaded[k] == start[j as int].0;
                            assert(loaded[k] == self.known_models@[j as int].0@);
                        }
                    }
                }
            }
            let ghost kbefore = known_view(self.known_models@);
            assert(kbefore[j as int] == start[j as int]);
            if found {
                let ghost before = self.known_models@;
                let (name, path, _) = self.known_models.remove(j);
                self.known_models.insert(j, (name, path, true));
                proof {
                    assert(self.known_models@ =~= before.update(j as int, (name, path, true)));
                    assert(known_view(self.known_models@) =~= kbefore.update(
                        j as int,
                        mark_one(start[j as int], loaded),
                    ));
                }
            }
            proof {
                assert forall|k: int| 0 <= k < j + 1 implies (#[trigger] known_view(self.known_models@)[k]) == mark_one(start[k], loaded) by {
                    if k < j {
                        assert(known_view(self.known_models@)[k] == kbefore[k]);
                    }
                }
                assert forall|k: int| j + 1 <= k < self.known_models@.len() implies (#[trigger] known_view(self.known_models@)[k]) == start[k] by {
                    assert(known_view(self.known_models@)[k] == kbefore[k]);
                }
            }
            j += 1;
        }
        assert(known_view(self.known_models@) =~= mark_loaded(start, loaded));
    }

    /// The end of a frame: notes where the mouse is and whether the run key
    /// is up, so that holding it switches run mode once.
    pub fn end_frame(&mut self, f6_pressed: bool, ui_wants_mouse: bool)
        ensures
            final(self).f6_released_last_frame == !f6_pressed,
            final(self).mouse_over_ui == ui_wants_mouse,
            final(self).world_objects == old(self).world_objects,
            final(self).object_being_placed == old(self).object_being_placed,
            final(self).selection == old(self).selection,
            final(self).run_game == old(self).run_game,
            final(self).data == old(self).data,
            final(self).instanced_buffers == old(self).instanced_buffers,
    {
        self.mouse_over_ui = ui_wants_mouse;
        self.f6_released_last_frame = !f6_pressed;
    }

    /// Binds the script text read for object `i`; `None` where it has no file.
    pub fn load_object_script(&mut self, i: usize, source: Option<String>)
        requires
            old(self).wf(),
            i < old(self).world_objects@.len(),
        ensures
            final(self).wf(),
            old(self).ids_ok() ==> final(self).ids_ok(),
            final(self).objects() == old(self).objects().update(
                i as int,
                ObjectView {
                    script: match source {
                        Some(s) => Some(s@),
                        None => None,
                    },
                    has_script: source.is_some(),
                    ..old(self).objects()[i as int]
                },
            ),
            final(self).object_being_placed == old(self).object_being_placed,
            final(self).selection == old(self).selection,
            final(self).run_game == old(self).run_game,
    {
        let ghost before = self.objects();
        let ghost vbefore = self.world_objects@;
        let mut o = self.world_objects.remove(i);
        o.load_script(source);
        self.world_objects.insert(i, o);
        proof {
            assert(before[i as int] == vbefore[i as int]@);
            assert(self.world_objects@ =~= vbefore.update(i as int, o));
            assert(self.objects() =~= before.update(i as int, o@));
            self.lemma_same_ids(before);
        }
    }

    proof fn lemma_same_ids(&self, before: Seq<ObjectView>)
        requires
            self.objects().len() == before.len(),
            forall|k: int| 0 <= k < before.len() ==> (#[trigger] self.objects()[k]).id == before[k].id,
        ensures
            ids_distinct(before) ==> ids_distinct(self.objects()),
            forall|id: u32| ids_below(before, id) ==> ids_below(self.objects(), id),
    {
        let now = self.objects();
        assert forall|a: int, b: int|
            0 <= a < now.len() && 0 <= b < now.len() && a != b && ids_distinct(before) implies now[a].id
            != now[b].id by {
            assert(now[a].id == before[a].id);
            assert(now[b].id == before[b].id);
        }
        assert forall|id: u32| ids_below(before, id) implies ids_below(now, id) by {
            assert forall|a: int| 0 <= a < now.len() implies (#[trigger] now[a]).id < id by {
                assert(now[a].id == before[a].id);
            }
        }
    }

    /// What running object `i`'s script takes: its text, the name of its
    /// update function, and the object's state; none where no script is bound.
    pub fn script_call(&self, i: usize) -> (r: Option<(String, String, ScriptState)>)
        requires
            i < self.world_objects@.len(),
        ensures
            r.is_some() == self.objects()[i as int].script.is_some(),
            r matches Some(c) ==> {
                let o = self.objects()[i as int];
                &&& o.script == Some(c.0@)
                &&& c.1@ == crate::world_object::update_function_of(o.name)
                &&& c.2.transform@ == o.transform
                &&& c.2.velocity@ == o.velocity
                &&& c.2.acceleration@ == o.acceleration
            },
    {
        let o = &self.world_objects[i];
        match o.script() {
            Some(source) => Some((source, o.update_function(), o.script_state())),
            None => None,
        }
    }

    /// Takes what object `i`'s script wrote back. Its authored transform stays.
    pub fn apply_script_result(&mut self, i: usize, state: ScriptState)
        requires
            old(self).wf(),
            i < old(self).world_objects@.len(),
        ensures
            final(self).wf(),
            old(self).ids_ok() ==> final(self).ids_ok(),
            final(self).objects() == script_step(
                old(self).objects(),
                ScriptStep {
                    index: i as int,
                    transform: state.transform@,
                    velocity: state.velocity@,
                    acceleration: state.acceleration@,
                },
            ),
            final(self).object_being_placed == old(self).object_being_placed,
            final(self).selection == old(self).selection,
            final(self).run_game == old(self).run_game,
            final(self).f6_released_last_frame == old(self).f6_released_last_frame,
            final(self).data == old(self).data,
            final(self).instanced_buffers == old(self).instanced_buffers,
    {
        let ghost before = self.objects();
        let ghost vbefore = self.world_objects@;
        let mut o = self.world_objects.remove(i);
        o.update_game(state);
        self.world_objects.insert(i, o);
        proof {
            assert(before[i as int] == vbefore[i as int]@);
            assert(self.world_objects@ =~= vbefore.update(i as int, o));
            assert(self.objects() =~= before.update(i as int, o@));
            self.lemma_same_ids(before);
        }
    }

    /// Where the orbiting camera looks: the shown position of its target
    /// object, where that index is in the scene.
    pub fn camera_target_position(&self) -> (r: Option<Vec3>)
        ensures
            ({
                let t = self.game_options.camera_target as int;
                if 0 <= t < self.objects().len() {
                    r matches Some(p) && p@ == self.objects()[t].transform.0
                } else {
                    r.is_none()
                }
            }),
    {
        let t = self.game_options.camera_target;
        if t >= 0 && (t as usize) < self.world_objects.len() {
            Some(self.world_objects[t as usize].position())
        } else {
            None
        }
    }

    /// Starts a new empty scene called `new_scene`.
    pub fn reset(&mut self)
        requires
            old(self).wf(),
        ensures
            final(self).wf(),
            final(self).ids_ok(),
            final(self).objects() == Seq::<ObjectView>::empty(),
            final(self).placing_height@ == seq!['0'],
            final(self).candidate().is_none(),
            !final(self).mouse_over_ui,
            final(self).selected_model == 0,
            final(self).selection == Selection::Idle,
            !final(self).run_game,
            final(self).f6_released_last_frame,
            final(self).scene_name@ == "new_scene"@,
            !final(self).windows.load_window,
            final(self).instanced_buffers == old(self).instanced_buffers,
            final(self).game_options == old(self).game_options,
            final(self).options == old(self).options,
            final(self).known_models == old(self).known_models,
            final(self).data == old(self).data,
    {
        self.world_objects.clear();
        self.placing_height = Scalar::zero();
        self.object_being_placed = None;
        self.mouse_over_ui = false;
        self.selected_model = 0;
        self.selection = Selection::Idle;
        self.run_game = false;
        self.f6_released_last_frame = true;
        self.scene_name = String::from_str("new_scene");
        self.windows.load_window = false;
        assert(self.objects() =~= Seq::<ObjectView>::empty());
    }

    /// Saves the scene under its name: the script copies that bring each
    /// object's script into the scene's folder, and the scene's files.
    pub fn save(&mut self) -> (r: (Vec<ScriptCopy>, SceneFiles))
        ensures
            copies_view(r.0@) == copies_of(old(self).objects(), old(self).scene_name@),
            r.1.directory@ == "./Scenes/"@ + old(self).scene_name@,
            r.1.scene_bytes@ == crate::codec::encoded(crate::codec::scene_rows(old(self).objects())),
            r.1.camera_bytes@ == crate::codec::encoded(crate::codec::camera_rows(old(self).game_options)),
            final(self).windows.saved,
            final(self).world_objects == old(self).world_objects,
            final(self).object_being_placed == old(self).object_being_placed,
            final(self).selection == old(self).selection,
            final(self).run_game == old(self).run_game,
            final(self).data == old(self).data,
            final(self).instanced_buffers == old(self).instanced_buffers,
            final(self).scene_name == old(self).scene_name,
    {
        let ghost objs = self.objects();
        let mut copies: Vec<ScriptCopy> = Vec::new();
        let mut i: usize = 0;
        while i < self.world_objects.len()
            invariant
                i <= self.world_objects@.len(),
                objs == self.objects(),
                copies_view(copies@) == copies_of(objs.subrange(0, i as int), self.scene_name@),
            decreases self.world_objects@.len() - i,
        {
            let ghost next = objs.subrange(0, i + 1);
            assert(next.drop_last() =~= objs.subrange(0, i as int));
            assert(next.last() == self.world_objects@[i as int]@);
            match self.world_objects[i].save_script(self.scene_name.as_str()) {
                Some(c) => {
                    let ghost before = copies@;
                    copies.push(c);
                    assert(copies_view(copies@) =~= copies_view(before).push(copy_view(c)));
                },
                None => {},
            }
            i += 1;
        }
        assert(objs.subrange(0, objs.len() as int) =~= objs);
        let files = export(self.scene_name.as_str(), &self.world_objects, &self.game_options);
        self.windows.saved = true;
        (copies, files)
    }

    /// Replaces the scene with the one saved as `scene_name`, read from the
    /// contents of its two files (or the error met in reading each): its
    /// objects, its camera, and the models to load for it.
    pub fn load_scene(
        &mut self,
        scene_name: String,
        scene_file: Result<Vec<u8>, String>,
        camera_file: Result<Vec<u8>, String>,
    )
        requires
            old(self).wf(),
        ensures
            final(self).wf(),
            final(self).objects() == imported_objects(scene_name@, file_records(scene_file)),
            final(self).data.to_load() == used_models_of(object_records_of(file_records(scene_file))),
            options_from(final(self).game_options, camera_record_of(file_records(camera_file))),
            final(self).scene_name@ == scene_name@,
            !final(self).windows.load_window,
            final(self).selection == match old(self).selection {
                Selection::Editing(_) => Selection::Idle,
                s => s,
            },
            final(self).object_being_placed == old(self).object_being_placed,
            final(self).run_game == old(self).run_game,
    {
        let (used, objects, options) = import(scene_name.as_str(), scene_file, camera_file, &mut self.logs);
        self.world_objects = objects;
        self.data.set_models_to_load(used);
        self.game_options = options;
        self.windows.load_window = false;
        self.scene_name = scene_name;
        match self.selection {
            Selection::Editing(_) => {
                self.selection = Selection::Idle;
            },
            _ => {},
        }
    }

    /// Empties the scene and names it `empty_scene`; gives the folder of the
    /// scene it was, to remove with its scripts.
    pub fn delete_scene(&mut self) -> (r: String)
        requires
            old(self).wf(),
        ensures
            r@ == "./Scenes/"@ + old(self).scene_name@,
            final(self).wf(),
            final(self).ids_ok(),
            final(self).objects() == Seq::<ObjectView>::empty(),
            final(self).placing_height@ == seq!['0'],
            final(self).candidate().is_none(),
            final(self).selection == Selection::Idle,
            !final(self).run_game,
            final(self).f6_released_last_frame,
            final(self).scene_name@ == "empty_scene"@,
    {
        let mut directory = String::from_str("./Scenes/");
        directory.append(self.scene_name.as_str());
        self.world_objects.clear();
        self.placing_height = Scalar::zero();
        self.object_being_placed = None;
        self.mouse_over_ui = false;
        self.selected_model = 0;
        self.selection = Selection::Idle;
        self.run_game = false;
        self.f6_released_last_frame = true;
        self.scene_name = String::from_str("empty_scene");
        assert(self.objects() =~= Seq::<ObjectView>::empty());
        directory
    }

    /// Takes object `i` out of the scene and drops the selection; gives its
    /// script file to remove, where it has one.
    pub fn delete_object(&mut self, i: usize) -> (r: Option<String>)
        requires
            old(self).wf(),
            i < old(self).world_objects@.len(),
        ensures
            final(self).wf(),
            old(self).ids_ok() ==> final(self).ids_ok(),
            final(self).objects() == old(self).objects().remove(i as int),
            r.is_some() == old(self).objects()[i as int].has_script,
            r matches Some(p) ==> p@ == script_path_of(
                old(self).objects()[i as int].directory,
                old(self).objects()[i as int].name,
            ),
            final(self).selection == Selection::Idle,
            final(self).object_being_placed == old(self).object_being_placed,
            final(self).run_game == old(self).run_game,
    {
        let ghost before = self.objects();
        let ghost vbefore = self.world_objects@;
        let mut o = self.world_objects.remove(i);
        assert(before[i as int] == vbefore[i as int]@);
        let path = o.delete_script();
        self.selection = Selection::Idle;
        proof {
            assert(self.world_objects@ =~= vbefore.remove(i as int));
            let now = self.objects();
            assert(now =~= before.remove(i as int));
            assert forall|a: int, b: int|
                0 <= a < now.len() && 0 <= b < now.len() && a != b && ids_distinct(before) implies now[a].id
                != now[b].id by {
                let ba = if a < i { a } else { a + 1 };
                let bb = if b < i { b } else { b + 1 };
                assert(now[a] == before[ba]);
                assert(now[b] == before[bb]);
            }
            if let Some(c) = self.candidate() {
                assert forall|a: int| 0 <= a < now.len() && ids_below(before, c.id) implies (
                #[trigger] now[a]).id < c.id by {
                    let ba = if a < i { a } else { a + 1 };
                    assert(now[a] == before[ba]);
                }
            }
        }
        path
    }

    /// Asks for an instanced buffer for `reference`, given at the next frame.
    pub fn request_instanced_buffer(&mut self, reference: String)
        ensures
            final(self).instanced_buffers_added@ == old(self).instanced_buffers_added@.push(reference),
            final(self).world_objects == old(self).world_objects,
            final(self).object_being_placed == old(self).object_being_placed,
            final(self).selection == old(self).selection,
            final(self).instanced_buffers == old(self).instanced_buffers,
            final(self).data == old(self).data,
    {
        self.instanced_buffers_added.push(reference);
    }

    /// Drops the instanced buffer of `reference`: no object of that model,
    /// in the scene or being placed, renders instanced afterwards.
    pub fn remove_instanced_buffer(&mut self, reference: &String)
        requires
            old(self).wf(),
        ensures
            final(self).wf(),
            old(self).ids_ok() ==> final(self).ids_ok(),
            final(self).instanced_buffers@ == old(self).instanced_buffers@.filter(
                crate::registry::other_than(reference@),
            ),
            !final(self).instanced_buffers@.contains(reference@),
            final(self).objects().len() == old(self).objects().len(),
            forall|i: int|
                0 <= i < final(self).objects().len() ==> (#[trigger] final(self).objects()[i]) == (
                ObjectView {
                    instanced: old(self).objects()[i].instanced && old(self).objects()[i].model
                        != reference@,
                    ..old(self).objects()[i]
                }),
            forall|i: int|
                0 <= i < final(self).objects().len() && (#[trigger] final(self).objects()[i]).model
                    == reference@ ==> !final(self).objects()[i].instanced,
            final(self).candidate() matches Some(c) ==> (c.model == reference@ ==> !c.instanced),
            final(self).candidate() == match old(self).candidate() {
                Some(c) => Some(ObjectView {
                    instanced: c.instanced && c.model != reference@,
                    ..c
                }),
                None => None,
            },
            final(self).selection == old(self).selection,
            final(self).run_game == old(self).run_game,
    {
        let ghost before = self.objects();
        self.instanced_buffers.remove(reference, &mut self.world_objects);
        match self.object_being_placed.take() {
            Some(mut o) => {
                o.instanced_buffer_removed(reference);
                self.object_being_placed = Some(o);
            },
            None => {},
        }
        proof {
            let now = self.objects();
            assert forall|k: int| 0 <= k < now.len() implies (#[trigger] now[k]) == (ObjectView {
                instanced: before[k].instanced && before[k].model != reference@,
                ..before[k]
            }) by {
                assert(now[k] == self.world_objects@[k]@);
            }
            assert forall|k: int| 0 <= k < before.len() implies (#[trigger] now[k]).id == before[k].id by {
                assert(now[k] == self.world_objects@[k]@);
            }
            self.lemma_same_ids(before);
        }
    }

    /// Turns instanced rendering on or off for what is selected; on only
    /// where its model has an instanced buffer.
    pub fn set_selected_instanced(&mut self, on: bool)
        requires
            old(self).wf(),
        ensures
            final(self).wf(),
            old(self).ids_ok() ==> final(self).ids_ok(),
            match old(self).selection {
                Selection::Placing => {
                    &&& final(self).world_objects == old(self).world_objects
                    &&& final(self).candidate() == match old(self).candidate() {
                        Some(c) => Some(ObjectView {
                            instanced: on && old(self).instanced_buffers@.contains(c.model),
                            ..c
                        }),
                        None => None,
                    }
                },
                Selection::Editing(k) => {
                    &&& final(self).candidate() == old(self).candidate()
                    &&& final(self).objects() == old(self).objects().update(
                        k as int,
                        ObjectView {
                            instanced: on && old(self).instanced_buffers@.contains(
                                old(self).objects()[k as int].model,
                            ),
                            ..old(self).objects()[k as int]
                        },
                    )
                },
                Selection::Idle => {
                    &&& final(self).world_objects == old(self).world_objects
                    &&& final(self).candidate() == old(self).candidate()
                },
            },
            final(self).selection == old(self).selection,
            final(self).instanced_buffers == old(self).instanced_buffers,
    {
        match self.selection {
            Selection::Idle => {},
            Selection::Placing => {
                match self.object_being_placed.take() {
                    Some(mut o) => {
                        let buffers = self.instanced_buffers.names();
                        proof {
                            lemma_contains_names(buffers@, o@.model);
                        }
                        o.set_instanced(on, buffers);
                        self.object_being_placed = Some(o);
                    },
                    None => {},
                }
            },
            Selection::Editing(k) => {
                let ghost before = self.objects();
                let ghost vbefore = self.world_objects@;
                let mut o = self.world_objects.remove(k);
                let buffers = self.instanced_buffers.names();
                proof {
                    lemma_contains_names(buffers@, o@.model);
                }
                o.set_instanced(on, buffers);
                self.world_objects.insert(k, o);
                proof {
                    assert(before[k as int] == vbefore[k as int]@);
                    assert(self.world_objects@ =~= vbefore.update(k as int, o));
                    assert(self.objects() =~= before.update(k as int, o@));
                    self.lemma_same_ids(before);
                }
            },
        }
    }

    /// The loaded models that have no instanced buffer yet, in order.
    pub fn instanced_choices(&self) -> (r: Vec<String>)
        ensures
            strings_of(r@) == self.data.sizes().map_values(|p: (Seq<char>, Vec3View)| p.0).filter(
                |m: Seq<char>| !self.instanced_buffers@.contains(m),
            ),
    {
        let ghost loaded = self.data.sizes().map_values(|p: (Seq<char>, Vec3View)| p.0);
        let ghost keep = |m: Seq<char>| !self.instanced_buffers@.contains(m);
        let mut r: Vec<String> = Vec::new();
        let mut i: usize = 0;
        while i < self.data.model_sizes.len()
            invariant
                i <= self.data.model_sizes@.len(),
                loaded == self.data.sizes().map_values(|p: (Seq<char>, Vec3View)| p.0),
                keep == (|m: Seq<char>| !self.instanced_buffers@.contains(m)),
                strings_of(r@) == loaded.subrange(0, i as int).filter(keep),
            decreases self.data.model_sizes@.len() - i,
        {
            let name = &self.data.model_sizes[i].0;
            let ghost next = loaded.subrange(0, i + 1);
            assert(next.drop_last() =~= loaded.subrange(0, i as int));
            assert(next.last() == name@);
            reveal(Seq::filter);
            if !self.instanced_buffers.contains(name) {
                let ghost before = r@;
                r.push(name.clone());
                assert(strings_of(r@) =~= strings_of(before).push(name@));
            }
            i += 1;
        }
        assert(loaded.subrange(0, loaded.len() as int) =~= loaded);
        r
    }

    /// Selects nothing, placing, or object `i` of the scene; an index past the
    /// end selects nothing.
    pub fn select(&mut self, selection: Selection)
        requires
            old(self).wf(),
        ensures
            final(self).wf(),
            old(self).ids_ok() ==> final(self).ids_ok(),
            final(self).selection == match selection {
                Selection::Editing(i) => if i < old(self).world_objects@.len() {
                    selection
                } else {
                    Selection::Idle
                },
                s => s,
            },
            final(self).world_objects == old(self).world_objects,
            final(self).object_being_placed == old(self).object_being_placed,
    {
        self.selection = match selection {
            Selection::Editing(i) => if i < self.world_objects.len() {
                selection
            } else {
                Selection::Idle
            },
            s => s,
        };
    }

    /// Chooses the loaded model to place; an object being placed becomes one
    /// of the new model.
    pub fn select_model(&mut self, index: usize)
        requires
            old(self).wf(),
        ensures
            final(self).wf(),
            old(self).ids_ok() ==> final(self).ids_ok(),
            final(self).selected_model == index,
            final(self).world_objects == old(self).world_objects,
            final(self).placement() == if index != old(self).selected_model && old(self).candidate().is_some() {
                start_placing(
                    old(self).placement(),
                    old(self).data.sizes(),
                    known_view(old(self).known_models@),
                    index as int,
                    old(self).scene_name@,
                )
            } else {
                old(self).placement()
            },
    {
        if index != self.selected_model {
            self.selected_model = index;
            if self.object_being_placed.is_some() {
                self.change_selected_object();
            }
        }
    }

    pub fn set_scene_name(&mut self, name: String)
        ensures
            final(self).scene_name@ == name@,
            final(self).world_objects == old(self).world_objects,
            final(self).object_being_placed == old(self).object_being_placed,
            final(self).selection == old(self).selection,
    {
        self.scene_name = name;
    }

    /// The editor rebuilt around kept state, as after the window changed
    /// size: fresh input and log, no selection, the models found among
    /// `model_paths`.
    pub fn new_with_data(
        model_sizes: Vec<(String, Vec3)>,
        model_paths: &Vec<String>,
        object_being_placed: Option<WorldObject>,
        scene_name: String,
        placing_height: Scalar,
        world_objects: Vec<WorldObject>,
        windows: EditorWindows,
        options: EditorOptions,
        game_options: GameOptions,
        run_game: bool,
        instanced_buffers: InstancedBuffers,
    ) -> (r: EditorScreen)
        requires
            instanced_buffers.wf(),
        ensures
            r.wf(),
            r.world_objects == world_objects,
            r.object_being_placed == object_being_placed,
            r.scene_name == scene_name,
            r.placing_height == placing_height,
            r.game_options == game_options,
            r.run_game == run_game,
            r.instanced_buffers == instanced_buffers,
            r.selection == Selection::Idle,
            r.f6_released_last_frame,
            r.data.sizes() == crate::input::sizes_view(model_sizes@),
            known_view(r.known_models@) == crate::codec::known_models_of(
                model_paths@.map_values(|p: String| p@),
            ),
    {
        EditorScreen {
            data: SceneData::new(model_sizes),
            placing_height,
            object_being_placed,
            world_objects,
            mouse_over_ui: false,
            selected_model: 0,
            selection: Selection::Idle,
            known_models: get_models(model_paths),
            run_game,
            f6_released_last_frame: true,
            right_clicked_last_frame: false,
            scene_name,
            logs: Logs::new(),
            windows,
            options,
            game_options,
            instanced_buffers,
            instanced_buffers_added: Vec::new(),
        }
    }

    /// What to draw this frame, in order.
    pub fn draw(&self) -> (r: Vec<DrawCommand>)
        ensures
            r@ == draw_plan(
                self.instanced_buffers_added@.len(),
                self.world_objects@.len(),
                self.selection,
                self.object_being_placed.is_some(),
                self.options.show_axis,
                self.instanced_buffers@.len(),
            ),
    {
        let mut r: Vec<DrawCommand> = Vec::new();
        let mut i: usize = 0;
        while i < self.instanced_buffers_added.len()
            invariant
                i <= self.instanced_buffers_added@.len(),
                r@ =~= Seq::new(i as nat, |k: int| DrawCommand::AddInstancedBuffer(k as usize)),
            decreases self.instanced_buffers_added@.len() - i,
        {
            r.push(DrawCommand::AddInstancedBuffer(i));
            i += 1;
        }
        let ghost head = r@;
        r.push(DrawCommand::SetLight);
        r.push(DrawCommand::SetCamera);
        let ghost lit = r@;
        assert(lit =~= head + seq![DrawCommand::SetLight, DrawCommand::SetCamera]);
        let mut i: usize = 0;
        while i < self.world_objects.len()
            invariant
                i <= self.world_objects@.len(),
                r@ =~= lit + Seq::new(
                    i as nat,
                    |k: int| DrawCommand::Object(k as usize, self.selection == Selection::Editing(k as usize)),
                ),
            decreases self.world_objects@.len() - i,
        {
            let selected = match self.selection {
                Selection::Editing(k) => k == i,
                _ => false,
            };
            r.push(DrawCommand::Object(i, selected));
            i += 1;
        }
        let ghost drawn = r@;
        if self.object_being_placed.is_some() {
            r.push(DrawCommand::Candidate);
        }
        let ghost placed = r@;
        if self.options.show_axis {
            r.push(DrawCommand::Axis);
        }
        let ghost axes = r@;
        let n = self.instanced_buffers.len();
        let mut i: usize = 0;
        while i < n
            invariant
                i <= n,
                n == self.instanced_buffers@.len(),
                r@ =~= axes + Seq::new(i as nat, |k: int| DrawCommand::Instanced(k as usize)),
            decreases n - i,
        {
            r.push(DrawCommand::Instanced(i));
            i += 1;
        }
        r
    }

    /// A window that changed size ends this screen; the next one takes over
    /// the scene.
    pub fn check_window_resized(&mut self)
        ensures
            final(self).data.next_scene == (old(self).data.next_scene || old(self).data.window_resized),
            final(self).data.window_resized == old(self).data.window_resized,
            final(self).data.wf() == old(self).data.wf(),
            final(self).world_objects == old(self).world_objects,
            final(self).object_being_placed == old(self).object_being_placed,
            final(self).selection == old(self).selection,
            final(self).instanced_buffers == old(self).instanced_buffers,
    {
        if self.data.window_resized {
            self.data.next_scene = true;
        }
    }
}

} // verus!
