//! World objects: placed instances of a model, with a transform, an optional
//! script file and an instanced-render flag.

use vstd::prelude::*;
use crate::geometry::{
    identity_transform, transform_valid, vec3_valid, zero_vec3, TransformView, Transform, Vec3,
    Vec3View,
};
use crate::text::{decimal_text, u32_text};

verus! {

/// The folder that holds every scene.
pub open spec fn scenes_root() -> Seq<char> {
    "./Scenes/"@
}

/// The folder of a scene's scripts, below its scene folder.
pub open spec fn objects_folder() -> Seq<char> {
    "/Objects/"@
}

pub open spec fn script_extension() -> Seq<char> {
    ".lua"@
}

/// `./Scenes/{scene}/Objects/`
pub open spec fn script_dir_of(scene: Seq<char>) -> Seq<char> {
    scenes_root() + scene + objects_folder()
}

/// `./Scenes/{scene}/Objects/{name}.lua`
pub open spec fn script_path_of(scene: Seq<char>, name: Seq<char>) -> Seq<char> {
    script_dir_of(scene) + name + script_extension()
}

/// The name of an object's update function in its script.
pub open spec fn update_function_of(name: Seq<char>) -> Seq<char> {
    name + "update"@
}

/// The text of a new script: the globals it can read and write, then an update
/// function that moves the object by its velocity and acceleration.
pub open spec fn script_template_of(name: Seq<char>) -> Seq<char> {
    script_header() + "function "@ + update_function_of(name) + script_body()
}

pub open spec fn script_header() -> Seq<char> {
    "-- ref_num\n-- delta_time\n-- mouse_x\n-- mouse_y\n-- left_mouse\n-- right_mouse\n-- window_dim_x\n-- window_dim_y\n-- w_key\n-- a_key\n-- s_key\n-- d_key\n\n-- x\n-- y\n-- z\n-- rot_x\n-- rot_y\n-- rot_z\n-- size_x\n-- size_y\n-- size_z\n-- vel_x\n-- vel_y\n-- vel_z\n-- acc_x\n-- acc_y\n-- acc_z\n\n"@
}

pub open spec fn script_body() -> Seq<char> {
    "()\n  x = x + vel_x*delta_time;\n  y = y + vel_y*delta_time;\n  z = z + vel_z*delta_time;\n  \n  vel_x = vel_x + acc_x*delta_time*delta_time;\n  vel_y = vel_y + acc_y*delta_time*delta_time;\n  vel_z = vel_z + acc_z*delta_time*delta_time;\nend"@
}

/// What a world object is to contracts.
pub struct ObjectView {
    pub id: u32,
    pub name: Seq<char>,
    pub model: Seq<char>,
    pub location: Seq<char>,
    pub directory: Seq<char>,
    pub transform: TransformView,
    pub velocity: Vec3View,
    pub acceleration: Vec3View,
    pub default_transform: TransformView,
    pub has_script: bool,
    pub script: Option<Seq<char>>,
    pub instanced: bool,
}

/// The write that gives `o` a script, unless it has one: the folder to make,
/// the file, and its text.
pub open spec fn script_write_of(o: ObjectView) -> Option<(Seq<char>, Seq<char>, Seq<char>)> {
    if o.has_script {
        None
    } else {
        Some((script_dir_of(o.directory), script_path_of(o.directory, o.name), script_template_of(o.name)))
    }
}

/// `o` once its script file is written.
pub open spec fn with_script(o: ObjectView) -> ObjectView {
    ObjectView { has_script: true, ..o }
}

/// `o` after its script is deleted, with the file to remove; `o` itself and
/// no file where it has no script.
pub open spec fn script_deleted(o: ObjectView) -> (ObjectView, Option<Seq<char>>) {
    if o.has_script {
        (ObjectView { has_script: false, script: None, ..o }, Some(script_path_of(o.directory, o.name)))
    } else {
        (o, None)
    }
}

/// Creating a script twice leaves one file: once it is written the object has
/// a script, and a second creation plans no write and changes nothing.
/// Deleting the script of an object that has none changes nothing and removes
/// no file.
pub proof fn lemma_script_lifecycle(o: ObjectView)
    ensures
        with_script(o).has_script,
        script_write_of(with_script(o)).is_none(),
        with_script(with_script(o)) == with_script(o),
        !o.has_script ==> script_deleted(o) == (o, None::<Seq<char>>),
{
}

/// A script file to write: the folder to make first, the file, and its text.
pub struct ScriptWrite {
    pub directory: String,
    pub path: String,
    pub contents: String,
}

/// A script file to copy into another scene's folder, which is made first.
pub struct ScriptCopy {
    pub directory: String,
    pub from: String,
    pub to: String,
}

/// The state that a script reads and writes back.
pub struct ScriptState {
    pub transform: Transform,
    pub velocity: Vec3,
    pub acceleration: Vec3,
}

/// One placed instance of a model.
pub struct WorldObject {
    reference_num: u32,
    model: String,
    name: String,
    location: String,
    directory: String,
    transform: Transform,
    velocity: Vec3,
    acceleration: Vec3,
    has_script: bool,
    script: Option<String>,
    default_transform: Transform,
    instanced_buffer: bool,
}

impl View for WorldObject {
    type V = ObjectView;

    closed spec fn view(&self) -> ObjectView {
        ObjectView {
            id: self.reference_num,
            name: self.name@,
            model: self.model@,
            location: self.location@,
            directory: self.directory@,
            transform: self.transform@,
            velocity: self.velocity@,
            acceleration: self.acceleration@,
            default_transform: self.default_transform@,
            has_script: self.has_script,
            script: match self.script {
                Some(s) => Some(s@),
                None => None,
            },
            instanced: self.instanced_buffer,
        }
    }
}

fn concat3(a: &str, b: &str, c: &str) -> (r: String)
    ensures
        r@ == a@ + b@ + c@,
{
    let mut r = String::from_str(a);
    r.append(b);
    r.append(c);
    r
}

/// The folder of a scene's scripts.
pub fn script_dir(scene: &str) -> (r: String)
    ensures
        r@ == script_dir_of(scene@),
{
    concat3("./Scenes/", scene, "/Objects/")
}

/// The script file of the object called `name` in a scene.
pub fn script_path(scene: &str, name: &str) -> (r: String)
    ensures
        r@ == script_path_of(scene@, name@),
{
    let mut r = script_dir(scene);
    r.append(name);
    r.append(".lua");
    r
}

impl WorldObject {
    /// Every coordinate that the object holds is one that the scene files accept.
    pub open spec fn wf(&self) -> bool {
        transform_valid(self@.transform) && transform_valid(self@.default_transform)
            && vec3_valid(self@.velocity) && vec3_valid(self@.acceleration)
    }

    /// A new object of `model` at the origin, named after its model and id,
    /// with no script.
    pub fn new_empty(reference_num: u32, model: String, location: String, scene_name: String) -> (r:
        WorldObject)
        ensures
            r@ == (ObjectView {
                id: reference_num,
                name: model@ + decimal_text(reference_num as nat),
                model: model@,
                location: location@,
                directory: scene_name@,
                transform: identity_transform(),
                velocity: zero_vec3(),
                acceleration: zero_vec3(),
                default_transform: identity_transform(),
                has_script: false,
                script: None,
                instanced: false,
            }),
            r.wf(),
    {
        let id_text = u32_text(reference_num);
        let name = concat3(model.as_str(), id_text.as_str(), "");
        proof {
            reveal_strlit("");
            assert(name@ =~= model@ + decimal_text(reference_num as nat));
        }
        WorldObject {
            reference_num,
            model,
            name,
            location,
            directory: scene_name,
            transform: Transform::identity(),
            velocity: Vec3::zero(),
            acceleration: Vec3::zero(),
            has_script: false,
            script: None,
            default_transform: Transform::identity(),
            instanced_buffer: false,
        }
    }

    /// An object with a given name and transform; `has_script` tells whether its
    /// script file exists. Its authored transform is the one given.
    pub fn new_with_name(
        reference_num: u32,
        object_name: String,
        directory: String,
        model: String,
        location: String,
        transform: Transform,
        instanced: bool,
        has_script: bool,
    ) -> (r: WorldObject)
        ensures
            r@ == (ObjectView {
                id: reference_num,
                name: object_name@,
                model: model@,
                location: location@,
                directory: directory@,
                transform: transform@,
                velocity: zero_vec3(),
                acceleration: zero_vec3(),
                default_transform: transform@,
                has_script,
                script: None,
                instanced,
            }),
            transform.wf() ==> r.wf(),
    {
        let default_transform = transform.clone();
        WorldObject {
            reference_num,
            model,
            name: object_name,
            location,
            directory,
            transform,
            velocity: Vec3::zero(),
            acceleration: Vec3::zero(),
            has_script,
            script: None,
            default_transform,
            instanced_buffer: instanced,
        }
    }

    pub fn id(&self) -> (r: u32)
        ensures
            r == self@.id,
    {
        self.reference_num
    }

    pub fn name(&self) -> (r: String)
        ensures
            r@ == self@.name,
    {
        self.name.clone()
    }

    pub fn model(&self) -> (r: String)
        ensures
            r@ == self@.model,
    {
        self.model.clone()
    }

    pub fn location(&self) -> (r: String)
        ensures
            r@ == self@.location,
    {
        self.location.clone()
    }

    pub fn directory(&self) -> (r: String)
        ensures
            r@ == self@.directory,
    {
        self.directory.clone()
    }

    pub fn position(&self) -> (r: Vec3)
        ensures
            r@ == self@.transform.0,
    {
        self.transform.position.clone()
    }

    pub fn rotation(&self) -> (r: Vec3)
        ensures
            r@ == self@.transform.1,
    {
        self.transform.rotation.clone()
    }

    pub fn size(&self) -> (r: Vec3)
        ensures
            r@ == self@.transform.2,
    {
        self.transform.size.clone()
    }

    pub fn transform(&self) -> (r: Transform)
        ensures
            r@ == self@.transform,
    {
        self.transform.clone()
    }

    pub fn has_script(&self) -> (r: bool)
        ensures
            r == self@.has_script,
    {
        self.has_script
    }

    pub fn instanced_rendered(&self) -> (r: bool)
        ensures
            r == self@.instanced,
    {
        self.instanced_buffer
    }

    /// Moves the object, as authored in the editor: shown and kept.
    pub fn set_position(&mut self, pos: Vec3)
        ensures
            final(self)@ == (ObjectView {
                transform: (pos@, old(self)@.transform.1, old(self)@.transform.2),
                default_transform: (pos@, old(self)@.default_transform.1, old(self)@.default_transform.2),
                ..old(self)@
            }),
            old(self).wf() && pos.wf() ==> final(self).wf(),
    {
        self.transform.position = pos.clone();
        self.default_transform.position = pos;
    }

    /// Renames the object. Its script file keeps the old name.
    pub fn set_name(&mut self, name: String)
        ensures
            final(self)@ == (ObjectView { name: name@, ..old(self)@ }),
            old(self).wf() ==> final(self).wf(),
    {
        self.name = name;
    }

    /// Sets the transform as authored in the editor: shown and kept.
    pub fn set_transform(&mut self, transform: Transform)
        ensures
            final(self)@ == (ObjectView {
                transform: transform@,
                default_transform: transform@,
                ..old(self)@
            }),
            old(self).wf() && transform.wf() ==> final(self).wf(),
    {
        self.default_transform = transform.clone();
        self.transform = transform;
    }

    /// Restores the authored transform.
    pub fn reset(&mut self)
        ensures
            final(self)@ == (ObjectView { transform: old(self)@.default_transform, ..old(self)@ }),
            old(self).wf() ==> final(self).wf(),
    {
        self.transform = self.default_transform.clone();
    }

    /// Turns instanced rendering on or off; on only where the object's model
    /// has an instanced buffer among `buffers`.
    pub fn set_instanced(&mut self, on: bool, buffers: &Vec<String>)
        ensures
            final(self)@ == (ObjectView {
                instanced: on && exists|i: int| 0 <= i < buffers@.len() && buffers@[i]@ == old(self)@.model,
                ..old(self)@
            }),
            old(self).wf() ==> final(self).wf(),
    {
        let mut found = false;
        let mut i: usize = 0;
        while i < buffers.len()
            invariant
                i <= buffers@.len(),
                found == exists|j: int| 0 <= j < i && buffers@[j]@ == self.model@,
            decreases buffers@.len() - i,
        {
            if buffers[i] == self.model {
                found = true;
            }
            i += 1;
        }
        self.instanced_buffer = on && found;
    }

    /// The instanced buffer of `reference` is gone: an object of that model
    /// renders on its own again.
    pub fn instanced_buffer_removed(&mut self, reference: &String)
        ensures
            final(self)@ == (ObjectView {
                instanced: if old(self)@.model == reference@ { false } else { old(self)@.instanced },
                ..old(self)@
            }),
            old(self).wf() ==> final(self).wf(),
    {
        if self.model == *reference {
            self.instanced_buffer = false;
        }
    }

    /// The file of this object's script.
    pub fn script_file(&self) -> (r: String)
        ensures
            r@ == script_path_of(self@.directory, self@.name),
    {
        script_path(self.directory.as_str(), self.name.as_str())
    }

    /// The name of the function that the script runs each frame.
    pub fn update_function(&self) -> (r: String)
        ensures
            r@ == update_function_of(self@.name),
    {
        let mut r = self.name.clone();
        r.append("update");
        r
    }

    /// What to write to give the object a script; nothing where it has one.
    pub fn create_script(&self) -> (r: Option<ScriptWrite>)
        ensures
            script_write_of(self@) == match r {
                Some(w) => Some((w.directory@, w.path@, w.contents@)),
                None => None,
            },
    {
        if self.has_script {
            return None;
        }
        let function = self.update_function();
        let mut contents = String::from_str("-- ref_num\n-- delta_time\n-- mouse_x\n-- mouse_y\n-- left_mouse\n-- right_mouse\n-- window_dim_x\n-- window_dim_y\n-- w_key\n-- a_key\n-- s_key\n-- d_key\n\n-- x\n-- y\n-- z\n-- rot_x\n-- rot_y\n-- rot_z\n-- size_x\n-- size_y\n-- size_z\n-- vel_x\n-- vel_y\n-- vel_z\n-- acc_x\n-- acc_y\n-- acc_z\n\n");
        contents.append("function ");
        contents.append(function.as_str());
        contents.append("()\n  x = x + vel_x*delta_time;\n  y = y + vel_y*delta_time;\n  z = z + vel_z*delta_time;\n  \n  vel_x = vel_x + acc_x*delta_time*delta_time;\n  vel_y = vel_y + acc_y*delta_time*delta_time;\n  vel_z = vel_z + acc_z*delta_time*delta_time;\nend");
        Some(ScriptWrite {
            directory: script_dir(self.directory.as_str()),
            path: self.script_file(),
            contents,
        })
    }

    /// The script file was written: the object has a script.
    pub fn script_created(&mut self)
        ensures
            final(self)@ == with_script(old(self)@),
            old(self).wf() ==> final(self).wf(),
    {
        self.has_script = true;
    }

    /// Drops the object's script and gives the file to remove; nothing where it
    /// has none.
    pub fn delete_script(&mut self) -> (r: Option<String>)
        ensures
            script_deleted(old(self)@) == (final(self)@, match r {
                Some(p) => Some(p@),
                None => None,
            }),
            old(self).wf() ==> final(self).wf(),
    {
        if !self.has_script {
            return None;
        }
        let path = self.script_file();
        self.has_script = false;
        self.script = None;
        Some(path)
    }

    /// The copy that brings the script into the scene `directory`; nothing
    /// where the object has no script or the scene is its own. The source file
    /// stays.
    pub fn save_script(&self, directory: &str) -> (r: Option<ScriptCopy>)
        ensures
            r.is_some() <==> (self@.has_script && directory@ != self@.directory),
            r matches Some(c) ==> {
                &&& c.directory@ == script_dir_of(directory@)
                &&& c.from@ == script_path_of(self@.directory, self@.name)
                &&& c.to@ == script_path_of(directory@, self@.name)
            },
    {
        if !self.has_script {
            return None;
        }
        let here = String::from_str(directory);
        if here == self.directory {
            return None;
        }
        Some(ScriptCopy {
            directory: script_dir(directory),
            from: self.script_file(),
            to: script_path(directory, self.name.as_str()),
        })
    }

    /// Binds the script text read from the object's file; `None` where there is
    /// no file, which clears what was bound before and means the object has no
    /// script.
    pub fn load_script(&mut self, source: Option<String>)
        ensures
            final(self)@ == (ObjectView {
                script: match source {
                    Some(s) => Some(s@),
                    None => None,
                },
                has_script: source.is_some(),
                ..old(self)@
            }),
            old(self).wf() ==> final(self).wf(),
    {
        self.has_script = source.is_some();
        self.script = source;
    }

    /// Notes whether the object's script file exists, as found when a scene is
    /// read.
    pub fn bind_script(&mut self, exists: bool)
        ensures
            final(self)@ == (ObjectView { has_script: exists, ..old(self)@ }),
            old(self).wf() ==> final(self).wf(),
    {
        self.has_script = exists;
    }

    /// The bound script text, if any.
    pub fn script(&self) -> (r: Option<String>)
        ensures
            r matches Some(s) ==> self@.script == Some(s@),
            r.is_none() ==> self@.script.is_none(),
    {
        match &self.script {
            Some(s) => Some(s.clone()),
            None => None,
        }
    }

    /// What the script reads: the shown transform, velocity and acceleration.
    pub fn script_state(&self) -> (r: ScriptState)
        ensures
            r.transform@ == self@.transform,
            r.velocity@ == self@.velocity,
            r.acceleration@ == self@.acceleration,
    {
        ScriptState {
            transform: self.transform.clone(),
            velocity: self.velocity.clone(),
            acceleration: self.acceleration.clone(),
        }
    }

    /// Takes what the script wrote back. The authored transform stays.
    pub fn update_game(&mut self, state: ScriptState)
        ensures
            final(self)@ == (ObjectView {
                transform: state.transform@,
                velocity: state.velocity@,
                acceleration: state.acceleration@,
                ..old(self)@
            }),
            old(self).wf() && state.transform.wf() && state.velocity.wf()
                && state.acceleration.wf() ==> final(self).wf(),
    {
        self.transform = state.transform;
        self.velocity = state.velocity;
        self.acceleration = state.acceleration;
    }
}

} // verus!
