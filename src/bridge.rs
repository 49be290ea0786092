//! The globals through which an object's script reads and writes its state.
//! Before the script's update function runs, each state global is set; after,
//! each is read back, and one that cannot be read keeps its value.

use vstd::prelude::*;
use crate::geometry::{Scalar, Transform, Vec3};
use crate::world_object::ScriptState;

verus! {

/// The state globals, in order: position, rotation, size, velocity and
/// acceleration, each by axis.
pub open spec fn state_names() -> Seq<Seq<char>> {
    seq![
        "x"@, "y"@, "z"@, "rot_x"@, "rot_y"@, "rot_z"@, "size_x"@, "size_y"@, "size_z"@,
        "vel_x"@, "vel_y"@, "vel_z"@, "acc_x"@, "acc_y"@, "acc_z"@,
    ]
}

/// The values of the state globals, in the order of their names.
pub open spec fn state_values(s: ScriptState) -> Seq<Seq<char>> {
    let t = s.transform@;
    let v = s.velocity@;
    let a = s.acceleration@;
    seq![
        t.0.0, t.0.1, t.0.2, t.1.0, t.1.1, t.1.2, t.2.0, t.2.1, t.2.2, v.0, v.1, v.2, a.0, a.1,
        a.2,
    ]
}

/// The value read back for global `i`, or the one it had.
pub open spec fn picked(read: Seq<Option<Scalar>>, had: Seq<Seq<char>>, i: int) -> Seq<char> {
    match read[i] {
        Some(s) => s@,
        None => had[i],
    }
}

/// The names of the state globals, in order.
pub fn state_global_names() -> (r: Vec<String>)
    ensures
        r@.map_values(|s: String| s@) == state_names(),
{
    let names = [
        "x", "y", "z", "rot_x", "rot_y", "rot_z", "size_x", "size_y", "size_z", "vel_x", "vel_y",
        "vel_z", "acc_x", "acc_y", "acc_z",
    ];
    let mut r: Vec<String> = Vec::new();
    let mut i: usize = 0;
    while i < names.len()
        invariant
            i <= names@.len(),
            r@.map_values(|s: String| s@) == names@.subrange(0, i as int).map_values(|s: &str| s@),
        decreases names@.len() - i,
    {
        let ghost before = r@;
        r.push(String::from_str(names[i]));
        assert(r@.map_values(|s: String| s@) =~= before.map_values(|s: String| s@).push(names@[i as int]@));
        assert(names@.subrange(0, i + 1) =~= names@.subrange(0, i as int).push(names@[i as int]));
        i += 1;
    }
    assert(names@.subrange(0, names@.len() as int) =~= names@);
    assert(names@.map_values(|s: &str| s@) =~= state_names());
    r
}

fn push_vec3(values: &mut Vec<Scalar>, v: &Vec3)
    ensures
        final(values)@.map_values(|s: Scalar| s@) == old(values)@.map_values(|s: Scalar| s@).push(
            v.x@,
        ).push(v.y@).push(v.z@),
{
    let ghost before = values@;
    values.push(v.x.clone());
    values.push(v.y.clone());
    values.push(v.z.clone());
    assert(values@.map_values(|s: Scalar| s@) =~= before.map_values(|s: Scalar| s@).push(v.x@).push(
        v.y@,
    ).push(v.z@));
}

/// The values to set before the script runs, in the order of
/// `state_global_names`.
pub fn state_globals(state: &ScriptState) -> (r: Vec<Scalar>)
    ensures
        r@.map_values(|s: Scalar| s@) == state_values(*state),
{
    let mut r: Vec<Scalar> = Vec::new();
    push_vec3(&mut r, &state.transform.position);
    push_vec3(&mut r, &state.transform.rotation);
    push_vec3(&mut r, &state.transform.size);
    push_vec3(&mut r, &state.velocity);
    push_vec3(&mut r, &state.acceleration);
    assert(r@.map_values(|s: Scalar| s@) =~= state_values(*state));
    r
}

fn pick(read: &Option<Scalar>, had: &Scalar) -> (r: Scalar)
    ensures
        r@ == match read {
            Some(s) => s@,
            None => had@,
        },
{
    match read {
        Some(s) => s.clone(),
        None => had.clone(),
    }
}

fn picked_vec3(read: &Vec<Option<Scalar>>, k: usize, had: &Vec3) -> (r: Vec3)
    requires
        k + 3 <= read.len(),
    ensures
        r.x@ == match read@[k as int] {
            Some(s) => s@,
            None => had.x@,
        },
        r.y@ == match read@[k + 1] {
            Some(s) => s@,
            None => had.y@,
        },
        r.z@ == match read@[k + 2] {
            Some(s) => s@,
            None => had.z@,
        },
{
    Vec3::new(pick(&read[k], &had.x), pick(&read[k + 1], &had.y), pick(&read[k + 2], &had.z))
}

/// The state after the script: each global as read back, in the order of
/// `state_global_names`, or its value before where it could not be read.
pub fn state_from_globals(had: &ScriptState, read: &Vec<Option<Scalar>>) -> (r: ScriptState)
    requires
        read@.len() == 15,
    ensures
        state_values(r) == Seq::new(15, |i: int| picked(read@, state_values(*had), i)),
{
    let position = picked_vec3(read, 0, &had.transform.position);
    let rotation = picked_vec3(read, 3, &had.transform.rotation);
    let size = picked_vec3(read, 6, &had.transform.size);
    let velocity = picked_vec3(read, 9, &had.velocity);
    let acceleration = picked_vec3(read, 12, &had.acceleration);
    let r = ScriptState { transform: Transform::new(position, rotation, size), velocity, acceleration };
    assert(state_values(r) =~= Seq::new(15, |i: int| picked(read@, state_values(*had), i)));
    r
}

} // verus!
