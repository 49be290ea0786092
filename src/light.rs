//! Lights: where they stand, their colour and how bright they are.

use vstd::prelude::*;
use crate::geometry::{one_vec3, zero_vec3, Scalar, Vec3, Vec3View};

verus! {

fn hundred() -> (r: Scalar)
    ensures
        r@ == "100"@,
        r.wf(),
{
    proof {
        reveal_strlit("100");
        assert(crate::text::all_digits("100"@));
    }
    Scalar::from_text("100").unwrap()
}

/// The scene's light.
pub struct Light {
    pub pos: Vec3,
    pub colour: Vec3,
    pub intensity: Scalar,
}

impl Light {
    /// A white light at the origin, of intensity 100.
    pub fn new() -> (r: Light)
        ensures
            r.pos@ == zero_vec3(),
            r.colour@ == one_vec3(),
            r.intensity@ == "100"@,
    {
        Light { pos: Vec3::zero(), colour: Vec3::one(), intensity: hundred() }
    }
}

impl Clone for Light {
    fn clone(&self) -> (r: Light)
        ensures
            r == *self,
    {
        Light { pos: self.pos.clone(), colour: self.colour.clone(), intensity: self.intensity.clone() }
    }
}

/// A named light that a scene can hold.
pub struct LightObject {
    reference_num: u32,
    name: String,
    position: Vec3,
    colour: Vec3,
    intensity: Scalar,
}

pub struct LightView {
    pub id: u32,
    pub name: Seq<char>,
    pub position: Vec3View,
    pub colour: Vec3View,
    pub intensity: Seq<char>,
}

impl View for LightObject {
    type V = LightView;

    closed spec fn view(&self) -> LightView {
        LightView {
            id: self.reference_num,
            name: self.name@,
            position: self.position@,
            colour: self.colour@,
            intensity: self.intensity@,
        }
    }
}

impl LightObject {
    /// A white light at the origin, of intensity 100.
    pub fn new_on(reference_num: u32, name: String) -> (r: LightObject)
        ensures
            r@ == (LightView {
                id: reference_num,
                name: name@,
                position: zero_vec3(),
                colour: one_vec3(),
                intensity: "100"@,
            }),
    {
        LightObject {
            reference_num,
            name,
            position: Vec3::zero(),
            colour: Vec3::one(),
            intensity: hundred(),
        }
    }

    pub fn id(&self) -> (r: u32)
        ensures
            r == self@.id,
    {
        self.reference_num
    }

    pub fn name(&self) -> (r: String)
        ensures
            r@ == self@.name,
    {
        self.name.clone()
    }

    pub fn position(&self) -> (r: Vec3)
        ensures
            r@ == self@.position,
    {
        self.position.clone()
    }

    pub fn colour(&self) -> (r: Vec3)
        ensures
            r@ == self@.colour,
    {
        self.colour.clone()
    }

    pub fn intensity(&self) -> (r: Scalar)
        ensures
            r@ == self@.intensity,
    {
        self.intensity.clone()
    }

    pub fn set_position(&mut self, pos: Vec3)
        ensures
            final(self)@ == (LightView { position: pos@, ..old(self)@ }),
    {
        self.position = pos;
    }

    /// Sets what the light options window edits: colour and intensity.
    pub fn set_appearance(&mut self, colour: Vec3, intensity: Scalar)
        ensures
            final(self)@ == (LightView { colour: colour@, intensity: intensity@, ..old(self)@ }),
    {
        self.colour = colour;
        self.intensity = intensity;
    }
}

} // verus!
