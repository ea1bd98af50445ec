//! Surface materials.

use crate::fixed::Fixed;
use crate::fixed::SCALE;
use crate::image::Color;
use vstd::prelude::*;

verus! {

/// How a surface responds to light. The opacity of the surface is the fourth
/// channel of its color.
#[derive(Clone, Copy, Debug, PartialEq, Eq, Structural)]
pub struct Material {
    pub color: Color,
    pub diffuse: Fixed,
    pub specular: Fixed,
    pub specular_n: i32,
    pub reflectivity: Fixed,
    /// Reserved for a texture; nothing reads it.
    pub texture: Option<u32>,
}

/// Why a material was refused.
#[derive(Clone, Copy, Debug, PartialEq, Eq, Structural)]
pub enum MaterialError {
    /// The opacity lies outside the unit interval.
    Opacity,
    /// The reflectivity lies outside the unit interval.
    Reflectivity,
}

/// Whether `v` lies in the unit interval.
pub open spec fn is_unit(v: Fixed) -> bool {
    0 <= v@ <= SCALE
}

impl Material {
    /// Opacity and reflectivity lie in the unit interval.
    pub open spec fn wf(&self) -> bool {
        is_unit(self.color.a) && is_unit(self.reflectivity)
    }

    /// The material with the given parameters. It is refused when the
    /// opacity, and else when the reflectivity, lies outside the unit
    /// interval.
    pub fn new(
        color: Color,
        diffuse: Fixed,
        specular: Fixed,
        specular_n: i32,
        reflectivity: Fixed,
        texture: Option<u32>,
    ) -> (r: Result<Material, MaterialError>)
        ensures
            match r {
                Ok(m) => is_unit(color.a) && is_unit(reflectivity) && m.wf() && m == (Material {
                    color,
                    diffuse,
                    specular,
                    specular_n,
                    reflectivity,
                    texture,
                }),
                Err(MaterialError::Opacity) => !is_unit(color.a),
                Err(MaterialError::Reflectivity) => is_unit(color.a) && !is_unit(reflectivity),
            },
    {
        if color.a.raw < 0 || color.a.raw > SCALE {
            Err(MaterialError::Opacity)
        } else if reflectivity.raw < 0 || reflectivity.raw > SCALE {
            Err(MaterialError::Reflectivity)
        } else {
            Ok(Material { color, diffuse, specular, specular_n, reflectivity, texture })
        }
    }
}

} // verus!
