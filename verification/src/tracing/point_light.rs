//! The single point light a world holds.

use crate::display::color::Color;
use crate::fixed::SCALE;
use crate::geometry::point::Point;
use vstd::prelude::*;

verus! {

/// A point light: a position and a color intensity.
#[derive(Clone, Copy, Debug, PartialEq, Eq, Structural)]
pub struct PointLight {
    pub position: Point,
    pub intensity: Color,
}

impl PointLight {
    /// Both parts are storable.
    pub open spec fn wf(self) -> bool {
        self.position.wf() && self.intensity.wf()
    }

    /// A light at `position` shining with `intensity`.
    pub fn new(position: Point, intensity: Color) -> (r: PointLight)
        requires
            position.wf(),
            intensity.wf(),
        ensures
            r == (PointLight { position, intensity }),
            r.wf(),
    {
        PointLight { position, intensity }
    }

    /// The default light: white, up and to the viewer's left.
    pub fn default_light() -> (r: PointLight)
        ensures
            r.position.x as int == -10 * SCALE && r.position.y as int == 10 * SCALE
                && r.position.z as int == -10 * SCALE,
            r.intensity == (Color { red: SCALE, green: SCALE, blue: SCALE }),
            r.wf(),
    {
        PointLight {
            position: Point { x: -10 * SCALE, y: 10 * SCALE, z: -10 * SCALE },
            intensity: Color { red: SCALE, green: SCALE, blue: SCALE },
        }
    }

    /// A light that sheds no light: black, at the origin.
    pub fn black_light() -> (r: PointLight)
        ensures
            r.position == (Point { x: 0, y: 0, z: 0 }),
            r.intensity == (Color { red: 0, green: 0, blue: 0 }),
            r.wf(),
    {
        PointLight {
            position: Point { x: 0, y: 0, z: 0 },
            intensity: Color { red: 0, green: 0, blue: 0 },
        }
    }

    /// The position of the light.
    pub fn position(&self) -> (r: Point)
        ensures
            r == self.position,
    {
        self.position
    }

    /// The intensity of the light.
    pub fn intensity(&self) -> (r: Color)
        ensures
            r == self.intensity,
    {
        self.intensity
    }
}

} // verus!
