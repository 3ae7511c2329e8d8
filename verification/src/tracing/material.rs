//! Phong materials: pattern plus lighting coefficients.

use crate::display::color::{spec_add_c, spec_mul_c, spec_scale_c, Color};
use crate::fixed::{floor_units, fpow, pow_fp, LIM, SCALE};
use crate::geometry::point::{spec_sub_pp, Point};
use crate::geometry::vector::{
    spec_dot, spec_neg_v, spec_normalize, spec_reflect, Vector,
};
use crate::tracing::patterns::{spec_pattern_at, PatternKind, Solid, TransformedPattern};
use crate::tracing::point_light::PointLight;
use vstd::prelude::*;

verus! {

/// A Phong material: a pattern and the lighting coefficients.
#[derive(Clone, Debug)]
pub struct Material {
    pattern: TransformedPattern,
    ambient: i128,
    diffuse: i128,
    specular: i128,
    shininess: i128,
    reflective: i128,
    transparency: i128,
    refractive_index: i128,
}

/// Clamp a coefficient to the nonnegative storable range.
pub open spec fn clip_coeff(v: int) -> int {
    if v < 0 {
        0
    } else if v > LIM {
        LIM as int
    } else {
        v
    }
}

/// Clamp a fraction to the unit interval `[0, SCALE]`.
pub open spec fn clip_unit(v: int) -> int {
    if v < 0 {
        0
    } else if v > SCALE {
        SCALE as int
    } else {
        v
    }
}

/// Clamp a shininess exponent base to `[0, 1000]` whole units.
pub open spec fn clip_shine(v: int) -> int {
    if v < 0 {
        0
    } else if v > 1000 * SCALE {
        1000 * (SCALE as int)
    } else {
        v
    }
}

/// Clamp a refractive index to at least one.
pub open spec fn clip_index(v: int) -> int {
    if v < SCALE {
        SCALE as int
    } else if v > LIM {
        LIM as int
    } else {
        v
    }
}

fn clamp_coeff(v: i128) -> (r: i128)
    ensures
        r as int == clip_coeff(v as int),
{
    if v < 0 {
        0
    } else if v > LIM {
        LIM
    } else {
        v
    }
}

fn clamp_unit(v: i128) -> (r: i128)
    ensures
        r as int == clip_unit(v as int),
{
    if v < 0 {
        0
    } else if v > SCALE {
        SCALE
    } else {
        v
    }
}

fn clamp_shine(v: i128) -> (r: i128)
    ensures
        r as int == clip_shine(v as int),
{
    if v < 0 {
        0
    } else if v > 1000 * SCALE {
        1000 * SCALE
    } else {
        v
    }
}

fn clamp_index(v: i128) -> (r: i128)
    ensures
        r as int == clip_index(v as int),
{
    if v < SCALE {
        SCALE
    } else if v > LIM {
        LIM
    } else {
        v
    }
}

impl Material {
    /// Pattern well-formed; coefficients nonnegative; the reflective and
    /// transparency fractions within the unit interval; the shininess small
    /// enough to exponentiate; the refractive index at least one.
    pub open spec fn wf(self) -> bool {
        &&& self.spec_pattern().wf()
        &&& 0 <= self.spec_ambient() <= LIM
        &&& 0 <= self.spec_diffuse() <= LIM
        &&& 0 <= self.spec_specular() <= LIM
        &&& 0 <= self.spec_shininess() <= 1000 * SCALE
        &&& 0 <= self.spec_reflective() <= SCALE
        &&& 0 <= self.spec_transparency() <= SCALE
        &&& SCALE <= self.spec_refractive_index() <= LIM
    }

    /// The pattern.
    pub closed spec fn spec_pattern(self) -> TransformedPattern {
        self.pattern
    }

    /// The ambient coefficient.
    pub closed spec fn spec_ambient(self) -> int {
        self.ambient as int
    }

    /// The diffuse coefficient.
    pub closed spec fn spec_diffuse(self) -> int {
        self.diffuse as int
    }

    /// The specular coefficient.
    pub closed spec fn spec_specular(self) -> int {
        self.specular as int
    }

    /// The shininess exponent, in units.
    pub closed spec fn spec_shininess(self) -> int {
        self.shininess as int
    }

    /// The reflective fraction.
    pub closed spec fn spec_reflective(self) -> int {
        self.reflective as int
    }

    /// The transparency fraction.
    pub closed spec fn spec_transparency(self) -> int {
        self.transparency as int
    }

    /// The refractive index.
    pub closed spec fn spec_refractive_index(self) -> int {
        self.refractive_index as int
    }

    /// The default material: white, mostly diffuse, opaque.
    pub fn default() -> (r: Material)
        ensures
            r.spec_pattern().kind == PatternKind::Solid(
                Color { red: SCALE, green: SCALE, blue: SCALE },
            ),
            r.spec_ambient() == SCALE / 10,
            r.spec_diffuse() == 9 * SCALE / 10,
            r.spec_specular() == 9 * SCALE / 10,
            r.spec_shininess() == 200 * SCALE,
            r.spec_reflective() == 0,
            r.spec_transparency() == 0,
            r.spec_refractive_index() == SCALE,
            r.wf(),
    {
        Material {
            pattern: Solid::new(Color::white()),
            ambient: SCALE / 10,
            diffuse: 9 * SCALE / 10,
            specular: 9 * SCALE / 10,
            shininess: 200 * SCALE,
            reflective: 0,
            transparency: 0,
            refractive_index: SCALE,
        }
    }

    /// A material with every coefficient given; each is clamped into its
    /// meaningful range.
    pub fn new(
        pattern: TransformedPattern,
        ambient: i128,
        diffuse: i128,
        specular: i128,
        shininess: i128,
        reflective: i128,
        transparency: i128,
        refractive_index: i128,
    ) -> (r: Material)
        requires
            pattern.wf(),
        ensures
            r.spec_pattern() == pattern,
            r.spec_ambient() == clip_coeff(ambient as int),
            r.spec_diffuse() == clip_coeff(diffuse as int),
            r.spec_specular() == clip_coeff(specular as int),
            r.spec_shininess() == clip_shine(shininess as int),
            r.spec_reflective() == clip_unit(reflective as int),
            r.spec_transparency() == clip_unit(transparency as int),
            r.spec_refractive_index() == clip_index(refractive_index as int),
            r.wf(),
    {
        Material {
            pattern,
            ambient: clamp_coeff(ambient),
            diffuse: clamp_coeff(diffuse),
            specular: clamp_coeff(specular),
            shininess: clamp_shine(shininess),
            reflective: clamp_unit(reflective),
            transparency: clamp_unit(transparency),
            refractive_index: clamp_index(refractive_index),
        }
    }

    /// A solid-colored material with every coefficient given.
    pub fn solid_colored(
        color: Color,
        ambient: i128,
        diffuse: i128,
        specular: i128,
        shininess: i128,
        reflective: i128,
        transparency: i128,
        refractive_index: i128,
    ) -> (r: Material)
        requires
            color.wf(),
        ensures
            r.spec_pattern().kind == PatternKind::Solid(color),
            r.spec_ambient() == clip_coeff(ambient as int),
            r.spec_diffuse() == clip_coeff(diffuse as int),
            r.spec_specular() == clip_coeff(specular as int),
            r.spec_shininess() == clip_shine(shininess as int),
            r.spec_reflective() == clip_unit(reflective as int),
            r.spec_transparency() == clip_unit(transparency as int),
            r.spec_refractive_index() == clip_index(refractive_index as int),
            r.wf(),
    {
        Material::new(
            Solid::new(color),
            ambient,
            diffuse,
            specular,
            shininess,
            reflective,
            transparency,
            refractive_index,
        )
    }

    /// The same material over a solid color.
    pub fn with_color(self, color: Color) -> (r: Material)
        requires
            self.wf(),
            color.wf(),
        ensures
            r.spec_pattern().kind == PatternKind::Solid(color),
            r.spec_ambient() == self.spec_ambient(),
            r.spec_diffuse() == self.spec_diffuse(),
            r.spec_specular() == self.spec_specular(),
            r.spec_shininess() == self.spec_shininess(),
            r.spec_reflective() == self.spec_reflective(),
            r.spec_transparency() == self.spec_transparency(),
            r.spec_refractive_index() == self.spec_refractive_index(),
            r.wf(),
    {
        Material { pattern: Solid::new(color), ..self }
    }

    /// The same material with another pattern.
    pub fn with_pattern(self, pattern: TransformedPattern) -> (r: Material)
        requires
            self.wf(),
            pattern.wf(),
        ensures
            r.spec_pattern() == pattern,
            r.spec_ambient() == self.spec_ambient(),
            r.spec_diffuse() == self.spec_diffuse(),
            r.spec_specular() == self.spec_specular(),
            r.spec_shininess() == self.spec_shininess(),
            r.spec_reflective() == self.spec_reflective(),
            r.spec_transparency() == self.spec_transparency(),
            r.spec_refractive_index() == self.spec_refractive_index(),
            r.wf(),
    {
        Material { pattern, ..self }
    }

    /// The same material with another ambient coefficient.
    pub fn with_ambient(self, ambient: i128) -> (r: Material)
        requires
            self.wf(),
        ensures
            r.spec_ambient() == clip_coeff(ambient as int),
            r.spec_pattern() == self.spec_pattern(),
            r.spec_diffuse() == self.spec_diffuse(),
            r.spec_specular() == self.spec_specular(),
            r.spec_shininess() == self.spec_shininess(),
            r.spec_reflective() == self.spec_reflective(),
            r.spec_transparency() == self.spec_transparency(),
            r.spec_refractive_index() == self.spec_refractive_index(),
            r.wf(),
    {
        Material { ambient: clamp_coeff(ambient), ..self }
    }

    /// The same material with another diffuse coefficient.
    pub fn with_diffuse(self, diffuse: i128) -> (r: Material)
        requires
            self.wf(),
        ensures
            r.spec_diffuse() == clip_coeff(diffuse as int),
            r.spec_pattern() == self.spec_pattern(),
            r.spec_ambient() == self.spec_ambient(),
            r.spec_specular() == self.spec_specular(),
            r.spec_shininess() == self.spec_shininess(),
            r.spec_reflective() == self.spec_reflective(),
            r.spec_transparency() == self.spec_transparency(),
            r.spec_refractive_index() == self.spec_refractive_index(),
            r.wf(),
    {
        Material { diffuse: clamp_coeff(diffuse), ..self }
    }

    /// The same material with another specular coefficient.
    pub fn with_specular(self, specular: i128) -> (r: Material)
        requires
            self.wf(),
        ensures
            r.spec_specular() == clip_coeff(specular as int),
            r.spec_pattern() == self.spec_pattern(),
            r.spec_ambient() == self.spec_ambient(),
            r.spec_diffuse() == self.spec_diffuse(),
            r.spec_shininess() == self.spec_shininess(),
            r.spec_reflective() == self.spec_reflective(),
            r.spec_transparency() == self.spec_transparency(),
            r.spec_refractive_index() == self.spec_refractive_index(),
            r.wf(),
    {
        Material { specular: clamp_coeff(specular), ..self }
    }

    /// The same material with another shininess.
    pub fn with_shininess(self, shininess: i128) -> (r: Material)
        requires
            self.wf(),
        ensures
            r.spec_shininess() == clip_shine(shininess as int),
            r.spec_pattern() == self.spec_pattern(),
            r.spec_ambient() == self.spec_ambient(),
            r.spec_diffuse() == self.spec_diffuse(),
            r.spec_specular() == self.spec_specular(),
            r.spec_reflective() == self.spec_reflective(),
            r.spec_transparency() == self.spec_transparency(),
            r.spec_refractive_index() == self.spec_refractive_index(),
            r.wf(),
    {
        Material { shininess: clamp_shine(shininess), ..self }
    }

    /// The same material with another reflective fraction.
    pub fn with_reflective(self, reflective: i128) -> (r: Material)
        requires
            self.wf(),
        ensures
            r.spec_reflective() == clip_unit(reflective as int),
            r.spec_pattern() == self.spec_pattern(),
            r.spec_ambient() == self.spec_ambient(),
            r.spec_diffuse() == self.spec_diffuse(),
            r.spec_specular() == self.spec_specular(),
            r.spec_shininess() == self.spec_shininess(),
            r.spec_transparency() == self.spec_transparency(),
            r.spec_refractive_index() == self.spec_refractive_index(),
            r.wf(),
    {
        Material { reflective: clamp_unit(reflective), ..self }
    }

    /// The same material with another transparency fraction.
    pub fn with_transparency(self, transparency: i128) -> (r: Material)
        requires
            self.wf(),
        ensures
            r.spec_transparency() == clip_unit(transparency as int),
            r.spec_pattern() == self.spec_pattern(),
            r.spec_ambient() == self.spec_ambient(),
            r.spec_diffuse() == self.spec_diffuse(),
            r.spec_specular() == self.spec_specular(),
            r.spec_shininess() == self.spec_shininess(),
            r.spec_reflective() == self.spec_reflective(),
            r.spec_refractive_index() == self.spec_refractive_index(),
            r.wf(),
    {
        Material { transparency: clamp_unit(transparency), ..self }
    }

    /// The same material with another refractive index.
    pub fn with_refractive_index(self, refractive_index: i128) -> (r: Material)
        requires
            self.wf(),
        ensures
            r.spec_refractive_index() == clip_index(refractive_index as int),
            r.spec_pattern() == self.spec_pattern(),
            r.spec_ambient() == self.spec_ambient(),
            r.spec_diffuse() == self.spec_diffuse(),
            r.spec_specular() == self.spec_specular(),
            r.spec_shininess() == self.spec_shininess(),
            r.spec_reflective() == self.spec_reflective(),
            r.spec_transparency() == self.spec_transparency(),
            r.wf(),
    {
        Material { refractive_index: clamp_index(refractive_index), ..self }
    }

    /// The reflective fraction.
    pub fn reflective(&self) -> (r: i128)
        ensures
            r as int == self.spec_reflective(),
    {
        self.reflective
    }

    /// The transparency fraction.
    pub fn transparency(&self) -> (r: i128)
        ensures
            r as int == self.spec_transparency(),
    {
        self.transparency
    }

    /// The refractive index.
    pub fn refractive_index(&self) -> (r: i128)
        ensures
            r as int == self.spec_refractive_index(),
    {
        self.refractive_index
    }

    /// Phong shading at a point already mapped into the shape's space:
    /// ambient plus, out of shadow, diffuse and specular terms.
    pub fn lighting(
        &self,
        light: &PointLight,
        position: Point,
        eye_vector: Vector,
        normal: Vector,
        in_shadow: bool,
    ) -> (r: Color)
        requires
            self.wf(),
            light.wf(),
            position.wf(),
            eye_vector.wf(),
            normal.wf(),
        ensures
            r == spec_lighting(*self, *light, position, eye_vector, normal, in_shadow),
            r.wf(),
    {
        let effective_color = self.pattern.pattern_at(position).times(light.intensity());
        let ambient = effective_color.scale(self.ambient);
        let diffuse = if in_shadow {
            Color::black()
        } else {
            self.diffuse_contribution(light, position, normal, effective_color)
        };
        let specular = if in_shadow {
            Color::black()
        } else {
            self.specular_contribution(light, position, eye_vector, normal)
        };
        ambient.plus(diffuse).plus(specular)
    }

    /// The diffuse term: the effective color scaled by the diffuse
    /// coefficient and the light-normal cosine, black when the light is
    /// behind the surface.
    fn diffuse_contribution(
        &self,
        light: &PointLight,
        position: Point,
        normal: Vector,
        effective_color: Color,
    ) -> (r: Color)
        requires
            self.wf(),
            light.wf(),
            position.wf(),
            normal.wf(),
            effective_color.wf(),
        ensures
            r == spec_diffuse_contribution(*self, *light, position, normal, effective_color),
            r.wf(),
    {
        let light_direction = light.position().minus_point(position).normalize();
        let light_dot_normal = light_direction.dot(normal);
        if light_dot_normal < 0 {
            Color::black()
        } else {
            effective_color.scale(self.diffuse).scale(light_dot_normal)
        }
    }

    /// The specular term: the light intensity scaled by the specular
    /// coefficient and the highlight factor, black when the reflected beam
    /// misses the eye.
    fn specular_contribution(
        &self,
        light: &PointLight,
        position: Point,
        eye_vector: Vector,
        normal: Vector,
    ) -> (r: Color)
        requires
            self.wf(),
            light.wf(),
            position.wf(),
            eye_vector.wf(),
            normal.wf(),
        ensures
            r == spec_specular_contribution(*self, *light, position, eye_vector, normal),
            r.wf(),
    {
        let light_direction = light.position().minus_point(position).normalize();
        let light_dot_normal = light_direction.dot(normal);
        if light_dot_normal < 0 {
            Color::black()
        } else {
            let reflect_vector = light_direction.negate().reflect(normal);
            let reflect_dot_eye = reflect_vector.dot(eye_vector);
            if reflect_dot_eye < 0 {
                Color::black()
            } else {
                let base: i128 = if reflect_dot_eye > SCALE {
                    SCALE
                } else {
                    reflect_dot_eye
                };
                let exponent: u32 = shine_exponent(self.shininess);
                let factor = fpow(base, exponent);
                light.intensity().scale(self.specular).scale(factor)
            }
        }
    }
}

/// The shininess exponent as a whole number.
fn shine_exponent(shininess: i128) -> (r: u32)
    requires
        0 <= shininess <= 1000 * SCALE,
    ensures
        r as int == floor_units(shininess as int),
{
    let q: u128 = (shininess as u128) / (SCALE as u128);
    proof {
        vstd::arithmetic::div_mod::lemma_div_is_ordered(shininess as int, 1000 * SCALE,
            SCALE as int);
    }
    q as u32
}

/// The diffuse term of the Phong model.
pub open spec fn spec_diffuse_contribution(
    m: Material,
    light: PointLight,
    position: Point,
    normal: Vector,
    effective_color: Color,
) -> Color {
    let light_direction = spec_normalize(spec_sub_pp(light.position, position));
    let ldn = spec_dot(light_direction, normal);
    if ldn < 0 {
        Color { red: 0, green: 0, blue: 0 }
    } else {
        spec_scale_c(spec_scale_c(effective_color, m.spec_diffuse()), ldn)
    }
}

/// The specular term of the Phong model; the highlight base is clamped to
/// one before exponentiation.
pub open spec fn spec_specular_contribution(
    m: Material,
    light: PointLight,
    position: Point,
    eye_vector: Vector,
    normal: Vector,
) -> Color {
    let light_direction = spec_normalize(spec_sub_pp(light.position, position));
    let ldn = spec_dot(light_direction, normal);
    if ldn < 0 {
        Color { red: 0, green: 0, blue: 0 }
    } else {
        let reflect_vector = spec_reflect(spec_neg_v(light_direction), normal);
        let rde = spec_dot(reflect_vector, eye_vector);
        if rde < 0 {
            Color { red: 0, green: 0, blue: 0 }
        } else {
            let base = if rde > SCALE {
                SCALE as int
            } else {
                rde
            };
            let factor = pow_fp(base, floor_units(m.spec_shininess()) as nat);
            spec_scale_c(spec_scale_c(light.intensity, m.spec_specular()), factor)
        }
    }
}

/// The full Phong model: ambient always, diffuse and specular out of shadow.
pub open spec fn spec_lighting(
    m: Material,
    light: PointLight,
    position: Point,
    eye_vector: Vector,
    normal: Vector,
    in_shadow: bool,
) -> Color {
    let effective_color = spec_mul_c(spec_pattern_at(m.spec_pattern(), position), light.intensity);
    let ambient = spec_scale_c(effective_color, m.spec_ambient());
    let diffuse = if in_shadow {
        Color { red: 0, green: 0, blue: 0 }
    } else {
        spec_diffuse_contribution(m, light, position, normal, effective_color)
    };
    let specular = if in_shadow {
        Color { red: 0, green: 0, blue: 0 }
    } else {
        spec_specular_contribution(m, light, position, eye_vector, normal)
    };
    spec_add_c(spec_add_c(ambient, diffuse), specular)
}

} // verus!
