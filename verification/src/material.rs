//! What surfaces do with light: emit it, scatter it diffusely, or reflect and
//! refract it.
use vstd::prelude::*;
use crate::color::Color;
use crate::pdf::{CosinePdf, PdfEnum, UniformSpherePdf, UNIFORM_SPHERE_RANK};
use crate::scalar::{Scalar, ONE_RANK};
use crate::vec3::{Onb, Vec3};

verus! {

/// A light. `emit` is the texture that gives its radiance.
#[derive(Debug)]
pub enum EmitMaterial<X> {
    DiffuseLight { emit: X },
}

/// A surface that scatters into a density of directions. `albedo` is the
/// texture that gives the fraction of light reflected.
#[derive(Debug)]
pub enum ScatterMaterial<X> {
    Lambertian { albedo: X },
    Isotropic { albedo: X },
}

/// A surface that sends light on in one direction: glass of refractive index
/// `ir`, or metal.
#[derive(Clone, Copy, Debug, PartialEq, Eq, Structural)]
pub enum SpecularMaterial {
    Dielectric { ir: Scalar },
    Metal { albedo: Color, fuzz: Scalar },
}

/// Any material.
#[derive(Debug)]
pub enum Material<X> {
    Emit(EmitMaterial<X>),
    Scatter(ScatterMaterial<X>),
    Specular(SpecularMaterial),
}

/// What a diffuse surface proposes: the attenuation and the density from
/// which the next direction is to be drawn.
#[derive(Clone, Copy, Debug, PartialEq, Eq, Structural)]
pub struct PdfScatterRecord {
    pub attenuation: Color,
    pub pdf: PdfEnum,
}

/// What a specular surface proposes: the attenuation and the one ray that
/// goes on, which the caller holds as `ray`.
#[derive(Debug)]
pub struct SpecularScatterRecord<R> {
    pub attenuation: Color,
    pub ray: R,
}

impl<X> EmitMaterial<X> {
    /// The radiance that a light sends towards the ray: `value`, what its
    /// texture holds at the hit, where the ray meets the light's front, and
    /// black where it meets the back.
    pub fn emmitted(&self, front_face: bool, value: Color) -> (radiance: Color)
        ensures
            front_face ==> radiance == value,
            !front_face ==> radiance.is_black(),
    {
        if front_face {
            value
        } else {
            Color::default()
        }
    }
}

impl PdfScatterRecord {
    /// The proposal of a diffuse surface.
    pub fn new(attenuation: Color, pdf: PdfEnum) -> (rec: PdfScatterRecord)
        ensures
            rec == (PdfScatterRecord { attenuation, pdf }),
    {
        PdfScatterRecord { attenuation, pdf }
    }
}

impl<R> SpecularScatterRecord<R> {
    /// The proposal of a specular surface.
    pub fn new(attenuation: Color, ray: R) -> (rec: SpecularScatterRecord<R>)
        ensures
            rec.attenuation == attenuation,
            rec.ray == ray,
    {
        SpecularScatterRecord { attenuation, ray }
    }
}

impl<X> ScatterMaterial<X> {
    /// What the surface proposes at a hit: `attenuation` is what its texture
    /// holds there, `uvw` a frame round the shading normal. A Lambertian
    /// surface proposes the cosine density round the normal, an isotropic
    /// medium the even density on the sphere. A diffuse surface always
    /// scatters.
    pub fn scatter(&self, attenuation: Color, uvw: Onb) -> (rec: Option<PdfScatterRecord>)
        ensures
            rec == Some(
                PdfScatterRecord {
                    attenuation,
                    pdf: match self {
                        ScatterMaterial::Lambertian { .. } => PdfEnum::Cosine(CosinePdf { uvw }),
                        ScatterMaterial::Isotropic { .. } => PdfEnum::UniformSphere(
                            UniformSpherePdf {  },
                        ),
                    },
                },
            ),
    {
        match self {
            ScatterMaterial::Lambertian { .. } => Some(
                PdfScatterRecord::new(attenuation, PdfEnum::Cosine(CosinePdf::new(uvw))),
            ),
            ScatterMaterial::Isotropic { .. } => Some(
                PdfScatterRecord::new(attenuation, PdfEnum::UniformSphere(UniformSpherePdf::new())),
            ),
        }
    }

    /// The direction in which a diffuse surface scatters: the one that was
    /// drawn, unless it is too close to zero to be a direction, in which case
    /// the shading normal stands in for it.
    pub fn direction(drawn: Vec3, normal: Vec3) -> (d: Vec3)
        ensures
            d == if drawn.is_near_zero() { normal } else { drawn },
    {
        if drawn.near_zero() {
            normal
        } else {
            drawn
        }
    }

    /// The weight of a scattered direction in the rendering equation. For a
    /// Lambertian surface it is zero for a direction into the surface and the
    /// cosine over pi else; for an isotropic medium it is 1/(4·pi) whatever the
    /// direction. `cosine` is the cosine of the angle between the direction and
    /// the normal, `cosine_over_pi` that divided by pi.
    pub fn scattering_pdf(&self, cosine: Scalar, cosine_over_pi: Scalar) -> (weight: Scalar)
        ensures
            weight@ == match self {
                ScatterMaterial::Lambertian { .. } => if cosine@ < 0 {
                    0
                } else {
                    cosine_over_pi@
                },
                ScatterMaterial::Isotropic { .. } => UNIFORM_SPHERE_RANK as int,
            },
    {
        match self {
            ScatterMaterial::Lambertian { .. } => {
                if cosine.is_negative() {
                    Scalar::zero()
                } else {
                    cosine_over_pi
                }
            },
            ScatterMaterial::Isotropic { .. } => UniformSpherePdf::new().value(),
        }
    }
}

impl SpecularMaterial {
    /// Whether glass reflects the ray, where it could also let it through.
    /// `ratio_sine` is the refraction ratio times the sine of the angle of
    /// incidence: above one there is no refracted ray and the glass must
    /// reflect. Else it reflects with the probability `reflectance`: it does
    /// when `draw`, a number drawn evenly from zero up to one, lies below it.
    pub fn reflects(ratio_sine: Scalar, reflectance: Scalar, draw: Scalar) -> (reflect: bool)
        ensures
            reflect == (ratio_sine@ > ONE_RANK || reflectance@ > draw@),
    {
        ratio_sine.gt(Scalar::one()) || reflectance.gt(draw)
    }

    /// Whether metal sends the ray on. `facing` is the dot product of the
    /// reflected and perturbed direction with the shading normal: a direction
    /// that points into the surface, or along it, is absorbed.
    pub fn leaves_surface(facing: Scalar) -> (scattered: bool)
        ensures
            scattered == (facing@ > 0),
    {
        facing.gt(Scalar::zero())
    }

    /// The refraction ratio at a hit: `inverse`, one over the refractive
    /// index, for a ray that enters the glass from outside, and `index`, the
    /// refractive index itself, for one that leaves it.
    pub fn refraction_ratio(front_face: bool, index: Scalar, inverse: Scalar) -> (ratio: Scalar)
        ensures
            ratio == if front_face { inverse } else { index },
    {
        if front_face {
            inverse
        } else {
            index
        }
    }
}

impl<X> Material<X> {
    /// A light with the given texture.
    pub fn diffuse_light(emit: X) -> (m: Material<X>)
        ensures
            m == Material::Emit(EmitMaterial::DiffuseLight { emit }),
    {
        Material::Emit(EmitMaterial::DiffuseLight { emit })
    }

    /// A Lambertian surface with the given texture.
    pub fn lambertian(albedo: X) -> (m: Material<X>)
        ensures
            m == Material::Scatter(ScatterMaterial::Lambertian { albedo }),
    {
        Material::Scatter(ScatterMaterial::Lambertian { albedo })
    }

    /// An isotropic medium with the given texture.
    pub fn isotropic(albedo: X) -> (m: Material<X>)
        ensures
            m == Material::Scatter(ScatterMaterial::Isotropic { albedo }),
    {
        Material::Scatter(ScatterMaterial::Isotropic { albedo })
    }

    /// Glass of the given refractive index.
    pub fn dielectric(ir: Scalar) -> (m: Material<X>)
        ensures
            m == Material::<X>::Specular(SpecularMaterial::Dielectric { ir }),
    {
        Material::Specular(SpecularMaterial::Dielectric { ir })
    }

    /// Metal of the given colour and roughness.
    pub fn metal(albedo: Color, fuzz: Scalar) -> (m: Material<X>)
        ensures
            m == Material::<X>::Specular(SpecularMaterial::Metal { albedo, fuzz }),
    {
        Material::Specular(SpecularMaterial::Metal { albedo, fuzz })
    }
}

} // verus!
