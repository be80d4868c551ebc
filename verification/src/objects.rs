//! The closed set of scene objects and materials, as far as the control
//! flow reads them: which material an object is shaded with, which objects
//! a ray can hit, which have a distance field.
//!
//! Numbers are binary32 bit patterns, compared as `ieee` orders them.

use vstd::prelude::*;
use crate::ieee;

verus! {

/// How a surface answers light, with the parameters of each family.
#[derive(Clone, Copy, Debug, PartialEq, Eq, Structural)]
pub enum MaterialType {
    /// Direct light plus one mirror bounce, perturbed in proportion to
    /// `roughness`.
    Reflective { roughness: u32 },
    /// A Fresnel-weighted pair of a refracted and a mirrored bounce.
    Refractive { transparency: u32, refraction_index: u32, reflectivity: u32 },
}

/// A colour: red, green and blue.
#[derive(Clone, Copy, Debug, PartialEq, Eq, Structural)]
pub struct Rgb {
    pub r: u32,
    pub g: u32,
    pub b: u32,
}

/// Shading parameters of a surface.
#[derive(Clone, Copy, Debug, PartialEq, Eq, Structural)]
pub struct Material {
    pub ambience: u32,
    pub diffuse: u32,
    pub specular: u32,
    pub shininess: u32,
    /// The surface colour.
    pub albedo: Rgb,
    /// Texture that replaces the albedo at a hit, if any.
    pub texture: Option<usize>,
    pub kind: MaterialType,
    pub emission_power: u32,
}

/// Smooth union of the distance fields of two objects of the scene.
#[derive(Clone, Copy, Debug, PartialEq, Eq, Structural)]
pub struct Union {
    pub first: usize,
    pub second: usize,
}

/// The distance field of the first object with that of the second cut out.
#[derive(Clone, Copy, Debug, PartialEq, Eq, Structural)]
pub struct Substraction {
    pub first: usize,
    pub second: usize,
}

/// An object of the scene. A primitive names its material; a combination
/// names its two operands by their indices in the scene.
#[derive(Clone, Copy, Debug, PartialEq, Eq, Structural)]
pub enum Object3D {
    Sphere { material_index: usize },
    Triangle { material_index: usize },
    Cuboid { material_index: usize },
    Plane { material_index: usize },
    Cylinder { material_index: usize },
    Cone { material_index: usize },
    Union(Union),
    Substraction(Substraction),
}

/// The material of object `index`, found in at most `fuel` hops from a
/// combination to its first operand. `None` where the index is out of range
/// or the hops do not reach a primitive.
pub open spec fn material_within(objects: Seq<Object3D>, index: int, fuel: nat) -> Option<usize>
    decreases fuel,
{
    if !(0 <= index < objects.len()) {
        None
    } else {
        match objects[index].operands() {
            None => Some(objects[index].own_material()),
            Some(pair) => if fuel == 0 {
                None
            } else {
                material_within(objects, pair.first as int, (fuel - 1) as nat)
            },
        }
    }
}

/// The material of object `index`: its own if it is a primitive, else that
/// of its first operand, and so on. A chain of first operands that ends
/// passes each object at most once, so as many hops as there are objects
/// are allowed.
pub open spec fn material_of(objects: Seq<Object3D>, index: int) -> Option<usize> {
    material_within(objects, index, objects.len())
}

impl MaterialType {
    /// Whether the parameters are in their ranges: a roughness in `[0, 1]`, a
    /// refraction index above zero.
    pub open spec fn wf(self) -> bool {
        match self {
            MaterialType::Reflective { roughness } => ieee::in_unit_interval(roughness),
            MaterialType::Refractive { refraction_index, .. } => ieee::is_positive(
                refraction_index,
            ),
        }
    }

    /// Checks that the parameters are in their ranges.
    pub fn is_valid(&self) -> (r: bool)
        ensures
            r == self.wf(),
    {
        match self {
            MaterialType::Reflective { roughness } => ieee::unit_interval(*roughness),
            MaterialType::Refractive { refraction_index, .. } => ieee::positive(*refraction_index),
        }
    }
}

impl Material {
    /// The material that a scene starts from: ambience 0.2, diffuse 0.7,
    /// specular 0.5, shininess 5, a black albedo, no texture, no emission,
    /// fully rough reflection.
    pub open spec fn plain() -> Material {
        Material {
            ambience: 0x3e4c_cccd,
            diffuse: 0x3f33_3333,
            specular: 0x3f00_0000,
            shininess: 0x40a0_0000,
            albedo: Rgb { r: 0, g: 0, b: 0 },
            texture: None,
            kind: MaterialType::Reflective { roughness: ieee::ONE },
            emission_power: 0,
        }
    }
}

impl Default for Material {
    fn default() -> (material: Material)
        ensures
            material == Material::plain(),
            material.kind.wf(),
    {
        Material {
            ambience: 0x3e4c_cccd,
            diffuse: 0x3f33_3333,
            specular: 0x3f00_0000,
            shininess: 0x40a0_0000,
            albedo: Rgb { r: 0, g: 0, b: 0 },
            texture: None,
            kind: MaterialType::Reflective { roughness: ieee::ONE },
            emission_power: 0,
        }
    }
}

/// The two operands of a combination.
pub struct Operands {
    pub first: usize,
    pub second: usize,
}

impl Object3D {
    /// The operands of a combination; `None` for a primitive.
    pub open spec fn operands(self) -> Option<Operands> {
        match self {
            Object3D::Union(u) => Some(Operands { first: u.first, second: u.second }),
            Object3D::Substraction(s) => Some(Operands { first: s.first, second: s.second }),
            _ => None,
        }
    }

    /// The material that a primitive names; 0 for a combination, which names
    /// none.
    pub open spec fn own_material(self) -> usize {
        match self {
            Object3D::Sphere { material_index } => material_index,
            Object3D::Triangle { material_index } => material_index,
            Object3D::Cuboid { material_index } => material_index,
            Object3D::Plane { material_index } => material_index,
            Object3D::Cylinder { material_index } => material_index,
            Object3D::Cone { material_index } => material_index,
            Object3D::Union(_) => 0,
            Object3D::Substraction(_) => 0,
        }
    }

    /// Whether a ray can hit the object: every primitive can, no combination.
    pub open spec fn is_intersectable(self) -> bool {
        self.operands() is None
    }

    /// Whether the object has a distance field to march: spheres, planes,
    /// cuboids, cylinders and the combinations.
    pub open spec fn has_field(self) -> bool {
        match self {
            Object3D::Triangle { .. } => false,
            Object3D::Cone { .. } => false,
            _ => true,
        }
    }

    /// The material of this object as part of the scene `objects`: its own
    /// if it is a primitive, else the material of its first operand.
    pub open spec fn material_in(self, objects: Seq<Object3D>) -> Option<usize> {
        match self.operands() {
            None => Some(self.own_material()),
            Some(pair) => material_of(objects, pair.first as int),
        }
    }

    /// Tells whether a ray can hit the object.
    pub fn intersectable(&self) -> (r: bool)
        ensures
            r == self.is_intersectable(),
    {
        match self {
            Object3D::Union(_) => false,
            Object3D::Substraction(_) => false,
            _ => true,
        }
    }

    /// Tells whether the object has a distance field to march.
    pub fn marchable(&self) -> (r: bool)
        ensures
            r == self.has_field(),
    {
        match self {
            Object3D::Triangle { .. } => false,
            Object3D::Cone { .. } => false,
            _ => true,
        }
    }

    /// Finds the index of the material that the object is shaded with.
    ///
    /// Returns `None` where a combination leads, from first operand to first
    /// operand, out of the scene or never to a primitive.
    pub fn material_index(&self, objects: &Vec<Object3D>) -> (index: Option<usize>)
        ensures
            index == self.material_in(objects@),
    {
        match self {
            Object3D::Sphere { material_index } => Some(*material_index),
            Object3D::Triangle { material_index } => Some(*material_index),
            Object3D::Cuboid { material_index } => Some(*material_index),
            Object3D::Plane { material_index } => Some(*material_index),
            Object3D::Cylinder { material_index } => Some(*material_index),
            Object3D::Cone { material_index } => Some(*material_index),
            Object3D::Union(u) => material_at(objects, u.first),
            Object3D::Substraction(s) => material_at(objects, s.first),
        }
    }
}

/// Finds the index of the material that object `index` of the scene is
/// shaded with.
pub fn material_at(objects: &Vec<Object3D>, index: usize) -> (material: Option<usize>)
    ensures
        material == material_of(objects@, index as int),
{
    let mut current: usize = index;
    let mut fuel: usize = objects.len();
    loop
        invariant
            fuel <= objects.len(),
            material_of(objects@, index as int) == material_within(
                objects@,
                current as int,
                fuel as nat,
            ),
        decreases fuel,
    {
        if current >= objects.len() {
            return None;
        }
        match objects[current] {
            Object3D::Sphere { material_index } => {
                return Some(material_index);
            },
            Object3D::Triangle { material_index } => {
                return Some(material_index);
            },
            Object3D::Cuboid { material_index } => {
                return Some(material_index);
            },
            Object3D::Plane { material_index } => {
                return Some(material_index);
            },
            Object3D::Cylinder { material_index } => {
                return Some(material_index);
            },
            Object3D::Cone { material_index } => {
                return Some(material_index);
            },
            Object3D::Union(u) => {
                if fuel == 0 {
                    return None;
                }
                current = u.first;
            },
            Object3D::Substraction(s) => {
                if fuel == 0 {
                    return None;
                }
                current = s.first;
            },
        }
        fuel = fuel - 1;
    }
}

impl Union {
    /// The smooth union of objects `first` and `second` of the scene.
    pub fn new(first: usize, second: usize) -> (object: Object3D)
        ensures
            object == Object3D::Union(Union { first, second }),
    {
        Object3D::Union(Union { first, second })
    }

    /// The material of the union: that of its first operand.
    pub fn material_index(&self, objects: &Vec<Object3D>) -> (index: Option<usize>)
        ensures
            index == material_of(objects@, self.first as int),
    {
        material_at(objects, self.first)
    }

    /// The operand that owns the union's distance, given the distances of
    /// the two operands: the first if it is strictly nearer, else the second.
    pub fn nearer_operand(&self, first_distance: u32, second_distance: u32) -> (owner: usize)
        ensures
            owner == if ieee::lt(first_distance, second_distance) {
                self.first
            } else {
                self.second
            },
    {
        if ieee::less(first_distance, second_distance) {
            self.first
        } else {
            self.second
        }
    }
}

impl Substraction {
    /// Object `first` of the scene with object `second` cut out.
    pub fn new(first: usize, second: usize) -> (object: Object3D)
        ensures
            object == Object3D::Substraction(Substraction { first, second }),
    {
        Object3D::Substraction(Substraction { first, second })
    }

    /// The material of the difference: that of its first operand.
    pub fn material_index(&self, objects: &Vec<Object3D>) -> (index: Option<usize>)
        ensures
            index == material_of(objects@, self.first as int),
    {
        material_at(objects, self.first)
    }

    /// The signed distance of the difference, given the signed distances of
    /// the two operands: the larger of the first and the negated second.
    pub fn sdf(&self, first_distance: u32, second_distance: u32) -> (distance: u32)
        ensures
            distance == ieee::larger(first_distance, ieee::negated(second_distance)),
    {
        ieee::max(first_distance, ieee::neg(second_distance))
    }
}

/// Cutting something out of an object never brings its surface nearer: the
/// distance of the difference is not below that of the first operand, and a
/// point inside the second operand is not inside the difference.
pub proof fn difference_is_not_nearer(first_distance: u32, second_distance: u32)
    requires
        !ieee::is_nan(first_distance),
        !ieee::is_nan(second_distance),
    ensures
        ieee::le(first_distance, ieee::larger(first_distance, ieee::negated(second_distance))),
        ieee::le(
            ieee::negated(second_distance),
            ieee::larger(first_distance, ieee::negated(second_distance)),
        ),
        ieee::lt(second_distance, ieee::ZERO) ==> ieee::lt(
            ieee::ZERO,
            ieee::larger(first_distance, ieee::negated(second_distance)),
        ),
{
}

/// Hops that suffice once suffice ever after: more fuel never changes a
/// material that was found.
pub proof fn material_is_stable(objects: Seq<Object3D>, index: int, fuel: nat, more: nat)
    requires
        material_within(objects, index, fuel) is Some,
        fuel <= more,
    ensures
        material_within(objects, index, more) == material_within(objects, index, fuel),
    decreases fuel,
{
    if objects[index].operands() is Some {
        material_is_stable(
            objects,
            objects[index].operands()->0.first as int,
            (fuel - 1) as nat,
            (more - 1) as nat,
        );
    }
}

/// A combination is shaded with the material of its first operand, and a
/// primitive with its own.
pub proof fn material_follows_first_operand(objects: Seq<Object3D>, index: int)
    requires
        0 <= index < objects.len(),
        material_of(objects, index) is Some,
    ensures
        objects[index].material_in(objects) == material_of(objects, index),
        objects[index].operands() is None ==> material_of(objects, index) == Some(
            objects[index].own_material(),
        ),
        objects[index].operands() is Some ==> material_of(objects, index) == material_of(
            objects,
            objects[index].operands()->0.first as int,
        ),
{
    if objects[index].operands() is Some {
        material_is_stable(
            objects,
            objects[index].operands()->0.first as int,
            (objects.len() - 1) as nat,
            objects.len(),
        );
    }
}

} // verus!
