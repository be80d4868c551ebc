//! The scene as the integrators index it: objects, materials, textures, the
//! list of marched objects and the global toggles, with the check that
//! every index in it leads somewhere.
//!
//! A scene is assembled once and then read by every ray of a frame. The
//! integrators rely on `Scene::wf`; `Scene::is_well_formed` decides it.

use vstd::prelude::*;
use vstd::set_lib::{lemma_int_range, lemma_len_subset, lemma_subset_equality, set_int_range};
use crate::objects::{
    material_at, material_is_stable, material_of, material_within, Material, Object3D,
    Substraction, Union,
};
use crate::texture::Texture;

verus! {

/// Objects, materials and textures of a scene, and how it is rendered.
pub struct Scene {
    pub objects: Vec<Object3D>,
    /// Indices of the objects that the ray marcher evaluates, in order.
    pub sdfs: Vec<usize>,
    pub materials: Vec<Material>,
    pub textures: Vec<Texture>,
    pub max_ray_bounces: u8,
    pub shadow_casting: bool,
    pub ray_marching: bool,
    pub diffuse: bool,
    pub enable_accumulation: bool,
    /// Number of frames after which rendering stops.
    pub max_frames_rendering: u32,
}

/// The algorithm that turns a primary ray into a colour.
#[derive(Clone, Copy, Debug, PartialEq, Eq, Structural)]
pub enum Integrator {
    /// The recursive tracer with direct lighting.
    Tracer,
    /// The recursive tracer that gathers emitted light along scattered
    /// bounces.
    DiffuseTracer,
    /// The sphere-tracing marcher.
    Marcher,
}

/// Whether the distance field of object `index` can be evaluated in at most
/// `fuel` levels of combination: a primitive always, a combination when both
/// operands exist and can be evaluated in one level less.
pub open spec fn grounded(objects: Seq<Object3D>, index: int, fuel: nat) -> bool
    decreases fuel,
{
    &&& 0 <= index < objects.len()
    &&& match objects[index].operands() {
        None => true,
        Some(pair) => fuel > 0 && grounded(objects, pair.first as int, (fuel - 1) as nat)
            && grounded(objects, pair.second as int, (fuel - 1) as nat),
    }
}

/// Whether a texture can be sampled: it has at least one pixel and its
/// buffer matches its dimensions.
pub open spec fn is_sampleable(texture: Texture) -> bool {
    texture.wf() && texture.width >= 1 && texture.height >= 1
}

impl Scene {
    /// Whether every combination bottoms out in primitives of the scene.
    pub open spec fn objects_grounded(self) -> bool {
        forall|i: int|
            0 <= i < self.objects@.len() ==> #[trigger] grounded(
                self.objects@,
                i,
                self.objects@.len(),
            )
    }

    /// Whether every object is shaded with a material of the scene.
    pub open spec fn materials_resolve(self) -> bool {
        forall|i: int|
            0 <= i < self.objects@.len() ==> {
                &&& (#[trigger] material_of(self.objects@, i)) is Some
                &&& material_of(self.objects@, i)->0 < self.materials@.len()
            }
    }

    /// Whether the marcher's list names objects of the scene only.
    pub open spec fn fields_in_range(self) -> bool {
        forall|k: int| 0 <= k < self.sdfs@.len() ==> #[trigger] self.sdfs@[k] < self.objects@.len()
    }

    /// Whether every material has parameters in their ranges and, if it is
    /// textured, names a texture of the scene.
    pub open spec fn materials_valid(self) -> bool {
        forall|m: int|
            0 <= m < self.materials@.len() ==> {
                &&& (#[trigger] self.materials@[m]).kind.wf()
                &&& self.materials@[m].texture is Some ==> self.materials@[m].texture->0
                    < self.textures@.len()
            }
    }

    /// Whether every texture can be sampled.
    pub open spec fn textures_valid(self) -> bool {
        forall|t: int| 0 <= t < self.textures@.len() ==> is_sampleable(#[trigger] self.textures@[t])
    }

    /// Whether the scene can be rendered: no index in it dangles and no
    /// combination contains itself.
    pub open spec fn wf(self) -> bool {
        &&& self.objects_grounded()
        &&& self.materials_resolve()
        &&& self.fields_in_range()
        &&& self.materials_valid()
        &&& self.textures_valid()
    }

    /// A scene of the given objects and materials: no textures, nothing
    /// marched, a bounce budget of 4, every toggle off and a frame budget of
    /// 0 until one is set.
    pub fn new(objects: Vec<Object3D>, materials: Vec<Material>) -> (scene: Scene)
        ensures
            scene.objects == objects,
            scene.materials == materials,
            scene.sdfs@.len() == 0,
            scene.textures@.len() == 0,
            scene.max_ray_bounces == 4,
            !scene.shadow_casting,
            !scene.ray_marching,
            !scene.diffuse,
            !scene.enable_accumulation,
            scene.max_frames_rendering == 0,
    {
        Scene {
            objects,
            sdfs: Vec::new(),
            materials,
            textures: Vec::new(),
            max_ray_bounces: 4,
            shadow_casting: false,
            ray_marching: false,
            diffuse: false,
            enable_accumulation: false,
            max_frames_rendering: 0,
        }
    }

    /// The scene with one more texture, which gets the next free index.
    pub fn with_texture(self, texture: Texture) -> (scene: Scene)
        ensures
            scene.textures@ == self.textures@.push(texture),
            scene.objects == self.objects,
            scene.sdfs == self.sdfs,
            scene.materials == self.materials,
            scene.max_ray_bounces == self.max_ray_bounces,
            scene.shadow_casting == self.shadow_casting,
            scene.ray_marching == self.ray_marching,
            scene.diffuse == self.diffuse,
            scene.enable_accumulation == self.enable_accumulation,
            scene.max_frames_rendering == self.max_frames_rendering,
    {
        let mut scene = self;
        scene.textures.push(texture);
        scene
    }

    /// The scene with more textures, which get the next free indices in the
    /// order given.
    pub fn with_textures(self, textures: Vec<Texture>) -> (scene: Scene)
        ensures
            scene.textures@ == self.textures@ + textures@,
            scene.objects == self.objects,
            scene.sdfs == self.sdfs,
            scene.materials == self.materials,
            scene.max_ray_bounces == self.max_ray_bounces,
            scene.shadow_casting == self.shadow_casting,
            scene.ray_marching == self.ray_marching,
            scene.diffuse == self.diffuse,
            scene.enable_accumulation == self.enable_accumulation,
            scene.max_frames_rendering == self.max_frames_rendering,
    {
        let mut scene = self;
        let mut more = textures;
        scene.textures.append(&mut more);
        scene
    }

    /// The integrator that the toggles select: the marcher in ray-marching
    /// mode, else the tracer in its diffuse or its direct variant.
    pub open spec fn integrator_of(self) -> Integrator {
        if self.ray_marching {
            Integrator::Marcher
        } else if self.diffuse {
            Integrator::DiffuseTracer
        } else {
            Integrator::Tracer
        }
    }

    /// Tells which integrator shades the pixels of this scene.
    pub fn integrator(&self) -> (r: Integrator)
        ensures
            r == self.integrator_of(),
    {
        if self.ray_marching {
            Integrator::Marcher
        } else if self.diffuse {
            Integrator::DiffuseTracer
        } else {
            Integrator::Tracer
        }
    }

    /// Decides whether the scene can be rendered.
    pub fn is_well_formed(&self) -> (r: bool)
        ensures
            r == self.wf(),
    {
        self.check_grounded() && self.check_materials_resolve() && self.check_fields()
            && self.check_materials() && self.check_textures()
    }

    fn check_grounded(&self) -> (r: bool)
        ensures
            r == self.objects_grounded(),
    {
        let n: usize = self.objects.len();
        // marks[i] says whether object i is grounded within `round` levels
        let mut marks: Vec<bool> = Vec::new();
        let mut i: usize = 0;
        while i < n
            invariant
                i <= n,
                n == self.objects@.len(),
                marks@.len() == i,
                forall|j: int| 0 <= j < i ==> marks@[j] == grounded(self.objects@, j, 0),
            decreases n - i,
        {
            marks.push(self.objects[i].intersectable());
            i = i + 1;
        }
        let mut round: usize = 0;
        while round < n
            invariant
                round <= n,
                n == self.objects@.len(),
                marks@.len() == n,
                forall|j: int| 0 <= j < n ==> marks@[j] == grounded(self.objects@, j, round as nat),
            decreases n - round,
        {
            let mut next: Vec<bool> = Vec::new();
            let mut j: usize = 0;
            while j < n
                invariant
                    j <= n,
                    round < n,
                    n == self.objects@.len(),
                    marks@.len() == n,
                    next@.len() == j,
                    forall|k: int|
                        0 <= k < n ==> marks@[k] == grounded(self.objects@, k, round as nat),
                    forall|k: int|
                        0 <= k < j ==> next@[k] == grounded(
                            self.objects@,
                            k,
                            (round + 1) as nat,
                        ),
                decreases n - j,
            {
                let mark: bool = match self.objects[j] {
                    Object3D::Union(u) => u.first < n && u.second < n && marks[u.first]
                        && marks[u.second],
                    Object3D::Substraction(s) => s.first < n && s.second < n && marks[s.first]
                        && marks[s.second],
                    _ => true,
                };
                proof {
                    let object = self.objects@[j as int];
                    if object.operands() is Some {
                        let pair = object.operands()->0;
                        assert(!(pair.first < n) ==> !grounded(
                            self.objects@,
                            pair.first as int,
                            round as nat,
                        ));
                        assert(!(pair.second < n) ==> !grounded(
                            self.objects@,
                            pair.second as int,
                            round as nat,
                        ));
                        assert(mark == (grounded(self.objects@, pair.first as int, round as nat)
                            && grounded(self.objects@, pair.second as int, round as nat)));
                    }
                    assert(mark == grounded(self.objects@, j as int, (round + 1) as nat));
                }
                next.push(mark);
                j = j + 1;
            }
            marks = next;
            round = round + 1;
        }
        let mut all: bool = true;
        let mut k: usize = 0;
        while k < n
            invariant
                k <= n,
                n == self.objects@.len(),
                marks@.len() == n,
                forall|j: int| 0 <= j < n ==> marks@[j] == grounded(self.objects@, j, n as nat),
                all == forall|j: int| 0 <= j < k ==> #[trigger] grounded(self.objects@, j, n as nat),
            decreases n - k,
        {
            if !marks[k] {
                all = false;
            }
            k = k + 1;
        }
        all
    }

    fn check_materials_resolve(&self) -> (r: bool)
        ensures
            r == self.materials_resolve(),
    {
        let n: usize = self.objects.len();
        let mut i: usize = 0;
        while i < n
            invariant
                i <= n,
                n == self.objects@.len(),
                forall|j: int|
                    0 <= j < i ==> {
                        &&& (#[trigger] material_of(self.objects@, j)) is Some
                        &&& material_of(self.objects@, j)->0 < self.materials@.len()
                    },
            decreases n - i,
        {
            match material_at(&self.objects, i) {
                None => {
                    return false;
                },
                Some(m) => {
                    if m >= self.materials.len() {
                        return false;
                    }
                },
            }
            i = i + 1;
        }
        true
    }

    fn check_fields(&self) -> (r: bool)
        ensures
            r == self.fields_in_range(),
    {
        let mut k: usize = 0;
        while k < self.sdfs.len()
            invariant
                k <= self.sdfs@.len(),
                forall|j: int| 0 <= j < k ==> #[trigger] self.sdfs@[j] < self.objects@.len(),
            decreases self.sdfs@.len() - k,
        {
            if self.sdfs[k] >= self.objects.len() {
                return false;
            }
            k = k + 1;
        }
        true
    }

    fn check_materials(&self) -> (r: bool)
        ensures
            r == self.materials_valid(),
    {
        let mut m: usize = 0;
        while m < self.materials.len()
            invariant
                m <= self.materials@.len(),
                forall|j: int|
                    0 <= j < m ==> {
                        &&& (#[trigger] self.materials@[j]).kind.wf()
                        &&& self.materials@[j].texture is Some ==> self.materials@[j].texture->0
                            < self.textures@.len()
                    },
            decreases self.materials@.len() - m,
        {
            let material: Material = self.materials[m];
            if !material.kind.is_valid() {
                return false;
            }
            match material.texture {
                Some(t) => {
                    if t >= self.textures.len() {
                        return false;
                    }
                },
                None => {},
            }
            m = m + 1;
        }
        true
    }

    fn check_textures(&self) -> (r: bool)
        ensures
            r == self.textures_valid(),
    {
        let mut t: usize = 0;
        while t < self.textures.len()
            invariant
                t <= self.textures@.len(),
                forall|j: int| 0 <= j < t ==> is_sampleable(#[trigger] self.textures@[j]),
            decreases self.textures@.len() - t,
        {
            if !self.textures[t].is_loaded() {
                return false;
            }
            t = t + 1;
        }
        true
    }
}

/// Levels that suffice once suffice ever after: what is grounded within
/// some number of levels is grounded within any larger number.
pub proof fn grounded_is_stable(objects: Seq<Object3D>, index: int, fuel: nat, more: nat)
    requires
        grounded(objects, index, fuel),
        fuel <= more,
    ensures
        grounded(objects, index, more),
    decreases fuel,
{
    if objects[index].operands() is Some {
        let pair = objects[index].operands()->0;
        grounded_is_stable(objects, pair.first as int, (fuel - 1) as nat, (more - 1) as nat);
        grounded_is_stable(objects, pair.second as int, (fuel - 1) as nat, (more - 1) as nat);
    }
}

/// An object that is grounded has a material: the chain of first operands
/// ends at a primitive within the same number of levels, and both operands
/// of a grounded combination are grounded themselves.
pub proof fn grounded_has_material(objects: Seq<Object3D>, index: int, fuel: nat)
    requires
        grounded(objects, index, fuel),
        fuel <= objects.len(),
    ensures
        material_of(objects, index) is Some,
        objects[index].operands() is Some ==> grounded(
            objects,
            objects[index].operands()->0.first as int,
            objects.len(),
        ) && grounded(objects, objects[index].operands()->0.second as int, objects.len()),
{
    lemma_grounded_resolves(objects, index, fuel);
    material_is_stable(objects, index, fuel, objects.len());
    if objects[index].operands() is Some {
        let pair = objects[index].operands()->0;
        grounded_is_stable(objects, pair.first as int, (fuel - 1) as nat, objects.len());
        grounded_is_stable(objects, pair.second as int, (fuel - 1) as nat, objects.len());
    }
}

proof fn lemma_grounded_resolves(objects: Seq<Object3D>, index: int, fuel: nat)
    requires
        grounded(objects, index, fuel),
    ensures
        material_within(objects, index, fuel) is Some,
    decreases fuel,
{
    if objects[index].operands() is Some {
        lemma_grounded_resolves(
            objects,
            objects[index].operands()->0.first as int,
            (fuel - 1) as nat,
        );
    }
}

/// In a well-formed scene every index that rendering follows is in range:
/// the material of every object, the texture of every material, every
/// marched object and both operands of every combination.
pub proof fn well_formed_scene_has_no_dangling_index(scene: Scene, object: int, field: int)
    requires
        scene.wf(),
        0 <= object < scene.objects@.len(),
        0 <= field < scene.sdfs@.len(),
    ensures
        scene.objects@[object].material_in(scene.objects@) is Some,
        scene.objects@[object].material_in(scene.objects@)->0 < scene.materials@.len(),
        scene.materials@[scene.objects@[object].material_in(scene.objects@)->0 as int].texture is Some
            ==> scene.materials@[scene.objects@[object].material_in(
            scene.objects@,
        )->0 as int].texture->0 < scene.textures@.len(),
        scene.sdfs@[field] < scene.objects@.len(),
        scene.objects@[object].operands() is Some ==> scene.objects@[object].operands()->0.first
            < scene.objects@.len() && scene.objects@[object].operands()->0.second
            < scene.objects@.len(),
{
    let objects = scene.objects@;
    assert(grounded(objects, object, objects.len()));
    assert(material_of(objects, object) is Some);
    crate::objects::material_follows_first_operand(objects, object);
    let m = material_of(objects, object)->0 as int;
    assert(scene.materials@[m].kind.wf());
    if objects[object].operands() is Some {
        grounded_has_material(objects, object, objects.len());
    }
}

/// The objects that are grounded within `fuel` levels.
spec fn grounded_set(objects: Seq<Object3D>, fuel: nat) -> Set<int> {
    Set::new(|i: int| grounded(objects, i, fuel))
}

/// Whether one more level beyond `fuel` grounds nothing new.
spec fn settled_at(objects: Seq<Object3D>, fuel: nat) -> bool {
    forall|i: int| #[trigger] grounded(objects, i, fuel + 1) ==> grounded(objects, i, fuel)
}

proof fn lemma_grounded_set_is_small(objects: Seq<Object3D>, fuel: nat)
    ensures
        grounded_set(objects, fuel).finite(),
        grounded_set(objects, fuel).len() <= objects.len(),
        grounded_set(objects, fuel).subset_of(grounded_set(objects, fuel + 1)),
{
    lemma_int_range(0, objects.len() as int);
    lemma_len_subset(grounded_set(objects, fuel), set_int_range(0, objects.len() as int));
    assert forall|i: int| grounded_set(objects, fuel).contains(i) implies grounded_set(
        objects,
        fuel + 1,
    ).contains(i) by {
        grounded_is_stable(objects, i, fuel, fuel + 1);
    }
}

proof fn lemma_settled_stays(objects: Seq<Object3D>, fuel: nat, more: nat)
    requires
        settled_at(objects, fuel),
        fuel <= more,
    ensures
        settled_at(objects, more),
    decreases more - fuel,
{
    if fuel < more {
        lemma_settled_stays(objects, fuel, (more - 1) as nat);
        let before = (more - 1) as nat;
        assert forall|i: int| #[trigger] grounded(objects, i, more + 1) implies grounded(
            objects,
            i,
            more,
        ) by {
            if objects[i].operands() is Some {
                let pair = objects[i].operands()->0;
                assert(grounded(objects, pair.first as int, before + 1));
                assert(grounded(objects, pair.second as int, before + 1));
                assert(grounded(objects, pair.first as int, before));
                assert(grounded(objects, pair.second as int, before));
            }
        }
    }
}

proof fn lemma_settled_reaches(objects: Seq<Object3D>, index: int, fuel: nat, more: nat)
    requires
        settled_at(objects, fuel),
        fuel <= more,
        grounded(objects, index, more),
    ensures
        grounded(objects, index, fuel),
    decreases more - fuel,
{
    if fuel < more {
        lemma_settled_stays(objects, fuel, (more - 1) as nat);
        assert(grounded(objects, index, (more - 1) as nat + 1));
        lemma_settled_reaches(objects, index, fuel, (more - 1) as nat);
    }
}

/// Either the levels have settled at some `j <= fuel`, or every level up to
/// `fuel` grounded something new, so that more than `fuel` objects are
/// grounded.
proof fn lemma_levels_settle(objects: Seq<Object3D>, fuel: nat) -> (j: nat)
    ensures
        (j <= fuel && settled_at(objects, j)) || grounded_set(objects, fuel + 1).len() >= fuel + 1,
    decreases fuel,
{
    lemma_grounded_set_is_small(objects, fuel);
    lemma_grounded_set_is_small(objects, fuel + 1);
    let now = grounded_set(objects, fuel);
    let next = grounded_set(objects, fuel + 1);
    if settled_at(objects, fuel) {
        fuel
    } else {
        let i = choose|i: int| #[trigger]
            grounded(objects, i, fuel + 1) && !grounded(objects, i, fuel);
        assert(next.contains(i) && !now.contains(i));
        lemma_len_subset(now, next);
        if now.len() == next.len() {
            lemma_subset_equality(now, next);
            assert(now.contains(i));
        }
        assert(next.len() >= now.len() + 1);
        if fuel == 0 {
            0
        } else {
            let j = lemma_levels_settle(objects, (fuel - 1) as nat);
            assert(((fuel - 1) as nat + 1) as nat == fuel);
            j
        }
    }
}

/// As many levels as there are objects ground everything that any number
/// of levels grounds: a combination that contains itself at no depth is
/// never refused for want of levels.
pub proof fn levels_suffice(objects: Seq<Object3D>, index: int, fuel: nat)
    requires
        grounded(objects, index, fuel),
    ensures
        grounded(objects, index, objects.len()),
{
    if fuel <= objects.len() {
        grounded_is_stable(objects, index, fuel, objects.len());
    } else {
        let j = lemma_levels_settle(objects, objects.len());
        lemma_grounded_set_is_small(objects, objects.len() + 1);
        lemma_settled_stays(objects, j, objects.len());
        lemma_settled_reaches(objects, index, objects.len(), fuel);
    }
}

/// The scene in which every combination has its first operand twice.
spec fn first_operands_only(objects: Seq<Object3D>) -> Seq<Object3D> {
    Seq::new(
        objects.len(),
        |i: int|
            match objects[i] {
                Object3D::Union(u) => Object3D::Union(Union { first: u.first, second: u.first }),
                Object3D::Substraction(s) => Object3D::Substraction(
                    Substraction { first: s.first, second: s.first },
                ),
                primitive => primitive,
            },
    )
}

proof fn lemma_chain_is_grounding(objects: Seq<Object3D>, index: int, fuel: nat)
    ensures
        material_within(objects, index, fuel) is Some <==> grounded(
            first_operands_only(objects),
            index,
            fuel,
        ),
    decreases fuel,
{
    if 0 <= index < objects.len() {
        let twin = first_operands_only(objects)[index];
        assert(twin.operands() is Some <==> objects[index].operands() is Some);
        if objects[index].operands() is Some && fuel > 0 {
            let first = objects[index].operands()->0.first;
            assert(twin.operands()->0.first == first && twin.operands()->0.second == first);
            lemma_chain_is_grounding(objects, first as int, (fuel - 1) as nat);
        }
    }
}

/// As many hops as there are objects find every material that any number
/// of hops finds: a chain of first operands that ends at a primitive is
/// never cut short.
pub proof fn hops_suffice(objects: Seq<Object3D>, index: int, fuel: nat)
    requires
        material_within(objects, index, fuel) is Some,
    ensures
        material_of(objects, index) == material_within(objects, index, fuel),
{
    lemma_chain_is_grounding(objects, index, fuel);
    levels_suffice(first_operands_only(objects), index, fuel);
    lemma_chain_is_grounding(objects, index, objects.len());
    if fuel <= objects.len() {
        material_is_stable(objects, index, fuel, objects.len());
    } else {
        material_is_stable(objects, index, objects.len(), fuel);
    }
}

} // verus!
