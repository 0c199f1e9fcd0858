use vstd::prelude::*;

use crate::distance::{ordinal, Distance};
use crate::tracer::{Frame, Tracer};

verus! {

/// A ray's hit on entry `i`: the primitive reports a distance, and it is not a NaN.
pub open spec fn is_hit(distances: Seq<Option<Distance>>, i: int) -> bool {
    &&& 0 <= i < distances.len()
    &&& distances[i] is Some
    &&& !distances[i]->Some_0.is_nan_spec()
}

/// Position on the number line of the distance reported by entry `i`.
pub open spec fn distance_of(distances: Seq<Option<Distance>>, i: int) -> int {
    ordinal(distances[i]->Some_0.bits)
}

/// Entry `i` is the closest hit: a hit strictly nearer than every earlier hit
/// and no farther than every later one, so that the first of equal minima wins.
pub open spec fn is_closest(distances: Seq<Option<Distance>>, i: int) -> bool {
    &&& is_hit(distances, i)
    &&& forall|j: int|
        0 <= j < i && is_hit(distances, j) ==> distance_of(distances, i) < distance_of(distances, j)
    &&& forall|j: int|
        i < j < distances.len() && is_hit(distances, j) ==> distance_of(distances, i)
            <= distance_of(distances, j)
}

/// At most one entry is the closest hit.
pub proof fn lemma_closest_unique(distances: Seq<Option<Distance>>, i: int, k: int)
    requires
        is_closest(distances, i),
        is_closest(distances, k),
    ensures
        i == k,
{
    if i < k {
        assert(is_hit(distances, i));
    } else if k < i {
        assert(is_hit(distances, k));
    }
}

/// Primitives and their materials, kept in pairs in the order they were added.
/// An index names a primitive together with its material for the life of the
/// collection.
pub struct PrimitivesWithMaterials<P, M> {
    entries: Vec<(P, M)>,
}

impl<P, M> View for PrimitivesWithMaterials<P, M> {
    type V = Seq<(P, M)>;

    closed spec fn view(&self) -> Seq<(P, M)> {
        self.entries@
    }
}

impl<P, M> PrimitivesWithMaterials<P, M> {
    /// An empty collection.
    pub fn new() -> (r: Self)
        ensures
            r@ == Seq::<(P, M)>::empty(),
    {
        PrimitivesWithMaterials { entries: Vec::new() }
    }

    /// Appends a primitive with its material; earlier indices are unchanged.
    pub fn add(&mut self, primitive: P, material: M)
        ensures
            final(self)@ == old(self)@.push((primitive, material)),
    {
        self.entries.push((primitive, material));
    }

    /// Number of primitives.
    pub fn len(&self) -> (r: usize)
        ensures
            r == self@.len(),
    {
        self.entries.len()
    }

    /// The primitive at `index`.
    pub fn get_primitive(&self, index: usize) -> (r: &P)
        requires
            index < self@.len(),
        ensures
            *r == self@[index as int].0,
    {
        &self.entries[index].0
    }

    /// The material paired with the primitive at `index`.
    pub fn get_material(&self, index: usize) -> (r: &M)
        requires
            index < self@.len(),
        ensures
            *r == self@[index as int].1,
    {
        &self.entries[index].1
    }

    /// Picks the primitive closest to a ray's origin, given for each primitive,
    /// by index, the distance from the origin to its intersection with the ray
    /// (`None` where the ray misses it). NaN distances are passed over; among
    /// equal minima the first wins. `None` when no primitive is hit.
    pub fn closest_hit(&self, distances: &Vec<Option<Distance>>) -> (r: Option<usize>)
        requires
            distances@.len() == self@.len(),
        ensures
            r is None <==> forall|j: int| 0 <= j < distances@.len() ==> !is_hit(distances@, j),
            r matches Some(i) ==> is_closest(distances@, i as int),
    {
        let mut best: Option<usize> = None;
        let mut best_distance = Distance { bits: 0 };
        let mut i: usize = 0;
        while i < distances.len()
            invariant
                i <= distances@.len(),
                best is None <==> forall|j: int| 0 <= j < i ==> !is_hit(distances@, j),
                best matches Some(b) ==> {
                    &&& b < i
                    &&& is_hit(distances@, b as int)
                    &&& distances@[b as int] == Some(best_distance)
                    &&& forall|j: int|
                        0 <= j < b && is_hit(distances@, j) ==> distance_of(distances@, b as int)
                            < distance_of(distances@, j)
                    &&& forall|j: int|
                        b < j < i && is_hit(distances@, j) ==> distance_of(distances@, b as int)
                            <= distance_of(distances@, j)
                },
            decreases distances@.len() - i,
        {
            if let Some(d) = distances[i] {
                if !d.is_nan() {
                    match best {
                        None => {
                            best = Some(i);
                            best_distance = d;
                        },
                        Some(_) => {
                            if d.less_than(&best_distance) {
                                best = Some(i);
                                best_distance = d;
                            }
                        },
                    }
                }
            }
            assert(best is None ==> !is_hit(distances@, i as int));
            assert(best matches Some(b) ==> is_hit(distances@, b as int));
            i = i + 1;
        }
        best
    }
}

/// A scene to trace: its primitives with their materials, the material seen
/// where a ray hits nothing, how many bounces a ray may take and how many rays
/// each bounce spreads into.
pub struct Scene<P, M> {
    default_material: M,
    recursion_depth: usize,
    beam_rays_count: usize,
    triangles: PrimitivesWithMaterials<P, M>,
}

impl<P, M> Scene<P, M> {
    pub closed spec fn default_material(self) -> M {
        self.default_material
    }

    pub closed spec fn recursion_depth(self) -> nat {
        self.recursion_depth as nat
    }

    pub closed spec fn beam_rays_count(self) -> nat {
        self.beam_rays_count as nat
    }

    pub closed spec fn primitives(self) -> Seq<(P, M)> {
        self.triangles@
    }

    /// A scene without primitives.
    pub fn new(default_material: M, recursion_depth: usize, beam_rays_count: usize) -> (r: Self)
        ensures
            r.default_material() == default_material,
            r.recursion_depth() == recursion_depth,
            r.beam_rays_count() == beam_rays_count,
            r.primitives() == Seq::<(P, M)>::empty(),
    {
        Scene {
            default_material,
            recursion_depth,
            beam_rays_count,
            triangles: PrimitivesWithMaterials::new(),
        }
    }

    /// Adds a primitive with its material, after those already there.
    pub fn add_triangle(&mut self, triangle: P, material: M)
        ensures
            final(self).primitives() == old(self).primitives().push((triangle, material)),
            final(self).default_material() == old(self).default_material(),
            final(self).recursion_depth() == old(self).recursion_depth(),
            final(self).beam_rays_count() == old(self).beam_rays_count(),
    {
        self.triangles.add(triangle, material)
    }

    pub fn get_default_material(&self) -> (r: &M)
        ensures
            *r == self.default_material(),
    {
        &self.default_material
    }

    pub fn get_recursion_depth(&self) -> (r: usize)
        ensures
            r == self.recursion_depth(),
    {
        self.recursion_depth
    }

    pub fn get_beam_rays_count(&self) -> (r: usize)
        ensures
            r == self.beam_rays_count(),
    {
        self.beam_rays_count
    }

    pub fn get_primitives(&self) -> (r: &PrimitivesWithMaterials<P, M>)
        ensures
            r@ == self.primitives(),
    {
        &self.triangles
    }

    /// The control of a trace of one primary ray through this scene.
    pub fn tracer(&self) -> (r: Tracer)
        ensures
            r.well_formed(),
            r.max_depth() == self.recursion_depth(),
            r.beam_size() == self.beam_rays_count(),
            r.primitives() == self.primitives().len(),
            r.stack() == Seq::<Frame>::empty(),
            !r.is_finished(),
    {
        Tracer::new(self.recursion_depth, self.beam_rays_count, self.triangles.len())
    }
}

} // verus!
