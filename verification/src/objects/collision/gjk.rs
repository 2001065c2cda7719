use vstd::prelude::*;

use crate::linal::rank::{lemma_rank_orders_numbers, rank, scaled_value};

verus! {

/// What became of a support point offered to the simplex.
#[derive(Debug, Clone, Copy, PartialEq, Eq, Structural)]
pub enum Probe {
    /// The point does not lie past the origin along the search direction: no
    /// point of the difference does, the shapes are apart, the search is over.
    Apart,
    /// The point was taken and the simplex is a segment. Search on along the
    /// segment's perpendicular that faces the origin.
    Segment,
    /// The point was taken and the simplex is a triangle. Test its two new
    /// edges and call `reduce`.
    Triangle,
}

/// Where the origin lies, seen from a triangle whose newest vertex is A, the
/// one before it B and the oldest C.
#[derive(Debug, Clone, Copy, PartialEq, Eq, Structural)]
pub enum Region {
    /// Outside edge AB. C has left the simplex; search on along AB's
    /// outward normal.
    BeyondAb,
    /// Outside edge AC. B has left the simplex; search on along AC's
    /// outward normal.
    BeyondAc,
    /// Inside: the shapes overlap, the search is over.
    Inside,
}

/// The region that the two side tests of a triangle speak for. The test of
/// AB is looked at first.
pub open spec fn region_of(ab_faces_origin: bool, ac_faces_origin: bool) -> Region {
    if ab_faces_origin {
        Region::BeyondAb
    } else if ac_faces_origin {
        Region::BeyondAc
    } else {
        Region::Inside
    }
}

/// The simplex after a triangle has been cut down to the edge next to `region`.
pub open spec fn reduced<V>(s: Seq<V>, region: Region) -> Seq<V> {
    match region {
        Region::BeyondAb => s.remove(0),
        Region::BeyondAc => s.remove(1),
        Region::Inside => s,
    }
}

/// Whether `i` is where the greatest of `keys` stands, and first stands
/// where it stands more than once.
pub open spec fn first_greatest_at(keys: Seq<i32>, i: int) -> bool {
    &&& 0 <= i < keys.len()
    &&& forall|j: int| 0 <= j < keys.len() ==> keys[j] <= keys[i]
    &&& forall|j: int| 0 <= j < i ==> keys[j] < keys[i]
}

/// The index of the vertex furthest along a direction, given how far along
/// it each vertex lies as a key that grows with that distance. Of several
/// that lie furthest the first is taken; without vertices the index is zero.
pub fn first_greatest(keys: &[i32]) -> (index: usize)
    ensures
        keys@.len() > 0 ==> first_greatest_at(keys@, index as int),
        keys@.len() == 0 ==> index == 0,
{
    let mut best: i32 = i32::MIN;
    let mut index: usize = 0;
    let mut i: usize = 0;
    while i < keys.len()
        invariant
            i <= keys@.len(),
            i == 0 ==> index == 0 && best == i32::MIN,
            i > 0 ==> index < i && best == keys@[index as int],
            forall|j: int| 0 <= j < i ==> keys@[j] <= best,
            forall|j: int| 0 <= j < index ==> keys@[j] < best,
        decreases keys@.len() - i,
    {
        let key: i32 = keys[i];
        if key > best {
            best = key;
            index = i;
        }
        i += 1;
    }
    index
}

/// Where the keys are the ranks of the bit patterns of how far along the
/// direction each vertex lies, the vertex that `first_greatest` picks lies
/// furthest along: none lies further, and none before it lies as far.
pub proof fn lemma_first_greatest_is_furthest(along: Seq<u32>, keys: Seq<i32>, i: int)
    requires
        keys.len() == along.len(),
        forall|j: int| 0 <= j < keys.len() ==> keys[j] == rank(#[trigger] along[j]),
        first_greatest_at(keys, i),
    ensures
        forall|j: int|
            0 <= j < along.len() ==> scaled_value(#[trigger] along[j]) <= scaled_value(along[i]),
        forall|j: int| 0 <= j < i ==> scaled_value(#[trigger] along[j]) < scaled_value(along[i]),
{
    assert forall|j: int| 0 <= j < along.len() implies scaled_value(#[trigger] along[j])
        <= scaled_value(along[i]) by {
        lemma_rank_orders_numbers(along[j], along[i]);
        lemma_rank_orders_numbers(along[i], along[j]);
        assert(keys[j] <= keys[i]);
    }
    assert forall|j: int| 0 <= j < i implies scaled_value(#[trigger] along[j]) < scaled_value(
        along[i],
    ) by {
        lemma_rank_orders_numbers(along[j], along[i]);
        assert(keys[j] < keys[i]);
    }
}

/// The simplex of the intersection test: one to three vertices of the
/// Minkowski difference, oldest first.
pub struct Simplex<V> {
    verts: Vec<V>,
}

impl<V> View for Simplex<V> {
    type V = Seq<V>;

    /// The vertices, oldest first.
    closed spec fn view(&self) -> Seq<V> {
        self.verts@
    }
}

impl<V> Simplex<V> {
    /// What holds of every simplex: it is a point, a segment or a triangle.
    pub open spec fn wf(self) -> bool {
        1 <= self@.len() <= 3
    }

    /// The simplex that is the point `first`.
    pub fn seed(first: V) -> (s: Self)
        ensures
            s.wf(),
            s@ == seq![first],
    {
        let mut verts: Vec<V> = Vec::with_capacity(3);
        verts.push(first);
        Self { verts }
    }

    /// The number of vertices: 1, 2 or 3.
    pub fn len(&self) -> (n: usize)
        ensures
            n == self@.len(),
    {
        self.verts.len()
    }

    /// The vertices, oldest first.
    pub fn vertices(&self) -> (v: &Vec<V>)
        ensures
            v@ == self@,
    {
        &self.verts
    }

    /// Gives up the simplex for its vertices, oldest first.
    pub fn into_vertices(self) -> (v: Vec<V>)
        ensures
            v@ == self@,
    {
        self.verts
    }

    /// Offers the support point found along the search direction.
    /// `passes_origin` says whether it lies strictly past the origin along
    /// that direction. A point that does not is turned away and ends the
    /// search; one that does becomes the newest vertex.
    pub fn offer(&mut self, point: V, passes_origin: bool) -> (probe: Probe)
        requires
            old(self).wf(),
            old(self)@.len() <= 2,
        ensures
            final(self).wf(),
            !passes_origin ==> probe == Probe::Apart && final(self)@ == old(self)@,
            passes_origin ==> final(self)@ == old(self)@.push(point),
            passes_origin && old(self)@.len() == 1 ==> probe == Probe::Segment,
            passes_origin && old(self)@.len() == 2 ==> probe == Probe::Triangle,
    {
        if !passes_origin {
            return Probe::Apart;
        }
        self.verts.push(point);
        if self.verts.len() == 2 {
            Probe::Segment
        } else {
            Probe::Triangle
        }
    }

    /// Cuts a triangle down by its two side tests: whether the outward normal
    /// of edge AB faces the origin, and whether that of edge AC does. The
    /// vertex opposite the edge that faces the origin leaves; where neither
    /// faces it the triangle holds the origin and stays whole.
    pub fn reduce(&mut self, ab_faces_origin: bool, ac_faces_origin: bool) -> (region: Region)
        requires
            old(self)@.len() == 3,
        ensures
            final(self).wf(),
            region == region_of(ab_faces_origin, ac_faces_origin),
            final(self)@ == reduced(old(self)@, region),
            region != Region::Inside ==> final(self)@.len() == 2,
            region == Region::Inside ==> final(self)@.len() == 3,
    {
        if ab_faces_origin {
            self.verts.remove(0);
            return Region::BeyondAb;
        }
        if ac_faces_origin {
            self.verts.remove(1);
            return Region::BeyondAc;
        }
        Region::Inside
    }
}

} // verus!
