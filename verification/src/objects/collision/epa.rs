use vstd::prelude::*;

use crate::linal::rank::{lemma_rank_orders_numbers, rank, scaled_value};

verus! {

/// The most rounds of expansion that a penetration search is given.
pub const EPA_MAX_ITERS: usize = 64;

/// The index at which the edge that starts at vertex `i` of a closed polygon
/// of `n` vertices ends: the next one, and the first after the last.
pub open spec fn edge_end_of(i: int, n: int) -> int {
    (i + 1) % n
}

/// Whether `i` is where the least of `keys` stands, and first stands where
/// it stands more than once.
pub open spec fn first_least_at(keys: Seq<i32>, i: int) -> bool {
    &&& 0 <= i < keys.len()
    &&& forall|j: int| 0 <= j < keys.len() ==> keys[i] <= keys[j]
    &&& forall|j: int| 0 <= j < i ==> keys[i] < keys[j]
}

/// The index of the edge nearest the origin, given the distance of each edge
/// as a key that grows with it; an edge that is not to be chosen has the
/// greatest key there is. Of several nearest edges the first is taken;
/// without edges the index is zero.
pub fn first_least(keys: &[i32]) -> (index: usize)
    ensures
        keys@.len() > 0 ==> first_least_at(keys@, index as int),
        keys@.len() == 0 ==> index == 0,
{
    let mut best: i32 = i32::MAX;
    let mut index: usize = 0;
    let mut i: usize = 0;
    while i < keys.len()
        invariant
            i <= keys@.len(),
            i == 0 ==> index == 0 && best == i32::MAX,
            i > 0 ==> index < i && best == keys@[index as int],
            forall|j: int| 0 <= j < i ==> best <= keys@[j],
            forall|j: int| 0 <= j < index ==> best < keys@[j],
        decreases keys@.len() - i,
    {
        let key: i32 = keys[i];
        if key < best {
            best = key;
            index = i;
        }
        i += 1;
    }
    index
}

/// Where the keys are the ranks of the bit patterns of the edges' distances
/// from the origin, the edge that `first_least` picks is nearest: none is
/// nearer, and none before it is as near.
pub proof fn lemma_first_least_is_nearest(away: Seq<u32>, keys: Seq<i32>, i: int)
    requires
        keys.len() == away.len(),
        forall|j: int| 0 <= j < keys.len() ==> keys[j] == rank(#[trigger] away[j]),
        first_least_at(keys, i),
    ensures
        forall|j: int|
            0 <= j < away.len() ==> scaled_value(away[i]) <= scaled_value(#[trigger] away[j]),
        forall|j: int| 0 <= j < i ==> scaled_value(away[i]) < scaled_value(#[trigger] away[j]),
{
    assert forall|j: int| 0 <= j < away.len() implies scaled_value(away[i]) <= scaled_value(
        #[trigger] away[j],
    ) by {
        lemma_rank_orders_numbers(away[j], away[i]);
        lemma_rank_orders_numbers(away[i], away[j]);
        assert(keys[i] <= keys[j]);
    }
    assert forall|j: int| 0 <= j < i implies scaled_value(away[i]) < scaled_value(
        #[trigger] away[j],
    ) by {
        lemma_rank_orders_numbers(away[i], away[j]);
        assert(keys[i] < keys[j]);
    }
}

/// The polytope of the penetration search: a closed polygon of vertices of
/// the Minkowski difference, the last joined to the first, and the number of
/// rounds that have grown it.
pub struct Polytope<V> {
    verts: Vec<V>,
    seed: usize,
    rounds: usize,
}

impl<V> View for Polytope<V> {
    type V = Seq<V>;

    /// The vertices in polygon order.
    closed spec fn view(&self) -> Seq<V> {
        self.verts@
    }
}

impl<V> Polytope<V> {
    /// The number of rounds that have grown the polytope.
    pub closed spec fn grown(self) -> nat {
        self.rounds as nat
    }

    /// The number of vertices that the polytope began with.
    pub closed spec fn started_with(self) -> nat {
        self.seed as nat
    }

    /// What holds of every polytope: it began with at least three vertices,
    /// each round has added one, and there have not been more rounds than a
    /// search may have.
    pub open spec fn wf(self) -> bool {
        &&& self.started_with() >= 3
        &&& self@.len() == self.started_with() + self.grown()
        &&& self.grown() <= EPA_MAX_ITERS
    }

    /// Takes the simplex that ended the intersection test, already in
    /// polygon order. Fewer than three vertices are no polygon: there is then
    /// nothing to search.
    pub fn begin(simplex: Vec<V>) -> (p: Option<Self>)
        ensures
            p is Some <==> simplex@.len() >= 3,
            p matches Some(poly) ==> poly.wf() && poly@ == simplex@ && poly.grown() == 0
                && poly.started_with() == simplex@.len(),
    {
        let seed: usize = simplex.len();
        if seed < 3 {
            return None;
        }
        Some(Self { verts: simplex, seed, rounds: 0 })
    }

    /// The number of vertices.
    pub fn len(&self) -> (n: usize)
        ensures
            n == self@.len(),
    {
        self.verts.len()
    }

    /// The vertices in polygon order.
    pub fn vertices(&self) -> (v: &Vec<V>)
        ensures
            v@ == self@,
    {
        &self.verts
    }

    /// Whether the search has a round left.
    pub fn may_expand(&self) -> (more: bool)
        ensures
            more == (self.grown() < EPA_MAX_ITERS),
    {
        self.rounds < EPA_MAX_ITERS
    }

    /// The vertex at which the edge that starts at vertex `i` ends.
    pub fn edge_end(&self, i: usize) -> (j: usize)
        requires
            i < self@.len(),
        ensures
            j == edge_end_of(i as int, self@.len() as int),
            j < self@.len(),
    {
        let n: usize = self.verts.len();
        proof {
            if i + 1 == n {
                vstd::arithmetic::div_mod::lemma_mod_self_0(n as int);
            } else {
                vstd::arithmetic::div_mod::lemma_small_mod((i + 1) as nat, n as nat);
            }
        }
        if i + 1 == n {
            0
        } else {
            i + 1
        }
    }

    /// Grows the polytope by the support point found beyond the edge that
    /// starts at vertex `i`: the point takes the place where that edge ends,
    /// and what stood there and behind moves up by one.
    pub fn expand(&mut self, i: usize, point: V)
        requires
            old(self).wf(),
            i < old(self)@.len(),
            old(self).grown() < EPA_MAX_ITERS,
        ensures
            final(self).wf(),
            final(self)@ == old(self)@.insert(
                edge_end_of(i as int, old(self)@.len() as int),
                point,
            ),
            final(self).grown() == old(self).grown() + 1,
            final(self).started_with() == old(self).started_with(),
    {
        let j: usize = self.edge_end(i);
        self.verts.insert(j, point);
        self.rounds = self.rounds + 1;
    }
}

/// The contact pairs of a finished search. The first is the pair found on
/// the closest edge. The support point that ended the search adds a second
/// one where the first lies strictly inside the edge and the support point is
/// neither of the edge's ends.
pub fn contact_pairs<P>(on_edge: (P, P), support: (P, P), inside_edge: bool, apart_from_ends: bool) -> (contacts:
    Vec<(P, P)>)
    ensures
        contacts@ == if inside_edge && apart_from_ends {
            seq![on_edge, support]
        } else {
            seq![on_edge]
        },
{
    let mut contacts: Vec<(P, P)> = Vec::new();
    contacts.push(on_edge);
    if inside_edge {
        if apart_from_ends {
            contacts.push(support);
        }
    }
    contacts
}

} // verus!
