//! Places: addressable storage locations, named by a root variable and a
//! list of projections (field access, element access, dereference).
//!
//! Two places may denote overlapping storage when one path is a prefix of
//! the other. Element accesses of the same array are conservatively treated
//! as overlapping whatever their indices, a deliberate approximation that
//! trades precision for a simpler aliasing rule.

use vstd::prelude::*;

verus! {

/// One step from a place to one of its children: a named field, an array
/// element, or the target of a reference.
#[derive(Clone, Copy, PartialEq, Eq, Structural, Debug)]
pub enum Projection {
    /// Access to a named field, `a.f`; the field name is a number.
    Field(u64),
    /// Access to an array or slice element, `a[i]`.
    Index(u64),
    /// Dereference, `*a`.
    Deref,
}

/// A path naming one place: a root variable and the projections applied to
/// it, outermost first.
#[derive(Clone, PartialEq, Eq, Debug)]
pub struct PlacePath {
    /// The root variable, named by a number.
    pub root: u64,
    /// The projections applied to the root, outermost first.
    pub projections: Vec<Projection>,
}

/// The mathematical value of a `PlacePath`.
#[verifier::ext_equal]
pub struct PathModel {
    pub root: u64,
    pub projs: Seq<Projection>,
}

impl View for PlacePath {
    type V = PathModel;

    open spec fn view(&self) -> PathModel {
        PathModel { root: self.root, projs: self.projections@ }
    }
}

/// Whether two projections may reach the same storage: field and deref
/// steps must agree, while any two element accesses are conservatively
/// taken to coincide.
pub open spec fn proj_matches(a: Projection, b: Projection) -> bool {
    match (a, b) {
        (Projection::Field(x), Projection::Field(y)) => x == y,
        (Projection::Index(_), Projection::Index(_)) => true,
        (Projection::Deref, Projection::Deref) => true,
        _ => false,
    }
}

/// Whether `p` and `q` name exactly the same place.
pub open spec fn path_same(p: PathModel, q: PathModel) -> bool {
    p.root == q.root && p.projs == q.projs
}

/// Whether `p` names the place `q` or an ancestor of it, following the
/// paths step by step exactly (indices included).
pub open spec fn path_contains(p: PathModel, q: PathModel) -> bool {
    &&& p.root == q.root
    &&& p.projs.len() <= q.projs.len()
    &&& forall|i: int| 0 <= i < p.projs.len() ==> p.projs[i] == q.projs[i]
}

/// Whether `p` names a strict ancestor of `q`.
pub open spec fn path_strictly_contains(p: PathModel, q: PathModel) -> bool {
    path_contains(p, q) && p.projs.len() < q.projs.len()
}

/// Whether `p` may reach the place `q` or an ancestor of it, with element
/// accesses conservatively matching any index.
pub open spec fn loose_prefix(p: PathModel, q: PathModel) -> bool {
    &&& p.root == q.root
    &&& p.projs.len() <= q.projs.len()
    &&& forall|i: int| 0 <= i < p.projs.len() ==> proj_matches(p.projs[i], q.projs[i])
}

/// Whether the places named by `p` and `q` may overlap: one path is a
/// prefix of the other, up to the conservative treatment of indices.
pub open spec fn paths_overlap(p: PathModel, q: PathModel) -> bool {
    loose_prefix(p, q) || loose_prefix(q, p)
}

/// The path of the immediate parent of the place named by `p`.
pub open spec fn path_parent(p: PathModel) -> PathModel {
    PathModel { root: p.root, projs: p.projs.drop_last() }
}

/// The path made of the first `n` projections of `p`.
pub open spec fn path_prefix_model(p: PathModel, n: int) -> PathModel {
    PathModel { root: p.root, projs: p.projs.subrange(0, n) }
}

impl PlacePath {
    /// Builds the path of a root variable, with no projections.
    pub fn for_root(root: u64) -> (r: PlacePath)
        ensures
            r@ == (PathModel { root, projs: Seq::<Projection>::empty() }),
    {
        PlacePath { root, projections: Vec::new() }
    }

    /// Whether this path names exactly the same place as `other`.
    pub fn same_place(&self, other: &PlacePath) -> (r: bool)
        ensures
            r == path_same(self@, other@),
    {
        if self.root != other.root {
            return false;
        }
        if self.projections.len() != other.projections.len() {
            assert(self@.projs.len() != other@.projs.len());
            return false;
        }
        let n = self.projections.len();
        let mut i: usize = 0;
        while i < n
            invariant
                n == self.projections.len() == other.projections.len(),
                0 <= i <= n,
                forall|j: int| 0 <= j < i ==> self@.projs[j] == other@.projs[j],
            decreases n - i,
        {
            if self.projections[i] != other.projections[i] {
                return false;
            }
            i += 1;
        }
        assert(self@.projs =~= other@.projs);
        true
    }

    /// Makes an identical copy of this path.
    pub fn duplicate(&self) -> (r: PlacePath)
        ensures
            r@ == self@,
    {
        let mut projections: Vec<Projection> = Vec::new();
        let n = self.projections.len();
        let mut i: usize = 0;
        while i < n
            invariant
                n == self.projections.len(),
                0 <= i <= n,
                projections@ == self.projections@.subrange(0, i as int),
            decreases n - i,
        {
            projections.push(self.projections[i]);
            i += 1;
        }
        assert(projections@ =~= self.projections@);
        PlacePath { root: self.root, projections }
    }
}

/// Whether `p` names the place `q` or an ancestor of it; the executable
/// counterpart of `path_contains`.
pub fn place_contains(p: &PlacePath, q: &PlacePath) -> (r: bool)
    ensures
        r == path_contains(p@, q@),
{
    if p.root != q.root {
        return false;
    }
    let n = p.projections.len();
    if n > q.projections.len() {
        return false;
    }
    let mut i: usize = 0;
    while i < n
        invariant
            n == p.projections.len(),
            n <= q.projections.len(),
            0 <= i <= n,
            p.root == q.root,
            forall|j: int| 0 <= j < i ==> p@.projs[j] == q@.projs[j],
        decreases n - i,
    {
        if p.projections[i] != q.projections[i] {
            return false;
        }
        i += 1;
    }
    true
}

/// Whether `p` names a strict ancestor of `q`; the executable counterpart
/// of `path_strictly_contains`.
pub fn place_contains_strictly(p: &PlacePath, q: &PlacePath) -> (r: bool)
    ensures
        r == path_strictly_contains(p@, q@),
{
    place_contains(p, q) && p.projections.len() < q.projections.len()
}

/// Whether two projections may reach the same storage; the executable
/// counterpart of `proj_matches`.
pub fn proj_overlaps(a: &Projection, b: &Projection) -> (r: bool)
    ensures
        r == proj_matches(*a, *b),
{
    match (a, b) {
        (Projection::Field(x), Projection::Field(y)) => x == y,
        (Projection::Index(_), Projection::Index(_)) => true,
        (Projection::Deref, Projection::Deref) => true,
        _ => false,
    }
}

/// Whether the places named by `p` and `q` may overlap; the executable
/// counterpart of `paths_overlap`.
pub fn places_overlap(p: &PlacePath, q: &PlacePath) -> (r: bool)
    ensures
        r == paths_overlap(p@, q@),
{
    if p.root != q.root {
        return false;
    }
    let n = if p.projections.len() <= q.projections.len() {
        p.projections.len()
    } else {
        q.projections.len()
    };
    let mut i: usize = 0;
    while i < n
        invariant
            n <= p.projections.len(),
            n <= q.projections.len(),
            n == if p.projections.len() <= q.projections.len() {
                p.projections.len()
            } else {
                q.projections.len()
            },
            0 <= i <= n,
            p.root == q.root,
            forall|j: int| 0 <= j < i ==> proj_matches(p@.projs[j], q@.projs[j]),
        decreases n - i,
    {
        if !proj_overlaps(&p.projections[i], &q.projections[i]) {
            assert(!loose_prefix(p@, q@));
            assert(!loose_prefix(q@, p@));
            return false;
        }
        i += 1;
    }
    true
}

} // verus!
