//! The graph adjacency store: a lower-triangular boolean matrix recording
//! the edges of an undirected, loopless graph, with a circular vertex
//! layout for rendering.

use vstd::prelude::*;

verus! {

/// Smallest allowed vertex count.
pub const NODES_MIN: usize = 1;

/// Largest allowed vertex count.
pub const NODES_MAX: usize = 15;

/// Adjacency store for an undirected, loopless graph. Row `i` of `inner`
/// has `i + 1` slots; the slot at `(i, j)` with `j < i` is the canonical
/// record of the unordered edge `{i, j}`, and the diagonal slot is never
/// set.
#[derive(Default)]
pub struct Matrix {
    pub inner: Vec<Vec<bool>>,
    pub vertices: usize,
}

impl Matrix {
    /// Shape invariant: one triangular row per vertex, diagonal clear.
    pub open spec fn wf(self) -> bool {
        &&& self.inner@.len() == self.vertices
        &&& forall|i: int|
            0 <= i < self.vertices ==> (#[trigger] self.inner@[i])@.len() == i + 1
        &&& forall|i: int| 0 <= i < self.vertices ==> !(#[trigger] self.inner@[i])@[i]
    }

    /// Presence of the undirected edge between vertices `i` and `j`,
    /// read from the canonical lower-triangular slot.
    pub open spec fn edge(self, i: int, j: int) -> bool {
        if i >= j {
            self.inner@[i]@[j]
        } else {
            self.inner@[j]@[i]
        }
    }

    /// A store for `nodes` vertices with every edge absent.
    pub fn new(nodes: usize) -> (m: Matrix)
        requires
            NODES_MIN <= nodes <= NODES_MAX,
        ensures
            m.vertices == nodes,
            m.wf(),
            forall|i: int, j: int| 0 <= i < nodes && 0 <= j < nodes ==> !m.edge(i, j),
    {
        let mut m = Matrix { inner: Vec::new(), vertices: 0 };
        m.resize(nodes);
        m
    }

    /// Replace the store with one sized for `nodes` vertices, every edge
    /// absent.
    pub fn resize(&mut self, nodes: usize)
        requires
            NODES_MIN <= nodes <= NODES_MAX,
        ensures
            final(self).vertices == nodes,
            final(self).wf(),
            forall|i: int, j: int| 0 <= i < nodes && 0 <= j < nodes ==> !final(self).edge(i, j),
    {
        self.vertices = nodes;
        self.inner = Vec::new();
        let mut i: usize = 0;
        while i < nodes
            invariant
                i <= nodes,
                self.vertices == nodes,
                self.inner@.len() == i,
                forall|k: int| 0 <= k < i ==> (#[trigger] self.inner@[k])@.len() == k + 1,
                forall|k: int, c: int| 0 <= k < i && 0 <= c <= k ==> !self.inner@[k]@[c],
            decreases nodes - i,
        {
            let mut row: Vec<bool> = Vec::new();
            let mut k: usize = 0;
            while k < i + 1
                invariant
                    k <= i + 1,
                    i < nodes,
                    row@.len() == k,
                    forall|c: int| 0 <= c < k ==> !row@[c],
                decreases i + 1 - k,
            {
                row.push(false);
                k = k + 1;
            }
            self.inner.push(row);
            i = i + 1;
        }
    }

    /// Redraw the presence of every edge at random with an even coin flip;
    /// self-loops stay absent.
    pub fn randomize(&mut self)
        requires
            old(self).wf(),
        ensures
            final(self).vertices == old(self).vertices,
            final(self).wf(),
    {
        let n = self.vertices;
        let mut fresh: Vec<Vec<bool>> = Vec::new();
        let mut i: usize = 0;
        while i < n
            invariant
                i <= n,
                fresh@.len() == i,
                forall|k: int| 0 <= k < i ==> (#[trigger] fresh@[k])@.len() == k + 1,
                forall|k: int| 0 <= k < i ==> !(#[trigger] fresh@[k])@[k],
            decreases n - i,
        {
            let mut row: Vec<bool> = Vec::new();
            let mut j: usize = 0;
            while j < i
                invariant
                    j <= i,
                    row@.len() == j,
                decreases i - j,
            {
                row.push(crate::entropy::random_edge_state());
                j = j + 1;
            }
            row.push(false);
            fresh.push(row);
            i = i + 1;
        }
        self.inner = fresh;
    }

    /// Make every edge between distinct vertices present.
    pub fn fill(&mut self)
        requires
            old(self).wf(),
        ensures
            final(self).vertices == old(self).vertices,
            final(self).wf(),
            forall|i: int, j: int|
                0 <= i < final(self).vertices && 0 <= j < final(self).vertices && i != j
                    ==> final(self).edge(i, j),
    {
        let n = self.vertices;
        let mut fresh: Vec<Vec<bool>> = Vec::new();
        let mut i: usize = 0;
        while i < n
            invariant
                i <= n,
                fresh@.len() == i,
                forall|k: int| 0 <= k < i ==> (#[trigger] fresh@[k])@.len() == k + 1,
                forall|k: int, c: int| 0 <= k < i && 0 <= c <= k ==> fresh@[k]@[c] == (c < k),
            decreases n - i,
        {
            let mut row: Vec<bool> = Vec::new();
            let mut j: usize = 0;
            while j < i
                invariant
                    j <= i,
                    row@.len() == j,
                    forall|c: int| 0 <= c < j ==> row@[c],
                decreases i - j,
            {
                row.push(true);
                j = j + 1;
            }
            row.push(false);
            fresh.push(row);
            i = i + 1;
        }
        self.inner = fresh;
    }

    /// Clear every edge.
    pub fn empty(&mut self)
        requires
            old(self).wf(),
        ensures
            final(self).vertices == old(self).vertices,
            final(self).wf(),
            forall|i: int, j: int|
                0 <= i < final(self).vertices && 0 <= j < final(self).vertices
                    ==> !final(self).edge(i, j),
    {
        let n = self.vertices;
        let mut fresh: Vec<Vec<bool>> = Vec::new();
        let mut i: usize = 0;
        while i < n
            invariant
                i <= n,
                fresh@.len() == i,
                forall|k: int| 0 <= k < i ==> (#[trigger] fresh@[k])@.len() == k + 1,
                forall|k: int, c: int| 0 <= k < i && 0 <= c <= k ==> !fresh@[k]@[c],
            decreases n - i,
        {
            let mut row: Vec<bool> = Vec::new();
            let mut k: usize = 0;
            while k < i + 1
                invariant
                    k <= i + 1,
                    i < n,
                    row@.len() == k,
                    forall|c: int| 0 <= c < k ==> !row@[c],
                decreases i + 1 - k,
            {
                row.push(false);
                k = k + 1;
            }
            fresh.push(row);
            i = i + 1;
        }
        self.inner = fresh;
    }

    /// Whether the undirected edge between the distinct vertices `i` and
    /// `j` is present; the query order does not matter.
    pub fn has_edge(&self, i: usize, j: usize) -> (r: bool)
        requires
            self.wf(),
            i < self.vertices,
            j < self.vertices,
            i != j,
        ensures
            r == self.edge(i as int, j as int),
    {
        if j < i {
            self.inner[i][j]
        } else {
            self.inner[j][i]
        }
    }

    /// Set the presence of the undirected edge between vertices `i` and
    /// `j`; every other edge is untouched. Self-loops are not modeled, so
    /// with `i == j` the store is left as it is.
    pub fn set_edge(&mut self, i: usize, j: usize, present: bool)
        requires
            old(self).wf(),
            i < old(self).vertices,
            j < old(self).vertices,
        ensures
            final(self).vertices == old(self).vertices,
            final(self).wf(),
            i != j ==> final(self).edge(i as int, j as int) == present,
            i != j ==> final(self).edge(j as int, i as int) == present,
            i == j ==> final(self).inner@ == old(self).inner@,
            forall|a: int, b: int|
                0 <= a < old(self).vertices && 0 <= b < old(self).vertices && !(a == i && b == j)
                    && !(a == j && b == i) ==> final(self).edge(a, b) == old(self).edge(a, b),
    {
        if j < i {
            self.inner[i][j] = present;
        } else if i < j {
            self.inner[j][i] = present;
        }
    }

    /// The present edges as canonical pairs `(i, j)` with `j < i`, in
    /// row-major order of the triangular storage.
    pub fn edges(&self) -> (r: Vec<(usize, usize)>)
        requires
            self.wf(),
        ensures
            forall|k: int|
                0 <= k < r@.len() ==> (#[trigger] r@[k]).1 < r@[k].0 < self.vertices && self.edge(
                    r@[k].0 as int,
                    r@[k].1 as int,
                ),
            forall|a: int, b: int|
                0 <= b < a < self.vertices && #[trigger] self.edge(a, b) ==> exists|k: int|
                    0 <= k < r@.len() && r@[k] == ((a as usize), (b as usize)),
            forall|k1: int, k2: int|
                0 <= k1 < k2 < r@.len() ==> (#[trigger] r@[k1]).0 < (#[trigger] r@[k2]).0 || (
                r@[k1].0 == r@[k2].0 && r@[k1].1 < r@[k2].1),
    {
        let n = self.vertices;
        let mut r: Vec<(usize, usize)> = Vec::new();
        let mut i: usize = 0;
        while i < n
            invariant
                i <= n,
                forall|k: int|
                    0 <= k < r@.len() ==> (#[trigger] r@[k]).1 < r@[k].0 < i && self.edge(
                        r@[k].0 as int,
                        r@[k].1 as int,
                    ),
                forall|a: int, b: int|
                    0 <= b < a < i && #[trigger] self.edge(a, b) ==> exists|k: int|
                        0 <= k < r@.len() && r@[k] == ((a as usize), (b as usize)),
                forall|k1: int, k2: int|
                    0 <= k1 < k2 < r@.len() ==> (#[trigger] r@[k1]).0 < (#[trigger] r@[k2]).0 || (
                    r@[k1].0 == r@[k2].0 && r@[k1].1 < r@[k2].1),
            decreases n - i,
        {
            let mut j: usize = 0;
            while j < i
                invariant
                    j <= i,
                    i < n,
                    forall|k: int|
                        0 <= k < r@.len() ==> (#[trigger] r@[k]).1 < r@[k].0 < self.vertices
                            && self.edge(r@[k].0 as int, r@[k].1 as int),
                    forall|k: int|
                        0 <= k < r@.len() ==> (#[trigger] r@[k]).0 < i || (r@[k].0 == i && r@[k].1
                            < j),
                    forall|a: int, b: int|
                        0 <= b < a < i && #[trigger] self.edge(a, b) ==> exists|k: int|
                            0 <= k < r@.len() && r@[k] == ((a as usize), (b as usize)),
                    forall|b: int|
                        0 <= b < j && #[trigger] self.edge(i as int, b) ==> exists|k: int|
                            0 <= k < r@.len() && r@[k] == (i, (b as usize)),
                    forall|k1: int, k2: int|
                        0 <= k1 < k2 < r@.len() ==> (#[trigger] r@[k1]).0 < (#[trigger] r@[k2]).0
                            || (r@[k1].0 == r@[k2].0 && r@[k1].1 < r@[k2].1),
                decreases i - j,
            {
                let present = self.inner[i][j];
                let ghost r_old = r@;
                let ghost jj = j as int;
                if present {
                    r.push((i, j));
                }
                j = j + 1;
                proof {
                    assert forall|a: int, b: int|
                        0 <= b < a < i && #[trigger] self.edge(a, b) implies exists|k: int|
                        0 <= k < r@.len() && r@[k] == ((a as usize), (b as usize)) by {
                        let k0 = choose|k: int|
                            0 <= k < r_old.len() && r_old[k] == ((a as usize), (b as usize));
                        assert(r@[k0] == ((a as usize), (b as usize)));
                    }
                    assert forall|b: int|
                        0 <= b < j && #[trigger] self.edge(i as int, b) implies exists|k: int|
                        0 <= k < r@.len() && r@[k] == (i, (b as usize)) by {
                        if b < jj {
                            let k0 = choose|k: int|
                                0 <= k < r_old.len() && r_old[k] == (i, (b as usize));
                            assert(r@[k0] == (i, (b as usize)));
                        } else {
                            assert(present == self.inner@[i as int]@[jj]);
                            assert(r@[r@.len() - 1] == (i, (jj as usize)));
                        }
                    }
                }
            }
            i = i + 1;
        }
        r
    }
}

/// Edge symmetry: querying an unordered pair in either order gives the
/// same answer, because both orders read the one canonical slot.
pub proof fn lemma_edge_symmetric(m: Matrix, i: int, j: int)
    ensures
        m.edge(i, j) == m.edge(j, i),
{
}

/// Radius of the circular vertex layout, in hundredths of a unit: a step
/// function of the vertex count.
pub open spec fn spec_layout_radius_hundredths(count: int) -> int {
    if count == 1 {
        0
    } else if 2 <= count <= 8 {
        100
    } else if 9 <= count <= 12 {
        125
    } else if 13 <= count <= 15 {
        150
    } else {
        200
    }
}

impl Matrix {
    /// Radius of the circle on which the vertices are laid out, in
    /// hundredths of a unit: a single vertex sits at the origin, and the
    /// circle widens in steps as the vertex count grows.
    pub fn layout_radius_hundredths(&self) -> (r: u32)
        ensures
            r == spec_layout_radius_hundredths(self.vertices as int),
    {
        if self.vertices == 1 {
            0
        } else if 2 <= self.vertices && self.vertices <= 8 {
            100
        } else if 9 <= self.vertices && self.vertices <= 12 {
            125
        } else if 13 <= self.vertices && self.vertices <= 15 {
            150
        } else {
            200
        }
    }
}

} // verus!
