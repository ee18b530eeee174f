//! The payoff matrix engine: a grid of small bounded values together with
//! its row minima, column maxima, the maximin/minimax scalars, and the
//! pure-strategy saddle point when one exists.

use vstd::prelude::*;

verus! {

/// Smallest value a randomized cell may take.
pub const VALUE_MIN: u8 = 2;

/// Largest value a randomized cell may take.
pub const VALUE_MAX: u8 = 12;

/// Smallest allowed row or column count.
pub const LENGTH_MIN: usize = 2;

/// Largest allowed row or column count.
pub const LENGTH_MAX: usize = 10;

/// Least element of a non-empty sequence.
pub open spec fn seq_min(s: Seq<u8>) -> u8
    recommends
        s.len() > 0,
    decreases s.len(),
{
    if s.len() <= 1 {
        s[0]
    } else if s.last() < seq_min(s.drop_last()) {
        s.last()
    } else {
        seq_min(s.drop_last())
    }
}

/// Greatest element of a non-empty sequence.
pub open spec fn seq_max(s: Seq<u8>) -> u8
    recommends
        s.len() > 0,
    decreases s.len(),
{
    if s.len() <= 1 {
        s[0]
    } else if s.last() > seq_max(s.drop_last()) {
        s.last()
    } else {
        seq_max(s.drop_last())
    }
}

/// The least element is attained and bounds every element from below.
pub proof fn lemma_seq_min_properties(s: Seq<u8>)
    requires
        s.len() > 0,
    ensures
        exists|k: int| 0 <= k < s.len() && s[k] == seq_min(s),
        forall|k: int| 0 <= k < s.len() ==> seq_min(s) <= #[trigger] s[k],
    decreases s.len(),
{
    if s.len() <= 1 {
        assert(s[0] == seq_min(s));
    } else {
        lemma_seq_min_properties(s.drop_last());
        let prev = s.drop_last();
        assert(forall|k: int| 0 <= k < prev.len() ==> prev[k] == s[k]);
        if s.last() < seq_min(prev) {
            assert(s[s.len() - 1] == seq_min(s));
        } else {
            let w = choose|k: int| 0 <= k < prev.len() && prev[k] == seq_min(prev);
            assert(s[w] == seq_min(s));
        }
    }
}

/// The greatest element is attained and bounds every element from above.
pub proof fn lemma_seq_max_properties(s: Seq<u8>)
    requires
        s.len() > 0,
    ensures
        exists|k: int| 0 <= k < s.len() && s[k] == seq_max(s),
        forall|k: int| 0 <= k < s.len() ==> #[trigger] s[k] <= seq_max(s),
    decreases s.len(),
{
    if s.len() <= 1 {
        assert(s[0] == seq_max(s));
    } else {
        lemma_seq_max_properties(s.drop_last());
        let prev = s.drop_last();
        assert(forall|k: int| 0 <= k < prev.len() ==> prev[k] == s[k]);
        if s.last() > seq_max(prev) {
            assert(s[s.len() - 1] == seq_max(s));
        } else {
            let w = choose|k: int| 0 <= k < prev.len() && prev[k] == seq_max(prev);
            assert(s[w] == seq_max(s));
        }
    }
}

/// Column `j` of a grid of rows, read top to bottom.
pub open spec fn column_of(m: Seq<Vec<u8>>, j: int) -> Seq<u8> {
    Seq::new(m.len(), |i: int| m[i]@[j])
}

/// Least element of a non-empty vector.
fn vec_min(v: &Vec<u8>) -> (r: u8)
    requires
        v@.len() > 0,
    ensures
        r == seq_min(v@),
{
    let mut cur: u8 = v[0];
    let mut k: usize = 1;
    while k < v.len()
        invariant
            1 <= k <= v@.len(),
            cur == seq_min(v@.take(k as int)),
        decreases v@.len() - k,
    {
        proof {
            assert(v@.take(k + 1 as int).drop_last() =~= v@.take(k as int));
            assert(v@.take(k + 1 as int).last() == v@[k as int]);
        }
        if v[k] < cur {
            cur = v[k];
        }
        k = k + 1;
    }
    proof {
        assert(v@.take(v@.len() as int) =~= v@);
    }
    cur
}

/// Greatest element of a non-empty vector.
fn vec_max(v: &Vec<u8>) -> (r: u8)
    requires
        v@.len() > 0,
    ensures
        r == seq_max(v@),
{
    let mut cur: u8 = v[0];
    let mut k: usize = 1;
    while k < v.len()
        invariant
            1 <= k <= v@.len(),
            cur == seq_max(v@.take(k as int)),
        decreases v@.len() - k,
    {
        proof {
            assert(v@.take(k + 1 as int).drop_last() =~= v@.take(k as int));
            assert(v@.take(k + 1 as int).last() == v@[k as int]);
        }
        if v[k] > cur {
            cur = v[k];
        }
        k = k + 1;
    }
    proof {
        assert(v@.take(v@.len() as int) =~= v@);
    }
    cur
}

/// Greatest element of column `j`, over all rows of the grid.
fn grid_col_max(m: &Vec<Vec<u8>>, j: usize) -> (r: u8)
    requires
        m@.len() > 0,
        forall|i: int| 0 <= i < m@.len() ==> j < (#[trigger] m@[i])@.len(),
    ensures
        r == seq_max(column_of(m@, j as int)),
{
    let col = Ghost(column_of(m@, j as int));
    let mut cur: u8 = m[0][j];
    let mut k: usize = 1;
    while k < m.len()
        invariant
            1 <= k <= m@.len(),
            col@ == column_of(m@, j as int),
            col@.len() == m@.len(),
            forall|i: int| 0 <= i < m@.len() ==> j < (#[trigger] m@[i])@.len(),
            cur == seq_max(col@.take(k as int)),
        decreases m@.len() - k,
    {
        proof {
            assert(col@.take(k + 1 as int).drop_last() =~= col@.take(k as int));
            assert(col@.take(k + 1 as int).last() == col@[k as int]);
            assert(col@[k as int] == m@[k as int]@[j as int]);
        }
        if m[k][j] > cur {
            cur = m[k][j];
        }
        k = k + 1;
    }
    proof {
        assert(col@.take(m@.len() as int) =~= col@);
    }
    cur
}

/// A zero-sum game payoff matrix with its derived analysis. `matrix` holds
/// `rows` rows of `columns` values each; the remaining fields cache the
/// result of `recalc` and are consistent with `matrix` whenever `analyzed`
/// holds.
#[derive(Default, Debug)]
pub struct Game {
    pub matrix: Vec<Vec<u8>>,
    pub a_min: Vec<u8>,
    pub b_max: Vec<u8>,
    pub max_min: u8,
    pub min_max: u8,
    pub saddle_point: Option<(usize, usize)>,
    pub rows: usize,
    pub columns: usize,
}

impl Game {
    /// Row `i` of the grid.
    pub open spec fn row_seq(self, i: int) -> Seq<u8> {
        self.matrix@[i]@
    }

    /// Column `j` of the grid.
    pub open spec fn col_seq(self, j: int) -> Seq<u8> {
        column_of(self.matrix@, j)
    }

    /// Shape invariant: a non-empty grid of `rows` rows by `columns` columns.
    pub open spec fn dims_ok(self) -> bool {
        &&& self.matrix@.len() == self.rows
        &&& self.rows > 0
        &&& self.columns > 0
        &&& forall|i: int|
            0 <= i < self.rows ==> (#[trigger] self.matrix@[i])@.len() == self.columns
    }

    /// Every cell lies within the configured value range.
    pub open spec fn cells_in_range(self) -> bool {
        forall|i: int, j: int|
            0 <= i < self.rows && 0 <= j < self.columns ==> VALUE_MIN <= #[trigger] self.row_seq(
                i,
            )[j] <= VALUE_MAX
    }

    /// The minima, maxima and the two scalars agree with the grid.
    pub open spec fn minima_consistent(self) -> bool {
        &&& self.a_min@.len() == self.rows
        &&& forall|i: int| 0 <= i < self.rows ==> #[trigger] self.a_min@[i] == seq_min(
            self.row_seq(i),
        )
        &&& self.b_max@.len() == self.columns
        &&& forall|j: int| 0 <= j < self.columns ==> #[trigger] self.b_max@[j] == seq_max(
            self.col_seq(j),
        )
        &&& self.max_min == seq_max(self.a_min@)
        &&& self.min_max == seq_min(self.b_max@)
    }

    /// Cell `(i, j)` attains the common guarantee value: it equals
    /// `max_min`, is the minimum of its row and the maximum of its column.
    pub open spec fn is_saddle_at(self, i: int, j: int) -> bool {
        &&& 0 <= i < self.rows
        &&& 0 <= j < self.columns
        &&& self.row_seq(i)[j] == self.max_min
        &&& self.a_min@[i] == self.max_min
        &&& self.b_max@[j] == self.min_max
    }

    /// `saddle_point` is the first saddle cell in row-major order when the
    /// two guarantee values coincide, and absent otherwise.
    pub open spec fn saddle_consistent(self) -> bool {
        match self.saddle_point {
            Some(p) => {
                &&& self.max_min == self.min_max
                &&& self.is_saddle_at(p.0 as int, p.1 as int)
                &&& forall|i: int, j: int|
                    0 <= i < self.rows && 0 <= j < self.columns && row_major_before(
                        i,
                        j,
                        p.0 as int,
                        p.1 as int,
                    ) ==> !self.is_saddle_at(i, j)
            },
            None => self.max_min != self.min_max,
        }
    }

    /// All derived fields agree with the current grid.
    pub open spec fn analyzed(self) -> bool {
        &&& self.minima_consistent()
        &&& self.saddle_consistent()
    }
}

/// Cell `(i1, j1)` comes before `(i2, j2)` in row-major order.
pub open spec fn row_major_before(i1: int, j1: int, i2: int, j2: int) -> bool {
    i1 < i2 || (i1 == i2 && j1 < j2)
}

/// Cell `(i, j)` of the grid equals `lo`, is its row's minimum `lo`, and
/// its column's maximum `hi`.
spec fn saddle_cell(
    m: Seq<Vec<u8>>,
    a_min: Seq<u8>,
    b_max: Seq<u8>,
    lo: u8,
    hi: u8,
    i: int,
    j: int,
) -> bool {
    &&& m[i]@[j] == lo
    &&& a_min[i] == lo
    &&& b_max[j] == hi
}

/// Weak duality: the row player's guaranteed floor never exceeds the
/// column player's guaranteed ceiling.
pub proof fn lemma_weak_duality(g: Game)
    requires
        g.dims_ok(),
        g.minima_consistent(),
    ensures
        g.max_min <= g.min_max,
{
    lemma_seq_max_properties(g.a_min@);
    let i0 = choose|k: int| 0 <= k < g.a_min@.len() && g.a_min@[k] == seq_max(g.a_min@);
    lemma_seq_min_properties(g.b_max@);
    let j0 = choose|k: int| 0 <= k < g.b_max@.len() && g.b_max@[k] == seq_min(g.b_max@);
    lemma_seq_min_properties(g.row_seq(i0));
    lemma_seq_max_properties(g.col_seq(j0));
    assert(g.col_seq(j0)[i0] == g.row_seq(i0)[j0]);
    assert(g.max_min == seq_min(g.row_seq(i0)));
    assert(seq_min(g.row_seq(i0)) <= g.row_seq(i0)[j0]);
    assert(g.col_seq(j0)[i0] <= seq_max(g.col_seq(j0)));
}

/// Recomputation is deterministic: two analyzed games over equal grids
/// agree on every derived field, so recomputing without mutating the grid
/// changes nothing.
pub proof fn lemma_analysis_unique(g1: Game, g2: Game)
    requires
        g1.dims_ok(),
        g2.dims_ok(),
        g1.analyzed(),
        g2.analyzed(),
        g1.rows == g2.rows,
        g1.columns == g2.columns,
        forall|i: int| 0 <= i < g1.rows ==> g1.row_seq(i) == g2.row_seq(i),
    ensures
        g1.a_min@ == g2.a_min@,
        g1.b_max@ == g2.b_max@,
        g1.max_min == g2.max_min,
        g1.min_max == g2.min_max,
        g1.saddle_point == g2.saddle_point,
{
    assert forall|i: int| 0 <= i < g1.rows implies g1.a_min@[i] == g2.a_min@[i] by {
        assert(g1.row_seq(i) == g2.row_seq(i));
    }
    assert(g1.a_min@ =~= g2.a_min@);
    assert forall|j: int| 0 <= j < g1.columns implies g1.b_max@[j] == g2.b_max@[j] by {
        assert forall|i: int| 0 <= i < g1.rows implies g1.col_seq(j)[i] == g2.col_seq(j)[i] by {
            assert(g1.row_seq(i) == g2.row_seq(i));
        }
        assert(g1.col_seq(j) =~= g2.col_seq(j));
    }
    assert(g1.b_max@ =~= g2.b_max@);
    assert forall|i: int, j: int|
        0 <= i < g1.rows && 0 <= j < g1.columns implies (g1.is_saddle_at(i, j)
        <==> g2.is_saddle_at(i, j)) by {
        assert(g1.row_seq(i) == g2.row_seq(i));
    }
    match (g1.saddle_point, g2.saddle_point) {
        (Some(p1), Some(p2)) => {
            if row_major_before(p1.0 as int, p1.1 as int, p2.0 as int, p2.1 as int) {
                assert(g2.is_saddle_at(p1.0 as int, p1.1 as int));
                assert(false);
            } else if row_major_before(p2.0 as int, p2.1 as int, p1.0 as int, p1.1 as int) {
                assert(g1.is_saddle_at(p2.0 as int, p2.1 as int));
                assert(false);
            }
            assert(p1 == p2);
        },
        (Some(p1), None) => {
            assert(false);
        },
        (None, Some(p2)) => {
            assert(false);
        },
        (None, None) => {},
    }
}

/// When the two guarantee values coincide at `v`, some cell attains it as
/// both its row's minimum and its column's maximum.
proof fn lemma_saddle_exists(m: Seq<Vec<u8>>, a_min: Seq<u8>, b_max: Seq<u8>, v: u8)
    requires
        m.len() > 0,
        a_min.len() == m.len(),
        b_max.len() > 0,
        forall|i: int| 0 <= i < m.len() ==> (#[trigger] m[i])@.len() == b_max.len(),
        forall|i: int| 0 <= i < m.len() ==> #[trigger] a_min[i] == seq_min(m[i]@),
        forall|j: int| 0 <= j < b_max.len() ==> #[trigger] b_max[j] == seq_max(column_of(m, j)),
        seq_max(a_min) == v,
        seq_min(b_max) == v,
    ensures
        exists|i: int, j: int|
            0 <= i < m.len() && 0 <= j < b_max.len() && saddle_cell(m, a_min, b_max, v, v, i, j),
{
    lemma_seq_max_properties(a_min);
    let i0 = choose|k: int| 0 <= k < a_min.len() && a_min[k] == seq_max(a_min);
    lemma_seq_min_properties(b_max);
    let j0 = choose|k: int| 0 <= k < b_max.len() && b_max[k] == seq_min(b_max);
    lemma_seq_min_properties(m[i0]@);
    lemma_seq_max_properties(column_of(m, j0));
    assert(column_of(m, j0)[i0] == m[i0]@[j0]);
    assert(v <= m[i0]@[j0]);
    assert(m[i0]@[j0] <= v);
    assert(saddle_cell(m, a_min, b_max, v, v, i0, j0));
}

impl Game {
    /// Recompute every derived field from the current grid: each row's
    /// minimum, each column's maximum, the maximin and minimax scalars,
    /// and the first saddle cell in row-major order when the two scalars
    /// coincide.
    pub fn recalc(&mut self)
        requires
            old(self).dims_ok(),
        ensures
            final(self).matrix == old(self).matrix,
            final(self).rows == old(self).rows,
            final(self).columns == old(self).columns,
            final(self).dims_ok(),
            final(self).analyzed(),
            final(self).max_min <= final(self).min_max,
    {
        let rows = self.rows;
        let columns = self.columns;

        let mut a_min: Vec<u8> = Vec::new();
        let mut i: usize = 0;
        while i < rows
            invariant
                i <= rows,
                a_min@.len() == i,
                forall|k: int| 0 <= k < i ==> #[trigger] a_min@[k] == seq_min(self.row_seq(k)),
            decreases rows - i,
        {
            let m = vec_min(&self.matrix[i]);
            a_min.push(m);
            i = i + 1;
        }

        let mut b_max: Vec<u8> = Vec::new();
        let mut j: usize = 0;
        while j < columns
            invariant
                j <= columns,
                b_max@.len() == j,
                forall|k: int| 0 <= k < j ==> #[trigger] b_max@[k] == seq_max(self.col_seq(k)),
            decreases columns - j,
        {
            let m = grid_col_max(&self.matrix, j);
            b_max.push(m);
            j = j + 1;
        }

        let max_min = vec_max(&a_min);
        let min_max = vec_min(&b_max);

        if max_min == min_max {
            let mut found: bool = false;
            let mut si: usize = 0;
            let mut sj: usize = 0;
            let mut i: usize = 0;
            while i < rows
                invariant
                    i <= rows,
                    !found ==> forall|a: int, b: int|
                        0 <= a < i && 0 <= b < columns ==> !saddle_cell(
                            self.matrix@,
                            a_min@,
                            b_max@,
                            max_min,
                            min_max,
                            a,
                            b,
                        ),
                    found ==> si < rows && sj < columns && saddle_cell(
                        self.matrix@,
                        a_min@,
                        b_max@,
                        max_min,
                        min_max,
                        si as int,
                        sj as int,
                    ),
                    found ==> forall|a: int, b: int|
                        0 <= a < rows && 0 <= b < columns && row_major_before(
                            a,
                            b,
                            si as int,
                            sj as int,
                        ) ==> !saddle_cell(
                            self.matrix@,
                            a_min@,
                            b_max@,
                            max_min,
                            min_max,
                            a,
                            b,
                        ),
                decreases rows - i,
            {
                let mut j: usize = 0;
                while j < columns
                    invariant
                        i < rows,
                        j <= columns,
                        !found ==> forall|a: int, b: int|
                            0 <= a < i && 0 <= b < columns ==> !saddle_cell(
                                self.matrix@,
                                a_min@,
                                b_max@,
                                max_min,
                                min_max,
                                a,
                                b,
                            ),
                        !found ==> forall|b: int|
                            0 <= b < j ==> !saddle_cell(
                                self.matrix@,
                                a_min@,
                                b_max@,
                                max_min,
                                min_max,
                                i as int,
                                b,
                            ),
                        found ==> si < rows && sj < columns && saddle_cell(
                            self.matrix@,
                            a_min@,
                            b_max@,
                            max_min,
                            min_max,
                            si as int,
                            sj as int,
                        ),
                        found ==> forall|a: int, b: int|
                            0 <= a < rows && 0 <= b < columns && row_major_before(
                                a,
                                b,
                                si as int,
                                sj as int,
                            ) ==> !saddle_cell(
                                self.matrix@,
                                a_min@,
                                b_max@,
                                max_min,
                                min_max,
                                a,
                                b,
                            ),
                    decreases columns - j,
                {
                    if !found && self.matrix[i][j] == max_min && a_min[i] == max_min && b_max[j]
                        == min_max {
                        found = true;
                        si = i;
                        sj = j;
                    }
                    j = j + 1;
                }
                i = i + 1;
            }
            proof {
                if !found {
                    lemma_saddle_exists(self.matrix@, a_min@, b_max@, max_min);
                    assert(false);
                }
            }
            self.saddle_point = Some((si, sj));
        } else {
            self.saddle_point = None;
        }

        self.a_min = a_min;
        self.b_max = b_max;
        self.max_min = max_min;
        self.min_max = min_max;
        proof {
            lemma_weak_duality(*self);
        }
    }

    /// Assign every cell a fresh value drawn uniformly from the configured
    /// range, then recompute the derived fields.
    pub fn randomize(&mut self)
        requires
            old(self).rows > 0,
            old(self).columns > 0,
        ensures
            final(self).rows == old(self).rows,
            final(self).columns == old(self).columns,
            final(self).dims_ok(),
            final(self).cells_in_range(),
            final(self).analyzed(),
            final(self).max_min <= final(self).min_max,
    {
        let rows = self.rows;
        let columns = self.columns;
        let mut m: Vec<Vec<u8>> = Vec::new();
        let mut i: usize = 0;
        while i < rows
            invariant
                i <= rows,
                m@.len() == i,
                forall|k: int| 0 <= k < i ==> (#[trigger] m@[k])@.len() == columns,
                forall|k: int, c: int|
                    0 <= k < i && 0 <= c < columns ==> VALUE_MIN <= #[trigger] m@[k]@[c]
                        <= VALUE_MAX,
            decreases rows - i,
        {
            let mut row: Vec<u8> = Vec::new();
            let mut j: usize = 0;
            while j < columns
                invariant
                    j <= columns,
                    row@.len() == j,
                    forall|c: int| 0 <= c < j ==> VALUE_MIN <= #[trigger] row@[c] <= VALUE_MAX,
                decreases columns - j,
            {
                row.push(crate::entropy::random_value_in(VALUE_MIN, VALUE_MAX));
                j = j + 1;
            }
            m.push(row);
            i = i + 1;
        }
        self.matrix = m;
        self.recalc();
    }

    /// A freshly randomized, analyzed game of the given dimensions.
    pub fn new(rows: usize, columns: usize) -> (g: Game)
        requires
            LENGTH_MIN <= rows <= LENGTH_MAX,
            LENGTH_MIN <= columns <= LENGTH_MAX,
        ensures
            g.rows == rows,
            g.columns == columns,
            g.dims_ok(),
            g.cells_in_range(),
            g.analyzed(),
            g.max_min <= g.min_max,
    {
        let mut g = Game {
            matrix: Vec::new(),
            a_min: Vec::new(),
            b_max: Vec::new(),
            max_min: 0,
            min_max: 0,
            saddle_point: None,
            rows: 0,
            columns: 0,
        };
        g.resize((rows, columns));
        g
    }

    /// Replace the grid with a freshly randomized one of the given
    /// dimensions and recompute the derived fields.
    pub fn resize(&mut self, length: (usize, usize))
        requires
            LENGTH_MIN <= length.0 <= LENGTH_MAX,
            LENGTH_MIN <= length.1 <= LENGTH_MAX,
        ensures
            final(self).rows == length.0,
            final(self).columns == length.1,
            final(self).dims_ok(),
            final(self).cells_in_range(),
            final(self).analyzed(),
            final(self).max_min <= final(self).min_max,
    {
        self.rows = length.0;
        self.columns = length.1;
        self.randomize();
    }

    /// The value at cell `(i, j)`.
    pub fn cell(&self, i: usize, j: usize) -> (v: u8)
        requires
            self.dims_ok(),
            i < self.rows,
            j < self.columns,
        ensures
            v == self.row_seq(i as int)[j as int],
    {
        self.matrix[i][j]
    }

    /// Overwrite one cell. The derived fields are left untouched and are
    /// stale until the next `recalc`.
    pub fn set_cell(&mut self, i: usize, j: usize, value: u8)
        requires
            old(self).dims_ok(),
            i < old(self).rows,
            j < old(self).columns,
        ensures
            final(self).rows == old(self).rows,
            final(self).columns == old(self).columns,
            final(self).dims_ok(),
            final(self).row_seq(i as int) == old(self).row_seq(i as int).update(
                j as int,
                value,
            ),
            forall|r: int|
                0 <= r < old(self).rows && r != i ==> final(self).row_seq(r) == old(self).row_seq(
                    r,
                ),
            final(self).a_min == old(self).a_min,
            final(self).b_max == old(self).b_max,
            final(self).max_min == old(self).max_min,
            final(self).min_max == old(self).min_max,
            final(self).saddle_point == old(self).saddle_point,
    {
        self.matrix[i][j] = value;
    }
}

} // verus!
