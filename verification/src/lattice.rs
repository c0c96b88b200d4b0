//! The spin lattice: a periodic square grid of two-state spins.
//!
//! Cells are stored row-major in a flat vector; the cell at row `r`, column
//! `c` of a lattice of side `n` sits at flat index `r * n + c`. Every spin is
//! +1 or -1, and flipping a cell only ever negates it. Energies are reported
//! in integer coupling units: the coupling constant J multiplies them only in
//! the milli-unit results, so all grid arithmetic is exact.

use vstd::prelude::*;
use vstd::pervasive::VecAdditionalExecFns;

use crate::config::MAX_LATTICE_SIZE;
use crate::rational::Rational;
use crate::rng::rng_below;

verus! {

/// A spin value is one of the two allowed states.
pub open spec fn spin_ok(v: i64) -> bool {
    v == 1 || v == -1
}

/// The negated spin: flipping only ever swaps the two states.
pub open spec fn flip_value(v: i64) -> i64 {
    if v == 1 {
        -1i64
    } else {
        1i64
    }
}

/// The grid `s` with the cell at flat index `k` flipped.
pub open spec fn flipped(s: Seq<i64>, k: int) -> Seq<i64> {
    s.update(k, flip_value(s[k]))
}

/// The grid `s` after flipping, in order, every cell index of `ks`.
pub open spec fn flipped_many(s: Seq<i64>, ks: Seq<int>) -> Seq<i64>
    decreases ks.len(),
{
    if ks.len() == 0 {
        s
    } else {
        flipped_many(flipped(s, ks[0]), ks.subrange(1, ks.len() as int))
    }
}

/// A well-formed grid of side `n`: `n * n` cells, each in a valid state.
pub open spec fn grid_ok(s: Seq<i64>, n: int) -> bool {
    &&& 1 <= n
    &&& s.len() == n * n
    &&& forall|k: int| 0 <= k < s.len() ==> spin_ok(#[trigger] s[k])
}

/// Flat index of the right neighbour of `k` (periodic in the row).
pub open spec fn right_of(n: int, k: int) -> int {
    if k % n == n - 1 {
        k - (n - 1)
    } else {
        k + 1
    }
}

/// Flat index of the left neighbour of `k` (periodic in the row).
pub open spec fn left_of(n: int, k: int) -> int {
    if k % n == 0 {
        k + (n - 1)
    } else {
        k - 1
    }
}

/// Flat index of the neighbour below `k` (periodic in the column).
pub open spec fn down_of(n: int, k: int) -> int {
    if k + n >= n * n {
        k + n - n * n
    } else {
        k + n
    }
}

/// Flat index of the neighbour above `k` (periodic in the column).
pub open spec fn up_of(n: int, k: int) -> int {
    if k < n {
        k + n * n - n
    } else {
        k - n
    }
}

/// Sum of the four periodic neighbours' spins of cell `k`.
pub open spec fn neighbor_sum(s: Seq<i64>, n: int, k: int) -> int {
    s[right_of(n, k)] + s[left_of(n, k)] + s[down_of(n, k)] + s[up_of(n, k)]
}

/// Energy change, in coupling units, that flipping cell `k` would cause:
/// twice the product of its spin with the sum of its neighbours' spins.
/// The energy change itself is this value times J.
pub open spec fn delta_units(s: Seq<i64>, n: int, k: int) -> int {
    2 * s[k] * neighbor_sum(s, n, k)
}

/// Contribution of cell `k` to the total energy, in coupling units: the two
/// bonds towards its right and lower neighbours, so that every neighbouring
/// pair of the periodic grid is counted exactly once.
pub open spec fn bond_term(s: Seq<i64>, n: int, k: int) -> int {
    -s[k] * (s[right_of(n, k)] + s[down_of(n, k)])
}

/// Sum of `bond_term` over the first `k` cells.
pub open spec fn energy_prefix(s: Seq<i64>, n: int, k: nat) -> int
    decreases k,
{
    if k == 0 {
        0
    } else {
        energy_prefix(s, n, (k - 1) as nat) + bond_term(s, n, k - 1)
    }
}

/// Total energy of the grid in coupling units: the energy is J times this.
pub open spec fn energy_units(s: Seq<i64>, n: int) -> int {
    energy_prefix(s, n, (n * n) as nat)
}

/// Sum of the spins of the first `k` cells.
pub open spec fn spin_prefix(s: Seq<i64>, k: nat) -> int
    decreases k,
{
    if k == 0 {
        0
    } else {
        spin_prefix(s, (k - 1) as nat) + s[k - 1]
    }
}

/// Sum of all spins of the grid.
pub open spec fn spin_total(s: Seq<i64>) -> int {
    spin_prefix(s, s.len())
}

/// Magnitude of an integer.
pub open spec fn abs_int(x: int) -> int {
    if x < 0 {
        -x
    } else {
        x
    }
}

/// A side length within bounds gives a cell count within bounds.
pub proof fn lemma_cells_bound(n: int)
    requires
        1 <= n <= 128,
    ensures
        1 <= n <= n * n <= 16384,
    {
    assert(1 <= n * n <= 16384 && n <= n * n) by (nonlinear_arith)
        requires
            1 <= n <= 128,
    ;
}

/// For a flat index `k` of a grid of side `n`: the facts about its row-major
/// decomposition that place all four neighbour indices inside the grid.
proof fn lemma_flat_index_range(n: int, k: int)
    requires
        1 <= n,
        0 <= k < n * n,
    ensures
        0 <= k % n < n,
        k % n == n - 1 ==> n - 1 <= k,
        k % n != n - 1 ==> k + 1 < n * n,
        k % n == 0 ==> k + n - 1 < n * n,
        k % n != 0 ==> 1 <= k,
        n <= n * n,
{
    assert(n <= n * n) by (nonlinear_arith)
        requires
            1 <= n,
    ;
    vstd::arithmetic::div_mod::lemma_fundamental_div_mod(k, n);
    assert(0 <= k % n < n) by (nonlinear_arith)
        requires
            1 <= n,
            0 <= k,
    ;
    let q = k / n;
    let r = k % n;
    assert(0 <= q <= n - 1) by (nonlinear_arith)
        requires
            1 <= n,
            0 <= k < n * n,
            k == q * n + r,
            0 <= r < n,
    ;
    assert(r == n - 1 ==> n - 1 <= k) by (nonlinear_arith)
        requires
            k == q * n + r,
            0 <= q,
            1 <= n,
            0 <= r,
    ;
    assert(r != n - 1 ==> k + 1 < n * n) by (nonlinear_arith)
        requires
            k == q * n + r,
            0 <= q <= n - 1,
            1 <= n,
            0 <= r < n,
    ;
    assert(r == 0 ==> k + n - 1 < n * n) by (nonlinear_arith)
        requires
            k == q * n + r,
            0 <= q <= n - 1,
            1 <= n,
            0 <= r,
    ;
}

/// The square grid of spins.
pub struct Lattice {
    /// Side length of the grid.
    pub size: usize,
    /// The cells, row-major.
    pub spins: Vec<i64>,
}

impl Lattice {
    /// Well-formedness: a non-empty grid within the supported side length,
    /// every cell in a valid state.
    pub open spec fn wf(self) -> bool {
        &&& self.size <= MAX_LATTICE_SIZE
        &&& grid_ok(self.spins@, self.size as int)
    }

    /// Number of cells.
    pub open spec fn cells(self) -> int {
        self.size * self.size
    }

    /// The number of cells, executable.
    fn cell_count(&self) -> (r: usize)
        requires
            self.wf(),
        ensures
            r == self.cells(),
            1 <= r <= 16384,
    {
        proof {
            lemma_cells_bound(self.size as int);
        }
        self.size * self.size
    }

    /// Allocates a `size x size` grid, each cell drawn independently and
    /// uniformly from the two spin states.
    pub fn new(size: usize, rng: &mut rand::rngs::StdRng) -> (r: Lattice)
        requires
            1 <= size <= MAX_LATTICE_SIZE,
        ensures
            r.wf(),
            r.size == size,
    {
        proof {
            lemma_cells_bound(size as int);
        }
        let cells: usize = size * size;
        let mut spins: Vec<i64> = Vec::new();
        let mut i: usize = 0;
        while i < cells
            invariant
                i <= cells,
                cells == size * size,
                spins@.len() == i,
                forall|k: int| 0 <= k < i ==> spin_ok(#[trigger] spins@[k]),
            decreases cells - i,
        {
            let bit = rng_below(rng, 2);
            if bit == 0 {
                spins.push(-1);
            } else {
                spins.push(1);
            }
            i = i + 1;
        }
        Lattice { size, spins }
    }

    /// A uniformly random valid flat cell index.
    pub fn gen_random_index(&self, rng: &mut rand::rngs::StdRng) -> (r: usize)
        requires
            self.wf(),
        ensures
            r < self.cells(),
    {
        let cells = self.cell_count();
        rng_below(rng, cells as u64) as usize
    }

    /// The flat indices of the four periodic neighbours of cell `k`:
    /// right, left, down, up.
    fn neighbor_indices(&self, k: usize) -> (r: (usize, usize, usize, usize))
        requires
            self.wf(),
            k < self.cells(),
        ensures
            r.0 == right_of(self.size as int, k as int),
            r.1 == left_of(self.size as int, k as int),
            r.2 == down_of(self.size as int, k as int),
            r.3 == up_of(self.size as int, k as int),
            r.0 < self.cells(),
            r.1 < self.cells(),
            r.2 < self.cells(),
            r.3 < self.cells(),
    {
        let n = self.size;
        proof {
            lemma_cells_bound(n as int);
            lemma_flat_index_range(n as int, k as int);
        }
        let cells: usize = n * n;
        let col = k % n;
        let right = if col == n - 1 { k - (n - 1) } else { k + 1 };
        let left = if col == 0 { k + (n - 1) } else { k - 1 };
        let down = if k + n >= cells { k + n - cells } else { k + n };
        let up = if k < n { k + cells - n } else { k - n };
        (right, left, down, up)
    }

    /// The spin of the cell at flat index `k`.
    pub fn spin_at(&self, k: usize) -> (r: i64)
        requires
            self.wf(),
            k < self.cells(),
        ensures
            r == self.spins@[k as int],
            spin_ok(r),
    {
        self.spins[k]
    }

    /// The energy change, in milli-units, that flipping cell `k` would cause,
    /// for a coupling constant of `j_milli` milli-units: J times the exact
    /// coupling-unit change `delta_units`. Pure: the grid is not touched.
    /// For grids of side at least 2, `lemma_delta_matches_energy_change`
    /// proves that this is exactly the difference in `energy_units` that the
    /// flip would cause.
    pub fn measure_e_diff(&self, k: usize, j_milli: i64) -> (r: i64)
        requires
            self.wf(),
            k < self.cells(),
            -100000 <= j_milli <= 100000,
        ensures
            r == j_milli * delta_units(self.spins@, self.size as int, k as int),
            -800000 <= r <= 800000,
    {
        let (right, left, down, up) = self.neighbor_indices(k);
        let ns = self.spins[right] + self.spins[left] + self.spins[down] + self.spins[up];
        let ghost s = self.spins@;
        let ghost ni = self.size as int;
        let ghost ki = k as int;
        assert(spin_ok(s[right as int]) && spin_ok(s[left as int]) && spin_ok(s[down as int])
            && spin_ok(s[up as int]) && spin_ok(s[ki]));
        assert(ns == neighbor_sum(s, ni, ki) && -4 <= ns <= 4);
        let sk = self.spins[k];
        let d = if sk == 1 { 2 * ns } else { -(2 * ns) };
        assert(d == 2 * s[ki] * neighbor_sum(s, ni, ki)) by (nonlinear_arith)
            requires
                sk == s[ki],
                (sk == 1 && d == 2 * ns) || (sk == -1 && d == -(2 * ns)),
                ns == neighbor_sum(s, ni, ki),
        ;
        assert(-800000 <= j_milli * d <= 800000) by (nonlinear_arith)
            requires
                -8 <= d <= 8,
                -100000 <= j_milli <= 100000,
        ;
        j_milli * d
    }

    /// Negates the spin at `k`; no other cell changes.
    pub fn flip_spin(&mut self, k: usize)
        requires
            old(self).wf(),
            k < old(self).cells(),
        ensures
            final(self).wf(),
            final(self).size == old(self).size,
            final(self).spins@ == flipped(old(self).spins@, k as int),
    {
        let v = self.spins[k];
        if v == 1 {
            self.spins.set(k, -1);
        } else {
            self.spins.set(k, 1);
        }
    }

    /// Total energy of the grid in coupling units (the total energy is J
    /// times this), in `[-2 n^2, 2 n^2]`.
    pub fn energy_units(&self) -> (r: i64)
        requires
            self.wf(),
        ensures
            r == energy_units(self.spins@, self.size as int),
            -2 * self.cells() <= r <= 2 * self.cells(),
    {
        let cells = self.cell_count();
        let mut acc: i64 = 0;
        let mut k: usize = 0;
        while k < cells
            invariant
                self.wf(),
                k <= cells,
                cells == self.cells(),
                cells <= 16384,
                acc == energy_prefix(self.spins@, self.size as int, k as nat),
                -2 * k <= acc <= 2 * k,
            decreases cells - k,
        {
            let (right, _, down, _) = self.neighbor_indices(k);
            let ghost s = self.spins@;
            let ghost ni = self.size as int;
            let ghost ki = k as int;
            assert(spin_ok(s[right as int]) && spin_ok(s[down as int]) && spin_ok(s[ki]));
            let pair = self.spins[right] + self.spins[down];
            let sk = self.spins[k];
            let b = if sk == 1 { -pair } else { pair };
            assert(b == -s[ki] * (s[right_of(ni, ki)] + s[down_of(ni, ki)])) by (nonlinear_arith)
                requires
                    sk == s[ki],
                    (sk == 1 && b == -pair) || (sk == -1 && b == pair),
                    pair == s[right_of(ni, ki)] + s[down_of(ni, ki)],
            ;
            assert(b == bond_term(s, ni, ki) && -2 <= b <= 2);
            acc = acc + b;
            k = k + 1;
        }
        acc
    }

    /// Sum of all spins, in `[-n^2, n^2]`.
    pub fn spin_sum(&self) -> (r: i64)
        requires
            self.wf(),
        ensures
            r == spin_total(self.spins@),
            -self.cells() <= r <= self.cells(),
    {
        let cells = self.cell_count();
        let mut acc: i64 = 0;
        let mut k: usize = 0;
        while k < cells
            invariant
                self.wf(),
                k <= cells,
                cells == self.cells(),
                cells <= 16384,
                acc == spin_prefix(self.spins@, k as nat),
                -(k as int) <= acc <= k as int,
            decreases cells - k,
        {
            assert(spin_ok(self.spins@[k as int]));
            acc = acc + self.spins[k];
            k = k + 1;
        }
        assert(self.spins@.len() == cells);
        acc
    }

    /// Magnitude of the spin sum, in `[0, n^2]`: the order parameter is this
    /// over `n^2`.
    pub fn order_units(&self) -> (r: i64)
        requires
            self.wf(),
        ensures
            r == abs_int(spin_total(self.spins@)),
            0 <= r <= self.cells(),
    {
        proof {
            lemma_cells_bound(self.size as int);
        }
        let s = self.spin_sum();
        if s < 0 {
            -s
        } else {
            s
        }
    }

    /// Total energy per site for a coupling constant of `j_milli`
    /// milli-units, as the exact rational `j * units / (1000 * n^2)`.
    pub fn total_energy_per_site(&self, j_milli: i64) -> (r: Rational)
        requires
            self.wf(),
            -100000 <= j_milli <= 100000,
        ensures
            r.num == j_milli * energy_units(self.spins@, self.size as int),
            r.den == 1000 * self.cells(),
            r.wf(),
    {
        proof {
            lemma_cells_bound(self.size as int);
        }
        let units = self.energy_units();
        let cells = self.cell_count();
        assert(-3276800000 <= j_milli as int * units as int <= 3276800000) by (nonlinear_arith)
            requires
                -100000 <= j_milli <= 100000,
                -32768 <= units <= 32768,
        ;
        let num: i128 = (j_milli as i128) * (units as i128);
        Rational::new(num, 1000 * (cells as i128))
    }

    /// Order parameter: the magnitude of the mean spin, as the exact rational
    /// `|spin sum| / n^2`, a value in `[0, 1]`.
    pub fn order_parameter(&self) -> (r: Rational)
        requires
            self.wf(),
        ensures
            r.num == abs_int(spin_total(self.spins@)),
            r.den == self.cells(),
            r.wf(),
            0 <= r.num <= r.den,
    {
        let units = self.order_units();
        let cells = self.cell_count();
        Rational::new(units as i128, cells as i128)
    }
}

/// Flipping a valid cell keeps every cell in the two-state set.
pub proof fn lemma_flip_preserves_grid(s: Seq<i64>, n: int, k: int)
    requires
        grid_ok(s, n),
        0 <= k < n * n,
    ensures
        grid_ok(flipped(s, k), n),
{
}

/// Any sequence of flips of valid cells keeps every cell in the two-state
/// set: the lattice invariant survives arbitrary flip histories.
pub proof fn lemma_flips_preserve_grid(s: Seq<i64>, n: int, ks: Seq<int>)
    requires
        grid_ok(s, n),
        forall|i: int| 0 <= i < ks.len() ==> 0 <= #[trigger] ks[i] < n * n,
    ensures
        grid_ok(flipped_many(s, ks), n),
    decreases ks.len(),
{
    if ks.len() > 0 {
        lemma_flip_preserves_grid(s, n, ks[0]);
        let rest = ks.subrange(1, ks.len() as int);
        assert(forall|i: int| 0 <= i < rest.len() ==> 0 <= #[trigger] rest[i] < n * n);
        lemma_flips_preserve_grid(flipped(s, ks[0]), n, rest);
    }
}

/// The neighbour indices of a cell of a grid of side at least 2: all four in
/// range, the right neighbour of the left neighbour is the cell itself (and
/// likewise below/above), uniquely so, and the cell, its left neighbour and
/// its upper neighbour are pairwise distinct.
proof fn lemma_neighbor_geometry(n: int, k: int)
    requires
        2 <= n,
        0 <= k < n * n,
    ensures
        0 <= right_of(n, k) < n * n,
        0 <= left_of(n, k) < n * n,
        0 <= down_of(n, k) < n * n,
        0 <= up_of(n, k) < n * n,
        right_of(n, left_of(n, k)) == k,
        down_of(n, up_of(n, k)) == k,
        left_of(n, k) != k,
        up_of(n, k) != k,
        left_of(n, k) != up_of(n, k),
        right_of(n, k) != k,
        down_of(n, k) != k,
        down_of(n, left_of(n, k)) != k,
        right_of(n, up_of(n, k)) != k,
        forall|m: int| 0 <= m < n * n && #[trigger] right_of(n, m) == k ==> m == left_of(n, k),
        forall|m: int| 0 <= m < n * n && #[trigger] down_of(n, m) == k ==> m == up_of(n, k),
{
    assert(n * n >= 2 * n && n * (n - 1) == n * n - n && (n - 1) * n == n * n - n)
        by (nonlinear_arith)
        requires
            2 <= n,
    ;
    vstd::arithmetic::div_mod::lemma_fundamental_div_mod(k, n);
    lemma_flat_index_range(n, k);
    let q = k / n;
    let c = k % n;
    assert(q * n == n * q) by (nonlinear_arith);
    assert(0 <= q <= n - 1) by (nonlinear_arith)
        requires
            1 <= n,
            0 <= k < n * n,
            k == q * n + c,
            0 <= c < n,
    ;
    let l = left_of(n, k);
    let u = up_of(n, k);
    // The left neighbour's column, hence its right neighbour.
    if c == 0 {
        assert(l == k + n - 1);
        assert(l == q * n + (n - 1));
        vstd::arithmetic::div_mod::lemma_fundamental_div_mod_converse_mod(l, n, q, n - 1);
        assert(l < n * n) by (nonlinear_arith)
            requires
                l == q * n + (n - 1),
                q <= n - 1,
                2 <= n,
        ;
        assert(right_of(n, l) == k);
    } else {
        assert(l == k - 1);
        assert(l == q * n + (c - 1));
        vstd::arithmetic::div_mod::lemma_fundamental_div_mod_converse_mod(l, n, q, c - 1);
        assert(right_of(n, l) == k);
    }
    // The upper neighbour's column, hence its lower neighbour.
    if k < n {
        assert(q == 0) by (nonlinear_arith)
            requires
                0 <= q,
                k == q * n + c,
                0 <= c,
                k < n,
                1 <= n,
        ;
        assert(u == k + n * n - n);
        assert(u == (n - 1) * n + c) by (nonlinear_arith)
            requires
                u == k + n * n - n,
                k == q * n + c,
                q == 0,
        ;
        vstd::arithmetic::div_mod::lemma_fundamental_div_mod_converse_mod(u, n, n - 1, c);
        assert(u + n >= n * n && u + n - n * n == k);
        assert(down_of(n, u) == k);
    } else {
        assert(u == k - n);
        assert(u == (q - 1) * n + c && (q - 1) * n == q * n - n) by (nonlinear_arith)
            requires
                u == k - n,
                k == q * n + c,
        ;
        vstd::arithmetic::div_mod::lemma_fundamental_div_mod_converse_mod(u, n, q - 1, c);
        assert(u + n < n * n && down_of(n, u) == k);
    }
    // Pairwise distinctness of the cell, its left and its upper neighbour,
    // and the four inequalities that keep the other bond terms unchanged.
    assert((n - 1) * (n - 1) >= 1 && n * n - n >= n) by (nonlinear_arith)
        requires
            2 <= n,
    ;
    assert(n * n != 2 * n - 1) by (nonlinear_arith)
        requires
            2 <= n,
    ;
    assert(l != u) by {
        assert(l % n == if c == 0 { n - 1 } else { c - 1 });
        assert(u % n == c);
        if l == u {
            assert(c == 0 ==> k == q * n && l == q * n + n - 1);
            if k < n {
                assert(u == k + n * n - n);
                if c == 0 {
                    assert(k == 0 && l == n - 1 && u == n * n - n);
                    assert(n - 1 != n * n - n) by (nonlinear_arith)
                        requires
                            2 <= n,
                    ;
                } else {
                    assert(l == k - 1);
                    assert(k - 1 != k + n * n - n) by (nonlinear_arith)
                        requires
                            2 <= n,
                    ;
                }
            } else {
                assert(u == k - n);
            }
        }
    }
    assert(down_of(n, l) != k) by {
        if down_of(n, l) == k {
            if l + n >= n * n {
                assert(l + n - n * n == k);
            } else {
                assert(l + n == k);
            }
        }
    }
    assert(right_of(n, u) != k) by {
        assert(u % n == c);
        if right_of(n, u) == k {
            if u % n == n - 1 {
                assert(u - (n - 1) == k);
            } else {
                assert(u + 1 == k);
            }
        }
    }
    // Uniqueness: no other cell has `k` as its right or lower neighbour.
    assert forall|m: int| 0 <= m < n * n && #[trigger] right_of(n, m) == k implies m == left_of(
        n,
        k,
    ) by {
        vstd::arithmetic::div_mod::lemma_fundamental_div_mod(m, n);
        lemma_flat_index_range(n, m);
        let qm = m / n;
        let cm = m % n;
        assert(qm * n == n * qm) by (nonlinear_arith);
        if cm == n - 1 {
            assert(m - (n - 1) == k);
            assert(k == qm * n + 0) by (nonlinear_arith)
                requires
                    m == qm * n + cm,
                    cm == n - 1,
                    k == m - (n - 1),
            ;
            vstd::arithmetic::div_mod::lemma_fundamental_div_mod_converse_mod(k, n, qm, 0);
            assert(c == 0 && m == k + n - 1);
        } else {
            assert(m + 1 == k);
            assert(k == qm * n + (cm + 1));
            vstd::arithmetic::div_mod::lemma_fundamental_div_mod_converse_mod(k, n, qm, cm + 1);
            assert(c == cm + 1 && c != 0);
        }
    }
    assert forall|m: int| 0 <= m < n * n && #[trigger] down_of(n, m) == k implies m == up_of(
        n,
        k,
    ) by {
        if m + n >= n * n {
            assert(m + n - n * n == k);
            assert(k < n);
        } else {
            assert(m + n == k);
            assert(k >= n);
        }
    }
}

/// The change a flip makes to the prefix sum of bond terms: the three cells
/// whose bond terms mention the flipped cell contribute once each, as soon as
/// the prefix reaches them.
spec fn flip_correction(s: Seq<i64>, n: int, k: int, j: int) -> int {
    (if k < j {
        2 * s[k] * (s[right_of(n, k)] + s[down_of(n, k)])
    } else {
        0
    }) + (if left_of(n, k) < j {
        2 * s[left_of(n, k)] * s[k]
    } else {
        0
    }) + (if up_of(n, k) < j {
        2 * s[up_of(n, k)] * s[k]
    } else {
        0
    })
}

/// Flipping cell `k` changes the prefix energy sums by exactly the
/// correction above.
proof fn lemma_energy_prefix_flip(s: Seq<i64>, n: int, k: int, j: nat)
    requires
        grid_ok(s, n),
        2 <= n,
        0 <= k < n * n,
        j <= n * n,
    ensures
        energy_prefix(flipped(s, k), n, j) == energy_prefix(s, n, j) + flip_correction(
            s,
            n,
            k,
            j as int,
        ),
    decreases j,
{
    lemma_neighbor_geometry(n, k);
    let s2 = flipped(s, k);
    if j > 0 {
        lemma_energy_prefix_flip(s, n, k, (j - 1) as nat);
        let m = j - 1;
        lemma_flat_index_range(n, m);
        lemma_neighbor_range(n, m);
        assert(s2[k] == flip_value(s[k]) && s2[k] == -s[k]);
        let r = right_of(n, m);
        let d = down_of(n, m);
        if m == k {
            assert(s2[r] == s[r] && s2[d] == s[d]);
            assert(bond_term(s2, n, m) == bond_term(s, n, m) + 2 * s[k] * (s[r] + s[d]))
                by (nonlinear_arith)
                requires
                    bond_term(s2, n, m) == -s2[m] * (s2[r] + s2[d]),
                    bond_term(s, n, m) == -s[m] * (s[r] + s[d]),
                    s2[m] == -s[m],
                    s2[r] == s[r],
                    s2[d] == s[d],
                    m == k,
            ;
        } else if m == left_of(n, k) {
            assert(r == k && d != k);
            assert(s2[m] == s[m] && s2[d] == s[d]);
            assert(bond_term(s2, n, m) == bond_term(s, n, m) + 2 * s[m] * s[k])
                by (nonlinear_arith)
                requires
                    bond_term(s2, n, m) == -s2[m] * (s2[r] + s2[d]),
                    bond_term(s, n, m) == -s[m] * (s[r] + s[d]),
                    s2[r] == -s[r],
                    s[r] == s[k],
                    s2[m] == s[m],
                    s2[d] == s[d],
            ;
        } else if m == up_of(n, k) {
            assert(d == k && r != k);
            assert(s2[m] == s[m] && s2[r] == s[r]);
            assert(bond_term(s2, n, m) == bond_term(s, n, m) + 2 * s[m] * s[k])
                by (nonlinear_arith)
                requires
                    bond_term(s2, n, m) == -s2[m] * (s2[r] + s2[d]),
                    bond_term(s, n, m) == -s[m] * (s[r] + s[d]),
                    s2[d] == -s[d],
                    s[d] == s[k],
                    s2[m] == s[m],
                    s2[r] == s[r],
            ;
        } else {
            assert(r != k && d != k);
            assert(s2[m] == s[m] && s2[r] == s[r] && s2[d] == s[d]);
            assert(bond_term(s2, n, m) == bond_term(s, n, m));
        }
    }
}

/// The four neighbour indices of any in-range cell are themselves in range.
proof fn lemma_neighbor_range(n: int, m: int)
    requires
        1 <= n,
        0 <= m < n * n,
    ensures
        0 <= right_of(n, m) < n * n,
        0 <= left_of(n, m) < n * n,
        0 <= down_of(n, m) < n * n,
        0 <= up_of(n, m) < n * n,
{
    lemma_flat_index_range(n, m);
}

/// The energy-change formula is the energy change: for a grid of side at
/// least 2, flipping a cell moves the total energy by exactly `delta_units`
/// of that cell. (On a single-cell grid the two bonds of the cell pair it
/// with itself in both directions, and the formula does not apply.)
pub proof fn lemma_delta_matches_energy_change(s: Seq<i64>, n: int, k: int)
    requires
        grid_ok(s, n),
        2 <= n,
        0 <= k < n * n,
    ensures
        energy_units(flipped(s, k), n) == energy_units(s, n) + delta_units(s, n, k),
{
    lemma_neighbor_geometry(n, k);
    lemma_energy_prefix_flip(s, n, k, (n * n) as nat);
    let r = right_of(n, k);
    let l = left_of(n, k);
    let d = down_of(n, k);
    let u = up_of(n, k);
    assert(flip_correction(s, n, k, n * n) == 2 * s[k] * (s[r] + s[d]) + 2 * s[l] * s[k] + 2
        * s[u] * s[k]);
    assert(2 * s[k] * (s[r] + s[d]) + 2 * s[l] * s[k] + 2 * s[u] * s[k] == 2 * s[k] * (s[r] + s[l]
        + s[d] + s[u])) by (nonlinear_arith);
}

/// Flipping the same cell twice restores the grid exactly, and with it the
/// cell's value and the total energy.
pub proof fn lemma_flip_twice_restores(s: Seq<i64>, n: int, k: int)
    requires
        grid_ok(s, n),
        0 <= k < n * n,
    ensures
        flipped(flipped(s, k), k) == s,
        flipped(flipped(s, k), k)[k] == s[k],
        energy_units(flipped(flipped(s, k), k), n) == energy_units(s, n),
{
    assert(flipped(flipped(s, k), k) =~= s);
}

} // verus!
