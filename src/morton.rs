//! Morton (Z-order) enumeration of a square pixel grid, which keeps
//! neighbouring pixels close in the order they are traced.
use vstd::prelude::*;

verus! {

/// Side of the grid of `k` bits per coordinate: 2^k.
pub open spec fn side(k: nat) -> nat
    decreases k,
{
    if k == 0 {
        1
    } else {
        2 * side((k - 1) as nat)
    }
}

/// Cells of that grid: 4^k.
pub open spec fn cells(k: nat) -> nat
    decreases k,
{
    if k == 0 {
        1
    } else {
        4 * cells((k - 1) as nat)
    }
}

/// The bits of `c` at even positions, packed: the column of Morton code `c`.
pub open spec fn even_bits(c: nat) -> nat
    decreases c,
{
    if c == 0 {
        0
    } else {
        c % 2 + 2 * even_bits(c / 4)
    }
}

/// The bits of `c` at odd positions, packed: the row of Morton code `c`.
pub open spec fn odd_bits(c: nat) -> nat
    decreases c,
{
    if c == 0 {
        0
    } else {
        (c / 2) % 2 + 2 * odd_bits(c / 4)
    }
}

/// The Morton code of column `x` and row `y`: their bits interleaved.
pub open spec fn interleave(x: nat, y: nat) -> nat
    decreases x + y,
{
    if x == 0 && y == 0 {
        0
    } else {
        x % 2 + 2 * (y % 2) + 4 * interleave(x / 2, y / 2)
    }
}

/// Decoding a code and encoding the result gives the code back.
pub proof fn lemma_interleave_of_bits(c: nat)
    ensures
        interleave(even_bits(c), odd_bits(c)) == c,
    decreases c,
{
    if c > 0 {
        lemma_interleave_of_bits(c / 4);
        let e = even_bits(c);
        let o = odd_bits(c);
        assert(e % 2 == c % 2 && e / 2 == even_bits(c / 4));
        assert(o % 2 == (c / 2) % 2 && o / 2 == odd_bits(c / 4));
        assert(c == c % 2 + 2 * ((c / 2) % 2) + 4 * (c / 4));
    }
}

/// Encoding a cell and decoding the code gives the cell back.
pub proof fn lemma_bits_of_interleave(x: nat, y: nat)
    ensures
        even_bits(interleave(x, y)) == x,
        odd_bits(interleave(x, y)) == y,
    decreases x + y,
{
    if x != 0 || y != 0 {
        lemma_bits_of_interleave(x / 2, y / 2);
        let c = interleave(x, y);
        let r = interleave(x / 2, y / 2);
        assert(c == x % 2 + 2 * (y % 2) + 4 * r);
        assert(c % 2 == x % 2 && (c / 2) % 2 == y % 2 && c / 4 == r);
        if c == 0 {
            assert(x % 2 == 0 && y % 2 == 0 && r == 0);
            assert(x / 2 == 0 && y / 2 == 0);
        }
    }
}

/// Codes below 4^k decode to cells of the 2^k grid.
pub proof fn lemma_bits_in_grid(c: nat, k: nat)
    requires
        c < cells(k),
    ensures
        even_bits(c) < side(k),
        odd_bits(c) < side(k),
    decreases k,
{
    lemma_side_positive(k);
    if k > 0 && c > 0 {
        let h = (k - 1) as nat;
        assert(cells(k) == 4 * cells(h));
        assert(side(k) == 2 * side(h));
        assert(c / 4 < cells(h));
        lemma_bits_in_grid(c / 4, h);
        assert(even_bits(c) == c % 2 + 2 * even_bits(c / 4));
        assert(odd_bits(c) == (c / 2) % 2 + 2 * odd_bits(c / 4));
    } else if k == 0 {
        assert(cells(0) == 1);
        assert(c == 0);
    }
}

proof fn lemma_side_positive(k: nat)
    ensures
        side(k) >= 1,
    decreases k,
{
    if k > 0 {
        lemma_side_positive((k - 1) as nat);
    }
}

/// Cells of the 2^k grid have codes below 4^k.
pub proof fn lemma_interleave_in_range(x: nat, y: nat, k: nat)
    requires
        x < side(k),
        y < side(k),
    ensures
        interleave(x, y) < cells(k),
    decreases k,
{
    if k > 0 && (x != 0 || y != 0) {
        let h = (k - 1) as nat;
        assert(cells(k) == 4 * cells(h));
        assert(side(k) == 2 * side(h));
        lemma_interleave_in_range(x / 2, y / 2, h);
        assert(interleave(x, y) == x % 2 + 2 * (y % 2) + 4 * interleave(x / 2, y / 2));
    } else if k == 0 {
        assert(side(0) == 1 && cells(0) == 1);
        assert(interleave(0, 0) == 0);
    } else {
        lemma_side_positive(k);
        lemma_cells_positive(k);
        assert(interleave(0, 0) == 0);
    }
}

proof fn lemma_cells_positive(k: nat)
    ensures
        cells(k) >= 1,
    decreases k,
{
    if k > 0 {
        lemma_cells_positive((k - 1) as nat);
    }
}

/// Column and row of Morton code `c`.
pub fn deinterleave(c: u32) -> (r: (u32, u32))
    ensures
        r.0 == even_bits(c as nat),
        r.1 == odd_bits(c as nat),
        r.0 < 65536 && r.1 < 65536,
    decreases c,
{
    if c == 0 {
        (0, 0)
    } else {
        let (x, y) = deinterleave(c / 4);
        proof {
            lemma_largest_grid();
            lemma_bits_in_grid((c / 4) as nat, 15);
        }
        (c % 2 + 2 * x, (c / 2) % 2 + 2 * y)
    }
}

/// The cells of the 2^bits grid in Morton order: entry `c` is the column
/// and row of code `c`.
pub fn morton_order(bits: u32) -> (r: Vec<(u32, u32)>)
    requires
        bits <= 15,
    ensures
        r@.len() == cells(bits as nat),
        forall|c: int|
            0 <= c < r@.len() ==> #[trigger] r@[c] == (even_bits(c as nat) as u32, odd_bits(c as nat) as u32),
{
    let mut n: u32 = 1;
    let mut k: u32 = 0;
    proof {
        lemma_largest_grid();
        lemma_cells_monotone(0, 15);
        assert(cells(0) == 1);
    }
    while k < bits
        invariant
            k <= bits <= 15,
            n == cells(k as nat),
            n <= cells(15),
        decreases bits - k,
    {
        proof {
            lemma_largest_grid();
            lemma_cells_monotone((k + 1) as nat, 15);
            assert(cells((k + 1) as nat) == 4 * cells(k as nat));
        }
        n = n * 4;
        k += 1;
    }
    let mut lut: Vec<(u32, u32)> = Vec::new();
    let mut c: u32 = 0;
    while c < n
        invariant
            c <= n,
            n == cells(bits as nat),
            lut@.len() == c,
            forall|j: int| 0 <= j < c ==> #[trigger] lut@[j] == (even_bits(j as nat) as u32, odd_bits(j as nat) as u32),
        decreases n - c,
    {
        lut.push(deinterleave(c));
        c += 1;
    }
    lut
}

proof fn lemma_largest_grid()
    ensures
        side(15) == 32768,
        cells(15) == 1073741824,
{
    reveal_with_fuel(side, 16);
    reveal_with_fuel(cells, 16);
}

proof fn lemma_cells_monotone(a: nat, b: nat)
    requires
        a <= b,
    ensures
        cells(a) <= cells(b),
    decreases b,
{
    if a < b {
        lemma_cells_monotone(a, (b - 1) as nat);
    }
}

/// The Morton order of the 2^k grid visits every cell exactly once: each
/// cell is the entry of exactly one code below 4^k, so workers that take
/// disjoint ranges of codes write disjoint pixels.
pub proof fn lemma_morton_is_permutation(k: nat, x: nat, y: nat, c1: nat, c2: nat)
    requires
        x < side(k),
        y < side(k),
    ensures
        interleave(x, y) < cells(k),
        even_bits(interleave(x, y)) == x && odd_bits(interleave(x, y)) == y,
        even_bits(c1) == even_bits(c2) && odd_bits(c1) == odd_bits(c2) ==> c1 == c2,
{
    lemma_interleave_in_range(x, y, k);
    lemma_bits_of_interleave(x, y);
    lemma_interleave_of_bits(c1);
    lemma_interleave_of_bits(c2);
}

} // verus!
