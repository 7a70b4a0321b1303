//! Layout policies and the arithmetic that maps a (grid, row, column)
//! coordinate onto a flat offset.

use vstd::prelude::*;

verus! {

/// How the matrix at each grid point is stored.
#[derive(Debug, Clone, Copy, PartialEq, Eq, Structural)]
pub enum Storage {
    /// Every (row, column) entry of an `ns1 x ns2` matrix.
    Full,
    /// The triangular half of a symmetric `n x n` matrix.
    Packed,
}

/// The `n`-th triangular number, `n * (n + 1) / 2`.
pub open spec fn tri(n: int) -> int {
    n * (n + 1) / 2
}

/// Number of stored elements per grid point under a layout.
pub open spec fn site_len(storage: Storage, ns1: int, ns2: int) -> int {
    match storage {
        Storage::Full => ns1 * ns2,
        Storage::Packed => tri(ns1),
    }
}

/// Offset of (row, col) inside the block of one grid point.
pub open spec fn site_offset(storage: Storage, ns2: int, row: int, col: int) -> int {
    match storage {
        Storage::Full => row * ns2 + col,
        Storage::Packed => {
            let a = if row >= col { row } else { col };
            let b = if row >= col { col } else { row };
            tri(a) + b
        },
    }
}

/// Flat offset of the coordinate (grid, row, col).
pub open spec fn flat_offset(
    storage: Storage,
    ns1: int,
    ns2: int,
    grid: int,
    row: int,
    col: int,
) -> int {
    grid * site_len(storage, ns1, ns2) + site_offset(storage, ns2, row, col)
}

/// Whether (grid, row, col) names a stored element of a container with
/// these dimensions.
pub open spec fn coord_in_bounds(ngrid: int, ns1: int, ns2: int, grid: int, row: int, col: int) -> bool {
    0 <= grid < ngrid && 0 <= row < ns1 && 0 <= col < ns2
}

/// The triangular number computed as a product of two integers, one of
/// which is halved first, so that no intermediate exceeds the result.
pub proof fn lemma_tri_halves(n: int)
    requires
        n >= 0,
    ensures
        n % 2 == 0 ==> tri(n) == (n / 2) * (n + 1),
        n % 2 == 1 ==> tri(n) == n * ((n + 1) / 2),
        tri(n) >= 0,
        tri(n) >= n,
{
    if n % 2 == 0 {
        let h = n / 2;
        assert(n == 2 * h);
        assert(n * (n + 1) == 2 * (h * (n + 1))) by (nonlinear_arith)
            requires n == 2 * h;
        assert(tri(n) == h * (n + 1));
    } else {
        let h = (n + 1) / 2;
        assert(n + 1 == 2 * h);
        assert(n * (n + 1) == 2 * (n * h)) by (nonlinear_arith)
            requires n + 1 == 2 * h;
        assert(tri(n) == n * h);
    }
    assert(n * (n + 1) >= 2 * n) by (nonlinear_arith)
        requires n >= 0;
}

/// The triangular numbers grow: below row `n`, every packed offset
/// `tri(a) + b` with `b <= a < n` is below `tri(n)`.
pub proof fn lemma_tri_bound(a: int, b: int, n: int)
    requires
        0 <= b <= a < n,
    ensures
        0 <= tri(a) + b < tri(n),
    decreases n - a,
{
    lemma_tri_halves(a);
    assert((a + 1) * (a + 2) == a * (a + 1) + 2 * (a + 1)) by (nonlinear_arith);
    assert(tri(a + 1) == tri(a) + a + 1);
    if a + 1 < n {
        lemma_tri_bound(a + 1, 0, n);
    }
}

/// Inside one grid point, a Full offset stays below `ns1 * ns2`.
pub proof fn lemma_full_bound(ns1: int, ns2: int, row: int, col: int)
    requires
        0 <= row < ns1,
        0 <= col < ns2,
    ensures
        0 <= row * ns2 + col < ns1 * ns2,
{
    assert(row * ns2 + col < ns1 * ns2) by (nonlinear_arith)
        requires 0 <= row < ns1, 0 <= col < ns2;
    assert(row * ns2 >= 0) by (nonlinear_arith)
        requires 0 <= row, 0 <= ns2;
}

/// Every in-bounds coordinate lands inside the buffer.
pub proof fn lemma_flat_offset_bound(
    storage: Storage,
    ngrid: int,
    ns1: int,
    ns2: int,
    grid: int,
    row: int,
    col: int,
)
    requires
        storage == Storage::Packed ==> ns1 == ns2,
        coord_in_bounds(ngrid, ns1, ns2, grid, row, col),
    ensures
        0 <= site_offset(storage, ns2, row, col) < site_len(storage, ns1, ns2),
        0 <= flat_offset(storage, ns1, ns2, grid, row, col) < ngrid * site_len(storage, ns1, ns2),
{
    let len = site_len(storage, ns1, ns2);
    let off = site_offset(storage, ns2, row, col);
    match storage {
        Storage::Full => lemma_full_bound(ns1, ns2, row, col),
        Storage::Packed => {
            let a = if row >= col { row } else { col };
            let b = if row >= col { col } else { row };
            lemma_tri_bound(a, b, ns1);
        },
    }
    assert(grid * len + off < ngrid * len) by (nonlinear_arith)
        requires 0 <= grid < ngrid, 0 <= off < len;
    assert(grid * len >= 0) by (nonlinear_arith)
        requires 0 <= grid, 0 <= len;
}

/// `n * (n + 1) / 2`, or `None` where it does not fit in a `usize`.
pub fn checked_tri(n: usize) -> (r: Option<usize>)
    ensures
        match r {
            Some(v) => v as int == tri(n as int),
            None => tri(n as int) > usize::MAX,
        },
{
    proof {
        lemma_tri_halves(n as int);
    }
    if n % 2 == 0 {
        let h: usize = n / 2;
        let r = h.checked_mul(n + 1);
        proof {
            if r.is_none() {
                assert(tri(n as int) == (h as int) * (n as int + 1));
            }
        }
        r
    } else {
        let h: usize = n / 2 + 1;
        assert(h as int == (n as int + 1) / 2);
        n.checked_mul(h)
    }
}

/// Number of stored elements per grid point, or `None` where it does not
/// fit in a `usize`.
pub fn checked_site_len(storage: Storage, ns1: usize, ns2: usize) -> (r: Option<usize>)
    ensures
        match r {
            Some(v) => v as int == site_len(storage, ns1 as int, ns2 as int),
            None => site_len(storage, ns1 as int, ns2 as int) > usize::MAX,
        },
{
    match storage {
        Storage::Full => ns1.checked_mul(ns2),
        Storage::Packed => checked_tri(ns1),
    }
}

/// Offset of (row, col) inside the block of one grid point.
pub fn site_offset_of(storage: Storage, ns1: usize, ns2: usize, row: usize, col: usize) -> (r: usize)
    requires
        storage == Storage::Packed ==> ns1 == ns2,
        row < ns1,
        col < ns2,
        site_len(storage, ns1 as int, ns2 as int) <= usize::MAX,
    ensures
        r as int == site_offset(storage, ns2 as int, row as int, col as int),
        (r as int) < site_len(storage, ns1 as int, ns2 as int),
{
    proof {
        lemma_flat_offset_bound(storage, 1, ns1 as int, ns2 as int, 0, row as int, col as int);
    }
    match storage {
        Storage::Full => {
            proof {
                lemma_full_bound(ns1 as int, ns2 as int, row as int, col as int);
                assert(row as int * ns2 as int <= row as int * ns2 as int + col as int);
            }
            row * ns2 + col
        },
        Storage::Packed => {
            let a: usize = if row >= col { row } else { col };
            let b: usize = if row >= col { col } else { row };
            proof {
                lemma_tri_bound(a as int, b as int, ns1 as int);
                lemma_tri_halves(a as int);
            }
            let t: usize = if a % 2 == 0 {
                assert((a as int / 2) * (a as int + 1) == tri(a as int));
                (a / 2) * (a + 1)
            } else {
                assert((a as int) * ((a as int + 1) / 2) == tri(a as int));
                a * (a / 2 + 1)
            };
            t + b
        },
    }
}

} // verus!
