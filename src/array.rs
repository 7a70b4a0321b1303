//! The radial storage container.

use crate::layout::{
    checked_site_len, coord_in_bounds, flat_offset, lemma_flat_offset_bound, lemma_tri_halves,
    site_len, site_offset_of, Storage,
};
use vstd::prelude::*;

verus! {

/// Why an operation on a `RadialArray` failed.
#[derive(Debug, Clone, Copy, PartialEq, Eq, Structural)]
pub enum ArrayError {
    /// The element type occupies no memory.
    ZeroSizedElement,
    /// Packed storage was asked for a non-square matrix.
    AsymmetricPacked,
    /// The buffer would not fit in the address space.
    TooLarge,
    /// A flat offset or coordinate lies outside the container.
    OutOfBounds,
}

impl ArrayError {
    /// Errors that come from the requested configuration itself.
    pub open spec fn is_config(self) -> bool {
        self == ArrayError::ZeroSizedElement || self == ArrayError::AsymmetricPacked
    }

    /// Whether this is a configuration error (zero-sized element type or
    /// asymmetric packed storage).
    pub fn is_configuration_error(&self) -> (r: bool)
        ensures
            r == self.is_config(),
    {
        match self {
            ArrayError::ZeroSizedElement => true,
            ArrayError::AsymmetricPacked => true,
            _ => false,
        }
    }
}

/// Whether a buffer of `ngrid` grid points of `elem_size`-byte elements
/// fits the address space: its element counts fit in a `usize` and its
/// size in bytes in an `isize`.
pub open spec fn fits(storage: Storage, ngrid: int, ns1: int, ns2: int, elem_size: int) -> bool {
    site_len(storage, ns1, ns2) <= usize::MAX
        && ngrid * site_len(storage, ns1, ns2) * elem_size <= isize::MAX
}

/// The error that construction reports for these arguments, if any.
pub open spec fn construction_error(
    storage: Storage,
    ngrid: int,
    ns1: int,
    ns2: int,
    elem_size: int,
) -> Option<ArrayError> {
    if elem_size == 0 {
        Some(ArrayError::ZeroSizedElement)
    } else if storage == Storage::Packed && ns1 != ns2 {
        Some(ArrayError::AsymmetricPacked)
    } else if !fits(storage, ngrid, ns1, ns2, elem_size) {
        Some(ArrayError::TooLarge)
    } else {
        None
    }
}

/// Per-grid-point matrices over a radial grid, in one contiguous buffer.
#[derive(Debug)]
pub struct RadialArray<T> {
    data: Vec<T>,
    len_total: usize,
    len_sites: usize,
    ngrid: usize,
    ns1: usize,
    ns2: usize,
    storage: Storage,
}

impl<T> View for RadialArray<T> {
    type V = Seq<T>;

    /// The buffer in flat-offset order.
    closed spec fn view(&self) -> Seq<T> {
        self.data@
    }
}

impl<T> RadialArray<T> {
    /// Number of radial grid points.
    pub closed spec fn spec_ngrid(&self) -> nat {
        self.ngrid as nat
    }

    /// First site dimension (rows).
    pub closed spec fn spec_ns1(&self) -> nat {
        self.ns1 as nat
    }

    /// Second site dimension (columns).
    pub closed spec fn spec_ns2(&self) -> nat {
        self.ns2 as nat
    }

    /// The layout policy.
    pub closed spec fn spec_storage(&self) -> Storage {
        self.storage
    }

    /// Stored elements per grid point.
    pub open spec fn spec_len_sites(&self) -> int {
        site_len(self.spec_storage(), self.spec_ns1() as int, self.spec_ns2() as int)
    }

    /// Stored elements in all.
    pub open spec fn spec_len(&self) -> int {
        self.spec_ngrid() * self.spec_len_sites()
    }

    /// Whether (grid, row, col) names a stored element.
    pub open spec fn spec_in_bounds(&self, grid: int, row: int, col: int) -> bool {
        coord_in_bounds(
            self.spec_ngrid() as int,
            self.spec_ns1() as int,
            self.spec_ns2() as int,
            grid,
            row,
            col,
        )
    }

    /// Flat offset of (grid, row, col) under this container's layout.
    pub open spec fn spec_offset(&self, grid: int, row: int, col: int) -> int {
        flat_offset(
            self.spec_storage(),
            self.spec_ns1() as int,
            self.spec_ns2() as int,
            grid,
            row,
            col,
        )
    }

    /// The container's invariant: the buffer holds exactly
    /// `ngrid * len_sites` elements, the cached lengths agree with the
    /// layout, and packed storage is square.
    pub closed spec fn wf(&self) -> bool {
        &&& self.spec_storage() == Storage::Packed ==> self.ns1 == self.ns2
        &&& self.len_sites as int == self.spec_len_sites()
        &&& self.len_total as int == self.spec_len()
        &&& self.data@.len() == self.len_total
    }

    /// What holds of every well-formed container.
    pub proof fn lemma_wf(&self)
        requires
            self.wf(),
        ensures
            self@.len() == self.spec_len(),
            self.spec_len() <= usize::MAX,
            self.spec_len_sites() <= usize::MAX,
            self.spec_storage() == Storage::Packed ==> self.spec_ns1() == self.spec_ns2(),
    {
        if self.ngrid > 0 {
            assert(self.spec_len_sites() <= self.spec_len()) by (nonlinear_arith)
                requires
                    self.spec_ngrid() >= 1,
                    self.spec_len_sites() >= 0,
                    self.spec_len() == self.spec_ngrid() * self.spec_len_sites();
        }
    }
}

impl<T> RadialArray<T> {
    /// Flat offset of the coordinate `(grid, row, col)`, or `OutOfBounds`
    /// where it names no stored element.
    pub fn flat_index(&self, idx: (usize, usize, usize)) -> (r: Result<usize, ArrayError>)
        requires
            self.wf(),
        ensures
            match r {
                Ok(o) => {
                    &&& self.spec_in_bounds(idx.0 as int, idx.1 as int, idx.2 as int)
                    &&& o as int == self.spec_offset(idx.0 as int, idx.1 as int, idx.2 as int)
                    &&& (o as int) < self@.len()
                },
                Err(e) => {
                    &&& !self.spec_in_bounds(idx.0 as int, idx.1 as int, idx.2 as int)
                    &&& e == ArrayError::OutOfBounds
                },
            },
    {
        let (grid, row, col) = idx;
        if grid >= self.ngrid || row >= self.ns1 || col >= self.ns2 {
            return Err(ArrayError::OutOfBounds);
        }
        proof {
            self.lemma_wf();
            lemma_flat_offset_bound(
                self.storage,
                self.ngrid as int,
                self.ns1 as int,
                self.ns2 as int,
                grid as int,
                row as int,
                col as int,
            );
        }
        let within: usize = site_offset_of(self.storage, self.ns1, self.ns2, row, col);
        proof {
            assert(grid as int * self.len_sites as int >= 0) by (nonlinear_arith)
                requires
                    self.len_sites >= 0,
                    grid >= 0,
            ;
        }
        Ok(grid * self.len_sites + within)
    }

    /// Overwrites the element at flat offset `idx`; `OutOfBounds`, with
    /// nothing changed, where `idx` is not below `len()`.
    pub fn write_to_1d_idx(&mut self, value: T, idx: usize) -> (r: Result<(), ArrayError>)
        requires
            old(self).wf(),
        ensures
            final(self).wf(),
            final(self).spec_ngrid() == old(self).spec_ngrid(),
            final(self).spec_ns1() == old(self).spec_ns1(),
            final(self).spec_ns2() == old(self).spec_ns2(),
            final(self).spec_storage() == old(self).spec_storage(),
            match r {
                Ok(_) => {
                    &&& (idx as int) < old(self)@.len()
                    &&& final(self)@ == old(self)@.update(idx as int, value)
                },
                Err(e) => {
                    &&& (idx as int) >= old(self)@.len()
                    &&& e == ArrayError::OutOfBounds
                    &&& final(self)@ == old(self)@
                },
            },
    {
        if idx >= self.data.len() {
            return Err(ArrayError::OutOfBounds);
        }
        self.data.set(idx, value);
        Ok(())
    }

    /// Overwrites the element at coordinate `(grid, row, col)`; under
    /// packed storage `(grid, row, col)` and `(grid, col, row)` name the
    /// same element. `OutOfBounds`, with nothing changed, where the
    /// coordinate names no stored element.
    pub fn write_to_idx(&mut self, value: T, idx: (usize, usize, usize)) -> (r: Result<(), ArrayError>)
        requires
            old(self).wf(),
        ensures
            final(self).wf(),
            final(self).spec_ngrid() == old(self).spec_ngrid(),
            final(self).spec_ns1() == old(self).spec_ns1(),
            final(self).spec_ns2() == old(self).spec_ns2(),
            final(self).spec_storage() == old(self).spec_storage(),
            match r {
                Ok(_) => {
                    &&& old(self).spec_in_bounds(idx.0 as int, idx.1 as int, idx.2 as int)
                    &&& final(self)@ == old(self)@.update(
                        old(self).spec_offset(idx.0 as int, idx.1 as int, idx.2 as int),
                        value,
                    )
                },
                Err(e) => {
                    &&& !old(self).spec_in_bounds(idx.0 as int, idx.1 as int, idx.2 as int)
                    &&& e == ArrayError::OutOfBounds
                    &&& final(self)@ == old(self)@
                },
            },
    {
        match self.flat_index(idx) {
            Ok(o) => self.write_to_1d_idx(value, o),
            Err(e) => Err(e),
        }
    }

    /// The whole buffer, in flat-offset order.
    pub fn as_slice(&self) -> (r: &[T])
        ensures
            r@ == self@,
    {
        self.data.as_slice()
    }

    /// Number of stored elements.
    pub fn len(&self) -> (r: usize)
        requires
            self.wf(),
        ensures
            r as int == self@.len(),
            r as int == self.spec_len(),
    {
        self.len_total
    }

    /// Whether the container stores no element.
    pub fn is_empty(&self) -> (r: bool)
        requires
            self.wf(),
        ensures
            r == (self@.len() == 0),
    {
        self.len_total == 0
    }

    /// Stored elements per grid point.
    pub fn len_sites(&self) -> (r: usize)
        requires
            self.wf(),
        ensures
            r as int == self.spec_len_sites(),
    {
        self.len_sites
    }

    /// Number of radial grid points.
    pub fn ngrid(&self) -> (r: usize)
        ensures
            r as nat == self.spec_ngrid(),
    {
        self.ngrid
    }

    /// First site dimension (rows).
    pub fn ns1(&self) -> (r: usize)
        ensures
            r as nat == self.spec_ns1(),
    {
        self.ns1
    }

    /// Second site dimension (columns).
    pub fn ns2(&self) -> (r: usize)
        ensures
            r as nat == self.spec_ns2(),
    {
        self.ns2
    }

    /// The layout policy.
    pub fn storage(&self) -> (r: Storage)
        ensures
            r == self.spec_storage(),
    {
        self.storage
    }
}

impl<T: Copy> RadialArray<T> {
    /// The element at flat offset `idx`, or `OutOfBounds`.
    pub fn read_flat(&self, idx: usize) -> (r: Result<T, ArrayError>)
        requires
            self.wf(),
        ensures
            match r {
                Ok(v) => (idx as int) < self@.len() && v == self@[idx as int],
                Err(e) => (idx as int) >= self@.len() && e == ArrayError::OutOfBounds,
            },
    {
        if idx >= self.data.len() {
            return Err(ArrayError::OutOfBounds);
        }
        Ok(self.data[idx])
    }

    /// The element at coordinate `(grid, row, col)`, or `OutOfBounds`.
    pub fn read_at(&self, idx: (usize, usize, usize)) -> (r: Result<T, ArrayError>)
        requires
            self.wf(),
        ensures
            match r {
                Ok(v) => {
                    &&& self.spec_in_bounds(idx.0 as int, idx.1 as int, idx.2 as int)
                    &&& v == self@[self.spec_offset(idx.0 as int, idx.1 as int, idx.2 as int)]
                },
                Err(e) => {
                    &&& !self.spec_in_bounds(idx.0 as int, idx.1 as int, idx.2 as int)
                    &&& e == ArrayError::OutOfBounds
                },
            },
    {
        match self.flat_index(idx) {
            Ok(o) => self.read_flat(o),
            Err(e) => Err(e),
        }
    }

    /// A container of `ngrid` grid points under `storage`, with every
    /// element set to `value`.
    ///
    /// Fails with `ZeroSizedElement` for a zero-sized `T`, with
    /// `AsymmetricPacked` for packed storage of a non-square matrix, and
    /// with `TooLarge` where the buffer would not fit the address space.
    pub fn filled(ngrid: usize, ns1: usize, ns2: usize, storage: Storage, value: T) -> (r: Result<
        Self,
        ArrayError,
    >)
        ensures
            match r {
                Ok(a) => {
                    &&& construction_error(
                        storage,
                        ngrid as int,
                        ns1 as int,
                        ns2 as int,
                        vstd::layout::size_of::<T>() as int,
                    ) is None
                    &&& a.wf()
                    &&& a.spec_ngrid() == ngrid
                    &&& a.spec_ns1() == ns1
                    &&& a.spec_ns2() == ns2
                    &&& a.spec_storage() == storage
                    &&& a@ == Seq::new(a.spec_len() as nat, |i: int| value)
                },
                Err(e) => construction_error(
                    storage,
                    ngrid as int,
                    ns1 as int,
                    ns2 as int,
                    vstd::layout::size_of::<T>() as int,
                ) == Some(e),
            },
    {
        let elem_size: usize = core::mem::size_of::<T>();
        if elem_size == 0 {
            return Err(ArrayError::ZeroSizedElement);
        }
        if storage == Storage::Packed && ns1 != ns2 {
            return Err(ArrayError::AsymmetricPacked);
        }
        let len_sites: usize = match checked_site_len(storage, ns1, ns2) {
            Some(v) => v,
            None => {
                return Err(ArrayError::TooLarge);
            },
        };
        let len_total: usize = match ngrid.checked_mul(len_sites) {
            Some(v) => v,
            None => {
                assert(ngrid as int * len_sites as int * elem_size as int >= ngrid as int
                    * len_sites as int) by (nonlinear_arith)
                    requires
                        elem_size >= 1,
                        ngrid as int * len_sites as int >= 0,
                ;
                return Err(ArrayError::TooLarge);
            },
        };
        match len_total.checked_mul(elem_size) {
            Some(bytes) => {
                if bytes > isize::MAX as usize {
                    return Err(ArrayError::TooLarge);
                }
            },
            None => {
                return Err(ArrayError::TooLarge);
            },
        }
        let mut data: Vec<T> = Vec::new();
        let mut i: usize = 0;
        while i < len_total
            invariant
                i <= len_total,
                data@ == Seq::new(i as nat, |j: int| value),
            decreases len_total - i,
        {
            data.push(value);
            i = i + 1;
            assert(data@ =~= Seq::new(i as nat, |j: int| value));
        }
        Ok(RadialArray { data, len_total, len_sites, ngrid, ns1, ns2, storage })
    }
}

/// Under `Full` storage the buffer holds `ngrid * ns1 * ns2` elements.
pub proof fn law_full_len<T>(a: &RadialArray<T>)
    requires
        a.wf(),
        a.spec_storage() == Storage::Full,
    ensures
        a@.len() == a.spec_ngrid() * a.spec_ns1() * a.spec_ns2(),
{
    a.lemma_wf();
    assert(a.spec_ngrid() * (a.spec_ns1() * a.spec_ns2()) == a.spec_ngrid() * a.spec_ns1()
        * a.spec_ns2()) by (nonlinear_arith);
}

/// Under `Packed` storage of an `n x n` matrix the buffer holds
/// `ngrid * n * (n + 1) / 2` elements.
pub proof fn law_packed_len<T>(a: &RadialArray<T>)
    requires
        a.wf(),
        a.spec_storage() == Storage::Packed,
    ensures
        a.spec_ns1() == a.spec_ns2(),
        a@.len() == a.spec_ngrid() * a.spec_ns1() * (a.spec_ns1() + 1) / 2,
{
    a.lemma_wf();
    let g = a.spec_ngrid() as int;
    let n = a.spec_ns1() as int;
    lemma_tri_halves(n);
    if n % 2 == 0 {
        let h = n / 2;
        assert(g * (h * (n + 1)) * 2 == g * n * (n + 1)) by (nonlinear_arith)
            requires n == 2 * h;
    } else {
        let h = (n + 1) / 2;
        assert(g * (n * h) * 2 == g * n * (n + 1)) by (nonlinear_arith)
            requires n + 1 == 2 * h;
    }
}

/// Packed storage of a non-square matrix is refused with a configuration
/// error, whatever the element type and grid size.
pub proof fn law_packed_asymmetric_refused(ngrid: int, ns1: int, ns2: int, elem_size: int)
    requires
        ns1 != ns2,
    ensures
        construction_error(Storage::Packed, ngrid, ns1, ns2, elem_size) matches Some(e)
            && e.is_config(),
{
}

/// A zero-sized element type is refused with a configuration error,
/// whatever the dimensions and layout.
pub proof fn law_zero_sized_refused(storage: Storage, ngrid: int, ns1: int, ns2: int)
    ensures
        construction_error(storage, ngrid, ns1, ns2, 0) == Some(ArrayError::ZeroSizedElement),
        ArrayError::ZeroSizedElement.is_config(),
{
}

/// Under `Full` storage, coordinate `(g, r, c)` is flat offset
/// `g * ns1 * ns2 + r * ns2 + c`: after a write there, that offset reads
/// back the value and every other offset keeps its element.
pub proof fn law_full_write_then_read<T>(a: &RadialArray<T>, g: int, r: int, c: int, value: T)
    requires
        a.wf(),
        a.spec_storage() == Storage::Full,
        a.spec_in_bounds(g, r, c),
    ensures
        a.spec_offset(g, r, c) == g * a.spec_ns1() * a.spec_ns2() + r * a.spec_ns2() + c,
        0 <= a.spec_offset(g, r, c) < a@.len(),
        a@.update(a.spec_offset(g, r, c), value)[a.spec_offset(g, r, c)] == value,
        forall|j: int|
            0 <= j < a@.len() && j != a.spec_offset(g, r, c) ==> a@.update(
                a.spec_offset(g, r, c),
                value,
            )[j] == a@[j],
{
    a.lemma_wf();
    lemma_flat_offset_bound(
        a.spec_storage(),
        a.spec_ngrid() as int,
        a.spec_ns1() as int,
        a.spec_ns2() as int,
        g,
        r,
        c,
    );
    assert(g * (a.spec_ns1() * a.spec_ns2()) == g * a.spec_ns1() * a.spec_ns2())
        by (nonlinear_arith);
}

/// Under `Packed` storage, `(g, r, c)` and `(g, c, r)` are the same
/// element: both are in bounds together, share one flat offset, and of two
/// writes to the pair the later one is what is read.
pub proof fn law_packed_symmetric<T>(a: &RadialArray<T>, g: int, r: int, c: int, first: T, second: T)
    requires
        a.wf(),
        a.spec_storage() == Storage::Packed,
        a.spec_in_bounds(g, r, c),
    ensures
        a.spec_in_bounds(g, c, r),
        a.spec_offset(g, r, c) == a.spec_offset(g, c, r),
        0 <= a.spec_offset(g, r, c) < a@.len(),
        a@.update(a.spec_offset(g, r, c), first).update(a.spec_offset(g, c, r), second)[
            a.spec_offset(g, r, c)] == second,
{
    a.lemma_wf();
    lemma_flat_offset_bound(
        a.spec_storage(),
        a.spec_ngrid() as int,
        a.spec_ns1() as int,
        a.spec_ns2() as int,
        g,
        r,
        c,
    );
}

/// Relies on `num::zero`: the additive identity of `T`. Nothing is assumed
/// of the value it returns.
#[verifier::external_body]
fn zero_value<T: num::Num>() -> T {
    num::zero()
}

impl<T: num::Num + Copy> RadialArray<T> {
    /// A container of `ngrid` grid points under `storage`, with every
    /// element set to `T`'s zero.
    ///
    /// Fails exactly as `filled` does: with `ZeroSizedElement`,
    /// `AsymmetricPacked` or `TooLarge`.
    pub fn new(ngrid: usize, ns1: usize, ns2: usize, storage: Storage) -> (r: Result<
        Self,
        ArrayError,
    >)
        ensures
            match r {
                Ok(a) => {
                    &&& construction_error(
                        storage,
                        ngrid as int,
                        ns1 as int,
                        ns2 as int,
                        vstd::layout::size_of::<T>() as int,
                    ) is None
                    &&& a.wf()
                    &&& a.spec_ngrid() == ngrid
                    &&& a.spec_ns1() == ns1
                    &&& a.spec_ns2() == ns2
                    &&& a.spec_storage() == storage
                    &&& a@.len() == a.spec_len()
                    &&& forall|i: int, j: int|
                        0 <= i < a@.len() && 0 <= j < a@.len() ==> a@[i] == a@[j]
                },
                Err(e) => construction_error(
                    storage,
                    ngrid as int,
                    ns1 as int,
                    ns2 as int,
                    vstd::layout::size_of::<T>() as int,
                ) == Some(e),
            },
    {
        let zero: T = zero_value();
        Self::filled(ngrid, ns1, ns2, storage, zero)
    }
}

} // verus!
