//! The console surface: the grid of 2-byte cells that the display hardware
//! reads. Every access goes through a volatile load or store, so no write to
//! a cell can be elided or reordered by the optimizer — the memory must
//! visibly change even to readers outside the compiler's reasoning.
//!
//! The cells are held behind this opaque struct; verified code sees them only
//! through `surface_cells` and the accessors below, whose contracts are the
//! trusted boundary of this module.

use vstd::prelude::*;
use volatile::Volatile;

verus! {

/// A bounds-checked region of volatile cells, row-major. Each cell is the raw
/// hardware pair: byte 0 the character code, byte 1 the color code.
#[verifier::external_body]
pub struct Surface {
    cells: Vec<Volatile<(u8, u8)>>,
}

/// The cells the surface currently holds, in row-major order.
pub uninterp spec fn surface_cells(s: Surface) -> Seq<(u8, u8)>;

impl Surface {
    /// Relies on `Vec::new`: the fresh surface holds no cells.
    #[verifier::external_body]
    pub fn empty() -> (r: Surface)
        ensures
            surface_cells(r) == Seq::<(u8, u8)>::empty(),
    {
        Surface { cells: Vec::new() }
    }

    /// Relies on `volatile::Volatile::new` and `Vec::push`: appends one cell
    /// that holds exactly `v`.
    #[verifier::external_body]
    pub fn push(&mut self, v: (u8, u8))
        ensures
            surface_cells(*final(self)) == surface_cells(*old(self)).push(v),
    {
        self.cells.push(Volatile::new(v));
    }

    /// Relies on `volatile::Volatile::read`: a volatile load returns a copy of
    /// the value stored in cell `i`.
    #[verifier::external_body]
    pub fn read(&self, i: usize) -> (r: (u8, u8))
        requires
            i < surface_cells(*self).len(),
        ensures
            r == surface_cells(*self)[i as int],
    {
        self.cells[i].read()
    }

    /// Relies on `volatile::Volatile::write`: a volatile store sets cell `i`
    /// to exactly `v` and touches no other cell.
    #[verifier::external_body]
    pub fn write(&mut self, i: usize, v: (u8, u8))
        requires
            i < surface_cells(*old(self)).len(),
        ensures
            surface_cells(*final(self)) == surface_cells(*old(self)).update(i as int, v),
    {
        self.cells[i].write(v);
    }
}

} // verus!
