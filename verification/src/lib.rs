//! The bring-up layer of a freestanding kernel: a text-mode console driver
//! over memory-mapped cells, a diagnostic serial channel, an exit signal
//! toward the hosting virtual machine, and the harness that runs compiled
//! test cases and reports their outcome.

use vstd::prelude::*;

pub mod laws;
pub mod qemu;
pub mod serial;
pub mod surface;
pub mod test_runner;
pub mod vga_buffer;

use crate::serial::SerialChannel;
use crate::vga_buffer::{spec_blank_grid, spec_color_num, Color, ColorCode, Writer};

verus! {

/// Central initialization: builds the resources everything else writes
/// through — an empty console in the default boot color, cursor at column 0,
/// and a serial channel with nothing transmitted yet. They are created once,
/// at startup, and handed to every call site that needs them.
pub fn init() -> (r: (Writer, SerialChannel))
    ensures
        r.0.wf(),
        r.0.col() == 0,
        r.0.color() == ((spec_color_num(Color::Black) << 4) | spec_color_num(Color::Yellow)),
        r.0.grid() == spec_blank_grid(r.0.color()),
        r.1@ == Seq::<char>::empty(),
{
    let writer = Writer::new(ColorCode::new(Color::Yellow, Color::Black));
    let serial = SerialChannel::new();
    (writer, serial)
}

} // verus!
