//! The compositor: one full-screen draw into a target or the display.
//!
//! A blit consumes the active pass's output at the target's resolution
//! and fully overwrites the target — passes never accumulate within one
//! draw; multi-pass accumulation is only ever built by chaining blits
//! with buffer swaps in between.  Blitting with no target writes the
//! display surface that the host presents.

use vstd::prelude::*;

use crate::field::FieldBuffer;
use crate::grid::dims_ok;
use crate::grid::grid_len;
use crate::kernels::zero_grid;
use crate::kernels::zero_seq;

verus! {

/// Owns the full-screen quad geometry and the display surface.
pub struct Compositor {
    pub display_width: usize,
    pub display_height: usize,
    /// The display surface contents, four channels per pixel.
    pub display: Vec<i32>,
}

impl Compositor {
    /// The display surface has one sample per channel of every pixel.
    pub open spec fn wf(self) -> bool {
        &&& dims_ok(self.display_width as int, self.display_height as int, 4)
        &&& self.display@.len() == grid_len(self.display_width as int, self.display_height as int, 4)
    }

    /// Set up the quad geometry and a cleared display surface.
    pub fn create(display_width: usize, display_height: usize) -> (r: Compositor)
        requires
            dims_ok(display_width as int, display_height as int, 4),
        ensures
            r.wf(),
            r.display_width == display_width,
            r.display_height == display_height,
            r.display@ == zero_seq(display_width as int, display_height as int, 4),
    {
        Compositor { display_width, display_height, display: zero_grid(display_width, display_height, 4) }
    }

    /// Draw the active pass output over the whole of `target`,
    /// replacing its contents.
    pub fn blit(&self, target: &mut FieldBuffer, output: Vec<i32>)
        requires
            output@.len() == old(target).data@.len(),
        ensures
            final(target).data@ == output@,
            final(target).id == old(target).id,
            final(target).width == old(target).width,
            final(target).height == old(target).height,
            final(target).format == old(target).format,
            final(target).sampling == old(target).sampling,
    {
        target.data = output;
    }

    /// Draw the active pass output over the whole display surface.
    pub fn blit_display(&mut self, output: Vec<i32>)
        requires
            output@.len() == grid_len(
                old(self).display_width as int,
                old(self).display_height as int,
                4,
            ),
        ensures
            final(self).display@ == output@,
            final(self).display_width == old(self).display_width,
            final(self).display_height == old(self).display_height,
    {
        self.display = output;
    }
}

} // verus!
