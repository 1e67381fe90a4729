//! Device-resident 2D grid fields and their double-buffered pairs.
//!
//! A [`FieldBuffer`] models one grid field: its resolution, channel
//! layout, sampling configuration and current contents, addressable as a
//! shader input (by texture handle) and as a render target.  A
//! [`DoubleBufferedField`] keeps two fields of identical shape and a
//! parity bit that selects the read and write roles; `swap` flips the
//! parity in constant time and moves no data.

use vstd::prelude::*;

use crate::grid::dims_ok;
use crate::grid::grid_len;
use crate::fixed::fx_one;

verus! {

/// A borrowed view of initial grid contents handed to [`FieldBuffer::create`].
pub struct ArrayView<'a, T> {
    pub data: &'a [T],
}

/// A borrowed mutable view of grid contents, for readback by a host driver.
pub struct ArrayViewMut<'a, T> {
    pub data: &'a mut [T],
}

impl<'a, T> ArrayView<'a, T> {
    /// Wrap a borrowed slice.
    pub fn create(data: &'a [T]) -> (r: ArrayView<'a, T>)
        ensures
            r.data@ == data@,
    {
        ArrayView { data }
    }
}

impl<'a, T> ArrayViewMut<'a, T> {
    /// Wrap a mutably borrowed slice.
    pub fn create(data: &'a mut [T]) -> (r: ArrayViewMut<'a, T>)
        ensures
            r.data@ == old(data)@,
    {
        ArrayViewMut { data }
    }
}

/// Channel layout of a field's samples.
#[derive(Clone, Copy, PartialEq, Eq, Structural, Debug)]
pub enum PixelFormat {
    /// Two channels per texel: vector quantities and scalar pairs.
    Rg,
    /// Four channels per texel: the displayed dye field.
    Rgba,
}

impl PixelFormat {
    /// Number of channels per texel.
    pub open spec fn channels_s(self) -> int {
        match self {
            PixelFormat::Rg => 2,
            PixelFormat::Rgba => 4,
        }
    }

    /// Number of channels per texel.
    pub fn channels(self) -> (r: usize)
        ensures
            r as int == self.channels_s(),
    {
        match self {
            PixelFormat::Rg => 2,
            PixelFormat::Rgba => 4,
        }
    }
}

/// How the device samples a field between texels.
#[derive(Clone, Copy, PartialEq, Eq, Structural, Debug)]
pub enum FilterMode {
    Nearest,
    Linear,
}

/// How the device addresses a field outside the unit square.
#[derive(Clone, Copy, PartialEq, Eq, Structural, Debug)]
pub enum WrapMode {
    ClampToEdge,
    Repeat,
}

/// Sampling configuration attached to a field at creation.
#[derive(Clone, Copy, PartialEq, Eq, Structural, Debug)]
pub struct SamplingParams {
    pub filter: FilterMode,
    pub wrap: WrapMode,
}

/// The size of one texel in the unit square, in fixed point.
#[derive(Clone, Copy, PartialEq, Eq, Structural, Debug)]
pub struct TexelSize {
    pub x: i32,
    pub y: i32,
}

/// Why a field-to-field copy was refused.
#[derive(Clone, Copy, PartialEq, Eq, Structural, Debug)]
pub enum CopyError {
    /// The two fields differ in width or height.
    SizeMismatch,
    /// The two fields agree in size but differ in channel layout.
    FormatMismatch,
}

/// One grid field: storage plus an attached render target.  The render
/// target always targets exactly this field's storage, and both are
/// released together when the value is dropped; ownership rules out any
/// use after destruction.
pub struct FieldBuffer {
    /// Device handle of the field's storage, the value bound by `attach`.
    pub id: u32,
    pub width: usize,
    pub height: usize,
    pub format: PixelFormat,
    pub sampling: SamplingParams,
    /// Current contents, row-major, channels interleaved per texel.
    pub data: Vec<i32>,
}

impl FieldBuffer {
    /// The field's dimensions are in range and its storage has exactly
    /// one sample per channel of every texel.
    pub open spec fn wf(self) -> bool {
        &&& dims_ok(self.width as int, self.height as int, self.format.channels_s())
        &&& self.data@.len() == grid_len(
            self.width as int,
            self.height as int,
            self.format.channels_s(),
        )
    }

    /// Allocate a field and its render target.  Without `initial` the
    /// storage is left device-default: callers must not assume any
    /// particular contents unless they clear the field explicitly.
    pub fn create(
        id: u32,
        width: usize,
        height: usize,
        format: PixelFormat,
        initial: Option<ArrayView<'_, i32>>,
        sampling: SamplingParams,
    ) -> (r: FieldBuffer)
        requires
            dims_ok(width as int, height as int, format.channels_s()),
            initial matches Some(v) ==> v.data@.len() == grid_len(
                width as int,
                height as int,
                format.channels_s(),
            ),
        ensures
            r.wf(),
            r.id == id,
            r.width == width,
            r.height == height,
            r.format == format,
            r.sampling == sampling,
            initial matches Some(v) ==> r.data@ == v.data@,
    {
        let channels = format.channels();
        let data: Vec<i32> = match initial {
            Some(view) => vstd::slice::slice_to_vec(view.data),
            None => {
                let mut zeros: Vec<i32> = Vec::new();
                proof {
                    assert(width as int * height as int <= 0x4000000 && width as int * height as int
                        * channels as int <= 0x10000000) by (nonlinear_arith)
                        requires
                            1 <= width <= 8192,
                            1 <= height <= 8192,
                            1 <= channels <= 4,
                    ;
                }
                let mut remaining = width * height * channels;
                while remaining > 0
                    invariant
                        zeros@.len() + remaining == width * height * channels,
                    decreases remaining,
                {
                    zeros.push(0);
                    remaining = remaining - 1;
                }
                zeros
            },
        };
        FieldBuffer { id, width, height, format, sampling, data }
    }

    /// The field's width in texels.
    pub fn width(&self) -> (r: usize)
        ensures
            r == self.width,
    {
        self.width
    }

    /// The field's height in texels.
    pub fn height(&self) -> (r: usize)
        ensures
            r == self.height,
    {
        self.height
    }

    /// Device handle of the field's storage.
    pub fn id(&self) -> (r: u32)
        ensures
            r == self.id,
    {
        self.id
    }

    /// The size of one texel, `(1/width, 1/height)` in fixed point.
    pub fn texel_size(&self) -> (r: TexelSize)
        requires
            self.wf(),
        ensures
            r.x as int == fx_one() / self.width as int,
            r.y as int == fx_one() / self.height as int,
    {
        let x = (65536u64 / self.width as u64) as i32;
        let y = (65536u64 / self.height as u64) as i32;
        proof {
            vstd::arithmetic::div_mod::lemma_div_nonincreasing(fx_one(), self.width as int);
            vstd::arithmetic::div_mod::lemma_div_pos_is_pos(fx_one(), self.width as int);
            vstd::arithmetic::div_mod::lemma_div_nonincreasing(fx_one(), self.height as int);
            vstd::arithmetic::div_mod::lemma_div_pos_is_pos(fx_one(), self.height as int);
        }
        TexelSize { x, y }
    }

    /// Bind this field's storage as a shader input at texture unit
    /// `unit`; returns the unit for call chaining.
    pub fn attach(&self, unit: u32) -> (r: u32)
        ensures
            r == unit,
    {
        unit
    }

    /// Make this field a full copy of `other`.  Fails with
    /// `SizeMismatch` when the dimensions differ and with
    /// `FormatMismatch` when the channel layouts differ; on success the
    /// destination holds exactly the source's contents.
    pub fn copy_from(&mut self, other: &FieldBuffer) -> (r: Result<(), CopyError>)
        ensures
            r is Ok <==> (old(self).width == other.width && old(self).height == other.height
                && old(self).format == other.format),
            r matches Err(e) ==> e == (if old(self).width == other.width && old(self).height
                == other.height {
                CopyError::FormatMismatch
            } else {
                CopyError::SizeMismatch
            }),
            r is Ok ==> final(self).data@ == other.data@,
            r is Err ==> final(self).data@ == old(self).data@,
            final(self).id == old(self).id,
            final(self).width == old(self).width,
            final(self).height == old(self).height,
            final(self).format == old(self).format,
            final(self).sampling == old(self).sampling,
    {
        if self.width != other.width || self.height != other.height {
            return Err(CopyError::SizeMismatch);
        }
        if self.format != other.format {
            return Err(CopyError::FormatMismatch);
        }
        let copied = other.data.clone();
        proof {
            assert(copied@ =~= other.data@);
        }
        self.data = copied;
        Ok(())
    }
}

/// A read/write pair of same-shaped fields selected by a parity bit.
pub struct DoubleBufferedField {
    pub first: FieldBuffer,
    pub second: FieldBuffer,
    /// True when `first` is the read side.
    pub parity: bool,
}

impl DoubleBufferedField {
    /// Both fields are well formed and agree in shape, format and
    /// sampling; only then do read and write roles make sense.
    pub open spec fn wf(self) -> bool {
        &&& self.first.wf()
        &&& self.second.wf()
        &&& self.first.width == self.second.width
        &&& self.first.height == self.second.height
        &&& self.first.format == self.second.format
        &&& self.first.sampling == self.second.sampling
    }

    /// The field currently in the read role.
    pub open spec fn read_spec(self) -> FieldBuffer {
        if self.parity {
            self.first
        } else {
            self.second
        }
    }

    /// The field currently in the write role; never the read field.
    pub open spec fn write_spec(self) -> FieldBuffer {
        if self.parity {
            self.second
        } else {
            self.first
        }
    }

    /// The pair after one swap: same fields, flipped parity.
    pub open spec fn swap_spec(self) -> DoubleBufferedField {
        DoubleBufferedField { first: self.first, second: self.second, parity: !self.parity }
    }

    /// Pair two fields; `first` starts in the read role.
    pub fn create(first: FieldBuffer, second: FieldBuffer) -> (r: DoubleBufferedField)
        requires
            first.wf(),
            second.wf(),
            first.width == second.width,
            first.height == second.height,
            first.format == second.format,
            first.sampling == second.sampling,
        ensures
            r.wf(),
            r.first == first,
            r.second == second,
            r.parity,
    {
        DoubleBufferedField { first, second, parity: true }
    }

    /// The field currently in the read role.
    pub fn read(&self) -> (r: &FieldBuffer)
        ensures
            *r == self.read_spec(),
    {
        if self.parity {
            &self.first
        } else {
            &self.second
        }
    }

    /// The field currently in the write role.
    pub fn write(&self) -> (r: &FieldBuffer)
        ensures
            *r == self.write_spec(),
    {
        if self.parity {
            &self.second
        } else {
            &self.first
        }
    }

    /// Mutable access to the read-role field, for explicit clears.
    pub fn read_mut(&mut self) -> (r: &mut FieldBuffer)
        ensures
            *r == old(self).read_spec(),
            old(self).parity ==> *final(self) == (DoubleBufferedField {
                first: *final(r),
                second: old(self).second,
                parity: old(self).parity,
            }),
            !old(self).parity ==> *final(self) == (DoubleBufferedField {
                first: old(self).first,
                second: *final(r),
                parity: old(self).parity,
            }),
    {
        if self.parity {
            &mut self.first
        } else {
            &mut self.second
        }
    }

    /// Mutable access to the write-role field, the render target of the
    /// next pass.
    pub fn write_mut(&mut self) -> (r: &mut FieldBuffer)
        ensures
            *r == old(self).write_spec(),
            old(self).parity ==> *final(self) == (DoubleBufferedField {
                first: old(self).first,
                second: *final(r),
                parity: old(self).parity,
            }),
            !old(self).parity ==> *final(self) == (DoubleBufferedField {
                first: *final(r),
                second: old(self).second,
                parity: old(self).parity,
            }),
    {
        if self.parity {
            &mut self.second
        } else {
            &mut self.first
        }
    }

    /// The size of one texel of either field.
    pub fn texel_size(&self) -> (r: TexelSize)
        requires
            self.wf(),
        ensures
            r.x as int == fx_one() / self.first.width as int,
            r.y as int == fx_one() / self.first.height as int,
    {
        self.first.texel_size()
    }

    /// Exchange the read and write roles; no data moves.
    pub fn swap(&mut self)
        ensures
            *final(self) == old(self).swap_spec(),
    {
        self.parity = !self.parity;
    }
}

/// Two swaps are the identity: the read and write roles return to the
/// fields they selected before the first swap.
pub proof fn lemma_swap_swap_identity(d: DoubleBufferedField)
    ensures
        d.swap_spec().swap_spec() == d,
        d.swap_spec().swap_spec().read_spec() == d.read_spec(),
        d.swap_spec().swap_spec().write_spec() == d.write_spec(),
{
}

/// The read and write roles never alias: under either parity they select
/// the two distinct fields of the pair, so a pass never reads the field
/// it is writing.
pub proof fn lemma_read_write_disjoint(d: DoubleBufferedField)
    ensures
        d.read_spec() == d.first || d.read_spec() == d.second,
        d.read_spec() == d.first <==> d.write_spec() == d.second,
        d.first.id != d.second.id ==> d.read_spec().id != d.write_spec().id,
{
}

} // verus!
