//! Dimensions and byte sizes of the pixel buffers attached to a surface.
use vstd::prelude::*;

verus! {

/// Bytes per pixel of the fixed 32-bit ARGB format.
pub const BYTES_PER_PIXEL: u32 = 4;

/// Number of frames kept per surface (double buffering).
pub const FRAME_COUNT: u32 = 2;

/// The largest byte count that the wire protocol can carry (a signed 32-bit value).
pub const WIRE_MAX: u32 = 0x7fff_ffff;

/// A compositor dimension of zero means "client decides": it is taken as one.
pub open spec fn coerced(d: u32) -> u32 {
    if d == 0 { 1 } else { d }
}

/// Bytes in one row of pixels.
pub open spec fn stride_of(width: int) -> int {
    width * BYTES_PER_PIXEL
}

/// Bytes of the whole pool: every row of every frame.
pub open spec fn pool_size_of(width: int, height: int) -> int {
    height * stride_of(width) * FRAME_COUNT
}

/// A pool of these dimensions can be announced on the wire.
pub open spec fn fits_wire(width: int, height: int) -> bool {
    pool_size_of(width, height) <= WIRE_MAX
}

/// The geometry of a buffer pool for one acknowledged size.
#[derive(Clone, Copy, Debug, PartialEq, Eq, Structural)]
pub struct BufferLayout {
    pub width: u32,
    pub height: u32,
    pub stride: u32,
    pub size: u32,
}

/// The layout that a configure of `width` by `height` asks for, zeros taken
/// as one; `None` when its pool would not fit the wire protocol.
pub open spec fn layout_for(width: u32, height: u32) -> Option<BufferLayout> {
    let w = coerced(width);
    let h = coerced(height);
    if fits_wire(w as int, h as int) {
        Some(
            BufferLayout {
                width: w,
                height: h,
                stride: stride_of(w as int) as u32,
                size: pool_size_of(w as int, h as int) as u32,
            },
        )
    } else {
        None
    }
}

impl BufferLayout {
    /// The layout holds exactly the geometry of its own dimensions.
    pub open spec fn wf(&self) -> bool {
        &&& self.width > 0
        &&& self.height > 0
        &&& self.stride == stride_of(self.width as int)
        &&& self.size == pool_size_of(self.width as int, self.height as int)
        &&& self.size <= WIRE_MAX
    }

    /// Every layout that a configure asks for is well formed.
    pub proof fn lemma_layout_for_wf(width: u32, height: u32)
        ensures
            layout_for(width, height) matches Some(l) ==> l.wf(),
    {
        let w = coerced(width) as int;
        let h = coerced(height) as int;
        assert(0 <= w * 4 <= h * (w * 4) * 2) by (nonlinear_arith)
            requires w >= 1, h >= 1;
    }

    /// The layout for the compositor's `width` and `height`, zeros taken as one;
    /// `None` when its pool would not fit the wire protocol.
    pub fn for_configure(width: u32, height: u32) -> (r: Option<BufferLayout>)
        ensures
            r == layout_for(width, height),
            r matches Some(l) ==> l.wf(),
    {
        let w: u32 = if width == 0 { 1 } else { width };
        let h: u32 = if height == 0 { 1 } else { height };
        let limit: u32 = 0x1000_0000;
        if w > limit || h > limit {
            proof {
                lemma_large_side_overflows(w as int, h as int);
            }
            return None;
        }
        let stride: u64 = w as u64 * 4;
        assert((h as int) * (stride as int) <= 0x1000_0000 * 0x4000_0000) by (nonlinear_arith)
            requires h <= 0x1000_0000, stride <= 0x4000_0000;
        let rows: u64 = h as u64 * stride;
        assert(rows <= 0x0400_0000_0000_0000u64);
        let total: u64 = rows * 2;
        if total > WIRE_MAX as u64 {
            return None;
        }
        Some(BufferLayout { width: w, height: h, stride: stride as u32, size: total as u32 })
    }
}

/// For every acknowledged size whose pool fits the wire, the pool holds
/// `height * (width * 4) * 2` bytes.
pub proof fn lemma_pool_size(width: u32, height: u32)
    requires
        width > 0,
        height > 0,
        fits_wire(width as int, height as int),
    ensures
        layout_for(width, height) matches Some(l) && l.size == height * (width * 4) * 2
            && l.stride == width * 4 && l.width == width && l.height == height,
{
    let w = width as int;
    let h = height as int;
    assert(0 <= w * 4 <= h * (w * 4) * 2) by (nonlinear_arith)
        requires w >= 1, h >= 1;
}

/// A configure that reports zero for a dimension gets the buffer of the same
/// configure with one in its place.
pub proof fn lemma_zero_dimension_is_one(width: u32, height: u32)
    ensures
        layout_for(0, height) == layout_for(1, height),
        layout_for(width, 0) == layout_for(width, 1),
{
}

proof fn lemma_large_side_overflows(w: int, h: int)
    requires
        w >= 1,
        h >= 1,
        w > 0x1000_0000 || h > 0x1000_0000,
    ensures
        !fits_wire(w, h),
{
    assert(h * (w * 4) * 2 > 0x7fff_ffff) by (nonlinear_arith)
        requires w >= 1, h >= 1, w > 0x1000_0000 || h > 0x1000_0000;
}

} // verus!
