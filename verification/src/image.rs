//! Turning a camera frame into the texture that the viewer shows.
use vstd::prelude::*;
use crate::frame::Frame;

verus! {

/// The size of a texture: width, height and number of layers.
#[derive(PartialEq, Eq, Structural, Debug, Clone, Copy)]
pub struct ImageExtent {
    pub width: u32,
    pub height: u32,
    pub depth_or_array_layers: u32,
}

/// The texture size of a frame: as wide as its columns, as high as its rows,
/// one layer (lengths are cut to 32 bits as `as u32` does).
pub open spec fn extent_of(rows: usize, cols: usize) -> ImageExtent {
    ImageExtent { width: cols as u32, height: rows as u32, depth_or_array_layers: 1 }
}

/// The texture size of `frame`.
pub fn frame_extent(frame: &Frame) -> (r: ImageExtent)
    ensures
        r == extent_of(frame.rows(), frame.cols()),
{
    let (rows, cols, _channels) = frame.dim();
    ImageExtent { width: cols as u32, height: rows as u32, depth_or_array_layers: 1 }
}

/// The texture of `frame`: its size, and its bytes in row-major order.
pub fn frame_image(frame: &Frame) -> (r: (ImageExtent, Vec<u8>))
    ensures
        r.0 == extent_of(frame.rows(), frame.cols()),
        r.1@ == frame.pixels(),
        r.1@.len() == frame.rows() * frame.cols() * frame.channels(),
{
    let extent = frame_extent(frame);
    let data = frame.to_pixels();
    (extent, data)
}


/// The texture's bytes fill its size exactly: when the frame's lengths fit in 32 bits,
/// there are `width * height * channels` of them.
pub proof fn law_texture_fills_extent(rows: usize, cols: usize, channels: usize)
    requires
        rows <= u32::MAX,
        cols <= u32::MAX,
    ensures
        extent_of(rows, cols).width == cols,
        extent_of(rows, cols).height == rows,
        extent_of(rows, cols).depth_or_array_layers == 1,
        extent_of(rows, cols).width * extent_of(rows, cols).height * channels == rows * cols * channels,
{
    assert(cols as u32 == cols);
    assert(rows as u32 == rows);
    assert(extent_of(rows, cols).width * extent_of(rows, cols).height == rows * cols) by (nonlinear_arith)
        requires
            extent_of(rows, cols).width == cols,
            extent_of(rows, cols).height == rows,
    ;
}

} // verus!
