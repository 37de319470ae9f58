//! Packing of mapped texture rows into an image buffer.

use vstd::prelude::*;

use crate::crop::crop_rows;
use crate::types::{ImageBuffer, ImageModel, Rect};

verus! {

/// The image made of the first `width * 4` bytes of each of the first
/// `height` rows of `src` (row stride `src_pitch`), placed at the
/// rectangle's top-left corner.
pub open spec fn packed_image_spec(src: Seq<u8>, src_pitch: int, rect: Rect) -> ImageModel {
    let w = rect.spec_width();
    let h = rect.spec_height();
    ImageModel {
        width: w as i32,
        height: h as i32,
        row_pitch: (w * 4) as i32,
        origin_x: rect.left,
        origin_y: rect.top,
        bytes: crop_rows(src, src_pitch, 0, 0, w * 4, h as nat),
    }
}

/// Copies the rectangle's rows out of a mapped texture whose rows are
/// `src_pitch` bytes apart, dropping the row padding.
pub fn pack_texture_rows(src: &Vec<u8>, src_pitch: usize, rect: Rect) -> (img: ImageBuffer)
    requires
        0 <= rect.spec_width(),
        0 <= rect.spec_height() <= i32::MAX,
        rect.spec_width() * 4 <= i32::MAX,
        rect.spec_height() == 0 || (rect.spec_height() - 1) * src_pitch + rect.spec_width() * 4
            <= src@.len(),
    ensures
        img@ == packed_image_spec(src@, src_pitch as int, rect),
{
    let width = rect.right - rect.left;
    let height = rect.bottom - rect.top;
    let row_pitch = width * 4;
    let nw4 = row_pitch as usize;
    let src_len = src.len();
    let mut out: Vec<u8> = Vec::new();
    let mut y: usize = 0;
    while y < height as usize
        invariant
            0 <= width,
            0 <= height,
            nw4 == width * 4,
            height == 0 || (height - 1) * src_pitch + nw4 <= src@.len(),
            src@.len() <= usize::MAX,
            y <= height,
            out@ == crop_rows(src@, src_pitch as int, 0, 0, nw4 as int, y as nat),
        decreases height - y,
    {
        assert(y * src_pitch + nw4 <= (height - 1) * src_pitch + nw4) by (nonlinear_arith)
            requires
                y < height,
                0 <= src_pitch,
        ;
        assert(0 <= y * src_pitch) by (nonlinear_arith)
            requires
                0 <= y,
                0 <= src_pitch,
        ;
        let start = y * src_pitch;
        let ghost before = out@;
        let mut k: usize = 0;
        while k < nw4
            invariant
                start + nw4 <= src@.len(),
                src@.len() <= usize::MAX,
                k <= nw4,
                out@ == before + src@.subrange(start as int, start + k),
            decreases nw4 - k,
        {
            out.push(src[start + k]);
            assert(src@.subrange(start as int, start + k + 1) == src@.subrange(
                start as int,
                start + k,
            ).push(src@[start + k]));
            k = k + 1;
        }
        assert((0 + y) * src_pitch + 0 == start);
        y = y + 1;
    }
    ImageBuffer {
        width,
        height,
        row_pitch,
        origin_x: rect.left,
        origin_y: rect.top,
        bgra: out,
    }
}

} // verus!
