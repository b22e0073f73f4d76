//! Frame extraction: the centred square a face crop takes from a frame, and
//! the per-frame latencies of an extraction run.

use std::time::{Duration, Instant};
use vstd::prelude::*;

use crate::time::instant_now;

verus! {

/// A square region of a frame, in frame coordinates.
#[derive(Debug, Clone, Copy, PartialEq, Eq, Structural)]
pub struct CropRegion {
    pub x: u32,
    pub y: u32,
    pub size: u32,
}

/// Crops frames to a centred square of `face_size` pixels.
pub struct FaceCropper {
    face_size: u32,
}

/// The largest centred square of a `width` x `height` frame.
pub open spec fn centred_square(width: u32, height: u32) -> CropRegion {
    let side = if width <= height { width } else { height };
    CropRegion { x: ((width - side) / 2) as u32, y: ((height - side) / 2) as u32, size: side }
}

impl FaceCropper {
    pub closed spec fn size(&self) -> u32 {
        self.face_size
    }

    pub fn new(face_size: u32) -> (c: Self)
        ensures
            c.size() == face_size,
    {
        FaceCropper { face_size }
    }

    /// The size crops are scaled to.
    pub fn face_size(&self) -> (n: u32)
        ensures
            n == self.size(),
    {
        self.face_size
    }

    /// The crop region of a frame with the given dimensions: the largest
    /// centred square.
    pub fn crop_region(&self, width: u32, height: u32) -> (r: CropRegion)
        ensures
            r == centred_square(width, height),
    {
        let side = if width <= height { width } else { height };
        CropRegion { x: (width - side) / 2, y: (height - side) / 2, size: side }
    }
}

/// The crop region is a square inside the frame, as large as the shorter
/// side, with equal margins (up to one pixel) on both sides.
pub proof fn lemma_crop_inside_frame(width: u32, height: u32)
    ensures
        centred_square(width, height).x + centred_square(width, height).size <= width,
        centred_square(width, height).y + centred_square(width, height).size <= height,
        centred_square(width, height).size == if width <= height { width } else { height },
        width - centred_square(width, height).size - 2 * centred_square(width, height).x <= 1,
        height - centred_square(width, height).size - 2 * centred_square(width, height).y <= 1,
{
}

/// An 8-bit RGB frame, row by row, three bytes a pixel.
pub struct RgbFrame {
    pub width: u32,
    pub height: u32,
    pub pixels: Vec<u8>,
}

impl RgbFrame {
    /// The buffer holds exactly `width * height` pixels.
    pub open spec fn wf(&self) -> bool {
        self.pixels@.len() == self.width as int * self.height as int * 3
    }
}

/// The first `rows` rows of the `size`-pixel square at (`x`, `y`) of an
/// image `width` pixels wide, each cut to its `size` pixels, in order.
pub open spec fn cropped_rows(pixels: Seq<u8>, width: nat, x: nat, y: nat, size: nat, rows: nat) -> Seq<u8>
    decreases rows,
{
    if rows == 0 {
        Seq::empty()
    } else {
        let start = ((y + rows - 1) * width + x) * 3;
        cropped_rows(pixels, width, x, y, size, (rows - 1) as nat) + pixels.subrange(start as int, start + size * 3)
    }
}

/// The pixels of a frame inside a square region.
pub open spec fn cropped(pixels: Seq<u8>, width: u32, r: CropRegion) -> Seq<u8> {
    cropped_rows(pixels, width as nat, r.x as nat, r.y as nat, r.size as nat, r.size as nat)
}

/// What `image::imageops::resize` with the triangle filter makes of an RGB
/// buffer of the given dimensions when scaling it to the new ones.
pub uninterp spec fn triangle_resized(pixels: Seq<u8>, width: u32, height: u32, nwidth: u32, nheight: u32) -> Seq<u8>;

/// The face crop of a frame: its centred square, scaled (triangle filter)
/// to `face_size` unless it already has that size.
pub open spec fn face_pixels(pixels: Seq<u8>, width: u32, height: u32, face_size: u32) -> Seq<u8> {
    let r = centred_square(width, height);
    let c = cropped(pixels, width, r);
    if r.size == face_size {
        c
    } else {
        triangle_resized(c, r.size, r.size, face_size, face_size)
    }
}

/// Scales an RGB buffer with `image::imageops::resize` and the triangle
/// filter. The result is a new `nwidth` x `nheight` buffer, a copy when the
/// dimensions are unchanged; its pixel values are left to the name
/// `triangle_resized`. Sizes whose working buffers (four `f32` channels per
/// pixel while scaling) could not be allocated are left out.
#[verifier::external_body]
fn resize_triangle(pixels: &Vec<u8>, width: u32, height: u32, nwidth: u32, nheight: u32) -> (r: Vec<u8>)
    requires
        pixels@.len() == width as int * height as int * 3,
        width as int * nheight as int * 16 <= isize::MAX,
        nwidth as int * nheight as int * 3 <= isize::MAX,
    ensures
        r@ == triangle_resized(pixels@, width, height, nwidth, nheight),
        r@.len() == nwidth as int * nheight as int * 3,
        nwidth == width && nheight == height ==> r@ == pixels@,
{
    match image::RgbImage::from_raw(width, height, pixels.clone()) {
        Some(img) => image::imageops::resize(&img, nwidth, nheight, image::imageops::FilterType::Triangle).into_raw(),
        None => Vec::new(),
    }
}

proof fn lemma_row_in_frame(w: nat, h: nat, x: nat, y: nat, row: nat, size: nat)
    requires
        x + size <= w,
        y + row < h,
    ensures
        ((y + row) * w + x) * 3 + size * 3 <= w * h * 3,
        (y + row) * w <= w * h,
{
    assert(((y + row) * w + x) * 3 + size * 3 <= (y + row + 1) * w * 3) by (nonlinear_arith)
        requires
            x + size <= w,
    ;
    assert((y + row + 1) * w * 3 <= w * h * 3) by (nonlinear_arith)
        requires
            y + row + 1 <= h,
    ;
    assert((y + row) * w <= w * h) by (nonlinear_arith)
        requires
            y + row < h,
    ;
}

/// The pixels of `frame` inside the square `r`, row by row.
fn crop_square(frame: &RgbFrame, r: CropRegion) -> (out: Vec<u8>)
    requires
        frame.wf(),
        r.x + r.size <= frame.width,
        r.y + r.size <= frame.height,
    ensures
        out@ == cropped(frame.pixels@, frame.width, r),
        out@.len() == r.size as int * r.size as int * 3,
{
    let ghost w = frame.width as nat;
    let ghost px = frame.pixels@;
    let total = frame.pixels.len();
    let mut out: Vec<u8> = Vec::new();
    let mut row: u32 = 0;
    while row < r.size
        invariant
            total == px.len(),
            frame.wf(),
            r.x + r.size <= frame.width,
            r.y + r.size <= frame.height,
            row <= r.size,
            w == frame.width,
            px == frame.pixels@,
            out@ == cropped_rows(px, w, r.x as nat, r.y as nat, r.size as nat, row as nat),
            out@.len() == row as int * r.size as int * 3,
        decreases r.size - row,
    {
        proof {
            lemma_row_in_frame(w, frame.height as nat, r.x as nat, r.y as nat, row as nat, r.size as nat);
        }
        let line: usize = (r.y + row) as usize * frame.width as usize;
        let start: usize = (line + r.x as usize) * 3;
        let end: usize = start + r.size as usize * 3;
        let ghost before = out@;
        let mut k: usize = start;
        while k < end
            invariant
                start <= k <= end,
                end <= px.len(),
                px == frame.pixels@,
                out@ == before + px.subrange(start as int, k as int),
            decreases end - k,
        {
            out.push(frame.pixels[k]);
            proof {
                assert(px.subrange(start as int, k + 1) =~= px.subrange(start as int, k as int).push(px[k as int]));
            }
            k = k + 1;
        }
        proof {
            assert(((r.y + row + 1 - 1) * w + r.x) * 3 == start);
            assert((row + 1) * r.size * 3 == row * r.size * 3 + r.size * 3) by (nonlinear_arith);
        }
        row = row + 1;
    }
    out
}

impl FaceCropper {
    /// The face crop of a frame: its largest centred square, scaled to the
    /// cropper's size.
    pub fn crop_center(&self, frame: &RgbFrame) -> (out: RgbFrame)
        requires
            frame.wf(),
            centred_square(frame.width, frame.height).size as int * self.size() as int * 16 <= isize::MAX,
            self.size() as int * self.size() as int * 3 <= isize::MAX,
        ensures
            out.wf(),
            out.width == self.size(),
            out.height == self.size(),
            out.pixels@ == face_pixels(frame.pixels@, frame.width, frame.height, self.size()),
    {
        let r = self.crop_region(frame.width, frame.height);
        proof {
            lemma_crop_inside_frame(frame.width, frame.height);
        }
        let cropped = crop_square(frame, r);
        if r.size == self.face_size {
            RgbFrame { width: r.size, height: r.size, pixels: cropped }
        } else {
            let pixels = resize_triangle(&cropped, r.size, r.size, self.face_size, self.face_size);
            RgbFrame { width: self.face_size, height: self.face_size, pixels }
        }
    }
}

/// The latencies of an extraction run.
pub struct Stats {
    frame_times: Vec<Duration>,
    start: Instant,
}

impl Stats {
    /// The latencies recorded so far, in order.
    pub closed spec fn frame_times(&self) -> Seq<Duration> {
        self.frame_times@
    }

    /// The instant the run started.
    pub closed spec fn started(&self) -> Instant {
        self.start
    }

    /// A run starting now with no frames.
    pub fn new() -> (s: Self)
        ensures
            s.frame_times().len() == 0,
    {
        Stats { frame_times: Vec::new(), start: instant_now() }
    }

    /// Records one frame's latency.
    pub fn record(&mut self, elapsed: Duration)
        ensures
            final(self).frame_times() == old(self).frame_times().push(elapsed),
            final(self).started() == old(self).started(),
    {
        self.frame_times.push(elapsed);
    }

    /// The latencies recorded so far.
    pub fn latencies(&self) -> (v: &Vec<Duration>)
        ensures
            v@ == self.frame_times(),
    {
        &self.frame_times
    }

    /// When the run started.
    pub fn started_at(&self) -> (t: &Instant)
        ensures
            *t == self.started(),
    {
        &self.start
    }
}

} // verus!
