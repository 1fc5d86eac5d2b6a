//! The cutscene shown for a moment between two scenes: its image centered
//! on the 640×480 screen over black, counted down frame by frame before the
//! next scene is entered.

use vstd::prelude::*;
use crate::cursor::lemma_index_decode;
use crate::scene::Scene;
use crate::sprite::Bitmap;
use crate::toolbox::half_toward_zero;

verus! {

/// Frames a transition cutscene shows (about half a second at 30 fps)
pub const TRANSITION_FRAMES: u8 = 15;

/// Opaque black
pub const BLACK: u32 = 0xFF000000;

/// A transition cutscene while it shows
pub struct Transition {
    /// RGBA bytes of the image, row by row
    pub pixels: Vec<u8>,
    pub width: u32,
    pub height: u32,
    /// Top-left corner of the image on the screen
    pub x: i32,
    pub y: i32,
    /// Frames it still shows
    pub frames_left: u8,
    /// The scene entered when it ends
    pub target: Scene,
}

/// The image pixel (sx, sy) that lands on screen pixel `d`, if any
pub open spec fn image_source(t: Transition, d: int) -> Option<(int, int)> {
    if d < 0 || d >= 640 * 480 {
        None
    } else {
        let sx = d % 640 - t.x;
        let sy = d / 640 - t.y;
        if 0 <= sx < t.width && 0 <= sy < t.height { Some((sx, sy)) } else { None }
    }
}

/// Screen pixel `d` while the cutscene shows: the image's color where it has
/// a pixel that is not fully transparent, else black
pub open spec fn shown_pixel(t: Transition, d: int) -> u32 {
    match image_source(t, d) {
        Some((sx, sy)) => {
            let i = (sy * t.width + sx) * 4;
            if i + 3 < t.pixels@.len() && t.pixels@[i + 3] != 0 {
                0xFF000000u32 | ((t.pixels@[i] as u32) << 16u32) | ((t.pixels@[i + 1] as u32) << 8u32) | (t.pixels@[i + 2] as u32)
            } else {
                0xFF000000u32
            }
        },
        None => 0xFF000000u32,
    }
}

impl Transition {
    /// The cutscene of a bitmap before entering `target`: centered on the
    /// screen, showing for `TRANSITION_FRAMES` frames
    pub fn new(bmp: Bitmap, target: Scene) -> (r: Self)
        requires
            (bmp.width as i32) > i32::MIN + 640,
            (bmp.height as i32) > i32::MIN + 480,
        ensures
            r.pixels == bmp.pixels,
            r.width == bmp.width,
            r.height == bmp.height,
            r.x == half_toward_zero(640 - (bmp.width as i32)),
            r.y == half_toward_zero(480 - (bmp.height as i32)),
            r.frames_left == TRANSITION_FRAMES,
            r.target == target,
    {
        let x = (640 - bmp.width as i32) / 2;
        let y = (480 - bmp.height as i32) / 2;
        Transition { pixels: bmp.pixels, width: bmp.width, height: bmp.height, x, y, frames_left: TRANSITION_FRAMES, target }
    }

    /// Draw the cutscene: the whole framebuffer turns black, then the image's
    /// pixels that are not fully transparent are drawn opaque where they fall
    /// on the 640×480 screen
    pub fn draw(&self, fb: &mut [u32])
        requires
            old(fb)@.len() >= 640 * 480,
            self.width <= i32::MAX,
            self.height <= i32::MAX,
            self.x + self.width <= i32::MAX + 1,
            self.y + self.height <= i32::MAX + 1,
            self.width * self.height <= i32::MAX + 1,
            self.width * self.height * 4 + 3 <= usize::MAX,
        ensures
            final(fb)@.len() == old(fb)@.len(),
            forall|d: int| 0 <= d < old(fb)@.len() ==> #[trigger] final(fb)@[d] == shown_pixel(*self, d),
    {
        let ghost t = *self;
        let n = fb.len();
        let mut i: usize = 0;
        while i < n
            invariant
                n == fb@.len(),
                i <= n,
                forall|d: int| 0 <= d < i ==> #[trigger] fb@[d] == BLACK,
            decreases n - i,
        {
            fb[i] = BLACK;
            i = i + 1;
        }
        let ghost start = fb@;
        let w = self.width as i32;
        let h = self.height as i32;
        let mut sy: i32 = 0;
        while sy < h
            invariant
                0 <= sy <= h,
                t == *self,
                h == t.height, w == t.width,
                t.x + t.width <= i32::MAX + 1,
                t.y + t.height <= i32::MAX + 1,
                t.width * t.height <= i32::MAX + 1,
                t.width * t.height * 4 + 3 <= usize::MAX,
                start.len() >= 640 * 480,
                fb@.len() == start.len(),
                forall|d: int| 0 <= d < start.len() ==> #[trigger] start[d] == BLACK,
                forall|d: int| 0 <= d < start.len() ==> #[trigger] fb@[d] == (match image_source(t, d) {
                    Some((sx2, sy2)) => if sy2 < sy { shown_pixel(t, d) } else { BLACK },
                    None => if d < 640 * 480 { BLACK } else { start[d] },
                }),
            decreases h - sy,
        {
            let dy = self.y + sy;
            let mut sx: i32 = 0;
            while sx < w
                invariant
                    0 <= sy < h,
                    0 <= sx <= w,
                    t == *self,
                    h == t.height, w == t.width,
                    dy == t.y + sy,
                    t.x + t.width <= i32::MAX + 1,
                    t.y + t.height <= i32::MAX + 1,
                    t.width * t.height <= i32::MAX + 1,
                    t.width * t.height * 4 + 3 <= usize::MAX,
                    start.len() >= 640 * 480,
                    fb@.len() == start.len(),
                    forall|d: int| 0 <= d < start.len() ==> #[trigger] start[d] == BLACK,
                    forall|d: int| 0 <= d < start.len() ==> #[trigger] fb@[d] == (match image_source(t, d) {
                        Some((sx2, sy2)) => if sy2 < sy || (sy2 == sy && sx2 < sx) { shown_pixel(t, d) } else { BLACK },
                        None => if d < 640 * 480 { BLACK } else { start[d] },
                    }),
                decreases w - sx,
            {
                let dx = self.x + sx;
                if dy >= 0 && dy < 480 && dx >= 0 && dx < 640 {
                    proof {
                        lemma_index_decode(dy as int, dx as int, 640);
                    }
                    let dst = (dy as usize) * 640 + (dx as usize);
                    let ghost dd = dst as int;
                    assert(image_source(t, dd) == Some((sx as int, sy as int)));
                    assert((sy as int) * (w as int) + (sx as int) < (w as int) * (h as int)) by (nonlinear_arith)
                        requires
                            0 <= sy < h,
                            0 <= sx < w,
                    ;
                    let si = ((sy * w + sx) as usize) * 4;
                    if si + 3 < self.pixels.len() && self.pixels[si + 3] != 0 {
                        let r = self.pixels[si] as u32;
                        let g = self.pixels[si + 1] as u32;
                        let b = self.pixels[si + 2] as u32;
                        fb[dst] = 0xFF000000u32 | (r << 16) | (g << 8) | b;
                    }
                    assert forall|d: int| 0 <= d < start.len() && d != dd implies #[trigger] image_source(t, d) != Some((sx as int, sy as int)) by {
                        if image_source(t, d) == Some((sx as int, sy as int)) {
                            assert(d % 640 == dx && d / 640 == dy);
                            vstd::arithmetic::div_mod::lemma_fundamental_div_mod(d, 640);
                        }
                    }
                } else {
                    assert forall|d: int| 0 <= d < start.len() implies #[trigger] image_source(t, d) != Some((sx as int, sy as int)) by {
                        if image_source(t, d) == Some((sx as int, sy as int)) {
                            assert(d % 640 == dx && d / 640 == dy);
                            assert(0 <= d % 640 < 640);
                            assert(0 <= d / 640 < 480);
                        }
                    }
                }
                sx = sx + 1;
            }
            sy = sy + 1;
        }
    }
}

} // verus!
