//! Software-rendered cursor with a stack of cursor types.
//!
//! Setting a type pushes it and makes it the active cursor; clearing pops
//! it and brings back the previous one; an empty stack means the standard
//! arrow. Nine cursor bitmaps come from the shared cast (members 73-81),
//! each with the hotspot that marks its click point.

use vstd::prelude::*;
use crate::sprite::Bitmap;

verus! {

/// All cursor types available in the game (shared cast members 73-81)
#[derive(Debug, Clone, Copy, PartialEq, Eq, Structural)]
pub enum CursorType {
    /// member 73: default arrow
    Standard,
    /// member 74: open hand (hover over parts)
    Grab,
    /// member 75: left arrow (left door)
    Left,
    /// member 76: pointing finger (clickable)
    Click,
    /// member 77: return arrow
    Back,
    /// member 78: right arrow (right door)
    Right,
    /// member 79: drag left
    MoveLeft,
    /// member 80: drag right
    MoveRight,
    /// member 81: drag forward
    MoveIn,
}

/// Position of a cursor type in the list of all types
pub open spec fn cursor_index(ct: CursorType) -> int {
    match ct {
        CursorType::Standard => 0,
        CursorType::Grab => 1,
        CursorType::Left => 2,
        CursorType::Click => 3,
        CursorType::Back => 4,
        CursorType::Right => 5,
        CursorType::MoveLeft => 6,
        CursorType::MoveRight => 7,
        CursorType::MoveIn => 8,
    }
}

/// Hotspot (x, y) of a cursor type: the pixel of the image that is the
/// click point
pub open spec fn cursor_hotspot(ct: CursorType) -> (i32, i32) {
    match ct {
        CursorType::Standard => (5, 1),
        CursorType::Grab => (13, 10),
        CursorType::Left => (0, 5),
        CursorType::Click => (1, 1),
        CursorType::Back => (14, 7),
        CursorType::Right => (27, 5),
        CursorType::MoveLeft => (20, 17),
        CursorType::MoveRight => (16, 15),
        CursorType::MoveIn => (15, 16),
    }
}

/// All cursor types, in member order
pub open spec fn all_cursor_types() -> Seq<CursorType> {
    seq![
        CursorType::Standard,
        CursorType::Grab,
        CursorType::Left,
        CursorType::Click,
        CursorType::Back,
        CursorType::Right,
        CursorType::MoveLeft,
        CursorType::MoveRight,
        CursorType::MoveIn,
    ]
}

impl CursorType {
    /// Shared cast member number
    pub fn member(self) -> (r: u32)
        ensures
            r == 73 + cursor_index(self),
    {
        match self {
            CursorType::Standard => 73,
            CursorType::Grab => 74,
            CursorType::Left => 75,
            CursorType::Click => 76,
            CursorType::Back => 77,
            CursorType::Right => 78,
            CursorType::MoveLeft => 79,
            CursorType::MoveRight => 80,
            CursorType::MoveIn => 81,
        }
    }

    /// Hotspot (x, y): the pixel in the cursor image that is the click point
    pub fn hotspot(self) -> (r: (i32, i32))
        ensures
            r == cursor_hotspot(self),
    {
        match self {
            CursorType::Standard => (5, 1),
            CursorType::Grab => (13, 10),
            CursorType::Left => (0, 5),
            CursorType::Click => (1, 1),
            CursorType::Back => (14, 7),
            CursorType::Right => (27, 5),
            CursorType::MoveLeft => (20, 17),
            CursorType::MoveRight => (16, 15),
            CursorType::MoveIn => (15, 16),
        }
    }

    /// Position in the list of all types
    pub fn index(self) -> (r: usize)
        ensures
            r == cursor_index(self),
    {
        match self {
            CursorType::Standard => 0,
            CursorType::Grab => 1,
            CursorType::Left => 2,
            CursorType::Click => 3,
            CursorType::Back => 4,
            CursorType::Right => 5,
            CursorType::MoveLeft => 6,
            CursorType::MoveRight => 7,
            CursorType::MoveIn => 8,
        }
    }

    /// All cursor types, in member order
    pub fn all() -> (r: [CursorType; 9])
        ensures
            r@ == all_cursor_types(),
    {
        let r = [
            CursorType::Standard,
            CursorType::Grab,
            CursorType::Left,
            CursorType::Click,
            CursorType::Back,
            CursorType::Right,
            CursorType::MoveLeft,
            CursorType::MoveRight,
            CursorType::MoveIn,
        ];
        assert(r@ =~= all_cursor_types());
        r
    }

    /// Cast member name ("C_standard", "C_Grab", ...) used to find the
    /// bitmap where member numbers differ between builds
    pub fn director_name(self) -> (r: &'static str)
        ensures
            r@ == (match self {
                CursorType::Standard => "C_standard"@,
                CursorType::Grab => "C_Grab"@,
                CursorType::Left => "C_Left"@,
                CursorType::Click => "C_Click"@,
                CursorType::Back => "C_Back"@,
                CursorType::Right => "C_Right"@,
                CursorType::MoveLeft => "C_MoveLeft"@,
                CursorType::MoveRight => "C_MoveRight"@,
                CursorType::MoveIn => "C_MoveIn"@,
            }),
    {
        match self {
            CursorType::Standard => "C_standard",
            CursorType::Grab => "C_Grab",
            CursorType::Left => "C_Left",
            CursorType::Click => "C_Click",
            CursorType::Back => "C_Back",
            CursorType::Right => "C_Right",
            CursorType::MoveLeft => "C_MoveLeft",
            CursorType::MoveRight => "C_MoveRight",
            CursorType::MoveIn => "C_MoveIn",
        }
    }
}

/// A decoded cursor bitmap
pub struct CursorFrame {
    pub width: u32,
    pub height: u32,
    /// RGBA bytes, row by row
    pub pixels: Vec<u8>,
    pub hotspot_x: i32,
    pub hotspot_y: i32,
}

/// Software cursor with a stack of cursor types
pub struct GameCursor {
    /// One frame per cursor type, in member order (empty when the cast was
    /// not found)
    pub frames: Vec<CursorFrame>,
    /// Stack of cursor types: the last entry is the active cursor, an empty
    /// stack means the standard arrow
    pub history: Vec<CursorType>,
}

/// The active cursor of a stack
pub open spec fn top_cursor(h: Seq<CursorType>) -> CursorType {
    if h.len() == 0 { CursorType::Standard } else { h.last() }
}

/// Index of the first entry equal to `ct`
pub open spec fn first_cursor(h: Seq<CursorType>, ct: CursorType) -> Option<int>
    decreases h.len(),
{
    if h.len() == 0 {
        None
    } else {
        match first_cursor(h.drop_last(), ct) {
            Some(i) => Some(i),
            None => if h.last() == ct { Some(h.len() - 1) } else { None },
        }
    }
}

impl GameCursor {
    /// A cursor without frames (draws nothing) and with an empty stack
    pub fn empty() -> (r: Self)
        ensures
            r.frames@.len() == 0,
            r.history@.len() == 0,
    {
        GameCursor { frames: Vec::new(), history: Vec::new() }
    }

    /// Build the cursor from the bitmaps found for each type, in member
    /// order; `None` means the shared cast was not found (no frames). A type
    /// without a bitmap gets a 1x1 transparent frame with hotspot (0, 0).
    pub fn new(bitmaps: Option<Vec<Option<Bitmap>>>) -> (r: Self)
        ensures
            r.history@.len() == 0,
            match bitmaps {
                None => r.frames@.len() == 0,
                Some(b) => {
                    &&& r.frames@.len() == 9
                    &&& forall|i: int| 0 <= i < 9 ==> {
                        let f = #[trigger] r.frames@[i];
                        let ct = all_cursor_types()[i];
                        if i < b@.len() && b@[i] is Some {
                            &&& f.width == b@[i].unwrap().width
                            &&& f.height == b@[i].unwrap().height
                            &&& f.pixels@ == b@[i].unwrap().pixels@
                            &&& (f.hotspot_x, f.hotspot_y) == cursor_hotspot(ct)
                        } else {
                            &&& f.width == 1 && f.height == 1
                            &&& f.pixels@ == seq![0u8, 0u8, 0u8, 0u8]
                            &&& f.hotspot_x == 0 && f.hotspot_y == 0
                        }
                    }
                },
            },
    {
        let mut bitmaps = match bitmaps {
            None => return GameCursor::empty(),
            Some(b) => b,
        };
        let ghost given = bitmaps@;
        let all = CursorType::all();
        let mut frames: Vec<CursorFrame> = Vec::new();
        let mut i: usize = 0;
        while i < 9
            invariant
                all@ == all_cursor_types(),
                bitmaps@.len() == given.len(),
                forall|k: int| i <= k < given.len() ==> #[trigger] bitmaps@[k] == given[k],
                frames@.len() == i,
                i <= 9,
                forall|k: int| 0 <= k < i ==> {
                    let f = #[trigger] frames@[k];
                    let ct = all_cursor_types()[k];
                    if k < given.len() && given[k] is Some {
                        &&& f.width == given[k].unwrap().width
                        &&& f.height == given[k].unwrap().height
                        &&& f.pixels@ == given[k].unwrap().pixels@
                        &&& (f.hotspot_x, f.hotspot_y) == cursor_hotspot(ct)
                    } else {
                        &&& f.width == 1 && f.height == 1
                        &&& f.pixels@ == seq![0u8, 0u8, 0u8, 0u8]
                        &&& f.hotspot_x == 0 && f.hotspot_y == 0
                    }
                },
            decreases 9 - i,
        {
            let (hx, hy) = all[i].hotspot();
            let found = if i < bitmaps.len() {
                let mut slot: Option<Bitmap> = None;
                std::mem::swap(&mut slot, &mut bitmaps[i]);
                slot
            } else {
                None
            };
            match found {
                Some(bmp) => {
                    frames.push(CursorFrame {
                        width: bmp.width,
                        height: bmp.height,
                        pixels: bmp.pixels,
                        hotspot_x: hx,
                        hotspot_y: hy,
                    });
                },
                None => {
                    let mut px: Vec<u8> = Vec::new();
                    px.push(0);
                    px.push(0);
                    px.push(0);
                    px.push(0);
                    assert(px@ =~= seq![0u8, 0u8, 0u8, 0u8]);
                    frames.push(CursorFrame { width: 1, height: 1, pixels: px, hotspot_x: 0, hotspot_y: 0 });
                },
            }
            i = i + 1;
        }
        GameCursor { frames, history: Vec::new() }
    }

    /// Current active cursor type (top of the stack, or Standard)
    pub fn current(&self) -> (r: CursorType)
        ensures
            r == top_cursor(self.history@),
    {
        if self.history.len() == 0 {
            CursorType::Standard
        } else {
            self.history[self.history.len() - 1]
        }
    }

    /// Push a cursor type (it becomes the active cursor)
    pub fn set(&mut self, ct: CursorType)
        ensures
            final(self).history@ == old(self).history@.push(ct),
            final(self).frames == old(self).frames,
    {
        self.history.push(ct);
    }

    /// Pop the top cursor type (the previous one becomes active)
    pub fn clear(&mut self)
        ensures
            final(self).history@ == (if old(self).history@.len() == 0 {
                old(self).history@
            } else {
                old(self).history@.drop_last()
            }),
            final(self).frames == old(self).frames,
    {
        self.history.pop();
    }

    /// Clear the whole stack (back to Standard)
    pub fn reset(&mut self)
        ensures
            final(self).history@.len() == 0,
            final(self).frames == old(self).frames,
    {
        self.history.clear();
    }

    /// Remove the first (lowest) stack entry of the given type, if any
    pub fn remove(&mut self, ct: CursorType)
        ensures
            final(self).history@ == (match first_cursor(old(self).history@, ct) {
                Some(i) => old(self).history@.remove(i),
                None => old(self).history@,
            }),
            final(self).frames == old(self).frames,
    {
        let ghost h = self.history@;
        let mut i: usize = 0;
        while i < self.history.len()
            invariant
                self.history@ == h,
                h == old(self).history@,
                self.frames == old(self).frames,
                i <= h.len(),
                first_cursor(h.take(i as int), ct) is None,
            decreases h.len() - i,
        {
            let ghost t = h.take(i + 1);
            assert(t.drop_last() =~= h.take(i as int));
            if self.history[i] == ct {
                proof {
                    lemma_first_cursor_prefix(h, ct, i as int);
                }
                self.history.remove(i);
                return;
            }
            i = i + 1;
        }
        assert(h.take(h.len() as int) =~= h);
    }
}

// ---------------------------------------------------------------------------
// Drawing
// ---------------------------------------------------------------------------

/// An RGBA pixel drawn over an opaque framebuffer pixel: fully opaque
/// replaces it, partly transparent mixes each channel by alpha
pub open spec fn blend(dst: u32, r: u32, g: u32, b: u32, a: u32) -> u32 {
    if a >= 255 {
        0xFF000000u32 | (r << 16u32) | (g << 8u32) | b
    } else {
        let inv = (255 - a) as u32;
        let dr = (dst >> 16u32) & 0xFFu32;
        let dg = (dst >> 8u32) & 0xFFu32;
        let db = dst & 0xFFu32;
        let out_r = ((r * a + dr * inv) / 255) as u32;
        let out_g = ((g * a + dg * inv) / 255) as u32;
        let out_b = ((b * a + db * inv) / 255) as u32;
        0xFF000000u32 | (out_r << 16u32) | (out_g << 8u32) | out_b
    }
}

/// The frame pixel (x, y) of a cursor image drawn with its top-left corner
/// at (draw_x, draw_y) that lands on framebuffer pixel `d`, if any
pub open spec fn source_of(f: CursorFrame, draw_x: int, draw_y: int, fb_width: int, fb_height: int, d: int) -> Option<(int, int)> {
    if fb_width <= 0 || d < 0 || d >= fb_width * fb_height {
        None
    } else {
        let sx = d % fb_width - draw_x;
        let sy = d / fb_width - draw_y;
        if 0 <= sx < f.width && 0 <= sy < f.height { Some((sx, sy)) } else { None }
    }
}

/// Framebuffer pixel `d` after drawing the cursor frame over it: a frame
/// pixel with some alpha blends in; a transparent one, or one past the end
/// of the frame's bytes, leaves it
pub open spec fn drawn_pixel(f: CursorFrame, draw_x: int, draw_y: int, fb_width: int, fb_height: int, d: int, old_px: u32) -> u32 {
    match source_of(f, draw_x, draw_y, fb_width, fb_height, d) {
        Some((sx, sy)) => {
            let i = (sy * f.width + sx) * 4;
            if i + 3 < f.pixels@.len() && f.pixels@[i + 3] > 0 {
                blend(old_px, f.pixels@[i] as u32, f.pixels@[i + 1] as u32, f.pixels@[i + 2] as u32, f.pixels@[i + 3] as u32)
            } else {
                old_px
            }
        },
        None => old_px,
    }
}

pub(crate) proof fn lemma_index_decode(dy: int, dx: int, w: int)
    requires
        w > 0,
        0 <= dx < w,
        dy >= 0,
    ensures
        (dy * w + dx) % w == dx,
        (dy * w + dx) / w == dy,
{
    vstd::arithmetic::div_mod::lemma_fundamental_div_mod_converse(dy * w + dx, w, dy, dx);
}

impl GameCursor {
    /// Draw the active cursor into a framebuffer of the given size with its
    /// hotspot at the mouse position; pixels off the framebuffer are
    /// clipped. Nothing is drawn without frames.
    pub fn blit(&self, fb: &mut [u32], fb_width: usize, fb_height: usize, mouse_x: i32, mouse_y: i32)
        requires
            fb_width <= i32::MAX,
            fb_height <= i32::MAX,
            fb_width * fb_height <= old(fb)@.len(),
            self.frames@.len() > 0 ==> cursor_index(top_cursor(self.history@)) < self.frames@.len(),
            self.frames@.len() > 0 ==> ({
                let f = self.frames@[cursor_index(top_cursor(self.history@))];
                &&& f.width <= i32::MAX && f.height <= i32::MAX
                &&& i32::MIN <= mouse_x - f.hotspot_x
                &&& mouse_x - f.hotspot_x + f.width <= i32::MAX
                &&& i32::MIN <= mouse_y - f.hotspot_y
                &&& mouse_y - f.hotspot_y + f.height <= i32::MAX
                &&& f.width * f.height * 4 + 3 <= usize::MAX
            }),
        ensures
            final(fb)@.len() == old(fb)@.len(),
            self.frames@.len() == 0 ==> final(fb)@ == old(fb)@,
            self.frames@.len() > 0 ==> ({
                let f = self.frames@[cursor_index(top_cursor(self.history@))];
                forall|d: int| 0 <= d < old(fb)@.len() ==> #[trigger] final(fb)@[d] == drawn_pixel(
                    f, mouse_x - f.hotspot_x, mouse_y - f.hotspot_y, fb_width as int, fb_height as int, d, old(fb)@[d])
            }),
    {
        if self.frames.len() == 0 {
            return;
        }
        let ct = self.current();
        if ct.index() >= self.frames.len() {
            return;
        }
        let frame = &self.frames[ct.index()];
        let draw_x = mouse_x - frame.hotspot_x;
        let draw_y = mouse_y - frame.hotspot_y;
        let ghost fbw = fb_width as int;
        let ghost fbh = fb_height as int;
        let ghost start = fb@;
        let w = frame.width as i32;
        let h = frame.height as i32;
        let mut sy: i32 = 0;
        while sy < h
            invariant
                0 <= sy <= h,
                h == frame.height, w == frame.width,
                w <= i32::MAX, h <= i32::MAX,
                draw_x == mouse_x - frame.hotspot_x,
                draw_y == mouse_y - frame.hotspot_y,
                i32::MIN <= draw_x, draw_x + w <= i32::MAX,
                i32::MIN <= draw_y, draw_y + h <= i32::MAX,
                frame.width * frame.height * 4 + 3 <= usize::MAX,
                fb_width <= i32::MAX, fb_height <= i32::MAX,
                fbw == fb_width, fbh == fb_height,
                fbw * fbh <= start.len(),
                fb@.len() == start.len(),
                forall|d: int| 0 <= d < start.len() ==> #[trigger] fb@[d] == (match source_of(*frame, draw_x as int, draw_y as int, fbw, fbh, d) {
                    Some((sx, sy2)) => if sy2 < sy { drawn_pixel(*frame, draw_x as int, draw_y as int, fbw, fbh, d, start[d]) } else { start[d] },
                    None => start[d],
                }),
            decreases h - sy,
        {
            let dy = draw_y + sy;
            let mut sx: i32 = 0;
            while sx < w
                invariant
                    0 <= sy < h,
                    0 <= sx <= w,
                    h == frame.height, w == frame.width,
                    w <= i32::MAX, h <= i32::MAX,
                    dy == draw_y + sy,
                    i32::MIN <= draw_x, draw_x + w <= i32::MAX,
                    i32::MIN <= draw_y, draw_y + h <= i32::MAX,
                    frame.width * frame.height * 4 + 3 <= usize::MAX,
                    fb_width <= i32::MAX, fb_height <= i32::MAX,
                    fbw == fb_width, fbh == fb_height,
                    fbw * fbh <= start.len(),
                    fb@.len() == start.len(),
                    forall|d: int| 0 <= d < start.len() ==> #[trigger] fb@[d] == (match source_of(*frame, draw_x as int, draw_y as int, fbw, fbh, d) {
                        Some((sx2, sy2)) => if sy2 < sy || (sy2 == sy && sx2 < sx) {
                            drawn_pixel(*frame, draw_x as int, draw_y as int, fbw, fbh, d, start[d])
                        } else {
                            start[d]
                        },
                        None => start[d],
                    }),
                decreases w - sx,
            {
                let dx = draw_x + sx;
                if dy >= 0 && dy < fb_height as i32 && dx >= 0 && dx < fb_width as i32 {
                    proof {
                        assert((dy as int) * fbw + (dx as int) < fbw * fbh) by (nonlinear_arith)
                            requires
                                0 <= dy < fbh,
                                0 <= dx < fbw,
                        ;
                        lemma_index_decode(dy as int, dx as int, fbw);
                        assert(start.len() == fb@.len());
                        assert((dy as usize) as int == dy as int);
                        assert((dx as usize) as int == dx as int);
                        assert(((dy as usize) as int) * (fb_width as int) + ((dx as usize) as int) < fbw * fbh);
                    }
                    let fb_len = fb.len();
                    assert(fbw * fbh <= fb_len);
                    let dst_idx = (dy as usize) * fb_width + (dx as usize);
                    let ghost dd = dst_idx as int;
                    assert(source_of(*frame, draw_x as int, draw_y as int, fbw, fbh, dd) == Some((sx as int, sy as int)));
                    assert((sy as int) * (frame.width as int) + (sx as int) < (frame.width as int) * (frame.height as int)) by (nonlinear_arith)
                        requires
                            0 <= sy < frame.height,
                            0 <= sx < frame.width,
                    ;
                    let src_idx = ((sy as usize) * (frame.width as usize) + (sx as usize)) * 4;
                    if src_idx + 3 < frame.pixels.len() {
                        let r = frame.pixels[src_idx] as u32;
                        let g = frame.pixels[src_idx + 1] as u32;
                        let b = frame.pixels[src_idx + 2] as u32;
                        let a = frame.pixels[src_idx + 3] as u32;
                        if a != 0 {
                            let old_px = fb[dst_idx];
                            let new_px = if a >= 255 {
                                0xFF000000u32 | (r << 16) | (g << 8) | b
                            } else {
                                let dr = (old_px >> 16) & 0xFF;
                                let dg = (old_px >> 8) & 0xFF;
                                let db = old_px & 0xFF;
                                let inv_a = 255 - a;
                                assert(dr <= 255 && dg <= 255 && db <= 255) by (bit_vector)
                                    requires
                                        dr == (old_px >> 16u32) & 0xFFu32,
                                        dg == (old_px >> 8u32) & 0xFFu32,
                                        db == old_px & 0xFFu32,
                                ;
                                assert(r * a + dr * inv_a <= 255 * 255 * 2) by (nonlinear_arith)
                                    requires r <= 255, a <= 255, dr <= 255, inv_a <= 255;
                                assert(g * a + dg * inv_a <= 255 * 255 * 2) by (nonlinear_arith)
                                    requires g <= 255, a <= 255, dg <= 255, inv_a <= 255;
                                assert(b * a + db * inv_a <= 255 * 255 * 2) by (nonlinear_arith)
                                    requires b <= 255, a <= 255, db <= 255, inv_a <= 255;
                                let out_r = (r * a + dr * inv_a) / 255;
                                let out_g = (g * a + dg * inv_a) / 255;
                                let out_b = (b * a + db * inv_a) / 255;
                                0xFF000000u32 | (out_r << 16) | (out_g << 8) | out_b
                            };
                            fb[dst_idx] = new_px;
                        }
                    }
                    assert forall|d: int| 0 <= d < start.len() && d != dd implies #[trigger] source_of(*frame, draw_x as int, draw_y as int, fbw, fbh, d) != Some((sx as int, sy as int)) by {
                        if source_of(*frame, draw_x as int, draw_y as int, fbw, fbh, d) == Some((sx as int, sy as int)) {
                            assert(d % fbw == dx && d / fbw == dy);
                            vstd::arithmetic::div_mod::lemma_fundamental_div_mod(d, fbw);
                            assert(d == fbw * (d / fbw) + d % fbw);
                            assert(fbw * dy == dy * fbw) by (nonlinear_arith);
                        }
                    }
                } else {
                    assert forall|d: int| 0 <= d < start.len() implies #[trigger] source_of(*frame, draw_x as int, draw_y as int, fbw, fbh, d) != Some((sx as int, sy as int)) by {
                        if source_of(*frame, draw_x as int, draw_y as int, fbw, fbh, d) == Some((sx as int, sy as int)) {
                            assert(d % fbw == dx && d / fbw == dy);
                            assert(0 <= d % fbw < fbw);
                            assert(d / fbw < fbh) by (nonlinear_arith)
                                requires d < fbw * fbh, fbw > 0, d >= 0;
                            assert(d / fbw >= 0) by (nonlinear_arith)
                                requires d >= 0, fbw > 0;
                        }
                    }
                }
                sx = sx + 1;
            }
            sy = sy + 1;
        }
    }
}

proof fn lemma_first_cursor_prefix(h: Seq<CursorType>, ct: CursorType, i: int)
    requires
        0 <= i < h.len(),
        h[i] == ct,
        first_cursor(h.take(i), ct) is None,
    ensures
        first_cursor(h, ct) == Some(i),
    decreases h.len(),
{
    if i == h.len() - 1 {
        assert(h.drop_last() =~= h.take(i));
    } else {
        assert(h.drop_last().take(i) =~= h.take(i));
        lemma_first_cursor_prefix(h.drop_last(), ct, i);
    }
}

// ---------------------------------------------------------------------------
// Laws
// ---------------------------------------------------------------------------

/// Setting a cursor makes it the active one, and clearing right after brings
/// back the cursor that was active before.
pub proof fn law_set_then_clear(h: Seq<CursorType>, ct: CursorType)
    ensures
        top_cursor(h.push(ct)) == ct,
        h.push(ct).drop_last() == h,
        top_cursor(h.push(ct).drop_last()) == top_cursor(h),
{
    assert(h.push(ct).drop_last() =~= h);
}

} // verus!
