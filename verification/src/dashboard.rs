//! Dashboard of the driving view: a fuel needle with sixteen frames (world
//! cast members 27-42, empty to full) and a speedometer strip (member 46)
//! that slides right with the speed, drawn below the dashboard frame (z 50).

use vstd::prelude::*;
use crate::sprite::{Bitmap, Sprite, SpriteV};
use vstd::string::StringExecFns;
use crate::text::{decimal, owned, push_decimal};

verus! {

/// A placed dashboard image
pub struct FrameData {
    pub x: i32,
    pub y: i32,
    pub width: u32,
    pub height: u32,
    /// RGBA bytes, row by row
    pub pixels: Vec<u8>,
}

/// Pre-decoded dashboard images
pub struct Dashboard {
    /// Sixteen fuel-needle frames, empty to full
    pub fuel_frames: Vec<FrameData>,
    /// Speedometer strip
    pub speedo: FrameData,
}

/// Speedometer cast member
pub const SPEEDO_MEMBER: u32 = 46;

/// Cast member of fuel frame `i` (0 = empty, 15 = full)
pub open spec fn fuel_member(i: int) -> u32 {
    (27 + i) as u32
}

/// A frame placed at anchor (ax, ay) minus its registration point, or a 1x1
/// transparent stand-in at (0, 0) when the image is missing
pub open spec fn placed_frame(b: Option<Bitmap>, ax: i32, ay: i32, f: FrameData) -> bool {
    match b {
        Some(bmp) => {
            &&& f.x == ax - bmp.reg_x && f.y == ay - bmp.reg_y
            &&& f.width == bmp.width && f.height == bmp.height
            &&& f.pixels@ == bmp.pixels@
        },
        None => {
            &&& f.x == 0 && f.y == 0 && f.width == 1 && f.height == 1
            &&& f.pixels@ == seq![0u8, 0u8, 0u8, 0u8]
        },
    }
}

/// Anchors subtracting a registration point fit in 32 bits
pub open spec fn anchor_fits(b: Option<Bitmap>, ax: i32, ay: i32) -> bool {
    match b {
        Some(bmp) => i32::MIN <= ax - bmp.reg_x <= i32::MAX && i32::MIN <= ay - bmp.reg_y <= i32::MAX,
        None => true,
    }
}

fn place_frame(b: Option<Bitmap>, ax: i32, ay: i32) -> (f: FrameData)
    requires
        anchor_fits(b, ax, ay),
    ensures
        placed_frame(b, ax, ay, f),
{
    match b {
        Some(bmp) => FrameData { x: ax - bmp.reg_x, y: ay - bmp.reg_y, width: bmp.width, height: bmp.height, pixels: bmp.pixels },
        None => {
            let mut px: Vec<u8> = Vec::new();
            px.push(0);
            px.push(0);
            px.push(0);
            px.push(0);
            assert(px@ =~= seq![0u8, 0u8, 0u8, 0u8]);
            FrameData { x: 0, y: 0, width: 1, height: 1, pixels: px }
        },
    }
}

/// "fuel_needle_<index>"
pub open spec fn needle_name(i: nat) -> Seq<char> {
    "fuel_needle_"@ + decimal(i)
}

/// Fuel frame shown for a needle position: at most the last (full) frame
pub open spec fn clamp_fuel_index(i: int) -> int {
    if i > 15 { 15 } else { i }
}

impl Dashboard {
    /// Build the dashboard from the decoded images, in member order: sixteen
    /// fuel frames (anchored at (491, 447)) and the speedometer (anchored at
    /// (99, 446)). `None` when the world cast is missing.
    pub fn new(cast_found: bool, fuel: Vec<Option<Bitmap>>, speedo: Option<Bitmap>) -> (r: Option<Self>)
        requires
            forall|i: int| 0 <= i < fuel@.len() ==> anchor_fits(#[trigger] fuel@[i], 491, 447),
            anchor_fits(speedo, 99, 446),
        ensures
            !cast_found ==> r is None,
            cast_found ==> (r matches Some(d) && {
                &&& d.fuel_frames@.len() == 16
                &&& forall|i: int| 0 <= i < 16 ==> placed_frame(
                    if i < fuel@.len() { fuel@[i] } else { None }, 491, 447, #[trigger] d.fuel_frames@[i])
                &&& placed_frame(speedo, 99, 446, d.speedo)
            }),
    {
        if !cast_found {
            return None;
        }
        let ghost given = fuel@;
        let mut fuel = fuel;
        let mut frames: Vec<FrameData> = Vec::new();
        let mut i: usize = 0;
        while i < 16
            invariant
                i <= 16,
                fuel@.len() == given.len(),
                forall|k: int| i <= k < given.len() ==> #[trigger] fuel@[k] == given[k],
                forall|k: int| 0 <= k < given.len() ==> anchor_fits(#[trigger] given[k], 491, 447),
                frames@.len() == i,
                forall|k: int| 0 <= k < i ==> placed_frame(
                    if k < given.len() { given[k] } else { None }, 491, 447, #[trigger] frames@[k]),
            decreases 16 - i,
        {
            let b = if i < fuel.len() {
                let mut slot: Option<Bitmap> = None;
                std::mem::swap(&mut slot, &mut fuel[i]);
                slot
            } else {
                None
            };
            frames.push(place_frame(b, 491, 447));
            i = i + 1;
        }
        Some(Dashboard { fuel_frames: frames, speedo: place_frame(speedo, 99, 446) })
    }

    /// The dashboard sprites for a needle position and a speedometer x: the
    /// fuel needle (frame index clamped to 15, z 51) and the speedometer
    /// (z 49, below the dashboard frame)
    pub fn sprites(&self, fuel_index: usize, speedo_x: i32) -> (r: Vec<Sprite>)
        requires
            self.fuel_frames@.len() == 16,
        ensures
            r@.len() == 2,
            ({
                let i = clamp_fuel_index(fuel_index as int);
                let f = self.fuel_frames@[i];
                r@[0]@ == (SpriteV {
                    x: f.x, y: f.y, width: f.width, height: f.height, pixels: f.pixels@,
                    visible: true, z_order: 51, name: needle_name(i as nat), interactive: false,
                    member_num: fuel_member(i),
                })
            }),
            r@[1]@ == (SpriteV {
                x: speedo_x, y: self.speedo.y, width: self.speedo.width, height: self.speedo.height,
                pixels: self.speedo.pixels@, visible: true, z_order: 49, name: "speedometer"@,
                interactive: false, member_num: SPEEDO_MEMBER,
            }),
    {
        let clamped: usize = if fuel_index > 15 { 15 } else { fuel_index };
        let f = &self.fuel_frames[clamped];
        let mut name = String::new();
        name.append("fuel_needle_");
        push_decimal(&mut name, clamped as u32);
        assert(name@ =~= needle_name(clamped as nat));
        let mut out: Vec<Sprite> = Vec::new();
        out.push(Sprite {
            x: f.x,
            y: f.y,
            width: f.width,
            height: f.height,
            pixels: f.pixels.clone(),
            visible: true,
            z_order: 51,
            name,
            interactive: false,
            member_num: 27 + clamped as u32,
        });
        out.push(Sprite {
            x: speedo_x,
            y: self.speedo.y,
            width: self.speedo.width,
            height: self.speedo.height,
            pixels: self.speedo.pixels.clone(),
            visible: true,
            z_order: 49,
            name: owned("speedometer"),
            interactive: false,
            member_num: SPEEDO_MEMBER,
        });
        out
    }
}

/// The fuel frame for a needle position: at most 15 (full)
pub fn clamp_fuel_frame(fi: usize) -> (r: usize)
    ensures
        r == clamp_fuel_index(fi as int),
{
    if fi > 15 { 15 } else { fi }
}

} // verus!
