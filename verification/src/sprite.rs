//! Sprites and bitmaps as the game logic sees them: a positioned RGBA image
//! with a draw order, and a store of decoded cast bitmaps looked up by
//! member name.

use vstd::prelude::*;
use vstd::string::StringExecFns;
use crate::text::{push_decimal, decimal, str_eq};

verus! {

/// A drawable image at a screen position
pub struct Sprite {
    pub x: i32,
    pub y: i32,
    pub width: u32,
    pub height: u32,
    /// RGBA bytes, row by row
    pub pixels: Vec<u8>,
    pub visible: bool,
    /// Draw order: higher is drawn later (on top)
    pub z_order: i32,
    pub name: String,
    /// Whether clicks and hovers consider this sprite
    pub interactive: bool,
    /// Cast member number (or part id) the sprite shows
    pub member_num: u32,
}

/// Abstract sprite
#[verifier::ext_equal]
pub struct SpriteV {
    pub x: i32,
    pub y: i32,
    pub width: u32,
    pub height: u32,
    pub pixels: Seq<u8>,
    pub visible: bool,
    pub z_order: i32,
    pub name: Seq<char>,
    pub interactive: bool,
    pub member_num: u32,
}

impl View for Sprite {
    type V = SpriteV;

    open spec fn view(&self) -> SpriteV {
        SpriteV {
            x: self.x,
            y: self.y,
            width: self.width,
            height: self.height,
            pixels: self.pixels@,
            visible: self.visible,
            z_order: self.z_order,
            name: self.name@,
            interactive: self.interactive,
            member_num: self.member_num,
        }
    }
}

impl SpriteV {
    /// Is the point inside the sprite's rectangle?
    pub open spec fn in_box(self, px: i32, py: i32) -> bool {
        &&& self.x <= px
        &&& px < self.x + self.width
        &&& self.y <= py
        &&& py < self.y + self.height
    }

    /// Position of the alpha byte of the pixel under a point of the rectangle
    pub open spec fn alpha_index(self, px: i32, py: i32) -> int {
        ((py - self.y) * self.width + (px - self.x)) * 4 + 3
    }

    /// Is the pixel under the point not fully transparent? Pixels that the
    /// byte buffer does not hold count as transparent.
    pub open spec fn opaque_at(self, px: i32, py: i32) -> bool {
        let i = self.alpha_index(px, py);
        0 <= i < self.pixels.len() && self.pixels[i] > 0
    }
}

impl Sprite {
    /// Bounding-box hit test
    pub fn bbox_hit(&self, px: i32, py: i32) -> (r: bool)
        ensures
            r == self@.in_box(px, py),
    {
        let px64 = px as i64;
        let py64 = py as i64;
        let x64 = self.x as i64;
        let y64 = self.y as i64;
        x64 <= px64 && px64 < x64 + self.width as i64 && y64 <= py64 && py64 < y64 + self.height as i64
    }

    /// Hit test that ignores transparent pixels and hidden sprites
    pub fn hit_test(&self, px: i32, py: i32) -> (r: bool)
        ensures
            r == (self.visible && self@.in_box(px, py) && self@.opaque_at(px, py)),
    {
        if !self.visible || !self.bbox_hit(px, py) {
            return false;
        }
        let dx = (px as i64 - self.x as i64) as u128;
        let dy = (py as i64 - self.y as i64) as u128;
        let w = self.width as u128;
        assert(dy * w <= 0xffff_ffffu128 * 0xffff_ffffu128) by (nonlinear_arith)
            requires
                dy < 0x1_0000_0000u128,
                w <= 0xffff_ffffu128,
        ;
        let idx: u128 = (dy * w + dx) * 4 + 3;
        if idx < self.pixels.len() as u128 {
            let i = idx as usize;
            self.pixels[i] > 0
        } else {
            false
        }
    }

    /// A copy of the sprite
    pub fn duplicate(&self) -> (r: Sprite)
        ensures
            r@ == self@,
    {
        Sprite {
            x: self.x,
            y: self.y,
            width: self.width,
            height: self.height,
            pixels: self.pixels.clone(),
            visible: self.visible,
            z_order: self.z_order,
            name: self.name.clone(),
            interactive: self.interactive,
            member_num: self.member_num,
        }
    }
}

/// A decoded cast bitmap with its registration point
pub struct Bitmap {
    pub width: u32,
    pub height: u32,
    /// RGBA bytes, row by row
    pub pixels: Vec<u8>,
    pub reg_x: i32,
    pub reg_y: i32,
}

/// Decoded bitmaps by cast member name
pub struct BitmapStore {
    pub entries: Vec<(String, Bitmap)>,
}

/// Position of the first entry with the given name
pub open spec fn first_named(s: Seq<(String, Bitmap)>, name: Seq<char>) -> Option<int>
    decreases s.len(),
{
    if s.len() == 0 {
        None
    } else {
        match first_named(s.drop_last(), name) {
            Some(i) => Some(i),
            None => if s.last().0@ == name { Some(s.len() - 1) } else { None },
        }
    }
}

proof fn lemma_first_named(s: Seq<(String, Bitmap)>, name: Seq<char>)
    ensures
        match first_named(s, name) {
            Some(i) => 0 <= i < s.len() && s[i].0@ == name
                && forall|j: int| 0 <= j < i ==> #[trigger] s[j].0@ != name,
            None => forall|j: int| 0 <= j < s.len() ==> #[trigger] s[j].0@ != name,
        },
    decreases s.len(),
{
    if s.len() > 0 {
        lemma_first_named(s.drop_last(), name);
        assert forall|j: int| 0 <= j < s.len() - 1 implies #[trigger] s[j] == s.drop_last()[j] by {}
    }
}

impl BitmapStore {
    /// The bitmap of the given member, from the first entry of that name
    pub open spec fn lookup(self, name: Seq<char>) -> Option<Bitmap> {
        match first_named(self.entries@, name) {
            Some(i) => Some(self.entries@[i].1),
            None => None,
        }
    }

    /// Find a bitmap by member name
    pub fn find_bitmap_by_name(&self, name: &str) -> (r: Option<&Bitmap>)
        ensures
            match self.lookup(name@) {
                Some(b) => r == Some(&b),
                None => r is None,
            },
    {
        let mut i: usize = 0;
        while i < self.entries.len()
            invariant
                i <= self.entries@.len(),
                forall|j: int| 0 <= j < i ==> #[trigger] self.entries@[j].0@ != name@,
            decreases self.entries@.len() - i,
        {
            if str_eq(self.entries[i].0.as_str(), name) {
                proof {
                    lemma_first_named(self.entries@, name@);
                }
                return Some(&self.entries[i].1);
            }
            i = i + 1;
        }
        proof {
            lemma_first_named(self.entries@, name@);
        }
        None
    }
}


/// "car:<member>#<part id>"
pub open spec fn car_sprite_name(member: Seq<char>, part_id: u32) -> Seq<char> {
    "car:"@ + member + "#"@ + decimal(part_id as nat)
}

/// The name given to a part sprite on the car
pub fn car_sprite_name_of(member: &str, part_id: u32) -> (r: String)
    ensures
        r@ == car_sprite_name(member@, part_id),
{
    let mut s = String::new();
    s.append("car:");
    s.append(member);
    s.append("#");
    push_decimal(&mut s, part_id);
    assert(s@ =~= car_sprite_name(member@, part_id));
    s
}

} // verus!
