//! Drop targets and drop areas for dragged parts: door and arrow targets,
//! the rectangles of the junk piles where parts can rest, the attachment
//! points a part snaps to, and what a drop results in.

use std::collections::HashMap;
use vstd::prelude::*;
use crate::build_car::{insert_by_z, insert_sprite, sort_by_z, sprites_view};
use crate::sprite::{Sprite, SpriteV};
use vstd::string::StringExecFns;
use crate::text::{decimal, push_decimal};
use crate::toolbox::half_toward_zero;

verus! {

/// Where a dragged part can be dropped (door, arrow, trash, ...)
pub struct DropTarget {
    /// Bounding rectangle in screen coordinates
    pub x: i32,
    pub y: i32,
    pub width: u32,
    pub height: u32,
    /// Identifier of the drop action (e.g. "door_junk", "arrow_left")
    pub id: String,
    /// Name for display / debug
    pub name: String,
}

/// Abstract drop target
pub struct DropTargetV {
    pub x: i32,
    pub y: i32,
    pub width: u32,
    pub height: u32,
    pub id: Seq<char>,
    pub name: Seq<char>,
}

impl View for DropTarget {
    type V = DropTargetV;

    open spec fn view(&self) -> DropTargetV {
        DropTargetV { x: self.x, y: self.y, width: self.width, height: self.height, id: self.id@, name: self.name@ }
    }
}

/// The drop targets as plain values
pub open spec fn targets_view(s: Seq<DropTarget>) -> Seq<DropTargetV> {
    s.map_values(|t: DropTarget| t@)
}

/// Is (px, py) in the rectangle at (x, y) of the given size? The size is
/// read as a signed 32-bit number, as the bounds check does.
pub open spec fn rect_holds(x: i32, y: i32, width: u32, height: u32, px: i32, py: i32) -> bool {
    &&& px >= x
    &&& py >= y
    &&& px < x + (width as i32)
    &&& py < y + (height as i32)
}

/// The far edges of the rectangle fit in 32 bits
pub open spec fn rect_fits(x: i32, y: i32, width: u32, height: u32) -> bool {
    &&& i32::MIN <= x + (width as i32) <= i32::MAX
    &&& i32::MIN <= y + (height as i32) <= i32::MAX
}

impl DropTarget {
    /// Does the point hit the target's rectangle?
    pub fn hit_test(&self, px: i32, py: i32) -> (r: bool)
        requires
            rect_fits(self.x, self.y, self.width, self.height),
        ensures
            r == rect_holds(self.x, self.y, self.width, self.height, px, py),
    {
        px >= self.x && py >= self.y && px < self.x + self.width as i32 && py < self.y + self.height as i32
    }
}

/// A rectangle where dropped parts may rest (junk piles, floor, ...)
#[derive(Debug, Clone, Copy, PartialEq, Eq, Structural)]
pub struct DropRect {
    pub x: i32,
    pub y: i32,
    pub width: u32,
    pub height: u32,
}

/// The rectangle with the given left, top, right and bottom edges; a
/// negative extent counts as zero
pub open spec fn ltrb_rect(left: i32, top: i32, right: i32, bottom: i32) -> DropRect {
    DropRect {
        x: left,
        y: top,
        width: (if right - left > 0 { right - left } else { 0 }) as u32,
        height: (if bottom - top > 0 { bottom - top } else { 0 }) as u32,
    }
}

/// One step of the pseudo-random sequence (32-bit wrapping LCG)
pub open spec fn lcg_step(s: u32) -> u32 {
    vstd::wrapping::u32_specs::wrapping_add(vstd::wrapping::u32_specs::wrapping_mul(s, 1103515245), 12345)
}

/// The point `random_point` picks for a seed
pub open spec fn seeded_point(r: DropRect, seed: u32) -> (int, int) {
    let s1 = lcg_step(seed);
    let s2 = lcg_step(s1);
    (
        if r.width > 0 { r.x + ((s1 % r.width) as i32) } else { r.x as int },
        if r.height > 0 { r.y + ((s2 % r.height) as i32) } else { r.y as int },
    )
}

/// The drop rectangles of a junk pile (left, top, right, bottom): three
/// stacked bands from wide at the bottom to narrow at the top; any other
/// index gives the whole screen
pub open spec fn pile_rect_table(pile: u8) -> Seq<(i32, i32, i32, i32)> {
    if pile == 1 {
        seq![(193i32, 260i32, 637i32, 400i32), (291i32, 193i32, 637i32, 263i32), (361i32, 153i32, 636i32, 194i32)]
    } else if pile == 2 {
        seq![(210i32, 252i32, 654i32, 380i32), (256i32, 174i32, 651i32, 262i32), (365i32, 120i32, 667i32, 188i32)]
    } else if pile == 3 {
        seq![(150i32, 281i32, 639i32, 380i32), (127i32, 162i32, 643i32, 291i32), (183i32, 100i32, 639i32, 164i32)]
    } else if pile == 4 {
        seq![(0i32, 324i32, 425i32, 404i32), (3i32, 174i32, 425i32, 325i32), (3i32, 90i32, 425i32, 182i32)]
    } else if pile == 5 {
        seq![(6i32, 268i32, 450i32, 412i32), (5i32, 180i32, 411i32, 275i32), (0i32, 100i32, 303i32, 189i32)]
    } else if pile == 6 {
        seq![(0i32, 275i32, 400i32, 390i32), (1i32, 201i32, 368i32, 283i32), (4i32, 135i32, 270i32, 203i32)]
    } else {
        seq![(0i32, 0i32, 640i32, 480i32)]
    }
}

/// The rest areas of a junk pile
pub open spec fn pile_rects_v(pile: u8) -> Seq<DropRect> {
    pile_rect_table(pile).map_values(|t: (i32, i32, i32, i32)| ltrb_rect(t.0, t.1, t.2, t.3))
}

impl DropRect {
    /// Is the point inside the rectangle (right and bottom edges excluded)?
    pub fn contains(&self, px: i32, py: i32) -> (r: bool)
        requires
            rect_fits(self.x, self.y, self.width, self.height),
        ensures
            r == rect_holds(self.x, self.y, self.width, self.height, px, py),
    {
        px >= self.x && py >= self.y && px < self.x + self.width as i32 && py < self.y + self.height as i32
    }

    /// Create from left, top, right, bottom
    pub fn from_ltrb(left: i32, top: i32, right: i32, bottom: i32) -> (r: Self)
        requires
            i32::MIN <= right - left <= i32::MAX,
            i32::MIN <= bottom - top <= i32::MAX,
        ensures
            r == ltrb_rect(left, top, right, bottom),
    {
        let w = right - left;
        let h = bottom - top;
        DropRect {
            x: left,
            y: top,
            width: if w > 0 { w as u32 } else { 0 },
            height: if h > 0 { h as u32 } else { 0 },
        }
    }

    /// A pseudo-random point inside the rectangle, from a seed (two steps of
    /// a 32-bit LCG, one per axis)
    pub fn random_point(&self, seed: u32) -> (r: (i32, i32))
        requires
            self.width > 0 ==> i32::MIN <= self.x + (((lcg_step(seed) % self.width) as i32) as int) <= i32::MAX,
            self.height > 0 ==> i32::MIN <= self.y + (((lcg_step(lcg_step(seed)) % self.height) as i32) as int) <= i32::MAX,
        ensures
            r.0 == seeded_point(*self, seed).0,
            r.1 == seeded_point(*self, seed).1,
    {
        let s1 = seed.wrapping_mul(1103515245).wrapping_add(12345);
        let s2 = s1.wrapping_mul(1103515245).wrapping_add(12345);
        let rx = if self.width > 0 { self.x + (s1 % self.width) as i32 } else { self.x };
        let ry = if self.height > 0 { self.y + (s2 % self.height) as i32 } else { self.y };
        (rx, ry)
    }

    /// The drop rectangles of a junk pile (1-6); any other index gives the
    /// whole 640x480 screen
    pub fn pile_rects(pile: u8) -> (r: Vec<DropRect>)
        ensures
            r@ == pile_rects_v(pile),
            r@.len() == pile_rect_table(pile).len(),
            forall|i: int| 0 <= i < r@.len() ==> {
                let t = pile_rect_table(pile)[i];
                #[trigger] r@[i] == ltrb_rect(t.0, t.1, t.2, t.3)
            },
    {
        let mut r: Vec<DropRect> = Vec::new();
        if pile == 1 {
            r.push(DropRect::from_ltrb(193, 260, 637, 400));
            r.push(DropRect::from_ltrb(291, 193, 637, 263));
            r.push(DropRect::from_ltrb(361, 153, 636, 194));
        } else if pile == 2 {
            r.push(DropRect::from_ltrb(210, 252, 654, 380));
            r.push(DropRect::from_ltrb(256, 174, 651, 262));
            r.push(DropRect::from_ltrb(365, 120, 667, 188));
        } else if pile == 3 {
            r.push(DropRect::from_ltrb(150, 281, 639, 380));
            r.push(DropRect::from_ltrb(127, 162, 643, 291));
            r.push(DropRect::from_ltrb(183, 100, 639, 164));
        } else if pile == 4 {
            r.push(DropRect::from_ltrb(0, 324, 425, 404));
            r.push(DropRect::from_ltrb(3, 174, 425, 325));
            r.push(DropRect::from_ltrb(3, 90, 425, 182));
        } else if pile == 5 {
            r.push(DropRect::from_ltrb(6, 268, 450, 412));
            r.push(DropRect::from_ltrb(5, 180, 411, 275));
            r.push(DropRect::from_ltrb(0, 100, 303, 189));
        } else if pile == 6 {
            r.push(DropRect::from_ltrb(0, 275, 400, 390));
            r.push(DropRect::from_ltrb(1, 201, 368, 283));
            r.push(DropRect::from_ltrb(4, 135, 270, 203));
        } else {
            r.push(DropRect::from_ltrb(0, 0, 640, 480));
        }
        assert(r@ =~= pile_rects_v(pile));
        r
    }
}

/// A pre-loaded morph variant of a draggable part
pub struct MorphVariant {
    pub morph_part_id: u32,
    pub use_view_sprite: Sprite,
    pub offset_x: i32,
    pub offset_y: i32,
}

/// An attachment point on the car that a dragged part can snap to
pub struct SnapTarget {
    /// Attachment point ID (e.g. "#a6")
    pub point_id: String,
    /// Screen position of the attachment point
    pub x: i32,
    pub y: i32,
    /// Whether the point is occupied
    pub occupied: bool,
    /// The part that blocks this slot, if any
    pub covered_by: Option<u32>,
}

/// What happened when a drop occurred
pub enum DropResult {
    /// Part attached to the car at an attachment point
    Attached { part_id: u32, morph_id: Option<u32>, point_id: String },
    /// Part dropped onto a drop target (door, arrow)
    DroppedOnTarget { part_id: u32, target_id: String },
    /// Part dropped elsewhere (stays or bounces back)
    Dropped { part_id: u32 },
    /// Nothing happened (no drag was active)
    Nothing,
}


// ---------------------------------------------------------------------------
// Draggable items
// ---------------------------------------------------------------------------

/// Distance in pixels below which a dragged part snaps to a point
pub const SNAP_DISTANCE: i64 = 40;

/// Is the offset (dx, dy) shorter than the snapping distance?
pub open spec fn within_snap(dx: int, dy: int) -> bool {
    dx * dx + dy * dy < SNAP_DISTANCE * SNAP_DISTANCE
}

/// A loose part that can be dragged around a scene. Its falling speed
/// belongs to the physics step, which the library does not hold.
pub struct DraggableItem {
    /// Part ID from the parts database
    pub part_id: u32,
    /// Position in screen coordinates
    pub x: i32,
    pub y: i32,
    /// How the part looks when loose
    pub junk_sprite: Sprite,
    /// Morph variants the part can snap as
    pub morph_sprites: Vec<MorphVariant>,
    /// Draw order
    pub z_order: i32,
    /// The part is being dragged
    pub dragging: bool,
    /// The part is close enough to attach to the car
    pub can_attach: bool,
    /// Morph variant the part snaps as
    pub active_morph: Option<usize>,
    /// Frames the part has been dragged
    pub drag_ticks: u32,
    /// The snap sound has been played (cleared when a snap or unsnap
    /// should sound)
    pub snap_sound_played: bool,
    /// The part falls (garage and yard) or stays put (junk piles)
    pub physics_enabled: bool,
    /// The part rests on the floor
    pub on_ground: bool,
}

/// Center of a dragged part: its position plus half its loose image
pub open spec fn item_center(it: DraggableItem) -> (int, int) {
    (it.x + half_toward_zero(it.junk_sprite.width as i32 as int), it.y + half_toward_zero(it.junk_sprite.height as i32 as int))
}

/// Does the point hit the part's loose image (visible, inside, not
/// transparent)?
pub open spec fn item_hit(it: DraggableItem, px: i32, py: i32) -> bool {
    it.junk_sprite.visible && it.junk_sprite@.in_box(px, py) && it.junk_sprite@.opaque_at(px, py)
}

/// The image a dragged part shows: the snapped morph variant's car image
/// (at the part's draw order) while it can attach as one, else its loose
/// image
pub open spec fn item_sprite_v(it: DraggableItem) -> SpriteV {
    match it.active_morph {
        Some(mi) => if it.can_attach && mi < it.morph_sprites@.len() {
            SpriteV { z_order: it.z_order, ..it.morph_sprites@[mi as int].use_view_sprite@ }
        } else {
            it.junk_sprite@
        },
        None => it.junk_sprite@,
    }
}

/// The images of the items, in item order
pub open spec fn item_sprites(items: Seq<DraggableItem>) -> Seq<SpriteV> {
    items.map_values(|it: DraggableItem| item_sprite_v(it))
}

impl DraggableItem {
    /// A loose part at (x, y); its image is moved there and drawn at the
    /// given order. It does not fall until physics is enabled.
    pub fn new(part_id: u32, x: i32, y: i32, junk_sprite: Sprite, z_order: i32) -> (r: Self)
        ensures
            r.part_id == part_id && r.x == x && r.y == y && r.z_order == z_order,
            r.junk_sprite@ == (SpriteV { x, y, z_order, ..junk_sprite@ }),
            r.morph_sprites@.len() == 0,
            !r.dragging && !r.can_attach && r.active_morph is None && r.drag_ticks == 0,
            !r.snap_sound_played && !r.physics_enabled && r.on_ground,
    {
        let mut s = junk_sprite;
        s.x = x;
        s.y = y;
        s.z_order = z_order;
        DraggableItem {
            part_id,
            x,
            y,
            junk_sprite: s,
            morph_sprites: Vec::new(),
            z_order,
            dragging: false,
            can_attach: false,
            active_morph: None,
            drag_ticks: 0,
            snap_sound_played: false,
            physics_enabled: false,
            on_ground: true,
        }
    }

    /// Hit test on the loose image, ignoring transparent pixels
    pub fn hit_test(&self, px: i32, py: i32) -> (r: bool)
        ensures
            r == item_hit(*self, px, py),
    {
        self.junk_sprite.hit_test(px, py)
    }

    /// Bounding-box hit test on the loose image
    pub fn bbox_hit(&self, px: i32, py: i32) -> (r: bool)
        ensures
            r == self.junk_sprite@.in_box(px, py),
    {
        self.junk_sprite.bbox_hit(px, py)
    }

    /// The image to draw: the snapped morph variant's car image (at the
    /// part's draw order) while the part can attach as one, else the loose
    /// image
    pub fn as_sprite(&self) -> (r: Sprite)
        ensures
            r@ == item_sprite_v(*self),
    {
        if self.can_attach {
            if let Some(mi) = self.active_morph {
                if mi < self.morph_sprites.len() {
                    let mut s = self.morph_sprites[mi].use_view_sprite.duplicate();
                    s.z_order = self.z_order;
                    return s;
                }
            }
        }
        self.junk_sprite.duplicate()
    }
}

// ---------------------------------------------------------------------------
// Drag & drop state
// ---------------------------------------------------------------------------

/// Central drag & drop state of a scene
pub struct DragDropState {
    /// All draggable items in the scene
    pub items: Vec<DraggableItem>,
    /// Drop targets (doors, arrows, ...)
    pub drop_targets: Vec<DropTarget>,
    /// Areas where dropped parts may rest
    pub drop_rects: Vec<DropRect>,
    /// Attachment points on the car
    pub snap_targets: Vec<SnapTarget>,
    /// Index of the dragged item
    pub dragging_idx: Option<usize>,
    /// Offset from the grab point to the item's origin
    pub grab_offset_x: i32,
    pub grab_offset_y: i32,
    /// The mouse button was down last frame
    pub prev_mouse_down: bool,
}

/// The topmost of the first `n` items under the point (the last hit one)
pub open spec fn top_item(items: Seq<DraggableItem>, n: int, px: i32, py: i32) -> Option<int>
    decreases n,
{
    if n <= 0 {
        None
    } else if item_hit(items[n - 1], px, py) {
        Some(n - 1)
    } else {
        top_item(items, n - 1, px, py)
    }
}

/// Highest draw order among the first `n` items (100 when there is none)
pub open spec fn max_z(items: Seq<DraggableItem>, n: int) -> int
    decreases n,
{
    if n <= 0 {
        100
    } else if n == 1 {
        items[0].z_order as int
    } else {
        let m = max_z(items, n - 1);
        if items[n - 1].z_order > m { items[n - 1].z_order as int } else { m }
    }
}

/// The item as it is picked up: dragged, unsnapped, drawn on top at `z`
pub open spec fn grabbed(it: DraggableItem, z: i32) -> DraggableItem {
    DraggableItem {
        dragging: true,
        drag_ticks: 0,
        can_attach: false,
        active_morph: None,
        snap_sound_played: true,
        z_order: z,
        junk_sprite: Sprite { z_order: z, ..it.junk_sprite },
        ..it
    }
}

/// The first morph variant whose car offset is within snapping distance of
/// the point, among the first `n`
pub open spec fn first_morph_in_reach(ms: Seq<MorphVariant>, n: int, cx: int, cy: int) -> Option<int>
    decreases n,
{
    if n <= 0 {
        None
    } else {
        match first_morph_in_reach(ms, n - 1, cx, cy) {
            Some(i) => Some(i),
            None => if within_snap(cx - ms[n - 1].offset_x, cy - ms[n - 1].offset_y) { Some(n - 1) } else { None },
        }
    }
}

/// A free, uncovered attachment point within snapping distance of the point
pub open spec fn free_point_in_reach(snaps: Seq<SnapTarget>, cx: int, cy: int) -> bool {
    exists|j: int| 0 <= j < snaps.len() && !snaps[j].occupied && snaps[j].covered_by is None
        && within_snap(cx - (#[trigger] snaps[j]).x, cy - snaps[j].y)
}

/// The item with its snap state updated: it can attach when (as one of its
/// morph variants, or else to a free attachment point) it is within
/// snapping distance; a change of state clears the snap-sound flag
pub open spec fn snapped(it: DraggableItem, snaps: Seq<SnapTarget>) -> DraggableItem {
    let (cx, cy) = item_center(it);
    let attach = if it.morph_sprites@.len() > 0 {
        first_morph_in_reach(it.morph_sprites@, it.morph_sprites@.len() as int, cx, cy) is Some
    } else {
        free_point_in_reach(snaps, cx, cy)
    };
    let sound_played = if attach != it.can_attach { false } else { it.snap_sound_played };
    if it.morph_sprites@.len() > 0 {
        match first_morph_in_reach(it.morph_sprites@, it.morph_sprites@.len() as int, cx, cy) {
            Some(mi) => DraggableItem { can_attach: true, active_morph: Some(mi as usize), snap_sound_played: sound_played, ..it },
            None => DraggableItem { can_attach: false, active_morph: None, snap_sound_played: sound_played, ..it },
        }
    } else if attach {
        DraggableItem { can_attach: true, snap_sound_played: sound_played, ..it }
    } else {
        DraggableItem { can_attach: false, active_morph: None, snap_sound_played: sound_played, ..it }
    }
}

/// The arithmetic of a snap check stays within 32 bits
pub open spec fn snap_fits(it: DraggableItem, snaps: Seq<SnapTarget>) -> bool {
    let (cx, cy) = item_center(it);
    &&& i32::MIN <= cx <= i32::MAX
    &&& i32::MIN <= cy <= i32::MAX
    &&& forall|m: int| 0 <= m < it.morph_sprites@.len() ==> i32::MIN <= cx - (#[trigger] it.morph_sprites@[m]).offset_x <= i32::MAX
        && i32::MIN <= cy - it.morph_sprites@[m].offset_y <= i32::MAX
    &&& forall|j: int| 0 <= j < snaps.len() ==> i32::MIN <= cx - (#[trigger] snaps[j]).x <= i32::MAX
        && i32::MIN <= cy - snaps[j].y <= i32::MAX
}

/// Is (dx, dy) shorter than the snapping distance?
fn in_snap_reach(dx: i32, dy: i32) -> (r: bool)
    ensures
        r == within_snap(dx as int, dy as int),
{
    let x = dx as i64;
    let y = dy as i64;
    assert(x * x <= 0x4000_0000_0000_0000) by (nonlinear_arith)
        requires -0x8000_0000 <= x <= 0x7fff_ffff;
    assert(y * y <= 0x4000_0000_0000_0000) by (nonlinear_arith)
        requires -0x8000_0000 <= y <= 0x7fff_ffff;
    assert(x * x >= 0 && y * y >= 0) by (nonlinear_arith);
    let sx = (x * x) as u64;
    let sy = (y * y) as u64;
    sx + sy < (SNAP_DISTANCE * SNAP_DISTANCE) as u64
}

/// Squared distance of an offset
pub open spec fn dist2(dx: int, dy: int) -> int {
    dx * dx + dy * dy
}

/// Squared distance of an offset, in 64 bits
fn squared_distance(dx: i32, dy: i32) -> (r: u64)
    ensures
        r == dist2(dx as int, dy as int),
{
    let x = dx as i64;
    let y = dy as i64;
    assert(x * x <= 0x4000_0000_0000_0000) by (nonlinear_arith)
        requires -0x8000_0000 <= x <= 0x7fff_ffff;
    assert(y * y <= 0x4000_0000_0000_0000) by (nonlinear_arith)
        requires -0x8000_0000 <= y <= 0x7fff_ffff;
    assert(x * x >= 0 && y * y >= 0) by (nonlinear_arith);
    (x * x) as u64 + (y * y) as u64
}

/// The attachment point a dropped part attaches to: among the first `n`
/// free points within snapping distance of the center, the closest (the
/// earliest among equals)
pub open spec fn closest_point(snaps: Seq<SnapTarget>, n: int, cx: int, cy: int) -> Option<int>
    decreases n,
{
    if n <= 0 {
        None
    } else {
        let b = closest_point(snaps, n - 1, cx, cy);
        let s = snaps[n - 1];
        let d = dist2(cx - s.x, cy - s.y);
        if !s.occupied && within_snap(cx - s.x, cy - s.y)
            && (b matches Some(k) ==> d < dist2(cx - snaps[k].x, cy - snaps[k].y)) {
            Some(n - 1)
        } else {
            b
        }
    }
}

/// The first of the first `n` drop targets that the point hits
pub open spec fn first_target(ts: Seq<DropTarget>, n: int, px: i32, py: i32) -> Option<int>
    decreases n,
{
    if n <= 0 {
        None
    } else {
        match first_target(ts, n - 1, px, py) {
            Some(k) => Some(k),
            None => if rect_holds(ts[n - 1].x, ts[n - 1].y, ts[n - 1].width, ts[n - 1].height, px, py) { Some(n - 1) } else { None },
        }
    }
}

/// Does one of the rectangles hold the point?
pub open spec fn rects_hold(rs: Seq<DropRect>, px: i32, py: i32) -> bool {
    exists|k: int| 0 <= k < rs.len() && rect_holds((#[trigger] rs[k]).x, rs[k].y, rs[k].width, rs[k].height, px, py)
}

/// Seed of the bounce of part `part_id` dropped at (x, y)
pub open spec fn bounce_seed(part_id: u32, x: i32, y: i32) -> u32 {
    vstd::wrapping::u32_specs::wrapping_add(
        vstd::wrapping::u32_specs::wrapping_add(vstd::wrapping::u32_specs::wrapping_mul(part_id, 31337), x as u32),
        y as u32,
    )
}

/// Where a part dropped outside every rest area lands: a pseudo-random
/// point of a rest area picked by the seed
pub open spec fn bounce_point(rs: Seq<DropRect>, part_id: u32, x: i32, y: i32) -> (int, int) {
    let seed = bounce_seed(part_id, x, y);
    seeded_point(rs[(seed as int) % (rs.len() as int)], seed)
}

/// A rest area whose pseudo-random points fit in 32 bits
pub open spec fn rest_area_fits(r: DropRect) -> bool {
    r.width <= i32::MAX && r.height <= i32::MAX && r.x + r.width <= i32::MAX && r.y + r.height <= i32::MAX
}

/// A drop result as plain values
pub enum DropResultV {
    Attached { part_id: u32, morph_id: Option<u32>, point_id: Seq<char> },
    DroppedOnTarget { part_id: u32, target_id: Seq<char> },
    Dropped { part_id: u32 },
    Nothing,
}

impl View for DropResult {
    type V = DropResultV;

    open spec fn view(&self) -> DropResultV {
        match *self {
            DropResult::Attached { part_id, morph_id, point_id } => DropResultV::Attached { part_id, morph_id, point_id: point_id@ },
            DropResult::DroppedOnTarget { part_id, target_id } => DropResultV::DroppedOnTarget { part_id, target_id: target_id@ },
            DropResult::Dropped { part_id } => DropResultV::Dropped { part_id },
            DropResult::Nothing => DropResultV::Nothing,
        }
    }
}

/// The positions of items by part id; a later item with the same id wins
pub open spec fn positions_of(items: Seq<DraggableItem>) -> Map<u32, (i32, i32)>
    decreases items.len(),
{
    if items.len() == 0 {
        Map::empty()
    } else {
        positions_of(items.drop_last()).insert(items.last().part_id, (items.last().x, items.last().y))
    }
}

/// The first item carrying the part, among the first `n`
pub open spec fn first_with_part(items: Seq<DraggableItem>, n: int, part_id: u32) -> Option<int>
    decreases n,
{
    if n <= 0 {
        None
    } else {
        match first_with_part(items, n - 1, part_id) {
            Some(i) => Some(i),
            None => if items[n - 1].part_id == part_id { Some(n - 1) } else { None },
        }
    }
}

/// Index of the dragged item after removing item `idx`: the drag ends if
/// it was that item; a later dragged item moves down by one
pub open spec fn drag_after_remove(d: Option<usize>, idx: usize) -> Option<usize> {
    match d {
        Some(i) => if i == idx { None } else if i > idx { Some((i - 1) as usize) } else { Some(i) },
        None => None,
    }
}

proof fn lemma_first_with_part_stable(items: Seq<DraggableItem>, n: int, m: int, part_id: u32)
    requires
        0 <= n <= m,
        first_with_part(items, n, part_id) is Some,
    ensures
        first_with_part(items, m, part_id) == first_with_part(items, n, part_id),
    decreases m - n,
{
    if m > n {
        lemma_first_with_part_stable(items, n, m - 1, part_id);
    }
}

impl DragDropState {
    /// The dragged index, if any, is an item
    pub open spec fn wf(&self) -> bool {
        self.dragging_idx matches Some(i) ==> i < self.items@.len()
    }

    /// An empty scene: no items, targets, rest areas or attachment points
    pub fn new() -> (r: Self)
        ensures
            r.items@.len() == 0 && r.drop_targets@.len() == 0 && r.drop_rects@.len() == 0 && r.snap_targets@.len() == 0,
            r.dragging_idx is None,
            r.grab_offset_x == 0 && r.grab_offset_y == 0,
            !r.prev_mouse_down,
    {
        DragDropState {
            items: Vec::new(),
            drop_targets: Vec::new(),
            drop_rects: Vec::new(),
            snap_targets: Vec::new(),
            dragging_idx: None,
            grab_offset_x: 0,
            grab_offset_y: 0,
            prev_mouse_down: false,
        }
    }

    /// Is anything being dragged?
    pub fn is_dragging(&self) -> (r: bool)
        ensures
            r == self.dragging_idx is Some,
    {
        self.dragging_idx.is_some()
    }

    /// The dragged item
    pub fn dragged_item(&self) -> (r: Option<&DraggableItem>)
        requires
            self.wf(),
        ensures
            r == (match self.dragging_idx {
                Some(i) => Some(&self.items@[i as int]),
                None => None::<&DraggableItem>,
            }),
    {
        match self.dragging_idx {
            Some(i) => Some(&self.items[i]),
            None => None,
        }
    }

    /// The dragged item, to change it
    pub fn dragged_item_mut(&mut self) -> (r: Option<&mut DraggableItem>)
        requires
            old(self).wf(),
        ensures
            match old(self).dragging_idx {
                Some(i) => r matches Some(it) && *it == old(self).items@[i as int]
                    && final(self).items@ == old(self).items@.update(i as int, *final(it))
                    && final(self).dragging_idx == old(self).dragging_idx,
                None => r is None && *final(self) == *old(self),
            },
    {
        match self.dragging_idx {
            Some(i) => Some(&mut self.items[i]),
            None => None,
        }
    }

    /// Add an item; returns its index
    pub fn add_item(&mut self, item: DraggableItem) -> (r: usize)
        ensures
            r == old(self).items@.len(),
            final(self).items@ == old(self).items@.push(item),
            final(self).dragging_idx == old(self).dragging_idx,
            final(self).drop_targets == old(self).drop_targets,
            final(self).drop_rects == old(self).drop_rects,
            final(self).snap_targets == old(self).snap_targets,
            final(self).grab_offset_x == old(self).grab_offset_x,
            final(self).grab_offset_y == old(self).grab_offset_y,
            final(self).prev_mouse_down == old(self).prev_mouse_down,
    {
        let idx = self.items.len();
        self.items.push(item);
        idx
    }

    /// Remove item `idx` (no change for an index past the end); the drag
    /// ends if it was the dragged item
    pub fn remove_item(&mut self, idx: usize)
        ensures
            idx >= old(self).items@.len() ==> *final(self) == *old(self),
            idx < old(self).items@.len() ==> final(self).items@ == old(self).items@.remove(idx as int)
                && final(self).dragging_idx == drag_after_remove(old(self).dragging_idx, idx),
            final(self).drop_targets == old(self).drop_targets,
            final(self).drop_rects == old(self).drop_rects,
            final(self).snap_targets == old(self).snap_targets,
            final(self).grab_offset_x == old(self).grab_offset_x,
            final(self).grab_offset_y == old(self).grab_offset_y,
            final(self).prev_mouse_down == old(self).prev_mouse_down,
    {
        if idx >= self.items.len() {
            return;
        }
        match self.dragging_idx {
            Some(d) => {
                if d == idx {
                    self.dragging_idx = None;
                } else if d > idx {
                    self.dragging_idx = Some(d - 1);
                }
            },
            None => {},
        }
        self.items.remove(idx);
    }

    /// Remove the first item carrying the part; returns whether there was one
    pub fn remove_by_part_id(&mut self, part_id: u32) -> (r: bool)
        ensures
            r == first_with_part(old(self).items@, old(self).items@.len() as int, part_id) is Some,
            match first_with_part(old(self).items@, old(self).items@.len() as int, part_id) {
                Some(i) => final(self).items@ == old(self).items@.remove(i)
                    && final(self).dragging_idx == drag_after_remove(old(self).dragging_idx, i as usize),
                None => *final(self) == *old(self),
            },
            final(self).drop_targets == old(self).drop_targets,
            final(self).drop_rects == old(self).drop_rects,
            final(self).snap_targets == old(self).snap_targets,
    {
        let mut i: usize = 0;
        while i < self.items.len()
            invariant
                *self == *old(self),
                i <= self.items@.len(),
                first_with_part(self.items@, i as int, part_id) is None,
            decreases self.items@.len() - i,
        {
            if self.items[i].part_id == part_id {
                proof {
                    lemma_first_with_part_stable(self.items@, i + 1, self.items@.len() as int, part_id);
                }
                self.remove_item(i);
                return true;
            }
            i = i + 1;
        }
        false
    }

    /// Current positions of all items by part id
    pub fn item_positions(&self) -> (r: HashMap<u32, (i32, i32)>)
        ensures
            r@ == positions_of(self.items@),
    {
        let mut m: HashMap<u32, (i32, i32)> = HashMap::new();
        let mut i: usize = 0;
        while i < self.items.len()
            invariant
                i <= self.items@.len(),
                m@ == positions_of(self.items@.take(i as int)),
            decreases self.items@.len() - i,
        {
            let it = &self.items[i];
            m.insert(it.part_id, (it.x, it.y));
            assert(self.items@.take(i + 1).drop_last() =~= self.items@.take(i as int));
            i = i + 1;
        }
        assert(self.items@.take(self.items@.len() as int) =~= self.items@);
        m
    }

    /// The topmost item under the point
    pub fn item_at(&self, px: i32, py: i32) -> (r: Option<usize>)
        ensures
            match top_item(self.items@, self.items@.len() as int, px, py) {
                Some(i) => r == Some(i as usize),
                None => r is None,
            },
            r matches Some(k) ==> k < self.items@.len() && top_item(self.items@, self.items@.len() as int, px, py) == Some(k as int),
    {
        proof {
            lemma_top_item_stable(self.items@, self.items@.len() as int, px, py);
        }
        let mut i: usize = self.items.len();
        while i > 0
            invariant
                i <= self.items@.len(),
                top_item(self.items@, self.items@.len() as int, px, py) == top_item(self.items@, i as int, px, py),
            decreases i,
        {
            let it = &self.items[i - 1];
            if it.bbox_hit(px, py) && it.hit_test(px, py) {
                return Some(i - 1);
            }
            i = i - 1;
        }
        None
    }
}

/// The drag & drop state as plain values
pub struct DragDropV {
    pub items: Seq<DraggableItem>,
    pub drop_targets: Seq<DropTarget>,
    pub drop_rects: Seq<DropRect>,
    pub snap_targets: Seq<SnapTarget>,
    pub dragging_idx: Option<usize>,
    pub grab_offset_x: i32,
    pub grab_offset_y: i32,
    pub prev_mouse_down: bool,
}

impl View for DragDropState {
    type V = DragDropV;

    open spec fn view(&self) -> DragDropV {
        DragDropV {
            items: self.items@,
            drop_targets: self.drop_targets@,
            drop_rects: self.drop_rects@,
            snap_targets: self.snap_targets@,
            dragging_idx: self.dragging_idx,
            grab_offset_x: self.grab_offset_x,
            grab_offset_y: self.grab_offset_y,
            prev_mouse_down: self.prev_mouse_down,
        }
    }
}

/// Mouse down at (mx, my): without a drag in progress, the topmost item
/// under the pointer is picked up, drawn above all others, and remembers
/// where it was grabbed; returns whether a drag started
pub open spec fn after_down(v: DragDropV, mx: i32, my: i32) -> (DragDropV, bool) {
    match (v.dragging_idx, top_item(v.items, v.items.len() as int, mx, my)) {
        (None, Some(i)) => (DragDropV {
            items: v.items.update(i, grabbed(v.items[i], (max_z(v.items, v.items.len() as int) + 1) as i32)),
            dragging_idx: Some(i as usize),
            grab_offset_x: (v.items[i].x - mx) as i32,
            grab_offset_y: (v.items[i].y - my) as i32,
            ..v
        }, true),
        _ => (v, false),
    }
}

/// The arithmetic of a mouse down stays within 32 bits
pub open spec fn down_fits(v: DragDropV, mx: i32, my: i32) -> bool {
    v.dragging_idx is None ==> match top_item(v.items, v.items.len() as int, mx, my) {
        Some(i) => max_z(v.items, v.items.len() as int) < i32::MAX
            && i32::MIN <= v.items[i].x - mx <= i32::MAX && i32::MIN <= v.items[i].y - my <= i32::MAX,
        None => true,
    }
}

/// The item moved to (x, y), one more frame dragged
pub open spec fn moved(it: DraggableItem, x: i32, y: i32) -> DraggableItem {
    DraggableItem {
        x,
        y,
        drag_ticks: (it.drag_ticks + 1) as u32,
        junk_sprite: Sprite { x, y, ..it.junk_sprite },
        ..it
    }
}

/// Mouse move to (mx, my): the dragged item follows the pointer (keeping
/// the grab offset) and its snap state is updated
pub open spec fn after_move(v: DragDropV, mx: i32, my: i32) -> DragDropV {
    match v.dragging_idx {
        Some(i) => DragDropV {
            items: v.items.update(i as int, snapped(moved(v.items[i as int], (mx + v.grab_offset_x) as i32, (my + v.grab_offset_y) as i32), v.snap_targets)),
            ..v
        },
        None => v,
    }
}

/// The arithmetic of a mouse move stays within 32 bits
pub open spec fn move_fits(v: DragDropV, mx: i32, my: i32) -> bool {
    v.dragging_idx matches Some(i) ==> {
        &&& i32::MIN <= mx + v.grab_offset_x <= i32::MAX
        &&& i32::MIN <= my + v.grab_offset_y <= i32::MAX
        &&& v.items[i as int].drag_ticks < u32::MAX
        &&& snap_fits(moved(v.items[i as int], (mx + v.grab_offset_x) as i32, (my + v.grab_offset_y) as i32), v.snap_targets)
    }
}

/// The item let go: no longer dragged nor resting
pub open spec fn released(it: DraggableItem) -> DraggableItem {
    DraggableItem { dragging: false, on_ground: false, ..it }
}

/// The morph variant a snapped item attaches as
pub open spec fn morph_of(it: DraggableItem) -> Option<u32> {
    match it.active_morph {
        Some(mi) => if mi < it.morph_sprites@.len() { Some(it.morph_sprites@[mi as int].morph_part_id) } else { None },
        None => None,
    }
}

/// The item moved to (x, y) with its image
pub open spec fn placed_at(it: DraggableItem, x: i32, y: i32) -> DraggableItem {
    DraggableItem { x, y, junk_sprite: Sprite { x, y, ..it.junk_sprite }, ..it }
}

/// Mouse up at (mx, my) ends a drag: the item is released (and falls);
/// a snapped item attaches to the closest free attachment point in reach;
/// else an item dropped on a target goes there; else it stays, bounced to a
/// pseudo-random point of a rest area when it lies outside all of them
#[verifier::opaque]
pub open spec fn after_up(v: DragDropV, mx: i32, my: i32) -> (DragDropV, DropResultV) {
    match v.dragging_idx {
        None => (v, DropResultV::Nothing),
        Some(i) => {
            let it = v.items[i as int];
            let rel = released(it);
            let (cx, cy) = item_center(it);
            let base = DragDropV { dragging_idx: None, ..v };
            if it.can_attach && closest_point(v.snap_targets, v.snap_targets.len() as int, cx, cy) is Some {
                let k = closest_point(v.snap_targets, v.snap_targets.len() as int, cx, cy)->0;
                (DragDropV { items: v.items.update(i as int, rel), ..base },
                 DropResultV::Attached { part_id: it.part_id, morph_id: morph_of(it), point_id: v.snap_targets[k].point_id@ })
            } else if first_target(v.drop_targets, v.drop_targets.len() as int, mx, my) is Some {
                let k = first_target(v.drop_targets, v.drop_targets.len() as int, mx, my)->0;
                (DragDropV { items: v.items.update(i as int, rel), ..base },
                 DropResultV::DroppedOnTarget { part_id: it.part_id, target_id: v.drop_targets[k].id@ })
            } else if v.drop_rects.len() > 0 && !rects_hold(v.drop_rects, it.x, it.y) {
                let p = bounce_point(v.drop_rects, it.part_id, it.x, it.y);
                (DragDropV { items: v.items.update(i as int, placed_at(rel, p.0 as i32, p.1 as i32)), ..base },
                 DropResultV::Dropped { part_id: it.part_id })
            } else {
                (DragDropV { items: v.items.update(i as int, rel), ..base },
                 DropResultV::Dropped { part_id: it.part_id })
            }
        },
    }
}

/// The base state after a mouse up that ends the drag of item `i`
pub open spec fn up_base(v: DragDropV, i: int) -> DragDropV {
    DragDropV { items: v.items.update(i, released(v.items[i])), dragging_idx: None, ..v }
}

/// Does the item dragged in `v` attach on release?
pub open spec fn up_attaches(v: DragDropV, i: int) -> bool {
    let it = v.items[i];
    let (cx, cy) = item_center(it);
    it.can_attach && closest_point(v.snap_targets, v.snap_targets.len() as int, cx, cy) is Some
}

proof fn lemma_up_nothing(v: DragDropV, mx: i32, my: i32)
    requires
        v.dragging_idx is None,
    ensures
        after_up(v, mx, my) == (v, DropResultV::Nothing),
{
    reveal(after_up);
}

proof fn lemma_up_attached(v: DragDropV, mx: i32, my: i32, i: usize)
    requires
        v.dragging_idx == Some(i),
        up_attaches(v, i as int),
    ensures
        ({
            let it = v.items[i as int];
            let (cx, cy) = item_center(it);
            after_up(v, mx, my) == (up_base(v, i as int), DropResultV::Attached {
                part_id: it.part_id,
                morph_id: morph_of(it),
                point_id: v.snap_targets[closest_point(v.snap_targets, v.snap_targets.len() as int, cx, cy)->0].point_id@,
            })
        }),
{
    reveal(after_up);
}

proof fn lemma_up_target(v: DragDropV, mx: i32, my: i32, i: usize, k: int)
    requires
        v.dragging_idx == Some(i),
        !up_attaches(v, i as int),
        first_target(v.drop_targets, v.drop_targets.len() as int, mx, my) == Some(k),
    ensures
        after_up(v, mx, my) == (up_base(v, i as int), DropResultV::DroppedOnTarget {
            part_id: v.items[i as int].part_id,
            target_id: v.drop_targets[k].id@,
        }),
{
    reveal(after_up);
}

proof fn lemma_up_dropped(v: DragDropV, mx: i32, my: i32, i: usize)
    requires
        v.dragging_idx == Some(i),
        !up_attaches(v, i as int),
        first_target(v.drop_targets, v.drop_targets.len() as int, mx, my) is None,
    ensures
        ({
            let it = v.items[i as int];
            let p = bounce_point(v.drop_rects, it.part_id, it.x, it.y);
            &&& after_up(v, mx, my).1 == (DropResultV::Dropped { part_id: it.part_id })
            &&& after_up(v, mx, my).0 == (if v.drop_rects.len() > 0 && !rects_hold(v.drop_rects, it.x, it.y) {
                    DragDropV { items: v.items.update(i as int, placed_at(released(it), p.0 as i32, p.1 as i32)), ..up_base(v, i as int) }
                } else {
                    up_base(v, i as int)
                })
        }),
{
    reveal(after_up);
}

/// The arithmetic of finding the attachment point of an item stays within
/// 32 bits
pub open spec fn attach_fits(it: DraggableItem, snaps: Seq<SnapTarget>) -> bool {
    let (cx, cy) = item_center(it);
    &&& i32::MIN <= cx <= i32::MAX
    &&& i32::MIN <= cy <= i32::MAX
    &&& forall|j: int| 0 <= j < snaps.len() ==> i32::MIN <= cx - (#[trigger] snaps[j]).x <= i32::MAX
        && i32::MIN <= cy - snaps[j].y <= i32::MAX
}

/// The arithmetic of a mouse up stays within 32 bits
pub open spec fn up_fits(v: DragDropV, mx: i32, my: i32) -> bool {
    v.dragging_idx matches Some(i) ==> {
        &&& attach_fits(v.items[i as int], v.snap_targets)
        &&& forall|k: int| 0 <= k < v.drop_targets.len() ==> rect_fits((#[trigger] v.drop_targets[k]).x, v.drop_targets[k].y, v.drop_targets[k].width, v.drop_targets[k].height)
        &&& forall|k: int| 0 <= k < v.drop_rects.len() ==> rect_fits((#[trigger] v.drop_rects[k]).x, v.drop_rects[k].y, v.drop_rects[k].width, v.drop_rects[k].height)
            && rest_area_fits(v.drop_rects[k])
    }
}

/// One frame of mouse input: a press starts a drag, holding moves it, a
/// release drops it
pub open spec fn after_mouse(v: DragDropV, mx: i32, my: i32, down: bool) -> (DragDropV, DropResultV) {
    let was = v.prev_mouse_down;
    let w = DragDropV { prev_mouse_down: down, ..v };
    if down && !was {
        (after_down(w, mx, my).0, DropResultV::Nothing)
    } else if down && was {
        (after_move(w, mx, my), DropResultV::Nothing)
    } else if !down && was {
        after_up(w, mx, my)
    } else {
        (w, DropResultV::Nothing)
    }
}

/// The well-formedness of a drag & drop state
pub open spec fn drag_wf(v: DragDropV) -> bool {
    v.dragging_idx matches Some(i) ==> i < v.items.len()
}

impl DraggableItem {
    /// Update the snap state after a move
    fn update_snap(&mut self, snaps: &[SnapTarget])
        requires
            snap_fits(*old(self), snaps@),
        ensures
            *final(self) == snapped(*old(self), snaps@),
    {
        let cx = self.x + (self.junk_sprite.width as i32) / 2;
        let cy = self.y + (self.junk_sprite.height as i32) / 2;
        let was = self.can_attach;
        let n = self.morph_sprites.len();
        if n > 0 {
            let mut found: Option<usize> = None;
            let mut mi: usize = 0;
            while mi < n && found.is_none()
                invariant
                    n == self.morph_sprites@.len(),
                    *self == *old(self),
                    snap_fits(*self, snaps@),
                    cx == item_center(*self).0,
                    cy == item_center(*self).1,
                    mi <= n,
                    found is None ==> first_morph_in_reach(self.morph_sprites@, mi as int, cx as int, cy as int) is None,
                    found matches Some(k) ==> first_morph_in_reach(self.morph_sprites@, n as int, cx as int, cy as int) == Some(k as int),
                decreases n - mi,
            {
                let m = &self.morph_sprites[mi];
                if in_snap_reach(cx - m.offset_x, cy - m.offset_y) {
                    found = Some(mi);
                    proof {
                        lemma_first_morph_stable(self.morph_sprites@, mi + 1, n as int, cx as int, cy as int);
                    }
                }
                mi = mi + 1;
            }
            match found {
                Some(k) => {
                    self.can_attach = true;
                    self.active_morph = Some(k);
                    if !was {
                        self.snap_sound_played = false;
                    }
                },
                None => {
                    if was {
                        self.snap_sound_played = false;
                    }
                    self.can_attach = false;
                    self.active_morph = None;
                },
            }
        } else {
            let mut any = false;
            let mut j: usize = 0;
            while j < snaps.len() && !any
                invariant
                    j <= snaps@.len(),
                    *self == *old(self),
                    snap_fits(*self, snaps@),
                    cx == item_center(*self).0,
                    cy == item_center(*self).1,
                    any ==> free_point_in_reach(snaps@, cx as int, cy as int),
                    !any ==> forall|k: int| 0 <= k < j ==> !(!snaps@[k].occupied && snaps@[k].covered_by is None
                        && within_snap(cx - (#[trigger] snaps@[k]).x, cy - snaps@[k].y)),
                decreases snaps@.len() - j,
            {
                let t = &snaps[j];
                if !t.occupied && t.covered_by.is_none() && in_snap_reach(cx - t.x, cy - t.y) {
                    any = true;
                    assert(snaps@[j as int] == *t);
                }
                j = j + 1;
            }
            if any {
                if !was {
                    self.snap_sound_played = false;
                }
                self.can_attach = true;
            } else {
                if was {
                    self.snap_sound_played = false;
                }
                self.can_attach = false;
                self.active_morph = None;
            }
        }
    }
}

proof fn lemma_first_morph_stable(ms: Seq<MorphVariant>, n: int, m: int, cx: int, cy: int)
    requires
        0 <= n <= m,
        first_morph_in_reach(ms, n, cx, cy) is Some,
    ensures
        first_morph_in_reach(ms, m, cx, cy) == first_morph_in_reach(ms, n, cx, cy),
    decreases m - n,
{
    if m > n {
        lemma_first_morph_stable(ms, n, m - 1, cx, cy);
    }
}

proof fn lemma_first_target_stable(ts: Seq<DropTarget>, n: int, m: int, px: i32, py: i32)
    requires
        0 <= n <= m,
        first_target(ts, n, px, py) is Some,
    ensures
        first_target(ts, m, px, py) == first_target(ts, n, px, py),
    decreases m - n,
{
    if m > n {
        lemma_first_target_stable(ts, n, m - 1, px, py);
    }
}

proof fn lemma_max_z_bound(items: Seq<DraggableItem>, n: int, k: int)
    requires
        0 <= k < n <= items.len(),
    ensures
        items[k].z_order <= max_z(items, n),
    decreases n,
{
    if n > 1 && k < n - 1 {
        lemma_max_z_bound(items, n - 1, k);
    }
}

proof fn lemma_top_item_stable(items: Seq<DraggableItem>, n: int, px: i32, py: i32)
    requires
        0 <= n <= items.len(),
    ensures
        match top_item(items, n, px, py) {
            Some(i) => 0 <= i < n && item_hit(items[i], px, py),
            None => true,
        },
    decreases n,
{
    if n > 0 && !item_hit(items[n - 1], px, py) {
        lemma_top_item_stable(items, n - 1, px, py);
    }
}

proof fn lemma_closest_in_range(snaps: Seq<SnapTarget>, n: int, cx: int, cy: int)
    requires
        0 <= n <= snaps.len(),
    ensures
        closest_point(snaps, n, cx, cy) matches Some(k) ==> 0 <= k < n,
    decreases n,
{
    if n > 0 {
        lemma_closest_in_range(snaps, n - 1, cx, cy);
    }
}

impl DragDropState {
    /// Highest draw order of the items (100 without items)
    fn max_item_z(&self) -> (r: i32)
        ensures
            r == max_z(self.items@, self.items@.len() as int),
    {
        let n = self.items.len();
        if n == 0 {
            return 100;
        }
        let mut m = self.items[0].z_order;
        let mut i: usize = 1;
        while i < n
            invariant
                n == self.items@.len(),
                1 <= i <= n,
                m == max_z(self.items@, i as int),
            decreases n - i,
        {
            if self.items[i].z_order > m {
                m = self.items[i].z_order;
            }
            i = i + 1;
        }
        m
    }

    /// Mouse down: start dragging the topmost item under the pointer;
    /// returns whether a drag started
    pub fn on_mouse_down(&mut self, mx: i32, my: i32) -> (r: bool)
        requires
            drag_wf(old(self)@),
            down_fits(old(self)@, mx, my),
        ensures
            (final(self)@, r) == after_down(old(self)@, mx, my),
            drag_wf(final(self)@),
    {
        if self.dragging_idx.is_some() {
            return false;
        }
        match self.item_at(mx, my) {
            Some(idx) => {
                proof {
                    lemma_top_item_stable(self.items@, self.items@.len() as int, mx, my);
                }
                let max_z = self.max_item_z();
                let z = max_z + 1;
                let ghost before = self.items@;
                let x = self.items[idx].x;
                let y = self.items[idx].y;
                assert(before == old(self)@.items);
                assert(top_item(before, before.len() as int, mx, my) == Some(idx as int));
                assert(i32::MIN <= x - mx <= i32::MAX);
                {
                    let item = &mut self.items[idx];
                    item.dragging = true;
                    item.drag_ticks = 0;
                    item.can_attach = false;
                    item.active_morph = None;
                    item.snap_sound_played = true;
                    item.z_order = z;
                    item.junk_sprite.z_order = z;
                }
                self.grab_offset_x = x - mx;
                self.grab_offset_y = y - my;
                self.dragging_idx = Some(idx);
                assert(self.items@ =~= before.update(idx as int, grabbed(before[idx as int], z)));
                true
            },
            None => false,
        }
    }

    /// Mouse move: the dragged item follows the pointer and snaps
    pub fn on_mouse_move(&mut self, mx: i32, my: i32)
        requires
            drag_wf(old(self)@),
            move_fits(old(self)@, mx, my),
        ensures
            final(self)@ == after_move(old(self)@, mx, my),
            drag_wf(final(self)@),
    {
        if let Some(idx) = self.dragging_idx {
            let nx = mx + self.grab_offset_x;
            let ny = my + self.grab_offset_y;
            let ghost before = self.items@;
            let snaps = &self.snap_targets;
            let item = &mut self.items[idx];
            item.x = nx;
            item.y = ny;
            item.drag_ticks = item.drag_ticks + 1;
            item.junk_sprite.x = nx;
            item.junk_sprite.y = ny;
            assert(*item == moved(before[idx as int], nx, ny));
            item.update_snap(snaps.as_slice());
            assert(self.items@ =~= before.update(idx as int, snapped(moved(before[idx as int], nx, ny), self.snap_targets@)));
        }
    }

    /// The closest free attachment point within snapping distance
    fn find_closest_snap_target(&self, cx: i32, cy: i32) -> (r: Option<usize>)
        requires
            forall|j: int| 0 <= j < self.snap_targets@.len() ==> i32::MIN <= cx - (#[trigger] self.snap_targets@[j]).x <= i32::MAX
                && i32::MIN <= cy - self.snap_targets@[j].y <= i32::MAX,
        ensures
            match closest_point(self.snap_targets@, self.snap_targets@.len() as int, cx as int, cy as int) {
                Some(k) => r == Some(k as usize),
                None => r is None,
            },
            r matches Some(k) ==> closest_point(self.snap_targets@, self.snap_targets@.len() as int, cx as int, cy as int) == Some(k as int),
    {
        let mut best: Option<usize> = None;
        let mut best_d: u64 = 0;
        let mut j: usize = 0;
        while j < self.snap_targets.len()
            invariant
                j <= self.snap_targets@.len(),
                forall|k: int| 0 <= k < self.snap_targets@.len() ==> i32::MIN <= cx - (#[trigger] self.snap_targets@[k]).x <= i32::MAX
                    && i32::MIN <= cy - self.snap_targets@[k].y <= i32::MAX,
                match closest_point(self.snap_targets@, j as int, cx as int, cy as int) {
                    Some(k) => best == Some(k as usize) && 0 <= k < j
                        && best_d == dist2(cx - self.snap_targets@[k].x, cy - self.snap_targets@[k].y),
                    None => best is None,
                },
            decreases self.snap_targets@.len() - j,
        {
            let t = &self.snap_targets[j];
            if !t.occupied {
                let d = squared_distance(cx - t.x, cy - t.y);
                if d < (SNAP_DISTANCE * SNAP_DISTANCE) as u64 && (best.is_none() || d < best_d) {
                    best = Some(j);
                    best_d = d;
                }
            }
            j = j + 1;
        }
        best
    }

    /// The first drop target the point hits
    fn target_at(&self, mx: i32, my: i32) -> (r: Option<usize>)
        requires
            forall|k: int| 0 <= k < self.drop_targets@.len() ==> rect_fits((#[trigger] self.drop_targets@[k]).x, self.drop_targets@[k].y,
                self.drop_targets@[k].width, self.drop_targets@[k].height),
        ensures
            match first_target(self.drop_targets@, self.drop_targets@.len() as int, mx, my) {
                Some(k) => r == Some(k as usize) && k < self.drop_targets@.len(),
                None => r is None,
            },
            r matches Some(t) ==> t < self.drop_targets@.len()
                && first_target(self.drop_targets@, self.drop_targets@.len() as int, mx, my) == Some(t as int),
    {
        let mut t: usize = 0;
        while t < self.drop_targets.len()
            invariant
                t <= self.drop_targets@.len(),
                forall|k: int| 0 <= k < self.drop_targets@.len() ==> rect_fits((#[trigger] self.drop_targets@[k]).x, self.drop_targets@[k].y,
                    self.drop_targets@[k].width, self.drop_targets@[k].height),
                first_target(self.drop_targets@, t as int, mx, my) is None,
            decreases self.drop_targets@.len() - t,
        {
            if self.drop_targets[t].hit_test(mx, my) {
                proof {
                    lemma_first_target_stable(self.drop_targets@, t + 1, self.drop_targets@.len() as int, mx, my);
                }
                return Some(t);
            }
            t = t + 1;
        }
        None
    }

    /// Does a rest area hold the point?
    fn in_rest_area(&self, x: i32, y: i32) -> (r: bool)
        requires
            forall|q: int| 0 <= q < self.drop_rects@.len() ==> rect_fits((#[trigger] self.drop_rects@[q]).x, self.drop_rects@[q].y,
                self.drop_rects@[q].width, self.drop_rects@[q].height),
        ensures
            r == rects_hold(self.drop_rects@, x, y),
    {
        let mut k: usize = 0;
        while k < self.drop_rects.len()
            invariant
                k <= self.drop_rects@.len(),
                forall|q: int| 0 <= q < self.drop_rects@.len() ==> rect_fits((#[trigger] self.drop_rects@[q]).x, self.drop_rects@[q].y,
                    self.drop_rects@[q].width, self.drop_rects@[q].height),
                forall|q: int| 0 <= q < k ==> !rect_holds((#[trigger] self.drop_rects@[q]).x, self.drop_rects@[q].y,
                    self.drop_rects@[q].width, self.drop_rects@[q].height, x, y),
            decreases self.drop_rects@.len() - k,
        {
            if self.drop_rects[k].contains(x, y) {
                assert(self.drop_rects@[k as int] == self.drop_rects[k as int]);
                return true;
            }
            k = k + 1;
        }
        false
    }

    /// End the drag of item `idx`: it is let go and no longer rests
    fn release(&mut self, idx: usize)
        requires
            idx < old(self).items@.len(),
        ensures
            final(self)@ == (DragDropV {
                items: old(self)@.items.update(idx as int, released(old(self)@.items[idx as int])),
                dragging_idx: None,
                ..old(self)@
            }),
    {
        self.dragging_idx = None;
        let ghost before = self.items@;
        let item = &mut self.items[idx];
        item.dragging = false;
        item.on_ground = false;
        assert(self.items@ =~= before.update(idx as int, released(before[idx as int])));
    }

    /// The attachment of item `idx`, when it is snapped and a free point is
    /// in reach
    fn attachment(&self, idx: usize) -> (r: Option<DropResult>)
        requires
            idx < self.items@.len(),
            attach_fits(self.items@[idx as int], self.snap_targets@),
        ensures
            ({
                let it = self.items@[idx as int];
                let (cx, cy) = item_center(it);
                if it.can_attach && closest_point(self.snap_targets@, self.snap_targets@.len() as int, cx, cy) is Some {
                    let k = closest_point(self.snap_targets@, self.snap_targets@.len() as int, cx, cy)->0;
                    r matches Some(x) && x@ == (DropResultV::Attached { part_id: it.part_id, morph_id: morph_of(it), point_id: self.snap_targets@[k].point_id@ })
                } else {
                    r is None
                }
            }),
    {
        let it = &self.items[idx];
        assert(*it == self.items@[idx as int]);
        if !it.can_attach {
            return None;
        }
        let morph_id = match it.active_morph {
            Some(mi) => if mi < it.morph_sprites.len() { Some(it.morph_sprites[mi].morph_part_id) } else { None },
            None => None,
        };
        let cx = it.x + (it.junk_sprite.width as i32) / 2;
        let cy = it.y + (it.junk_sprite.height as i32) / 2;
        proof {
            lemma_closest_in_range(self.snap_targets@, self.snap_targets@.len() as int, cx as int, cy as int);
        }
        assert(cx == item_center(*it).0 && cy == item_center(*it).1);
        assert(morph_id == morph_of(*it));
        match self.find_closest_snap_target(cx, cy) {
            Some(k) => {
                let point_id = self.snap_targets[k].point_id.clone();
                let res = DropResult::Attached { part_id: it.part_id, morph_id, point_id };
                assert(closest_point(self.snap_targets@, self.snap_targets@.len() as int, cx as int, cy as int) == Some(k as int));
                assert(res@ == (DropResultV::Attached { part_id: it.part_id, morph_id: morph_of(*it), point_id: self.snap_targets@[k as int].point_id@ }));
                Some(res)
            },
            None => None,
        }
    }

    /// Move item `idx` into a rest area when it lies outside all of them
    fn bounce(&mut self, idx: usize)
        requires
            idx < old(self).items@.len(),
            forall|k: int| 0 <= k < old(self).drop_rects@.len() ==> rect_fits((#[trigger] old(self).drop_rects@[k]).x, old(self).drop_rects@[k].y,
                old(self).drop_rects@[k].width, old(self).drop_rects@[k].height) && rest_area_fits(old(self).drop_rects@[k]),
        ensures
            ({
                let it = old(self).items@[idx as int];
                let rs = old(self).drop_rects@;
                if rs.len() > 0 && !rects_hold(rs, it.x, it.y) {
                    let p = bounce_point(rs, it.part_id, it.x, it.y);
                    final(self)@ == (DragDropV { items: old(self)@.items.update(idx as int, placed_at(it, p.0 as i32, p.1 as i32)), ..old(self)@ })
                } else {
                    final(self)@ == old(self)@
                }
            }),
    {
        let n = self.drop_rects.len();
        if n == 0 {
            return;
        }
        let part_id = self.items[idx].part_id;
        let ix = self.items[idx].x;
        let iy = self.items[idx].y;
        if self.in_rest_area(ix, iy) {
            return;
        }
        let seed = part_id.wrapping_mul(31337).wrapping_add(ix as u32).wrapping_add(iy as u32);
        let ri = (seed as usize) % n;
        assert(rest_area_fits(self.drop_rects@[ri as int]));
        let (rx, ry) = self.drop_rects[ri].random_point(seed);
        let ghost before = self.items@;
        let item = &mut self.items[idx];
        item.x = rx;
        item.y = ry;
        item.junk_sprite.x = rx;
        item.junk_sprite.y = ry;
        assert(self.items@ =~= before.update(idx as int, placed_at(before[idx as int], rx, ry)));
    }

    /// Mouse up: end the drag and say what the drop did
    pub fn on_mouse_up(&mut self, mx: i32, my: i32) -> (r: DropResult)
        requires
            drag_wf(old(self)@),
            up_fits(old(self)@, mx, my),
        ensures
            (final(self)@, r@) == after_up(old(self)@, mx, my),
            drag_wf(final(self)@),
    {
        let idx = match self.dragging_idx {
            Some(i) => i,
            None => {
                proof {
                    lemma_up_nothing(old(self)@, mx, my);
                }
                return DropResult::Nothing;
            },
        };
        let ghost v = old(self)@;
        let ghost it = v.items[idx as int];
        let part_id = self.items[idx].part_id;
        let a = self.attachment(idx);
        self.release(idx);
        assert(self@ == up_base(v, idx as int));
        if let Some(res) = a {
            proof {
                lemma_up_attached(v, mx, my, idx);
            }
            return res;
        }
        assert(!up_attaches(v, idx as int));
        match self.target_at(mx, my) {
            Some(t) => {
                let target_id = self.drop_targets[t].id.clone();
                proof {
                    lemma_up_target(v, mx, my, idx, t as int);
                }
                return DropResult::DroppedOnTarget { part_id, target_id };
            },
            None => {},
        }
        proof {
            lemma_up_dropped(v, mx, my, idx);
        }
        self.bounce(idx);
        proof {
            let p = bounce_point(v.drop_rects, it.part_id, it.x, it.y);
            assert(v.items.update(idx as int, released(it)).update(idx as int, placed_at(released(it), p.0 as i32, p.1 as i32))
                =~= v.items.update(idx as int, placed_at(released(it), p.0 as i32, p.1 as i32)));
        }
        DropResult::Dropped { part_id }
    }
}

/// "Dragging Part #<id>"
pub open spec fn dragging_text(part_id: u32) -> Seq<char> {
    "Dragging Part #"@ + decimal(part_id as nat)
}

/// "Part #<id>"
pub open spec fn part_text(part_id: u32) -> Seq<char> {
    "Part #"@ + decimal(part_id as nat)
}

impl DragDropState {
    /// One frame of mouse input: a press starts a drag, holding moves the
    /// dragged item, a release drops it; returns what a drop did
    pub fn process_mouse(&mut self, mx: i32, my: i32, mouse_down: bool) -> (r: DropResult)
        requires
            drag_wf(old(self)@),
            mouse_down && !old(self).prev_mouse_down ==> down_fits(old(self)@, mx, my),
            mouse_down && old(self).prev_mouse_down ==> move_fits(old(self)@, mx, my),
            !mouse_down && old(self).prev_mouse_down ==> up_fits(old(self)@, mx, my),
        ensures
            (final(self)@, r@) == after_mouse(old(self)@, mx, my, mouse_down),
            drag_wf(final(self)@),
    {
        let was_down = self.prev_mouse_down;
        self.prev_mouse_down = mouse_down;
        if mouse_down && !was_down {
            self.on_mouse_down(mx, my);
            DropResult::Nothing
        } else if mouse_down && was_down {
            self.on_mouse_move(mx, my);
            DropResult::Nothing
        } else if !mouse_down && was_down {
            self.on_mouse_up(mx, my)
        } else {
            DropResult::Nothing
        }
    }

    /// The images of all items, sorted by draw order (stable)
    pub fn all_sprites(&self) -> (r: Vec<Sprite>)
        ensures
            sprites_view(r@) == sort_by_z(item_sprites(self.items@)),
    {
        let mut out: Vec<Sprite> = Vec::new();
        let mut i: usize = 0;
        while i < self.items.len()
            invariant
                i <= self.items@.len(),
                sprites_view(out@) == sort_by_z(item_sprites(self.items@.take(i as int))),
            decreases self.items@.len() - i,
        {
            let s = self.items[i].as_sprite();
            proof {
                let t = item_sprites(self.items@.take(i + 1));
                assert(t.drop_last() =~= item_sprites(self.items@.take(i as int)));
                assert(t.last() == s@);
            }
            insert_sprite(&mut out, s);
            i = i + 1;
        }
        assert(self.items@.take(self.items@.len() as int) =~= self.items@);
        out
    }

    /// What the pointer is over: the dragged part while dragging, else the
    /// topmost part under the pointer
    pub fn hover_info(&self, px: i32, py: i32) -> (r: Option<String>)
        requires
            self.wf(),
        ensures
            match self.dragging_idx {
                Some(i) => r matches Some(t) && t@ == dragging_text(self.items@[i as int].part_id),
                None => match top_item(self.items@, self.items@.len() as int, px, py) {
                    Some(i) => r matches Some(t) && t@ == part_text(self.items@[i].part_id),
                    None => r is None,
                },
            },
    {
        if let Some(i) = self.dragging_idx {
            let mut t = String::new();
            t.append("Dragging Part #");
            push_decimal(&mut t, self.items[i].part_id);
            assert(t@ =~= dragging_text(self.items@[i as int].part_id));
            return Some(t);
        }
        match self.item_at(px, py) {
            Some(i) => {
                let mut t = String::new();
                t.append("Part #");
                push_decimal(&mut t, self.items[i].part_id);
                assert(t@ =~= part_text(self.items@[i as int].part_id));
                Some(t)
            },
            None => None,
        }
    }
}

// ---------------------------------------------------------------------------
// Laws
// ---------------------------------------------------------------------------

/// A part dropped outside every rest area (and neither attached nor
/// dropped on a target) lands inside one of them, when all rest areas are
/// nonempty and fit in 32 bits.
pub proof fn law_bounce_lands_in_rest_area(v: DragDropV, mx: i32, my: i32)
    requires
        v.dragging_idx matches Some(i) && i < v.items.len(),
        !up_attaches(v, v.dragging_idx->0 as int),
        first_target(v.drop_targets, v.drop_targets.len() as int, mx, my) is None,
        v.drop_rects.len() > 0,
        forall|k: int| 0 <= k < v.drop_rects.len() ==> (#[trigger] v.drop_rects[k]).width > 0 && v.drop_rects[k].height > 0
            && rest_area_fits(v.drop_rects[k]) && rect_fits(v.drop_rects[k].x, v.drop_rects[k].y, v.drop_rects[k].width, v.drop_rects[k].height),
    ensures
        ({
            let i = v.dragging_idx->0 as int;
            let it = after_up(v, mx, my).0.items[i];
            rects_hold(v.drop_rects, it.x, it.y)
        }),
{
    let i = v.dragging_idx->0;
    lemma_up_dropped(v, mx, my, i);
    let it0 = v.items[i as int];
    if !rects_hold(v.drop_rects, it0.x, it0.y) {
        let seed = bounce_seed(it0.part_id, it0.x, it0.y);
        let k = (seed as int) % (v.drop_rects.len() as int);
        let r = v.drop_rects[k];
        law_random_point_inside(r, seed);
        let p = seeded_point(r, seed);
        assert(after_up(v, mx, my).0.items[i as int] == placed_at(released(it0), p.0 as i32, p.1 as i32));
        assert(rect_holds(v.drop_rects[k].x, v.drop_rects[k].y, v.drop_rects[k].width, v.drop_rects[k].height, p.0 as i32, p.1 as i32));
    }
}

/// Removing another item keeps the same item dragged: its index moves down
/// when the removed item came before it.
pub proof fn law_remove_keeps_dragged_item(items: Seq<DraggableItem>, d: usize, idx: usize)
    requires
        d < items.len(),
        idx < items.len(),
        d != idx,
    ensures
        drag_after_remove(Some(d), idx) matches Some(e) && items.remove(idx as int)[e as int] == items[d as int],
{
}

/// A pseudo-random point of a rectangle lies inside it.
pub proof fn law_random_point_inside(r: DropRect, seed: u32)
    requires
        r.width > 0,
        r.height > 0,
        r.width <= i32::MAX,
        r.height <= i32::MAX,
        rect_fits(r.x, r.y, r.width, r.height),
    ensures
        rect_holds(r.x, r.y, r.width, r.height, seeded_point(r, seed).0 as i32, seeded_point(r, seed).1 as i32),
        seeded_point(r, seed).0 == seeded_point(r, seed).0 as i32,
        seeded_point(r, seed).1 == seeded_point(r, seed).1 as i32,
{
    let s1 = lcg_step(seed);
    let s2 = lcg_step(s1);
    assert((s1 % r.width) as i32 == s1 % r.width);
    assert((s2 % r.height) as i32 == s2 % r.height);
}

/// A free attachment point within snapping distance of (cx, cy)
pub open spec fn snap_candidate(s: SnapTarget, cx: int, cy: int) -> bool {
    !s.occupied && (cx - s.x) * (cx - s.x) + (cy - s.y) * (cy - s.y) < SNAP_DISTANCE * SNAP_DISTANCE
}

/// The point a released part snaps to is the closest free point within
/// snapping distance of its center: it is such a point, no such point is
/// nearer, and there is one exactly when some free point is in reach.
pub proof fn law_snap_picks_closest_free_point(snaps: Seq<SnapTarget>, cx: int, cy: int)
    ensures
        closest_point(snaps, snaps.len() as int, cx, cy) matches Some(k) ==> {
            &&& 0 <= k < snaps.len()
            &&& snap_candidate(snaps[k], cx, cy)
            &&& forall|j: int| 0 <= j < snaps.len() && #[trigger] snap_candidate(snaps[j], cx, cy) ==>
                (cx - snaps[k].x) * (cx - snaps[k].x) + (cy - snaps[k].y) * (cy - snaps[k].y)
                    <= (cx - snaps[j].x) * (cx - snaps[j].x) + (cy - snaps[j].y) * (cy - snaps[j].y)
        },
        closest_point(snaps, snaps.len() as int, cx, cy) is None
            <==> forall|j: int| 0 <= j < snaps.len() ==> !#[trigger] snap_candidate(snaps[j], cx, cy),
{
    lemma_closest_is_closest(snaps, snaps.len() as int, cx, cy);
}

proof fn lemma_closest_is_closest(snaps: Seq<SnapTarget>, n: int, cx: int, cy: int)
    requires
        0 <= n <= snaps.len(),
    ensures
        closest_point(snaps, n, cx, cy) matches Some(k) ==> {
            &&& 0 <= k < n
            &&& snap_candidate(snaps[k], cx, cy)
            &&& forall|j: int| 0 <= j < n && #[trigger] snap_candidate(snaps[j], cx, cy) ==>
                (cx - snaps[k].x) * (cx - snaps[k].x) + (cy - snaps[k].y) * (cy - snaps[k].y)
                    <= (cx - snaps[j].x) * (cx - snaps[j].x) + (cy - snaps[j].y) * (cy - snaps[j].y)
        },
        closest_point(snaps, n, cx, cy) is None
            <==> forall|j: int| 0 <= j < n ==> !#[trigger] snap_candidate(snaps[j], cx, cy),
    decreases n,
{
    if n > 0 {
        lemma_closest_is_closest(snaps, n - 1, cx, cy);
        let c = snap_candidate(snaps[n - 1], cx, cy);
        if closest_point(snaps, n, cx, cy) is None {
            assert forall|j: int| 0 <= j < n implies !#[trigger] snap_candidate(snaps[j], cx, cy) by {
                if j < n - 1 {
                } else {
                    assert(!c);
                }
            }
        }
    }
}

/// Picking up takes the topmost part under the pointer: the picked item is
/// hit, no item drawn after it is hit, and nothing is picked exactly when
/// no item is hit.
pub proof fn law_pick_takes_topmost(items: Seq<DraggableItem>, px: i32, py: i32)
    ensures
        top_item(items, items.len() as int, px, py) matches Some(i) ==> {
            &&& 0 <= i < items.len()
            &&& item_hit(items[i], px, py)
            &&& forall|j: int| i < j < items.len() ==> !#[trigger] item_hit(items[j], px, py)
        },
        top_item(items, items.len() as int, px, py) is None
            <==> forall|j: int| 0 <= j < items.len() ==> !#[trigger] item_hit(items[j], px, py),
{
    lemma_top_item_topmost(items, items.len() as int, px, py);
}

proof fn lemma_top_item_topmost(items: Seq<DraggableItem>, n: int, px: i32, py: i32)
    requires
        0 <= n <= items.len(),
    ensures
        top_item(items, n, px, py) matches Some(i) ==> {
            &&& 0 <= i < n
            &&& item_hit(items[i], px, py)
            &&& forall|j: int| i < j < n ==> !#[trigger] item_hit(items[j], px, py)
        },
        top_item(items, n, px, py) is None
            <==> forall|j: int| 0 <= j < n ==> !#[trigger] item_hit(items[j], px, py),
    decreases n,
{
    if n > 0 {
        lemma_top_item_topmost(items, n - 1, px, py);
        let h = item_hit(items[n - 1], px, py);
        if top_item(items, n, px, py) is None {
            assert forall|j: int| 0 <= j < n implies !#[trigger] item_hit(items[j], px, py) by {
                if j == n - 1 {
                    assert(!h);
                }
            }
        }
    }
}

/// A part dropped on the doors and arrows goes to the first target (in
/// order) whose rectangle holds the point; none when no rectangle holds it.
pub proof fn law_drop_takes_first_target(ts: Seq<DropTarget>, px: i32, py: i32)
    ensures
        first_target(ts, ts.len() as int, px, py) matches Some(k) ==> {
            &&& 0 <= k < ts.len()
            &&& rect_holds(ts[k].x, ts[k].y, ts[k].width, ts[k].height, px, py)
            &&& forall|j: int| 0 <= j < k ==> !rect_holds((#[trigger] ts[j]).x, ts[j].y, ts[j].width, ts[j].height, px, py)
        },
        first_target(ts, ts.len() as int, px, py) is None
            <==> forall|j: int| 0 <= j < ts.len() ==> !rect_holds((#[trigger] ts[j]).x, ts[j].y, ts[j].width, ts[j].height, px, py),
{
    lemma_first_target_first(ts, ts.len() as int, px, py);
}

proof fn lemma_first_target_first(ts: Seq<DropTarget>, n: int, px: i32, py: i32)
    requires
        0 <= n <= ts.len(),
    ensures
        first_target(ts, n, px, py) matches Some(k) ==> {
            &&& 0 <= k < n
            &&& rect_holds(ts[k].x, ts[k].y, ts[k].width, ts[k].height, px, py)
            &&& forall|j: int| 0 <= j < k ==> !rect_holds((#[trigger] ts[j]).x, ts[j].y, ts[j].width, ts[j].height, px, py)
        },
        first_target(ts, n, px, py) is None
            <==> forall|j: int| 0 <= j < n ==> !rect_holds((#[trigger] ts[j]).x, ts[j].y, ts[j].width, ts[j].height, px, py),
    decreases n,
{
    if n > 0 {
        lemma_first_target_first(ts, n - 1, px, py);
        let t = ts[n - 1];
        let h = rect_holds(t.x, t.y, t.width, t.height, px, py);
        if first_target(ts, n, px, py) is None {
            assert forall|j: int| 0 <= j < n implies !rect_holds((#[trigger] ts[j]).x, ts[j].y, ts[j].width, ts[j].height, px, py) by {
                if j == n - 1 {
                    assert(!h);
                }
            }
        }
    }
}

} // verus!
