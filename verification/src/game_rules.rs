//! Rules the game loop applies between its engines: which sound a part
//! makes, where a dropped part goes, which reward a quest gives, which cursor
//! a button gets, how a map tile's terrain is read, and the like.

use vstd::prelude::*;
use crate::cursor::CursorType;
use crate::parts_db::{PartData, PartsDB};
use crate::scene::Scene;
use crate::sprite::{Bitmap, BitmapStore, Sprite, SpriteV};
use vstd::string::StringExecFns;
use crate::text::{decimal, lowercase, owned, parse_u32_spec, push_decimal, str_eq, to_lower};
use crate::toolbox::half_toward_zero;
use crate::driving::{TOPO_HEIGHT, TOPO_WIDTH};
use crate::drag_drop::{DropResult, DropResultV};

verus! {

// ---------------------------------------------------------------------------
// Sounds
// ---------------------------------------------------------------------------

/// Sound of a part landing on the floor, by weight: heavy (4+), medium (2+)
/// or light
pub open spec fn floor_sound_of(weight: i32) -> Seq<char> {
    if weight >= 4 { "00e003v0"@ } else if weight >= 2 { "00e002v0"@ } else { "00e001v0"@ }
}

/// Sound of a part snapping onto the car, by weight
pub open spec fn attach_sound_of(weight: i32) -> Seq<char> {
    if weight >= 4 { "03e003v2"@ } else if weight >= 2 { "03e003v1"@ } else { "03e003v0"@ }
}

pub fn floor_sound(weight: i32) -> (r: &'static str)
    ensures
        r@ == floor_sound_of(weight),
{
    if weight >= 4 { "00e003v0" } else if weight >= 2 { "00e002v0" } else { "00e001v0" }
}

pub fn attach_sound(weight: i32) -> (r: &'static str)
    ensures
        r@ == attach_sound_of(weight),
{
    if weight >= 4 { "03e003v2" } else if weight >= 2 { "03e003v1" } else { "03e003v0" }
}

/// A part's weight; 1 for an unknown part
pub fn part_weight(db: &PartsDB, part_id: u32) -> (r: i32)
    ensures
        r == (if db.part_map().contains_key(part_id) { db.part_map()[part_id].properties.weight } else { 1 }),
{
    match db.get(part_id) {
        Some(p) => p.properties.weight,
        None => 1,
    }
}

/// Horn sound for a horn type (1-5)
pub open spec fn horn_sound_of(horn_type: i32) -> Option<Seq<char>> {
    if horn_type == 1 { Some("05e050v0"@) }
    else if horn_type == 2 { Some("05e049v0"@) }
    else if horn_type == 3 { Some("05e044v0"@) }
    else if horn_type == 4 { Some("05e042v0"@) }
    else if horn_type == 5 { Some("05d013v0"@) }
    else { None }
}

pub fn horn_sound(horn_type: i32) -> (r: Option<&'static str>)
    ensures
        match horn_sound_of(horn_type) {
            Some(s) => r matches Some(x) && x@ == s,
            None => r is None,
        },
{
    if horn_type == 1 { Some("05e050v0") }
    else if horn_type == 2 { Some("05e049v0") }
    else if horn_type == 3 { Some("05e044v0") }
    else if horn_type == 4 { Some("05e042v0") }
    else if horn_type == 5 { Some("05d013v0") }
    else { None }
}

/// Background loop of a scene, if it has one
pub open spec fn ambient_of(scene: Scene) -> Option<Seq<char>> {
    match scene {
        Scene::Junkyard => Some("02e010v0"@),
        Scene::Yard => Some("02e010v0"@),
        Scene::CarShow => Some("94e001v0"@),
        Scene::Destination(n) => if n == 85 { Some("85e001v0"@) } else if n == 86 { Some("86e005v0"@) }
            else if n == 88 { Some("88e001v0"@) } else if n == 92 { Some("92e002v0"@) } else { None },
        _ => None,
    }
}

pub fn scene_ambient(scene: Scene) -> (r: Option<&'static str>)
    ensures
        match ambient_of(scene) {
            Some(s) => r matches Some(x) && x@ == s,
            None => r is None,
        },
{
    match scene {
        Scene::Junkyard => Some("02e010v0"),
        Scene::Yard => Some("02e010v0"),
        Scene::CarShow => Some("94e001v0"),
        Scene::Destination(n) => {
            if n == 85 { Some("85e001v0") } else if n == 86 { Some("86e005v0") }
            else if n == 88 { Some("88e001v0") } else if n == 92 { Some("92e002v0") } else { None }
        },
        _ => None,
    }
}

// ---------------------------------------------------------------------------
// Text and colors
// ---------------------------------------------------------------------------

/// The name shown for a car at the car show: "Unbenannt" for an unnamed car
pub fn car_show_name(name: &str) -> (r: String)
    ensures
        r@ == (if name@.len() == 0 { "Unbenannt"@ } else { name@ }),
{
    if name.unicode_len() == 0 { owned("Unbenannt") } else { owned(name) }
}

/// Subtitle color of a speaker: yellow for Mulle, light blue for Figge,
/// white for everyone else
pub fn speaker_color(speaker: &str) -> (r: u32)
    ensures
        r == (if speaker@ == "mulle"@ { 0xFFFFFF00u32 } else if speaker@ == "figge"@ { 0xFF88CCFFu32 } else { 0xFFFFFFFFu32 }),
{
    if str_eq(speaker, "mulle") {
        0xFFFFFF00
    } else if str_eq(speaker, "figge") {
        0xFF88CCFF
    } else {
        0xFFFFFFFF
    }
}

/// Is the point on the language button of the main menu?
pub fn language_button_hit(x: i32, y: i32) -> (r: bool)
    ensures
        r == (20 <= x < 180 && 440 <= y < 470),
{
    x >= 20 && x < 180 && y >= 440 && y < 470
}

/// `items` joined with ", "
pub open spec fn joined(items: Seq<Seq<char>>) -> Seq<char>
    decreases items.len(),
{
    if items.len() == 0 {
        Seq::empty()
    } else if items.len() == 1 {
        items[0]
    } else {
        joined(items.drop_last()) + ", "@ + items.last()
    }
}

/// "<prefix> (<failure>, <failure>, ...)"
pub open spec fn legality_line(prefix: Seq<char>, failures: Seq<Seq<char>>) -> Seq<char> {
    prefix + " ("@ + joined(failures) + ")"@
}

/// The garage's road-legality line for a car that is not road legal
pub fn legality_text(prefix: &str, failures: &[&str]) -> (r: String)
    ensures
        r@ == legality_line(prefix@, failures@.map_values(|f: &str| f@)),
{
    let ghost fs = failures@.map_values(|f: &str| f@);
    let mut s = String::new();
    s.append(prefix);
    s.append(" (");
    let ghost head = s@;
    let mut i: usize = 0;
    while i < failures.len()
        invariant
            fs == failures@.map_values(|f: &str| f@),
            i <= failures@.len(),
            s@ == head + joined(fs.take(i as int)),
        decreases failures@.len() - i,
    {
        let ghost before = s@;
        if i > 0 {
            s.append(", ");
        }
        s.append(failures[i]);
        proof {
            let t = fs.take(i + 1);
            assert(t.drop_last() =~= fs.take(i as int));
            assert(t.last() == failures@[i as int]@);
            if i == 0 {
                assert(fs.take(0) =~= Seq::<Seq<char>>::empty());
                assert(joined(t) == t[0]);
                assert(s@ =~= head + joined(t));
            } else {
                assert(s@ =~= head + joined(t));
            }
        }
        i = i + 1;
    }
    s.append(")");
    assert(fs.take(failures@.len() as int) =~= fs);
    assert(s@ =~= legality_line(prefix@, fs));
    s
}

// ---------------------------------------------------------------------------
// Rewards, piles, placeholders
// ---------------------------------------------------------------------------

/// The part a quest reward gives: part 0 means a random unowned part (287
/// when there is none left)
pub fn reward_part(part_id: u32, random: Option<u32>) -> (r: u32)
    ensures
        r == (if part_id == 0 { match random { Some(x) => x, None => 287 } } else { part_id }),
{
    if part_id == 0 {
        match random {
            Some(x) => x,
            None => 287,
        }
    } else {
        part_id
    }
}

/// The junk pile to the right of `pile` (after 6 comes 1)
pub open spec fn pile_after(pile: u8) -> u8 {
    if pile >= 6 { 1 } else { (pile + 1) as u8 }
}

/// The junk pile to the left of `pile` (before 1 comes 6)
pub open spec fn pile_before(pile: u8) -> u8 {
    if pile <= 1 { 6 } else { (pile - 1) as u8 }
}

/// The junk pile to the right (after 6 comes 1)
pub fn next_pile(pile: u8) -> (r: u8)
    ensures
        r == pile_after(pile),
{
    if pile >= 6 { 1 } else { pile + 1 }
}

/// The junk pile to the left (before 1 comes 6)
pub fn prev_pile(pile: u8) -> (r: u8)
    ensures
        r == pile_before(pile),
{
    if pile <= 1 { 6 } else { pile - 1 }
}

/// The parts Figge brings, in the order he offers them
pub open spec fn figge_parts() -> Seq<u32> {
    seq![
        13u32, 20, 17, 89, 290, 120, 18, 19, 173, 21, 297, 22, 24, 25, 185, 26,
        27, 28, 32, 35, 91, 132, 129, 134, 137, 146, 149, 154, 168, 216, 174,
        175, 177, 189, 191, 192, 193, 233, 199, 208, 209, 212, 221, 227, 229,
        235, 251, 264, 278, 294, 295, 14,
    ]
}

/// The parts Figge brings, in the order he offers them
pub fn figge_part_ids() -> (r: &'static [u32])
    ensures
        r@ == figge_parts(),
{
    let r: &'static [u32] = &[
        13, 20, 17, 89, 290, 120, 18, 19, 173, 21, 297, 22, 24, 25, 185, 26,
        27, 28, 32, 35, 91, 132, 129, 134, 137, 146, 149, 154, 168, 216, 174,
        175, 177, 189, 191, 192, 193, 233, 199, 208, 209, 212, 221, 227, 229,
        235, 251, 264, 278, 294, 295, 14,
    ];
    assert(r@ =~= figge_parts());
    r
}

/// Color channel of the stand-in image of a part: (id * k) mod 200 + 55
pub open spec fn tint(part_id: u32, k: int) -> u8 {
    ((part_id * k) % 200 + 55) as u8
}

/// "part_<id>"
pub open spec fn part_sprite_name(part_id: u32) -> Seq<char> {
    "part_"@ + decimal(part_id as nat)
}

/// Pixels of a stand-in image: 32x32 of one color, alpha 200
pub open spec fn placeholder_pixels(px: Seq<u8>, part_id: u32) -> bool {
    &&& px.len() == 32 * 32 * 4
    &&& forall|i: int| 0 <= i < 32 * 32 ==> {
        &&& #[trigger] px[i * 4] == tint(part_id, 37)
        &&& px[i * 4 + 1] == tint(part_id, 73)
        &&& px[i * 4 + 2] == tint(part_id, 113)
        &&& px[i * 4 + 3] == 200
    }
}

/// The stand-in image of a part whose bitmap is missing: 32x32, one
/// slightly transparent color derived from the part id
pub fn placeholder_sprite(part_id: u32, x: i32, y: i32, z: i32) -> (r: Sprite)
    requires
        part_id as int * 113 <= u32::MAX,
    ensures
        r@.x == x && r@.y == y && r@.width == 32 && r@.height == 32,
        r@.visible && r@.interactive,
        r@.z_order == z,
        r@.member_num == part_id,
        r@.name == part_sprite_name(part_id),
        placeholder_pixels(r@.pixels, part_id),
{
    let red = ((part_id * 37) % 200 + 55) as u8;
    let green = ((part_id * 73) % 200 + 55) as u8;
    let blue = ((part_id * 113) % 200 + 55) as u8;
    let mut pixels: Vec<u8> = Vec::new();
    let mut i: usize = 0;
    while i < 32 * 32
        invariant
            i <= 32 * 32,
            pixels@.len() == i * 4,
            red == tint(part_id, 37) && green == tint(part_id, 73) && blue == tint(part_id, 113),
            forall|k: int| 0 <= k < i ==> {
                &&& #[trigger] pixels@[k * 4] == red
                &&& pixels@[k * 4 + 1] == green
                &&& pixels@[k * 4 + 2] == blue
                &&& pixels@[k * 4 + 3] == 200
            },
        decreases 32 * 32 - i,
    {
        let ghost before = pixels@;
        pixels.push(red);
        pixels.push(green);
        pixels.push(blue);
        pixels.push(200);
        assert forall|k: int| 0 <= k < i + 1 implies {
            &&& #[trigger] pixels@[k * 4] == red
            &&& pixels@[k * 4 + 1] == green
            &&& pixels@[k * 4 + 2] == blue
            &&& pixels@[k * 4 + 3] == 200
        } by {
            if k < i {
                assert(pixels@[k * 4] == before[k * 4]);
                assert(pixels@[k * 4 + 1] == before[k * 4 + 1]);
                assert(pixels@[k * 4 + 2] == before[k * 4 + 2]);
                assert(pixels@[k * 4 + 3] == before[k * 4 + 3]);
            }
        }
        i = i + 1;
    }
    assert(i == 1024);
    assert(pixels@.len() == 4096);
    assert(forall|k: int| 0 <= k < 1024 ==> #[trigger] pixels@[k * 4] == red);
    assert(placeholder_pixels(pixels@, part_id));
    let mut name = String::new();
    name.append("part_");
    push_decimal(&mut name, part_id);
    assert(name@ =~= part_sprite_name(part_id));
    let ghost pv = pixels@;
    let s = Sprite { x, y, width: 32, height: 32, pixels, visible: true, z_order: z, name, interactive: true, member_num: part_id };
    assert(placeholder_pixels(pv, part_id));
    s
}

/// The decoded image of a part's loose ("junk") view, if the part has one
/// and the store holds a bitmap of that name
pub open spec fn part_image(db: Map<u32, PartData>, store: BitmapStore, part_id: u32) -> Option<Bitmap> {
    if db.contains_key(part_id) && db[part_id].junk_view@.len() > 0 {
        store.lookup(db[part_id].junk_view@)
    } else {
        None
    }
}

/// The sprite of a loose part at (x, y): its junk view image, else a
/// stand-in image
pub fn make_part_sprite(db: &PartsDB, store: &BitmapStore, part_id: u32, x: i32, y: i32, z: i32) -> (r: Sprite)
    requires
        part_image(db.part_map(), *store, part_id) is None ==> part_id as int * 113 <= u32::MAX,
    ensures
        match part_image(db.part_map(), *store, part_id) {
            Some(b) => r@ == (SpriteV {
                x,
                y,
                width: b.width,
                height: b.height,
                pixels: b.pixels@,
                visible: true,
                z_order: z,
                name: part_sprite_name(part_id),
                interactive: true,
                member_num: part_id,
            }),
            None => {
                &&& r@.x == x && r@.y == y && r@.width == 32 && r@.height == 32
                &&& r@.visible && r@.interactive
                &&& r@.z_order == z
                &&& r@.member_num == part_id
                &&& r@.name == part_sprite_name(part_id)
                &&& placeholder_pixels(r@.pixels, part_id)
            },
        },
{
    if let Some(p) = db.get(part_id) {
        if p.junk_view.as_str().unicode_len() > 0 {
            if let Some(bmp) = store.find_bitmap_by_name(p.junk_view.as_str()) {
                let mut name = String::new();
                name.append("part_");
                push_decimal(&mut name, part_id);
                assert(name@ =~= part_sprite_name(part_id));
                return Sprite {
                    x,
                    y,
                    width: bmp.width,
                    height: bmp.height,
                    pixels: bmp.pixels.clone(),
                    visible: true,
                    z_order: z,
                    name,
                    interactive: true,
                    member_num: part_id,
                };
            }
        }
    }
    placeholder_sprite(part_id, x, y, z)
}

/// Where a mail image is shown: centered on (320, 240)
pub fn mail_position(width: u32, height: u32) -> (r: (i32, i32))
    ensures
        r.0 == 320 - half_toward_zero((width as i32) as int),
        r.1 == 240 - half_toward_zero((height as i32) as int),
{
    (320 - (width as i32) / 2, 240 - (height as i32) / 2)
}

// ---------------------------------------------------------------------------
// Terrain
// ---------------------------------------------------------------------------

/// The terrain value of cell (x, y) after reading a terrain bitmap of the
/// given size into `old` (resized to the terrain size with zeros): the red
/// channel of the bitmap pixel where the bitmap has one, else the old value
pub open spec fn topo_cell(old: Seq<u8>, pixels: Seq<u8>, width: int, height: int, x: int, y: int) -> u8 {
    let k = y * 316 + x;
    let si = (y * width + x) * 4;
    if y < height && x < width && si < pixels.len() {
        pixels[si]
    } else if k < old.len() {
        old[k]
    } else {
        0
    }
}

/// Read a terrain bitmap (RGBA) into a tile's terrain map: the map gets the
/// terrain size, and each cell the bitmap covers gets its red channel
pub fn load_topology(topo: &mut Vec<u8>, pixels: &[u8], width: usize, height: usize)
    requires
        width * height * 4 <= usize::MAX,
    ensures
        final(topo)@.len() == TOPO_WIDTH * TOPO_HEIGHT,
        forall|y: int, x: int| 0 <= y < 198 && 0 <= x < 316 ==> #[trigger] final(topo)@[y * 316 + x]
            == topo_cell(old(topo)@, pixels@, width as int, height as int, x, y),
{
    let ghost start = topo@;
    let tw = TOPO_WIDTH as usize;
    let th = TOPO_HEIGHT as usize;
    topo.resize(tw * th, 0u8);
    let ghost sized = topo@;
    assert forall|k: int| 0 <= k < 316 * 198 implies #[trigger] sized[k] == (if k < start.len() { start[k] } else { 0u8 }) by {
        if start.len() >= 316 * 198 {
            assert(sized[k] == start.subrange(0, 316 * 198 as int)[k]);
        } else if k < start.len() {
            assert(sized.subrange(0, start.len() as int)[k] == start[k]);
        }
    }
    let rows = if height < th { height } else { th };
    let cols = if width < tw { width } else { tw };
    let mut y: usize = 0;
    while y < rows
        invariant
            rows <= 198, cols <= 316,
            rows == (if height < 198 { height } else { 198usize }),
            cols == (if width < 316 { width } else { 316usize }),
            width * height * 4 <= usize::MAX,
            y <= rows,
            topo@.len() == 316 * 198,
            forall|k: int| 0 <= k < 316 * 198 ==> #[trigger] sized[k] == (if k < start.len() { start[k] } else { 0u8 }),
            forall|yy: int, xx: int| 0 <= yy < 198 && 0 <= xx < 316 ==> #[trigger] topo@[yy * 316 + xx] == (
                if yy < y { topo_cell(start, pixels@, width as int, height as int, xx, yy) } else { sized[yy * 316 + xx] }),
        decreases rows - y,
    {
        let mut x: usize = 0;
        while x < cols
            invariant
                rows <= 198, cols <= 316,
                rows == (if height < 198 { height } else { 198usize }),
                cols == (if width < 316 { width } else { 316usize }),
                width * height * 4 <= usize::MAX,
                y < rows,
                x <= cols,
                topo@.len() == 316 * 198,
                forall|k: int| 0 <= k < 316 * 198 ==> #[trigger] sized[k] == (if k < start.len() { start[k] } else { 0u8 }),
                forall|yy: int, xx: int| 0 <= yy < 198 && 0 <= xx < 316 ==> #[trigger] topo@[yy * 316 + xx] == (
                    if yy < y || (yy == y && xx < x) {
                        topo_cell(start, pixels@, width as int, height as int, xx, yy)
                    } else {
                        sized[yy * 316 + xx]
                    }),
            decreases cols - x,
        {
            assert(y * width + x < width * height) by (nonlinear_arith)
                requires y < height, x < width;
            let si = (y * width + x) * 4;
            let k = y * 316 + x;
            if si < pixels.len() {
                topo.set(k, pixels[si]);
            }
            assert forall|yy: int, xx: int| 0 <= yy < 198 && 0 <= xx < 316 && (yy != y || xx != x)
                implies #[trigger] (yy * 316 + xx) != k as int by {
                if yy * 316 + xx == k as int {
                    assert(yy == y && xx == x) by (nonlinear_arith)
                        requires yy * 316 + xx == y * 316 + x, 0 <= xx < 316, 0 <= x < 316, 0 <= yy, 0 <= y;
                }
            }
            x = x + 1;
        }
        y = y + 1;
    }
    proof {
        assert forall|yy: int, xx: int| 0 <= yy < 198 && 0 <= xx < 316 implies #[trigger] topo@[yy * 316 + xx]
            == topo_cell(start, pixels@, width as int, height as int, xx, yy) by {
            if yy >= rows as int || xx >= cols as int {
                assert(!(yy < height && xx < width));
            }
        }
    }
}

// ---------------------------------------------------------------------------
// Cursor choice
// ---------------------------------------------------------------------------

/// Does `h` hold `n` as a contiguous part?
pub open spec fn has_sub(h: Seq<char>, n: Seq<char>) -> bool {
    exists|i: int| 0 <= i <= h.len() - n.len() && #[trigger] h.subrange(i, i + n.len()) == n
}

/// Does `h` hold `n` as a contiguous part?
pub fn str_contains(h: &str, n: &str) -> (r: bool)
    ensures
        r == has_sub(h@, n@),
{
    let hl = h.unicode_len();
    let nl = n.unicode_len();
    if nl > hl {
        return false;
    }
    let mut i: usize = 0;
    while i <= hl - nl
        invariant
            hl == h@.len(), nl == n@.len(), nl <= hl,
            i <= hl - nl + 1,
            forall|k: int| 0 <= k < i ==> #[trigger] h@.subrange(k, k + nl) != n@,
        decreases hl - nl + 1 - i,
    {
        let mut j: usize = 0;
        let mut same = true;
        while j < nl
            invariant
                hl == h@.len(), nl == n@.len(), i + nl <= hl,
                j <= nl,
                same == (forall|m: int| 0 <= m < j ==> h@[i + m] == n@[m]),
            decreases nl - j,
        {
            if h.get_char(i + j) != n.get_char(j) {
                same = false;
            }
            j = j + 1;
        }
        if same {
            assert(h@.subrange(i as int, i + nl) =~= n@);
            return true;
        }
        assert(h@.subrange(i as int, i + nl) != n@) by {
            let m = choose|m: int| 0 <= m < nl && h@[i + m] != n@[m];
            assert(h@.subrange(i as int, i + nl)[m] == h@[i + m]);
        }
        i = i + 1;
    }
    false
}

/// The cursor for a hovered scene button, from its lowercased name: left,
/// right or back arrows for door names that point that way, else a pointing
/// finger
pub open spec fn button_cursor_of(lower_name: Seq<char>) -> CursorType {
    if has_sub(lower_name, "links"@) || has_sub(lower_name, "left"@)
        || has_sub(lower_name, "tür → werkstatt"@) || has_sub(lower_name, "← "@) {
        CursorType::Left
    } else if has_sub(lower_name, "rechts"@) || has_sub(lower_name, "right"@)
        || has_sub(lower_name, "→ werkstatt"@) || has_sub(lower_name, " →"@) {
        CursorType::Right
    } else if has_sub(lower_name, "zurück"@) || has_sub(lower_name, "back"@) {
        CursorType::Back
    } else {
        CursorType::Click
    }
}

/// The cursor for a button whose name is already lowercased: arrows left or
/// right by the words and arrows in it, back for "zurück"/"back", else a click
pub fn cursor_for_lower_name(lower_name: &str) -> (r: CursorType)
    ensures
        r == button_cursor_of(lower_name@),
{
    let s = lower_name;
    if str_contains(s, "links") || str_contains(s, "left") || str_contains(s, "tür → werkstatt") || str_contains(s, "← ") {
        CursorType::Left
    } else if str_contains(s, "rechts") || str_contains(s, "right") || str_contains(s, "→ werkstatt") || str_contains(s, " →") {
        CursorType::Right
    } else if str_contains(s, "zurück") || str_contains(s, "back") {
        CursorType::Back
    } else {
        CursorType::Click
    }
}

/// The cursor for a hovered scene button: its name lowercased, then as
/// `cursor_for_lower_name`
pub fn button_cursor(name: &str) -> (r: CursorType)
    ensures
        r == button_cursor_of(lowercase(name@)),
{
    let l = to_lower(name);
    cursor_for_lower_name(l.as_str())
}

/// The junk piles go round: from each of the six piles, turning right and
/// back left (or left and back right) returns to it, and every turn stays
/// among the six.
pub proof fn law_piles_go_round(p: u8)
    requires
        1 <= p <= 6,
    ensures
        1 <= pile_after(p) <= 6,
        1 <= pile_before(p) <= 6,
        pile_before(pile_after(p)) == p,
        pile_after(pile_before(p)) == p,
{
}

// ---------------------------------------------------------------------------
// Handling a finished drag
// ---------------------------------------------------------------------------

/// What the game does with the outcome of a drag
#[derive(Debug, Clone, PartialEq, Eq)]
pub enum DropPlan {
    /// In the garage: attach `attach_id` (the morph variant the drop chose,
    /// else the dragged part). When the car takes it, the dragged item
    /// `dragged_id` leaves the scene, the quest cache flag `flag` is set and
    /// `sound` is played.
    Attach { attach_id: u32, dragged_id: u32, flag: String, sound: &'static str },
    /// Move the part to the storage behind a door or an arrow
    Store { part_id: u32, target: String },
    /// Play the part's description (a part put down in the garage)
    Describe { dialog: String },
    /// Play the sound of the part landing on the floor
    Floor { sound: &'static str },
    /// Nothing to do
    Nothing,
}

/// The weight of a part in a parts table; 1 for an unknown part
pub open spec fn weight_in(m: Map<u32, PartData>, part_id: u32) -> i32 {
    if m.contains_key(part_id) { m[part_id].properties.weight } else { 1 }
}

/// The quest cache flag set when a part is attached: "#Part" and its id
pub open spec fn part_flag_of(part_id: u32) -> Seq<char> {
    "#Part"@ + decimal(part_id as nat)
}

/// The part's description dialog, if the table has one that is not empty
pub open spec fn description_in(m: Map<u32, PartData>, part_id: u32) -> Option<Seq<char>> {
    if m.contains_key(part_id) && m[part_id].description@.len() > 0 {
        Some(m[part_id].description@)
    } else {
        None
    }
}

/// The quest cache flag for an attached part
pub fn part_flag(part_id: u32) -> (r: String)
    ensures
        r@ == part_flag_of(part_id),
{
    let mut s = owned("#Part");
    push_decimal(&mut s, part_id);
    proof {
        reveal_strlit("#Part");
    }
    s
}

/// The plan for the outcome of a drag in a scene. A part attached at a
/// point is attached to the car in the garage only; a part dropped on a
/// door or arrow moves to that storage; a part put down in the garage plays
/// its description when it has one, and otherwise (or in another scene) the
/// floor sound of its weight.
pub fn drop_plan(scene: Scene, result: &DropResult, db: &PartsDB) -> (p: DropPlan)
    ensures
        match result@ {
            DropResultV::Attached { part_id, morph_id, .. } => {
                let a = match morph_id { Some(m) => m, None => part_id };
                if scene == Scene::Garage {
                    p matches DropPlan::Attach { attach_id, dragged_id, flag, sound }
                        && attach_id == a && dragged_id == part_id
                        && flag@ == part_flag_of(a)
                        && sound@ == attach_sound_of(weight_in(db.part_map(), a))
                } else {
                    p is Nothing
                }
            },
            DropResultV::DroppedOnTarget { part_id, target_id } =>
                p matches DropPlan::Store { part_id: q, target } && q == part_id && target@ == target_id,
            DropResultV::Dropped { part_id } => {
                match (if scene == Scene::Garage { description_in(db.part_map(), part_id) } else { None }) {
                    Some(d) => p matches DropPlan::Describe { dialog } && dialog@ == d,
                    None => p matches DropPlan::Floor { sound } && sound@ == floor_sound_of(weight_in(db.part_map(), part_id)),
                }
            },
            DropResultV::Nothing => p is Nothing,
        },
{
    match result {
        DropResult::Attached { part_id, morph_id, .. } => {
            if scene == Scene::Garage {
                let a = match morph_id { Some(m) => *m, None => *part_id };
                let w = part_weight(db, a);
                DropPlan::Attach { attach_id: a, dragged_id: *part_id, flag: part_flag(a), sound: attach_sound(w) }
            } else {
                DropPlan::Nothing
            }
        },
        DropResult::DroppedOnTarget { part_id, target_id } => {
            DropPlan::Store { part_id: *part_id, target: target_id.clone() }
        },
        DropResult::Dropped { part_id } => {
            if scene == Scene::Garage {
                if let Some(pd) = db.get(*part_id) {
                    if pd.description.unicode_len() > 0 {
                        return DropPlan::Describe { dialog: pd.description.clone() };
                    }
                }
            }
            DropPlan::Floor { sound: floor_sound(part_weight(db, *part_id)) }
        },
        DropResult::Nothing => DropPlan::Nothing,
    }
}

} // verus!
