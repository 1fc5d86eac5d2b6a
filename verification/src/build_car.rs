//! The car being built in the garage: placed parts, the attachment points
//! they provide and occupy, their sprites, and the car's properties.
//!
//! Every change (attach, detach) is followed by a full refresh that rebuilds
//! the points from the placed parts in order: first every part provides its
//! points, then every part occupies the points it requires.

use vstd::prelude::*;
use crate::parts_db::{
    AttachmentPoint, CarProperties, PartData, PartsDB, car_props_of, props_fit, road_legal,
    default_car_ids, zero_car_props,
};
use crate::sprite::{Bitmap, BitmapStore, Sprite, SpriteV, car_sprite_name, car_sprite_name_of};
use vstd::string::StringExecFns;
use crate::text::{owned, push_char, str_eq};

verus! {

// ---------------------------------------------------------------------------
// Types
// ---------------------------------------------------------------------------

/// A live attachment point on the car
pub struct LivePoint {
    /// Attachment point ID (e.g. "#a1")
    pub id: String,
    /// Sort index for foreground layering
    pub fg: i32,
    /// Sort index for background layering
    pub bg: i32,
    /// Pixel offset relative to the car origin
    pub offset: (i32, i32),
    /// Which part occupies this point (None = free)
    pub occupied_by: Option<u32>,
}

/// Abstract attachment point (its id is the key it is found under)
pub struct PointV {
    pub fg: i32,
    pub bg: i32,
    pub offset: (i32, i32),
    pub occupied_by: Option<u32>,
}

/// A rendered part on the car
pub struct PlacedPartSprite {
    pub part_id: u32,
    /// Foreground sprite (UseView)
    pub fg_sprite: Option<Sprite>,
    /// Background sprite (UseView2)
    pub bg_sprite: Option<Sprite>,
    /// The part's primary attachment point (first required point)
    pub layer: String,
}

/// Events that occur during car modifications
pub enum CarEvent {
    /// Part was attached
    Attached { part_id: u32 },
    /// Part was detached: the part to put back (its master for a morph
    /// variant) and where it was on screen
    Detached { part_id: u32, master_id: u32, world_x: i32, world_y: i32 },
}

/// The car being built in the garage
pub struct BuildCar {
    /// Screen position of the car (group origin)
    pub x: i32,
    pub y: i32,
    /// Placed part IDs, in placing order
    pub parts: Vec<u32>,
    /// Live attachment points, one per id (rebuilt on refresh)
    pub points: Vec<LivePoint>,
    /// Which part uses each required point (a later entry of an id wins)
    pub used_points: Vec<(String, u32)>,
    /// Whether the car is locked (no modifications allowed)
    pub locked: bool,
    /// Rendered parts (rebuilt on refresh)
    pub part_sprites: Vec<PlacedPartSprite>,
    /// Car properties (rebuilt on refresh)
    pub properties: CarProperties,
}

// ---------------------------------------------------------------------------
// Point maps
// ---------------------------------------------------------------------------

pub open spec fn point_v(p: LivePoint) -> PointV {
    PointV { fg: p.fg, bg: p.bg, offset: p.offset, occupied_by: p.occupied_by }
}

/// Points by id; a later entry of an id wins
pub open spec fn points_map(s: Seq<LivePoint>) -> Map<Seq<char>, PointV>
    decreases s.len(),
{
    if s.len() == 0 {
        Map::empty()
    } else {
        points_map(s.drop_last()).insert(s.last().id@, point_v(s.last()))
    }
}

/// Used points by id; a later entry of an id wins
pub open spec fn used_map(s: Seq<(String, u32)>) -> Map<Seq<char>, u32>
    decreases s.len(),
{
    if s.len() == 0 {
        Map::empty()
    } else {
        used_map(s.drop_last()).insert(s.last().0@, s.last().1)
    }
}

/// No id occurs twice
pub open spec fn point_ids_distinct(s: Seq<LivePoint>) -> bool {
    forall|i: int, j: int| 0 <= i < s.len() && 0 <= j < s.len() && i != j ==> #[trigger] s[i].id@ != #[trigger] s[j].id@
}

/// A free point as an attachment point provides it
pub open spec fn provided_point(ap: AttachmentPoint) -> PointV {
    PointV { fg: ap.sort_index.0, bg: ap.sort_index.1, offset: ap.offset, occupied_by: None }
}

/// `m` with the points of `aps` added in order
pub open spec fn provide_points(m: Map<Seq<char>, PointV>, aps: Seq<AttachmentPoint>) -> Map<Seq<char>, PointV>
    decreases aps.len(),
{
    if aps.len() == 0 {
        m
    } else {
        provide_points(m, aps.drop_last()).insert(aps.last().id@, provided_point(aps.last()))
    }
}

/// The points that the known parts of `parts` provide, in order
pub open spec fn provided_by(db: Map<u32, PartData>, parts: Seq<u32>) -> Map<Seq<char>, PointV>
    decreases parts.len(),
{
    if parts.len() == 0 {
        Map::empty()
    } else if db.contains_key(parts.last()) {
        provide_points(provided_by(db, parts.drop_last()), db[parts.last()].attachment_points@)
    } else {
        provided_by(db, parts.drop_last())
    }
}

/// `m` with each existing point named in `reqs` occupied by `pid`
pub open spec fn occupy_points(m: Map<Seq<char>, PointV>, reqs: Seq<String>, pid: u32) -> Map<Seq<char>, PointV>
    decreases reqs.len(),
{
    if reqs.len() == 0 {
        m
    } else {
        let before = occupy_points(m, reqs.drop_last(), pid);
        let id = reqs.last()@;
        if before.contains_key(id) {
            before.insert(id, PointV { occupied_by: Some(pid), ..before[id] })
        } else {
            before
        }
    }
}

/// `m` with the points required by the known parts of `parts` occupied, in order
pub open spec fn occupied_by_parts(m: Map<Seq<char>, PointV>, db: Map<u32, PartData>, parts: Seq<u32>) -> Map<Seq<char>, PointV>
    decreases parts.len(),
{
    if parts.len() == 0 {
        m
    } else if db.contains_key(parts.last()) {
        occupy_points(occupied_by_parts(m, db, parts.drop_last()), db[parts.last()].requires@, parts.last())
    } else {
        occupied_by_parts(m, db, parts.drop_last())
    }
}

/// `m` with every id of `reqs` mapped to `pid`
pub open spec fn use_points(m: Map<Seq<char>, u32>, reqs: Seq<String>, pid: u32) -> Map<Seq<char>, u32>
    decreases reqs.len(),
{
    if reqs.len() == 0 {
        m
    } else {
        use_points(m, reqs.drop_last(), pid).insert(reqs.last()@, pid)
    }
}

/// Which part uses each point required by the known parts of `parts`
pub open spec fn used_by(db: Map<u32, PartData>, parts: Seq<u32>) -> Map<Seq<char>, u32>
    decreases parts.len(),
{
    if parts.len() == 0 {
        Map::empty()
    } else if db.contains_key(parts.last()) {
        use_points(used_by(db, parts.drop_last()), db[parts.last()].requires@, parts.last())
    } else {
        used_by(db, parts.drop_last())
    }
}

/// The live points of a car with the given parts
pub open spec fn live_points(db: Map<u32, PartData>, parts: Seq<u32>) -> Map<Seq<char>, PointV> {
    occupied_by_parts(provided_by(db, parts), db, parts)
}

/// Can a part with these required points attach to a car with these points?
pub open spec fn can_attach(points: Map<Seq<char>, PointV>, reqs: Seq<String>) -> bool {
    forall|k: int| 0 <= k < reqs.len() ==> {
        &&& #[trigger] points.contains_key(reqs[k]@)
        &&& points[reqs[k]@].occupied_by is None
    }
}

/// Index of the last point with the given id
pub open spec fn last_point(s: Seq<LivePoint>, id: Seq<char>) -> Option<int>
    decreases s.len(),
{
    if s.len() == 0 {
        None
    } else if s.last().id@ == id {
        Some(s.len() - 1)
    } else {
        last_point(s.drop_last(), id)
    }
}

proof fn lemma_last_point(s: Seq<LivePoint>, id: Seq<char>)
    ensures
        match last_point(s, id) {
            Some(k) => 0 <= k < s.len() && s[k].id@ == id && points_map(s).contains_key(id)
                && points_map(s)[id] == point_v(s[k])
                && forall|j: int| k < j < s.len() ==> #[trigger] s[j].id@ != id,
            None => !points_map(s).contains_key(id) && forall|j: int| 0 <= j < s.len() ==> #[trigger] s[j].id@ != id,
        },
    decreases s.len(),
{
    if s.len() > 0 {
        lemma_last_point(s.drop_last(), id);
        if s.last().id@ != id {
            assert forall|j: int| 0 <= j < s.len() - 1 implies #[trigger] s[j] == s.drop_last()[j] by {}
            if let Some(k) = last_point(s.drop_last(), id) {
                assert(s[k] == s.drop_last()[k]);
                assert forall|j: int| k < j < s.len() implies #[trigger] s[j].id@ != id by {
                    if j < s.len() - 1 {
                        assert(s[j] == s.drop_last()[j]);
                    }
                }
            }
        }
    }
}

proof fn lemma_points_map_update(s: Seq<LivePoint>, k: int, p: LivePoint)
    requires
        0 <= k < s.len(),
        s[k].id@ == p.id@,
        forall|j: int| k < j < s.len() ==> #[trigger] s[j].id@ != p.id@,
    ensures
        points_map(s.update(k, p)) == points_map(s).insert(p.id@, point_v(p)),
    decreases s.len(),
{
    let t = s.update(k, p);
    if k == s.len() - 1 {
        assert(t.drop_last() =~= s.drop_last());
        assert(points_map(s).insert(p.id@, point_v(p)) =~= points_map(s.drop_last()).insert(p.id@, point_v(p)));
    } else {
        assert(t.drop_last() =~= s.drop_last().update(k, p));
        assert forall|j: int| k < j < s.drop_last().len() implies #[trigger] s.drop_last()[j].id@ != p.id@ by {
            assert(s.drop_last()[j] == s[j]);
        }
        lemma_points_map_update(s.drop_last(), k, p);
        assert(s.last().id@ != p.id@);
        assert(points_map(t) =~= points_map(s).insert(p.id@, point_v(p)));
    }
}

/// Position of the last point with the given id
fn find_point(points: &Vec<LivePoint>, id: &str) -> (r: Option<usize>)
    ensures
        match r {
            Some(k) => last_point(points@, id@) == Some(k as int),
            None => last_point(points@, id@) is None,
        },
{
    let mut i: usize = points.len();
    assert(points@.take(i as int) =~= points@);
    while i > 0
        invariant
            i <= points@.len(),
            last_point(points@, id@) == last_point(points@.take(i as int), id@),
        decreases i,
    {
        let ghost t = points@.take(i as int);
        assert(t.drop_last() =~= points@.take(i - 1));
        if str_eq(points[i - 1].id.as_str(), id) {
            return Some(i - 1);
        }
        i = i - 1;
    }
    None
}

/// Put a point in, replacing one with the same id
fn upsert_point(points: &mut Vec<LivePoint>, p: LivePoint)
    ensures
        points_map(final(points)@) == points_map(old(points)@).insert(p.id@, point_v(p)),
        point_ids_distinct(old(points)@) ==> point_ids_distinct(final(points)@),
{
    proof {
        lemma_last_point(points@, p.id@);
    }
    let ghost o = points@;
    let ghost pid = p.id@;
    let ghost pv = point_v(p);
    match find_point(points, p.id.as_str()) {
        Some(k) => {
            proof {
                lemma_points_map_update(o, k as int, p);
            }
            points.set(k, p);
            assert(points@ == o.update(k as int, p));
        },
        None => {
            points.push(p);
            assert(points@.drop_last() =~= o);
            assert forall|j: int| 0 <= j < points@.len() - 1 implies #[trigger] points@[j] == o[j] by {}
        },
    }
}

/// Mark the point with the given id, if any, as occupied by `pid`
fn occupy_point(points: &mut Vec<LivePoint>, id: &str, pid: u32)
    ensures
        points_map(final(points)@) == (if points_map(old(points)@).contains_key(id@) {
            points_map(old(points)@).insert(id@, PointV { occupied_by: Some(pid), ..points_map(old(points)@)[id@] })
        } else {
            points_map(old(points)@)
        }),
        point_ids_distinct(old(points)@) ==> point_ids_distinct(final(points)@),
{
    proof {
        lemma_last_point(points@, id@);
    }
    let ghost o = points@;
    match find_point(points, id) {
        Some(k) => {
            let old_p = &points[k];
            let p = LivePoint {
                id: old_p.id.clone(),
                fg: old_p.fg,
                bg: old_p.bg,
                offset: old_p.offset,
                occupied_by: Some(pid),
            };
            proof {
                lemma_points_map_update(o, k as int, p);
            }
            points.set(k, p);
            assert(points_map(points@) =~= points_map(o).insert(id@, PointV { occupied_by: Some(pid), ..points_map(o)[id@] }));
        },
        None => {},
    }
}

/// Record that `pid` uses the point `id`
fn use_point(used: &mut Vec<(String, u32)>, id: &str, pid: u32)
    ensures
        used_map(final(used)@) == used_map(old(used)@).insert(id@, pid),
{
    let ghost o = used@;
    used.push((owned(id), pid));
    assert(used@.drop_last() =~= o);
}

// ---------------------------------------------------------------------------
// BuildCar
// ---------------------------------------------------------------------------

/// Free points with their screen positions, in list order
pub open spec fn free_points(s: Seq<LivePoint>, x: i32, y: i32) -> Seq<(Seq<char>, int, int)>
    decreases s.len(),
{
    if s.len() == 0 {
        Seq::empty()
    } else if s.last().occupied_by is None {
        free_points(s.drop_last(), x, y).push((s.last().id@, x + s.last().offset.0, y + s.last().offset.1))
    } else {
        free_points(s.drop_last(), x, y)
    }
}

/// Every point's screen position fits in 32 bits
pub open spec fn point_positions_fit(s: Seq<LivePoint>, x: i32, y: i32) -> bool {
    forall|k: int| 0 <= k < s.len() ==> {
        &&& i32::MIN <= x + #[trigger] s[k].offset.0 <= i32::MAX
        &&& i32::MIN <= y + s[k].offset.1 <= i32::MAX
    }
}

impl BuildCar {
    /// The car's aggregated properties (as of the last refresh)
    pub open spec fn car_properties(&self) -> CarProperties {
        self.properties
    }

    /// A new car with the default parts (chassis, battery, gearbox, brake) at
    /// the given position; no points, sprites or properties until a refresh
    pub fn new(x: i32, y: i32) -> (r: Self)
        ensures
            r.x == x,
            r.y == y,
            r.parts@ == default_car_ids(),
            r.points@.len() == 0,
            r.used_points@.len() == 0,
            r.part_sprites@.len() == 0,
            !r.locked,
            r.car_properties() == zero_car_props(),
    {
        BuildCar {
            x,
            y,
            parts: vstd::slice::slice_to_vec(PartsDB::default_car_parts()),
            points: Vec::new(),
            used_points: Vec::new(),
            locked: false,
            part_sprites: Vec::new(),
            properties: CarProperties::default(),
        }
    }

    /// Rebuild all attachment points from the placed parts: every known part
    /// provides its points, then every known part occupies the points it
    /// requires
    pub fn rebuild_points(&mut self, parts_db: &PartsDB)
        ensures
            points_map(final(self).points@) == live_points(parts_db.part_map(), old(self).parts@),
            point_ids_distinct(final(self).points@),
            used_map(final(self).used_points@) == used_by(parts_db.part_map(), old(self).parts@),
            final(self).parts == old(self).parts,
            final(self).x == old(self).x,
            final(self).y == old(self).y,
            final(self).locked == old(self).locked,
            final(self).car_properties() == old(self).car_properties(),
    {
        let ghost db = parts_db.part_map();
        let ghost parts = self.parts@;
        let mut pts: Vec<LivePoint> = Vec::new();
        let mut i: usize = 0;
        while i < self.parts.len()
            invariant
                db == parts_db.part_map(),
                parts == self.parts@,
                i <= parts.len(),
                points_map(pts@) == provided_by(db, parts.take(i as int)),
                point_ids_distinct(pts@),
            decreases parts.len() - i,
        {
            let pid = self.parts[i];
            let ghost before = points_map(pts@);
            assert(parts.take(i + 1).drop_last() =~= parts.take(i as int));
            assert(parts.take(i + 1).last() == pid);
            match parts_db.get(pid) {
                Some(part) => {
                    let mut j: usize = 0;
                    while j < part.attachment_points.len()
                        invariant
                            j <= part.attachment_points@.len(),
                            points_map(pts@) == provide_points(before, part.attachment_points@.take(j as int)),
                            point_ids_distinct(pts@),
                        decreases part.attachment_points@.len() - j,
                    {
                        let ap = &part.attachment_points[j];
                        let ghost aps = part.attachment_points@.take(j + 1);
                        assert(aps.drop_last() =~= part.attachment_points@.take(j as int));
                        upsert_point(&mut pts, LivePoint {
                            id: ap.id.clone(),
                            fg: ap.sort_index.0,
                            bg: ap.sort_index.1,
                            offset: ap.offset,
                            occupied_by: None,
                        });
                        j = j + 1;
                    }
                    assert(part.attachment_points@.take(part.attachment_points@.len() as int) =~= part.attachment_points@);
                },
                None => {},
            }
            i = i + 1;
        }
        assert(parts.take(parts.len() as int) =~= parts);

        let ghost provided = points_map(pts@);
        let mut used: Vec<(String, u32)> = Vec::new();
        let mut i: usize = 0;
        while i < self.parts.len()
            invariant
                db == parts_db.part_map(),
                parts == self.parts@,
                i <= parts.len(),
                provided == provided_by(db, parts),
                points_map(pts@) == occupied_by_parts(provided, db, parts.take(i as int)),
                point_ids_distinct(pts@),
                used_map(used@) == used_by(db, parts.take(i as int)),
            decreases parts.len() - i,
        {
            let pid = self.parts[i];
            let ghost before = points_map(pts@);
            let ghost used_before = used_map(used@);
            assert(parts.take(i + 1).drop_last() =~= parts.take(i as int));
            assert(parts.take(i + 1).last() == pid);
            match parts_db.get(pid) {
                Some(part) => {
                    let mut j: usize = 0;
                    while j < part.requires.len()
                        invariant
                            j <= part.requires@.len(),
                            points_map(pts@) == occupy_points(before, part.requires@.take(j as int), pid),
                            point_ids_distinct(pts@),
                            used_map(used@) == use_points(used_before, part.requires@.take(j as int), pid),
                        decreases part.requires@.len() - j,
                    {
                        let ghost reqs = part.requires@.take(j + 1);
                        assert(reqs.drop_last() =~= part.requires@.take(j as int));
                        occupy_point(&mut pts, part.requires[j].as_str(), pid);
                        use_point(&mut used, part.requires[j].as_str(), pid);
                        j = j + 1;
                    }
                    assert(part.requires@.take(part.requires@.len() as int) =~= part.requires@);
                },
                None => {},
            }
            i = i + 1;
        }
        assert(parts.take(parts.len() as int) =~= parts);
        self.points = pts;
        self.used_points = used;
    }

    /// Can the part attach: does the car have every point it requires, free?
    pub fn can_attach_part(&self, part: &PartData) -> (r: bool)
        ensures
            r == can_attach(points_map(self.points@), part.requires@),
    {
        let mut k: usize = 0;
        while k < part.requires.len()
            invariant
                k <= part.requires@.len(),
                forall|j: int| 0 <= j < k ==> {
                    &&& #[trigger] points_map(self.points@).contains_key(part.requires@[j]@)
                    &&& points_map(self.points@)[part.requires@[j]@].occupied_by is None
                },
            decreases part.requires@.len() - k,
        {
            proof {
                lemma_last_point(self.points@, part.requires@[k as int]@);
            }
            match find_point(&self.points, part.requires[k].as_str()) {
                Some(idx) => {
                    if self.points[idx].occupied_by.is_some() {
                        return false;
                    }
                },
                None => {
                    return false;
                },
            }
            k = k + 1;
        }
        true
    }

    /// Can a morph variant attach?
    pub fn can_attach_morph(&self, morph_part: &PartData) -> (r: bool)
        ensures
            r == can_attach(points_map(self.points@), morph_part.requires@),
    {
        self.can_attach_part(morph_part)
    }

    /// The aggregated car properties
    pub fn properties(&self) -> (r: &CarProperties)
        ensures
            *r == self.car_properties(),
    {
        &self.properties
    }

    /// Is the car road legal?
    pub fn is_road_legal(&self) -> (r: bool)
        ensures
            r == road_legal(self.car_properties()),
    {
        self.properties.is_road_legal()
    }

    /// Free attachment points with their screen positions (snap targets)
    pub fn free_attachment_points(&self) -> (r: Vec<(&str, i32, i32)>)
        requires
            point_positions_fit(self.points@, self.x, self.y),
        ensures
            r@.len() == free_points(self.points@, self.x, self.y).len(),
            forall|k: int| 0 <= k < r@.len() ==> {
                let f = free_points(self.points@, self.x, self.y)[k];
                &&& (#[trigger] r@[k]).0@ == f.0
                &&& r@[k].1 == f.1
                &&& r@[k].2 == f.2
            },
    {
        let mut out: Vec<(&str, i32, i32)> = Vec::new();
        let mut i: usize = 0;
        while i < self.points.len()
            invariant
                i <= self.points@.len(),
                point_positions_fit(self.points@, self.x, self.y),
                out@.len() == free_points(self.points@.take(i as int), self.x, self.y).len(),
                forall|k: int| 0 <= k < out@.len() ==> {
                    let f = free_points(self.points@.take(i as int), self.x, self.y)[k];
                    &&& (#[trigger] out@[k]).0@ == f.0
                    &&& out@[k].1 == f.1
                    &&& out@[k].2 == f.2
                },
            decreases self.points@.len() - i,
        {
            let p = &self.points[i];
            let ghost t = self.points@.take(i + 1);
            assert(t.drop_last() =~= self.points@.take(i as int));
            assert(t.last() == self.points@[i as int]);
            if p.occupied_by.is_none() {
                out.push((p.id.as_str(), self.x + p.offset.0, self.y + p.offset.1));
            }
            i = i + 1;
        }
        assert(self.points@.take(self.points@.len() as int) =~= self.points@);
        out
    }
}

// ---------------------------------------------------------------------------
// Sprites
// ---------------------------------------------------------------------------

/// Abstract placed part
#[verifier::ext_equal]
pub struct PlacedV {
    pub part_id: u32,
    pub fg: Option<SpriteV>,
    pub bg: Option<SpriteV>,
    pub layer: Seq<char>,
}

pub open spec fn opt_sprite_v(o: Option<Sprite>) -> Option<SpriteV> {
    match o {
        Some(s) => Some(s@),
        None => None,
    }
}

impl View for PlacedPartSprite {
    type V = PlacedV;

    open spec fn view(&self) -> PlacedV {
        PlacedV { part_id: self.part_id, fg: opt_sprite_v(self.fg_sprite), bg: opt_sprite_v(self.bg_sprite), layer: self.layer@ }
    }
}

pub open spec fn placed_view(s: Seq<PlacedPartSprite>) -> Seq<PlacedV> {
    s.map_values(|p: PlacedPartSprite| p@)
}

pub open spec fn sprites_view(s: Seq<Sprite>) -> Seq<SpriteV> {
    s.map_values(|p: Sprite| p@)
}

/// The sprite of a part's member drawn on a car at (x, y): the bitmap placed
/// at the part offset minus its registration point
pub open spec fn part_sprite(store: BitmapStore, member: Seq<char>, offset: (i32, i32), z: i32, part_id: u32, x: i32, y: i32) -> Option<SpriteV> {
    match store.lookup(member) {
        Some(b) => Some(SpriteV {
            x: (x + offset.0 - b.reg_x) as i32,
            y: (y + offset.1 - b.reg_y) as i32,
            width: b.width,
            height: b.height,
            pixels: b.pixels@,
            visible: true,
            z_order: z,
            name: car_sprite_name(member, part_id),
            interactive: true,
            member_num: part_id,
        }),
        None => None,
    }
}

/// The position of such a sprite fits in 32 bits
pub open spec fn part_sprite_fits(store: BitmapStore, member: Seq<char>, offset: (i32, i32), x: i32, y: i32) -> bool {
    match store.lookup(member) {
        Some(b) => {
            &&& i32::MIN <= x + offset.0 <= i32::MAX
            &&& i32::MIN <= x + offset.0 - b.reg_x <= i32::MAX
            &&& i32::MIN <= y + offset.1 <= i32::MAX
            &&& i32::MIN <= y + offset.1 - b.reg_y <= i32::MAX
        },
        None => true,
    }
}

/// A part's layer: its first required point, or "" if it requires none
pub open spec fn layer_of(part: PartData) -> Seq<char> {
    if part.requires@.len() > 0 { part.requires@[0]@ } else { Seq::empty() }
}

/// How a placed part is drawn; parts without a use view (morph parents) and
/// unknown parts are not drawn
pub open spec fn placed_part(db: Map<u32, PartData>, store: BitmapStore, points: Map<Seq<char>, PointV>, x: i32, y: i32, pid: u32) -> Option<PlacedV> {
    if !db.contains_key(pid) || db[pid].use_view@.len() == 0 {
        None
    } else {
        let part = db[pid];
        let layer = layer_of(part);
        let fg_z = if points.contains_key(layer) { points[layer].fg } else { 8 };
        let bg_z = if points.contains_key(layer) { points[layer].bg } else { 7 };
        Some(PlacedV {
            part_id: pid,
            fg: part_sprite(store, part.use_view@, part.offset, fg_z, pid, x, y),
            bg: if part.use_view2@.len() > 0 { part_sprite(store, part.use_view2@, part.offset, bg_z, pid, x, y) } else { None },
            layer,
        })
    }
}

/// How the placed parts are drawn, in part order
pub open spec fn placed_parts(db: Map<u32, PartData>, store: BitmapStore, points: Map<Seq<char>, PointV>, x: i32, y: i32, parts: Seq<u32>) -> Seq<PlacedV>
    decreases parts.len(),
{
    if parts.len() == 0 {
        Seq::empty()
    } else {
        match placed_part(db, store, points, x, y, parts.last()) {
            Some(p) => placed_parts(db, store, points, x, y, parts.drop_last()).push(p),
            None => placed_parts(db, store, points, x, y, parts.drop_last()),
        }
    }
}

/// Every sprite position of the known parts fits in 32 bits
pub open spec fn sprites_fit(db: Map<u32, PartData>, store: BitmapStore, x: i32, y: i32, parts: Seq<u32>) -> bool {
    forall|k: int| 0 <= k < parts.len() && #[trigger] db.contains_key(parts[k]) ==> {
        &&& part_sprite_fits(store, db[parts[k]].use_view@, db[parts[k]].offset, x, y)
        &&& part_sprite_fits(store, db[parts[k]].use_view2@, db[parts[k]].offset, x, y)
    }
}

/// The foreground sprite as listed for drawing: its name gets "@" and the
/// layer when the part has one
pub open spec fn labeled(s: SpriteV, layer: Seq<char>) -> SpriteV {
    if layer.len() > 0 { SpriteV { name: s.name + "@"@ + layer, ..s } } else { s }
}

/// All sprites of the placed parts, each part's background before its
/// foreground
pub open spec fn flat_sprites(placed: Seq<PlacedV>) -> Seq<SpriteV>
    decreases placed.len(),
{
    if placed.len() == 0 {
        Seq::empty()
    } else {
        let p = placed.last();
        let with_bg = match p.bg {
            Some(b) => flat_sprites(placed.drop_last()).push(b),
            None => flat_sprites(placed.drop_last()),
        };
        match p.fg {
            Some(f) => with_bg.push(labeled(f, p.layer)),
            None => with_bg,
        }
    }
}

/// `s` with `e` inserted after every element whose draw order is not above
/// its own (one step of a stable sort by draw order)
pub open spec fn insert_by_z(s: Seq<SpriteV>, e: SpriteV) -> Seq<SpriteV>
    decreases s.len(),
{
    if s.len() == 0 {
        seq![e]
    } else if s.last().z_order <= e.z_order {
        s.push(e)
    } else {
        insert_by_z(s.drop_last(), e).push(s.last())
    }
}

/// Stable sort by draw order
pub open spec fn sort_by_z(s: Seq<SpriteV>) -> Seq<SpriteV>
    decreases s.len(),
{
    if s.len() == 0 {
        s
    } else {
        insert_by_z(sort_by_z(s.drop_last()), s.last())
    }
}

/// Among the placed parts whose foreground is hit, the topmost (the first of
/// them in part order on a tie): (part id, draw order)
pub open spec fn top_hit(placed: Seq<PlacedV>, px: i32, py: i32) -> Option<(u32, i32)>
    decreases placed.len(),
{
    if placed.len() == 0 {
        None
    } else {
        let best = top_hit(placed.drop_last(), px, py);
        let p = placed.last();
        match p.fg {
            Some(f) => if f.visible && f.in_box(px, py) && f.opaque_at(px, py) && (best matches Some(b) ==> f.z_order > b.1) {
                Some((p.part_id, f.z_order))
            } else {
                best
            },
            None => best,
        }
    }
}

proof fn lemma_insert_by_z(s: Seq<SpriteV>, e: SpriteV, j: int)
    requires
        0 <= j <= s.len(),
        forall|k: int| j <= k < s.len() ==> (#[trigger] s[k]).z_order > e.z_order,
        j == 0 || s[j - 1].z_order <= e.z_order,
    ensures
        insert_by_z(s, e) == s.take(j).push(e) + s.skip(j),
    decreases s.len(),
{
    if j == s.len() {
        if s.len() > 0 {
            assert(s.take(j) =~= s);
        } else {
            assert(s.take(j).push(e) =~= seq![e]);
        }
        assert(s.take(j).push(e) + s.skip(j) =~= s.push(e));
    } else {
        let d = s.drop_last();
        assert forall|k: int| j <= k < d.len() implies (#[trigger] d[k]).z_order > e.z_order by {
            assert(d[k] == s[k]);
        }
        if j > 0 {
            assert(d[j - 1] == s[j - 1]);
        }
        lemma_insert_by_z(d, e, j);
        assert(d.take(j) =~= s.take(j));
        assert(d.take(j).push(e) + d.skip(j) + seq![s.last()] =~= s.take(j).push(e) + s.skip(j));
        assert((d.take(j).push(e) + d.skip(j)).push(s.last()) =~= d.take(j).push(e) + d.skip(j) + seq![s.last()]);
    }
}

/// Insert a sprite at its place in a list sorted by draw order, after the
/// sprites with the same order
pub(crate) fn insert_sprite(v: &mut Vec<Sprite>, e: Sprite)
    ensures
        sprites_view(final(v)@) == insert_by_z(sprites_view(old(v)@), e@),
{
    let ghost o = sprites_view(v@);
    let mut j: usize = v.len();
    while j > 0 && v[j - 1].z_order > e.z_order
        invariant
            j <= v@.len(),
            o == sprites_view(v@),
            forall|k: int| j <= k < o.len() ==> (#[trigger] o[k]).z_order > e.z_order,
        decreases j,
    {
        j = j - 1;
    }
    proof {
        lemma_insert_by_z(o, e@, j as int);
    }
    let ghost ev = e@;
    v.insert(j, e);
    assert(sprites_view(v@) =~= o.take(j as int).push(ev) + o.skip(j as int));
}

impl BuildCar {
    /// The drawing of a placed part's member at the car's position
    fn load_part_sprite(&self, member: &str, offset: (i32, i32), sort_index: i32, part_id: u32, assets: &BitmapStore) -> (r: Option<Sprite>)
        requires
            part_sprite_fits(*assets, member@, offset, self.x, self.y),
        ensures
            opt_sprite_v(r) == part_sprite(*assets, member@, offset, sort_index, part_id, self.x, self.y),
    {
        match assets.find_bitmap_by_name(member) {
            Some(bmp) => {
                let s = Sprite {
                    x: self.x + offset.0 - bmp.reg_x,
                    y: self.y + offset.1 - bmp.reg_y,
                    width: bmp.width,
                    height: bmp.height,
                    pixels: bmp.pixels.clone(),
                    visible: true,
                    z_order: sort_index,
                    name: car_sprite_name_of(member, part_id),
                    interactive: true,
                    member_num: part_id,
                };
                assert(s@ =~= part_sprite(*assets, member@, offset, sort_index, part_id, self.x, self.y).unwrap());
                Some(s)
            },
            None => None,
        }
    }

    /// Rebuild the drawing of every placed part
    pub fn rebuild_sprites(&mut self, parts_db: &PartsDB, assets: &BitmapStore)
        requires
            sprites_fit(parts_db.part_map(), *assets, old(self).x, old(self).y, old(self).parts@),
        ensures
            placed_view(final(self).part_sprites@) == placed_parts(parts_db.part_map(), *assets, points_map(old(self).points@), old(self).x, old(self).y, old(self).parts@),
            final(self).parts == old(self).parts,
            final(self).points == old(self).points,
            final(self).used_points == old(self).used_points,
            final(self).x == old(self).x,
            final(self).y == old(self).y,
            final(self).locked == old(self).locked,
            final(self).properties == old(self).properties,
    {
        let ghost db = parts_db.part_map();
        let ghost pm = points_map(self.points@);
        let mut placed: Vec<PlacedPartSprite> = Vec::new();
        let mut i: usize = 0;
        while i < self.parts.len()
            invariant
                db == parts_db.part_map(),
                pm == points_map(self.points@),
                i <= self.parts@.len(),
                sprites_fit(db, *assets, self.x, self.y, self.parts@),
                placed_view(placed@) == placed_parts(db, *assets, pm, self.x, self.y, self.parts@.take(i as int)),
            decreases self.parts@.len() - i,
        {
            let pid = self.parts[i];
            let ghost before = placed_view(placed@);
            let ghost t = self.parts@.take(i + 1);
            assert(t.drop_last() =~= self.parts@.take(i as int));
            assert(t.last() == pid);
            match parts_db.get(pid) {
                Some(part) => {
                    assert(db.contains_key(self.parts@[i as int]));
                    if part.use_view.as_str().unicode_len() > 0 {
                        let layer = if part.requires.len() > 0 { part.requires[0].clone() } else { String::new() };
                        proof {
                            lemma_last_point(self.points@, layer@);
                        }
                        let (sort_fg, sort_bg) = match find_point(&self.points, layer.as_str()) {
                            Some(k) => (self.points[k].fg, self.points[k].bg),
                            None => (8, 7),
                        };
                        let fg_sprite = self.load_part_sprite(part.use_view.as_str(), part.offset, sort_fg, pid, assets);
                        let bg_sprite = if part.use_view2.as_str().unicode_len() > 0 {
                            self.load_part_sprite(part.use_view2.as_str(), part.offset, sort_bg, pid, assets)
                        } else {
                            None
                        };
                        let pp = PlacedPartSprite { part_id: pid, fg_sprite, bg_sprite, layer };
                        assert(pp@ =~= placed_part(db, *assets, pm, self.x, self.y, pid).unwrap());
                        placed.push(pp);
                        assert(placed_view(placed@) =~= before.push(pp@));
                    }
                },
                None => {},
            }
            i = i + 1;
        }
        assert(self.parts@.take(self.parts@.len() as int) =~= self.parts@);
        self.part_sprites = placed;
    }
}

// ---------------------------------------------------------------------------
// Changes
// ---------------------------------------------------------------------------

/// Position of the first occurrence of `v`
pub open spec fn first_index(s: Seq<u32>, v: u32) -> Option<int>
    decreases s.len(),
{
    if s.len() == 0 {
        None
    } else {
        match first_index(s.drop_last(), v) {
            Some(i) => Some(i),
            None => if s.last() == v { Some(s.len() - 1) } else { None },
        }
    }
}

proof fn lemma_first_index(s: Seq<u32>, v: u32)
    ensures
        match first_index(s, v) {
            Some(i) => 0 <= i < s.len() && s[i] == v && forall|j: int| 0 <= j < i ==> #[trigger] s[j] != v,
            None => !s.contains(v),
        },
    decreases s.len(),
{
    if s.len() > 0 {
        lemma_first_index(s.drop_last(), v);
        assert forall|j: int| 0 <= j < s.len() - 1 implies #[trigger] s[j] == s.drop_last()[j] by {}
        if first_index(s, v) is None {
            assert forall|j: int| 0 <= j < s.len() implies s[j] != v by {
                if j < s.len() - 1 {
                    assert(!s.drop_last().contains(v));
                    assert(s.drop_last()[j] != v);
                }
            }
        }
    }
}

/// The part to put back when `part_id` leaves the car: a morph variant goes
/// back to its master
pub open spec fn master_of(db: Map<u32, PartData>, part_id: u32) -> u32 {
    if db.contains_key(part_id) && db[part_id].master != 0 { db[part_id].master } else { part_id }
}

/// Where a placed part is on screen
pub open spec fn world_position(db: Map<u32, PartData>, part_id: u32, x: i32, y: i32) -> (int, int) {
    if db.contains_key(part_id) {
        (x + db[part_id].offset.0, y + db[part_id].offset.1)
    } else {
        (x as int, y as int)
    }
}

impl BuildCar {
    /// Points, sprites and properties all match the placed parts
    pub open spec fn is_refreshed(&self, db: Map<u32, PartData>, assets: BitmapStore) -> bool {
        &&& points_map(self.points@) == live_points(db, self.parts@)
        &&& point_ids_distinct(self.points@)
        &&& used_map(self.used_points@) == used_by(db, self.parts@)
        &&& placed_view(self.part_sprites@) == placed_parts(db, assets, live_points(db, self.parts@), self.x, self.y, self.parts@)
        &&& self.properties == car_props_of(db, self.parts@)
    }

    /// Full rebuild of attachment points, sprites and properties
    pub fn refresh(&mut self, parts_db: &PartsDB, assets: &BitmapStore)
        requires
            sprites_fit(parts_db.part_map(), *assets, old(self).x, old(self).y, old(self).parts@),
            props_fit(parts_db.part_map(), old(self).parts@),
        ensures
            final(self).is_refreshed(parts_db.part_map(), *assets),
            final(self).parts == old(self).parts,
            final(self).x == old(self).x,
            final(self).y == old(self).y,
            final(self).locked == old(self).locked,
    {
        self.rebuild_points(parts_db);
        self.rebuild_sprites(parts_db, assets);
        self.properties = parts_db.compute_car_properties(self.parts.as_slice());
    }

    /// Attach a part. Nothing changes, and `None` comes back, when the car is
    /// locked, the part is unknown, or a point it requires is missing or taken.
    pub fn attach(&mut self, part_id: u32, parts_db: &PartsDB, assets: &BitmapStore) -> (r: Option<CarEvent>)
        requires
            ({
                let db = parts_db.part_map();
                let ok = !old(self).locked && db.contains_key(part_id)
                    && can_attach(points_map(old(self).points@), db[part_id].requires@);
                ok ==> sprites_fit(db, *assets, old(self).x, old(self).y, old(self).parts@.push(part_id))
                    && props_fit(db, old(self).parts@.push(part_id))
            }),
        ensures
            ({
                let db = parts_db.part_map();
                let ok = !old(self).locked && db.contains_key(part_id)
                    && can_attach(points_map(old(self).points@), db[part_id].requires@);
                &&& ok ==> {
                    &&& r == Some(CarEvent::Attached { part_id })
                    &&& final(self).parts@ == old(self).parts@.push(part_id)
                    &&& final(self).is_refreshed(db, *assets)
                    &&& final(self).x == old(self).x && final(self).y == old(self).y
                    &&& final(self).locked == old(self).locked
                }
                &&& !ok ==> r is None && *final(self) == *old(self)
            }),
    {
        if self.locked {
            return None;
        }
        let part = match parts_db.get(part_id) {
            Some(p) => p,
            None => return None,
        };
        if !self.can_attach_part(part) {
            return None;
        }
        self.parts.push(part_id);
        self.refresh(parts_db, assets);
        Some(CarEvent::Attached { part_id })
    }

    /// Detach a part (its first occurrence). Nothing changes, and `None`
    /// comes back, when the car is locked or does not carry the part.
    pub fn detach(&mut self, part_id: u32, parts_db: &PartsDB, assets: &BitmapStore) -> (r: Option<CarEvent>)
        requires
            ({
                let db = parts_db.part_map();
                let ok = !old(self).locked && old(self).parts@.contains(part_id);
                let rest = old(self).parts@.remove(first_index(old(self).parts@, part_id).unwrap());
                let pos = world_position(db, part_id, old(self).x, old(self).y);
                ok ==> {
                    &&& i32::MIN <= pos.0 <= i32::MAX
                    &&& i32::MIN <= pos.1 <= i32::MAX
                    &&& sprites_fit(db, *assets, old(self).x, old(self).y, rest)
                    &&& props_fit(db, rest)
                }
            }),
        ensures
            ({
                let db = parts_db.part_map();
                let ok = !old(self).locked && old(self).parts@.contains(part_id);
                let rest = old(self).parts@.remove(first_index(old(self).parts@, part_id).unwrap());
                let pos = world_position(db, part_id, old(self).x, old(self).y);
                &&& ok ==> {
                    &&& r == Some(CarEvent::Detached {
                        part_id,
                        master_id: master_of(db, part_id),
                        world_x: pos.0 as i32,
                        world_y: pos.1 as i32,
                    })
                    &&& final(self).parts@ == rest
                    &&& final(self).is_refreshed(db, *assets)
                    &&& final(self).x == old(self).x && final(self).y == old(self).y
                    &&& final(self).locked == old(self).locked
                }
                &&& !ok ==> r is None && *final(self) == *old(self)
            }),
    {
        proof {
            lemma_first_index(self.parts@, part_id);
        }
        if self.locked {
            return None;
        }
        let mut idx: usize = 0;
        while idx < self.parts.len() && self.parts[idx] != part_id
            invariant
                idx <= self.parts@.len(),
                forall|j: int| 0 <= j < idx ==> self.parts@[j] != part_id,
            decreases self.parts@.len() - idx,
        {
            idx = idx + 1;
        }
        if idx == self.parts.len() {
            return None;
        }
        let (master_id, world_x, world_y) = match parts_db.get(part_id) {
            Some(part) => (
                if part.master != 0 { part.master } else { part_id },
                self.x + part.offset.0,
                self.y + part.offset.1,
            ),
            None => (part_id, self.x, self.y),
        };
        self.parts.remove(idx);
        self.refresh(parts_db, assets);
        Some(CarEvent::Detached { part_id, master_id, world_x, world_y })
    }

    /// All car sprites, each part's background before its foreground,
    /// stably sorted by draw order
    pub fn all_sprites(&self) -> (r: Vec<Sprite>)
        ensures
            sprites_view(r@) == sort_by_z(flat_sprites(placed_view(self.part_sprites@))),
    {
        let ghost placed = placed_view(self.part_sprites@);
        let mut out: Vec<Sprite> = Vec::new();
        let ghost mut flat: Seq<SpriteV> = Seq::empty();
        let mut i: usize = 0;
        while i < self.part_sprites.len()
            invariant
                placed == placed_view(self.part_sprites@),
                i <= self.part_sprites@.len(),
                flat == flat_sprites(placed.take(i as int)),
                sprites_view(out@) == sort_by_z(flat),
            decreases self.part_sprites@.len() - i,
        {
            let ps = &self.part_sprites[i];
            let ghost t = placed.take(i + 1);
            assert(t.drop_last() =~= placed.take(i as int));
            assert(t.last() == ps@);
            if let Some(bg) = &ps.bg_sprite {
                let b = bg.duplicate();
                proof {
                    flat = flat.push(b@);
                }
                insert_sprite(&mut out, b);
                assert(flat.drop_last() =~= flat_sprites(placed.take(i as int)));
                assert(sort_by_z(flat) == insert_by_z(sort_by_z(flat.drop_last()), flat.last()));
            }
            let ghost with_bg = flat;
            if let Some(fg) = &ps.fg_sprite {
                let mut s = fg.duplicate();
                if ps.layer.as_str().unicode_len() > 0 {
                    let mut name = s.name.clone();
                    push_char(&mut name, '@');
                    name.append(ps.layer.as_str());
                    s.name = name;
                    proof {
                        reveal_strlit("@");
                        assert(fg@.name.push('@') + ps.layer@ =~= fg@.name + "@"@ + ps.layer@);
                    }
                }
                assert(s@ =~= labeled(fg@, ps.layer@));
                proof {
                    flat = flat.push(s@);
                }
                insert_sprite(&mut out, s);
                assert(flat.drop_last() =~= with_bg);
                assert(sort_by_z(flat) == insert_by_z(sort_by_z(flat.drop_last()), flat.last()));
            }
            i = i + 1;
        }
        assert(placed.take(placed.len() as int) =~= placed);
        out
    }

    /// The placed part whose foreground is at a screen position (for detach
    /// clicks): the topmost one, the first in part order on a tie
    pub fn part_at(&self, px: i32, py: i32) -> (r: Option<u32>)
        ensures
            r == (match top_hit(placed_view(self.part_sprites@), px, py) {
                Some(b) => Some(b.0),
                None => None,
            }),
    {
        let ghost placed = placed_view(self.part_sprites@);
        let mut best: Option<(u32, i32)> = None;
        let mut i: usize = 0;
        while i < self.part_sprites.len()
            invariant
                placed == placed_view(self.part_sprites@),
                i <= self.part_sprites@.len(),
                best == top_hit(placed.take(i as int), px, py),
            decreases self.part_sprites@.len() - i,
        {
            let ps = &self.part_sprites[i];
            let ghost t = placed.take(i + 1);
            assert(t.drop_last() =~= placed.take(i as int));
            assert(t.last() == ps@);
            if let Some(fg) = &ps.fg_sprite {
                if fg.hit_test(px, py) {
                    let better = match best {
                        Some(b) => fg.z_order > b.1,
                        None => true,
                    };
                    if better {
                        best = Some((ps.part_id, fg.z_order));
                    }
                }
            }
            i = i + 1;
        }
        assert(placed.take(placed.len() as int) =~= placed);
        match best {
            Some(b) => Some(b.0),
            None => None,
        }
    }
}

// ---------------------------------------------------------------------------
// Laws
// ---------------------------------------------------------------------------

/// Detaching a part right after attaching it (when the car did not carry it
/// before) gives back the parts list it had.
pub proof fn law_attach_then_detach(parts: Seq<u32>, part_id: u32)
    requires
        !parts.contains(part_id),
    ensures
        parts.push(part_id).contains(part_id),
        parts.push(part_id).remove(first_index(parts.push(part_id), part_id).unwrap()) == parts,
{
    let s = parts.push(part_id);
    assert(s[parts.len() as int] == part_id);
    lemma_first_index(s, part_id);
    let k = first_index(s, part_id).unwrap();
    if k < parts.len() {
        assert(parts[k] == part_id);
    }
    assert(s.remove(k) =~= parts);
}

/// Occupancy agrees with the recorded use
pub open spec fn occupancy_recorded(m: Map<Seq<char>, PointV>, used: Map<Seq<char>, u32>) -> bool {
    forall|id: Seq<char>| #[trigger] m.contains_key(id) && m[id].occupied_by is Some ==> {
        &&& used.contains_key(id)
        &&& used[id] == m[id].occupied_by.unwrap()
    }
}

proof fn lemma_provide_free(m: Map<Seq<char>, PointV>, aps: Seq<AttachmentPoint>)
    requires
        forall|id: Seq<char>| #[trigger] m.contains_key(id) ==> m[id].occupied_by is None,
    ensures
        forall|id: Seq<char>| #[trigger] provide_points(m, aps).contains_key(id) ==> provide_points(m, aps)[id].occupied_by is None,
    decreases aps.len(),
{
    if aps.len() > 0 {
        lemma_provide_free(m, aps.drop_last());
    }
}

proof fn lemma_provided_free(db: Map<u32, PartData>, parts: Seq<u32>)
    ensures
        forall|id: Seq<char>| #[trigger] provided_by(db, parts).contains_key(id) ==> provided_by(db, parts)[id].occupied_by is None,
    decreases parts.len(),
{
    if parts.len() > 0 {
        lemma_provided_free(db, parts.drop_last());
        if db.contains_key(parts.last()) {
            lemma_provide_free(provided_by(db, parts.drop_last()), db[parts.last()].attachment_points@);
        }
    }
}

proof fn lemma_occupy_recorded(m: Map<Seq<char>, PointV>, used: Map<Seq<char>, u32>, reqs: Seq<String>, pid: u32)
    requires
        occupancy_recorded(m, used),
    ensures
        occupancy_recorded(occupy_points(m, reqs, pid), use_points(used, reqs, pid)),
    decreases reqs.len(),
{
    if reqs.len() > 0 {
        lemma_occupy_recorded(m, used, reqs.drop_last(), pid);
    }
}

proof fn lemma_parts_recorded(m: Map<Seq<char>, PointV>, db: Map<u32, PartData>, parts: Seq<u32>)
    requires
        forall|id: Seq<char>| #[trigger] m.contains_key(id) ==> m[id].occupied_by is None,
    ensures
        occupancy_recorded(occupied_by_parts(m, db, parts), used_by(db, parts)),
    decreases parts.len(),
{
    if parts.len() > 0 {
        lemma_parts_recorded(m, db, parts.drop_last());
        if db.contains_key(parts.last()) {
            lemma_occupy_recorded(occupied_by_parts(m, db, parts.drop_last()), used_by(db, parts.drop_last()),
                db[parts.last()].requires@, parts.last());
        }
    }
}

/// Every occupied point of a car is recorded as used by the part that
/// occupies it.
pub proof fn law_occupied_points_are_used(db: Map<u32, PartData>, parts: Seq<u32>)
    ensures
        occupancy_recorded(live_points(db, parts), used_by(db, parts)),
{
    lemma_provided_free(db, parts);
    lemma_parts_recorded(provided_by(db, parts), db, parts);
}

} // verus!
