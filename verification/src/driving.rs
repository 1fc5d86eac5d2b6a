//! Driving on the world map: the 5×6 grid of map tiles, the objects placed
//! on them, and the integer decisions a car makes while driving (terrain
//! obstacles, object contacts, tile transitions, sprite and engine sound
//! selection). The continuous motion itself (speed, steering angle, fuel
//! level) lives with the caller.

use std::collections::HashMap;
use vstd::prelude::*;
use crate::text::{digit_char, digit_of, push_char};

verus! {

broadcast use vstd::std_specs::hash::group_hash_axioms;

// ---------------------------------------------------------------------------
// Constants
// ---------------------------------------------------------------------------

/// Drive loop runs at 30 FPS (same as game loop)
pub const DRIVE_FPS: u32 = 30;
/// Number of discrete compass directions
pub const NUM_DIRECTIONS: usize = 16;
/// Visible map tile width
pub const MAP_WIDTH: i32 = 640;
/// Visible map tile height
pub const MAP_HEIGHT: i32 = 396;
/// Topology bitmap width (half of visible, with offset)
pub const TOPO_WIDTH: i32 = 316;
/// Topology bitmap height
pub const TOPO_HEIGHT: i32 = 198;
/// Horizontal offset for topology coordinate conversion
pub const MAP_OFFSET_X: i32 = 4;
/// Vertical offset for topology coordinate conversion
pub const MAP_OFFSET_Y: i32 = 2;
/// Terrain value at and above which the ground is a wall
pub const TERRAIN_WALL: u8 = 240;
/// Terrain value of mud
pub const TERRAIN_MUD: u8 = 32;
/// Terrain value of a road full of holes
pub const TERRAIN_HOLES: u8 = 16;
/// Grip at or below which mud stops the car
pub const MUD_GRIP_THRESHOLD: i32 = 8;
/// Durability at or below which holes stop the car
pub const HOLES_DURABILITY_THRESHOLD: i32 = 3;
/// Strength at or below which a big hill stops the car
pub const BIG_HILL_STRENGTH_THRESHOLD: i32 = 3;
/// Strength at or below which a small hill stops the car
pub const SMALL_HILL_STRENGTH_THRESHOLD: i32 = 2;
/// Map edge detection margin
pub const MAP_EDGE_MARGIN: i32 = 3;
/// Number of grid columns
pub const GRID_COLS: usize = 6;
/// Number of grid rows
pub const GRID_ROWS: usize = 5;

// ---------------------------------------------------------------------------
// Map objects and tiles
// ---------------------------------------------------------------------------

/// Hill size classification
#[derive(Debug, Clone, Copy, PartialEq, Eq, Structural)]
pub enum HillType {
    SmallHill,
    BigHill,
}

/// Type of map object
#[derive(Debug, Clone, Copy, PartialEq, Eq, Structural)]
pub enum MapObjectType {
    /// Fixed destination (scene transition)
    Destination,
    /// Random destination (position varies per game)
    RandomDestination,
    /// Custom behavior
    Custom,
    /// Position correction (pushes car onto road)
    Correct,
    /// Stop zone (forces car to stop)
    Stop,
    /// Gas station: refuel interaction
    Gas,
    /// Hill / ramp: needs strength
    Hill(HillType),
    /// Cows on the road
    Cows,
    /// Goats
    Goats,
    /// Ferry (boat transition)
    Ferry,
    /// Racing event
    Racing,
    /// Wooden bridge
    WBridge,
    /// Concrete bridge
    CBridge,
    /// Far-away marker
    FarAway,
    /// Picture overlay
    Picture,
    /// Sound trigger zone
    Sound,
}

/// An object on the world map. Radii are whole pixels.
#[derive(Debug, Clone)]
pub struct MapObject {
    /// Object ID
    pub object_id: u32,
    /// Position on the tile
    pub x: i32,
    pub y: i32,
    /// Object type
    pub obj_type: MapObjectType,
    /// Inner detection radius (collision trigger)
    pub inner_radius: u32,
    /// Outer detection radius (approach trigger)
    pub outer_radius: u32,
    /// Director resource to switch to (for destinations)
    pub dir_resource: Option<String>,
}

/// What a map object is, as plain values
pub struct MapObjectV {
    pub object_id: u32,
    pub x: i32,
    pub y: i32,
    pub obj_type: MapObjectType,
    pub inner_radius: u32,
    pub outer_radius: u32,
    pub dir_resource: Option<Seq<char>>,
}

impl View for MapObject {
    type V = MapObjectV;

    open spec fn view(&self) -> MapObjectV {
        MapObjectV {
            object_id: self.object_id,
            x: self.x,
            y: self.y,
            obj_type: self.obj_type,
            inner_radius: self.inner_radius,
            outer_radius: self.outer_radius,
            dir_resource: match self.dir_resource {
                Some(s) => Some(s@),
                None => None,
            },
        }
    }
}

/// A world map tile
#[derive(Debug, Clone)]
pub struct MapTile {
    /// Map tile ID (1-30)
    pub id: u32,
    /// Background image member name (e.g. "30b001v0")
    pub map_image: String,
    /// Topology bitmap member name (e.g. "30t001v0")
    pub topology: String,
    /// Objects on this tile
    pub objects: Vec<MapObject>,
}

/// The views of a list of map objects
pub open spec fn objects_view(objs: Seq<MapObject>) -> Seq<MapObjectV> {
    objs.map_values(|o: MapObject| o@)
}

/// Three decimal digits of `n`, zero-padded
pub open spec fn pad3(n: nat) -> Seq<char> {
    seq![digit_char(((n / 100) % 10) as int), digit_char(((n / 10) % 10) as int), digit_char((n % 10) as int)]
}

/// Member name of a tile's bitmap: "30", the kind letter, three digits, "v0"
pub open spec fn tile_member_name(kind: char, id: nat) -> Seq<char> {
    seq!['3', '0', kind] + pad3(id) + seq!['v', '0']
}

/// Push three zero-padded decimal digits of `n`
fn push_pad3(s: &mut String, n: u32)
    requires
        n < 1000,
    ensures
        final(s)@ == old(s)@ + pad3(n as nat),
{
    push_char(s, digit_of(n / 100));
    push_char(s, digit_of((n / 10) % 10));
    push_char(s, digit_of(n % 10));
}

/// Build a tile member name such as "30b001v0"
fn tile_member(kind: char, id: u32) -> (r: String)
    requires
        id < 1000,
    ensures
        r@ == tile_member_name(kind, id as nat),
{
    let mut s = String::new();
    push_char(&mut s, '3');
    push_char(&mut s, '0');
    push_char(&mut s, kind);
    push_pad3(&mut s, id);
    push_char(&mut s, 'v');
    push_char(&mut s, '0');
    assert(s@ =~= tile_member_name(kind, id as nat));
    s
}

// ---------------------------------------------------------------------------
// Drive events and decisions
// ---------------------------------------------------------------------------

/// Result of a drive frame update
#[derive(Debug, Clone)]
pub enum DriveEvent {
    /// Nothing special
    Nothing,
    /// Car reached a destination
    ReachedDestination { object_id: u32, dir_resource: String },
    /// Car entered tile edge: need to transition
    TileTransition { delta_col: i32, delta_row: i32 },
    /// Fuel ran out
    FuelEmpty,
    /// Hit terrain obstacle
    TerrainBlocked { reason: &'static str },
    /// Hit a gas station: game should start refueling
    GasStation,
    /// Animals block the road (cows/goats)
    AnimalsBlocking { has_horn: bool },
    /// Hill sound feedback (actual blocking is in terrain)
    HillSound { big: bool },
}

/// A terrain obstacle that stops the car
#[derive(Debug, Clone, Copy, PartialEq, Eq, Structural)]
pub enum TerrainObstacle {
    Wall,
    BigHill,
    SmallHill,
    Mud,
    Holes,
}

impl TerrainObstacle {
    /// The reason word reported with a blocked drive event
    pub open spec fn reason_spec(self) -> Seq<char> {
        match self {
            TerrainObstacle::Wall => "wall"@,
            TerrainObstacle::BigHill => "big_hill"@,
            TerrainObstacle::SmallHill => "small_hill"@,
            TerrainObstacle::Mud => "mud"@,
            TerrainObstacle::Holes => "holes"@,
        }
    }

    /// The reason word reported with a blocked drive event
    pub fn reason(self) -> (r: &'static str)
        ensures
            r@ == self.reason_spec(),
    {
        match self {
            TerrainObstacle::Wall => "wall",
            TerrainObstacle::BigHill => "big_hill",
            TerrainObstacle::SmallHill => "small_hill",
            TerrainObstacle::Mud => "mud",
            TerrainObstacle::Holes => "holes",
        }
    }
}

/// Altitude encoded in a terrain value (its low four bits)
pub open spec fn altitude(terrain: u8) -> int {
    (terrain % 16) as int
}

/// Which obstacle, if any, the terrain value puts in the way of a car with
/// the given strength, grip and durability
pub open spec fn terrain_obstacle_spec(terrain: u8, strength: i32, grip: i32, durability: i32) -> Option<TerrainObstacle> {
    if terrain >= TERRAIN_WALL {
        Some(TerrainObstacle::Wall)
    } else if altitude(terrain) > 2 && strength <= BIG_HILL_STRENGTH_THRESHOLD {
        Some(TerrainObstacle::BigHill)
    } else if altitude(terrain) > 1 && strength <= SMALL_HILL_STRENGTH_THRESHOLD {
        Some(TerrainObstacle::SmallHill)
    } else if terrain == TERRAIN_MUD && grip <= MUD_GRIP_THRESHOLD {
        Some(TerrainObstacle::Mud)
    } else if terrain == TERRAIN_HOLES && durability <= HOLES_DURABILITY_THRESHOLD {
        Some(TerrainObstacle::Holes)
    } else {
        None
    }
}

/// Terrain check of one drive frame: walls always block; hills block weak
/// cars, mud blocks cars without grip, holes block fragile cars
pub fn terrain_obstacle(terrain: u8, strength: i32, grip: i32, durability: i32) -> (r: Option<TerrainObstacle>)
    ensures
        r == terrain_obstacle_spec(terrain, strength, grip, durability),
{
    let alt = terrain % 16;
    if terrain >= TERRAIN_WALL {
        Some(TerrainObstacle::Wall)
    } else if alt > 2 && strength <= BIG_HILL_STRENGTH_THRESHOLD {
        Some(TerrainObstacle::BigHill)
    } else if alt > 1 && strength <= SMALL_HILL_STRENGTH_THRESHOLD {
        Some(TerrainObstacle::SmallHill)
    } else if terrain == TERRAIN_MUD && grip <= MUD_GRIP_THRESHOLD {
        Some(TerrainObstacle::Mud)
    } else if terrain == TERRAIN_HOLES && durability <= HOLES_DURABILITY_THRESHOLD {
        Some(TerrainObstacle::Holes)
    } else {
        None
    }
}

/// Tilt of the car on a terrain value: its altitude, at most 2
pub fn terrain_tilt(terrain: u8) -> (t: i8)
    ensures
        t == (if altitude(terrain) > 2 { 2 } else { altitude(terrain) }),
        0 <= t <= 2,
{
    let alt = terrain % 16;
    if alt > 2 { 2 } else { alt as i8 }
}

/// Topology coordinate of a pixel coordinate: half of the pixel minus the
/// offset (rounded toward zero), clamped to `0..limit`
pub open spec fn topo_coord(p: int, offset: int, limit: int) -> int {
    let q = p - offset;
    let h = if q >= 0 { q / 2 } else { -((-q) / 2) };
    if h < 0 { 0 } else if h > limit - 1 { limit - 1 } else { h }
}

/// Topology cell under a pixel position of the visible map tile
pub fn topo_point(px: i32, py: i32) -> (r: (i32, i32))
    requires
        px >= i32::MIN + MAP_OFFSET_X,
        py >= i32::MIN + MAP_OFFSET_Y,
    ensures
        r.0 == topo_coord(px as int, MAP_OFFSET_X as int, TOPO_WIDTH as int),
        r.1 == topo_coord(py as int, MAP_OFFSET_Y as int, TOPO_HEIGHT as int),
        0 <= r.0 < TOPO_WIDTH,
        0 <= r.1 < TOPO_HEIGHT,
{
    let qx = px - MAP_OFFSET_X;
    let qy = py - MAP_OFFSET_Y;
    let hx: i32 = if qx >= 0 { qx / 2 } else { -((-(qx as i64) / 2) as i32) };
    let hy: i32 = if qy >= 0 { qy / 2 } else { -((-(qy as i64) / 2) as i32) };
    let tx = if hx < 0 { 0 } else if hx > TOPO_WIDTH - 1 { TOPO_WIDTH - 1 } else { hx };
    let ty = if hy < 0 { 0 } else if hy > TOPO_HEIGHT - 1 { TOPO_HEIGHT - 1 } else { hy };
    (tx, ty)
}

/// Compass direction (1-16) from a rounded step count: the step modulo 16,
/// with 0 meaning 16
pub fn compass_direction(step: u8) -> (d: u8)
    ensures
        d == (if step % 16 == 0 { 16 } else { step % 16 }),
        1 <= d <= 16,
{
    let d = step % 16;
    if d == 0 { 16 } else { d }
}

/// Sprite member for a direction and tilt: members 78-157 hold 16
/// directions × 5 tilts
pub open spec fn sprite_member_spec(direction: u8, tilt: i8) -> int {
    let t = tilt + 2;
    78 + ((direction - 1) % 16) * 5 + (if t < 0 { 0 } else if t > 4 { 4 } else { t })
}

/// Sprite member for the car's direction (1-16) and tilt
pub fn sprite_member(direction: u8, tilt: i8) -> (m: u32)
    requires
        direction >= 1,
    ensures
        m == sprite_member_spec(direction, tilt),
        78 <= m <= 157,
{
    let dir_idx = ((direction as u32) - 1) % 16;
    let t: i32 = tilt as i32 + 2;
    let tilt_idx: u32 = if t < 0 { 0 } else if t > 4 { 4 } else { t as u32 };
    78 + dir_idx * 5 + tilt_idx
}

/// Grid position after a tile transition, or `None` at the edge of the world
pub open spec fn tile_step_spec(col: int, row: int, dc: int, dr: int) -> Option<(usize, usize)> {
    let c = col + dc;
    let r = row + dr;
    if c < 0 || c >= GRID_COLS || r < 0 || r >= GRID_ROWS {
        None
    } else {
        Some((c as usize, r as usize))
    }
}

/// New grid position for a tile transition; `None` at the edge of the world,
/// where the car bounces and stays on its tile
pub fn tile_step(col: usize, row: usize, delta_col: i32, delta_row: i32) -> (r: Option<(usize, usize)>)
    requires
        col <= i32::MAX,
        row <= i32::MAX,
        i32::MIN <= col + delta_col <= i32::MAX,
        i32::MIN <= row + delta_row <= i32::MAX,
    ensures
        r == tile_step_spec(col as int, row as int, delta_col as int, delta_row as int),
{
    let c = col as i32 + delta_col;
    let r = row as i32 + delta_row;
    if c < 0 || c >= 6 || r < 0 || r >= 5 {
        None
    } else {
        Some((c as usize, r as usize))
    }
}

/// Where the car enters the new tile after a transition: the opposite edge,
/// one pixel inside the margin, on the axes that changed
pub fn entry_position(delta_col: i32, delta_row: i32) -> (r: (Option<i32>, Option<i32>))
    ensures
        r.0 == (if delta_col < 0 { Some((MAP_WIDTH - MAP_EDGE_MARGIN - 1) as i32) } else if delta_col > 0 { Some((MAP_EDGE_MARGIN + 1) as i32) } else { None::<i32> }),
        r.1 == (if delta_row < 0 { Some((MAP_HEIGHT - MAP_EDGE_MARGIN - 1) as i32) } else if delta_row > 0 { Some((MAP_EDGE_MARGIN + 1) as i32) } else { None::<i32> }),
{
    let x = if delta_col < 0 {
        Some(MAP_WIDTH - MAP_EDGE_MARGIN - 1)
    } else if delta_col > 0 {
        Some(MAP_EDGE_MARGIN + 1)
    } else {
        None
    };
    let y = if delta_row < 0 {
        Some(MAP_HEIGHT - MAP_EDGE_MARGIN - 1)
    } else if delta_row > 0 {
        Some(MAP_EDGE_MARGIN + 1)
    } else {
        None
    };
    (x, y)
}

// ---------------------------------------------------------------------------
// Object contacts
// ---------------------------------------------------------------------------

/// A drive event as plain values
pub enum DriveEventV {
    Nothing,
    ReachedDestination { object_id: u32, dir_resource: Seq<char> },
    TileTransition { delta_col: i32, delta_row: i32 },
    FuelEmpty,
    TerrainBlocked { reason: Seq<char> },
    GasStation,
    AnimalsBlocking { has_horn: bool },
    HillSound { big: bool },
}

impl View for DriveEvent {
    type V = DriveEventV;

    open spec fn view(&self) -> DriveEventV {
        match *self {
            DriveEvent::Nothing => DriveEventV::Nothing,
            DriveEvent::ReachedDestination { object_id, dir_resource } => DriveEventV::ReachedDestination { object_id, dir_resource: dir_resource@ },
            DriveEvent::TileTransition { delta_col, delta_row } => DriveEventV::TileTransition { delta_col, delta_row },
            DriveEvent::FuelEmpty => DriveEventV::FuelEmpty,
            DriveEvent::TerrainBlocked { reason } => DriveEventV::TerrainBlocked { reason: reason@ },
            DriveEvent::GasStation => DriveEventV::GasStation,
            DriveEvent::AnimalsBlocking { has_horn } => DriveEventV::AnimalsBlocking { has_horn },
            DriveEvent::HillSound { big } => DriveEventV::HillSound { big },
        }
    }
}

/// What touching a map object (coming within half its inner radius) does
pub struct Contact {
    /// Event that ends the frame, if any
    pub event: Option<DriveEvent>,
    /// The car's speed drops to zero
    pub halt: bool,
    /// The car is moved onto this position
    pub snap_to: Option<(i32, i32)>,
    /// Refueling starts
    pub start_refuel: bool,
    /// The car steps back two positions in its history
    pub step_back: bool,
}

/// A contact as plain values
pub struct ContactV {
    pub event: Option<DriveEventV>,
    pub halt: bool,
    pub snap_to: Option<(i32, i32)>,
    pub start_refuel: bool,
    pub step_back: bool,
}

impl View for Contact {
    type V = ContactV;

    open spec fn view(&self) -> ContactV {
        ContactV {
            event: match self.event {
                Some(e) => Some(e@),
                None => None,
            },
            halt: self.halt,
            snap_to: self.snap_to,
            start_refuel: self.start_refuel,
            step_back: self.step_back,
        }
    }
}

/// A contact that changes nothing
pub open spec fn no_contact() -> ContactV {
    ContactV { event: None, halt: false, snap_to: None, start_refuel: false, step_back: false }
}

/// What touching object `o` does, for a car that is refueling for
/// `refuel_ticks` more ticks, whose tank is below full when `fuel_below_max`,
/// and which has the given strength and horn
pub open spec fn contact_spec(o: MapObjectV, refuel_ticks: u8, fuel_below_max: bool, strength: i32, horn_type: i32) -> ContactV {
    match o.obj_type {
        MapObjectType::Destination | MapObjectType::RandomDestination => match o.dir_resource {
            Some(res) => ContactV {
                event: Some(DriveEventV::ReachedDestination { object_id: o.object_id, dir_resource: res }),
                halt: true,
                ..no_contact()
            },
            None => no_contact(),
        },
        MapObjectType::Stop => ContactV { halt: true, ..no_contact() },
        MapObjectType::Correct => ContactV { snap_to: Some((o.x, o.y)), ..no_contact() },
        MapObjectType::Gas => if refuel_ticks == 0 && fuel_below_max {
            ContactV { event: Some(DriveEventV::GasStation), halt: true, start_refuel: true, ..no_contact() }
        } else {
            no_contact()
        },
        MapObjectType::Hill(h) => {
            let needed = match h {
                HillType::BigHill => BIG_HILL_STRENGTH_THRESHOLD,
                HillType::SmallHill => SMALL_HILL_STRENGTH_THRESHOLD,
            };
            if strength < needed {
                ContactV { event: Some(DriveEventV::HillSound { big: h == HillType::BigHill }), ..no_contact() }
            } else {
                no_contact()
            }
        },
        MapObjectType::Cows | MapObjectType::Goats => {
            let has_horn = horn_type > 0;
            ContactV {
                event: Some(DriveEventV::AnimalsBlocking { has_horn }),
                halt: !has_horn,
                step_back: !has_horn,
                ..no_contact()
            }
        },
        _ => no_contact(),
    }
}

/// Effect of touching a map object: destinations end the drive, stop zones
/// halt the car, correction points move it onto the road, gas stations start
/// refueling a tank that is not full, hills too steep for the car's strength
/// give a sound cue, animals block a car without horn (it steps back)
pub fn contact(obj: &MapObject, refuel_ticks: u8, fuel_below_max: bool, strength: i32, horn_type: i32) -> (c: Contact)
    ensures
        c@ == contact_spec(obj@, refuel_ticks, fuel_below_max, strength, horn_type),
{
    let none = Contact { event: None, halt: false, snap_to: None, start_refuel: false, step_back: false };
    match obj.obj_type {
        MapObjectType::Destination | MapObjectType::RandomDestination => match &obj.dir_resource {
            Some(res) => Contact {
                event: Some(DriveEvent::ReachedDestination { object_id: obj.object_id, dir_resource: res.clone() }),
                halt: true,
                ..none
            },
            None => none,
        },
        MapObjectType::Stop => Contact { halt: true, ..none },
        MapObjectType::Correct => Contact { snap_to: Some((obj.x, obj.y)), ..none },
        MapObjectType::Gas => if refuel_ticks == 0 && fuel_below_max {
            Contact { event: Some(DriveEvent::GasStation), halt: true, start_refuel: true, ..none }
        } else {
            none
        },
        MapObjectType::Hill(h) => {
            let (needed, big) = match h {
                HillType::BigHill => (BIG_HILL_STRENGTH_THRESHOLD, true),
                HillType::SmallHill => (SMALL_HILL_STRENGTH_THRESHOLD, false),
            };
            if strength < needed {
                Contact { event: Some(DriveEvent::HillSound { big }), ..none }
            } else {
                none
            }
        },
        MapObjectType::Cows | MapObjectType::Goats => {
            let has_horn = horn_type > 0;
            Contact {
                event: Some(DriveEvent::AnimalsBlocking { has_horn }),
                halt: !has_horn,
                step_back: !has_horn,
                ..none
            }
        },
        _ => none,
    }
}

// ---------------------------------------------------------------------------
// Engine sound
// ---------------------------------------------------------------------------

/// First sound number of each engine type (1-9); an engine's seven sounds
/// are startup (base), shutdown (base + 6), idle (base + 1) and four speed
/// levels (base + 2 .. base + 5)
pub open spec fn engine_sound_base(engine_type: int) -> int {
    if engine_type == 1 { 73 } else if engine_type == 2 { 67 } else if engine_type == 3 { 25 }
    else if engine_type == 4 { 4 } else if engine_type == 5 { 11 } else if engine_type == 6 { 53 }
    else if engine_type == 7 { 18 } else if engine_type == 8 { 60 } else { 32 }
}

/// Offset of a sound state (0 startup, 1 shutdown, 2 idle, 3-6 speed levels)
pub open spec fn engine_state_offset(state: int) -> int {
    if state == 0 { 0 } else if state == 1 { 6 } else { state - 1 }
}

/// Audio member of an engine type's sound for a state: "05e", three digits, "v0"
pub open spec fn engine_sound_name(engine_type: int, state: int) -> Seq<char> {
    seq!['0', '5', 'e'] + pad3((engine_sound_base(engine_type) + engine_state_offset(state)) as nat) + seq!['v', '0']
}

/// Sound state of the engine: startup before ignition, idle when the car
/// cannot move, else by speed in percent of the maximum (10/20/40/70 steps)
pub open spec fn engine_state_spec(ignition_done: bool, max_speed_positive: bool, speed_percent: u32) -> u8 {
    if !ignition_done { 0 }
    else if !max_speed_positive { 2 }
    else if speed_percent >= 70 { 6 }
    else if speed_percent >= 40 { 5 }
    else if speed_percent >= 20 { 4 }
    else if speed_percent >= 10 { 3 }
    else { 2 }
}

/// Build the audio member name of an engine sound
fn engine_sound_member(engine_type: i32, state: u8) -> (r: String)
    requires
        1 <= engine_type <= 9,
        state <= 6,
    ensures
        r@ == engine_sound_name(engine_type as int, state as int),
{
    let base: u32 = if engine_type == 1 { 73 } else if engine_type == 2 { 67 } else if engine_type == 3 { 25 }
        else if engine_type == 4 { 4 } else if engine_type == 5 { 11 } else if engine_type == 6 { 53 }
        else if engine_type == 7 { 18 } else if engine_type == 8 { 60 } else { 32 };
    let offset: u32 = if state == 0 { 0 } else if state == 1 { 6 } else { state as u32 - 1 };
    let mut s = String::new();
    push_char(&mut s, '0');
    push_char(&mut s, '5');
    push_char(&mut s, 'e');
    push_pad3(&mut s, base + offset);
    push_char(&mut s, 'v');
    push_char(&mut s, '0');
    assert(s@ =~= engine_sound_name(engine_type as int, state as int));
    s
}

/// Engine sound of one frame: the sound to start, if the state changed.
/// Engine types outside 1-9 have no sounds and change nothing. The first
/// call after ignition plays the startup sound. `speed_percent` is the
/// car's speed in whole percent of its maximum speed.
pub fn engine_sound_step(
    engine_type: i32,
    ignition_done: &mut bool,
    sound_state: &mut Option<u8>,
    max_speed_positive: bool,
    speed_percent: u32,
) -> (r: Option<String>)
    ensures
        (engine_type < 1 || engine_type > 9) ==> r is None && *final(ignition_done) == *old(ignition_done)
            && *final(sound_state) == *old(sound_state),
        (1 <= engine_type <= 9) ==> ({
            let st = engine_state_spec(*old(ignition_done), max_speed_positive, speed_percent);
            &&& *final(ignition_done)
            &&& *old(sound_state) == Some(st) ==> r is None && *final(sound_state) == *old(sound_state)
            &&& *old(sound_state) != Some(st) ==> *final(sound_state) == Some(st) && r is Some
                && r->0@ == engine_sound_name(engine_type as int, st as int)
        }),
{
    if engine_type < 1 || engine_type > 9 {
        return None;
    }
    let state: u8 = if !*ignition_done {
        *ignition_done = true;
        0
    } else if !max_speed_positive {
        2
    } else if speed_percent >= 70 {
        6
    } else if speed_percent >= 40 {
        5
    } else if speed_percent >= 20 {
        4
    } else if speed_percent >= 10 {
        3
    } else {
        2
    };
    if *sound_state == Some(state) {
        return None;
    }
    *sound_state = Some(state);
    Some(engine_sound_member(engine_type, state))
}

// ---------------------------------------------------------------------------
// The world map
// ---------------------------------------------------------------------------

/// A map object as plain values
pub open spec fn obj_v(object_id: u32, x: i32, y: i32, obj_type: MapObjectType, inner_radius: u32, outer_radius: u32) -> MapObjectV {
    MapObjectV { object_id, x, y, obj_type, inner_radius, outer_radius, dir_resource: None }
}

/// A fixed destination leading to a director resource
pub open spec fn dest_v(object_id: u32, x: i32, y: i32, inner_radius: u32, outer_radius: u32, res: Seq<char>) -> MapObjectV {
    MapObjectV { dir_resource: Some(res), ..obj_v(object_id, x, y, MapObjectType::Destination, inner_radius, outer_radius) }
}

/// A random destination leading to a director resource
pub open spec fn rdest_v(object_id: u32, x: i32, y: i32, inner_radius: u32, outer_radius: u32, res: Seq<char>) -> MapObjectV {
    MapObjectV { dir_resource: Some(res), ..obj_v(object_id, x, y, MapObjectType::RandomDestination, inner_radius, outer_radius) }
}

/// A position correction point
pub open spec fn correct_v(x: i32, y: i32, inner_radius: u32) -> MapObjectV {
    obj_v(31, x, y, MapObjectType::Correct, inner_radius, 1)
}

/// A stop zone
pub open spec fn stop_v(x: i32, y: i32) -> MapObjectV {
    obj_v(32, x, y, MapObjectType::Stop, 25, 1)
}

/// A gas station
pub open spec fn gas_v(x: i32, y: i32) -> MapObjectV {
    obj_v(6, x, y, MapObjectType::Gas, 15, 25)
}

/// A small hill
pub open spec fn hill_s_v(x: i32, y: i32) -> MapObjectV {
    obj_v(30, x, y, MapObjectType::Hill(HillType::SmallHill), 25, 30)
}

/// A big hill
pub open spec fn hill_b_v(x: i32, y: i32) -> MapObjectV {
    obj_v(30, x, y, MapObjectType::Hill(HillType::BigHill), 25, 30)
}

/// Cows on the road
pub open spec fn cows_v(x: i32, y: i32) -> MapObjectV {
    obj_v(1, x, y, MapObjectType::Cows, 55, 85)
}

/// Goats on the road
pub open spec fn goats_v(x: i32, y: i32) -> MapObjectV {
    obj_v(25, x, y, MapObjectType::Goats, 55, 85)
}

fn obj(object_id: u32, x: i32, y: i32, obj_type: MapObjectType, inner_radius: u32, outer_radius: u32) -> (o: MapObject)
    ensures
        o@ == obj_v(object_id, x, y, obj_type, inner_radius, outer_radius),
{
    MapObject { object_id, x, y, obj_type, inner_radius, outer_radius, dir_resource: None }
}

fn dest(object_id: u32, x: i32, y: i32, inner_radius: u32, outer_radius: u32, res: &str) -> (o: MapObject)
    ensures
        o@ == dest_v(object_id, x, y, inner_radius, outer_radius, res@),
{
    let r = res.to_string();
    MapObject { object_id, x, y, obj_type: MapObjectType::Destination, inner_radius, outer_radius, dir_resource: Some(r) }
}

fn rdest(object_id: u32, x: i32, y: i32, inner_radius: u32, outer_radius: u32, res: &str) -> (o: MapObject)
    ensures
        o@ == rdest_v(object_id, x, y, inner_radius, outer_radius, res@),
{
    let r = res.to_string();
    MapObject { object_id, x, y, obj_type: MapObjectType::RandomDestination, inner_radius, outer_radius, dir_resource: Some(r) }
}

fn correct(x: i32, y: i32, inner_radius: u32) -> (o: MapObject)
    ensures
        o@ == correct_v(x, y, inner_radius),
{
    obj(31, x, y, MapObjectType::Correct, inner_radius, 1)
}

fn stop(x: i32, y: i32) -> (o: MapObject)
    ensures
        o@ == stop_v(x, y),
{
    obj(32, x, y, MapObjectType::Stop, 25, 1)
}

fn gas(x: i32, y: i32) -> (o: MapObject)
    ensures
        o@ == gas_v(x, y),
{
    obj(6, x, y, MapObjectType::Gas, 15, 25)
}

fn hill_s(x: i32, y: i32) -> (o: MapObject)
    ensures
        o@ == hill_s_v(x, y),
{
    obj(30, x, y, MapObjectType::Hill(HillType::SmallHill), 25, 30)
}

fn hill_b(x: i32, y: i32) -> (o: MapObject)
    ensures
        o@ == hill_b_v(x, y),
{
    obj(30, x, y, MapObjectType::Hill(HillType::BigHill), 25, 30)
}

fn cows(x: i32, y: i32) -> (o: MapObject)
    ensures
        o@ == cows_v(x, y),
{
    obj(1, x, y, MapObjectType::Cows, 55, 85)
}

fn goats(x: i32, y: i32) -> (o: MapObject)
    ensures
        o@ == goats_v(x, y),
{
    obj(25, x, y, MapObjectType::Goats, 55, 85)
}

/// Objects placed on each map tile
pub open spec fn tile_objects_spec(id: u32) -> Seq<MapObjectV> {
    if id == 1 {
        seq![correct_v(146, 392, 50), dest_v(19, 390, 205, 25, 45, "84"@), gas_v(120, 350)]
    } else if id == 2 {
        seq![hill_s_v(540, 210), correct_v(500, 392, 50), rdest_v(10, 120, 175, 15, 25, "82"@), rdest_v(9, 400, 270, 25, 45, "85"@)]
    } else if id == 3 {
        seq![hill_s_v(465, 178), hill_s_v(262, 358), hill_s_v(500, 255), rdest_v(8, 270, 125, 25, 45, "83"@), gas_v(80, 212)]
    } else if id == 4 {
        seq![hill_s_v(540, 200), stop_v(260, 40), gas_v(250, 167), rdest_v(9, 130, 210, 25, 45, "85"@)]
    } else if id == 5 {
        seq![hill_b_v(110, 110), goats_v(350, 50), dest_v(11, 543, 170, 25, 45, "91"@), dest_v(20, 130, 330, 25, 45, "84"@)]
    } else if id == 6 {
        seq![gas_v(110, 65)]
    } else if id == 7 {
        seq![stop_v(220, 233), correct_v(154, 12, 50), cows_v(370, 340)]
    } else if id == 8 {
        seq![correct_v(507, 12, 50), obj_v(26, 469, 107, MapObjectType::WBridge, 15, 25), dest_v(12, 435, 203, 25, 45, "89"@), obj_v(26, 362, 363, MapObjectType::WBridge, 15, 25)]
    } else if id == 9 {
        seq![gas_v(170, 170)]
    } else if id == 10 {
        seq![hill_s_v(290, 370), hill_s_v(470, 280), dest_v(2, 220, 95, 15, 25, "86"@), rdest_v(9, 560, 120, 25, 45, "85"@)]
    } else if id == 11 {
        seq![hill_b_v(225, 200), gas_v(344, 150)]
    } else if id == 12 {
        seq![stop_v(580, 344), correct_v(358, 388, 25), rdest_v(8, 320, 287, 25, 45, "83"@)]
    } else if id == 13 {
        seq![stop_v(260, 30), stop_v(100, 150), rdest_v(8, 275, 310, 25, 45, "83"@)]
    } else if id == 14 {
        seq![gas_v(310, 105), rdest_v(10, 416, 175, 15, 25, "82"@), dest_v(21, 170, 300, 25, 45, "84"@), rdest_v(9, 520, 75, 25, 45, "85"@)]
    } else if id == 15 {
        seq![dest_v(4, 380, 110, 15, 25, "94"@), cows_v(438, 320)]
    } else if id == 16 {
        seq![hill_s_v(300, 20), dest_v(14, 430, 60, 25, 45, "92"@), dest_v(15, 310, 270, 25, 45, "04"@), rdest_v(9, 540, 250, 25, 45, "85"@)]
    } else if id == 17 {
        seq![hill_s_v(250, 55), hill_s_v(125, 200), correct_v(180, 388, 50), rdest_v(10, 290, 260, 15, 25, "82"@), gas_v(425, 203)]
    } else if id == 18 {
        seq![correct_v(242, 390, 25), correct_v(302, 12, 25), goats_v(330, 70), dest_v(16, 440, 140, 25, 45, "93"@), rdest_v(9, 170, 335, 25, 45, "85"@)]
    } else if id == 19 {
        seq![obj_v(28, 350, 140, MapObjectType::FarAway, 25, 45), dest_v(17, 145, 210, 25, 45, "90"@)]
    } else if id == 20 {
        seq![rdest_v(9, 400, 300, 25, 45, "85"@)]
    } else if id == 21 {
        seq![correct_v(85, 390, 25), gas_v(440, 40), dest_v(5, 480, 135, 25, 45, "88"@)]
    } else if id == 22 {
        seq![correct_v(372, 388, 205), obj_v(3, 285, 190, MapObjectType::Ferry, 35, 45), dest_v(22, 460, 320, 25, 45, "84"@)]
    } else if id == 23 {
        seq![hill_s_v(330, 163), hill_s_v(595, 235), correct_v(159, 12, 50), cows_v(410, 205)]
    } else if id == 24 {
        seq![correct_v(250, 12, 25), correct_v(204, 392, 25), gas_v(220, 165)]
    } else if id == 26 {
        seq![dest_v(23, 310, 90, 25, 45, "84"@)]
    } else if id == 27 {
        seq![correct_v(71, 12, 55), gas_v(63, 50), obj_v(27, 360, 200, MapObjectType::CBridge, 20, 45), dest_v(18, 565, 308, 25, 45, "87"@)]
    } else if id == 28 {
        seq![obj_v(33, 468, 20, MapObjectType::Sound, 20, 0), correct_v(468, 15, 205), obj_v(7, 415, 60, MapObjectType::Racing, 25, 45), gas_v(360, 266), obj_v(29, 131, 266, MapObjectType::Picture, 0, 0)]
    } else if id == 30 {
        seq![correct_v(223, 12, 25), stop_v(110, 350), dest_v(24, 240, 160, 25, 45, "84"@)]
    } else {
        seq![]
    }
}

/// Objects placed on a map tile
fn tile_objects(id: u32) -> (r: Vec<MapObject>)
    ensures
        objects_view(r@) == tile_objects_spec(id),
{
    let r = if id == 1 {
        vec![correct(146, 392, 50), dest(19, 390, 205, 25, 45, "84"), gas(120, 350)]
    } else if id == 2 {
        vec![hill_s(540, 210), correct(500, 392, 50), rdest(10, 120, 175, 15, 25, "82"), rdest(9, 400, 270, 25, 45, "85")]
    } else if id == 3 {
        vec![hill_s(465, 178), hill_s(262, 358), hill_s(500, 255), rdest(8, 270, 125, 25, 45, "83"), gas(80, 212)]
    } else if id == 4 {
        vec![hill_s(540, 200), stop(260, 40), gas(250, 167), rdest(9, 130, 210, 25, 45, "85")]
    } else if id == 5 {
        vec![hill_b(110, 110), goats(350, 50), dest(11, 543, 170, 25, 45, "91"), dest(20, 130, 330, 25, 45, "84")]
    } else if id == 6 {
        vec![gas(110, 65)]
    } else if id == 7 {
        vec![stop(220, 233), correct(154, 12, 50), cows(370, 340)]
    } else if id == 8 {
        vec![correct(507, 12, 50), obj(26, 469, 107, MapObjectType::WBridge, 15, 25), dest(12, 435, 203, 25, 45, "89"), obj(26, 362, 363, MapObjectType::WBridge, 15, 25)]
    } else if id == 9 {
        vec![gas(170, 170)]
    } else if id == 10 {
        vec![hill_s(290, 370), hill_s(470, 280), dest(2, 220, 95, 15, 25, "86"), rdest(9, 560, 120, 25, 45, "85")]
    } else if id == 11 {
        vec![hill_b(225, 200), gas(344, 150)]
    } else if id == 12 {
        vec![stop(580, 344), correct(358, 388, 25), rdest(8, 320, 287, 25, 45, "83")]
    } else if id == 13 {
        vec![stop(260, 30), stop(100, 150), rdest(8, 275, 310, 25, 45, "83")]
    } else if id == 14 {
        vec![gas(310, 105), rdest(10, 416, 175, 15, 25, "82"), dest(21, 170, 300, 25, 45, "84"), rdest(9, 520, 75, 25, 45, "85")]
    } else if id == 15 {
        vec![dest(4, 380, 110, 15, 25, "94"), cows(438, 320)]
    } else if id == 16 {
        vec![hill_s(300, 20), dest(14, 430, 60, 25, 45, "92"), dest(15, 310, 270, 25, 45, "04"), rdest(9, 540, 250, 25, 45, "85")]
    } else if id == 17 {
        vec![hill_s(250, 55), hill_s(125, 200), correct(180, 388, 50), rdest(10, 290, 260, 15, 25, "82"), gas(425, 203)]
    } else if id == 18 {
        vec![correct(242, 390, 25), correct(302, 12, 25), goats(330, 70), dest(16, 440, 140, 25, 45, "93"), rdest(9, 170, 335, 25, 45, "85")]
    } else if id == 19 {
        vec![obj(28, 350, 140, MapObjectType::FarAway, 25, 45), dest(17, 145, 210, 25, 45, "90")]
    } else if id == 20 {
        vec![rdest(9, 400, 300, 25, 45, "85")]
    } else if id == 21 {
        vec![correct(85, 390, 25), gas(440, 40), dest(5, 480, 135, 25, 45, "88")]
    } else if id == 22 {
        vec![correct(372, 388, 205), obj(3, 285, 190, MapObjectType::Ferry, 35, 45), dest(22, 460, 320, 25, 45, "84")]
    } else if id == 23 {
        vec![hill_s(330, 163), hill_s(595, 235), correct(159, 12, 50), cows(410, 205)]
    } else if id == 24 {
        vec![correct(250, 12, 25), correct(204, 392, 25), gas(220, 165)]
    } else if id == 26 {
        vec![dest(23, 310, 90, 25, 45, "84")]
    } else if id == 27 {
        vec![correct(71, 12, 55), gas(63, 50), obj(27, 360, 200, MapObjectType::CBridge, 20, 45), dest(18, 565, 308, 25, 45, "87")]
    } else if id == 28 {
        vec![obj(33, 468, 20, MapObjectType::Sound, 20, 0), correct(468, 15, 205), obj(7, 415, 60, MapObjectType::Racing, 25, 45), gas(360, 266), obj(29, 131, 266, MapObjectType::Picture, 0, 0)]
    } else if id == 30 {
        vec![correct(223, 12, 25), stop(110, 350), dest(24, 240, 160, 25, 45, "84")]
    } else {
        Vec::new()
    };
    assert(objects_view(r@) =~= tile_objects_spec(id));
    r
}

/// A tile with its member names and objects
pub open spec fn tile_defined(t: MapTile, id: u32) -> bool {
    &&& t.id == id
    &&& t.map_image@ == tile_member_name('b', id as nat)
    &&& t.topology@ == tile_member_name('t', id as nat)
    &&& objects_view(t.objects@) == tile_objects_spec(id)
}

/// Build the definition of one map tile
fn make_tile(id: u32) -> (t: MapTile)
    requires
        id < 1000,
    ensures
        tile_defined(t, id),
{
    MapTile { id, map_image: tile_member('b', id), topology: tile_member('t', id), objects: tile_objects(id) }
}

/// The IDs of the world's tiles: 1-24, 26, 27, 28 and 30
pub open spec fn is_world_tile(id: u32) -> bool {
    (1 <= id <= 24) || id == 26 || id == 27 || id == 28 || id == 30
}

/// The 5 rows × 6 columns of tile IDs; tiles 26 and 28 appear twice
pub open spec fn world_grid() -> Seq<Seq<u32>> {
    seq![
        seq![1u32, 2, 3, 4, 5, 6],
        seq![7u32, 8, 9, 10, 11, 12],
        seq![13u32, 14, 15, 16, 17, 18],
        seq![19u32, 20, 21, 22, 23, 24],
        seq![26u32, 26, 27, 28, 28, 30],
    ]
}

/// Every cell of the world grid names a world tile
pub proof fn lemma_world_grid_tiles()
    ensures
        world_grid().len() == GRID_ROWS,
        forall|r: int| 0 <= r < GRID_ROWS ==> #[trigger] world_grid()[r].len() == GRID_COLS,
        forall|r: int, c: int| 0 <= r < GRID_ROWS && 0 <= c < GRID_COLS ==> is_world_tile(#[trigger] world_grid()[r][c]),
{
    let g = world_grid();
    assert forall|r: int, c: int| 0 <= r < GRID_ROWS && 0 <= c < GRID_COLS implies is_world_tile(#[trigger] g[r][c]) by {
        if r == 0 {
            assert(g[0] == seq![1u32, 2, 3, 4, 5, 6]);
        } else if r == 1 {
            assert(g[1] == seq![7u32, 8, 9, 10, 11, 12]);
        } else if r == 2 {
            assert(g[2] == seq![13u32, 14, 15, 16, 17, 18]);
        } else if r == 3 {
            assert(g[3] == seq![19u32, 20, 21, 22, 23, 24]);
        } else {
            assert(g[4] == seq![26u32, 26, 27, 28, 28, 30]);
        }
    }
}

/// The start position of the world grid (column 3, row 2) is tile 16, and
/// tile 16 holds the destination that leads home (resource "04")
pub proof fn lemma_start_tile_home()
    ensures
        world_grid()[2][3] == 16,
        exists|i: int| 0 <= i < tile_objects_spec(16).len()
            && (#[trigger] tile_objects_spec(16)[i]).obj_type == MapObjectType::Destination
            && tile_objects_spec(16)[i].dir_resource == Some("04"@),
{
    assert(world_grid()[2] == seq![13u32, 14, 15, 16, 17, 18]);
    assert(tile_objects_spec(16)[2] == dest_v(15, 310, 270, 25, 45, "04"@));
}

/// The world grid (5×6 tiles)
#[derive(Debug)]
pub struct WorldMap {
    /// 5 rows × 6 columns of map tile IDs
    pub grid: Vec<Vec<u32>>,
    /// All map tile definitions
    pub tiles: HashMap<u32, MapTile>,
    /// Starting tile position (grid col, row)
    pub start_tile: (usize, usize),
    /// Starting pixel position within tile
    pub start_pos: (i32, i32),
    /// Starting direction (1-16)
    pub start_direction: u8,
}

impl WorldMap {
    /// The grid as rows of tile IDs
    pub open spec fn grid_view(&self) -> Seq<Seq<u32>> {
        self.grid@.map_values(|r: Vec<u32>| r@)
    }

    /// Every tile ID in the grid has a tile definition
    pub open spec fn resolves_all(&self) -> bool {
        forall|r: int, c: int| 0 <= r < self.grid_view().len() && 0 <= c < self.grid_view()[r].len()
            ==> self.tiles@.contains_key(#[trigger] self.grid_view()[r][c])
    }

    /// Get the tile ID at a grid position
    pub fn tile_at(&self, col: usize, row: usize) -> (r: Option<u32>)
        ensures
            r == (if row < self.grid_view().len() && col < self.grid_view()[row as int].len() {
                Some(self.grid_view()[row as int][col as int])
            } else {
                None::<u32>
            }),
    {
        if row < self.grid.len() && col < self.grid[row].len() {
            Some(self.grid[row][col])
        } else {
            None
        }
    }

    /// Get the definition of a tile
    pub fn get_tile(&self, tile_id: u32) -> (r: Option<&MapTile>)
        ensures
            r == (if self.tiles@.contains_key(tile_id) { Some(&self.tiles@[tile_id]) } else { None::<&MapTile> }),
    {
        self.tiles.get(&tile_id)
    }

    /// Build the complete world map: the 5×6 grid of 28 unique tiles
    /// (IDs 1-24, 26, 27, 28, 30; tiles 26 and 28 appear twice), each with
    /// its objects; start at column 3, row 2 (tile 16), position (300, 250),
    /// direction 16.
    #[verifier::rlimit(60)]
    pub fn default_map() -> (m: WorldMap)
        ensures
            m.grid_view() == world_grid(),
            forall|id: u32| #[trigger] m.tiles@.contains_key(id) <==> is_world_tile(id),
            forall|id: u32| #[trigger] m.tiles@.contains_key(id) ==> tile_defined(m.tiles@[id], id),
            m.resolves_all(),
            m.start_tile == (3usize, 2usize),
            m.start_pos == (300i32, 250i32),
            m.start_direction == 16,
    {
        let mut tiles: HashMap<u32, MapTile> = HashMap::new();
        tiles.insert(1, make_tile(1));
        tiles.insert(2, make_tile(2));
        tiles.insert(3, make_tile(3));
        tiles.insert(4, make_tile(4));
        tiles.insert(5, make_tile(5));
        tiles.insert(6, make_tile(6));
        tiles.insert(7, make_tile(7));
        tiles.insert(8, make_tile(8));
        tiles.insert(9, make_tile(9));
        tiles.insert(10, make_tile(10));
        tiles.insert(11, make_tile(11));
        tiles.insert(12, make_tile(12));
        tiles.insert(13, make_tile(13));
        tiles.insert(14, make_tile(14));
        tiles.insert(15, make_tile(15));
        tiles.insert(16, make_tile(16));
        tiles.insert(17, make_tile(17));
        tiles.insert(18, make_tile(18));
        tiles.insert(19, make_tile(19));
        tiles.insert(20, make_tile(20));
        tiles.insert(21, make_tile(21));
        tiles.insert(22, make_tile(22));
        tiles.insert(23, make_tile(23));
        tiles.insert(24, make_tile(24));
        tiles.insert(26, make_tile(26));
        tiles.insert(27, make_tile(27));
        tiles.insert(28, make_tile(28));
        tiles.insert(30, make_tile(30));
        let grid: Vec<Vec<u32>> = vec![
            vec![1, 2, 3, 4, 5, 6],
            vec![7, 8, 9, 10, 11, 12],
            vec![13, 14, 15, 16, 17, 18],
            vec![19, 20, 21, 22, 23, 24],
            vec![26, 26, 27, 28, 28, 30],
        ];
        let m = WorldMap { grid, tiles, start_tile: (3, 2), start_pos: (300, 250), start_direction: 16 };
        assert(m.grid_view() =~= world_grid());
        proof {
            lemma_world_grid_tiles();
        }
        m
    }
}

// ---------------------------------------------------------------------------
// Refueling and the stop before reversing
// ---------------------------------------------------------------------------

/// Frames of refueling per tenth of a tank
pub const REFUEL_FRAMES: u8 = 10;

/// Frames the car stands still after braking to a stop before it reverses
pub const REVERSE_STOP_FRAMES: u8 = 10;

/// One frame of refueling: while tenths of a tank are still to come
/// (`ticks`), the frame counter counts up; on reaching `REFUEL_FRAMES` it
/// starts again, one tenth is added (the third value) and one fewer is to
/// come. Without refueling nothing changes.
pub fn refuel_step(ticks: u8, frames: u8) -> (r: (u8, u8, bool))
    requires
        frames < u8::MAX,
    ensures
        r == (if ticks == 0 {
            (ticks, frames, false)
        } else if frames + 1 >= REFUEL_FRAMES {
            ((ticks - 1) as u8, 0u8, true)
        } else {
            (ticks, (frames + 1) as u8, false)
        }),
{
    if ticks == 0 {
        return (ticks, frames, false);
    }
    let f = frames + 1;
    if f >= REFUEL_FRAMES {
        (ticks - 1, 0, true)
    } else {
        (ticks, f, false)
    }
}

/// What braking does to the car this frame
#[derive(Debug, Clone, Copy, PartialEq, Eq, Structural)]
pub enum BrakeAction {
    /// Slow down (still moving forward)
    SlowDown,
    /// Stop at zero, and wait before reversing
    Stop,
    /// Stand still, waiting
    Wait,
    /// Speed up backwards
    Reverse,
}

/// Braking: a car moving forward slows down, and stops at zero when the
/// brake would take it past; a standing or reversing car waits out the
/// stop timer, then reverses. Returns the action and the new timer.
pub fn brake_step(moving_forward: bool, passes_zero: bool, stop_timer: u8) -> (r: (BrakeAction, u8))
    ensures
        r == (if moving_forward {
            if passes_zero { (BrakeAction::Stop, REVERSE_STOP_FRAMES) } else { (BrakeAction::SlowDown, stop_timer) }
        } else if stop_timer > 0 {
            (BrakeAction::Wait, (stop_timer - 1) as u8)
        } else {
            (BrakeAction::Reverse, 0u8)
        }),
{
    if moving_forward {
        if passes_zero { (BrakeAction::Stop, REVERSE_STOP_FRAMES) } else { (BrakeAction::SlowDown, stop_timer) }
    } else if stop_timer > 0 {
        (BrakeAction::Wait, stop_timer - 1)
    } else {
        (BrakeAction::Reverse, 0)
    }
}

/// Refueling a tank of n tenths takes ten frames per tenth: starting with
/// the counter at zero, after 10·k frames k tenths have been added.
pub open spec fn refueled_after(ticks: u8, frames: u8, n: nat) -> (u8, u8, nat)
    decreases n,
{
    if n == 0 {
        (ticks, frames, 0)
    } else {
        let prev = refueled_after(ticks, frames, (n - 1) as nat);
        let t = prev.0;
        let f = prev.1;
        if t == 0 {
            prev
        } else if f + 1 >= REFUEL_FRAMES {
            ((t - 1) as u8, 0u8, prev.2 + 1)
        } else {
            (t, (f + 1) as u8, prev.2)
        }
    }
}

/// Within a tenth the counter counts the frames
proof fn lemma_refuel_counting(ticks: u8, b: nat, t: u8, added: nat, j: nat)
    requires
        refueled_after(ticks, 0, b) == (t, 0u8, added),
        t > 0,
        j < REFUEL_FRAMES,
    ensures
        refueled_after(ticks, 0, b + j) == (t, j as u8, added),
    decreases j,
{
    if j > 0 {
        lemma_refuel_counting(ticks, b, t, added, (j - 1) as nat);
        assert(((b + j) - 1) as nat == b + (j - 1) as nat);
    }
}

/// Starting a refuel of `ticks` tenths with the counter at zero, every
/// `REFUEL_FRAMES` frames add one tenth until all are added.
pub proof fn law_refuel_adds_a_tenth_every_ten_frames(ticks: u8, k: nat)
    requires
        k <= ticks,
    ensures
        refueled_after(ticks, 0, 10 * k) == ((ticks - k) as u8, 0u8, k),
    decreases k,
{
    if k > 0 {
        law_refuel_adds_a_tenth_every_ten_frames(ticks, (k - 1) as nat);
        let b: nat = (10 * (k - 1)) as nat;
        lemma_refuel_counting(ticks, b, (ticks - (k - 1)) as u8, (k - 1) as nat, 9);
        assert(10 * k == b + 9 + 1);
        assert(((b + 10) - 1) as nat == b + 9);
    }
}

} // verus!
