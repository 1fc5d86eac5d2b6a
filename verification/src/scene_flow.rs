//! The game's flow between scenes: what a scene switch does, how a drive
//! event is answered, what a toolbox popup button does, which clicks may
//! leave a scene, and what a click in a scene hits.

use vstd::prelude::*;
use crate::driving::{DriveEvent, DriveEventV};
use crate::scene::{CutsceneMember, Scene, cutscene_for, cutscene_v, transition_cutscene};
use crate::scenes::{Hotspot, MulleButton};
use crate::cursor::CursorType;
use crate::game_rules::{button_cursor, button_cursor_of, next_pile, prev_pile};
use crate::text::lowercase;
use crate::text::{parse_u32, parse_u32_spec};
use crate::toolbox::{PopupAction, Toolbox, first_button, icon_fits, menu_button_table};
use crate::game_rules::language_button_hit;
use crate::transition::TRANSITION_FRAMES;

verus! {

// ---------------------------------------------------------------------------
// Scene switch
// ---------------------------------------------------------------------------

/// What leaving a scene saves
#[derive(Debug, Clone, Copy, PartialEq, Eq, Structural)]
pub enum SceneExit {
    /// Leaving the world map: the driving session is saved, the car parked
    SaveDriveSession,
    /// Leaving the garage: car parts, shop floor and quest state are saved
    SaveGarage,
    /// Leaving the junkyard: the current pile and its index are saved
    SaveJunkPile,
    /// Leaving the yard: the yard's parts are saved
    SaveYard,
    /// Nothing to save
    Nothing,
}

/// The scene script that starts with a scene
#[derive(Debug, Clone, Copy, PartialEq, Eq, Structural)]
pub enum ScriptChoice {
    /// The car show script, rated by the car's funny factor
    CarShow,
    /// The script of a destination, if it has one
    Destination(u8),
    /// The menu intro (jingle, ambience, greeting)
    Menu,
    /// No script
    Nothing,
}

/// The steps of a scene switch, in the order the game takes them
#[derive(Debug, Clone, Copy)]
pub struct SwitchPlan {
    /// The target differs from the current scene (else only the scene is
    /// reloaded: no cutscene, no exit, no gate)
    pub changed: bool,
    /// Cutscene to try first; when it can be shown, the switch happens when
    /// it ends
    pub cutscene: Option<CutsceneMember>,
    /// What leaving the current scene saves
    pub exit: SceneExit,
    /// Entering the world map with a car that is not road legal: the road
    /// legality hints play and the game stays where it is
    pub blocked: bool,
    /// Entering the world map: a drive car is set up
    pub start_drive: bool,
    /// Going from the menu to the garage logs in the default profile
    pub login_default: bool,
    /// Leaving a destination saves the quest state
    pub save_quest: bool,
    /// Leaving the yard for anywhere but the garage forgets the quest cache
    pub reset_quest_cache: bool,
    /// Script started with the new scene
    pub script: ScriptChoice,
    /// Medal awarded on entry
    pub medal: Option<u32>,
}

/// What leaving `prev` saves
pub open spec fn exit_of(prev: Scene) -> SceneExit {
    match prev {
        Scene::World => SceneExit::SaveDriveSession,
        Scene::Garage => SceneExit::SaveGarage,
        Scene::Junkyard => SceneExit::SaveJunkPile,
        Scene::Yard => SceneExit::SaveYard,
        _ => SceneExit::Nothing,
    }
}

/// The script that starts with `scene`
pub open spec fn script_of(scene: Scene) -> ScriptChoice {
    match scene {
        Scene::CarShow => ScriptChoice::CarShow,
        Scene::Destination(n) => ScriptChoice::Destination(n),
        Scene::Menu => ScriptChoice::Menu,
        _ => ScriptChoice::Nothing,
    }
}

/// Plan for switching from `prev` to `scene`, while a transition cutscene
/// is (or is not) already playing and with a road-legal car or not
pub fn switch_plan(prev: Scene, scene: Scene, transition_active: bool, road_legal: bool) -> (p: SwitchPlan)
    ensures
        p.changed == (prev != scene),
        cutscene_v(p.cutscene) == (if p.changed && !transition_active { cutscene_for(prev, scene, road_legal) } else { None }),
        p.exit == (if p.changed { exit_of(prev) } else { SceneExit::Nothing }),
        p.blocked == (p.changed && scene == Scene::World && !road_legal),
        p.start_drive == (p.changed && scene == Scene::World && road_legal),
        p.login_default == (p.changed && prev == Scene::Menu && scene == Scene::Garage),
        p.save_quest == (p.changed && !p.blocked && prev is Destination),
        p.reset_quest_cache == (p.changed && !p.blocked && prev == Scene::Yard && scene != Scene::Garage),
        p.script == (if p.blocked { ScriptChoice::Nothing } else { script_of(scene) }),
        p.medal == (if !p.blocked && scene == Scene::CarShow { Some(4u32) } else { None }),
{
    let changed = prev != scene;
    let cutscene = if changed && !transition_active { transition_cutscene(&prev, &scene, road_legal) } else { None };
    let exit = if !changed {
        SceneExit::Nothing
    } else {
        match prev {
            Scene::World => SceneExit::SaveDriveSession,
            Scene::Garage => SceneExit::SaveGarage,
            Scene::Junkyard => SceneExit::SaveJunkPile,
            Scene::Yard => SceneExit::SaveYard,
            _ => SceneExit::Nothing,
        }
    };
    let entering_world = changed && scene == Scene::World;
    let blocked = entering_world && !road_legal;
    let leaving_destination = match prev {
        Scene::Destination(_) => true,
        _ => false,
    };
    let script = if blocked {
        ScriptChoice::Nothing
    } else {
        match scene {
            Scene::CarShow => ScriptChoice::CarShow,
            Scene::Destination(n) => ScriptChoice::Destination(n),
            Scene::Menu => ScriptChoice::Menu,
            _ => ScriptChoice::Nothing,
        }
    };
    SwitchPlan {
        changed,
        cutscene,
        exit,
        blocked,
        start_drive: entering_world && road_legal,
        login_default: changed && prev == Scene::Menu && scene == Scene::Garage,
        save_quest: changed && !blocked && leaving_destination,
        reset_quest_cache: changed && !blocked && prev == Scene::Yard && scene != Scene::Garage,
        script,
        medal: if !blocked && scene == Scene::CarShow { Some(4) } else { None },
    }
}

/// Leaving the garage for the yard needs a road-legal car
pub fn leaving_blocked(current: Scene, next: Scene, road_legal: bool) -> (r: bool)
    ensures
        r == (current == Scene::Garage && next == Scene::Yard && !road_legal),
{
    current == Scene::Garage && next == Scene::Yard && !road_legal
}

// ---------------------------------------------------------------------------
// Drive events
// ---------------------------------------------------------------------------

/// How the game answers a drive event
#[derive(Debug, Clone, Copy)]
pub struct DriveReaction {
    /// Dialog Mulle speaks
    pub dialog: Option<&'static str>,
    /// Sound effect played
    pub sound: Option<&'static str>,
    /// Medal awarded
    pub medal: Option<u32>,
    /// The car's horn is sounded
    pub horn: bool,
    /// The driving session is saved
    pub save_session: bool,
    /// Scene the game switches to
    pub switch_to: Option<Scene>,
}

/// What `str::parse::<u8>` gives: the same digits as for `u32`, with a value
/// that fits in 8 bits
pub open spec fn parse_u8_spec(s: Seq<char>) -> Option<u8> {
    match parse_u32_spec(s) {
        Some(v) => if v <= 255 { Some(v as u8) } else { None },
        None => None,
    }
}

/// `str::parse::<u8>`
pub fn parse_u8(s: &str) -> (r: Option<u8>)
    ensures
        r == parse_u8_spec(s@),
{
    match parse_u32(s) {
        Some(v) => if v <= 255 { Some(v as u8) } else { None },
        None => None,
    }
}

/// The sound, dialog and medal of a drive event, as strings where they are
pub open spec fn drive_reaction_spec(e: DriveEventV) -> (Option<Seq<char>>, Option<Seq<char>>, Option<u32>, bool, bool, Option<Scene>) {
    match e {
        DriveEventV::FuelEmpty => (Some("05d011v0"@), None, None, false, false, None),
        DriveEventV::ReachedDestination { object_id, dir_resource } => (None, None, None, false, true,
            match parse_u8_spec(dir_resource) {
                Some(n) => Some(Scene::Destination(n)),
                None => None,
            }),
        DriveEventV::GasStation => (None, Some("31e006v0"@), None, false, false, None),
        DriveEventV::AnimalsBlocking { has_horn } => (None, None, None, has_horn, false, None),
        DriveEventV::HillSound { big } => (None, Some(if big { "31d005v0"@ } else { "31d004v0"@ }),
            if big { Some(1u32) } else { None }, false, false, None),
        _ => (None, None, None, false, false, None),
    }
}

/// The characters of an optional string
pub open spec fn opt_chars(o: Option<&'static str>) -> Option<Seq<char>> {
    match o {
        Some(s) => Some(s@),
        None => None,
    }
}

/// How the game answers a drive event: an empty tank makes Mulle complain,
/// reaching a destination saves the session and enters the destination
/// named by its resource, a gas station plays the refuel sound, animals
/// are honked at, and a hill too steep plays a hill sound (the big hill
/// earns medal 1)
pub fn drive_reaction(event: &DriveEvent) -> (r: DriveReaction)
    ensures
        (opt_chars(r.dialog), opt_chars(r.sound), r.medal, r.horn, r.save_session, r.switch_to)
            == drive_reaction_spec(event@),
{
    let none = DriveReaction { dialog: None, sound: None, medal: None, horn: false, save_session: false, switch_to: None };
    match event {
        DriveEvent::FuelEmpty => DriveReaction { dialog: Some("05d011v0"), ..none },
        DriveEvent::ReachedDestination { object_id: _, dir_resource } => {
            let switch_to = match parse_u8(dir_resource.as_str()) {
                Some(n) => Some(Scene::Destination(n)),
                None => None,
            };
            DriveReaction { save_session: true, switch_to, ..none }
        },
        DriveEvent::GasStation => DriveReaction { sound: Some("31e006v0"), ..none },
        DriveEvent::AnimalsBlocking { has_horn } => DriveReaction { horn: *has_horn, ..none },
        DriveEvent::HillSound { big } => {
            if *big {
                DriveReaction { sound: Some("31d005v0"), medal: Some(1), ..none }
            } else {
                DriveReaction { sound: Some("31d004v0"), ..none }
            }
        },
        _ => none,
    }
}

// ---------------------------------------------------------------------------
// Toolbox popup
// ---------------------------------------------------------------------------

/// What a popup button does; every button closes the popup
#[derive(Debug, Clone, Copy)]
pub struct PopupReaction {
    /// Scene the game switches to
    pub switch_to: Option<Scene>,
    /// Sound played
    pub sound: Option<&'static str>,
    /// Keyboard / mouse steering is toggled
    pub toggle_steering: bool,
}

/// What a popup button does: home goes to the yard, quit to the menu,
/// steering toggles keyboard/mouse steering, the diploma shows the medals
pub fn popup_reaction(action: PopupAction) -> (r: PopupReaction)
    ensures
        r.switch_to == (match action {
            PopupAction::Home => Some(Scene::Yard),
            PopupAction::Quit => Some(Scene::Menu),
            _ => None,
        }),
        opt_chars(r.sound) == (match action {
            PopupAction::Steering => Some("09d005v0"@),
            PopupAction::Diploma => Some("09d002v0"@),
            _ => None,
        }),
        r.toggle_steering == (action == PopupAction::Steering),
{
    match action {
        PopupAction::Home => PopupReaction { switch_to: Some(Scene::Yard), sound: None, toggle_steering: false },
        PopupAction::Quit => PopupReaction { switch_to: Some(Scene::Menu), sound: None, toggle_steering: false },
        PopupAction::Cancel => PopupReaction { switch_to: None, sound: None, toggle_steering: false },
        PopupAction::Steering => PopupReaction { switch_to: None, sound: Some("09d005v0"), toggle_steering: true },
        PopupAction::Diploma => PopupReaction { switch_to: None, sound: Some("09d002v0"), toggle_steering: false },
    }
}

// ---------------------------------------------------------------------------
// Clicks in a scene
// ---------------------------------------------------------------------------

/// What a click in a scene hits
#[derive(Debug, Clone, Copy, PartialEq, Eq, Structural)]
pub enum SceneClick {
    /// A button, and the scene it leads to (if any)
    Button(usize, Option<Scene>),
    /// A junkyard arrow: the pile to show
    Pile(u8),
    /// A hotspot, and the scene it leads to (if any)
    Hotspot(usize, Option<Scene>),
    /// Nothing
    Miss,
}

/// The clicked button among the first `n`: the hit button with the highest
/// z-order, the earliest one among equals
pub open spec fn top_button(bs: Seq<MulleButton>, n: int, px: i32, py: i32) -> Option<int>
    decreases n,
{
    if n <= 0 {
        None
    } else {
        let prev = top_button(bs, n - 1, px, py);
        if bs[n - 1].hits(px, py) && (prev is None || bs[n - 1].z_order > bs[prev->0].z_order) {
            Some(n - 1)
        } else {
            prev
        }
    }
}

/// Does the hotspot's rectangle hold the point?
pub open spec fn hotspot_hits(h: Hotspot, px: i32, py: i32) -> bool {
    px >= h.x && px < h.x + (h.width as i32) && py >= h.y && py < h.y + (h.height as i32)
}

/// The first of the first `n` hotspots that holds the point
pub open spec fn first_hotspot(hs: Seq<Hotspot>, n: int, px: i32, py: i32) -> Option<int>
    decreases n,
{
    if n <= 0 {
        None
    } else {
        match first_hotspot(hs, n - 1, px, py) {
            Some(i) => Some(i),
            None => if hotspot_hits(hs[n - 1], px, py) { Some(n - 1) } else { None },
        }
    }
}

/// Once found, the first hotspot stays the first as more are considered
pub(crate) proof fn lemma_first_hotspot_stable(hs: Seq<Hotspot>, n: int, m: int, px: i32, py: i32)
    requires
        0 <= n <= m,
        first_hotspot(hs, n, px, py) is Some,
    ensures
        first_hotspot(hs, m, px, py) == first_hotspot(hs, n, px, py),
    decreases m - n,
{
    if m > n {
        lemma_first_hotspot_stable(hs, n, m - 1, px, py);
    }
}

/// The right arrow of the junkyard
pub open spec fn right_arrow() -> char {
    '\u{2192}'
}

/// The left arrow of the junkyard
pub open spec fn left_arrow() -> char {
    '\u{2190}'
}

/// Does the name start with the character?
pub open spec fn starts_with_char(s: Seq<char>, c: char) -> bool {
    s.len() > 0 && s[0] == c
}

/// What a click at (px, py) hits in a scene: the top button (a junkyard
/// button without target whose name starts with an arrow turns to the next
/// or previous pile), else the first hotspot holding the point
pub open spec fn scene_click_spec(scene: Scene, junk_pile: u8, bs: Seq<MulleButton>, hs: Seq<Hotspot>, px: i32, py: i32) -> SceneClick {
    match top_button(bs, bs.len() as int, px, py) {
        Some(i) => {
            let b = bs[i];
            if scene == Scene::Junkyard && b.target is None && starts_with_char(b.name@, right_arrow()) {
                SceneClick::Pile(if junk_pile >= 6 { 1 } else { (junk_pile + 1) as u8 })
            } else if scene == Scene::Junkyard && b.target is None && starts_with_char(b.name@, left_arrow()) {
                SceneClick::Pile(if junk_pile <= 1 { 6 } else { (junk_pile - 1) as u8 })
            } else {
                SceneClick::Button(i as usize, b.target)
            }
        },
        None => match first_hotspot(hs, hs.len() as int, px, py) {
            Some(j) => SceneClick::Hotspot(j as usize, hs[j].target),
            None => SceneClick::Miss,
        },
    }
}

/// Does the string start with the character?
fn first_char_is(s: &str, c: char) -> (r: bool)
    ensures
        r == starts_with_char(s@, c),
{
    s.unicode_len() > 0 && s.get_char(0) == c
}

/// What a click hits in a scene
pub fn scene_click(scene: Scene, junk_pile: u8, buttons: &[MulleButton], hotspots: &[Hotspot], px: i32, py: i32) -> (r: SceneClick)
    requires
        forall|i: int| 0 <= i < buttons@.len() && (#[trigger] buttons@[i]).visible
            ==> i32::MIN <= px - buttons@[i].x <= i32::MAX && i32::MIN <= py - buttons@[i].y <= i32::MAX,
        forall|j: int| 0 <= j < hotspots@.len() ==> i32::MIN <= (#[trigger] hotspots@[j]).x + (hotspots@[j].width as i32) <= i32::MAX
            && i32::MIN <= hotspots@[j].y + (hotspots@[j].height as i32) <= i32::MAX,
    ensures
        r == scene_click_spec(scene, junk_pile, buttons@, hotspots@, px, py),
{
    let mut best: Option<usize> = None;
    let mut i: usize = 0;
    while i < buttons.len()
        invariant
            i <= buttons@.len(),
            forall|k: int| 0 <= k < buttons@.len() && (#[trigger] buttons@[k]).visible
                ==> i32::MIN <= px - buttons@[k].x <= i32::MAX && i32::MIN <= py - buttons@[k].y <= i32::MAX,
            match best {
                Some(b) => top_button(buttons@, i as int, px, py) == Some(b as int) && b < i,
                None => top_button(buttons@, i as int, px, py) is None,
            },
        decreases buttons@.len() - i,
    {
        let b = &buttons[i];
        if b.hit_test(px, py) {
            let better = match best {
                Some(k) => b.z_order > buttons[k].z_order,
                None => true,
            };
            if better {
                best = Some(i);
            }
        }
        i = i + 1;
    }
    match best {
        Some(k) => {
            let b = &buttons[k];
            if scene == Scene::Junkyard && b.target.is_none() {
                if first_char_is(b.name.as_str(), '\u{2192}') {
                    return SceneClick::Pile(next_pile(junk_pile));
                }
                if first_char_is(b.name.as_str(), '\u{2190}') {
                    return SceneClick::Pile(prev_pile(junk_pile));
                }
            }
            return SceneClick::Button(k, b.target);
        },
        None => {},
    }
    let mut j: usize = 0;
    while j < hotspots.len()
        invariant
            j <= hotspots@.len(),
            forall|k: int| 0 <= k < hotspots@.len() ==> i32::MIN <= (#[trigger] hotspots@[k]).x + (hotspots@[k].width as i32) <= i32::MAX
                && i32::MIN <= hotspots@[k].y + (hotspots@[k].height as i32) <= i32::MAX,
            first_hotspot(hotspots@, j as int, px, py) is None,
            top_button(buttons@, buttons@.len() as int, px, py) is None,
        decreases hotspots@.len() - j,
    {
        let h = &hotspots[j];
        if px >= h.x && px < h.x + h.width as i32 && py >= h.y && py < h.y + h.height as i32 {
            proof {
                lemma_first_hotspot_stable(hotspots@, j + 1, hotspots@.len() as int, px, py);
            }
            return SceneClick::Hotspot(j, h.target);
        }
        j = j + 1;
    }
    SceneClick::Miss
}

// ---------------------------------------------------------------------------
// Cursor
// ---------------------------------------------------------------------------

/// The cursor for what the pointer is over: a grabbing hand while dragging
/// or over a loose part (garage, junkyard) or a car part (garage); over a
/// button, the arrow or finger its name calls for; a pointing finger over an
/// interactive sprite, a hotspot or the toolbox icon (world map); else the
/// standard arrow
pub open spec fn hover_cursor_spec(
    scene: Scene,
    dragging: bool,
    over_item: bool,
    over_car_part: bool,
    button_name: Option<Seq<char>>,
    over_sprite: bool,
    over_hotspot: bool,
    over_toolbox_icon: bool,
) -> CursorType {
    if dragging {
        CursorType::Grab
    } else if (scene == Scene::Garage || scene == Scene::Junkyard) && over_item {
        CursorType::Grab
    } else if scene == Scene::Garage && over_car_part {
        CursorType::Grab
    } else {
        match button_name {
            Some(n) => button_cursor_of(lowercase(n)),
            None => if over_sprite || over_hotspot || (scene == Scene::World && over_toolbox_icon) {
                CursorType::Click
            } else {
                CursorType::Standard
            },
        }
    }
}

/// The cursor for what the pointer is over; `button_name` is the name of
/// the first scene button under the pointer
pub fn hover_cursor(
    scene: Scene,
    dragging: bool,
    over_item: bool,
    over_car_part: bool,
    button_name: Option<&str>,
    over_sprite: bool,
    over_hotspot: bool,
    over_toolbox_icon: bool,
) -> (r: CursorType)
    ensures
        r == hover_cursor_spec(scene, dragging, over_item, over_car_part,
            match button_name { Some(n) => Some(n@), None => None }, over_sprite, over_hotspot, over_toolbox_icon),
{
    if dragging {
        CursorType::Grab
    } else if (scene == Scene::Garage || scene == Scene::Junkyard) && over_item {
        CursorType::Grab
    } else if scene == Scene::Garage && over_car_part {
        CursorType::Grab
    } else {
        match button_name {
            Some(n) => button_cursor(n),
            None => if over_sprite || over_hotspot || (scene == Scene::World && over_toolbox_icon) {
                CursorType::Click
            } else {
                CursorType::Standard
            },
        }
    }
}

// ---------------------------------------------------------------------------
// Where a click goes
// ---------------------------------------------------------------------------

/// Who takes a mouse click, in the order the game asks them
#[derive(Debug, Clone, Copy, PartialEq, Eq, Structural)]
pub enum ClickRoute {
    /// The open developer menu
    DevMenu,
    /// The open toolbox popup of the world scene: the button hit, if any (a
    /// click beside the buttons is absorbed too)
    Popup(Option<PopupAction>),
    /// The toolbox icon: the popup opens or closes
    ToolboxIcon,
    /// The language button of the main menu: the next language
    Language,
    /// The scene itself (its buttons, hotspots and the way out)
    Scene,
}

/// The toolbox's clicks can be tested: its icon fits the screen and the
/// popup's offset from a point fits an `i32`
pub open spec fn toolbox_clickable(tb: Toolbox, x: i32, y: i32) -> bool {
    &&& tb.icon matches Some(icon) ==> icon_fits(icon)
    &&& tb.popup matches Some(p) ==> i32::MIN <= x - p.x <= i32::MAX && i32::MIN <= y - p.y <= i32::MAX
}

/// Who takes a click at (x, y)
pub open spec fn click_route(dev_open: bool, scene: Scene, toolbox: Option<Toolbox>, x: i32, y: i32) -> ClickRoute {
    if dev_open {
        ClickRoute::DevMenu
    } else if scene == Scene::World && toolbox is Some && toolbox.unwrap().popup_open {
        let tb = toolbox.unwrap();
        ClickRoute::Popup(match tb.popup {
            Some(p) => first_button(menu_button_table(), x - p.x, y - p.y),
            None => None,
        })
    } else if scene == Scene::World && toolbox is Some && toolbox.unwrap().icon_hit_spec(x, y) {
        ClickRoute::ToolboxIcon
    } else if scene == Scene::Menu && 20 <= x < 180 && 440 <= y < 470 {
        ClickRoute::Language
    } else {
        ClickRoute::Scene
    }
}

/// Route a click: the developer menu takes every click while open; in the
/// world scene an open toolbox popup takes every click, and the toolbox icon
/// toggles it; in the menu the language button switches the language; any
/// other click goes to the scene
pub fn route_click(dev_open: bool, scene: Scene, toolbox: &Option<Toolbox>, x: i32, y: i32) -> (r: ClickRoute)
    requires
        *toolbox matches Some(tb) ==> toolbox_clickable(tb, x, y),
    ensures
        r == click_route(dev_open, scene, *toolbox, x, y),
{
    if dev_open {
        return ClickRoute::DevMenu;
    }
    if scene == Scene::World {
        if let Some(tb) = toolbox {
            if tb.popup_open {
                return ClickRoute::Popup(tb.popup_hit(x, y));
            }
            if tb.icon_hit(x, y) {
                return ClickRoute::ToolboxIcon;
            }
        }
    }
    if scene == Scene::Menu && language_button_hit(x, y) {
        return ClickRoute::Language;
    }
    ClickRoute::Scene
}

// ---------------------------------------------------------------------------
// One frame of the game loop
// ---------------------------------------------------------------------------

/// What one frame of the game loop does
#[derive(Debug, Clone, Copy, PartialEq, Eq, Structural)]
pub struct FramePlan {
    /// Frames the transition cutscene still shows after this frame; `None`
    /// when no cutscene shows any more
    pub transition_left: Option<u8>,
    /// The scene switched to as the cutscene ends
    pub switch_to: Option<Scene>,
    /// Actors, dialogs and the scene script advance
    pub advance: bool,
    /// Loose parts fall (garage and yard)
    pub part_physics: bool,
    /// The car drives (world map)
    pub drive: bool,
}

/// The plan of a frame in `scene`, with the transition cutscene showing
/// (its frames left and the scene it leads to), if any
pub open spec fn frame_plan_spec(scene: Scene, transition: Option<(u8, Scene)>) -> FramePlan {
    match transition {
        Some((left, target)) => {
            let l: u8 = if left > 0 { (left - 1) as u8 } else { 0 };
            FramePlan {
                transition_left: if l == 0 { None } else { Some(l) },
                switch_to: if l == 0 { Some(target) } else { None },
                advance: false,
                part_physics: false,
                drive: false,
            }
        },
        None => FramePlan {
            transition_left: None,
            switch_to: None,
            advance: true,
            part_physics: scene == Scene::Garage || scene == Scene::Yard,
            drive: scene == Scene::World,
        },
    }
}

/// Plan a frame: while a transition cutscene shows, the frame only counts
/// it down and switches to its scene when it runs out; otherwise actors,
/// dialogs and the script advance, loose parts fall in the garage and the
/// yard, and the car drives on the world map
pub fn frame_plan(scene: Scene, transition: Option<(u8, Scene)>) -> (p: FramePlan)
    ensures
        p == frame_plan_spec(scene, transition),
{
    match transition {
        Some((left, target)) => {
            let l: u8 = if left > 0 { left - 1 } else { 0 };
            FramePlan {
                transition_left: if l == 0 { None } else { Some(l) },
                switch_to: if l == 0 { Some(target) } else { None },
                advance: false,
                part_physics: false,
                drive: false,
            }
        },
        None => FramePlan {
            transition_left: None,
            switch_to: None,
            advance: true,
            part_physics: scene == Scene::Garage || scene == Scene::Yard,
            drive: scene == Scene::World,
        },
    }
}

// ---------------------------------------------------------------------------
// The game's scene state
// ---------------------------------------------------------------------------

/// The part of the game's state that scene switches and frames decide
#[derive(Debug, Clone, Copy)]
pub struct FlowState {
    /// The current scene
    pub scene: Scene,
    /// A drive car is on the world map
    pub driving: bool,
    /// The transition cutscene showing: frames left and the scene it leads to
    pub transition: Option<(u8, Scene)>,
}

/// The state after switching to `target`, with a road-legal car or not, and
/// with the transition cutscene's image at hand or not. A switch to the
/// current scene only reloads it. A cutscene that can be shown makes the
/// target current at once and leaves the rest to its end (which switches to
/// the same scene again). Entering the world map without a road-legal car
/// is refused; otherwise the target becomes current, leaving the world map
/// parks the drive car and entering it sets one up.
pub open spec fn switched(s: FlowState, target: Scene, road_legal: bool, cutscene_shown: bool) -> FlowState {
    if target == s.scene {
        s
    } else if s.transition is None && cutscene_for(s.scene, target, road_legal) is Some && cutscene_shown {
        FlowState { scene: target, transition: Some((TRANSITION_FRAMES, target)), ..s }
    } else if target == Scene::World && !road_legal {
        s
    } else {
        FlowState {
            scene: target,
            driving: if target == Scene::World { true } else if s.scene == Scene::World { false } else { s.driving },
            ..s
        }
    }
}

/// Carry out the plan of a switch on the game's scene state
pub fn apply_switch(s: &FlowState, target: Scene, road_legal: bool, cutscene_shown: bool) -> (r: FlowState)
    ensures
        r == switched(*s, target, road_legal, cutscene_shown),
{
    let p = switch_plan(s.scene, target, s.transition.is_some(), road_legal);
    if !p.changed {
        return *s;
    }
    if p.cutscene.is_some() && cutscene_shown {
        return FlowState { scene: target, driving: s.driving, transition: Some((TRANSITION_FRAMES, target)) };
    }
    if p.blocked {
        return *s;
    }
    let driving = if p.start_drive {
        true
    } else if p.exit == SceneExit::SaveDriveSession {
        false
    } else {
        s.driving
    };
    FlowState { scene: target, driving, transition: s.transition }
}

/// The state after one frame: the cutscene counts down, and when it runs
/// out the game switches to its scene (the current one already)
pub open spec fn after_frame(s: FlowState, road_legal: bool) -> FlowState {
    let p = frame_plan_spec(s.scene, s.transition);
    let counted = FlowState {
        transition: match p.transition_left {
            Some(l) => Some((l, s.transition.unwrap().1)),
            None => None,
        },
        ..s
    };
    match p.switch_to {
        Some(t) => switched(counted, t, road_legal, false),
        None => counted,
    }
}

/// Carry out one frame's plan on the game's scene state
pub fn apply_frame(s: &FlowState, road_legal: bool) -> (r: FlowState)
    ensures
        r == after_frame(*s, road_legal),
{
    let p = frame_plan(s.scene, s.transition);
    let transition = match (p.transition_left, s.transition) {
        (Some(l), Some((_, t))) => Some((l, t)),
        _ => None,
    };
    let counted = FlowState { scene: s.scene, driving: s.driving, transition };
    match p.switch_to {
        Some(t) => apply_switch(&counted, t, road_legal, false),
        None => counted,
    }
}

/// Switching from the garage to the world map with a car that is not road
/// legal changes nothing: the game stays in the garage, and no drive car is
/// set up.
pub proof fn law_blocked_world_switch_stays(s: FlowState, cutscene_shown: bool)
    requires
        s.scene == Scene::Garage,
    ensures
        switched(s, Scene::World, false, cutscene_shown) == s,
{
}

/// Entering the world map with a road-legal car from any other scene,
/// unless a cutscene shows first, makes it current with a drive car.
pub proof fn law_world_entry_drives(s: FlowState, cutscene_shown: bool)
    requires
        s.scene != Scene::World,
        !(s.transition is None && cutscene_for(s.scene, Scene::World, true) is Some && cutscene_shown),
    ensures
        switched(s, Scene::World, true, cutscene_shown).scene == Scene::World,
        switched(s, Scene::World, true, cutscene_shown).driving,
{
}

/// A switch that shows a cutscene arrives there: counting the cutscene down
/// frame by frame keeps the scene, and after its frames it is gone.
pub proof fn law_cutscene_runs_out(s: FlowState, road_legal: bool)
    requires
        s.transition matches Some((l, t)) && l == 1 && t == s.scene,
    ensures
        after_frame(s, road_legal).transition is None,
        after_frame(s, road_legal).scene == s.scene,
{
}

} // verus!
