use openwilly::cursor::CursorType;
use openwilly::driving::DriveEvent;
use openwilly::scene::{CutsceneMember, Scene};
use openwilly::scene_flow::{
    drive_reaction, hover_cursor, leaving_blocked, parse_u8, popup_reaction, scene_click, switch_plan, SceneClick,
    SceneExit, ScriptChoice,
};
use openwilly::scenes::{Hotspot, MulleButton};
use openwilly::toolbox::PopupAction;

#[test]
fn switch_from_menu_to_garage() {
    let p = switch_plan(Scene::Menu, Scene::Garage, false, false);
    assert!(p.changed);
    assert!(matches!(p.cutscene, Some(CutsceneMember::Named("00b011v0"))));
    assert_eq!(p.exit, SceneExit::Nothing);
    assert!(!p.blocked && !p.start_drive);
    assert!(p.login_default);
    assert!(!p.save_quest && !p.reset_quest_cache);
    assert_eq!(p.script, ScriptChoice::Nothing);
    assert_eq!(p.medal, None);
}

#[test]
fn switch_to_world_needs_road_legal_car() {
    let p = switch_plan(Scene::Yard, Scene::World, false, false);
    assert!(p.blocked && !p.start_drive);
    assert_eq!(p.exit, SceneExit::SaveYard);
    assert!(!p.reset_quest_cache);
    let p = switch_plan(Scene::Yard, Scene::World, false, true);
    assert!(!p.blocked && p.start_drive);
    assert!(p.reset_quest_cache);
    assert!(matches!(p.cutscene, Some(CutsceneMember::Named("00b008v0"))));
}

#[test]
fn switch_exits_and_scripts() {
    let p = switch_plan(Scene::World, Scene::Destination(85), false, true);
    assert_eq!(p.exit, SceneExit::SaveDriveSession);
    assert_eq!(p.script, ScriptChoice::Destination(85));
    let p = switch_plan(Scene::Destination(85), Scene::World, true, true);
    assert!(p.save_quest);
    assert!(p.cutscene.is_none(), "a playing cutscene is not replaced");
    let p = switch_plan(Scene::Garage, Scene::Junkyard, false, true);
    assert_eq!(p.exit, SceneExit::SaveGarage);
    assert!(matches!(p.cutscene, Some(CutsceneMember::Number(70))));
    let p = switch_plan(Scene::Junkyard, Scene::Garage, false, true);
    assert_eq!(p.exit, SceneExit::SaveJunkPile);
    let p = switch_plan(Scene::Garage, Scene::CarShow, false, true);
    assert_eq!(p.script, ScriptChoice::CarShow);
    assert_eq!(p.medal, Some(4));
    let p = switch_plan(Scene::Boot, Scene::Menu, false, true);
    assert_eq!(p.script, ScriptChoice::Menu);
    let p = switch_plan(Scene::Yard, Scene::Garage, false, true);
    assert!(!p.reset_quest_cache);
}

#[test]
fn switch_to_same_scene_only_reloads() {
    let p = switch_plan(Scene::Garage, Scene::Garage, false, true);
    assert!(!p.changed);
    assert!(p.cutscene.is_none());
    assert_eq!(p.exit, SceneExit::Nothing);
    assert!(!p.login_default && !p.blocked && !p.save_quest && !p.reset_quest_cache);
}

#[test]
fn garage_to_yard_gate() {
    assert!(leaving_blocked(Scene::Garage, Scene::Yard, false));
    assert!(!leaving_blocked(Scene::Garage, Scene::Yard, true));
    assert!(!leaving_blocked(Scene::Garage, Scene::Junkyard, false));
    assert!(!leaving_blocked(Scene::Junkyard, Scene::Yard, false));
}

#[test]
fn drive_event_reactions() {
    let r = drive_reaction(&DriveEvent::FuelEmpty);
    assert_eq!(r.dialog, Some("05d011v0"));
    let r = drive_reaction(&DriveEvent::ReachedDestination { object_id: 15, dir_resource: "04".to_string() });
    assert!(r.save_session);
    assert_eq!(r.switch_to, Some(Scene::Destination(4)));
    let r = drive_reaction(&DriveEvent::ReachedDestination { object_id: 15, dir_resource: "x4".to_string() });
    assert!(r.save_session);
    assert_eq!(r.switch_to, None);
    let r = drive_reaction(&DriveEvent::ReachedDestination { object_id: 15, dir_resource: "300".to_string() });
    assert_eq!(r.switch_to, None);
    let r = drive_reaction(&DriveEvent::GasStation);
    assert_eq!(r.sound, Some("31e006v0"));
    let r = drive_reaction(&DriveEvent::HillSound { big: true });
    assert_eq!(r.sound, Some("31d005v0"));
    assert_eq!(r.medal, Some(1));
    let r = drive_reaction(&DriveEvent::HillSound { big: false });
    assert_eq!(r.sound, Some("31d004v0"));
    assert_eq!(r.medal, None);
    let r = drive_reaction(&DriveEvent::AnimalsBlocking { has_horn: true });
    assert!(r.horn);
    let r = drive_reaction(&DriveEvent::TerrainBlocked { reason: "wall" });
    assert!(r.dialog.is_none() && r.sound.is_none() && !r.horn && !r.save_session && r.switch_to.is_none());
}

#[test]
fn parse_u8_like_std() {
    assert_eq!(parse_u8("85"), Some(85));
    assert_eq!(parse_u8("+7"), Some(7));
    assert_eq!(parse_u8("255"), Some(255));
    assert_eq!(parse_u8("256"), None);
    assert_eq!(parse_u8(""), None);
    assert_eq!(parse_u8("-1"), None);
}

#[test]
fn popup_buttons() {
    let r = popup_reaction(PopupAction::Home);
    assert_eq!(r.switch_to, Some(Scene::Yard));
    let r = popup_reaction(PopupAction::Quit);
    assert_eq!(r.switch_to, Some(Scene::Menu));
    let r = popup_reaction(PopupAction::Steering);
    assert!(r.toggle_steering);
    assert_eq!(r.sound, Some("09d005v0"));
    let r = popup_reaction(PopupAction::Diploma);
    assert_eq!(r.sound, Some("09d002v0"));
    let r = popup_reaction(PopupAction::Cancel);
    assert!(r.switch_to.is_none() && r.sound.is_none() && !r.toggle_steering);
}

fn button(name: &str, x: i32, z: i32, target: Option<Scene>) -> MulleButton {
    MulleButton {
        name: name.to_string(),
        x,
        y: 0,
        width: 100,
        height: 100,
        default_pixels: Vec::new(),
        hover_pixels: None,
        hover_width: 0,
        hover_height: 0,
        hovered: false,
        target,
        z_order: z,
        visible: true,
        sound_default: None,
        sound_hover: None,
    }
}

#[test]
fn click_hits_top_button_then_hotspots() {
    let buttons = vec![
        button("a", 0, 1, Some(Scene::Yard)),
        button("b", 50, 5, Some(Scene::World)),
        button("c", 50, 5, Some(Scene::Menu)),
    ];
    let hotspots = vec![Hotspot { x: 300, y: 0, width: 10, height: 10, name: "h".to_string(), target: Some(Scene::Garage) }];
    assert_eq!(scene_click(Scene::Yard, 1, &buttons, &hotspots, 60, 10), SceneClick::Button(1, Some(Scene::World)));
    assert_eq!(scene_click(Scene::Yard, 1, &buttons, &hotspots, 10, 10), SceneClick::Button(0, Some(Scene::Yard)));
    assert_eq!(scene_click(Scene::Yard, 1, &buttons, &hotspots, 305, 5), SceneClick::Hotspot(0, Some(Scene::Garage)));
    assert_eq!(scene_click(Scene::Yard, 1, &buttons, &hotspots, 500, 500), SceneClick::Miss);
}

#[test]
fn junkyard_arrows_turn_piles() {
    let buttons = vec![button("\u{2192} next", 0, 1, None), button("\u{2190} prev", 200, 1, None)];
    assert_eq!(scene_click(Scene::Junkyard, 6, &buttons, &[], 10, 10), SceneClick::Pile(1));
    assert_eq!(scene_click(Scene::Junkyard, 3, &buttons, &[], 10, 10), SceneClick::Pile(4));
    assert_eq!(scene_click(Scene::Junkyard, 1, &buttons, &[], 210, 10), SceneClick::Pile(6));
    assert_eq!(scene_click(Scene::Yard, 1, &buttons, &[], 210, 10), SceneClick::Button(1, None));
}

#[test]
fn cursor_follows_what_is_hovered() {
    assert_eq!(hover_cursor(Scene::Yard, true, false, false, None, false, false, false), CursorType::Grab);
    assert_eq!(hover_cursor(Scene::Junkyard, false, true, false, None, false, false, false), CursorType::Grab);
    assert_eq!(hover_cursor(Scene::Yard, false, true, false, None, false, false, false), CursorType::Standard);
    assert_eq!(hover_cursor(Scene::Garage, false, false, true, None, false, false, false), CursorType::Grab);
    assert_eq!(hover_cursor(Scene::Junkyard, false, false, true, None, false, false, false), CursorType::Standard);
    assert_eq!(hover_cursor(Scene::Yard, false, false, false, Some("Tür links"), true, true, false), CursorType::Left);
    assert_eq!(hover_cursor(Scene::Yard, false, false, false, Some("Telefon"), false, false, false), CursorType::Click);
    assert_eq!(hover_cursor(Scene::Yard, false, false, false, None, true, false, false), CursorType::Click);
    assert_eq!(hover_cursor(Scene::Yard, false, false, false, None, false, true, false), CursorType::Click);
    assert_eq!(hover_cursor(Scene::World, false, false, false, None, false, false, true), CursorType::Click);
    assert_eq!(hover_cursor(Scene::Yard, false, false, false, None, false, false, true), CursorType::Standard);
}
