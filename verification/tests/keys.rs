use openwilly::keys::{
    drive_controls, key_scene, route_key, scene_key, show_next_sprite, toggle_all_sprites, GameKey,
    KeyControls, SceneKey,
};
use openwilly::scene::Scene;
use openwilly::sprite::Sprite;

fn sprite(z: i32, visible: bool) -> Sprite {
    Sprite {
        x: 0, y: 0, width: 1, height: 1,
        pixels: vec![255; 4],
        visible, z_order: z,
        name: format!("s{}", z),
        interactive: false, member_num: 0,
    }
}

#[test]
fn function_keys_jump_to_scenes() {
    assert_eq!(key_scene(GameKey::F1), Some(Scene::Menu));
    assert_eq!(key_scene(GameKey::F5), Some(Scene::World));
    assert_eq!(key_scene(GameKey::F8), Some(Scene::Destination(85)));
    assert_eq!(key_scene(GameKey::F9), Some(Scene::Destination(92)));
    assert_eq!(key_scene(GameKey::Tab), None);
    let mut sprites = vec![sprite(0, true)];
    assert_eq!(scene_key(Scene::Yard, 1, GameKey::F2, &mut sprites), SceneKey::Switch(Scene::Garage));
}

#[test]
fn tab_hides_or_shows_everything() {
    let mut sprites = vec![sprite(0, true), sprite(5, true)];
    toggle_all_sprites(&mut sprites);
    assert!(sprites.iter().all(|s| !s.visible));
    let mut mixed = vec![sprite(0, true), sprite(5, false)];
    assert_eq!(scene_key(Scene::Yard, 1, GameKey::Tab, &mut mixed), SceneKey::Stay);
    assert!(mixed.iter().all(|s| s.visible));
}

#[test]
fn space_shows_next_hidden_sprite_then_resets() {
    let mut sprites = vec![sprite(0, false), sprite(3, true), sprite(4, false), sprite(6, false)];
    show_next_sprite(&mut sprites);
    assert!(!sprites[0].visible, "the background does not count");
    assert!(sprites[2].visible);
    assert!(!sprites[3].visible);
    show_next_sprite(&mut sprites);
    assert!(sprites[3].visible);
    show_next_sprite(&mut sprites);
    // nothing hidden above the background: back to the background only
    assert!(sprites[0].visible);
    assert!(!sprites[1].visible && !sprites[2].visible && !sprites[3].visible);
}

#[test]
fn arrows_turn_junk_piles() {
    let mut sprites = Vec::new();
    assert_eq!(scene_key(Scene::Junkyard, 1, GameKey::Left, &mut sprites), SceneKey::Pile(6));
    assert_eq!(scene_key(Scene::Junkyard, 6, GameKey::Right, &mut sprites), SceneKey::Pile(1));
    assert_eq!(scene_key(Scene::Junkyard, 3, GameKey::Right, &mut sprites), SceneKey::Pile(4));
    assert_eq!(scene_key(Scene::Yard, 3, GameKey::Right, &mut sprites), SceneKey::Stay);
}

#[test]
fn keys_are_routed() {
    let r = route_key(true, Scene::World, GameKey::H);
    assert!(r.dev_menu && !r.horn && !r.to_scene);
    let r = route_key(false, Scene::World, GameKey::H);
    assert!(r.horn && r.to_scene && !r.dev_menu);
    let r = route_key(false, Scene::Yard, GameKey::H);
    assert!(!r.horn);
    let r = route_key(false, Scene::Menu, GameKey::Enter);
    assert!(r.confirm_name && !r.backspace && !r.skip_subtitle);
    assert!(route_key(false, Scene::Menu, GameKey::Backspace).backspace);
    assert!(route_key(false, Scene::Garage, GameKey::Space).skip_subtitle);
}

#[test]
fn driving_controls_from_keys() {
    let c = drive_controls(true, true, true, false, true, false);
    assert_eq!(c.keys, Some(KeyControls { throttle: false, braking: false, steer_left: false, steer_right: false }));
    let c = drive_controls(false, false, true, false, false, true);
    assert!(c.key_steer);
    assert_eq!(c.keys, Some(KeyControls { throttle: true, braking: false, steer_left: false, steer_right: true }));
    let c = drive_controls(false, false, false, false, false, false);
    assert!(!c.key_steer);
    assert_eq!(c.keys, None);
}
