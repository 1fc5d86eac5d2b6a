use openwilly::drag_drop::DropResult;
use openwilly::keys::GameKey;
use openwilly::scene::Scene;
use openwilly::build_car::{BuildCar, PlacedPartSprite};
use openwilly::cast::{BitmapInfo, CastFile, CastMember, CastStore, DecodedImage};
use openwilly::scene_handler::{get_all_sprites, SceneHandler};
use openwilly::scenes::{Actor, Hotspot, MulleButton, SceneEvent};
use openwilly::sprite::Sprite;
use openwilly::text::{eq_ignore_ascii_case, replace_str};


fn sprite(name: &str, x: i32, y: i32, z: i32, member: u32, visible: bool) -> Sprite {
    Sprite {
        x,
        y,
        width: 10,
        height: 10,
        pixels: vec![255; 400],
        visible,
        z_order: z,
        name: name.to_string(),
        interactive: true,
        member_num: member,
    }
}

fn no_cast() -> CastStore {
    CastStore { files: Vec::new() }
}

/// A scene with nothing in it
fn bare(scene: Scene) -> SceneHandler {
    let mut h = SceneHandler::new(scene, &no_cast(), false);
    h.sprites.clear();
    h.buttons.clear();
    h.actors.clear();
    h.hotspots.clear();
    h
}

fn test_cast() -> CastStore {
    CastStore {
        files: vec![CastFile {
            name: "t.DXR".to_string(),
            members: vec![
                CastMember {
                    num: 1,
                    name: "frame".to_string(),
                    is_bitmap: true,
                    info: Some(BitmapInfo { width: 4, height: 4, reg_x: 1, reg_y: 2 }),
                    image: Some(image(4, 4, 255)),
                    transparent: Some(image(4, 4, 255)),
                },
                bitmap_member(5, "b5", 5, 5, 0),
                bitmap_member(10, "b10", 10, 10, 0),
                bitmap_member(20, "b20", 20, 20, 0),
            ],
        }],
    }
}

/// A button of a square test member (5, 10 or 20 pixels) at (x, y)
fn button(name: &str, size: u32, x: i32, y: i32, target: Option<Scene>, z: i32) -> MulleButton {
    MulleButton::new(name, "t.DXR", size, None, x, y, target, z, &test_cast()).unwrap()
}

fn talker(name: &str) -> Actor {
    let store = test_cast();
    let mut a = Actor::new(name, 50, 50, 5);
    a.add_animation("idle", &[("t.DXR", 1)], 10, true, &store);
    a.add_animation("talk", &[("t.DXR", 1)], 10, true, &store);
    a.add_animation("point", &[("t.DXR", 1), ("t.DXR", 1)], 30, false, &store);
    a.set_talk_anims("talk", "idle");
    a
}

#[test]
fn new_scene_without_cast_members() {
    let h = SceneHandler::new(Scene::Garage, &no_cast(), true);
    assert_eq!(h.scene, Scene::Garage);
    assert!(h.has_car);
    assert_eq!(h.carshow_rating, 1);
    assert_eq!(h.junk_pile, 1);
    // Nothing decodes: no images, no buttons; the actors are there without frames
    assert!(h.sprites.is_empty() && h.buttons.is_empty() && h.hotspots.is_empty());
    let names: Vec<&str> = h.actors.iter().map(|a| a.name.as_str()).collect();
    assert_eq!(names, vec!["mulleDefault", "figge"]);
    assert!(h.actors[0].animations.iter().all(|a| a.frames.is_empty()));
    assert!(!h.actors[1].visible);
    assert!(h.talking_actor.is_none());
    let r = SceneHandler::new_with_rating(Scene::CarShow, &no_cast(), false, 4);
    assert_eq!(r.carshow_rating, 4);
    assert_eq!(r.actors[1].animations[0].name, "show");
    assert_eq!(r.hotspots[0].name, "← Weltkarte");
}

#[test]
fn actor_control_by_name() {
    let mut h = bare(Scene::Menu);
    h.actors.push(talker("mulleMenuMouth"));
    h.actors.push(talker("mulleMenuHead"));
    h.play_actor_anim("mulleMenuHead", "talk");
    assert_eq!(h.actors[1].active_anim, 1);
    assert_eq!(h.actors[0].active_anim, 0);
    h.play_actor_anim("nobody", "talk");
    h.set_actor_visible("mulleMenuMouth", false);
    assert!(!h.actors[0].visible);
    h.set_actor_talk_anims("mulleMenuHead", "point", "idle");
    assert_eq!(h.actors[1].talk_anim.as_deref(), Some("point"));
}

#[test]
fn cue_points_go_to_the_talker_and_its_head() {
    let mut h = bare(Scene::Menu);
    h.actors.push(talker("mulleMenuMouth"));
    h.actors.push(talker("mulleMenuHead"));
    h.set_talking_actor("mulleMenuMouth");
    assert_eq!(h.talking_actor.as_deref(), Some("mulleMenuMouth"));
    assert!(h.actors[0].is_talking);
    assert_eq!(h.actors[0].active_anim, 1);
    h.handle_cue_point("silence");
    assert!(!h.actors[0].is_talking);
    assert_eq!(h.actors[0].active_anim, 0);
    h.handle_cue_point("Point");
    assert_eq!(h.actors[1].active_anim, 2);
    assert_eq!(h.actors[0].active_anim, 0);
    h.stop_talking_actor();
    assert!(h.talking_actor.is_none());
    // Without a talker, cues change nothing
    h.handle_cue_point("talk");
    assert!(!h.actors[0].is_talking);
}

#[test]
fn update_reports_finished_animations() {
    let mut h = bare(Scene::Garage);
    h.actors.push(talker("a"));
    h.actors.push(talker("b"));
    h.play_actor_anim("b", "point");
    let first = h.update();
    assert!(first.is_empty());
    let second = h.update();
    assert_eq!(second.len(), 1);
    match &second[0] {
        SceneEvent::ActorAnimFinished { actor_name, anim_name } => {
            assert_eq!(actor_name, "b");
            assert_eq!(anim_name, "point");
        }
    }
    assert!(h.update().is_empty());
}

#[test]
fn all_sprites_sorted_by_draw_order() {
    let mut h = bare(Scene::Garage);
    h.sprites.push(sprite("bg", 0, 0, 0, 1, true));
    h.sprites.push(sprite("top", 0, 0, 9, 2, true));
    h.buttons.push(button("door", 5, 10, 10, Some(Scene::Yard), 3));
    h.actors.push(talker("mulle"));
    let all = h.all_sprites();
    let names: Vec<&str> = all.iter().map(|s| s.name.as_str()).collect();
    assert_eq!(names, vec!["bg", "btn:door", "actor:mulle", "top"]);
    assert_eq!((all[2].x, all[2].y), (49, 48));
}

#[test]
fn hover_sound_on_entering_a_button() {
    let mut h = bare(Scene::Garage);
    let mut b = button("door", 20, 100, 100, Some(Scene::Yard), 3);
    b.sound_hover = Some("hover.wav".to_string());
    h.buttons.push(b);
    assert_eq!(h.on_mouse_move(5, 5), None);
    assert!(!h.buttons[0].hovered);
    assert_eq!(h.on_mouse_move(105, 105).as_deref(), Some("hover.wav"));
    assert!(h.buttons[0].hovered);
    // Still over it: no new sound
    assert_eq!(h.on_mouse_move(106, 106), None);
    assert!(h.buttons[0].hovered);
}

#[test]
fn right_click_hides_then_shows() {
    let mut h = bare(Scene::Garage);
    h.sprites.push(sprite("bg", 0, 0, 0, 0, true));
    h.sprites.push(sprite("a", 0, 0, 1, 7, true));
    h.sprites.push(sprite("b", 0, 0, 2, 8, true));
    h.on_right_click(5, 5);
    assert!(h.sprites[1].visible);
    assert!(!h.sprites[2].visible);
    h.on_right_click(5, 5);
    assert!(!h.sprites[1].visible);
    // Nothing left to hide (the background is no cast member): the first
    // hidden sprite under the point shows again
    h.on_right_click(5, 5);
    assert!(h.sprites[0].visible);
    assert!(h.sprites[1].visible);
    assert!(!h.sprites[2].visible);
    // Outside every sprite nothing changes
    h.on_right_click(50, 50);
    assert!(h.sprites[1].visible);
}

#[test]
fn hover_info_names_what_is_under_the_pointer() {
    let mut h = bare(Scene::Garage);
    h.sprites.push(sprite("low", 0, 0, 1, 1, true));
    h.sprites.push(sprite("high", 0, 0, 4, 2, true));
    h.sprites.push(sprite("also_high", 0, 0, 4, 3, true));
    h.buttons.push(button("door", 5, 100, 100, None, 3));
    h.hotspots.push(Hotspot { x: 200, y: 200, width: 10, height: 10, name: "exit".to_string(), target: Some(Scene::World) });
    assert_eq!(h.hover_info(101, 101), "[door]");
    assert_eq!(h.hover_info(5, 5), "high");
    assert_eq!(h.hover_info(205, 205), "[exit]");
    assert_eq!(h.hover_info(400, 400), "");
}

#[test]
fn clicks_follow_buttons_piles_and_hotspots() {
    let mut h = bare(Scene::Junkyard);
    h.buttons.push(button("\u{2192} next", 10, 0, 0, None, 1));
    h.buttons.push(button("garage", 10, 50, 0, Some(Scene::Garage), 1));
    h.hotspots.push(Hotspot { x: 100, y: 100, width: 10, height: 10, name: "yard".to_string(), target: Some(Scene::Yard) });
    assert_eq!(h.on_click(55, 5, &no_cast()), Some(Scene::Garage));
    assert_eq!(h.on_click(105, 105, &no_cast()), Some(Scene::Yard));
    assert_eq!(h.on_click(300, 300, &no_cast()), None);
    assert_eq!(h.on_click(5, 5, &no_cast()), None);
    assert_eq!(h.junk_pile, 2);
    assert!(h.buttons.is_empty() && h.hotspots.is_empty());
    assert_eq!(h.drag_drop.drop_rects.len(), 3);
}

#[test]
fn menu_click_and_typing() {
    let mut h = bare(Scene::Menu);
    for c in "  Anna ".chars() {
        h.on_char_input(c);
    }
    assert_eq!(h.menu.input_text(), "  Anna ");
    assert_eq!(h.on_click(360, 240, &no_cast()), Some(Scene::Garage));
    assert_eq!(h.menu.saved_names(), &["Anna".to_string()]);
    assert_eq!(h.on_enter(), Some(Scene::Garage));
    assert_eq!(h.menu.saved_names().len(), 1);

    let mut g = bare(Scene::Garage);
    g.on_char_input('x');
    assert_eq!(g.menu.input_text(), "");
    assert_eq!(g.on_enter(), None);
}

#[test]
fn keys_turn_piles_and_toggle_sprites() {
    let mut h = bare(Scene::Junkyard);
    h.sprites.push(sprite("bg", 0, 0, 0, 1, true));
    h.sprites.push(sprite("a", 0, 0, 1, 2, true));
    assert_eq!(h.on_key_down(GameKey::Tab, &no_cast()), None);
    assert!(!h.sprites[0].visible && !h.sprites[1].visible);
    assert_eq!(h.on_key_down(GameKey::Space, &no_cast()), None);
    assert!(h.sprites[1].visible);
    assert_eq!(h.on_key_down(GameKey::F4, &no_cast()), Some(Scene::Yard));
    assert_eq!(h.on_key_down(GameKey::Left, &no_cast()), None);
    assert_eq!(h.junk_pile, 6);
    assert!(h.sprites.is_empty());
    assert_eq!(h.on_key_down(GameKey::Right, &no_cast()), None);
    assert_eq!(h.junk_pile, 1);
}

#[test]
fn drag_input_without_parts_does_nothing() {
    let mut h = bare(Scene::Garage);
    assert!(matches!(h.process_drag(10, 10, true), DropResult::Nothing));
    assert!(matches!(h.process_drag(10, 10, false), DropResult::Nothing));
}

#[test]
fn ascii_case_and_replace_helpers() {
    assert!(eq_ignore_ascii_case("POINT", "point"));
    assert!(eq_ignore_ascii_case("PoInT", "pOiNt"));
    assert!(!eq_ignore_ascii_case("points", "point"));
    assert!(!eq_ignore_ascii_case("Ä", "ä"));
    assert_eq!(replace_str("mulleMenuMouth", "Mouth", "Head"), "mulleMenuHead");
    assert_eq!(replace_str("MouthMouth", "Mouth", "Head"), "HeadHead");
    assert_eq!(replace_str("aaa", "aa", "b"), "ba");
    assert_eq!(replace_str("judge", "Mouth", "Head"), "judge");
}

#[test]
fn game_sprites_per_scene() {
    let mut car = BuildCar::new(0, 0);
    car.part_sprites.push(PlacedPartSprite {
        part_id: 1,
        fg_sprite: Some(sprite("car:fg", 0, 0, 5, 1, true)),
        bg_sprite: Some(sprite("car:bg", 0, 0, -1, 1, true)),
        layer: "a".to_string(),
    });
    let layer = vec![sprite("map_obj", 0, 0, 501, 0, true), sprite("drive_car", 0, 0, 1000, 0, true)];

    let mut g = bare(Scene::Garage);
    g.sprites.push(sprite("bg", 0, 0, 0, 1, true));
    g.sprites.push(sprite("top", 0, 0, 9, 2, true));
    let names: Vec<String> = get_all_sprites(&g, &car, layer.iter().map(|s| s.duplicate()).collect())
        .into_iter().map(|s| s.name).collect();
    assert_eq!(names, vec!["car:bg", "bg", "car:fg@a", "top"]);

    let mut w = bare(Scene::World);
    w.sprites.push(sprite("map", 0, 0, 0, 1, true));
    let names: Vec<String> = get_all_sprites(&w, &car, layer.iter().map(|s| s.duplicate()).collect())
        .into_iter().map(|s| s.name).collect();
    assert_eq!(names, vec!["map", "map_obj", "drive_car"]);

    let mut m = bare(Scene::Menu);
    m.sprites.push(sprite("menu", 0, 0, 0, 1, true));
    let names: Vec<String> = get_all_sprites(&m, &car, layer).into_iter().map(|s| s.name).collect();
    assert_eq!(names, vec!["menu"]);
}

fn image(w: u32, h: u32, v: u8) -> DecodedImage {
    DecodedImage { width: w, height: h, pixels: vec![v; (w * h * 4) as usize] }
}

fn bitmap_member(num: u32, name: &str, w: u16, h: u16, reg: i16) -> CastMember {
    CastMember {
        num,
        name: name.to_string(),
        is_bitmap: true,
        info: Some(BitmapInfo { width: w, height: h, reg_x: reg, reg_y: reg }),
        image: Some(image(w as u32, h as u32, 1)),
        transparent: Some(image(w as u32, h as u32, 2)),
    }
}

#[test]
fn garage_filled_from_its_cast() {
    let store = CastStore {
        files: vec![
            CastFile {
                name: "03.DXR".to_string(),
                members: vec![
                    bitmap_member(33, "garage", 640, 480, 0),
                    bitmap_member(34, "door", 40, 80, 10),
                    bitmap_member(35, "door hover", 42, 82, 10),
                    bitmap_member(81, "figge 1", 20, 20, 5),
                ],
            },
            CastFile { name: "00.CXT".to_string(), members: vec![bitmap_member(271, "mulle", 30, 60, 15)] },
        ],
    };
    let h = SceneHandler::new(Scene::Garage, &store, false);
    assert_eq!(h.sprites.len(), 1);
    assert_eq!(h.sprites[0].name, "bg#33");
    assert_eq!((h.sprites[0].x, h.sprites[0].y, h.sprites[0].z_order), (320, 240, 0));
    assert_eq!(h.sprites[0].pixels[0], 1);
    // Only the junkyard door decodes; its hover image too
    assert_eq!(h.buttons.len(), 1);
    let b = &h.buttons[0];
    assert_eq!(b.name, "Tür → Schrottplatz");
    assert_eq!((b.x, b.y, b.width, b.height), (310, 230, 40, 80));
    assert_eq!((b.hover_width, b.hover_height), (42, 82));
    assert_eq!(b.default_pixels[0], 2);
    assert_eq!(b.target, Some(Scene::Junkyard));
    assert_eq!(b.sound_default.as_deref(), Some("02e015v0"));
    assert_eq!(b.sound_hover.as_deref(), Some("02e016v0"));
    assert_eq!(h.drag_drop.drop_targets.len(), 1);
    assert_eq!(h.drag_drop.drop_targets[0].id, "door_junk");
    assert_eq!((h.drag_drop.drop_targets[0].x, h.drag_drop.drop_targets[0].width), (310, 40));
    // Mulle: idle has its frame, placed by its registration point
    let mulle = &h.actors[0];
    assert_eq!(mulle.animations.len(), 5);
    assert_eq!(mulle.animations[0].frames.len(), 1);
    assert_eq!(mulle.animations[0].frames[0].reg_x, 15);
    assert_eq!(mulle.animations[3].frames.len(), 1);
    assert_eq!(mulle.active_anim, 0);
    let s = mulle.current_sprite().unwrap();
    assert_eq!((s.x, s.y), (103, 173));
    // Figge: hidden, the first frame of his entrance decoded
    let figge = &h.actors[1];
    assert!(!figge.visible);
    assert_eq!(figge.animations[0].frames.len(), 1);
    assert_eq!(figge.talk_anim.as_deref(), Some("talk"));
    assert_eq!(figge.silence_anim.as_deref(), Some("entered"));
}

#[test]
fn junk_piles_from_their_cast() {
    let mut arrows = vec![bitmap_member(10, "02b002v0", 640, 480, 0), bitmap_member(11, "big", 700, 500, 0)];
    arrows.push(bitmap_member(164, "right", 30, 30, 0));
    arrows.push(bitmap_member(176, "left", 30, 30, 0));
    let store = CastStore { files: vec![CastFile { name: "02.CXT".to_string(), members: arrows }] };
    let mut h = SceneHandler::new(Scene::Junkyard, &store, false);
    // Pile 1's background is not there: the largest bitmap is used
    assert_eq!(h.sprites[0].name, "bg#11");
    assert!(h.buttons.is_empty());
    assert_eq!(h.drag_drop.drop_rects.len(), 3);
    // Pile 2: background by name, both arrows as buttons and drop targets
    h.buttons.push(button("\u{2192} Haufen 2", 10, 0, 0, None, 5));
    assert_eq!(h.on_click(5, 5, &store), None);
    assert_eq!(h.junk_pile, 2);
    assert_eq!(h.sprites[0].name, "bg#10");
    let names: Vec<&str> = h.buttons.iter().map(|b| b.name.as_str()).collect();
    assert_eq!(names, vec!["\u{2192} Haufen 3", "\u{2190} Haufen 1"]);
    let ids: Vec<&str> = h.drag_drop.drop_targets.iter().map(|t| t.id.as_str()).collect();
    assert_eq!(ids, vec!["arrow_right_3", "arrow_left_1"]);
}

#[test]
fn yard_and_destinations_by_layout() {
    let yard = SceneHandler::new(Scene::Yard, &no_cast(), true);
    assert_eq!(yard.hotspots.len(), 1);
    assert_eq!(yard.hotspots[0].target, Some(Scene::World));
    let no_car = SceneHandler::new(Scene::Yard, &no_cast(), false);
    assert!(no_car.hotspots.is_empty());
    let solhem = SceneHandler::new(Scene::Destination(86), &no_cast(), false);
    let names: Vec<&str> = solhem.actors.iter().map(|a| a.name.as_str()).collect();
    assert_eq!(names, vec!["miaBody", "miaHead", "cat", "mulleDefault"]);
    assert_eq!((solhem.actors[3].x, solhem.actors[3].y), (350, 398));
    assert_eq!(solhem.actors[3].talk_anim.as_deref(), Some("talkRegular"));
    assert_eq!(solhem.hotspots[0].name, "← Weltkarte");
    let show = SceneHandler::new_with_rating(Scene::Destination(94), &no_cast(), false, 3);
    assert_eq!(show.actors[0].name, "judge");
    assert_eq!(show.actors.len(), 3);
    let boot = SceneHandler::new(Scene::Boot, &no_cast(), false);
    assert_eq!(boot.hotspots[0].target, Some(Scene::Garage));
    let menu = SceneHandler::new(Scene::Menu, &no_cast(), false);
    assert_eq!(menu.actors[1].name, "mulleMenuMouth");
}
