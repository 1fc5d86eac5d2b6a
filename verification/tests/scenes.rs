use openwilly::scene::{transition_cutscene, CutsceneMember, Scene};
use openwilly::cast::{BitmapInfo, CastFile, CastMember, CastStore, DecodedImage};
use openwilly::scenes::{Actor, ActorEvent, AnimFrame, Animation, MulleButton};

fn member(num: u32, w: u16, h: u16, reg_x: i16, reg_y: i16, v: u8) -> CastMember {
    let img = || DecodedImage { width: w as u32, height: h as u32, pixels: vec![v; w as usize * h as usize * 4] };
    CastMember {
        num,
        name: format!("m{}", num),
        is_bitmap: true,
        info: Some(BitmapInfo { width: w, height: h, reg_x, reg_y }),
        image: Some(img()),
        transparent: Some(img()),
    }
}

fn cast(members: Vec<CastMember>) -> CastStore {
    CastStore { files: vec![CastFile { name: "t.DXR".to_string(), members }] }
}

fn frame(reg: i32) -> AnimFrame {
    AnimFrame { width: 2, height: 3, pixels: vec![7; 24], reg_x: reg, reg_y: reg }
}

#[test]
fn animation_timing_and_finish() {
    let mut a = Animation::new("walk", 10, false);
    assert_eq!(a.ticks_per_frame, 3);
    assert!(!a.tick());
    a.frames.push(frame(0));
    a.frames.push(frame(0));
    a.play();
    assert!(!a.tick());
    assert!(!a.tick());
    assert!(a.tick());
    assert_eq!(a.current_frame, 1);
    a.tick();
    a.tick();
    assert!(a.tick());
    assert_eq!(a.current_frame, 1);
    assert!(!a.playing);
    assert!(a.finished);
    assert!(a.current_pixels().is_some());

    let slow = Animation::new("slow", 60, true);
    assert_eq!(slow.ticks_per_frame, 1);
    let still = Animation::new("still", 0, true);
    assert_eq!(still.ticks_per_frame, 1);
}

#[test]
fn looping_animation_wraps() {
    let mut a = Animation::new("idle", 30, true);
    a.frames.push(frame(0));
    a.frames.push(frame(0));
    a.play();
    assert!(a.tick());
    assert!(a.tick());
    assert_eq!(a.current_frame, 0);
    assert!(a.playing);
}

#[test]
fn actor_plays_and_reports_finish() {
    let store = cast(vec![member(1, 2, 3, 1, 1, 7), member(2, 2, 3, 2, 2, 7)]);
    let mut actor = Actor::new("judge", 100, 50, 20);
    actor.add_animation("idle", &[("t.DXR", 1)], 10, true, &store);
    actor.add_animation("raise", &[("t.DXR", 1), ("t.DXR", 9), ("t.DXR", 2)], 30, false, &store);
    assert_eq!(actor.animations[1].frames.len(), 2);
    actor.play("raise");
    assert_eq!(actor.active_anim, 1);
    assert!(actor.tick().is_none());
    match actor.tick() {
        Some(ActorEvent::AnimationFinished { actor_name, anim_name }) => {
            assert_eq!(actor_name, "judge");
            assert_eq!(anim_name, "raise");
        }
        None => panic!("expected the animation to finish"),
    }
    assert!(actor.tick().is_none());
    let s = actor.current_sprite().unwrap();
    assert_eq!((s.x, s.y), (98, 48));
    assert_eq!(s.name, "actor:judge");
    actor.play("missing");
    assert_eq!(actor.active_anim, 1);
}

#[test]
fn actor_lip_sync_cues() {
    let store = cast(vec![member(1, 2, 3, 0, 0, 7)]);
    let mut actor = Actor::new("mulle", 0, 0, 1);
    actor.add_animation("idle", &[("t.DXR", 1)], 10, true, &store);
    actor.add_animation("talk", &[("t.DXR", 1)], 10, true, &store);
    actor.set_talk_anims("talk", "idle");
    actor.on_cue("TALK");
    assert!(actor.is_talking);
    assert_eq!(actor.active_anim, 1);
    actor.on_cue("Silence");
    assert!(!actor.is_talking);
    assert_eq!(actor.active_anim, 0);
    actor.on_cue("point");
    assert!(!actor.is_talking);
    actor.on_lower_cue("talk");
    assert!(actor.is_talking);
    actor.on_lower_cue("SILENCE");
    assert!(actor.is_talking);
    actor.on_lower_cue("silence");
    assert!(!actor.is_talking);
}

#[test]
fn button_hit_and_hover_image() {
    let store = cast(vec![member(5, 10, 5, 3, 4, 1), member(6, 12, 6, 0, 0, 2)]);
    let mut btn = MulleButton::new("Door", "t.DXR", 5, Some(6), 320, 240, Some(Scene::Yard), 5, &store).unwrap();
    assert_eq!(btn.hover_width, 12);
    assert!(MulleButton::new("Door", "t.DXR", 7, Some(6), 320, 240, None, 5, &store).is_none());
    let plain = MulleButton::new("Door", "t.DXR", 5, Some(8), 320, 240, None, 5, &store).unwrap();
    assert!(plain.hover_pixels.is_none() && plain.hover_width == 0);
    assert_eq!((btn.x, btn.y), (317, 236));
    assert!(btn.hit_test(317, 236));
    assert!(!btn.hit_test(327, 236));
    assert_eq!(btn.as_sprite().width, 10);
    btn.hovered = true;
    let s = btn.as_sprite();
    assert_eq!(s.width, 12);
    assert_eq!(s.name, "btn:Door");
    btn.visible = false;
    assert!(!btn.hit_test(317, 236));
}

#[test]
fn scene_files_and_cutscenes() {
    assert_eq!(Scene::Garage.director_file(), "03.DXR");
    assert_eq!(Scene::Destination(92).director_file(), "92.CXT");
    assert_eq!(Scene::Destination(7).director_file(), "00.CXT");
    assert!(matches!(transition_cutscene(&Scene::Yard, &Scene::Garage, true), Some(CutsceneMember::Named("00b015v0"))));
    assert!(matches!(transition_cutscene(&Scene::Garage, &Scene::Yard, false), Some(CutsceneMember::Number(68))));
    assert!(matches!(transition_cutscene(&Scene::World, &Scene::Destination(85), true), Some(CutsceneMember::Named("00b008v0"))));
    assert!(transition_cutscene(&Scene::Garage, &Scene::CarShow, true).is_none());
}

#[test]
fn non_looping_animation_finishes_once_after_all_frames() {
    // three frames of two ticks each: playing for five ticks, finished on the sixth
    let mut a = Animation::new("wave", 15, false);
    a.frames.push(frame(0));
    a.frames.push(frame(0));
    a.frames.push(frame(0));
    a.play();
    for _ in 0..5 {
        a.tick();
        assert!(a.playing && !a.finished);
    }
    assert!(a.tick());
    assert!(a.finished && !a.playing);
    assert_eq!(a.current_frame, 2);
    for _ in 0..4 {
        assert!(!a.tick());
        assert!(a.finished);
        assert_eq!(a.current_frame, 2);
    }
}
