use openwilly::drag_drop::DropResult;
use openwilly::game_rules::{drop_plan, part_flag, DropPlan};
use openwilly::parts_db::PartsDB;
use openwilly::scene::Scene;
use openwilly::scene_flow::{apply_frame, apply_switch, frame_plan, route_click, ClickRoute, FlowState, FramePlan};
use openwilly::sprite::Bitmap;
use openwilly::toolbox::{PopupAction, SpriteData, Toolbox};
use openwilly::transition::{Transition, BLACK, TRANSITION_FRAMES};

fn parts() -> PartsDB {
    let text = r#"{"7": {"partId": 7, "description": "20d007v0", "Properties": {"Weight": 5}},
                   "9": {"partId": 9, "Properties": {"Weight": 2}}}"#;
    PartsDB::load(text).expect("a JSON object")
}

#[test]
fn attach_in_garage_uses_morph_and_sets_part_flag() {
    let db = parts();
    let r = DropResult::Attached { part_id: 9, morph_id: Some(7), point_id: "a1".to_string() };
    assert_eq!(
        drop_plan(Scene::Garage, &r, &db),
        DropPlan::Attach { attach_id: 7, dragged_id: 9, flag: "#Part7".to_string(), sound: "03e003v2" }
    );
    let r = DropResult::Attached { part_id: 9, morph_id: None, point_id: "a1".to_string() };
    assert_eq!(
        drop_plan(Scene::Garage, &r, &db),
        DropPlan::Attach { attach_id: 9, dragged_id: 9, flag: "#Part9".to_string(), sound: "03e003v1" }
    );
    assert_eq!(drop_plan(Scene::Yard, &r, &db), DropPlan::Nothing);
}

#[test]
fn drop_on_target_stores_part() {
    let db = parts();
    let r = DropResult::DroppedOnTarget { part_id: 9, target_id: "door_yard".to_string() };
    assert_eq!(drop_plan(Scene::Junkyard, &r, &db), DropPlan::Store { part_id: 9, target: "door_yard".to_string() });
}

#[test]
fn put_down_in_garage_plays_description_else_floor_sound() {
    let db = parts();
    let r = DropResult::Dropped { part_id: 7 };
    assert_eq!(drop_plan(Scene::Garage, &r, &db), DropPlan::Describe { dialog: "20d007v0".to_string() });
    assert_eq!(drop_plan(Scene::Yard, &r, &db), DropPlan::Floor { sound: "00e003v0" });
    let r = DropResult::Dropped { part_id: 9 };
    assert_eq!(drop_plan(Scene::Garage, &r, &db), DropPlan::Floor { sound: "00e002v0" });
    let r = DropResult::Dropped { part_id: 42 };
    assert_eq!(drop_plan(Scene::Garage, &r, &db), DropPlan::Floor { sound: "00e001v0" });
    assert_eq!(drop_plan(Scene::Garage, &DropResult::Nothing, &db), DropPlan::Nothing);
}

#[test]
fn part_flag_names_the_part() {
    assert_eq!(part_flag(0), "#Part0");
    assert_eq!(part_flag(173), "#Part173");
}

fn data(x: i32, y: i32, w: u32, h: u32) -> SpriteData {
    SpriteData { x, y, width: w, height: h, pixels: vec![1; (w * h * 4) as usize], member_num: 97 }
}

#[test]
fn clicks_are_routed_in_order() {
    let mut tb = Toolbox::new(Some(data(659, 439, 40, 30)), Some(data(0, 0, 600, 400)));
    let closed = Some(Toolbox::new(Some(data(659, 439, 40, 30)), Some(data(0, 0, 600, 400))));
    assert_eq!(route_click(true, Scene::World, &closed, 660, 440), ClickRoute::DevMenu);
    assert_eq!(route_click(false, Scene::World, &closed, 660, 440), ClickRoute::ToolboxIcon);
    assert_eq!(route_click(false, Scene::World, &closed, 100, 100), ClickRoute::Scene);
    tb.toggle();
    let open = Some(tb);
    assert_eq!(route_click(false, Scene::World, &open, 20 + 220, 40 + 80), ClickRoute::Popup(Some(PopupAction::Home)));
    assert_eq!(route_click(false, Scene::World, &open, 660, 440), ClickRoute::Popup(None));
    assert_eq!(route_click(false, Scene::Yard, &open, 660, 440), ClickRoute::Scene);
    assert_eq!(route_click(false, Scene::Menu, &None, 100, 450), ClickRoute::Language);
    assert_eq!(route_click(false, Scene::Menu, &None, 180, 450), ClickRoute::Scene);
    assert_eq!(route_click(false, Scene::Garage, &None, 100, 450), ClickRoute::Scene);
}

#[test]
fn frame_counts_down_transition_then_switches() {
    let p = frame_plan(Scene::Garage, Some((2, Scene::Yard)));
    assert_eq!(p, FramePlan { transition_left: Some(1), switch_to: None, advance: false, part_physics: false, drive: false });
    let p = frame_plan(Scene::Garage, Some((1, Scene::Yard)));
    assert_eq!(p, FramePlan { transition_left: None, switch_to: Some(Scene::Yard), advance: false, part_physics: false, drive: false });
    let p = frame_plan(Scene::Garage, Some((0, Scene::World)));
    assert_eq!(p.switch_to, Some(Scene::World));
}

#[test]
fn frame_advances_scene_physics_and_driving() {
    let p = frame_plan(Scene::Garage, None);
    assert_eq!(p, FramePlan { transition_left: None, switch_to: None, advance: true, part_physics: true, drive: false });
    assert!(frame_plan(Scene::Yard, None).part_physics);
    let w = frame_plan(Scene::World, None);
    assert!(w.drive && !w.part_physics && w.advance);
    let m = frame_plan(Scene::Menu, None);
    assert!(!m.drive && !m.part_physics && m.advance);
}

#[test]
fn transition_cutscene_centered_over_black() {
    let bmp = Bitmap { width: 2, height: 1, pixels: vec![0x12, 0x34, 0x56, 0xFF, 0x99, 0x99, 0x99, 0], reg_x: 0, reg_y: 0 };
    let t = Transition::new(bmp, Scene::Yard);
    assert_eq!((t.x, t.y), (319, 239));
    assert_eq!(t.frames_left, TRANSITION_FRAMES);
    assert_eq!(t.target, Scene::Yard);
    let mut fb = vec![0xFFFFFFFFu32; 640 * 480 + 3];
    t.draw(&mut fb);
    assert_eq!(fb[239 * 640 + 319], 0xFF123456);
    assert_eq!(fb[239 * 640 + 320], BLACK);
    assert_eq!(fb[0], BLACK);
    assert_eq!(fb[640 * 480 + 2], BLACK);
    assert_eq!(fb.iter().filter(|&&p| p != BLACK).count(), 1);
}

#[test]
fn blocked_world_switch_stays_in_garage() {
    let s = FlowState { scene: Scene::Garage, driving: false, transition: None };
    let r = apply_switch(&s, Scene::World, false, true);
    assert_eq!(r.scene, Scene::Garage);
    assert!(!r.driving);
    let r = apply_switch(&s, Scene::World, true, true);
    assert_eq!(r.scene, Scene::World);
    assert!(r.driving);
}

#[test]
fn cutscene_switch_then_frames_run_it_out() {
    let s = FlowState { scene: Scene::Garage, driving: false, transition: None };
    let r = apply_switch(&s, Scene::Yard, true, true);
    assert_eq!(r.scene, Scene::Yard);
    assert_eq!(r.transition, Some((TRANSITION_FRAMES, Scene::Yard)));
    let mut st = r;
    for _ in 0..TRANSITION_FRAMES {
        st = apply_frame(&st, true);
        assert_eq!(st.scene, Scene::Yard);
    }
    assert_eq!(st.transition, None);
    // without the image the switch happens at once
    let r = apply_switch(&s, Scene::Yard, true, false);
    assert_eq!((r.scene, r.transition), (Scene::Yard, None));
}

#[test]
fn leaving_world_parks_car() {
    let s = FlowState { scene: Scene::World, driving: true, transition: None };
    let r = apply_switch(&s, Scene::Yard, true, false);
    assert_eq!(r.scene, Scene::Yard);
    assert!(!r.driving);
}
