use openwilly::cast::{BitmapInfo, CastFile, CastMember, CastStore, DecodedImage};
use openwilly::dialog::{DialogEvent, QuestState};
use openwilly::save::{SaveManager, UsersDB};
use openwilly::scene::Scene;
use openwilly::scene_handler::SceneHandler;
use openwilly::scene_script::{SceneScript, ScriptRequest};
use openwilly::scenes::{Actor, SceneEvent};
use openwilly::script_run::{apply_request, on_dialog_event, on_scene_event, save_quest_state, ScriptOutput};

fn actor(name: &str) -> Actor {
    let frame = CastMember {
        num: 1,
        name: "frame".to_string(),
        is_bitmap: true,
        info: Some(BitmapInfo { width: 2, height: 2, reg_x: 0, reg_y: 0 }),
        image: None,
        transparent: Some(DecodedImage { width: 2, height: 2, pixels: vec![255; 16] }),
    };
    let store = CastStore { files: vec![CastFile { name: "t.DXR".to_string(), members: vec![frame] }] };
    let mut a = Actor::new(name, 0, 0, 1);
    a.add_animation("idle", &[("t.DXR", 1)], 10, true, &store);
    a.add_animation("talk", &[("t.DXR", 1)], 10, true, &store);
    a.add_animation("wave", &[("t.DXR", 1)], 10, false, &store);
    a.set_talk_anims("talk", "idle");
    a
}

fn setup() -> (SceneHandler, QuestState, SaveManager) {
    let mut h = SceneHandler::new(Scene::Destination(85), &CastStore { files: Vec::new() }, false);
    h.actors.clear();
    h.actors.push(actor("mulleDefault"));
    h.actors.push(actor("dog"));
    let mut save = SaveManager::new(UsersDB::new());
    save.login("P");
    (h, QuestState::new(), save)
}

fn waiting_script() -> SceneScript {
    SceneScript {
        steps: Vec::new(),
        current_step: 0,
        waiting_for_dialog: Some("50d001v0".to_string()),
        waiting_for_anim: Some("dog".to_string()),
        delay_remaining: 0,
        finished: false,
    }
}

#[test]
fn talk_sets_the_talking_actor_unless_skipped() {
    let (mut h, mut q, mut s) = setup();
    let talk = || ScriptRequest::Talk { audio_id: "50d001v0".to_string(), actor_name: Some("mulleDefault".to_string()) };
    match apply_request(talk(), true, &mut h, &mut q, &mut s) {
        ScriptOutput::Done => {}
        _ => panic!("a skipped dialog does nothing"),
    }
    assert!(h.talking_actor.is_none());
    match apply_request(talk(), false, &mut h, &mut q, &mut s) {
        ScriptOutput::Dialog(a) => assert_eq!(a, "50d001v0"),
        _ => panic!("expected the dialog to start"),
    }
    assert_eq!(h.talking_actor.as_deref(), Some("mulleDefault"));
    assert!(h.actors[0].is_talking);
    assert_eq!(h.actors[0].active_anim, 1);
}

#[test]
fn actor_requests_change_the_scene() {
    let (mut h, mut q, mut s) = setup();
    apply_request(ScriptRequest::PlayAnim { actor_name: "dog".to_string(), anim_name: "wave".to_string() }, false, &mut h, &mut q, &mut s);
    assert_eq!(h.actors[1].active_anim, 2);
    apply_request(ScriptRequest::SetActorVisible { actor_name: "dog".to_string(), visible: false }, false, &mut h, &mut q, &mut s);
    assert!(!h.actors[1].visible);
    apply_request(
        ScriptRequest::SetTalkAnims { actor_name: "mulleDefault".to_string(), talk_anim: "wave".to_string(), silence_anim: "idle".to_string() },
        false, &mut h, &mut q, &mut s,
    );
    assert_eq!(h.actors[0].talk_anim.as_deref(), Some("wave"));
}

#[test]
fn flag_and_part_requests_change_quest_and_save() {
    let (mut h, mut q, mut s) = setup();
    apply_request(ScriptRequest::SetCache("#Visited".to_string()), false, &mut h, &mut q, &mut s);
    apply_request(ScriptRequest::SetCache("#Visited".to_string()), false, &mut h, &mut q, &mut s);
    assert_eq!(q.cache, vec!["#Visited".to_string()]);
    apply_request(ScriptRequest::RemoveCache("#Visited".to_string()), false, &mut h, &mut q, &mut s);
    assert!(q.cache.is_empty());
    apply_request(ScriptRequest::SetStuff("#Dog".to_string()), false, &mut h, &mut q, &mut s);
    assert_eq!(q.permanent, vec!["#Dog".to_string()]);
    assert!(s.has_stuff("#Dog"));
    apply_request(ScriptRequest::GivePart(172), false, &mut h, &mut q, &mut s);
    assert!(s.has_yard_part(172));
}

#[test]
fn outside_work_is_handed_back() {
    let (mut h, mut q, mut s) = setup();
    assert!(matches!(apply_request(ScriptRequest::Refuel, false, &mut h, &mut q, &mut s), ScriptOutput::Refuel));
    assert!(matches!(apply_request(ScriptRequest::LeaveToWorld, false, &mut h, &mut q, &mut s), ScriptOutput::Leave));
    match apply_request(ScriptRequest::PlaySound("horn".to_string()), false, &mut h, &mut q, &mut s) {
        ScriptOutput::Sound(id) => assert_eq!(id, "horn"),
        _ => panic!("expected a sound"),
    }
}

#[test]
fn dialog_events_reach_actors_and_script() {
    let (mut h, _q, _s) = setup();
    h.set_talking_actor("mulleDefault");
    let mut script = Some(waiting_script());
    on_dialog_event(&DialogEvent::CuePoint { audio_id: "50d001v0".to_string(), cue_name: "silence".to_string() }, &mut h, &mut script);
    assert!(!h.actors[0].is_talking);
    on_dialog_event(&DialogEvent::QueueEmpty, &mut h, &mut script);
    assert!(script.as_ref().unwrap().waiting_for_dialog.is_some());
    on_dialog_event(&DialogEvent::DialogFinished { audio_id: "other".to_string() }, &mut h, &mut script);
    assert!(script.as_ref().unwrap().waiting_for_dialog.is_some());
    assert!(h.talking_actor.is_none());
    on_dialog_event(&DialogEvent::DialogFinished { audio_id: "50d001v0".to_string() }, &mut h, &mut script);
    assert!(script.as_ref().unwrap().waiting_for_dialog.is_none());
}

#[test]
fn finished_animation_releases_the_script() {
    let mut script = Some(waiting_script());
    on_scene_event(&SceneEvent::ActorAnimFinished { actor_name: "cat".to_string(), anim_name: "x".to_string() }, &mut script);
    assert_eq!(script.as_ref().unwrap().waiting_for_anim.as_deref(), Some("dog"));
    on_scene_event(&SceneEvent::ActorAnimFinished { actor_name: "dog".to_string(), anim_name: "wave".to_string() }, &mut script);
    assert!(script.as_ref().unwrap().waiting_for_anim.is_none());
    let mut none: Option<SceneScript> = None;
    on_scene_event(&SceneEvent::ActorAnimFinished { actor_name: "dog".to_string(), anim_name: "wave".to_string() }, &mut none);
    assert!(none.is_none());
}

#[test]
fn quest_flags_saved_to_the_active_player() {
    let (_h, mut q, mut s) = setup();
    q.add_cache("#Visited");
    q.add_permanent("#Dog");
    save_quest_state(&q, &mut s);
    let u = s.active().unwrap();
    assert_eq!(u.car.cache_list, vec!["#Visited".to_string()]);
    assert_eq!(u.own_stuff, vec!["#Dog".to_string()]);
}
