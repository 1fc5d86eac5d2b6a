use openwilly::scene_script::{
    build_carshow_script, build_destination_script, build_figge_script, build_menu_script, carshow_rating,
    Action, Condition, SceneScript, ScriptContext, ScriptRequest, ScriptStep,
};

fn empty_ctx() -> ScriptContext<'static> {
    ScriptContext {
        cache: &[],
        permanent: &[],
        car_parts: &[],
    }
}

#[test]
fn road_dog_linear() {
    let mut script = build_destination_script(85).unwrap();
    let ctx = empty_ctx();

    let reqs = script.advance(&ctx);
    // First request: Talk
    assert!(reqs.iter().any(|r| matches!(r, ScriptRequest::Talk { audio_id, .. } if audio_id == "85d002v0")));
    // Script should be waiting for dialog
    assert!(script.is_waiting());

    // Signal dialog finished
    script.on_dialog_finished("85d002v0");
    assert!(!script.is_waiting());

    // Advance — should set cache flags, delay, and eventually leave
    let reqs = script.advance(&ctx);
    assert!(reqs.iter().any(|r| matches!(r, ScriptRequest::SetCache(f) if f == "#GotDogOnce")));
    assert!(reqs.iter().any(|r| matches!(r, ScriptRequest::SetCache(f) if f == "#Dog")));
    // Now waiting for delay
    assert!(script.is_waiting());

    script.tick(500);
    let reqs = script.advance(&ctx);
    assert!(reqs.iter().any(|r| matches!(r, ScriptRequest::LeaveToWorld)));
    assert!(script.finished);
}

#[test]
fn figge_no_dog() {
    let mut script = build_destination_script(92).unwrap();
    let ctx = empty_ctx(); // no #Dog, no #ExtraTank

    let reqs = script.advance(&ctx);
    // Should start with Figge's dialog (92d002v0)
    assert!(reqs.iter().any(|r| matches!(r, ScriptRequest::Talk { audio_id, .. } if audio_id == "92d002v0")));

    script.on_dialog_finished("92d002v0");
    let reqs = script.advance(&ctx);
    // No dog → 92d003v0
    assert!(reqs.iter().any(|r| matches!(r, ScriptRequest::Talk { audio_id, .. } if audio_id == "92d003v0")));
}

#[test]
fn figge_with_dog() {
    let mut script = build_destination_script(92).unwrap();
    let cache = vec!["#Dog".to_string()];
    let ctx = ScriptContext {
        cache: &cache,
        permanent: &[],
        car_parts: &[],
    };

    let reqs = script.advance(&ctx);
    // First: Figge's dialog
    assert!(reqs.iter().any(|r| matches!(r, ScriptRequest::Talk { audio_id, .. } if audio_id == "92d002v0")));
    script.on_dialog_finished("92d002v0");

    let reqs = script.advance(&ctx);
    // Has dog → jumps to has_dog → 92d004v0
    assert!(reqs.iter().any(|r| matches!(r, ScriptRequest::Talk { audio_id, .. } if audio_id == "92d004v0")));
}

#[test]
fn figge_revisit() {
    let mut script = build_destination_script(92).unwrap();
    let cache = vec!["#ExtraTank".to_string()];
    let ctx = ScriptContext {
        cache: &cache,
        permanent: &[],
        car_parts: &[],
    };

    let reqs = script.advance(&ctx);
    // Has #ExtraTank → jumps to revisit → 92d007v0
    assert!(reqs.iter().any(|r| matches!(r, ScriptRequest::Talk { audio_id, .. } if audio_id == "92d007v0")));
}

#[test]
fn saftfabrik_no_tank() {
    let mut script = build_destination_script(87).unwrap();
    let ctx = empty_ctx();

    let reqs = script.advance(&ctx);
    assert!(reqs.iter().any(|r| matches!(r, ScriptRequest::Talk { audio_id, .. } if audio_id == "87d002v0")));
    script.on_dialog_finished("87d002v0");

    let reqs = script.advance(&ctx);
    // No part 172 → 87d003v0
    assert!(reqs.iter().any(|r| matches!(r, ScriptRequest::Talk { audio_id, .. } if audio_id == "87d003v0")));
}

#[test]
fn saftfabrik_with_tank() {
    let mut script = build_destination_script(87).unwrap();
    let ctx = ScriptContext {
        cache: &[],
        permanent: &[],
        car_parts: &[172],
    };

    let reqs = script.advance(&ctx);
    assert!(reqs.iter().any(|r| matches!(r, ScriptRequest::Talk { audio_id, .. } if audio_id == "87d002v0")));
    script.on_dialog_finished("87d002v0");

    let reqs = script.advance(&ctx);
    // Has part 172 → 87d004v0
    assert!(reqs.iter().any(|r| matches!(r, ScriptRequest::Talk { audio_id, .. } if audio_id == "87d004v0")));
}

#[test]
fn sture_with_lemonade() {
    let mut script = build_destination_script(88).unwrap();
    let cache = vec!["#Lemonade".to_string()];
    let ctx = ScriptContext {
        cache: &cache,
        permanent: &[],
        car_parts: &[],
    };

    let reqs = script.advance(&ctx);
    // Has #Lemonade → happy branch → 88d005v0
    assert!(reqs.iter().any(|r| matches!(r, ScriptRequest::Talk { audio_id, .. } if audio_id == "88d005v0")));
}

#[test]
fn solhem_revisit() {
    let mut script = build_destination_script(86).unwrap();
    let perm = vec!["#FerryTicket".to_string()];
    let ctx = ScriptContext {
        cache: &[],
        permanent: &perm,
        car_parts: &[],
    };

    let reqs = script.advance(&ctx);
    // Already has ticket → revisit → 86d007v0
    assert!(reqs.iter().any(|r| matches!(r, ScriptRequest::Talk { audio_id, .. } if audio_id == "86d007v0")));
}

#[test]
fn gas_station_refuels() {
    let mut script = build_destination_script(89).unwrap();
    let ctx = empty_ctx();

    let reqs = script.advance(&ctx);
    assert!(reqs.iter().any(|r| matches!(r, ScriptRequest::Refuel)));
    // Delay active
    assert!(script.is_waiting());
    script.tick(1000);
    let reqs = script.advance(&ctx);
    assert!(reqs.iter().any(|r| matches!(r, ScriptRequest::LeaveToWorld)));
}

#[test]
fn carshow_rating_thresholds() {
    assert_eq!(carshow_rating(0), 1);
    assert_eq!(carshow_rating(1), 1);
    assert_eq!(carshow_rating(2), 2);
    assert_eq!(carshow_rating(3), 3);
    assert_eq!(carshow_rating(4), 3);
    assert_eq!(carshow_rating(5), 4);
    assert_eq!(carshow_rating(6), 4);
    assert_eq!(carshow_rating(7), 5);
    assert_eq!(carshow_rating(10), 5);
}

#[test]
fn carshow_script_sequence() {
    let mut script = build_carshow_script(0); // rating 1 → audio 94d008v0
    let ctx = empty_ctx();

    // Step 1: Judge greeting
    let reqs = script.advance(&ctx);
    assert!(reqs.iter().any(|r| matches!(r, ScriptRequest::Talk { audio_id, .. } if audio_id == "94d003v0")));
    assert!(script.is_waiting());

    script.on_dialog_finished("94d003v0");

    // Step 2: raiseScore animation
    let reqs = script.advance(&ctx);
    assert!(reqs.iter().any(|r| matches!(r, ScriptRequest::PlayAnim { actor_name, anim_name }
        if actor_name == "judge" && anim_name == "raiseScore")));
    assert!(script.is_waiting());

    script.on_anim_finished("judge");

    // Steps 3-5: show score, set talk anims, talk rating
    let reqs = script.advance(&ctx);
    assert!(reqs.iter().any(|r| matches!(r, ScriptRequest::SetActorVisible { actor_name, visible }
        if actor_name == "score" && *visible)));
    assert!(reqs.iter().any(|r| matches!(r, ScriptRequest::SetTalkAnims { actor_name, talk_anim, silence_anim }
        if actor_name == "judge" && talk_anim == "talkScore" && silence_anim == "idleScore")));
    assert!(reqs.iter().any(|r| matches!(r, ScriptRequest::Talk { audio_id, .. } if audio_id == "94d008v0")));

    script.on_dialog_finished("94d008v0");

    // Step 6-7: delay → leave
    let _reqs = script.advance(&ctx);
    assert!(script.is_waiting()); // delay
    script.tick(2000);
    let reqs = script.advance(&ctx);
    assert!(reqs.iter().any(|r| matches!(r, ScriptRequest::LeaveToWorld)));
    assert!(script.finished);
}

#[test]
fn carshow_five_star_audio() {
    let script = build_carshow_script(10); // rating 5 → audio 94d004v0
    // Check that rating 5 uses 94d004v0
    let has_five_star = script.steps.iter().any(|s| matches!(&s.action,
        Action::Talk { audio_id, .. } if audio_id == "94d004v0"));
    assert!(has_five_star);
}

// ---------------------------------------------------------------------------

#[test]
fn waiting_script_does_not_advance() {
    let mut script = build_destination_script(85).unwrap();
    let ctx = empty_ctx();
    let _ = script.advance(&ctx);
    assert!(script.is_waiting());
    let reqs = script.advance(&ctx);
    assert!(reqs.is_empty());
    // A different dialog finishing does not release the wait
    script.on_dialog_finished("00d000v0");
    assert!(script.is_waiting());
}

#[test]
fn finished_script_yields_nothing() {
    let mut script = SceneScript::new(vec![ScriptStep::leave()]);
    let ctx = empty_ctx();
    let reqs = script.advance(&ctx);
    assert_eq!(reqs.len(), 1);
    assert!(script.finished);
    assert!(script.advance(&ctx).is_empty());
}

#[test]
fn branch_jumps_to_last_label() {
    let steps = vec![
        ScriptStep::branch(Condition::Always, "end"),
        ScriptStep::set_cache("#Skipped"),
        ScriptStep::label("end"),
        ScriptStep::set_cache("#Reached"),
    ];
    let mut script = SceneScript::new(steps);
    let reqs = script.advance(&empty_ctx());
    assert!(reqs.iter().any(|r| matches!(r, ScriptRequest::SetCache(f) if f == "#Reached")));
    assert!(!reqs.iter().any(|r| matches!(r, ScriptRequest::SetCache(f) if f == "#Skipped")));
    assert!(script.finished);
}

#[test]
fn unknown_destination_has_no_script() {
    assert!(build_destination_script(81).is_none());
    assert!(build_destination_script(94).is_none());
}

#[test]
fn menu_script_waits_for_jingle() {
    let mut script = build_menu_script(1200);
    let reqs = script.advance(&empty_ctx());
    assert!(!reqs.is_empty());
    assert!(script.is_waiting());
}

#[test]
fn figge_script_starts_with_talk() {
    let script = build_figge_script();
    assert!(script.steps.iter().any(|s| matches!(&s.action, Action::Talk { .. })));
}

#[test]
fn backward_jump_repeats_until_flag() {
    // A loop back over a waiting step: the talk repeats until the flag is set
    let steps = vec![
        ScriptStep::label("again"),
        ScriptStep::talk("50d001v0"),
        ScriptStep::branch(Condition::NotStuff("#Done".to_string()), "again"),
        ScriptStep::set_cache("#After"),
    ];
    let mut script = SceneScript::new(steps);
    let ctx = empty_ctx();
    let reqs = script.advance(&ctx);
    assert_eq!(reqs.len(), 1);
    assert!(script.is_waiting());
    script.on_dialog_finished("50d001v0");
    // Not done: jumps back and talks again
    let reqs = script.advance(&ctx);
    assert!(matches!(&reqs[0], ScriptRequest::Talk { audio_id, .. } if audio_id == "50d001v0"));
    assert_eq!(script.current_step, 2);
    script.on_dialog_finished("50d001v0");
    let done = ["#Done".to_string()];
    let ctx2 = ScriptContext { cache: &[], permanent: &done, car_parts: &[] };
    let reqs = script.advance(&ctx2);
    assert!(matches!(&reqs[0], ScriptRequest::SetCache(f) if f == "#After"));
    assert!(script.finished);
}
