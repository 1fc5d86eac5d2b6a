use openwilly::dialog::{
    road_legal_hint_sounds, DialogManager, DialogSequence, MissionDB, MissionDelivery, QuestState,
    SubtitleLine,
};

/// Base display time of a line: 1000 * ln(max(len, 2)) ms
fn base_ms(text: &str) -> u32 {
    (1000.0 * (text.len() as f32).max(2.0).ln()) as u32
}

fn line(text: &str, speaker: &str) -> SubtitleLine {
    SubtitleLine::new(text, speaker, base_ms(text))
}

#[test]
fn subtitle_line_duration() {
    let line = line("Hello, this is a test sentence!", "mulle");
    assert!(line.duration_ms >= 500);
    assert!(line.duration_ms < 10000);
}

#[test]
fn subtitle_highlighted_words() {
    let line = line("My {Salka} ran away, find {him} please!", "figge");
    let words = line.highlighted_words();
    assert_eq!(words, vec!["Salka", "him"]);
}

#[test]
fn subtitle_plain_text() {
    let line = line("Find {Salka} now!", "figge");
    assert_eq!(line.plain_text(), "Find Salka now!");
}

#[test]
fn dialog_sequence_advances() {
    let lines = vec![line("Line one", "a"), line("Line two", "a")];
    let mut seq = DialogSequence::new("test", lines);

    assert!(!seq.finished);
    assert_eq!(seq.current_subtitle().unwrap().text, "Line one");

    let d = seq.lines[0].duration_ms;
    seq.advance(d + 1);
    assert_eq!(seq.current_subtitle().unwrap().text, "Line two");

    let d = seq.lines[1].duration_ms;
    seq.advance(d + 1);
    assert!(seq.finished);
    assert!(seq.current_subtitle().is_none());
}

#[test]
fn dialog_manager_queue() {
    let mut mgr = DialogManager::new();
    mgr.set_lines("a", vec![line("First", "x")]);
    mgr.set_lines("b", vec![line("Second", "x")]);

    mgr.talk("a", base_ms("[a]"));
    mgr.talk("b", base_ms("[b]"));

    assert!(mgr.is_talking());
    assert_eq!(mgr.current_subtitle().unwrap().text, "First");

    mgr.skip_current();
    assert!(mgr.is_talking());
    assert_eq!(mgr.current_subtitle().unwrap().text, "Second");

    mgr.skip_current();
    assert!(!mgr.is_talking());
}

#[test]
fn quest_state_cache_flags() {
    let mut qs = QuestState::new();
    assert!(!qs.has_cache("#Dog"));

    qs.add_cache("#Dog");
    assert!(qs.has_cache("#Dog"));

    qs.reset_cache();
    assert!(!qs.has_cache("#Dog"));
}

#[test]
fn quest_state_permanent_flags() {
    let mut qs = QuestState::new();
    qs.add_permanent("#GotDogOnce");
    assert!(qs.has_permanent("#GotDogOnce"));

    qs.reset_cache();
    assert!(qs.has_permanent("#GotDogOnce"));
}

#[test]
fn mission_db_loads() {
    let db = MissionDB::load();
    assert_eq!(db.missions.len(), 8);
    let m1 = db.get(1).unwrap();
    assert_eq!(m1.delivery, MissionDelivery::Telephone);
    let m2 = db.get(2).unwrap();
    assert_eq!(m2.delivery, MissionDelivery::Mail);
    assert!(!m2.image.is_empty());
}

#[test]
fn road_legal_hints() {
    let failures = vec!["engine", "tires", "steering"];
    let sounds = road_legal_hint_sounds(&failures);
    assert_eq!(sounds.len(), 3);
    assert_eq!(sounds[0], "03d040v0");
}

// ---------------------------------------------------------------------------

#[test]
fn subtitle_line_minimum_duration() {
    let short = SubtitleLine::new("Hi", "mulle", 10);
    assert_eq!(short.duration_ms, 500);
    let long = SubtitleLine::new("A long line", "mulle", 2400);
    assert_eq!(long.duration_ms, 2400);
}

#[test]
fn quest_flag_added_once_and_removed() {
    let mut qs = QuestState::new();
    qs.add_cache("#Dog");
    qs.add_cache("#Dog");
    assert_eq!(qs.cache_list().len(), 1);
    qs.add_cache("#Cat");
    qs.remove_cache("#Dog");
    assert!(!qs.has_cache("#Dog"));
    assert!(qs.has_cache("#Cat"));
}

#[test]
fn talk_without_lines_uses_bracketed_id() {
    let mut mgr = DialogManager::new();
    mgr.talk("zz9", base_ms("[zz9]"));
    assert_eq!(mgr.current_subtitle().unwrap().text, "[zz9]");
    mgr.clear();
    assert!(!mgr.is_talking());
}
