use openwilly::i18n::{t, Language};

#[test]
fn all_german_keys_have_english() {
    let keys = [
        "pause_title", "menu_resume", "menu_fullscreen", "menu_detail_noise",
        "menu_quit", "pause_hint", "lang_label", "road_legal", "not_road_legal",
        "dev_title", "dev_hint", "dev_infinite_fuel", "dev_noclip",
        "dev_hitboxes", "dev_skip_dialog", "dev_meme", "dev_detail_noise",
        "dev_goto_garage", "dev_goto_yard", "dev_goto_world",
        "dev_goto_carshow", "dev_goto_junkyard", "dev_refuel",
        "dev_figge", "dev_close",
    ];
    for key in &keys {
        let de = t(Language::German, key);
        let en = t(Language::English, key);
        assert_ne!(de, *key, "German missing for '{}'", key);
        assert_ne!(en, *key, "English missing for '{}'", key);
    }
}

#[test]
fn language_cycle() {
    assert_eq!(Language::German.next(), Language::English);
    assert_eq!(Language::English.next(), Language::German);
}

// ---------------------------------------------------------------------------

#[test]
fn translations_and_fallback() {
    assert_eq!(t(Language::German, "pause_title"), "= PAUSE =");
    assert_eq!(t(Language::English, "pause_title"), "= PAUSED =");
    assert_eq!(t(Language::English, "nonexistent"), "???");
    assert_eq!(Language::German.code(), "DE");
    assert_eq!(Language::English.code(), "EN");
}
