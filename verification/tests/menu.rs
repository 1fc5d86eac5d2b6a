use openwilly::menu::NameEntry;
use openwilly::scene::Scene;

fn names(v: &[&str]) -> Vec<String> {
    v.iter().map(|s| s.to_string()).collect()
}

#[test]
fn typing_and_backspace() {
    let mut e = NameEntry::new(Vec::new());
    for c in "Mulle".chars() {
        e.on_char_input(c);
    }
    assert_eq!(e.input_text(), "Mulle");
    e.on_char_input('\x08');
    assert_eq!(e.input_text(), "Mull");
    e.on_char_input('\n');
    e.on_char_input('\u{e4}');
    assert_eq!(e.input_text(), "Mull");
    let mut empty = NameEntry::new(Vec::new());
    empty.on_char_input('\x08');
    assert_eq!(empty.input_text(), "");
}

#[test]
fn name_field_holds_twenty_characters() {
    let mut e = NameEntry::new(Vec::new());
    for _ in 0..25 {
        e.on_char_input('x');
    }
    assert_eq!(e.input_text().len(), 20);
}

#[test]
fn enter_uses_trimmed_name_and_remembers_it() {
    let mut e = NameEntry::new(names(&["Bob"]));
    for c in "  Anna ".chars() {
        e.on_char_input(c);
    }
    assert_eq!(e.effective_name(), "Anna");
    assert_eq!(e.on_enter(), Some(Scene::Garage));
    assert_eq!(e.saved_names(), &names(&["Bob", "Anna"])[..]);
    // starting again does not add a second entry
    assert_eq!(e.on_enter(), Some(Scene::Garage));
    assert_eq!(e.saved_names().len(), 2);
}

#[test]
fn enter_without_name_does_nothing() {
    let mut e = NameEntry::new(names(&["Bob"]));
    e.on_char_input(' ');
    assert_eq!(e.effective_name(), "");
    assert_eq!(e.on_enter(), None);
    assert_eq!(e.saved_names().len(), 1);
}

#[test]
fn list_click_picks_name_and_play_starts() {
    let mut e = NameEntry::new(names(&["Bob", "Anna"]));
    e.on_char_input('z');
    // second list entry: y in 85..110
    assert_eq!(e.menu_click(400, 90), None);
    assert_eq!(e.selected_name(), Some(1));
    assert_eq!(e.input_text(), "");
    assert_eq!(e.effective_name(), "Anna");
    // a click below the last entry picks nothing
    assert_eq!(e.menu_click(400, 200), None);
    assert_eq!(e.selected_name(), Some(1));
    // Play
    assert_eq!(e.menu_click(360, 240), Some(Scene::Garage));
    assert_eq!(e.saved_names().len(), 2);
}

#[test]
fn delete_removes_picked_name() {
    let mut e = NameEntry::new(names(&["Bob", "Anna"]));
    assert_eq!(e.menu_click(400, 65), None);
    assert_eq!(e.selected_name(), Some(0));
    assert_eq!(e.menu_click(500, 240), None);
    assert_eq!(e.saved_names(), &names(&["Anna"])[..]);
    assert_eq!(e.selected_name(), None);
    // nothing picked: delete does nothing
    assert_eq!(e.menu_click(500, 240), None);
    assert_eq!(e.saved_names().len(), 1);
    // play with no name does nothing
    assert_eq!(e.menu_click(360, 240), None);
}
