use openwilly::dev_menu::{darken, handle_dev_action, DevAction, DevMenu, DevOutcome, DrawCmd};
use openwilly::save::{SaveManager, UsersDB};
use openwilly::scene::Scene;

#[test]
fn five_quick_presses_toggle_menu() {
    let mut m = DevMenu::new();
    for t in [0u64, 100, 200, 300] {
        assert!(!m.on_hash_press(t));
    }
    assert!(m.on_hash_press(400));
    assert!(m.open);
    assert!(m.hash_times.is_empty());
    // Slow presses never add up
    for t in [10_000u64, 12_500, 15_000, 17_500, 20_000] {
        assert!(!m.on_hash_press(t));
    }
    assert!(m.open);
    assert_eq!(m.hash_times, vec![20_000]);
}

#[test]
fn navigation_and_activation() {
    let mut m = DevMenu::new();
    m.open = true;
    m.nav_up();
    assert_eq!(m.selected, 0);
    assert_eq!(m.activate(), DevAction::Nothing);
    assert!(m.infinite_fuel);
    for _ in 0..20 {
        m.nav_down();
    }
    assert_eq!(m.selected, 13);
    assert_eq!(m.activate(), DevAction::Close);
    assert!(!m.open);
    m.open = true;
    m.selected = 8;
    assert_eq!(m.activate(), DevAction::GotoScene(Scene::World));
    assert!(!m.open);
}

#[test]
fn click_selects_row() {
    let mut m = DevMenu::new();
    m.open = true;
    // Row 11 ("Tank auffuellen") spans y 343..365
    assert_eq!(m.on_click(200, 350), DevAction::RefuelTank);
    assert_eq!(m.selected, 11);
    m.open = true;
    assert_eq!(m.on_click(10, 350), DevAction::Nothing);
    assert_eq!(m.on_click(200, 100), DevAction::Nothing);
    assert_eq!(m.on_click(200, 101), DevAction::Nothing);
    assert!(m.infinite_fuel);
}

#[test]
fn rows_and_drawing() {
    let mut m = DevMenu::new();
    assert!(m.draw_commands(96).is_empty());
    m.open = true;
    m.noclip = true;
    assert_eq!(m.item_text(0), "> Unendlich Benzin [OFF]");
    assert_eq!(m.item_text(1), "  Noclip (durch Waende) [ON]");
    assert_eq!(m.item_text(7), "  -> Hof");
    assert_eq!(m.item_color_of(1), 0xFF00FF88);
    assert_eq!(m.item_color_of(7), 0xFFFFCC44);
    let cmds = m.draw_commands(96);
    assert!(matches!(cmds[0], DrawCmd::Darken));
    assert!(matches!(&cmds[4], DrawCmd::TextShadow { x: 272, y: 75, .. }));
    // head (5) + rows (14 texts, 1 highlight, 3 dividers) + footer
    assert_eq!(cmds.len(), 5 + 14 + 1 + 3 + 1);
    assert_eq!(DevMenu::layout(), (160, 61, 320, 358, 22));
}

#[test]
fn drawing_darkens_then_leaves_the_rest() {
    let mut m = DevMenu::new();
    let mut fb = vec![0xFF336699u32, 0x00FFFFFF];
    assert!(m.draw(&mut fb, 96).is_empty());
    assert_eq!(fb, vec![0xFF336699u32, 0x00FFFFFF]);
    m.open = true;
    let rest = m.draw(&mut fb, 96);
    assert_eq!(fb, vec![0xFF112233u32, 0xFF555555]);
    assert_eq!(rest.len(), m.draw_commands(96).len() - 1);
    assert!(matches!(rest[0], DrawCmd::Rect { x: 160, y: 61, .. }));
}

#[test]
fn darken_divides_channels() {
    let mut fb = vec![0x00_96_4B_1Eu32, 0xFF_FF_FF_FF];
    darken(&mut fb);
    assert_eq!(fb, vec![0xFF_32_19_0A, 0xFF_55_55_55]);
}

#[test]
fn dev_actions_carried_out() {
    let mut save = SaveManager::new(UsersDB::new());
    save.login("P");
    assert_eq!(handle_dev_action(DevAction::Nothing, &mut save), DevOutcome::Stay);
    assert_eq!(handle_dev_action(DevAction::Close, &mut save), DevOutcome::Stay);
    assert_eq!(handle_dev_action(DevAction::GotoScene(Scene::World), &mut save), DevOutcome::GoTo(Scene::World));
    assert_eq!(handle_dev_action(DevAction::RefuelTank, &mut save), DevOutcome::Refuel);
    assert!(!save.has_stuff("#FiggeIsComing"));
    assert_eq!(handle_dev_action(DevAction::TriggerFigge, &mut save), DevOutcome::GoTo(Scene::Garage));
    assert!(save.has_stuff("#FiggeIsComing"));
}
