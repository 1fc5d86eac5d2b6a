use openwilly::dialog::MissionDB;
use openwilly::save::{SaveManager, UsersDB};
use openwilly::scene::Scene;
use openwilly::scene_entry::{enter_scene, SpawnFrom};

#[test]
fn figge_comes_to_the_garage_once() {
    let missions = MissionDB::load();
    let mut mgr = SaveManager::new(UsersDB::new());
    mgr.login("P");
    mgr.add_stuff("#FiggeIsComing");
    let e = enter_scene(&mut mgr, Scene::Garage, &missions);
    assert_eq!(e.figge_parts, Some(vec![13, 20, 17]));
    assert_eq!(e.spawn, SpawnFrom::ShopFloor);
    assert!(e.mission.is_none());
    assert!(!mgr.has_stuff("#FiggeIsComing"));
    assert!(mgr.has_yard_part(13));
    let again = enter_scene(&mut mgr, Scene::Garage, &missions);
    assert!(again.figge_parts.is_none());
}

#[test]
fn yard_delivers_mail_mission_with_picture() {
    let missions = MissionDB::load();
    let mut mgr = SaveManager::new(UsersDB::new());
    mgr.login("P");
    mgr.give_mission(2);
    mgr.give_mission(3);
    let e = enter_scene(&mut mgr, Scene::Yard, &missions);
    assert_eq!(e.spawn, SpawnFrom::Yard);
    let m = e.mission.expect("mission 2 is delivered");
    assert_eq!(m.mission_id, 2);
    assert_eq!(m.sound, "50d016v0");
    assert_eq!(m.mail, Some(("50b001v0".to_string(), "mail_mission_2".to_string())));
    let e = enter_scene(&mut mgr, Scene::Yard, &missions);
    let m = e.mission.expect("mission 3 is delivered");
    assert_eq!(m.mission_id, 3);
    assert_eq!(m.sound, "50d003v0");
    assert!(m.mail.is_none());
    assert!(enter_scene(&mut mgr, Scene::Yard, &missions).mission.is_none());
    assert!(!mgr.has_pending_missions());
}

#[test]
fn unknown_mission_is_taken_without_notice() {
    let missions = MissionDB::load();
    let mut mgr = SaveManager::new(UsersDB::new());
    mgr.login("P");
    mgr.give_mission(12);
    assert!(enter_scene(&mut mgr, Scene::Yard, &missions).mission.is_none());
    assert!(!mgr.has_pending_missions());
}

#[test]
fn junkyard_shows_last_pile_and_others_nothing() {
    let missions = MissionDB::load();
    let mut mgr = SaveManager::new(UsersDB::new());
    assert_eq!(enter_scene(&mut mgr, Scene::Junkyard, &missions).spawn, SpawnFrom::Pile(1));
    mgr.login("P");
    mgr.save_last_pile(4);
    assert_eq!(enter_scene(&mut mgr, Scene::Junkyard, &missions).spawn, SpawnFrom::Pile(4));
    mgr.give_mission(2);
    let e = enter_scene(&mut mgr, Scene::Menu, &missions);
    assert_eq!(e.spawn, SpawnFrom::Nothing);
    assert!(e.mission.is_none() && e.figge_parts.is_none());
    assert!(mgr.has_pending_missions());
}
