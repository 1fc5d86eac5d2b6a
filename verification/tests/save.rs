use std::collections::HashMap;

use openwilly::save::{CarSave, JunkSave, SaveManager, UserSave, UsersDB};

#[test]
fn new_profile_has_defaults() {
    let user = UserSave::new("TestPlayer");
    assert_eq!(user.user_id, "TestPlayer");
    assert_eq!(user.car.parts, vec![1, 82, 133, 152]);
    assert!(user.completed_missions.is_empty());
    assert_eq!(user.my_last_pile, 1);
    assert!(!user.junk.pile1.is_empty());
}

#[test]
fn multiple_profiles() {
    let mut mgr = SaveManager::new(UsersDB::new());
    mgr.login("Alice");
    mgr.save_car_name("AliceCar");
    mgr.login("Bob");
    mgr.save_car_name("BobCar");

    assert_eq!(mgr.profile_names().len(), 2);
    assert_eq!(mgr.users_db.get("Alice").unwrap().car.name, "AliceCar");
    assert_eq!(mgr.users_db.get("Bob").unwrap().car.name, "BobCar");

    mgr.delete_profile("Alice");
    assert_eq!(mgr.profile_names().len(), 1);
    assert!(mgr.users_db.get("Alice").is_none());
}

#[test]
fn car_save_default() {
    let car = CarSave::default();
    assert_eq!(car.parts, vec![1, 82, 133, 152]);
    assert!(car.name.is_empty());
    assert!(car.medals.is_empty());
}

#[test]
fn junk_pile_access() {
    let mut junk = JunkSave::empty();
    junk.pile_mut(3).insert(42, (100, 200));
    assert_eq!(junk.pile(3).get(&42), Some(&(100, 200)));
    assert!(junk.pile(1).is_empty());
}

// ---------------------------------------------------------------------------

#[test]
fn login_keeps_existing_profile() {
    let mut mgr = SaveManager::new(UsersDB::new());
    mgr.login("Alice");
    mgr.save_car_parts(&[1, 82, 133, 152, 60, 61]);
    let again = mgr.login("Alice");
    assert_eq!(again.car.parts, vec![1, 82, 133, 152, 60, 61]);
    assert_eq!(mgr.profile_names(), vec!["Alice"]);
    assert_eq!(mgr.active_user.as_deref(), Some("Alice"));
}

#[test]
fn changes_without_active_profile_do_nothing() {
    let mut mgr = SaveManager::new(UsersDB::new());
    mgr.add_stuff("#Dog");
    mgr.give_mission(3);
    assert!(!mgr.has_stuff("#Dog"));
    assert!(!mgr.has_pending_missions());
    assert_eq!(mgr.pop_pending_mission(), None);
    assert_eq!(mgr.random_unowned_part(), None);
    assert_eq!(mgr.users_db.len(), 0);
}

#[test]
fn stuff_added_once_and_removed() {
    let mut mgr = SaveManager::new(UsersDB::new());
    mgr.login("P");
    mgr.add_stuff("#GotDogOnce");
    mgr.add_stuff("#GotDogOnce");
    assert!(mgr.has_stuff("#GotDogOnce"));
    assert_eq!(mgr.active().unwrap().own_stuff.len(), 1);
    mgr.remove_stuff("#GotDogOnce");
    assert!(!mgr.has_stuff("#GotDogOnce"));
}

#[test]
fn missions_given_popped_and_completed() {
    let mut mgr = SaveManager::new(UsersDB::new());
    mgr.login("P");
    mgr.give_mission(7);
    mgr.give_mission(12);
    mgr.give_mission(7);
    assert!(mgr.has_pending_missions());
    assert_eq!(mgr.active().unwrap().given_missions, vec!["7", "12"]);
    assert_eq!(mgr.pop_pending_mission(), Some(7));
    assert_eq!(mgr.pop_pending_mission(), Some(12));
    assert_eq!(mgr.pop_pending_mission(), None);
    assert!(!mgr.has_pending_missions());
    assert_eq!(mgr.active().unwrap().completed_missions, vec!["7", "12"]);
    // A completed mission is not given again
    mgr.give_mission(7);
    assert!(!mgr.has_pending_missions());
    mgr.complete_mission("mission_01");
    mgr.complete_mission("mission_01");
    assert_eq!(mgr.active().unwrap().completed_missions.len(), 3);
}

#[test]
fn non_numeric_mission_pops_as_none() {
    let mut mgr = SaveManager::new(UsersDB::new());
    mgr.login("P");
    mgr.active_mut().unwrap().given_missions.push("abc".to_string());
    assert_eq!(mgr.pop_pending_mission(), None);
    assert_eq!(mgr.active().unwrap().completed_missions, vec!["abc"]);
}

#[test]
fn yard_parts_placed_in_rows() {
    let mut mgr = SaveManager::new(UsersDB::new());
    mgr.login("P");
    for id in 0..6u32 {
        mgr.add_yard_part(500 + id);
    }
    let yard = &mgr.active().unwrap().junk.yard;
    assert_eq!(yard.get(&500), Some(&(100, 200)));
    assert_eq!(yard.get(&504), Some(&(420, 200)));
    assert_eq!(yard.get(&505), Some(&(100, 260)));
    assert!(mgr.has_yard_part(503));
    assert!(!mgr.has_yard_part(999));
}

#[test]
fn piles_saved_by_index() {
    let mut mgr = SaveManager::new(UsersDB::new());
    mgr.login("P");
    let mut pile = HashMap::new();
    pile.insert(9u32, (1, 2));
    mgr.save_pile(4, &pile);
    mgr.save_pile(0, &pile);
    mgr.save_last_pile(4);
    let user = mgr.active().unwrap();
    assert_eq!(user.junk.pile4, pile);
    assert_eq!(user.junk.pile1, pile);
    assert_eq!(user.my_last_pile, 4);
    mgr.save_yard(&pile);
    mgr.save_shop_floor(&HashMap::new());
    assert_eq!(mgr.active().unwrap().junk.yard, pile);
    assert!(mgr.active().unwrap().junk.shop_floor.is_empty());
}

#[test]
fn remove_part_everywhere_clears_all_locations() {
    let mut junk = JunkSave::init_defaults();
    junk.yard.insert(66, (0, 0));
    junk.remove_part_everywhere(66);
    assert!(!junk.pile1.contains_key(&66));
    assert!(!junk.yard.contains_key(&66));
    assert!(junk.pile1.contains_key(&29));
    assert_eq!(junk.shop_floor.get(&200), Some(&(160, 351)));
}

#[test]
fn random_reward_is_unowned() {
    let mut mgr = SaveManager::new(UsersDB::new());
    mgr.login("P");
    let all = mgr.unowned_random_parts();
    assert!(!all.contains(&140));
    assert!(all.contains(&18));
    let pick = mgr.random_unowned_part().unwrap();
    assert!(all.contains(&pick));
}

#[test]
fn medals_awarded_once() {
    let mut mgr = SaveManager::new(UsersDB::new());
    mgr.award_medal(4);
    mgr.login("P");
    mgr.award_medal(4);
    mgr.award_medal(1);
    mgr.award_medal(4);
    assert_eq!(mgr.active().unwrap().car.medals, vec!["4", "1"]);
}

#[test]
fn dropped_parts_move_between_locations() {
    let mut mgr = SaveManager::new(UsersDB::new());
    mgr.login("P");
    mgr.active_mut().unwrap().junk.yard.insert(10, (1, 1));
    assert!(mgr.place_dropped_part(10, "door_junk"));
    let junk = &mgr.active().unwrap().junk;
    assert!(!junk.yard.contains_key(&10));
    assert_eq!(junk.pile1.get(&10), Some(&((10 * 37 % 500 + 70) as i32, 240)));
    assert!(mgr.place_dropped_part(10, "door_yard"));
    assert_eq!(mgr.active().unwrap().junk.yard.get(&10), Some(&(470, 200)));
    assert!(!mgr.active().unwrap().junk.pile1.contains_key(&10));
    assert!(mgr.place_dropped_part(10, "door_shop"));
    assert_eq!(mgr.active().unwrap().junk.shop_floor.get(&10), Some(&(470, 351)));
    assert!(mgr.place_dropped_part(10, "arrow_right_3"));
    assert_eq!(mgr.active().unwrap().junk.pile(3).get(&10), Some(&(470, 240)));
    assert!(!mgr.active().unwrap().junk.shop_floor.contains_key(&10));
    // unknown target: the part only leaves the junk locations
    assert!(!mgr.place_dropped_part(10, "window"));
    assert!(!mgr.active().unwrap().junk.pile(3).contains_key(&10));
}

#[test]
fn dropped_part_without_a_spot_needs_no_position() {
    let mut mgr = SaveManager::new(UsersDB::new());
    mgr.login("P");
    let big = u32::MAX;
    mgr.active_mut().unwrap().junk.yard.insert(big, (1, 1));
    assert!(!mgr.place_dropped_part(big, "window"));
    assert!(!mgr.active().unwrap().junk.yard.contains_key(&big));
    mgr.active_mut().unwrap().junk.yard.insert(big, (1, 1));
    assert!(mgr.place_dropped_part(big, "arrow_left_x"));
    assert!(!mgr.active().unwrap().junk.yard.contains_key(&big));
}

#[test]
fn figge_brings_three_new_parts() {
    let mut mgr = SaveManager::new(UsersDB::new());
    assert!(mgr.give_figge_parts().is_empty());
    mgr.login("P");
    mgr.add_yard_part(20);
    let given = mgr.give_figge_parts();
    assert_eq!(given, vec![13, 17, 89]);
    assert!(mgr.has_yard_part(13) && mgr.has_yard_part(17) && mgr.has_yard_part(89));
    let again = mgr.give_figge_parts();
    assert_eq!(again, vec![290, 120, 18]);
}

#[test]
fn current_pile_follows_last_visit() {
    let mut mgr = SaveManager::new(UsersDB::new());
    assert_eq!(mgr.current_pile_index(), 1);
    mgr.login("P");
    mgr.save_last_pile(5);
    assert_eq!(mgr.current_pile_index(), 5);
}

#[test]
fn old_profiles_trimmed_to_ten() {
    let mut mgr = SaveManager::new(UsersDB::new());
    for i in 0..12 {
        mgr.login(&format!("P{}", i));
    }
    mgr.trim_profiles("P0");
    let names = mgr.profile_names();
    assert_eq!(names.len(), 10);
    assert!(names.contains(&"P0"));
    assert!(!names.contains(&"P1") && !names.contains(&"P2"));
    assert!(names.contains(&"P3"));
    // the active profile was deleted: none is active
    let mut mgr2 = SaveManager::new(UsersDB::new());
    for i in 0..11 {
        mgr2.login(&format!("Q{}", i));
    }
    mgr2.login("Q0");
    mgr2.trim_profiles("Q5");
    assert!(mgr2.active_user.is_none());
    assert_eq!(mgr2.profile_names().len(), 10);
    // ten or fewer: nothing happens
    mgr2.trim_profiles("X");
    assert_eq!(mgr2.profile_names().len(), 10);
}
