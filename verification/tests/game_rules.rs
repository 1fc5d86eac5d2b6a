use openwilly::cursor::CursorType;
use openwilly::game_rules::{
    attach_sound, button_cursor, cursor_for_lower_name, car_show_name, figge_part_ids, floor_sound, horn_sound,
    language_button_hit, legality_text, load_topology, mail_position, make_part_sprite, next_pile, part_weight,
    placeholder_sprite, prev_pile, reward_part, scene_ambient, speaker_color, str_contains,
};
use openwilly::json::Json;
use openwilly::parts_db::PartsDB;
use openwilly::scene::Scene;
use openwilly::sprite::{Bitmap, BitmapStore};

#[test]
fn sounds_by_weight() {
    assert_eq!(floor_sound(5), "00e003v0");
    assert_eq!(floor_sound(4), "00e003v0");
    assert_eq!(floor_sound(3), "00e002v0");
    assert_eq!(floor_sound(1), "00e001v0");
    assert_eq!(attach_sound(4), "03e003v2");
    assert_eq!(attach_sound(2), "03e003v1");
    assert_eq!(attach_sound(0), "03e003v0");
}

#[test]
fn weights_from_the_parts_table() {
    let part = Json::Object(vec![
        ("partId".to_string(), Json::Int(7)),
        ("Properties".to_string(), Json::Object(vec![("Weight".to_string(), Json::Int(5))])),
    ]);
    let db = PartsDB::from_json(&Json::Object(vec![("7".to_string(), part)]));
    assert_eq!(part_weight(&db, 7), 5);
    assert_eq!(part_weight(&db, 8), 1);
}

#[test]
fn horns_and_ambience() {
    assert_eq!(horn_sound(1), Some("05e050v0"));
    assert_eq!(horn_sound(5), Some("05d013v0"));
    assert_eq!(horn_sound(0), None);
    assert_eq!(horn_sound(6), None);
    assert_eq!(scene_ambient(Scene::Junkyard), Some("02e010v0"));
    assert_eq!(scene_ambient(Scene::Yard), Some("02e010v0"));
    assert_eq!(scene_ambient(Scene::CarShow), Some("94e001v0"));
    assert_eq!(scene_ambient(Scene::Destination(86)), Some("86e005v0"));
    assert_eq!(scene_ambient(Scene::Destination(84)), None);
    assert_eq!(scene_ambient(Scene::Garage), None);
}

#[test]
fn names_colors_and_menu_button() {
    assert_eq!(car_show_name(""), "Unbenannt");
    assert_eq!(car_show_name("Flitzer"), "Flitzer");
    assert_eq!(speaker_color("mulle"), 0xFFFFFF00);
    assert_eq!(speaker_color("figge"), 0xFF88CCFF);
    assert_eq!(speaker_color("buffa"), 0xFFFFFFFF);
    assert!(language_button_hit(20, 440));
    assert!(language_button_hit(179, 469));
    assert!(!language_button_hit(180, 450));
    assert!(!language_button_hit(50, 470));
}

#[test]
fn legality_line_lists_failures() {
    assert_eq!(legality_text("Nicht fahrbereit", &["Motor", "Reifen"]), "Nicht fahrbereit (Motor, Reifen)");
    assert_eq!(legality_text("X", &["Tank"]), "X (Tank)");
    assert_eq!(legality_text("X", &[]), "X ()");
}

#[test]
fn rewards_and_piles() {
    assert_eq!(reward_part(12, Some(99)), 12);
    assert_eq!(reward_part(0, Some(99)), 99);
    assert_eq!(reward_part(0, None), 287);
    assert_eq!(next_pile(6), 1);
    assert_eq!(next_pile(2), 3);
    assert_eq!(prev_pile(1), 6);
    assert_eq!(prev_pile(4), 3);
    let figge = figge_part_ids();
    assert_eq!(figge.len(), 52);
    assert_eq!(figge[0], 13);
    assert_eq!(figge[51], 14);
}

#[test]
fn placeholder_for_missing_bitmap() {
    let s = placeholder_sprite(10, 5, 6, 7);
    assert_eq!((s.x, s.y, s.width, s.height, s.z_order), (5, 6, 32, 32, 7));
    assert_eq!(s.name, "part_10");
    assert_eq!(s.member_num, 10);
    assert!(s.visible && s.interactive);
    assert_eq!(s.pixels.len(), 32 * 32 * 4);
    // (10 * 37) % 200 + 55 = 225, (10 * 73) % 200 + 55 = 185, (10 * 113) % 200 + 55 = 185
    assert_eq!(&s.pixels[0..4], &[225, 185, 185, 200]);
    assert_eq!(&s.pixels[4092..4096], &[225, 185, 185, 200]);
}

#[test]
fn mail_is_centered() {
    assert_eq!(mail_position(200, 100), (220, 190));
    assert_eq!(mail_position(641, 0), (0, 240));
}

#[test]
fn topology_reads_red_channel() {
    let mut topo = vec![7u8; 10];
    // 2x1 bitmap: red 250 then red 16
    let pixels = vec![250, 0, 0, 255, 16, 1, 2, 255];
    load_topology(&mut topo, &pixels, 2, 1);
    assert_eq!(topo.len(), 316 * 198);
    assert_eq!(topo[0], 250);
    assert_eq!(topo[1], 16);
    assert_eq!(topo[2], 7);
    assert_eq!(topo[10], 0);
    assert_eq!(topo[316], 0);
}

#[test]
fn substring_search_and_button_cursors() {
    assert!(str_contains("Tür links", "links"));
    assert!(str_contains("abc", ""));
    assert!(!str_contains("ab", "abc"));
    assert_eq!(button_cursor("Tür LINKS"), CursorType::Left);
    assert_eq!(button_cursor("door_right"), CursorType::Right);
    assert_eq!(button_cursor("Zurück"), CursorType::Back);
    assert_eq!(button_cursor("Telefon"), CursorType::Click);
}

#[test]
fn piles_go_round() {
    for p in 1..=6u8 {
        assert!((1..=6).contains(&next_pile(p)));
        assert!((1..=6).contains(&prev_pile(p)));
        assert_eq!(prev_pile(next_pile(p)), p);
        assert_eq!(next_pile(prev_pile(p)), p);
    }
}

#[test]
fn part_sprite_from_junk_view_or_stand_in() {
    let part = |id: i64, view: &str| {
        Json::Object(vec![
            ("partId".to_string(), Json::Int(id)),
            ("junkView".to_string(), Json::Str(view.to_string())),
        ])
    };
    let db = PartsDB::from_json(&Json::Object(vec![
        ("7".to_string(), part(7, "07j001v0")),
        ("8".to_string(), part(8, "missing")),
        ("9".to_string(), part(9, "")),
    ]));
    let store = BitmapStore {
        entries: vec![(
            "07j001v0".to_string(),
            Bitmap { width: 3, height: 2, pixels: vec![1; 24], reg_x: 9, reg_y: 9 },
        )],
    };
    let s = make_part_sprite(&db, &store, 7, 40, 50, 101);
    assert_eq!((s.x, s.y, s.width, s.height, s.z_order), (40, 50, 3, 2, 101));
    assert_eq!(s.name, "part_7");
    assert_eq!(s.pixels, vec![1; 24]);
    for id in [8u32, 9, 10] {
        let t = make_part_sprite(&db, &store, id, 1, 2, 3);
        assert_eq!((t.width, t.height), (32, 32));
        assert_eq!(t.name, format!("part_{}", id));
        assert_eq!(t.pixels[3], 200);
    }
}

#[test]
fn cursor_from_lowercased_name() {
    assert_eq!(cursor_for_lower_name("tür links"), CursorType::Left);
    assert_eq!(cursor_for_lower_name("→ werkstatt"), CursorType::Right);
    assert_eq!(cursor_for_lower_name("zurück"), CursorType::Back);
    // already lowercased: upper-case words are not recognized here
    assert_eq!(cursor_for_lower_name("BACK"), CursorType::Click);
    assert_eq!(button_cursor("BACK"), CursorType::Back);
}
