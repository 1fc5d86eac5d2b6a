use openwilly::sprite::{car_sprite_name_of, Bitmap, BitmapStore, Sprite};
use openwilly::text::{contains_str, parse_u32, str_eq, u32_to_string};

#[test]
fn decimal_round_trip() {
    for n in [0u32, 7, 10, 95, 4_294_967_295] {
        assert_eq!(u32_to_string(n), n.to_string());
        assert_eq!(parse_u32(&n.to_string()), Some(n));
    }
}

#[test]
fn parse_matches_std() {
    for s in ["", "+", "+12", "-1", "12a", "007", "4294967296", " 5", "99999999999"] {
        assert_eq!(parse_u32(s), s.parse::<u32>().ok(), "input {:?}", s);
    }
}

#[test]
fn string_helpers() {
    assert!(str_eq("abc", "abc"));
    assert!(!str_eq("abc", "abd"));
    let list = vec!["#Dog".to_string(), "#Cat".to_string()];
    assert!(contains_str(&list, "#Cat"));
    assert!(!contains_str(&list, "#Cow"));
    assert_eq!(car_sprite_name_of("20b001v0", 17), "car:20b001v0#17");
}

#[test]
fn sprite_hit_ignores_transparent_pixels() {
    // 2x1: left pixel opaque, right pixel transparent
    let s = Sprite {
        x: 10, y: 20, width: 2, height: 1,
        pixels: vec![1, 2, 3, 255, 1, 2, 3, 0],
        visible: true, z_order: 0, name: "s".to_string(), interactive: true, member_num: 0,
    };
    assert!(s.hit_test(10, 20));
    assert!(!s.hit_test(11, 20));
    assert!(s.bbox_hit(11, 20));
    assert!(!s.bbox_hit(12, 20));
    let mut hidden = s.duplicate();
    hidden.visible = false;
    assert!(!hidden.hit_test(10, 20));
}

#[test]
fn bitmap_store_first_match() {
    let b = |w: u32| Bitmap { width: w, height: 1, pixels: vec![], reg_x: 0, reg_y: 0 };
    let store = BitmapStore {
        entries: vec![("a".to_string(), b(1)), ("b".to_string(), b(2)), ("a".to_string(), b(3))],
    };
    assert_eq!(store.find_bitmap_by_name("a").unwrap().width, 1);
    assert_eq!(store.find_bitmap_by_name("b").unwrap().width, 2);
    assert!(store.find_bitmap_by_name("c").is_none());
}
