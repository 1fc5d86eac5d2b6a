use openwilly::build_car::{BuildCar, CarEvent};
use openwilly::json::Json;
use openwilly::parts_db::PartsDB;
use openwilly::sprite::{Bitmap, BitmapStore};

fn s(v: &str) -> Json {
    Json::Str(v.to_string())
}

fn n(v: i64) -> Json {
    Json::Int(v)
}

fn obj(entries: Vec<(&str, Json)>) -> Json {
    Json::Object(entries.into_iter().map(|(k, v)| (k.to_string(), v)).collect())
}

fn point(id: &str, fg: i64, bg: i64, x: i64, y: i64) -> Json {
    Json::Array(vec![s(id), Json::Array(vec![n(fg), n(bg)]), Json::Array(vec![n(x), n(y)])])
}

/// Chassis with 21 points; battery, gearbox and brake on #a1-#a3; a tire
/// on #a10 that provides its own hub point #c1
fn parts_db() -> PartsDB {
    let mut chassis_points = Vec::new();
    for i in 1..=20 {
        chassis_points.push(point(&format!("#a{}", i), 30 + i, 10 + i, 10 * i, 5));
    }
    chassis_points.push(point("#b1", 60, 40, 0, 0));
    let part = |id: i64, view: &str, req: &str| {
        obj(vec![
            ("partId", n(id)),
            ("UseView", s(view)),
            ("offset", Json::Array(vec![n(id), n(2)])),
            ("Requires", Json::Array(vec![s(req)])),
        ])
    };
    let entries = vec![
        ("1".to_string(), obj(vec![
            ("partId", n(1)), ("UseView", s("20b001v0")),
            ("Properties", obj(vec![("Weight", n(4))])),
            ("new", Json::Array(chassis_points)),
        ])),
        ("82".to_string(), part(82, "20b082v0", "#a1")),
        ("133".to_string(), part(133, "20b133v0", "#a2")),
        ("152".to_string(), part(152, "20b152v0", "#a3")),
        ("60".to_string(), obj(vec![
            ("partId", n(60)), ("UseView", s("20b060v0")), ("master", n(153)),
            ("offset", Json::Array(vec![n(7), n(9)])),
            ("Requires", Json::Array(vec![s("#a10")])),
            ("new", Json::Array(vec![point("#c1", 50, 20, 3, 3)])),
        ])),
    ];
    PartsDB::from_json(&Json::Object(entries))
}

fn bitmap(w: u32, h: u32) -> Bitmap {
    Bitmap { width: w, height: h, pixels: vec![255; (w * h * 4) as usize], reg_x: 1, reg_y: 1 }
}

fn store() -> BitmapStore {
    BitmapStore {
        entries: vec![
            ("20b001v0".to_string(), bitmap(40, 20)),
            ("20b082v0".to_string(), bitmap(4, 4)),
            ("20b133v0".to_string(), bitmap(4, 4)),
            ("20b152v0".to_string(), bitmap(4, 4)),
            ("20b060v0".to_string(), bitmap(6, 6)),
        ],
    }
}

fn occupied(car: &BuildCar) -> usize {
    car.points.iter().filter(|p| p.occupied_by.is_some()).count()
}

#[test]
fn default_car_has_four_parts() {
    let car = BuildCar::new(300, 220);
    assert_eq!(car.parts.len(), 4);
    assert_eq!(car.parts, vec![1, 82, 133, 152]);
}

#[test]
fn rebuild_points_from_chassis() {
    let parts_db = parts_db();
    let mut car = BuildCar::new(300, 220);
    car.rebuild_points(&parts_db);

    assert!(!car.points.is_empty(), "Chassis should provide attachment points");
    let occupied_count = occupied(&car);
    assert!(occupied_count > 0, "Default parts should occupy some points");
}

#[test]
fn can_attach_checks_requirements() {
    let parts_db = parts_db();
    let mut car = BuildCar::new(300, 220);
    car.rebuild_points(&parts_db);

    let free_count = car.points.iter().filter(|p| p.occupied_by.is_none()).count();
    assert!(free_count > 0, "Should have free attachment points");
}

#[test]
fn car_position() {
    let car = BuildCar::new(100, 200);
    assert_eq!(car.x, 100);
    assert_eq!(car.y, 200);
}

#[test]
fn locked_car_prevents_changes() {
    let _parts_db = parts_db();
    let mut car = BuildCar::new(300, 220);
    car.locked = true;
    assert!(car.locked);
}

// ---------------------------------------------------------------------------

#[test]
fn default_parts_occupy_their_points() {
    let parts_db = parts_db();
    let mut car = BuildCar::new(300, 220);
    car.refresh(&parts_db, &store());
    assert_eq!(car.points.len(), 21);
    assert_eq!(occupied(&car), 3);
    let a1 = car.points.iter().find(|p| p.id == "#a1").unwrap();
    assert_eq!(a1.occupied_by, Some(82));
    assert_eq!(a1.fg, 31);
    assert_eq!(a1.offset, (10, 5));
    let used: Vec<(String, u32)> = car.used_points.clone();
    assert!(used.contains(&("#a2".to_string(), 133)));
    assert_eq!(car.properties().weight, 4);
    assert!(!car.is_road_legal());
}

#[test]
fn attach_then_detach_restores_parts() {
    let parts_db = parts_db();
    let assets = store();
    let mut car = BuildCar::new(300, 220);
    car.refresh(&parts_db, &assets);
    let before = car.parts.clone();

    let ev = car.attach(60, &parts_db, &assets);
    assert!(matches!(ev, Some(CarEvent::Attached { part_id: 60 })));
    assert_eq!(car.parts, vec![1, 82, 133, 152, 60]);
    assert!(car.points.iter().any(|p| p.id == "#c1" && p.occupied_by.is_none()));
    assert_eq!(car.points.iter().find(|p| p.id == "#a10").unwrap().occupied_by, Some(60));

    // The point is taken now: a second tire cannot go there
    assert!(car.attach(60, &parts_db, &assets).is_none());

    let ev = car.detach(60, &parts_db, &assets);
    match ev {
        Some(CarEvent::Detached { part_id, master_id, world_x, world_y }) => {
            assert_eq!(part_id, 60);
            assert_eq!(master_id, 153);
            assert_eq!((world_x, world_y), (307, 229));
        }
        _ => panic!("expected a detach event"),
    }
    assert_eq!(car.parts, before);
    assert!(!car.points.iter().any(|p| p.id == "#c1"));
}

#[test]
fn locked_car_rejects_attach_and_detach() {
    let parts_db = parts_db();
    let assets = store();
    let mut car = BuildCar::new(300, 220);
    car.refresh(&parts_db, &assets);
    car.locked = true;
    assert!(car.attach(60, &parts_db, &assets).is_none());
    assert!(car.detach(82, &parts_db, &assets).is_none());
    assert_eq!(car.parts, vec![1, 82, 133, 152]);
}

#[test]
fn unknown_or_missing_parts_are_refused() {
    let parts_db = parts_db();
    let assets = store();
    let mut car = BuildCar::new(300, 220);
    car.refresh(&parts_db, &assets);
    assert!(car.attach(4242, &parts_db, &assets).is_none());
    assert!(car.detach(60, &parts_db, &assets).is_none());
}

#[test]
fn sprites_sorted_and_hit() {
    let parts_db = parts_db();
    let assets = store();
    let mut car = BuildCar::new(300, 220);
    car.refresh(&parts_db, &assets);
    let sprites = car.all_sprites();
    assert_eq!(sprites.len(), 4);
    assert!(sprites.windows(2).all(|w| w[0].z_order <= w[1].z_order));
    // Chassis has no layer: drawn at default order 8, named without "@"
    let chassis = sprites.iter().find(|s| s.member_num == 1).unwrap();
    assert_eq!(chassis.z_order, 8);
    assert_eq!(chassis.name, "car:20b001v0#1");
    let battery = sprites.iter().find(|s| s.member_num == 82).unwrap();
    assert_eq!(battery.name, "car:20b082v0#82@#a1");
    assert_eq!(battery.z_order, 31);
    assert_eq!((battery.x, battery.y), (300 + 82 - 1, 220 + 2 - 1));
    // Battery covers (381..385, 221..225); it is on top of the chassis there
    assert_eq!(car.part_at(382, 222), Some(82));
    assert_eq!(car.part_at(0, 0), None);
}

#[test]
fn free_points_have_screen_positions() {
    let parts_db = parts_db();
    let mut car = BuildCar::new(300, 220);
    car.rebuild_points(&parts_db);
    let free = car.free_attachment_points();
    assert_eq!(free.len(), 18);
    assert!(free.contains(&("#a4", 340, 225)));
    assert!(!free.iter().any(|p| p.0 == "#a1"));
}
