use openwilly::json::Json;
use openwilly::parts_db::PartsDB;

fn s(v: &str) -> Json {
    Json::Str(v.to_string())
}

fn n(v: i64) -> Json {
    Json::Int(v)
}

fn obj(entries: Vec<(&str, Json)>) -> Json {
    Json::Object(entries.into_iter().map(|(k, v)| (k.to_string(), v)).collect())
}

fn ids(v: &[i64]) -> Json {
    Json::Array(v.iter().map(|&i| n(i)).collect())
}

fn strs(v: &[&str]) -> Json {
    Json::Array(v.iter().map(|x| s(x)).collect())
}

fn point(id: &str, fg: i64, bg: i64, x: i64, y: i64) -> Json {
    Json::Array(vec![s(id), ids(&[fg, bg]), ids(&[x, y])])
}

/// A parts table with the parts these tests look at, plus plain filler parts
fn sample_parts() -> Json {
    let mut chassis_points = Vec::new();
    for i in 1..=20 {
        chassis_points.push(point(&format!("#a{}", i), 30 + i, 10 + i, 10 * i, 5));
    }
    chassis_points.push(point("#b1", 60, 40, 0, 0));
    let mut entries: Vec<(String, Json)> = vec![
        ("1".to_string(), obj(vec![
            ("partId", n(1)), ("master", n(0)), ("MorphsTo", n(0)),
            ("UseView", s("20b001v0")), ("junkView", s("20a001v0")),
            ("Properties", obj(vec![("Weight", n(4))])),
            ("Requires", n(0)), ("new", Json::Array(chassis_points)),
        ])),
        ("2".to_string(), obj(vec![
            ("partId", n(2)), ("master", n(0)), ("MorphsTo", ids(&[3, 4])),
            ("junkView", s("20a002v0")), ("UseView", s("")),
        ])),
        ("3".to_string(), obj(vec![
            ("partId", n(3)), ("master", n(2)), ("UseView", s("20b003v0")),
            ("Properties", obj(vec![("EngineType", n(4)), ("Weight", n(3))])),
            ("Requires", strs(&["#a5"])),
        ])),
        ("4".to_string(), obj(vec![("partId", n(4)), ("master", n(2)), ("UseView", s("20b004v0"))])),
        ("82".to_string(), obj(vec![
            ("partId", n(82)), ("UseView", s("20b082v0")),
            ("Properties", obj(vec![("Weight", n(2)), ("ElectricVolume", n(2))])),
            ("Requires", strs(&["#a1"])),
        ])),
        ("133".to_string(), obj(vec![
            ("partId", n(133)), ("UseView", s("20b133v0")),
            ("Properties", obj(vec![("Weight", n(2)), ("Acceleration", n(3))])),
            ("Requires", strs(&["#a2"])),
        ])),
        ("152".to_string(), obj(vec![
            ("partId", n(152)), ("UseView", s("20b152v0")),
            ("Properties", obj(vec![("Weight", n(1)), ("Break", n(5))])),
            ("Requires", strs(&["#a3"])),
        ])),
        ("153".to_string(), obj(vec![("partId", n(153)), ("MorphsTo", ids(&[60, 61]))])),
        ("60".to_string(), obj(vec![
            ("partId", n(60)), ("master", n(153)), ("UseView", s("20b060v0")),
            ("Properties", obj(vec![("Grip", n(2)), ("Weight", n(1))])),
            ("Requires", strs(&["#a10"])),
        ])),
        ("61".to_string(), obj(vec![
            ("partId", n(61)), ("master", n(153)), ("UseView", s("20b061v0")),
            ("Properties", obj(vec![("Grip", n(2)), ("Weight", n(1))])),
            ("Requires", strs(&["#a11"])),
        ])),
        ("233".to_string(), obj(vec![
            ("partId", n(233)), ("UseView", s("20b233v0")),
            ("Properties", obj(vec![("Enginetype", n(1))])),
        ])),
    ];
    for id in 1000..1200 {
        entries.push((id.to_string(), obj(vec![("partId", n(id))])));
    }
    Json::Object(entries)
}

fn load() -> PartsDB {
    PartsDB::from_json(&sample_parts())
}

#[test]
fn load_parts_db() {
    let db = load();
    assert!(db.len() > 200, "Expected 200+ parts, got {}", db.len());
}

#[test]
fn chassis_part_1() {
    let db = load();
    let chassis = db.get(1).expect("Part 1 (chassis) must exist");
    assert_eq!(chassis.part_id, 1);
    assert_eq!(chassis.master, 0);
    assert!(chassis.morphs_to.is_empty());
    assert_eq!(chassis.properties.weight, 4);
    assert!(!chassis.attachment_points.is_empty());
    assert!(chassis.attachment_points.len() >= 20);
}

#[test]
fn morph_parent_child() {
    let db = load();
    let parent = db.get(2).expect("Part 2 must exist");
    assert!(parent.is_morph_parent());
    assert_eq!(parent.morphs_to, vec![3, 4]);

    let child = db.get(3).expect("Part 3 must exist");
    assert!(child.is_morph_child());
    assert_eq!(child.master, 2);

    let master = db.get_master(3).expect("Part 3 must have a master");
    assert_eq!(master.part_id, 2);
}

#[test]
fn properties_case_insensitive() {
    let db = load();
    let p3 = db.get(3).expect("Part 3");
    assert_eq!(p3.properties.engine_type, 4);

    let p233 = db.get(233).expect("Part 233");
    assert_eq!(p233.properties.engine_type, 1);
}

#[test]
fn car_properties_aggregation() {
    let db = load();
    let default_parts = PartsDB::default_car_parts();
    let props = db.compute_car_properties(default_parts);
    assert_eq!(props.weight, 4 + 2 + 2 + 1);
    assert_eq!(props.acceleration, 3);
    assert_eq!(props.brake, 5);
}

#[test]
fn road_legal_check() {
    let db = load();
    let default_props = db.compute_car_properties(PartsDB::default_car_parts());
    assert!(!default_props.is_road_legal());
    let failures = default_props.road_legal_failures();
    assert!(failures.contains(&"engine"), "missing engine");
    assert!(failures.contains(&"tires"), "missing tires");
    assert!(failures.contains(&"steering"), "missing steering");
}

#[test]
fn tire_count_from_grip() {
    let db = load();
    let default_props = db.compute_car_properties(PartsDB::default_car_parts());
    assert_eq!(default_props.tire_count, 0);

    let p60 = db.get(60).expect("Part 60");
    assert!(p60.properties.grip > 0, "Part 60 should have grip (it's a tire)");

    let mut parts = PartsDB::default_car_parts().to_vec();
    parts.push(60);
    parts.push(61);
    let props = db.compute_car_properties(&parts);
    assert!(props.tire_count >= 2, "Should count at least 2 tires");
}

// ---------------------------------------------------------------------------

#[test]
fn morph_variants_of_parent() {
    let db = load();
    let morphs: Vec<u32> = db.get_morphs(153).iter().map(|p| p.part_id).collect();
    assert_eq!(morphs, vec![60, 61]);
    assert!(db.get_morphs(1).is_empty());
}

#[test]
fn parts_for_attachment_point() {
    let db = load();
    let ids: Vec<u32> = db.parts_for_attachment("#a10").iter().map(|p| p.part_id).collect();
    assert_eq!(ids, vec![60]);
}

#[test]
fn all_ids_increasing() {
    let db = load();
    let ids = db.all_ids();
    assert_eq!(ids.len(), db.len());
    assert!(ids.windows(2).all(|w| w[0] < w[1]));
    assert_eq!(ids[0], 1);
}

#[test]
fn unknown_part_is_skipped_in_properties() {
    let db = load();
    let props = db.compute_car_properties(&[1, 999_999]);
    assert_eq!(props.weight, 4);
}

#[test]
fn parts_table_read_from_text() {
    let text = r#"{"7": {"partId": 7, "master": 0, "junkView": "20a007v0", "Properties": {"Weight": 3}},
                   "9": {"partId": 9, "UseView": "20b009v0"}}"#;
    let db = PartsDB::load(text).expect("a JSON object");
    assert_eq!(db.get(7).unwrap().junk_view, "20a007v0");
    assert_eq!(db.get(7).unwrap().properties.weight, 3);
    assert_eq!(db.get(9).unwrap().use_view, "20b009v0");
    assert!(db.get(8).is_none());
    assert!(PartsDB::load("not json").is_none());
    assert!(PartsDB::load("[1, 2]").is_none());
}
