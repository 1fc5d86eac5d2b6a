use openwilly::dashboard::{clamp_fuel_frame, Dashboard};
use openwilly::sprite::Bitmap;

/// Needle frame for a fuel fraction: round(pct * 16), at most 15
fn fuel_index(pct: f32) -> usize {
    clamp_fuel_frame((pct * 16.0).round() as usize)
}

/// Speedometer x: 100 + 140 * min(|speed| / max_speed, 1)
fn speedo_x(speed: f32, max_speed: f32) -> f32 {
    let ratio = if max_speed > 0.0 { (speed.abs() / max_speed).min(1.0) } else { 0.0 };
    100.0 + 140.0 * ratio
}

#[test]
fn fuel_frame_index_clamped() {
    let cases: [(f32, usize); 5] = [(0.0, 0), (0.03, 0), (0.5, 8), (1.0, 15), (0.95, 15)];
    for (pct, expected) in &cases {
        assert_eq!(fuel_index(*pct), *expected, "pct={}", pct);
    }
}

#[test]
fn speedo_x_range() {
    let cases: [(f32, f32, f32); 3] = [(0.0, 4.0, 100.0), (4.0, 4.0, 240.0), (2.0, 4.0, 170.0)];
    for (speed, max_speed, expected_x) in &cases {
        let x = speedo_x(*speed, *max_speed);
        assert!((x - expected_x).abs() < 0.01, "speed={} max={} → x={} (expected {})",
            speed, max_speed, x, expected_x);
    }
}

// ---------------------------------------------------------------------------

fn bmp(w: u32, reg: i32) -> Bitmap {
    Bitmap { width: w, height: 2, pixels: vec![9; (w * 2 * 4) as usize], reg_x: reg, reg_y: reg }
}

#[test]
fn dashboard_sprites_from_frames() {
    assert!(Dashboard::new(false, Vec::new(), None).is_none());
    let fuel: Vec<Option<Bitmap>> = (0..16).map(|i| if i == 3 { None } else { Some(bmp(5, 1)) }).collect();
    let dash = Dashboard::new(true, fuel, Some(bmp(30, 4))).unwrap();
    assert_eq!(dash.fuel_frames.len(), 16);
    assert_eq!((dash.fuel_frames[0].x, dash.fuel_frames[0].y), (490, 446));
    assert_eq!(dash.fuel_frames[3].width, 1);
    assert_eq!((dash.speedo.x, dash.speedo.y), (95, 442));

    let sprites = dash.sprites(20, 170);
    assert_eq!(sprites.len(), 2);
    assert_eq!(sprites[0].name, "fuel_needle_15");
    assert_eq!(sprites[0].member_num, 42);
    assert_eq!(sprites[0].z_order, 51);
    assert_eq!(sprites[1].x, 170);
    assert_eq!(sprites[1].z_order, 49);
    assert_eq!(sprites[1].name, "speedometer");
    assert_eq!(clamp_fuel_frame(7), 7);
}
