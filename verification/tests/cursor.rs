use openwilly::cursor::{CursorType, GameCursor};
use openwilly::sprite::Bitmap;

#[test]
fn cursor_stack_operations() {
    let mut gc = GameCursor::empty();
    assert_eq!(gc.current(), CursorType::Standard);

    gc.set(CursorType::Grab);
    assert_eq!(gc.current(), CursorType::Grab);

    gc.set(CursorType::Click);
    assert_eq!(gc.current(), CursorType::Click);

    gc.clear();
    assert_eq!(gc.current(), CursorType::Grab);

    gc.clear();
    assert_eq!(gc.current(), CursorType::Standard);

    gc.set(CursorType::Left);
    gc.set(CursorType::MoveLeft);
    gc.remove(CursorType::Left);
    assert_eq!(gc.current(), CursorType::MoveLeft);
    gc.clear();
    assert_eq!(gc.current(), CursorType::Standard);
}

#[test]
fn cursor_reset_clears_all() {
    let mut gc = GameCursor::empty();
    gc.set(CursorType::Grab);
    gc.set(CursorType::Click);
    gc.set(CursorType::Right);
    gc.reset();
    assert_eq!(gc.current(), CursorType::Standard);
    assert!(gc.history.is_empty());
}

#[test]
fn hotspot_values_match_mulle_js() {
    assert_eq!(CursorType::Standard.hotspot(), (5, 1));
    assert_eq!(CursorType::Grab.hotspot(), (13, 10));
    assert_eq!(CursorType::Click.hotspot(), (1, 1));
    assert_eq!(CursorType::Right.hotspot(), (27, 5));
}

// ---------------------------------------------------------------------------

#[test]
fn members_and_names() {
    assert_eq!(CursorType::Standard.member(), 73);
    assert_eq!(CursorType::MoveIn.member(), 81);
    assert_eq!(CursorType::Grab.director_name(), "C_Grab");
    let all = CursorType::all();
    for (i, ct) in all.iter().enumerate() {
        assert_eq!(ct.index(), i);
    }
}

#[test]
fn remove_takes_lowest_entry_only() {
    let mut gc = GameCursor::empty();
    gc.set(CursorType::Grab);
    gc.set(CursorType::Click);
    gc.set(CursorType::Grab);
    gc.remove(CursorType::Grab);
    assert_eq!(gc.history, vec![CursorType::Click, CursorType::Grab]);
    gc.remove(CursorType::Back);
    assert_eq!(gc.history.len(), 2);
    gc.clear();
    gc.clear();
    gc.clear();
    assert_eq!(gc.current(), CursorType::Standard);
}

fn solid(w: u32, h: u32, rgba: [u8; 4]) -> Bitmap {
    let mut pixels = Vec::new();
    for _ in 0..(w * h) {
        pixels.extend_from_slice(&rgba);
    }
    Bitmap { width: w, height: h, pixels, reg_x: 0, reg_y: 0 }
}

#[test]
fn missing_bitmaps_get_stub_frames() {
    let gc = GameCursor::new(Some(vec![Some(solid(2, 2, [1, 2, 3, 255])), None]));
    assert_eq!(gc.frames.len(), 9);
    assert_eq!(gc.frames[0].width, 2);
    assert_eq!((gc.frames[0].hotspot_x, gc.frames[0].hotspot_y), (5, 1));
    assert_eq!(gc.frames[1].width, 1);
    assert_eq!(gc.frames[1].pixels, vec![0, 0, 0, 0]);
    assert_eq!(gc.frames[8].hotspot_x, 0);
    let none = GameCursor::new(None);
    assert!(none.frames.is_empty());
}

#[test]
fn blit_draws_at_hotspot_and_blends() {
    // Standard cursor: 2x2, opaque red, hotspot (5, 1)
    let mut bitmaps = vec![Some(solid(2, 2, [255, 0, 0, 255]))];
    for _ in 1..9 {
        bitmaps.push(Some(solid(1, 1, [0, 0, 255, 128])));
    }
    let mut gc = GameCursor::new(Some(bitmaps));
    let mut fb = vec![0xFF00_0000u32; 10 * 10];
    gc.blit(&mut fb, 10, 10, 6, 2);
    // drawn with its top-left at (1, 1)
    assert_eq!(fb[1 * 10 + 1], 0xFFFF_0000);
    assert_eq!(fb[2 * 10 + 2], 0xFFFF_0000);
    assert_eq!(fb[0], 0xFF00_0000);
    assert_eq!(fb[3 * 10 + 3], 0xFF00_0000);

    // Half-transparent blue over white: (0*128 + 255*127)/255 = 127 red/green
    gc.set(CursorType::Grab);
    let mut fb = vec![0xFFFF_FFFFu32; 4];
    gc.blit(&mut fb, 2, 2, 13, 10);
    assert_eq!(fb[0], 0xFF7F_7FFF);
    assert_eq!(fb[1], 0xFFFF_FFFF);

    // Off-screen parts are clipped
    let mut fb = vec![0u32; 4];
    gc.blit(&mut fb, 2, 2, -100, -100);
    assert_eq!(fb, vec![0u32; 4]);
}
