use openwilly::sprite::Bitmap;
use openwilly::toolbox::{load_sprite, menu_buttons, PopupAction, SpriteData, Toolbox};

#[test]
fn popup_button_regions_non_overlapping() {
    let buttons = menu_buttons();
    for (i, a) in buttons.iter().enumerate() {
        for (j, b) in buttons.iter().enumerate() {
            if i == j {
                continue;
            }
            let overlap_x = a.x < b.x + b.w && a.x + a.w > b.x;
            let overlap_y = a.y < b.y + b.h && a.y + a.h > b.y;
            assert!(!(overlap_x && overlap_y),
                "Buttons {} ({:?}) and {} ({:?}) overlap", i, a.action, j, b.action);
        }
    }
}

#[test]
fn popup_toggle() {
    let mut tb = Toolbox::new(None, None);
    assert!(!tb.popup_open);
    tb.toggle();
    assert!(tb.popup_open);
    tb.toggle();
    assert!(!tb.popup_open);
}

// ---------------------------------------------------------------------------

fn data(x: i32, y: i32, w: u32, h: u32) -> SpriteData {
    SpriteData { x, y, width: w, height: h, pixels: vec![1; (w * h * 4) as usize], member_num: 97 }
}

#[test]
fn popup_centered_and_buttons_hit() {
    let mut tb = Toolbox::new(Some(data(659, 439, 40, 30)), Some(data(0, 0, 600, 400)));
    let popup = tb.popup.as_ref().unwrap();
    assert_eq!((popup.x, popup.y), (20, 40));
    assert_eq!(tb.popup_hit(20 + 220, 40 + 80), None);
    tb.toggle();
    assert_eq!(tb.popup_hit(20 + 220, 40 + 80), Some(PopupAction::Home));
    assert_eq!(tb.popup_hit(20 + 480, 40 + 300), Some(PopupAction::Cancel));
    assert_eq!(tb.popup_hit(0, 0), None);
    let sprites = tb.sprites();
    assert_eq!(sprites.len(), 2);
    assert_eq!(sprites[1].z_order, 100);
    assert_eq!(sprites[1].name, "popup_menu");
}

#[test]
fn icon_hover_slides_and_plays_once() {
    let mut tb = Toolbox::new(Some(data(659, 439, 40, 30)), None);
    assert!(tb.icon_hit(660, 440));
    assert!(!tb.icon_hit(640, 440));
    assert!(tb.update_hover(660, 440));
    assert!(tb.hovered);
    assert_eq!(tb.sprites()[0].x, 619);
    // Still hovered over the slid-out area, no second sound
    assert!(!tb.update_hover(625, 440));
    assert!(tb.hovered);
    // Leaving resets the hover and its sound
    assert!(!tb.update_hover(0, 0));
    assert!(!tb.hovered);
    assert!(!tb.hover_sound_played);
}

#[test]
fn cast_position_or_default() {
    let b = Bitmap { width: 2, height: 2, pixels: vec![0; 16], reg_x: 0, reg_y: 0 };
    let s = load_sprite(b, Some((0, 0)), 97, 659, 439);
    assert_eq!((s.x, s.y), (659, 439));
    let b = Bitmap { width: 2, height: 2, pixels: vec![0; 16], reg_x: 0, reg_y: 0 };
    let s = load_sprite(b, Some((5, 0)), 97, 659, 439);
    assert_eq!((s.x, s.y), (5, 0));
}
