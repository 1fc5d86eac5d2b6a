use openwilly::drag_drop::{
    DragDropState, DraggableItem, DropRect, DropResult, DropTarget, MorphVariant, SnapTarget,
};
use openwilly::sprite::Sprite;

#[test]
fn pile_rects_correct_count() {
    for pile in 1..=6 {
        let rects = DropRect::pile_rects(pile);
        assert_eq!(rects.len(), 3, "Pile {} should have 3 rects", pile);
    }
}

#[test]
fn drop_rect_contains() {
    let r = DropRect::from_ltrb(100, 200, 300, 400);
    assert!(r.contains(150, 300));
    assert!(r.contains(100, 200));
    assert!(!r.contains(99, 200));
    assert!(!r.contains(300, 400));
}

// ---------------------------------------------------------------------------

#[test]
fn negative_extent_is_empty() {
    let r = DropRect::from_ltrb(50, 50, 10, 10);
    assert_eq!((r.width, r.height), (0, 0));
    assert!(!r.contains(50, 50));
}

#[test]
fn unknown_pile_is_whole_screen() {
    let rects = DropRect::pile_rects(9);
    assert_eq!(rects, vec![DropRect { x: 0, y: 0, width: 640, height: 480 }]);
    assert_eq!(DropRect::pile_rects(4)[0], DropRect { x: 0, y: 324, width: 425, height: 80 });
}

#[test]
fn random_point_lcg_values() {
    let r = DropRect::from_ltrb(193, 260, 637, 400);
    let (x, y) = r.random_point(42);
    let s1 = 42u32.wrapping_mul(1103515245).wrapping_add(12345);
    let s2 = s1.wrapping_mul(1103515245).wrapping_add(12345);
    assert_eq!(x, 193 + (s1 % 444) as i32);
    assert_eq!(y, 260 + (s2 % 140) as i32);
    assert!(r.contains(x, y));
    let empty = DropRect { x: 5, y: 6, width: 0, height: 0 };
    assert_eq!(empty.random_point(7), (5, 6));
}

#[test]
fn drop_target_hit() {
    let t = DropTarget { x: 10, y: 20, width: 5, height: 5, id: "door_junk".to_string(), name: "Door".to_string() };
    assert!(t.hit_test(10, 20));
    assert!(t.hit_test(14, 24));
    assert!(!t.hit_test(15, 24));
}

fn sprite(size: u32) -> Sprite {
    Sprite {
        x: 0, y: 0, width: size, height: size,
        pixels: vec![255; (size * size * 4) as usize],
        visible: true, z_order: 0,
        name: "test".to_string(),
        interactive: false, member_num: 0,
    }
}

#[test]
fn bounce_back_when_outside_rects() {
    let mut state = DragDropState::new();
    state.drop_rects = DropRect::pile_rects(1);

    // Create a small test sprite
    let sprite = Sprite {
        x: 0, y: 0, width: 10, height: 10,
        pixels: vec![255; 10 * 10 * 4],
        visible: true, z_order: 0,
        name: "test".to_string(),
        interactive: false, member_num: 0,
    };

    // Add item at position outside all pile rects (top-left corner)
    let mut item = DraggableItem::new(42, 0, 0, sprite, 0);
    item.dragging = true;
    state.items.push(item);
    state.dragging_idx = Some(0);
    state.prev_mouse_down = true;

    // Drop the item
    let result = state.on_mouse_up(0, 0);
    // Should bounce back since (0,0) is not in any pile 1 rect
    assert!(matches!(result, DropResult::Dropped { part_id: 42 }));
    // Item position should have changed from (0,0)
    let item = &state.items[0];
    let in_any_rect = state.drop_rects.iter().any(|r| r.contains(item.x, item.y));
    assert!(in_any_rect, "Item should be bounced into a valid rect, at ({}, {})", item.x, item.y);
}

#[test]
fn drag_moves_item_and_drops_in_place() {
    let mut state = DragDropState::new();
    state.add_item(DraggableItem::new(7, 100, 100, sprite(20), 3));
    state.add_item(DraggableItem::new(8, 300, 300, sprite(20), 9));
    // press on the first item
    assert!(matches!(state.process_mouse(105, 110, true), DropResult::Nothing));
    assert!(state.is_dragging());
    assert_eq!(state.dragged_item().unwrap().part_id, 7);
    // drawn above all others
    assert_eq!(state.items[0].z_order, 10);
    assert_eq!(state.items[0].junk_sprite.z_order, 10);
    assert_eq!(state.hover_info(0, 0).as_deref(), Some("Dragging Part #7"));
    // hold and move: the grab offset is kept
    state.process_mouse(205, 160, true);
    assert_eq!((state.items[0].x, state.items[0].y), (200, 150));
    assert_eq!((state.items[0].junk_sprite.x, state.items[0].junk_sprite.y), (200, 150));
    assert_eq!(state.items[0].drag_ticks, 1);
    // release: no rest areas, no targets → dropped where it is
    let r = state.process_mouse(205, 160, false);
    assert!(matches!(r, DropResult::Dropped { part_id: 7 }));
    assert!(!state.is_dragging());
    assert!(!state.items[0].dragging);
    assert!(!state.items[0].on_ground);
    assert_eq!((state.items[0].x, state.items[0].y), (200, 150));
    let positions = state.item_positions();
    assert_eq!(positions.get(&7), Some(&(200, 150)));
    assert_eq!(positions.get(&8), Some(&(300, 300)));
}

#[test]
fn press_on_empty_spot_starts_nothing() {
    let mut state = DragDropState::new();
    state.add_item(DraggableItem::new(7, 100, 100, sprite(20), 3));
    assert!(!state.on_mouse_down(10, 10));
    assert!(!state.is_dragging());
    assert_eq!(state.hover_info(10, 10), None);
    assert_eq!(state.hover_info(110, 110).as_deref(), Some("Part #7"));
    assert!(matches!(state.on_mouse_up(10, 10), DropResult::Nothing));
}

#[test]
fn topmost_item_is_picked() {
    let mut state = DragDropState::new();
    state.add_item(DraggableItem::new(1, 0, 0, sprite(50), 5));
    state.add_item(DraggableItem::new(2, 10, 10, sprite(50), 1));
    assert_eq!(state.item_at(20, 20), Some(1));
    assert_eq!(state.item_at(5, 5), Some(0));
    assert_eq!(state.item_at(100, 100), None);
    let sprites = state.all_sprites();
    assert_eq!(sprites[0].z_order, 1);
    assert_eq!(sprites[1].z_order, 5);
}

#[test]
fn snapping_to_free_point_attaches_on_release() {
    let mut state = DragDropState::new();
    state.snap_targets.push(SnapTarget { point_id: "#a1".to_string(), x: 500, y: 500, occupied: false, covered_by: None });
    state.snap_targets.push(SnapTarget { point_id: "#a2".to_string(), x: 510, y: 500, occupied: false, covered_by: None });
    state.add_item(DraggableItem::new(9, 0, 0, sprite(20), 0));
    state.on_mouse_down(5, 5);
    // center = item + 10; moving the item to (495, 480) puts its center at (505, 490)
    state.on_mouse_move(500, 485);
    assert!(state.items[0].can_attach);
    assert!(!state.items[0].snap_sound_played, "a snap asks for the snap sound");
    match state.on_mouse_up(500, 485) {
        DropResult::Attached { part_id, morph_id, point_id } => {
            assert_eq!(part_id, 9);
            assert_eq!(morph_id, None);
            assert_eq!(point_id, "#a1");
        }
        _ => panic!("expected an attachment"),
    }
    // moving away unsnaps
    state.on_mouse_down(500, 485);
    state.on_mouse_move(5, 5);
    assert!(!state.items[0].can_attach);
}

#[test]
fn morph_variant_snaps_at_its_offset() {
    let mut state = DragDropState::new();
    let mut item = DraggableItem::new(2, 0, 0, sprite(20), 0);
    item.morph_sprites.push(MorphVariant { morph_part_id: 3, use_view_sprite: sprite(30), offset_x: 400, offset_y: 300 });
    item.morph_sprites.push(MorphVariant { morph_part_id: 4, use_view_sprite: sprite(30), offset_x: 100, offset_y: 100 });
    state.add_item(item);
    state.snap_targets.push(SnapTarget { point_id: "#b1".to_string(), x: 100, y: 100, occupied: false, covered_by: None });
    state.on_mouse_down(1, 1);
    state.on_mouse_move(92, 92);
    assert!(state.items[0].can_attach);
    assert_eq!(state.items[0].active_morph, Some(1));
    assert_eq!(state.items[0].as_sprite().width, 30);
    match state.on_mouse_up(92, 92) {
        DropResult::Attached { morph_id, point_id, .. } => {
            assert_eq!(morph_id, Some(4));
            assert_eq!(point_id, "#b1");
        }
        _ => panic!("expected an attachment"),
    }
}

#[test]
fn drop_on_target() {
    let mut state = DragDropState::new();
    state.drop_targets.push(DropTarget { x: 600, y: 0, width: 40, height: 480, id: "door_junk".to_string(), name: "door".to_string() });
    state.add_item(DraggableItem::new(5, 0, 0, sprite(20), 0));
    state.on_mouse_down(1, 1);
    state.on_mouse_move(610, 100);
    match state.on_mouse_up(610, 100) {
        DropResult::DroppedOnTarget { part_id, target_id } => {
            assert_eq!(part_id, 5);
            assert_eq!(target_id, "door_junk");
        }
        _ => panic!("expected a target drop"),
    }
}

#[test]
fn removing_items_keeps_the_drag() {
    let mut state = DragDropState::new();
    state.add_item(DraggableItem::new(1, 0, 0, sprite(10), 0));
    state.add_item(DraggableItem::new(2, 100, 0, sprite(10), 0));
    state.add_item(DraggableItem::new(3, 200, 0, sprite(10), 0));
    state.on_mouse_down(205, 5);
    assert!(state.remove_by_part_id(1));
    assert_eq!(state.dragged_item().unwrap().part_id, 3);
    assert!(!state.remove_by_part_id(1));
    state.remove_item(1);
    assert!(!state.is_dragging());
    state.remove_item(5);
    assert_eq!(state.items.len(), 1);
}
