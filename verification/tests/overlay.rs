use file_sharer::overlay::{
    overlay_position, overlay_size, DragAction, DragMonitor, DragSight, OverlayState,
};

fn sight(mouse_down: bool, change_count: i64, has_file_url: bool) -> DragSight {
    DragSight { mouse_down, change_count, has_file_url }
}

#[test]
fn overlay_remembers_what_it_shows() {
    let mut state = OverlayState::new();
    assert!(!state.is_busy());
    assert_eq!(state.mode(), "normal");
    state.set_busy(true);
    assert!(state.is_busy());
    assert_eq!(state.mode(), "normal");
    state.set_mode("drag");
    assert_eq!(state.mode(), "drag");
    assert!(state.is_busy());
    state.set_busy(false);
    assert!(!state.is_busy());
}

#[test]
fn overlay_has_a_size_for_each_mode() {
    assert_eq!(overlay_size("drag"), (560, 300));
    assert_eq!(overlay_size("confirm"), (560, 300));
    assert_eq!(overlay_size("transfer"), (456, 128));
    assert_eq!(overlay_size("normal"), (456, 116));
    assert_eq!(overlay_size(""), (456, 116));
}

#[test]
fn overlay_sits_in_the_corner() {
    assert_eq!(overlay_position(0, 0, 1920, 456), (1440, 32));
    assert_eq!(overlay_position(-1920, 100, 1920, 560), (-584, 132));
}

#[test]
fn overlay_position_wraps_around() {
    let (min, max) = (i32::MIN, i32::MAX);
    assert_eq!(overlay_position(1, 0, 0x7fff_ffff, 0), (max - 23, 32));
    assert_eq!(overlay_position(25, 0, 0x7fff_ffff, 0), (min, 32));
    assert_eq!(overlay_position(0, max, 500, 456), (20, min + 31));
    assert_eq!(overlay_position(min, 0, 0, 0), (max - 23, 32));
    assert_eq!(overlay_position(0, 0, 0xffff_ffff, 0), (-25, 32));
    assert_eq!(overlay_position(0, 0, 0, 0x8000_0000), (max - 23, 32));
}

#[test]
fn drags_show_and_hide_the_overlay() {
    const MS: u128 = 1_000_000;
    let mut monitor = DragMonitor::new(5, 0);
    assert!(monitor.look(sight(true, 5, true), false, 10 * MS) == DragAction::Nothing);
    assert!(monitor.look(sight(true, 6, false), false, 20 * MS) == DragAction::Nothing);
    assert!(monitor.look(sight(true, 6, true), false, 30 * MS) == DragAction::TellAndShow);
    assert!(monitor.visible);
    assert!(monitor.look(sight(true, 6, true), false, 900 * MS) == DragAction::Nothing);
    assert_eq!(monitor.last_seen_ns, 900 * MS);
    assert!(monitor.look(sight(false, 6, true), false, 1600 * MS) == DragAction::Nothing);
    assert!(monitor.visible);
    assert!(monitor.look(sight(false, 6, true), true, 1601 * MS) == DragAction::Nothing);
    assert!(monitor.look(sight(false, 6, true), false, 1601 * MS) == DragAction::TellAndHide);
    assert!(!monitor.visible);
    assert_eq!(monitor.active_change_count, None);
    assert!(monitor.look(sight(false, 9, true), false, 1700 * MS) == DragAction::Nothing);
    assert_eq!(monitor.seen_change_count, 9);
    assert!(monitor.look(sight(true, 10, true), true, 1800 * MS) == DragAction::Tell);
    assert!(monitor.visible);
    assert!(monitor.look(sight(true, 11, true), false, 1900 * MS) == DragAction::TellAndShow);
}
