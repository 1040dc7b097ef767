use nvsmi_gui::view::{Delta, Modifiers, ViewChange, ViewControls};

fn controls(lock_x: bool, lock_y: bool) -> ViewControls {
    ViewControls { lock_x, lock_y, ctrl_to_zoom: true, shift_to_horizontal: true }
}

#[test]
fn zoom_with_locked_y_leaves_y_alone() {
    let c = controls(false, true);
    let r = c.scroll_change(Some(Delta { x: 0, y: 2 }), Modifiers { ctrl: true, shift: false });
    assert_eq!(r, ViewChange::Zoom { x_steps: 2, y_steps: 0 });
}

#[test]
fn modifier_flag_truth_table() {
    let d = Some(Delta { x: 3, y: 1 });
    let mut c = controls(false, false);
    assert_eq!(
        c.scroll_change(d, Modifiers { ctrl: true, shift: false }),
        ViewChange::Zoom { x_steps: 4, y_steps: 4 }
    );
    assert_eq!(
        c.scroll_change(d, Modifiers { ctrl: false, shift: false }),
        ViewChange::Pan { dx: 3, dy: 1 }
    );
    assert_eq!(
        c.scroll_change(d, Modifiers { ctrl: false, shift: true }),
        ViewChange::Pan { dx: 1, dy: 3 }
    );
    c.ctrl_to_zoom = false;
    c.shift_to_horizontal = false;
    assert_eq!(
        c.scroll_change(d, Modifiers { ctrl: false, shift: true }),
        ViewChange::Zoom { x_steps: 4, y_steps: 4 }
    );
    assert_eq!(
        c.scroll_change(d, Modifiers { ctrl: true, shift: false }),
        ViewChange::Pan { dx: 1, dy: 3 }
    );
    assert_eq!(
        c.scroll_change(d, Modifiers { ctrl: true, shift: true }),
        ViewChange::Pan { dx: 3, dy: 1 }
    );
}

#[test]
fn scroll_pan_respects_locks() {
    let c = controls(true, false);
    assert_eq!(
        c.scroll_change(Some(Delta { x: 3, y: 1 }), Modifiers { ctrl: false, shift: false }),
        ViewChange::Pan { dx: 0, dy: 1 }
    );
}

#[test]
fn no_scroll_no_change() {
    let c = controls(false, false);
    assert_eq!(c.scroll_change(None, Modifiers { ctrl: true, shift: true }), ViewChange::Nothing);
}

#[test]
fn drag_pans_against_pointer_movement() {
    let c = controls(false, true);
    assert_eq!(
        c.drag_change(true, true, Delta { x: 5, y: -7 }),
        ViewChange::Pan { dx: -5, dy: 0 }
    );
    assert_eq!(
        controls(false, false).drag_change(true, true, Delta { x: i32::MIN, y: 2 }),
        ViewChange::Pan { dx: 2_147_483_648, dy: -2 }
    );
    assert_eq!(c.drag_change(false, true, Delta { x: 5, y: 5 }), ViewChange::Nothing);
    assert_eq!(c.drag_change(true, false, Delta { x: 5, y: 5 }), ViewChange::Nothing);
}

#[test]
fn zoom_steps_do_not_overflow() {
    let c = controls(false, false);
    assert_eq!(
        c.scroll_change(Some(Delta { x: i32::MAX, y: i32::MAX }), Modifiers { ctrl: true, shift: false }),
        ViewChange::Zoom { x_steps: 2 * i32::MAX as i64, y_steps: 2 * i32::MAX as i64 }
    );
}
