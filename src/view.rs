//! The chart gesture controller: which change of the viewport a frame's
//! scroll, drag and modifier keys ask for, with per-axis locks applied.
//! Zoom is given as exponent steps per axis: the caller scales a step by
//! the zoom speed and exponentiates it, so zero steps is a factor of one.
use vstd::prelude::*;

verus! {

/// Per-chart input settings.
#[derive(Clone, Copy, Debug, PartialEq, Eq, Structural)]
pub struct ViewControls {
    pub lock_x: bool,
    pub lock_y: bool,
    /// Scrolling zooms when ctrl's state equals this flag, else it pans.
    pub ctrl_to_zoom: bool,
    /// A scroll pans horizontally when shift's state equals this flag.
    pub shift_to_horizontal: bool,
}

#[derive(Clone, Copy, Debug, PartialEq, Eq, Structural)]
pub struct Modifiers {
    pub ctrl: bool,
    pub shift: bool,
}

/// A 2D input delta in whole points.
#[derive(Clone, Copy, Debug, PartialEq, Eq, Structural)]
pub struct Delta {
    pub x: i32,
    pub y: i32,
}

#[derive(Clone, Copy, Debug, PartialEq, Eq, Structural)]
pub enum ViewChange {
    Nothing,
    /// Zoom about the pointer by the given exponent steps per axis.
    Zoom { x_steps: i64, y_steps: i64 },
    /// Move the visible bounds by the given amounts.
    Pan { dx: i64, dy: i64 },
}

/// `v`, or zero on a locked axis.
pub open spec fn unless_locked(locked: bool, v: int) -> int {
    if locked {
        0
    } else {
        v
    }
}

impl ViewControls {
    /// The change a scroll asks for. When ctrl's state equals
    /// `ctrl_to_zoom` the scroll zooms, by `x + y` steps on each unlocked
    /// axis; otherwise it pans, with the axes swapped when shift's state
    /// equals `shift_to_horizontal` and nothing on a locked axis.
    pub fn scroll_change(&self, scroll: Option<Delta>, mods: Modifiers) -> (r: ViewChange)
        ensures
            scroll is None ==> r == ViewChange::Nothing,
            scroll is Some && mods.ctrl == self.ctrl_to_zoom ==> {
                let d = scroll->Some_0;
                r == (ViewChange::Zoom {
                    x_steps: unless_locked(self.lock_x, d.x + d.y) as i64,
                    y_steps: unless_locked(self.lock_y, d.x + d.y) as i64,
                })
            },
            scroll is Some && mods.ctrl != self.ctrl_to_zoom ==> {
                let d = scroll->Some_0;
                let swap = mods.shift == self.shift_to_horizontal;
                r == (ViewChange::Pan {
                    dx: unless_locked(self.lock_x, if swap { d.y as int } else { d.x as int }) as i64,
                    dy: unless_locked(self.lock_y, if swap { d.x as int } else { d.y as int }) as i64,
                })
            },
    {
        match scroll {
            None => ViewChange::Nothing,
            Some(d) => {
                if mods.ctrl == self.ctrl_to_zoom {
                    let s: i64 = d.x as i64 + d.y as i64;
                    ViewChange::Zoom {
                        x_steps: if self.lock_x {
                            0
                        } else {
                            s
                        },
                        y_steps: if self.lock_y {
                            0
                        } else {
                            s
                        },
                    }
                } else {
                    let (mx, my) = if mods.shift == self.shift_to_horizontal {
                        (d.y as i64, d.x as i64)
                    } else {
                        (d.x as i64, d.y as i64)
                    };
                    ViewChange::Pan {
                        dx: if self.lock_x {
                            0
                        } else {
                            mx
                        },
                        dy: if self.lock_y {
                            0
                        } else {
                            my
                        },
                    }
                }
            },
        }
    }

    /// The change a drag asks for: while the pointer hovers the chart and a
    /// drag is active, the bounds move against the pointer's movement, with
    /// nothing on a locked axis.
    pub fn drag_change(&self, hovered: bool, dragging: bool, movement: Delta) -> (r: ViewChange)
        ensures
            !(hovered && dragging) ==> r == ViewChange::Nothing,
            hovered && dragging ==> r == (ViewChange::Pan {
                dx: unless_locked(self.lock_x, -movement.x) as i64,
                dy: unless_locked(self.lock_y, -movement.y) as i64,
            }),
    {
        if hovered && dragging {
            ViewChange::Pan {
                dx: if self.lock_x {
                    0
                } else {
                    -(movement.x as i64)
                },
                dy: if self.lock_y {
                    0
                } else {
                    -(movement.y as i64)
                },
            }
        } else {
            ViewChange::Nothing
        }
    }
}

} // verus!
