//! Where the notification window stands on the screen, how tall it is, which part
//! of it is drawn, and which colour theme it uses. Sizes and positions here are
//! whole pixels; scaling by the monitor's scale factor happens before.
use vstd::prelude::*;

use crate::runtime::NotificationPosition;

verus! {

/// The largest number of stacked toasts that the window makes room for.
pub const MAX_STACKED: usize = 5;

/// The height of the whole window canvas, in logical pixels.
pub const MAX_WINDOW_HEIGHT: u32 = 760;

/// The distance kept from the top and bottom of the work area.
pub const EDGE_MARGIN: i32 = 30;

/// The window height for `count` toasts: expanded, 56 plus 108 per toast (between
/// 180 and the canvas height); collapsed, 190 for a stack and 150 for one toast.
/// The count is taken between one and five.
pub open spec fn spec_stacked_height(count: nat, expanded: bool) -> int {
    let c: int = if count < 1 {
        1
    } else if count > MAX_STACKED {
        MAX_STACKED as int
    } else {
        count as int
    };
    if expanded {
        let h = 56 + c * 108;
        if h < 180 {
            180
        } else if h > MAX_WINDOW_HEIGHT {
            MAX_WINDOW_HEIGHT as int
        } else {
            h
        }
    } else if c > 1 {
        190
    } else {
        150
    }
}

/// The height of the window for `count` toasts, in logical pixels.
pub fn stacked_height(count: usize, expanded: bool) -> (h: u32)
    ensures
        h == spec_stacked_height(count as nat, expanded),
{
    let c: u32 = if count < 1 {
        1
    } else if count > MAX_STACKED {
        MAX_STACKED as u32
    } else {
        count as u32
    };
    if expanded {
        let h = 56 + c * 108;
        if h < 180 {
            180
        } else if h > MAX_WINDOW_HEIGHT {
            MAX_WINDOW_HEIGHT
        } else {
            h
        }
    } else if c > 1 {
        190
    } else {
        150
    }
}

/// What the window does after the toasts changed.
#[derive(Clone, Copy, Debug, PartialEq, Eq, Structural)]
pub struct WindowPlan {
    /// Whether the window is shown.
    pub show: bool,
    /// The height to size the window to before it first appears.
    pub seed_height: Option<u32>,
}

/// The window is shown while there are toasts; when it is about to appear, it is
/// first sized for the stack of toasts.
pub open spec fn spec_window_plan(toast_count: nat, expanded: bool, window_visible: bool) -> WindowPlan {
    let show = toast_count > 0;
    WindowPlan {
        show,
        seed_height: if show && !window_visible {
            Some(spec_stacked_height(toast_count, expanded) as u32)
        } else {
            None
        },
    }
}

/// What the window does now that `toast_count` toasts are shown.
pub fn window_plan(toast_count: usize, expanded: bool, window_visible: bool) -> (plan: WindowPlan)
    ensures
        plan == spec_window_plan(toast_count as nat, expanded, window_visible),
{
    let show = toast_count > 0;
    let seed_height = if show && !window_visible {
        Some(stacked_height(toast_count, expanded))
    } else {
        None
    };
    WindowPlan { show, seed_height }
}

/// What resizing the window to new content does.
#[derive(Clone, Copy, Debug, PartialEq, Eq, Structural)]
pub enum ResizeStep {
    /// The size is unchanged: nothing to do.
    Keep,
    /// Move and size the window to the content.
    Position,
    /// Keep the full-height window and draw only the content's part of it, first
    /// placing the window when it has never been sized.
    Region { position_first: bool },
}

/// Resizing is skipped when the size in whole pixels is unchanged. On Windows the
/// window keeps its full canvas and only the drawn region changes, and it is placed
/// first when it was never sized (its last size is `(0, 0)`); elsewhere the window
/// itself is moved and sized.
pub open spec fn spec_resize_step(last_size: (i32, i32), size: (i32, i32), windows: bool) -> ResizeStep {
    if last_size == size {
        ResizeStep::Keep
    } else if windows {
        ResizeStep::Region { position_first: last_size == (0i32, 0i32) }
    } else {
        ResizeStep::Position
    }
}

/// What resizing the window from `last_size` to `size` does.
pub fn resize_step(last_size: (i32, i32), size: (i32, i32), windows: bool) -> (step: ResizeStep)
    ensures
        step == spec_resize_step(last_size, size, windows),
{
    if last_size.0 == size.0 && last_size.1 == size.1 {
        ResizeStep::Keep
    } else if windows {
        ResizeStep::Region { position_first: last_size.0 == 0 && last_size.1 == 0 }
    } else {
        ResizeStep::Position
    }
}

/// Whether a position is at the bottom of the screen.
pub open spec fn is_bottom(position: NotificationPosition) -> bool {
    position == NotificationPosition::BottomLeft || position == NotificationPosition::BottomRight
}

/// The drawn part of a window `window_width` by `window_height` that holds
/// content `content_height` tall (taken between one and the window height), as
/// `(left, top, right, bottom)`: anchored to the bottom edge for the bottom
/// positions and to the top edge for the top ones.
pub open spec fn spec_content_region(
    position: NotificationPosition,
    window_width: i32,
    window_height: i32,
    content_height: i32,
) -> (i32, i32, i32, i32) {
    let h: i32 = if content_height < 1 {
        1
    } else if content_height > window_height {
        window_height
    } else {
        content_height
    };
    let top: i32 = if is_bottom(position) {
        (window_height - h) as i32
    } else {
        0
    };
    (0, top, window_width, (top + h) as i32)
}

/// The drawn part of the window.
pub fn content_region_bounds(
    position: NotificationPosition,
    window_width: i32,
    window_height: i32,
    content_height: i32,
) -> (r: (i32, i32, i32, i32))
    requires
        window_height >= 1,
    ensures
        r == spec_content_region(position, window_width, window_height, content_height),
{
    let h = if content_height < 1 {
        1
    } else if content_height > window_height {
        window_height
    } else {
        content_height
    };
    let top = match position {
        NotificationPosition::BottomLeft | NotificationPosition::BottomRight => window_height - h,
        NotificationPosition::TopLeft | NotificationPosition::TopRight => 0,
    };
    (0, top, window_width, top + h)
}

/// The drawn part always lies inside the window, spans its width, is at least one
/// pixel tall, and touches the window's bottom edge for the bottom positions and
/// its top edge for the top ones.
pub proof fn lemma_content_region_in_window(
    position: NotificationPosition,
    window_width: i32,
    window_height: i32,
    content_height: i32,
)
    requires
        window_height >= 1,
    ensures
        ({
            let (left, top, right, bottom) = spec_content_region(
                position,
                window_width,
                window_height,
                content_height,
            );
            &&& left == 0 && right == window_width
            &&& 0 <= top < bottom <= window_height
            &&& is_bottom(position) ==> bottom == window_height
            &&& !is_bottom(position) ==> top == 0
            &&& 1 <= content_height <= window_height ==> bottom - top == content_height
        }),
{
}

/// `v` lies within the range of `i32`.
pub open spec fn fits_i32(v: int) -> bool {
    i32::MIN <= v <= i32::MAX
}

/// The x coordinate of a window `physical_window_width` wide placed at the right of
/// the work area, `offset_right` pixels from its edge, but never left of the work
/// area. The width of the work area is read as an `i32` by a wrapping cast.
pub open spec fn spec_top_right_x(
    area_x: i32,
    area_width: u32,
    physical_window_width: i32,
    offset_right: u16,
) -> int {
    let x = area_x + (area_width as i32) - physical_window_width - offset_right;
    if x > area_x {
        x
    } else {
        area_x as int
    }
}

/// The sums in `spec_top_right_x` fit in an `i32`.
pub open spec fn top_right_x_fits(
    area_x: i32,
    area_width: u32,
    physical_window_width: i32,
    offset_right: u16,
) -> bool {
    &&& fits_i32(area_x + (area_width as i32))
    &&& fits_i32(area_x + (area_width as i32) - physical_window_width)
    &&& fits_i32(area_x + (area_width as i32) - physical_window_width - offset_right)
}

/// The x coordinate of the window at the right of the work area.
pub fn top_right_x(area_x: i32, area_width: u32, physical_window_width: i32, offset_right: u16) -> (x:
    i32)
    requires
        top_right_x_fits(area_x, area_width, physical_window_width, offset_right),
    ensures
        x == spec_top_right_x(area_x, area_width, physical_window_width, offset_right),
{
    #[verifier::truncate]
    let width = area_width as i32;
    let x = area_x + width - physical_window_width - (offset_right as i32);
    if x > area_x {
        x
    } else {
        area_x
    }
}

/// The corner of the work area where the window stands: `offset_left` from the
/// left edge or at the right as `spec_top_right_x` gives it; 30 pixels below the
/// top edge, or 30 pixels above the bottom edge but never above the top of the
/// work area.
pub open spec fn spec_window_position(
    position: NotificationPosition,
    area_x: i32,
    area_y: i32,
    area_width: u32,
    area_height: u32,
    physical_width: i32,
    physical_height: i32,
    offset_left: u16,
    offset_right: u16,
) -> (int, int) {
    let left = area_x + offset_left;
    let right = spec_top_right_x(area_x, area_width, physical_width, offset_right);
    let top = area_y + EDGE_MARGIN;
    let b = area_y + (area_height as i32) - physical_height - EDGE_MARGIN;
    let bottom = if b > area_y {
        b
    } else {
        area_y as int
    };
    match position {
        NotificationPosition::TopLeft => (left, top),
        NotificationPosition::TopRight => (right, top),
        NotificationPosition::BottomLeft => (left, bottom),
        NotificationPosition::BottomRight => (right, bottom),
    }
}

/// The sums in `spec_window_position` fit in an `i32`.
pub open spec fn window_position_fits(
    area_x: i32,
    area_y: i32,
    area_width: u32,
    area_height: u32,
    physical_width: i32,
    physical_height: i32,
    offset_left: u16,
    offset_right: u16,
) -> bool {
    &&& fits_i32(area_x + offset_left)
    &&& top_right_x_fits(area_x, area_width, physical_width, offset_right)
    &&& fits_i32(area_y + EDGE_MARGIN)
    &&& fits_i32(area_y + (area_height as i32))
    &&& fits_i32(area_y + (area_height as i32) - physical_height)
    &&& fits_i32(area_y + (area_height as i32) - physical_height - EDGE_MARGIN)
}

/// Where the window stands in the work area, in physical pixels.
pub fn window_position(
    position: NotificationPosition,
    area_x: i32,
    area_y: i32,
    area_width: u32,
    area_height: u32,
    physical_width: i32,
    physical_height: i32,
    offset_left: u16,
    offset_right: u16,
) -> (p: (i32, i32))
    requires
        window_position_fits(
            area_x,
            area_y,
            area_width,
            area_height,
            physical_width,
            physical_height,
            offset_left,
            offset_right,
        ),
    ensures
        (p.0 as int, p.1 as int) == spec_window_position(
            position,
            area_x,
            area_y,
            area_width,
            area_height,
            physical_width,
            physical_height,
            offset_left,
            offset_right,
        ),
{
    let left = area_x + (offset_left as i32);
    let right = top_right_x(area_x, area_width, physical_width, offset_right);
    let top = area_y + EDGE_MARGIN;
    #[verifier::truncate]
    let height = area_height as i32;
    let b = area_y + height - physical_height - EDGE_MARGIN;
    let bottom = if b > area_y {
        b
    } else {
        area_y
    };
    match position {
        NotificationPosition::TopLeft => (left, top),
        NotificationPosition::TopRight => (right, top),
        NotificationPosition::BottomLeft => (left, bottom),
        NotificationPosition::BottomRight => (right, bottom),
    }
}

/// Whether the registry value `AppsUseLightTheme` asks for a dark theme: only an
/// explicit zero does.
pub fn prefers_dark_from_registry_value(value: Option<u32>) -> (dark: bool)
    ensures
        dark == (value == Some(0u32)),
{
    match value {
        Some(v) => v == 0,
        None => false,
    }
}

/// The name of the colour theme that the window uses.
pub fn system_theme(prefers_dark: bool) -> (theme: String)
    ensures
        theme@ == if prefers_dark {
            "dark"@
        } else {
            "light"@
        },
{
    if prefers_dark {
        "dark".to_owned()
    } else {
        "light".to_owned()
    }
}

} // verus!
