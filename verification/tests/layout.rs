use nonstop_notify::layout::{resize_step, ResizeStep};
use nonstop_notify::layout::{window_plan, WindowPlan};
use nonstop_notify::layout::{
    content_region_bounds, prefers_dark_from_registry_value, stacked_height, system_theme,
    top_right_x, window_position,
};
use nonstop_notify::runtime::NotificationPosition;

fn physical(logical: f64, scale: f64) -> i32 {
    (logical * scale).round() as i32
}

#[test]
fn primary_monitor_position_accounts_for_scale_factor() {
    assert_eq!(top_right_x(0, 1920, physical(430.0, 1.5), 30), 1245);
}

#[test]
fn windows_theme_registry_value_zero_means_dark() {
    assert!(prefers_dark_from_registry_value(Some(0)));
    assert!(!prefers_dark_from_registry_value(Some(1)));
    assert!(!prefers_dark_from_registry_value(None));
}

#[test]
fn bottom_content_region_stays_anchored_to_fixed_canvas() {
    assert_eq!(
        (0, 560, 430, 760),
        content_region_bounds(NotificationPosition::BottomLeft, 430, 760, 200)
    );
    assert_eq!(
        (0, 0, 430, 200),
        content_region_bounds(NotificationPosition::TopRight, 430, 760, 200)
    );
    assert_eq!(
        (0, 0, 430, 760),
        content_region_bounds(NotificationPosition::BottomRight, 430, 760, 900)
    );
}

#[test]
fn window_position_uses_work_area_and_scale() {
    assert_eq!(
        (12, 630),
        window_position(
            NotificationPosition::BottomLeft,
            0,
            0,
            1920,
            1080,
            physical(430.0, 1.5),
            physical(280.0, 1.5),
            12,
            18
        )
    );
    assert_eq!(
        (1257, 30),
        window_position(
            NotificationPosition::TopRight,
            0,
            0,
            1920,
            1080,
            physical(430.0, 1.5),
            physical(280.0, 1.5),
            12,
            18
        )
    );
}

#[test]
fn content_region_is_at_least_one_pixel() {
    assert_eq!(
        (0, 759, 430, 760),
        content_region_bounds(NotificationPosition::BottomLeft, 430, 760, 0)
    );
    assert_eq!(
        (0, 0, 430, 1),
        content_region_bounds(NotificationPosition::TopLeft, 430, 760, -5)
    );
}

#[test]
fn window_never_leaves_the_work_area_edges() {
    assert_eq!(top_right_x(100, 200, 400, 30), 100);
    assert_eq!(
        (100, 50),
        window_position(NotificationPosition::BottomLeft, 100, 50, 200, 100, 400, 400, 0, 0)
    );
    assert_eq!(
        (1890 - 430, 1080 - 200 - 30),
        window_position(NotificationPosition::BottomRight, 0, 0, 1920, 1080, 430, 200, 5, 30)
    );
    assert_eq!(
        (35, 40),
        window_position(NotificationPosition::TopLeft, 5, 10, 1920, 1080, 430, 200, 30, 30)
    );
}

#[test]
fn stacked_height_follows_the_count() {
    assert_eq!(stacked_height(0, false), 150);
    assert_eq!(stacked_height(1, false), 150);
    assert_eq!(stacked_height(2, false), 190);
    assert_eq!(stacked_height(9, false), 190);
    assert_eq!(stacked_height(1, true), 180);
    assert_eq!(stacked_height(2, true), 272);
    assert_eq!(stacked_height(5, true), 596);
    assert_eq!(stacked_height(40, true), 596);
}

#[test]
fn theme_names() {
    assert_eq!(system_theme(true), "dark");
    assert_eq!(system_theme(false), "light");
}

#[test]
fn window_is_sized_before_it_first_appears() {
    assert_eq!(
        window_plan(0, false, true),
        WindowPlan { show: false, seed_height: None }
    );
    assert_eq!(
        window_plan(3, false, false),
        WindowPlan { show: true, seed_height: Some(190) }
    );
    assert_eq!(
        window_plan(3, true, false),
        WindowPlan { show: true, seed_height: Some(380) }
    );
    assert_eq!(
        window_plan(1, false, true),
        WindowPlan { show: true, seed_height: None }
    );
}

#[test]
fn resizing_skips_unchanged_sizes() {
    assert_eq!(resize_step((430, 200), (430, 200), false), ResizeStep::Keep);
    assert_eq!(resize_step((430, 200), (430, 300), false), ResizeStep::Position);
    assert_eq!(
        resize_step((0, 0), (430, 300), true),
        ResizeStep::Region { position_first: true }
    );
    assert_eq!(
        resize_step((430, 200), (430, 300), true),
        ResizeStep::Region { position_first: false }
    );
}
