use nonstop_notify::event::{
    default_action_kind, default_schema_version, default_status, normalize_event, NotifyAction,
    NotifyEvent,
};
use nonstop_notify::toast_store::{Opacity, Toast, ToastStore, MAX_VISIBLE};

/// An event as a producer's JSON with only `event` and `toastId` would give it.
fn event(name: &str, toast_id: &str) -> NotifyEvent {
    normalize_event(NotifyEvent {
        schema_version: default_schema_version(),
        event: name.into(),
        toast_id: toast_id.into(),
        group_id: String::new(),
        timestamp: String::new(),
        title: String::new(),
        message: String::new(),
        status: default_status(),
        progress: None,
        route: String::new(),
        actions: Vec::new(),
        primary_label: String::new(),
        primary_route: String::new(),
        secondary_label: String::new(),
        secondary_route: String::new(),
    })
}

fn with_status(mut e: NotifyEvent, status: &str) -> NotifyEvent {
    e.status = status.into();
    e
}

fn with_title(mut e: NotifyEvent, title: &str) -> NotifyEvent {
    e.title = title.into();
    e
}

fn action(label: &str, route: &str, kind: &str) -> NotifyAction {
    NotifyAction {
        label: label.into(),
        route: route.into(),
        kind: kind.into(),
    }
}

const MS: u64 = 1_000_000;

#[test]
fn duplicate_update_keeps_one_toast() {
    let mut store = ToastStore::default();
    store.upsert(with_title(event("test", "a"), "A"));
    store.upsert(with_title(event("test", "a"), "B"));
    assert_eq!(store.len(), 1);
    assert_eq!(store.visible()[0].title, "B");
}

#[test]
fn max_five_visible() {
    let mut store = ToastStore::default();
    for index in 0..6 {
        store.upsert(event("test", &format!("{}", index)));
    }
    assert_eq!(store.len(), 6);
    assert_eq!(store.visible().len(), 5);
}

#[test]
fn only_loading_is_sticky() {
    let mut store = ToastStore::default();
    store.upsert(with_status(event("test", "a"), "loading"));
    store.upsert(with_status(event("plan.finished", "b"), "success"));
    let toasts = store.visible();
    assert!(toasts.iter().find(|toast| toast.id == "a").unwrap().sticky);
    assert!(!toasts.iter().find(|toast| toast.id == "b").unwrap().sticky);
    assert!(toasts
        .iter()
        .find(|toast| toast.id == "b")
        .unwrap()
        .expires_at
        .is_none());
}

#[test]
fn loading_then_success_same_toast_id_updates_one() {
    let mut store = ToastStore::default();
    store.upsert(with_status(event("test.started", "a"), "loading"));
    store.upsert(with_title(
        with_status(event("test.finished", "a"), "success"),
        "Pass",
    ));
    let toasts = store.visible();
    assert_eq!(toasts.len(), 1);
    assert_eq!(toasts[0].state, "success");
    assert_eq!(toasts[0].title, "Pass");
    assert!(!toasts[0].sticky);
}

#[test]
fn non_promise_success_waits_for_renderer_to_close() {
    let mut store = ToastStore::default();
    store.upsert(with_status(event("test.finished", "a"), "success"));
    assert_eq!(store.visible().len(), 1);
    store.dismiss("a");
    assert!(store.visible().is_empty());
}

#[test]
fn dismiss_marks_toast_for_fade_out() {
    let mut store = ToastStore::default();
    store.upsert(event("test", "a"));
    store.dismiss("a");
    assert_eq!(store.len(), 0);
    assert!(store.visible().is_empty());
}

#[test]
fn maps_primary_and_secondary_actions() {
    let mut store = ToastStore::default();
    let mut e = event("plan.item.finished", "a");
    e.actions = vec![
        action("Mở run", "/runs/1", "primary"),
        action("Report", "/reports/x", "secondary"),
    ];
    store.upsert(e);
    let toast = &store.visible()[0];
    assert_eq!(toast.primary_label, "Mở run");
    assert_eq!(toast.primary_route, "/runs/1");
    assert_eq!(toast.secondary_label, "Report");
    assert_eq!(toast.secondary_route, "/reports/x");
}

#[test]
fn event_without_routes_has_no_default_action() {
    let mut store = ToastStore::default();
    store.upsert(event("test", "a"));
    let toast = &store.visible()[0];
    assert_eq!(toast.primary_label, "");
    assert_eq!(toast.primary_route, "");
}

#[test]
fn event_route_becomes_primary_action() {
    let mut store = ToastStore::default();
    let mut e = event("deploy.finished", "a");
    e.route = "https://example.com/deployments/42".into();
    store.upsert(e);
    let toast = &store.visible()[0];
    assert_eq!(toast.primary_label, "Open");
    assert_eq!(toast.primary_route, "https://example.com/deployments/42");
}

#[test]
fn flat_action_fields_are_used_without_actions() {
    let mut e = event("x", "x");
    e.primary_label = "Open".into();
    e.primary_route = "/open".into();
    e.secondary_label = "Detail".into();
    e.secondary_route = "/detail".into();
    e.route = "/ignored".into();
    let toast = Toast::from_event(e, 0);
    assert_eq!(toast.primary_label, "Open");
    assert_eq!(toast.primary_route, "/open");
    assert_eq!(toast.secondary_label, "Detail");
    assert_eq!(toast.secondary_route, "/detail");
    assert_eq!(toast.route, "/ignored");
}

#[test]
fn blank_flat_fields_count_as_missing() {
    let mut e = event("x", "x");
    e.primary_label = "  ".into();
    e.primary_route = " ".into();
    e.route = "/r".into();
    e.secondary_label = "\t".into();
    e.actions = vec![action("Only", "", "primary")];
    let toast = Toast::from_event(e, 0);
    assert_eq!(toast.primary_label, "Only");
    assert_eq!(toast.primary_route, "");
    assert_eq!(toast.secondary_label, "");
    assert_eq!(toast.secondary_route, "");
    let mut e = event("x", "x");
    e.primary_route = " /p ".into();
    let toast = Toast::from_event(e, 0);
    assert_eq!(toast.primary_label, "Open");
    assert_eq!(toast.primary_route, " /p ");
    assert_eq!(default_action_kind(), "secondary");
}

#[test]
fn new_toasts_go_in_front_and_updates_stay_in_place() {
    let mut store = ToastStore::default();
    store.upsert_at(event("e", "a"), 0);
    store.upsert_at(event("e", "b"), 0);
    store.upsert_at(event("e", "c"), 0);
    store.upsert_at(with_title(event("e", "b"), "B2"), 5);
    let ids: Vec<&str> = store.toasts.iter().map(|t| t.id.as_str()).collect();
    assert_eq!(ids, vec!["c", "b", "a"]);
    assert_eq!(store.toasts[1].title, "B2");
    assert_eq!(store.toasts[1].created_at, 5);
    store.dismiss("b");
    let ids: Vec<&str> = store.toasts.iter().map(|t| t.id.as_str()).collect();
    assert_eq!(ids, vec!["c", "a"]);
    store.dismiss("zzz");
    assert_eq!(store.len(), 2);
}

#[test]
fn showing_twice_is_showing_once() {
    let mut once = ToastStore::default();
    let mut twice = ToastStore::default();
    once.upsert_at(event("e", "a"), 7);
    twice.upsert_at(event("e", "a"), 7);
    twice.upsert_at(event("e", "a"), 7);
    assert_eq!(once.toasts, twice.toasts);
}

#[test]
fn closing_a_new_toast_restores_the_others() {
    let mut store = ToastStore::default();
    store.upsert_at(event("e", "a"), 1);
    store.upsert_at(event("e", "b"), 2);
    let before = store.toasts.clone();
    store.upsert_at(event("e", "new"), 3);
    store.dismiss("new");
    assert_eq!(store.toasts, before);
}

#[test]
fn toasts_fade_in_over_220_ms() {
    let mut store = ToastStore::default();
    store.upsert_at(event("e", "a"), 1_000 * MS);
    assert_eq!(
        store.visible_at(1_000 * MS)[0].opacity,
        Opacity { numerator: 0, denominator: 220 }
    );
    assert_eq!(
        store.visible_at(1_110 * MS + 999_999)[0].opacity,
        Opacity { numerator: 110, denominator: 220 }
    );
    assert_eq!(
        store.visible_at(1_220 * MS)[0].opacity,
        Opacity { numerator: 1, denominator: 1 }
    );
    assert_eq!(
        store.visible_at(0)[0].opacity,
        Opacity { numerator: 0, denominator: 220 }
    );
}

#[test]
fn expiring_toasts_fade_out_and_disappear() {
    let mut store = ToastStore::default();
    store.upsert_at(event("e", "a"), 0);
    store.toasts[0].expires_at = Some(10_000 * MS);
    assert_eq!(
        store.visible_at(9_000 * MS)[0].opacity,
        Opacity { numerator: 1, denominator: 1 }
    );
    assert_eq!(
        store.visible_at(9_600 * MS)[0].opacity,
        Opacity { numerator: 400, denominator: 800 }
    );
    assert!(store.visible_at(10_000 * MS).is_empty());
    store.toasts[0].sticky = true;
    assert_eq!(
        store.visible_at(10_000 * MS)[0].opacity,
        Opacity { numerator: 0, denominator: 1 }
    );
    assert_eq!(
        store.toasts[0].opacity_at(100 * MS),
        Opacity { numerator: 100, denominator: 220 }
    );
}

#[test]
fn expired_toasts_make_room_for_later_ones() {
    let mut store = ToastStore::default();
    for index in 0..7 {
        store.upsert_at(event("e", &format!("{}", index)), 0);
    }
    store.toasts[0].expires_at = Some(1);
    store.toasts[2].expires_at = Some(1);
    let shown: Vec<String> = store.visible_at(5).into_iter().map(|t| t.id).collect();
    assert_eq!(shown, vec!["5", "3", "2", "1", "0"]);
    assert_eq!(shown.len(), MAX_VISIBLE);
}

#[test]
fn views_keep_everything_but_the_times() {
    let mut store = ToastStore::default();
    let mut e = event("e", "a");
    e.progress = Some(0.4f32.to_bits());
    e.message = "m".into();
    store.upsert_at(e, 0);
    let views = store.visible_views_at(300 * MS);
    assert_eq!(views.len(), 1);
    assert_eq!(views[0].id, "a");
    assert_eq!(views[0].message, "m");
    assert_eq!(f32::from_bits(views[0].progress), 0.4);
    assert_eq!(views[0].opacity, Opacity { numerator: 1, denominator: 1 });
    assert_eq!(store.visible_views().len(), 1);
}

#[test]
fn the_store_clock_moves_forward() {
    let store = ToastStore::default();
    let first = store.now();
    let start = std::time::Instant::now();
    while start.elapsed() < std::time::Duration::from_millis(5) {}
    let second = store.now();
    assert!(second >= first + 5_000_000);
}

#[test]
fn events_are_completed_before_display() {
    let mut e = event("x", "");
    assert_eq!(e.toast_id, "event:x:");
    e.timestamp = "t".into();
    e.toast_id = "  ".into();
    let e = normalize_event(e);
    assert_eq!(e.toast_id, "event:x:t");
    assert_eq!(e.title, "x");
    assert_eq!(e.schema_version, 1);
    assert_eq!(e.status, "info");
    let kept = normalize_event(with_title(event("y", "id"), "Title"));
    assert_eq!(kept.title, "Title");
    assert_eq!(kept.toast_id, "id");
    let again = normalize_event(kept.clone());
    assert_eq!(again, kept);
}
