//! Tests of the change detector and its cache coupling.

use hgk_desktop::cache::TreeCache;
use hgk_desktop::events::{detect_changes, focus_event, invalidate_for_events, state_event, DesktopEvent};
use hgk_desktop::tree::{A11yNode, A11yWindow};

fn window(app: &str, bus: &str) -> A11yWindow {
    A11yWindow {
        app_name: app.to_string(),
        bus_name: bus.to_string(),
        path: "/org/a11y/root".to_string(),
        role: "application".to_string(),
        child_count: 1,
    }
}

fn leaf(bus: &str) -> A11yNode {
    A11yNode {
        role: "frame".to_string(),
        name: "w".to_string(),
        bus_name: bus.to_string(),
        path: "/r".to_string(),
        children: Vec::new(),
    }
}

#[test]
fn detect_changes_reports_appear_and_disappear_as_a_set() {
    let previous = vec![window("A", ":1.1"), window("B", ":1.2")];
    let current = vec![window("B", ":1.2"), window("C", ":1.3")];
    let events = detect_changes(&previous, &current);
    assert_eq!(events.len(), 2);
    let mut saw_a_disappear = false;
    let mut saw_c_appear = false;
    for ev in &events {
        match ev {
            DesktopEvent::Disappeared(w) => {
                assert_eq!(w.app_name, "A");
                assert_eq!(w.bus_name, ":1.1");
                saw_a_disappear = true;
            }
            DesktopEvent::Appeared(w) => {
                assert_eq!(w.app_name, "C");
                assert_eq!(w.bus_name, ":1.3");
                saw_c_appear = true;
            }
            other => panic!("unexpected event {:?}", other),
        }
    }
    assert!(saw_a_disappear);
    assert!(saw_c_appear);
}

#[test]
fn detect_changes_identical_enumerations_give_exactly_no_change() {
    let ws = vec![window("A", ":1.1"), window("B", ":1.2")];
    let events = detect_changes(&ws, &ws);
    assert_eq!(events.len(), 1);
    assert!(matches!(events[0], DesktopEvent::NoChange));
}

#[test]
fn detect_changes_empty_both_sides_gives_no_change() {
    let events = detect_changes(&Vec::new(), &Vec::new());
    assert_eq!(events.len(), 1);
    assert!(matches!(events[0], DesktopEvent::NoChange));
}

#[test]
fn detector_output_invalidates_only_named_buses() {
    let mut cache = TreeCache::new();
    cache.put(":1.1", "/r", 2, vec![leaf(":1.1")], 0);
    cache.put(":1.2", "/r", 2, vec![leaf(":1.2")], 0);
    cache.put(":1.3", "/r", 2, vec![leaf(":1.3")], 0);
    let previous = vec![window("A", ":1.1"), window("B", ":1.2")];
    let current = vec![window("B", ":1.2"), window("C", ":1.3")];
    let events = detect_changes(&previous, &current);
    invalidate_for_events(&mut cache, &events);
    assert!(cache.get(":1.1", "/r", 2, 0).is_none());
    assert!(cache.get(":1.2", "/r", 2, 0).is_some());
    assert!(cache.get(":1.3", "/r", 2, 0).is_none());
}

#[test]
fn no_change_invalidates_nothing() {
    let mut cache = TreeCache::new();
    cache.put(":1.1", "/r", 2, vec![leaf(":1.1")], 0);
    let ws = vec![window("A", ":1.1")];
    let events = detect_changes(&ws, &ws);
    invalidate_for_events(&mut cache, &events);
    assert_eq!(cache.len(), 1);
}

#[test]
fn listener_events_carry_the_notification_fields() {
    let f = focus_event(":1.9".to_string(), "/elem".to_string());
    match f {
        DesktopEvent::FocusChanged { app_name, bus_name, path } => {
            assert_eq!(app_name, "");
            assert_eq!(bus_name, ":1.9");
            assert_eq!(path, "/elem");
        }
        other => panic!("unexpected event {:?}", other),
    }
    let s = state_event(":1.9".to_string(), "/w".to_string(), "visible".to_string(), 1);
    match s {
        DesktopEvent::StateChanged { state, enabled, .. } => {
            assert_eq!(state, "visible");
            assert!(enabled);
        }
        other => panic!("unexpected event {:?}", other),
    }
    let s0 = state_event(":1.9".to_string(), "/w".to_string(), "visible".to_string(), 0);
    assert!(matches!(s0, DesktopEvent::StateChanged { enabled: false, .. }));
}
