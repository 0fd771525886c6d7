//! Tests of the action router and the vision backend client logic.

use hgk_desktop::bytebot::{
    classify_http_response, decode_error, response_from_parts, transport_error, BytebotAction,
    BytebotClient, ComputerUseResponse,
};
use hgk_desktop::router::{
    click_fallback, click_structured_result, click_vision_result, do_action_result, list_fallback,
    screenshot_gate, screenshot_result, set_text_result, structured_step, type_fallback,
    type_structured_result, type_vision_result, windows_to_elements, RoutePath, RouteStep,
    TypeStep, VisionStep,
};
use hgk_desktop::tree::A11yWindow;

/// Counts how often the vision backend is reached.
struct VisionProbe {
    calls: usize,
}

impl VisionProbe {
    fn click(&mut self, _x: i32, _y: i32) -> ComputerUseResponse {
        self.calls += 1;
        ComputerUseResponse { screenshot: None, message: None, success: true }
    }
}

#[test]
fn click_with_identity_routes_structured_and_never_reaches_vision() {
    let mut vision = VisionProbe { calls: 0 };
    let step = structured_step(Some(":1.4".to_string()), Some("/btn".to_string()));
    let result = match step {
        RouteStep::Structured(bus, path) => {
            assert_eq!(bus, ":1.4");
            assert_eq!(path, "/btn");
            // The structured call completes (here: reporting success).
            click_structured_result(true, "click")
        }
        RouteStep::Fallback => match click_fallback(Some(10), Some(20), true) {
            VisionStep::Click(x, y) => {
                let resp = vision.click(x, y);
                click_vision_result(x, y, &resp)
            }
            VisionStep::NoTarget(m) => panic!("unexpected: {}", m),
        },
    };
    assert!(matches!(result.route, RoutePath::Atspi));
    assert!(result.success);
    assert_eq!(result.message, "AT-SPI action 'click' performed (success=true)");
    assert_eq!(vision.calls, 0);
}

#[test]
fn click_completed_structured_call_with_false_flag_is_no_fallback() {
    let result = click_structured_result(false, "press");
    assert!(matches!(result.route, RoutePath::Atspi));
    assert!(!result.success);
    assert_eq!(result.message, "AT-SPI action 'press' performed (success=false)");
}

#[test]
fn click_with_coordinates_only_routes_vision() {
    let mut vision = VisionProbe { calls: 0 };
    let step = structured_step(None, None);
    assert!(matches!(step, RouteStep::Fallback));
    let result = match click_fallback(Some(120), Some(-35), true) {
        VisionStep::Click(x, y) => {
            let resp = vision.click(x, y);
            click_vision_result(x, y, &resp)
        }
        VisionStep::NoTarget(m) => panic!("unexpected: {}", m),
    };
    assert!(matches!(result.route, RoutePath::Vlm));
    assert_eq!(result.message, "Clicked at (120, -35) via Bytebot");
    assert_eq!(vision.calls, 1);
}

#[test]
fn click_without_any_target_fails() {
    match click_fallback(None, None, true) {
        VisionStep::NoTarget(m) => {
            assert_eq!(m, "No click target: provide AT-SPI path or (x, y) coordinates")
        }
        VisionStep::Click(_, _) => panic!("no coordinates were given"),
    }
    match click_fallback(Some(1), Some(2), false) {
        VisionStep::NoTarget(m) => {
            assert_eq!(m, "No click target: provide AT-SPI path or (x, y) coordinates")
        }
        VisionStep::Click(_, _) => panic!("vision backend is down"),
    }
}

#[test]
fn type_text_prefers_structured_then_vision() {
    let step = structured_step(Some(":1.4".to_string()), Some("/entry".to_string()));
    assert!(matches!(step, RouteStep::Structured(_, _)));
    let done = type_structured_result(true, "hello");
    assert!(matches!(done.route, RoutePath::Atspi));
    assert_eq!(done.message, "AT-SPI set text 'hello' (success=true)");

    match type_fallback(None, true) {
        TypeStep::Vision => {}
        TypeStep::NotRunning(m) => panic!("unexpected: {}", m),
    }
    let resp = ComputerUseResponse { screenshot: None, message: None, success: true };
    let via_vision = type_vision_result("hello", &resp);
    assert!(matches!(via_vision.route, RoutePath::Vlm));
    assert_eq!(via_vision.message, "Typed 'hello' via Bytebot");

    match type_fallback(None, false) {
        TypeStep::NotRunning(m) => assert_eq!(m, "Cannot type: Bytebot is not running"),
        TypeStep::Vision => panic!("vision backend is down"),
    }
}

#[test]
fn type_text_error_names_both_failures() {
    match type_fallback(Some("set_text_contents failed: no interface"), false) {
        TypeStep::NotRunning(m) => {
            assert_eq!(
                m,
                "Cannot type: AT-SPI set text failed: set_text_contents failed: no interface. \
                 Bytebot: not running."
            );
            assert!(m.contains("set_text_contents failed: no interface"));
            assert!(m.contains("Bytebot: not running"));
        }
        TypeStep::Vision => panic!("vision backend is down"),
    }
    // A structured failure with the backend alive still falls through to
    // vision typing.
    assert!(matches!(type_fallback(Some("boom"), true), TypeStep::Vision));
}

#[test]
fn list_elements_maps_windows_to_structured_elements() {
    let windows = vec![
        A11yWindow {
            app_name: "Editor".to_string(),
            bus_name: ":1.4".to_string(),
            path: "/org/a11y/root".to_string(),
            role: "application".to_string(),
            child_count: 2,
        },
        A11yWindow {
            app_name: "Player".to_string(),
            bus_name: ":1.5".to_string(),
            path: "/org/a11y/root".to_string(),
            role: "application".to_string(),
            child_count: 0,
        },
    ];
    let els = windows_to_elements(&windows);
    assert_eq!(els.len(), 2);
    assert_eq!(els[0].app_name, "Editor");
    assert_eq!(els[0].name, "");
    assert!(matches!(els[0].route, RoutePath::Atspi));
    assert_eq!(els[0].bus_name.as_deref(), Some(":1.4"));
    assert_eq!(els[0].object_path.as_deref(), Some("/org/a11y/root"));
    assert_eq!(els[1].app_name, "Player");
    assert_eq!(els[1].child_count, 0);
}

#[test]
fn list_elements_fallback_synthetic_vision_element() {
    let els = list_fallback("registry unreachable", true).expect("vision is alive");
    assert_eq!(els.len(), 1);
    assert_eq!(els[0].app_name, "Desktop (VLM)");
    assert_eq!(els[0].role, "desktop-frame");
    assert_eq!(els[0].name, "Bytebot VLM fallback");
    assert!(matches!(els[0].route, RoutePath::Vlm));
    assert!(els[0].bus_name.is_none());
    assert!(els[0].object_path.is_none());
}

#[test]
fn list_elements_error_names_both_failures() {
    let err = list_fallback("AT-SPI2 connection failed: timeout", false)
        .expect_err("both paths are down");
    assert_eq!(
        err,
        "Both paths unavailable. AT-SPI: AT-SPI2 connection failed: timeout. Bytebot: not running."
    );
    assert!(err.contains("AT-SPI2 connection failed: timeout"));
    assert!(err.contains("Bytebot: not running"));
}

#[test]
fn screenshot_requires_vision_backend() {
    assert!(screenshot_gate(true).is_none());
    let msg = screenshot_gate(false).expect("gate refuses");
    assert_eq!(
        msg,
        "Bytebot is not running. Start with: docker-compose -f docker/docker-compose.yml up -d"
    );
    let resp = ComputerUseResponse {
        screenshot: Some("aGVsbG8=".to_string()),
        message: None,
        success: true,
    };
    let done = screenshot_result(resp);
    assert!(matches!(done.route, RoutePath::Vlm));
    assert!(done.success);
    assert_eq!(done.message, "Screenshot captured via Bytebot");
    assert_eq!(done.screenshot.as_deref(), Some("aGVsbG8="));
}

#[test]
fn http_error_carries_status_and_body() {
    let err = classify_http_response(503, "503 Service Unavailable", "backend rebooting".to_string())
        .expect_err("non-2xx fails");
    assert_eq!(err, "Bytebot error (503 Service Unavailable): backend rebooting");
    let ok = classify_http_response(200, "200 OK", "{\"success\":true}".to_string())
        .expect("2xx passes the body on");
    assert_eq!(ok, "{\"success\":true}");
}

#[test]
fn http_error_distinguishable_from_transport_error() {
    let http = classify_http_response(500, "500 Internal Server Error", "boom".to_string())
        .expect_err("non-2xx fails");
    let transport = transport_error("connection refused");
    assert_ne!(http, transport);
    assert_eq!(transport, "Bytebot request failed: connection refused");
    assert_eq!(
        decode_error("missing field"),
        "Bytebot response parse error: missing field"
    );
}

#[test]
fn response_defaults_success_to_true() {
    let r = response_from_parts(None, Some("done".to_string()), None);
    assert!(r.success);
    assert_eq!(r.message.as_deref(), Some("done"));
    assert!(r.screenshot.is_none());
    let r2 = response_from_parts(None, None, Some(false));
    assert!(!r2.success);
}

#[test]
fn client_urls_and_requests() {
    let c = BytebotClient::new(BytebotClient::default_url());
    assert_eq!(c.health_url(), "http://localhost:9990/health");
    assert_eq!(c.action_url(), "http://localhost:9990/computer-use");
    let shot = c.screenshot_request();
    assert_eq!(shot.action, "screenshot");
    assert!(shot.coordinate.is_none());
    assert!(shot.text.is_none());
    let click = c.click_request(4, -7);
    assert_eq!(click.action, "click");
    assert_eq!(click.coordinate, Some([4, -7]));
    let ty = c.type_request("abc".to_string());
    assert_eq!(ty.action, "type");
    assert_eq!(ty.text.as_deref(), Some("abc"));
    assert_eq!(BytebotAction::Screenshot.name(), "screenshot");
    assert_eq!(BytebotAction::ScrollUp.name(), "scroll_up");
}

#[test]
fn command_result_builders() {
    let a = do_action_result(true, "press");
    assert_eq!(a.message, "Action 'press' performed");
    assert!(matches!(a.route, RoutePath::Atspi));
    let t = set_text_result(true, "hi");
    assert_eq!(t.message, "Text set to 'hi'");
}
