//! Tests of text rendering, error messages and protocol-client helpers.

use hgk_desktop::client::{
    action_label, click_point, collect_action_names, text_entry_settled, windows_from_fetches,
    WindowFetch,
};
use hgk_desktop::error::A11yError;
use hgk_desktop::text::{bool_str, i32_dec_string, u32_dec_string};
use hgk_desktop::tree::{collect_by_role, A11yNode, ElementExtents};

#[test]
fn decimal_rendering_is_exact() {
    assert_eq!(u32_dec_string(0), "0");
    assert_eq!(u32_dec_string(7), "7");
    assert_eq!(u32_dec_string(42), "42");
    assert_eq!(u32_dec_string(4_294_967_295), "4294967295");
    assert_eq!(i32_dec_string(0), "0");
    assert_eq!(i32_dec_string(-5), "-5");
    assert_eq!(i32_dec_string(2_147_483_647), "2147483647");
    assert_eq!(i32_dec_string(-2_147_483_648), "-2147483648");
    assert_eq!(bool_str(true), "true");
    assert_eq!(bool_str(false), "false");
}

#[test]
fn error_messages_render_each_variant() {
    assert_eq!(
        A11yError::Connection("timeout".to_string()).to_message(),
        "AT-SPI2 connection failed: timeout"
    );
    assert_eq!(
        A11yError::ElementNotFound { bus: ":1.2".to_string(), path: "/x".to_string() }
            .to_message(),
        "Element not found: :1.2:/x"
    );
    assert_eq!(
        A11yError::ActionFailed("no actions".to_string()).to_message(),
        "Action failed: no actions"
    );
    assert_eq!(
        A11yError::XdotoolFailed("not installed".to_string()).to_message(),
        "xdotool execution failed: not installed"
    );
    assert_eq!(
        A11yError::BytebotError("503".to_string()).to_message(),
        "Bytebot API error: 503"
    );
    assert_eq!(A11yError::DBus("closed".to_string()).to_message(), "D-Bus error: closed");
    assert_eq!(A11yError::Atspi("bad role".to_string()).to_message(), "AT-SPI error: bad role");
    assert_eq!(A11yError::Io("pipe".to_string()).to_message(), "IO error: pipe");
}

#[test]
fn action_label_degrades_to_index_placeholder() {
    assert_eq!(action_label(Some("press".to_string()), 0), "press");
    assert_eq!(action_label(None, 3), "action_3");
    assert_eq!(action_label(None, -1), "action_-1");
}

#[test]
fn collect_action_names_keeps_found_names_in_order() {
    let names = collect_action_names(vec![
        Some("press".to_string()),
        None,
        Some("release".to_string()),
    ]);
    assert_eq!(names, vec!["press".to_string(), "release".to_string()]);
}

#[test]
fn windows_from_fetches_skips_and_degrades() {
    let fetches = vec![
        WindowFetch {
            ok: true,
            app_name: Some("Editor".to_string()),
            role: Some("application".to_string()),
            child_count: Some(4),
            bus_name: ":1.4".to_string(),
            path: "/root".to_string(),
        },
        WindowFetch {
            ok: false,
            app_name: None,
            role: None,
            child_count: None,
            bus_name: ":1.5".to_string(),
            path: "/root".to_string(),
        },
        WindowFetch {
            ok: true,
            app_name: None,
            role: None,
            child_count: None,
            bus_name: ":1.6".to_string(),
            path: "/root".to_string(),
        },
    ];
    let windows = windows_from_fetches(&fetches);
    assert_eq!(windows.len(), 2);
    assert_eq!(windows[0].app_name, "Editor");
    assert_eq!(windows[0].child_count, 4);
    assert_eq!(windows[1].app_name, "");
    assert_eq!(windows[1].role, "unknown");
    assert_eq!(windows[1].child_count, 0);
    assert_eq!(windows[1].bus_name, ":1.6");
}

#[test]
fn click_point_centers_and_rejects_zero_size() {
    let visible = ElementExtents { x: 100, y: 40, width: 30, height: 11 };
    assert_eq!(click_point(&visible), Ok((115, 45)));
    // Only an element of zero width and zero height is refused.
    let hidden = ElementExtents { x: 5, y: 5, width: 0, height: 0 };
    assert_eq!(click_point(&hidden), Err("Element has zero size (not visible)".to_string()));
    // Any other extents yield their center, each side halved toward zero.
    let thin = ElementExtents { x: 5, y: 5, width: 0, height: 5 };
    assert_eq!(click_point(&thin), Ok((5, 7)));
    let flat = ElementExtents { x: 5, y: 5, width: 10, height: 0 };
    assert_eq!(click_point(&flat), Ok((10, 5)));
    let negative = ElementExtents { x: 5, y: 5, width: -3, height: 10 };
    assert_eq!(click_point(&negative), Ok((4, 10)));
}

#[test]
fn text_entry_settles_only_on_reported_success() {
    assert!(text_entry_settled(&Some(true)));
    assert!(!text_entry_settled(&Some(false)));
    assert!(!text_entry_settled(&None));
}

fn node(role: &str, name: &str, path: &str, children: Vec<A11yNode>) -> A11yNode {
    A11yNode {
        role: role.to_string(),
        name: name.to_string(),
        bus_name: ":1.4".to_string(),
        path: path.to_string(),
        children,
    }
}

#[test]
fn collect_by_role_folds_case_and_walks_preorder() {
    let tree = vec![node(
        "Application",
        "Editor",
        "/root",
        vec![
            node("Push Button", "Save", "/save", Vec::new()),
            node("push button", "", "/anon", Vec::new()),
            node(
                "Panel",
                "Body",
                "/body",
                vec![node("PUSH BUTTON", "Quit", "/quit", Vec::new())],
            ),
        ],
    )];
    let mut out: Vec<(String, String, String)> = Vec::new();
    collect_by_role(&tree, "push button", &mut out);
    // The mixed-case roles match only because the search lowercases them,
    // and the unnamed button is left out.
    assert_eq!(out.len(), 2);
    assert_eq!(out[0], ("Save".to_string(), "Push Button".to_string(), "/save".to_string()));
    assert_eq!(out[1], ("Quit".to_string(), "PUSH BUTTON".to_string(), "/quit".to_string()));
    let mut none: Vec<(String, String, String)> = Vec::new();
    collect_by_role(&tree, "menu item", &mut none);
    assert!(none.is_empty());
}
