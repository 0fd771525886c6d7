//! The action router: one command surface over two backends.
//!
//! Every operation prefers the structured accessibility path and falls back
//! to the vision backend only when the structured path is not applicable or
//! its call failed — never merely because a completed structured call
//! reported an unsuccessful outcome. The routing decisions are pure
//! functions here; the surrounding application performs the calls each
//! decision names and feeds the outcome into the next decision.

use vstd::prelude::*;

use crate::bytebot::ComputerUseResponse;
use crate::text::{bool_text, int_dec};
use crate::tree::{A11yWindow, WindowView};

verus! {

/// Which backend produced a result.
#[derive(Debug, Clone, Copy, PartialEq, Eq, Structural)]
pub enum RoutePath {
    /// The structured accessibility protocol.
    Atspi,
    /// The vision backend.
    Vlm,
    /// No backend was available.
    Unavailable,
}

/// One desktop element, normalized across both backends. The structured
/// identity fields are present exactly on structured-path results.
#[derive(Debug)]
pub struct DesktopElement {
    pub app_name: String,
    pub role: String,
    pub name: String,
    pub route: RoutePath,
    pub bus_name: Option<String>,
    pub object_path: Option<String>,
    pub child_count: i32,
}

/// Ghost image of a normalized desktop element.
#[verifier::ext_equal]
pub struct DesktopElementView {
    pub app_name: Seq<char>,
    pub role: Seq<char>,
    pub name: Seq<char>,
    pub route: RoutePath,
    pub bus_name: Option<Seq<char>>,
    pub object_path: Option<Seq<char>>,
    pub child_count: int,
}

impl DeepView for DesktopElement {
    type V = DesktopElementView;

    open spec fn deep_view(&self) -> DesktopElementView {
        DesktopElementView {
            app_name: self.app_name.view(),
            role: self.role.view(),
            name: self.name.view(),
            route: self.route,
            bus_name: match self.bus_name {
                Some(ref b) => Some(b.view()),
                None => None,
            },
            object_path: match self.object_path {
                Some(ref p) => Some(p.view()),
                None => None,
            },
            child_count: self.child_count as int,
        }
    }
}

/// Result of one routed action.
#[derive(Debug)]
pub struct ActionResult {
    /// Whether the action reported success.
    pub success: bool,
    /// Which backend performed it.
    pub route: RoutePath,
    /// Human-readable description of what happened.
    pub message: String,
    /// Screenshot data; present only on vision-path screenshot results.
    pub screenshot: Option<String>,
}

/// Ghost image of an action result.
#[verifier::ext_equal]
pub struct ActionResultView {
    pub success: bool,
    pub route: RoutePath,
    pub message: Seq<char>,
    pub screenshot: Option<Seq<char>>,
}

impl DeepView for ActionResult {
    type V = ActionResultView;

    open spec fn deep_view(&self) -> ActionResultView {
        ActionResultView {
            success: self.success,
            route: self.route,
            message: self.message.view(),
            screenshot: match self.screenshot {
                Some(ref s) => Some(s.view()),
                None => None,
            },
        }
    }
}

/// First routing decision of an operation that knows a structured path:
/// with both identity fields present the structured backend is invoked;
/// otherwise the operation falls through to its fallback decision.
#[derive(Debug)]
pub enum RouteStep {
    /// Invoke the structured backend on this bus identifier and path.
    Structured(String, String),
    /// No structured identity: decide the fallback.
    Fallback,
}

/// Ghost image of a first routing decision.
#[verifier::ext_equal]
pub enum RouteStepV {
    Structured(Seq<char>, Seq<char>),
    Fallback,
}

/// Ghost image of a [`RouteStep`].
pub open spec fn route_step_view(s: RouteStep) -> RouteStepV {
    match s {
        RouteStep::Structured(b, p) => RouteStepV::Structured(b.view(), p.view()),
        RouteStep::Fallback => RouteStepV::Fallback,
    }
}

/// The first decision: structured exactly when both identity fields are
/// present.
pub open spec fn structured_step_spec(
    bus: Option<Seq<char>>,
    path: Option<Seq<char>>,
) -> RouteStepV {
    match (bus, path) {
        (Some(b), Some(p)) => RouteStepV::Structured(b, p),
        _ => RouteStepV::Fallback,
    }
}

/// Decide the first step of a click or a text entry: the structured path
/// whenever both identity fields are present, the fallback otherwise.
pub fn structured_step(bus_name: Option<String>, object_path: Option<String>) -> (r: RouteStep)
    ensures
        route_step_view(r) == structured_step_spec(
            crate::walker::opt_string_view(bus_name),
            crate::walker::opt_string_view(object_path),
        ),
{
    match (bus_name, object_path) {
        (Some(b), Some(p)) => RouteStep::Structured(b, p),
        _ => RouteStep::Fallback,
    }
}

/// Result text of a completed structured click.
pub open spec fn click_structured_text(action_name: Seq<char>, success: bool) -> Seq<char> {
    "AT-SPI action '".view() + action_name + "' performed (success=".view() + bool_text(success)
        + ")".view()
}

/// Ghost image of a completed structured click: route Atspi whatever
/// success flag the call reported.
pub open spec fn click_structured_spec(success: bool, action_name: Seq<char>) -> ActionResultView {
    ActionResultView {
        success,
        route: RoutePath::Atspi,
        message: click_structured_text(action_name, success),
        screenshot: None,
    }
}

/// The result of a structured click that completed: the reported success
/// flag is carried through, and the route stays structured even when that
/// flag is false — a completed call is no fallback trigger.
pub fn click_structured_result(success: bool, action_name: &str) -> (r: ActionResult)
    ensures
        r.deep_view() == click_structured_spec(success, action_name.view()),
{
    let mut s = "AT-SPI action '".to_owned();
    s.append(action_name);
    s.append("' performed (success=");
    s.append(crate::text::bool_str(success));
    s.append(")");
    proof {
        assert(s.view() =~= click_structured_text(action_name.view(), success));
    }
    let r = ActionResult { success, route: RoutePath::Atspi, message: s, screenshot: None };
    proof {
        assert(r.deep_view() =~~= click_structured_spec(success, action_name.view()));
    }
    r
}

/// The vision fallback decision of a click.
#[derive(Debug)]
pub enum VisionStep {
    /// Click this coordinate through the vision backend.
    Click(i32, i32),
    /// Neither path is usable; fail with this text.
    NoTarget(String),
}

/// Ghost image of a vision fallback decision.
#[verifier::ext_equal]
pub enum VisionStepV {
    Click(i32, i32),
    NoTarget(Seq<char>),
}

/// Ghost image of a [`VisionStep`].
pub open spec fn vision_step_view(s: VisionStep) -> VisionStepV {
    match s {
        VisionStep::Click(x, y) => VisionStepV::Click(x, y),
        VisionStep::NoTarget(m) => VisionStepV::NoTarget(m.view()),
    }
}

/// Failure text when no click target is usable.
pub open spec fn no_click_target_text() -> Seq<char> {
    "No click target: provide AT-SPI path or (x, y) coordinates".view()
}

/// The click fallback: a vision click exactly when both coordinates are
/// present and the vision backend is available.
pub open spec fn click_fallback_spec(
    x: Option<i32>,
    y: Option<i32>,
    vision_available: bool,
) -> VisionStepV {
    match (x, y) {
        (Some(xv), Some(yv)) => if vision_available {
            VisionStepV::Click(xv, yv)
        } else {
            VisionStepV::NoTarget(no_click_target_text())
        },
        _ => VisionStepV::NoTarget(no_click_target_text()),
    }
}

/// Decide the click fallback after the structured path was inapplicable or
/// its call failed.
pub fn click_fallback(x: Option<i32>, y: Option<i32>, vision_available: bool) -> (r: VisionStep)
    ensures
        vision_step_view(r) == click_fallback_spec(x, y, vision_available),
{
    match (x, y) {
        (Some(xv), Some(yv)) => if vision_available {
            VisionStep::Click(xv, yv)
        } else {
            VisionStep::NoTarget("No click target: provide AT-SPI path or (x, y) coordinates"
                .to_owned())
        },
        _ => VisionStep::NoTarget("No click target: provide AT-SPI path or (x, y) coordinates"
            .to_owned()),
    }
}

/// Result text of a completed vision click.
pub open spec fn click_vision_text(x: i32, y: i32) -> Seq<char> {
    "Clicked at (".view() + int_dec(x as int) + ", ".view() + int_dec(y as int)
        + ") via Bytebot".view()
}

/// Ghost image of a completed vision click.
pub open spec fn click_vision_spec(x: i32, y: i32, success: bool) -> ActionResultView {
    ActionResultView {
        success,
        route: RoutePath::Vlm,
        message: click_vision_text(x, y),
        screenshot: None,
    }
}

/// The result of a vision click that completed.
pub fn click_vision_result(x: i32, y: i32, resp: &ComputerUseResponse) -> (r: ActionResult)
    ensures
        r.deep_view() == click_vision_spec(x, y, resp.success),
{
    let mut s = "Clicked at (".to_owned();
    let xd = crate::text::i32_dec_string(x);
    s.append(xd.as_str());
    s.append(", ");
    let yd = crate::text::i32_dec_string(y);
    s.append(yd.as_str());
    s.append(") via Bytebot");
    proof {
        assert(s.view() =~= click_vision_text(x, y));
    }
    let r = ActionResult {
        success: resp.success,
        route: RoutePath::Vlm,
        message: s,
        screenshot: None,
    };
    proof {
        assert(r.deep_view() =~~= click_vision_spec(x, y, resp.success));
    }
    r
}

/// Law: the structured path comes first and completion ends the routing.
/// With both identity fields present the first decided step is the
/// structured invocation — no vision step can be decided before it — and a
/// structured call that completed yields route [`RoutePath::Atspi`]
/// whatever success flag it reported.
pub proof fn lemma_click_structured_precedence(
    bus: Seq<char>,
    path: Seq<char>,
    success: bool,
    action_name: Seq<char>,
)
    ensures
        structured_step_spec(Some(bus), Some(path)) == RouteStepV::Structured(bus, path),
        click_structured_spec(success, action_name).route == RoutePath::Atspi,
{
}

/// Law: a click without structured identity routes through vision. The
/// first decision is the fallback, the fallback with coordinates and a
/// live vision backend is the vision click, and its completed result
/// carries route [`RoutePath::Vlm`].
pub proof fn lemma_click_vision_when_no_identity(
    bus: Option<Seq<char>>,
    path: Option<Seq<char>>,
    x: i32,
    y: i32,
    success: bool,
)
    requires
        bus is None || path is None,
    ensures
        structured_step_spec(bus, path) == RouteStepV::Fallback,
        click_fallback_spec(Some(x), Some(y), true) == VisionStepV::Click(x, y),
        click_vision_spec(x, y, success).route == RoutePath::Vlm,
{
}

/// Result text of a completed structured text entry.
pub open spec fn type_structured_text(text: Seq<char>, success: bool) -> Seq<char> {
    "AT-SPI set text '".view() + text + "' (success=".view() + bool_text(success) + ")".view()
}

/// Ghost image of a completed structured text entry.
pub open spec fn type_structured_spec(success: bool, text: Seq<char>) -> ActionResultView {
    ActionResultView {
        success,
        route: RoutePath::Atspi,
        message: type_structured_text(text, success),
        screenshot: None,
    }
}

/// The result of a structured text entry that completed; as with clicks, a
/// false success flag is no fallback trigger.
pub fn type_structured_result(success: bool, text: &str) -> (r: ActionResult)
    ensures
        r.deep_view() == type_structured_spec(success, text.view()),
{
    let mut s = "AT-SPI set text '".to_owned();
    s.append(text);
    s.append("' (success=");
    s.append(crate::text::bool_str(success));
    s.append(")");
    proof {
        assert(s.view() =~= type_structured_text(text.view(), success));
    }
    let r = ActionResult { success, route: RoutePath::Atspi, message: s, screenshot: None };
    proof {
        assert(r.deep_view() =~~= type_structured_spec(success, text.view()));
    }
    r
}

/// The typing fallback decision.
#[derive(Debug)]
pub enum TypeStep {
    /// Type through the vision backend, at whatever holds focus.
    Vision,
    /// The vision backend is not running; fail with this text.
    NotRunning(String),
}

/// Failure text when typing was never tried on the structured path and the
/// vision backend is not running either.
pub open spec fn cannot_type_text() -> Seq<char> {
    "Cannot type: Bytebot is not running".view()
}

/// Failure text when the structured text entry failed and the vision
/// backend is not running either; it names both failures.
pub open spec fn type_both_failed_text(structured_err: Seq<char>) -> Seq<char> {
    "Cannot type: AT-SPI set text failed: ".view() + structured_err
        + ". Bytebot: not running.".view()
}

/// Decide the typing fallback: vision typing exactly when the backend is
/// available. With the backend down, the failure text names the structured
/// failure too, when there was one.
pub fn type_fallback(structured_err: Option<&str>, vision_available: bool) -> (r: TypeStep)
    ensures
        vision_available ==> r is Vision,
        !vision_available ==> match r {
            TypeStep::NotRunning(m) => m.view() == match structured_err {
                Some(e) => type_both_failed_text(e.view()),
                None => cannot_type_text(),
            },
            _ => false,
        },
{
    if vision_available {
        TypeStep::Vision
    } else {
        match structured_err {
            Some(e) => {
                let mut s = "Cannot type: AT-SPI set text failed: ".to_owned();
                s.append(e);
                s.append(". Bytebot: not running.");
                proof {
                    assert(s.view() =~= type_both_failed_text(e.view()));
                }
                TypeStep::NotRunning(s)
            },
            None => TypeStep::NotRunning("Cannot type: Bytebot is not running".to_owned()),
        }
    }
}

/// Result text of completed vision typing.
pub open spec fn type_vision_text(text: Seq<char>) -> Seq<char> {
    "Typed '".view() + text + "' via Bytebot".view()
}

/// Ghost image of completed vision typing.
pub open spec fn type_vision_spec(text: Seq<char>, success: bool) -> ActionResultView {
    ActionResultView {
        success,
        route: RoutePath::Vlm,
        message: type_vision_text(text),
        screenshot: None,
    }
}

/// The result of vision typing that completed.
pub fn type_vision_result(text: &str, resp: &ComputerUseResponse) -> (r: ActionResult)
    ensures
        r.deep_view() == type_vision_spec(text.view(), resp.success),
{
    let mut s = "Typed '".to_owned();
    s.append(text);
    s.append("' via Bytebot");
    proof {
        assert(s.view() =~= type_vision_text(text.view()));
    }
    let r = ActionResult {
        success: resp.success,
        route: RoutePath::Vlm,
        message: s,
        screenshot: None,
    };
    proof {
        assert(r.deep_view() =~~= type_vision_spec(text.view(), resp.success));
    }
    r
}

/// Failure text when a screenshot is requested with no vision backend.
pub open spec fn vision_not_running_text() -> Seq<char> {
    "Bytebot is not running. Start with: docker-compose -f docker/docker-compose.yml up -d".view()
}

/// Gate a screenshot on vision availability: the screenshot is vision-only,
/// so an unavailable backend fails the operation.
pub fn screenshot_gate(vision_available: bool) -> (r: Option<String>)
    ensures
        vision_available ==> r is None,
        !vision_available ==> match r {
            Some(m) => m.view() == vision_not_running_text(),
            None => false,
        },
{
    if vision_available {
        None
    } else {
        Some(
            "Bytebot is not running. Start with: docker-compose -f docker/docker-compose.yml up -d"
                .to_owned(),
        )
    }
}

/// Result text of a completed screenshot.
pub open spec fn screenshot_text() -> Seq<char> {
    "Screenshot captured via Bytebot".view()
}

/// The result of a screenshot that completed: it carries the backend's
/// screenshot data and success flag.
pub fn screenshot_result(resp: ComputerUseResponse) -> (r: ActionResult)
    ensures
        r.deep_view() == (ActionResultView {
            success: resp.success,
            route: RoutePath::Vlm,
            message: screenshot_text(),
            screenshot: crate::walker::opt_string_view(resp.screenshot),
        }),
{
    let r = ActionResult {
        success: resp.success,
        route: RoutePath::Vlm,
        message: "Screenshot captured via Bytebot".to_owned(),
        screenshot: resp.screenshot,
    };
    proof {
        assert(r.deep_view() =~~= (ActionResultView {
            success: resp.success,
            route: RoutePath::Vlm,
            message: screenshot_text(),
            screenshot: crate::walker::opt_string_view(resp.screenshot),
        }));
    }
    r
}

/// The element a structured window enumeration entry maps to.
pub open spec fn element_of_window(w: WindowView) -> DesktopElementView {
    DesktopElementView {
        app_name: w.app_name,
        role: w.role,
        name: Seq::empty(),
        route: RoutePath::Atspi,
        bus_name: Some(w.bus_name),
        object_path: Some(w.path),
        child_count: w.child_count,
    }
}

/// Map a successful structured enumeration to normalized elements, one per
/// window, each carrying its structured identity and route Atspi. The
/// element name starts empty: the enumeration does not carry one.
#[verifier::loop_isolation(false)]
pub fn windows_to_elements(windows: &Vec<A11yWindow>) -> (r: Vec<DesktopElement>)
    ensures
        r.deep_view().len() == windows.deep_view().len(),
        forall|i: int|
            0 <= i < windows.deep_view().len() ==> #[trigger] r.deep_view()[i] == element_of_window(
                windows.deep_view()[i],
            ),
{
    let mut out: Vec<DesktopElement> = Vec::new();
    let mut i: usize = 0;
    while i < windows.len()
        invariant
            i <= windows.view().len(),
            out.deep_view().len() == i,
            forall|j: int|
                0 <= j < i ==> #[trigger] out.deep_view()[j] == element_of_window(
                    windows.deep_view()[j],
                ),
        decreases windows.view().len() - i,
    {
        let w = windows[i].clone();
        proof {
            assert(w.deep_view() == windows.deep_view()[i as int]);
        }
        let el = DesktopElement {
            app_name: w.app_name,
            role: w.role,
            name: String::new(),
            route: RoutePath::Atspi,
            bus_name: Some(w.bus_name),
            object_path: Some(w.path),
            child_count: w.child_count,
        };
        proof {
            assert(el.deep_view() =~~= element_of_window(windows.deep_view()[i as int]));
        }
        let ghost ov = out.deep_view();
        out.push(el);
        proof {
            assert(out.deep_view() =~= ov.push(el.deep_view()));
        }
        i = i + 1;
    }
    out
}

/// The single synthetic element reported when the structured enumeration
/// failed but the vision backend is alive.
pub open spec fn vision_fallback_element_spec() -> DesktopElementView {
    DesktopElementView {
        app_name: "Desktop (VLM)".view(),
        role: "desktop-frame".view(),
        name: "Bytebot VLM fallback".view(),
        route: RoutePath::Vlm,
        bus_name: None,
        object_path: None,
        child_count: 0,
    }
}

/// Failure text when the structured enumeration failed and the vision
/// backend is not running either; it names both failures.
pub open spec fn both_paths_error_text(atspi_err: Seq<char>) -> Seq<char> {
    "Both paths unavailable. AT-SPI: ".view() + atspi_err + ". Bytebot: not running.".view()
}

/// Resolve a failed structured enumeration: with the vision backend alive,
/// exactly one synthetic vision element; with it down, an error naming
/// both the structured failure and the missing vision backend.
pub fn list_fallback(atspi_err: &str, vision_available: bool) -> (r: Result<
    Vec<DesktopElement>,
    String,
>)
    ensures
        vision_available ==> match r {
            Ok(els) => els.deep_view() == seq![vision_fallback_element_spec()],
            Err(_) => false,
        },
        !vision_available ==> match r {
            Ok(_) => false,
            Err(m) => m.view() == both_paths_error_text(atspi_err.view()),
        },
{
    if vision_available {
        let el = DesktopElement {
            app_name: "Desktop (VLM)".to_owned(),
            role: "desktop-frame".to_owned(),
            name: "Bytebot VLM fallback".to_owned(),
            route: RoutePath::Vlm,
            bus_name: None,
            object_path: None,
            child_count: 0,
        };
        proof {
            assert(el.deep_view() =~~= vision_fallback_element_spec());
        }
        let mut els: Vec<DesktopElement> = Vec::new();
        els.push(el);
        proof {
            assert(els.deep_view() =~= seq![vision_fallback_element_spec()]);
        }
        Ok(els)
    } else {
        let mut s = "Both paths unavailable. AT-SPI: ".to_owned();
        s.append(atspi_err);
        s.append(". Bytebot: not running.");
        proof {
            assert(s.view() =~= both_paths_error_text(atspi_err.view()));
        }
        Err(s)
    }
}

/// Result text of the structured action command.
pub open spec fn do_action_text(action_name: Seq<char>) -> Seq<char> {
    "Action '".view() + action_name + "' performed".view()
}

/// The result the structured action command reports.
pub fn do_action_result(success: bool, action_name: &str) -> (r: ActionResult)
    ensures
        r.deep_view() == (ActionResultView {
            success,
            route: RoutePath::Atspi,
            message: do_action_text(action_name.view()),
            screenshot: None,
        }),
{
    let mut s = "Action '".to_owned();
    s.append(action_name);
    s.append("' performed");
    proof {
        assert(s.view() =~= do_action_text(action_name.view()));
    }
    let r = ActionResult { success, route: RoutePath::Atspi, message: s, screenshot: None };
    proof {
        assert(r.deep_view() =~~= (ActionResultView {
            success,
            route: RoutePath::Atspi,
            message: do_action_text(action_name.view()),
            screenshot: None,
        }));
    }
    r
}

/// Result text of the structured set-text command.
pub open spec fn set_text_done_text(text: Seq<char>) -> Seq<char> {
    "Text set to '".view() + text + "'".view()
}

/// The result the structured set-text command reports.
pub fn set_text_result(success: bool, text: &str) -> (r: ActionResult)
    ensures
        r.deep_view() == (ActionResultView {
            success,
            route: RoutePath::Atspi,
            message: set_text_done_text(text.view()),
            screenshot: None,
        }),
{
    let mut s = "Text set to '".to_owned();
    s.append(text);
    s.append("'");
    proof {
        assert(s.view() =~= set_text_done_text(text.view()));
    }
    let r = ActionResult { success, route: RoutePath::Atspi, message: s, screenshot: None };
    proof {
        assert(r.deep_view() =~~= (ActionResultView {
            success,
            route: RoutePath::Atspi,
            message: set_text_done_text(text.view()),
            screenshot: None,
        }));
    }
    r
}

} // verus!
