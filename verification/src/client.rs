//! Protocol client helpers: the decisions around the one-shot calls to the
//! accessibility service.
//!
//! The calls themselves are performed by the surrounding application; these
//! functions normalize their replies. Missing optional metadata degrades to
//! a placeholder instead of failing a whole enumeration; a per-window fetch
//! failure skips that window only.

use vstd::prelude::*;

use crate::text::{half_toward_zero, int_dec};
use crate::tree::{A11yWindow, ElementExtents, WindowView};

verus! {

/// Reply to one window query during registry enumeration. `ok` false means
/// the window's endpoint could not be reached at all and the window is
/// skipped; a missing name, role or child count degrades instead.
#[derive(Debug)]
pub struct WindowFetch {
    pub ok: bool,
    pub app_name: Option<String>,
    pub role: Option<String>,
    pub child_count: Option<i32>,
    pub bus_name: String,
    pub path: String,
}

/// Ghost image of a window-query reply.
#[verifier::ext_equal]
pub struct WindowFetchView {
    pub ok: bool,
    pub app_name: Option<Seq<char>>,
    pub role: Option<Seq<char>>,
    pub child_count: Option<i32>,
    pub bus_name: Seq<char>,
    pub path: Seq<char>,
}

impl DeepView for WindowFetch {
    type V = WindowFetchView;

    open spec fn deep_view(&self) -> WindowFetchView {
        WindowFetchView {
            ok: self.ok,
            app_name: match self.app_name {
                Some(ref s) => Some(s.view()),
                None => None,
            },
            role: match self.role {
                Some(ref s) => Some(s.view()),
                None => None,
            },
            child_count: self.child_count,
            bus_name: self.bus_name.view(),
            path: self.path.view(),
        }
    }
}

impl Clone for WindowFetch {
    fn clone(&self) -> (res: Self)
        ensures
            res.deep_view() == self.deep_view(),
    {
        let res = WindowFetch {
            ok: self.ok,
            app_name: match &self.app_name {
                Some(s) => Some(s.clone()),
                None => None,
            },
            role: match &self.role {
                Some(s) => Some(s.clone()),
                None => None,
            },
            child_count: self.child_count,
            bus_name: self.bus_name.clone(),
            path: self.path.clone(),
        };
        proof {
            assert(res.deep_view() =~~= self.deep_view());
        }
        res
    }
}

/// The window a reachable reply denotes: a missing name degrades to the
/// empty string, a missing role to "unknown", a missing count to 0.
pub open spec fn window_of_fetch(f: WindowFetchView) -> WindowView {
    WindowView {
        app_name: crate::walker::effective_name(f.app_name),
        bus_name: f.bus_name,
        path: f.path,
        role: crate::walker::effective_role(f.role),
        child_count: match f.child_count {
            Some(c) => c as int,
            None => 0,
        },
    }
}

/// The windows an enumeration's replies denote, in order, reachable
/// replies only.
pub open spec fn windows_of(s: Seq<WindowFetchView>) -> Seq<WindowView>
    decreases s.len(),
{
    if s.len() == 0 {
        Seq::empty()
    } else {
        windows_of(s.drop_last()) + (if s.last().ok {
            seq![window_of_fetch(s.last())]
        } else {
            Seq::empty()
        })
    }
}

/// Normalize the replies of a registry enumeration into windows: an
/// unreachable window is skipped, a reachable one keeps its reply's
/// fields, degraded where missing.
#[verifier::loop_isolation(false)]
pub fn windows_from_fetches(fetches: &Vec<WindowFetch>) -> (r: Vec<A11yWindow>)
    ensures
        r.deep_view() == windows_of(fetches.deep_view()),
{
    let mut out: Vec<A11yWindow> = Vec::new();
    let mut i: usize = 0;
    while i < fetches.len()
        invariant
            i <= fetches.view().len(),
            out.deep_view() =~= windows_of(fetches.deep_view().subrange(0, i as int)),
        decreases fetches.view().len() - i,
    {
        let ghost prefix = fetches.deep_view().subrange(0, i as int);
        proof {
            assert(fetches.deep_view().subrange(0, i + 1).drop_last() =~= prefix);
            assert(fetches.deep_view().subrange(0, i + 1).last() == fetches.deep_view()[
                i as int]);
        }
        let f = fetches[i].clone();
        if f.ok {
            let w = A11yWindow {
                app_name: match f.app_name {
                    Some(s) => s,
                    None => String::new(),
                },
                bus_name: f.bus_name,
                path: f.path,
                role: match f.role {
                    Some(s) => s,
                    None => "unknown".to_owned(),
                },
                child_count: match f.child_count {
                    Some(c) => c,
                    None => 0,
                },
            };
            proof {
                assert(w.deep_view() =~~= window_of_fetch(fetches.deep_view()[i as int]));
            }
            let ghost ov = out.deep_view();
            out.push(w);
            proof {
                assert(out.deep_view() =~= ov.push(w.deep_view()));
            }
        }
        i = i + 1;
    }
    proof {
        assert(fetches.deep_view().subrange(0, fetches.deep_view().len() as int)
            =~= fetches.deep_view());
    }
    out
}

/// The display label of an indexed action: the fetched name where the
/// lookup succeeded, a placeholder naming the index where it failed.
pub open spec fn action_label_spec(fetched: Option<Seq<char>>, index: i32) -> Seq<char> {
    match fetched {
        Some(n) => n,
        None => "action_".view() + int_dec(index as int),
    }
}

/// The display label of an indexed action.
pub fn action_label(fetched: Option<String>, index: i32) -> (r: String)
    ensures
        r.view() == action_label_spec(crate::walker::opt_string_view(fetched), index),
{
    match fetched {
        Some(n) => n,
        None => {
            let mut s = "action_".to_owned();
            let d = crate::text::i32_dec_string(index);
            s.append(d.as_str());
            proof {
                assert(s.view() =~= "action_".view() + int_dec(index as int));
            }
            s
        },
    }
}

/// The action names present among per-index lookups, in order.
pub open spec fn names_of(s: Seq<Option<Seq<char>>>) -> Seq<Seq<char>>
    decreases s.len(),
{
    if s.len() == 0 {
        Seq::empty()
    } else {
        names_of(s.drop_last()) + (match s.last() {
            Some(n) => seq![n],
            None => Seq::empty(),
        })
    }
}

/// Keep the action names whose per-index lookup succeeded, in index order;
/// a failed lookup is skipped, as the enumeration degrades per action.
#[verifier::loop_isolation(false)]
pub fn collect_action_names(fetched: Vec<Option<String>>) -> (r: Vec<String>)
    ensures
        r.deep_view() == names_of(fetched.deep_view()),
{
    let mut out: Vec<String> = Vec::new();
    let mut rest = fetched;
    let ghost fv = rest.deep_view();
    let n = rest.len();
    let mut i: usize = 0;
    while rest.len() > 0
        invariant
            n == fv.len(),
            i + rest.view().len() == n,
            rest.deep_view() =~= fv.subrange(i as int, fv.len() as int),
            out.deep_view() =~= names_of(fv.subrange(0, i as int)),
        decreases rest.view().len(),
    {
        let ghost rv0 = rest.deep_view();
        let x = rest.remove(0);
        proof {
            assert(rv0[0] == fv[i as int]);
            assert(x.deep_view() == rv0[0]);
            assert(crate::walker::opt_string_view(x) == x.deep_view());
            assert(fv.subrange(0, i + 1).drop_last() =~= fv.subrange(0, i as int));
            assert(fv.subrange(0, i + 1).last() == fv[i as int]);
            assert(rest.deep_view() =~= rv0.drop_first());
            assert(rv0.drop_first() =~= fv.subrange(i + 1, fv.len() as int));
        }
        match x {
            Some(name) => {
                let ghost ov = out.deep_view();
                out.push(name);
                proof {
                    assert(out.deep_view() =~= ov.push(name.view()));
                }
            },
            None => {},
        }
        i = i + 1;
    }
    proof {
        assert(fv.subrange(0, fv.len() as int) =~= fv);
    }
    out
}

/// Failure text for a click on an element that reports no size.
pub open spec fn zero_size_text() -> Seq<char> {
    "Element has zero size (not visible)".view()
}

/// The screen point a structured element click targets: the center of the
/// element's extents, each side halved toward zero as machine division
/// does. Only an element of zero width and zero height is refused as not
/// visible; any other extents yield their center.
pub fn click_point(ext: &ElementExtents) -> (r: Result<(i32, i32), String>)
    requires
        !(ext.width == 0 && ext.height == 0) ==> i32::MIN <= ext.x + half_toward_zero(
            ext.width as int,
        ) <= i32::MAX,
        !(ext.width == 0 && ext.height == 0) ==> i32::MIN <= ext.y + half_toward_zero(
            ext.height as int,
        ) <= i32::MAX,
    ensures
        ext.width == 0 && ext.height == 0 ==> match r {
            Ok(_) => false,
            Err(m) => m.view() == zero_size_text(),
        },
        !(ext.width == 0 && ext.height == 0) ==> r == Ok::<(i32, i32), String>(
            (
                (ext.x + half_toward_zero(ext.width as int)) as i32,
                (ext.y + half_toward_zero(ext.height as int)) as i32,
            ),
        ),
{
    if ext.width == 0 && ext.height == 0 {
        Err("Element has zero size (not visible)".to_owned())
    } else {
        Ok((ext.x + ext.width / 2, ext.y + ext.height / 2))
    }
}

/// After a structured text entry: typing is finished exactly when the call
/// completed and reported success; a completed call that reported failure,
/// or a failed call, falls back to focus-and-inject.
pub fn text_entry_settled(outcome: &Option<bool>) -> (r: bool)
    ensures
        r == (outcome == Some(true)),
{
    match outcome {
        Some(true) => true,
        _ => false,
    }
}

} // verus!
