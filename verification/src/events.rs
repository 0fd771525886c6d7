//! Desktop change detection.
//!
//! [`detect_changes`] diffs two point-in-time window enumerations into
//! appear/disappear events; when nothing changed it reports exactly one
//! [`DesktopEvent::NoChange`], never an empty sequence. The push-based
//! listener that republishes live focus and state notifications uses the
//! same event vocabulary, built through [`focus_event`] and
//! [`state_event`]. [`invalidate_for_events`] feeds detector output into
//! the tree cache.

use vstd::prelude::*;

use crate::cache::{restrict_entries, CacheEntryView, CacheKeyV, TreeCache};
use crate::tree::{A11yWindow, WindowView};

verus! {

/// One desktop event, from the polling diff or from the live listener.
#[derive(Debug)]
pub enum DesktopEvent {
    /// A window appeared since the previous enumeration.
    Appeared(A11yWindow),
    /// A window disappeared since the previous enumeration.
    Disappeared(A11yWindow),
    /// Nothing changed between the two enumerations.
    NoChange,
    /// A window gained keyboard focus (live listener).
    FocusChanged { app_name: String, bus_name: String, path: String },
    /// A window's state toggled (live listener).
    StateChanged { app_name: String, bus_name: String, path: String, state: String, enabled: bool },
}

/// Ghost image of a desktop event.
#[verifier::ext_equal]
pub enum EventView {
    Appeared(WindowView),
    Disappeared(WindowView),
    NoChange,
    FocusChanged { app_name: Seq<char>, bus_name: Seq<char>, path: Seq<char> },
    StateChanged {
        app_name: Seq<char>,
        bus_name: Seq<char>,
        path: Seq<char>,
        state: Seq<char>,
        enabled: bool,
    },
}

impl DeepView for DesktopEvent {
    type V = EventView;

    open spec fn deep_view(&self) -> EventView {
        match self {
            DesktopEvent::Appeared(w) => EventView::Appeared(w.deep_view()),
            DesktopEvent::Disappeared(w) => EventView::Disappeared(w.deep_view()),
            DesktopEvent::NoChange => EventView::NoChange,
            DesktopEvent::FocusChanged { app_name, bus_name, path } => EventView::FocusChanged {
                app_name: app_name.view(),
                bus_name: bus_name.view(),
                path: path.view(),
            },
            DesktopEvent::StateChanged { app_name, bus_name, path, state, enabled } => {
                EventView::StateChanged {
                    app_name: app_name.view(),
                    bus_name: bus_name.view(),
                    path: path.view(),
                    state: state.view(),
                    enabled: *enabled,
                }
            },
        }
    }
}

impl Clone for DesktopEvent {
    fn clone(&self) -> (res: Self)
        ensures
            res.deep_view() == self.deep_view(),
    {
        let res = match self {
            DesktopEvent::Appeared(w) => DesktopEvent::Appeared(w.clone()),
            DesktopEvent::Disappeared(w) => DesktopEvent::Disappeared(w.clone()),
            DesktopEvent::NoChange => DesktopEvent::NoChange,
            DesktopEvent::FocusChanged { app_name, bus_name, path } => DesktopEvent::FocusChanged {
                app_name: app_name.clone(),
                bus_name: bus_name.clone(),
                path: path.clone(),
            },
            DesktopEvent::StateChanged { app_name, bus_name, path, state, enabled } => {
                DesktopEvent::StateChanged {
                    app_name: app_name.clone(),
                    bus_name: bus_name.clone(),
                    path: path.clone(),
                    state: state.clone(),
                    enabled: *enabled,
                }
            },
        };
        proof {
            assert(res.deep_view() =~~= self.deep_view());
        }
        res
    }
}

/// Some window of the enumeration carries this bus identifier.
pub open spec fn bus_present(ws: Seq<WindowView>, bus: Seq<char>) -> bool {
    exists|i: int| 0 <= i < ws.len() && ws[i].bus_name == bus
}

/// The windows of `from` whose bus identifier does not occur in `against`,
/// in order.
pub open spec fn vanished(from: Seq<WindowView>, against: Seq<WindowView>) -> Seq<WindowView>
    decreases from.len(),
{
    if from.len() == 0 {
        from
    } else {
        vanished(from.drop_last(), against) + (if !bus_present(against, from.last().bus_name) {
            seq![from.last()]
        } else {
            Seq::empty()
        })
    }
}

/// The event sequence the diff of `prev` against `cur` produces: one
/// disappearance per vanished previous window, one appearance per new
/// current window, and exactly `[NoChange]` when there is neither.
pub open spec fn detect_spec(prev: Seq<WindowView>, cur: Seq<WindowView>) -> Seq<EventView> {
    let gone = vanished(prev, cur).map_values(|w: WindowView| EventView::Disappeared(w));
    let fresh_ws = vanished(cur, prev).map_values(|w: WindowView| EventView::Appeared(w));
    if gone.len() == 0 && fresh_ws.len() == 0 {
        seq![EventView::NoChange]
    } else {
        gone + fresh_ws
    }
}

#[verifier::loop_isolation(false)]
fn contains_bus(ws: &Vec<A11yWindow>, bus: &String) -> (r: bool)
    ensures
        r == bus_present(ws.deep_view(), bus.view()),
{
    let mut i: usize = 0;
    while i < ws.len()
        invariant
            i <= ws.view().len(),
            forall|j: int| 0 <= j < i ==> ws.deep_view()[j].bus_name != bus.view(),
        decreases ws.view().len() - i,
    {
        if ws[i].bus_name == *bus {
            proof {
                assert(ws.deep_view()[i as int].bus_name == bus.view());
            }
            return true;
        }
        i = i + 1;
    }
    false
}

#[verifier::loop_isolation(false)]
fn vanished_windows(from: &Vec<A11yWindow>, against: &Vec<A11yWindow>) -> (r: Vec<A11yWindow>)
    ensures
        r.deep_view() == vanished(from.deep_view(), against.deep_view()),
{
    let mut out: Vec<A11yWindow> = Vec::new();
    let mut i: usize = 0;
    while i < from.len()
        invariant
            i <= from.view().len(),
            out.deep_view() =~= vanished(
                from.deep_view().subrange(0, i as int),
                against.deep_view(),
            ),
        decreases from.view().len() - i,
    {
        let ghost prefix = from.deep_view().subrange(0, i as int);
        proof {
            assert(from.deep_view().subrange(0, i + 1).drop_last() =~= prefix);
            assert(from.deep_view().subrange(0, i + 1).last() == from.deep_view()[i as int]);
        }
        if !contains_bus(against, &from[i].bus_name) {
            let w = from[i].clone();
            let ghost ov = out.deep_view();
            out.push(w);
            proof {
                assert(w.deep_view() == from.deep_view()[i as int]);
                assert(out.deep_view() =~= ov.push(w.deep_view()));
            }
        }
        i = i + 1;
    }
    proof {
        assert(from.deep_view().subrange(0, from.deep_view().len() as int) =~= from.deep_view());
    }
    out
}

/// Diff a previous window enumeration against a current one.
///
/// The result holds one [`DesktopEvent::Disappeared`] for each previous
/// window whose bus identifier is absent from the current enumeration, one
/// [`DesktopEvent::Appeared`] for each current window whose bus identifier
/// is absent from the previous one, and is exactly `[NoChange]` when both
/// diffs are empty.
#[verifier::loop_isolation(false)]
pub fn detect_changes(previous: &Vec<A11yWindow>, current: &Vec<A11yWindow>) -> (r: Vec<
    DesktopEvent,
>)
    ensures
        r.deep_view() == detect_spec(previous.deep_view(), current.deep_view()),
{
    let gone = vanished_windows(previous, current);
    let fresh_ws = vanished_windows(current, previous);
    let mut out: Vec<DesktopEvent> = Vec::new();
    if gone.len() == 0 && fresh_ws.len() == 0 {
        out.push(DesktopEvent::NoChange);
        proof {
            assert(gone.deep_view().map_values(
                |w: WindowView| EventView::Disappeared(w),
            ).len() == 0);
            assert(fresh_ws.deep_view().map_values(|w: WindowView| EventView::Appeared(w)).len()
                == 0);
            assert(out.deep_view() =~= detect_spec(previous.deep_view(), current.deep_view()));
        }
        return out;
    }
    let mut i: usize = 0;
    while i < gone.len()
        invariant
            i <= gone.view().len(),
            out.deep_view() =~= gone.deep_view().subrange(0, i as int).map_values(
                (|w: WindowView| EventView::Disappeared(w)),
            ),
        decreases gone.view().len() - i,
    {
        let w = gone[i].clone();
        let ghost ov = out.deep_view();
        let ev = DesktopEvent::Disappeared(w);
        proof {
            assert(ev.deep_view() == EventView::Disappeared(gone.deep_view()[i as int]));
        }
        out.push(ev);
        proof {
            assert(out.deep_view() =~= ov.push(ev.deep_view()));
        }
        i = i + 1;
    }
    let mut j: usize = 0;
    while j < fresh_ws.len()
        invariant
            j <= fresh_ws.view().len(),
            out.deep_view() =~= gone.deep_view().map_values(
                (|w: WindowView| EventView::Disappeared(w)),
            ) + fresh_ws.deep_view().subrange(0, j as int).map_values(
                (|w: WindowView| EventView::Appeared(w)),
            ),
        decreases fresh_ws.view().len() - j,
    {
        let w = fresh_ws[j].clone();
        let ghost ov = out.deep_view();
        let ev = DesktopEvent::Appeared(w);
        proof {
            assert(ev.deep_view() == EventView::Appeared(fresh_ws.deep_view()[j as int]));
        }
        out.push(ev);
        proof {
            assert(out.deep_view() =~= ov.push(ev.deep_view()));
        }
        j = j + 1;
    }
    proof {
        assert(gone.deep_view().subrange(0, gone.deep_view().len() as int) =~= gone.deep_view());
        assert(fresh_ws.deep_view().subrange(0, fresh_ws.deep_view().len() as int)
            =~= fresh_ws.deep_view());
        assert(gone.deep_view().len() > 0 || fresh_ws.deep_view().len() > 0);
        assert(out.deep_view() =~= detect_spec(previous.deep_view(), current.deep_view()));
    }
    out
}

/// Law: diffing an enumeration against itself reports exactly `[NoChange]`.
pub proof fn lemma_detect_no_change(ws: Seq<WindowView>)
    ensures
        detect_spec(ws, ws) == seq![EventView::NoChange],
{
    lemma_vanished_self(ws, ws);
}

/// Law: the diff, read as a set. The result carries a disappearance of
/// `w` exactly when `w` stands in the previous enumeration with a bus
/// identifier absent from the current one, and an appearance of `w`
/// exactly when `w` stands in the current enumeration with a bus
/// identifier absent from the previous one — in whatever order the result
/// lists them. With [`lemma_detect_no_change`] this settles the whole
/// event vocabulary of the diff.
pub proof fn lemma_detect_changes_set(prev: Seq<WindowView>, cur: Seq<WindowView>)
    ensures
        forall|w: WindowView| #[trigger] detect_spec(prev, cur).contains(EventView::Disappeared(w))
            <==> prev.contains(w) && !bus_present(cur, w.bus_name),
        forall|w: WindowView| #[trigger] detect_spec(prev, cur).contains(EventView::Appeared(w))
            <==> cur.contains(w) && !bus_present(prev, w.bus_name),
{
    lemma_vanished_contains(prev, cur);
    lemma_vanished_contains(cur, prev);
    let gone = vanished(prev, cur);
    let fresh_ws = vanished(cur, prev);
    let gm = gone.map_values(|w: WindowView| EventView::Disappeared(w));
    let am = fresh_ws.map_values(|w: WindowView| EventView::Appeared(w));
    let d = detect_spec(prev, cur);
    if gm.len() == 0 && am.len() == 0 {
        assert(d == seq![EventView::NoChange]);
        assert forall|w: WindowView| !(#[trigger] d.contains(EventView::Disappeared(w)))
            && !(#[trigger] d.contains(EventView::Appeared(w))) by {
            assert(forall|i: int| 0 <= i < d.len() ==> #[trigger] d[i] == EventView::NoChange);
        }
        assert forall|w: WindowView| !(prev.contains(w) && !bus_present(cur, w.bus_name)) by {
            if prev.contains(w) && !bus_present(cur, w.bus_name) {
                assert(gone.contains(w));
            }
        }
        assert forall|w: WindowView| !(cur.contains(w) && !bus_present(prev, w.bus_name)) by {
            if cur.contains(w) && !bus_present(prev, w.bus_name) {
                assert(fresh_ws.contains(w));
            }
        }
    } else {
        assert(d == gm + am);
        assert forall|w: WindowView| #[trigger] d.contains(EventView::Disappeared(w))
            <==> prev.contains(w) && !bus_present(cur, w.bus_name) by {
            if d.contains(EventView::Disappeared(w)) {
                let i = choose|i: int| 0 <= i < d.len() && d[i] == EventView::Disappeared(w);
                if i < gm.len() {
                    assert(gm[i] == EventView::Disappeared(gone[i]));
                    assert(gone[i] == w);
                    assert(gone.contains(w));
                } else {
                    assert(d[i] == am[i - gm.len()]);
                    assert(am[i - gm.len()] == EventView::Appeared(fresh_ws[i - gm.len()]));
                }
            }
            if prev.contains(w) && !bus_present(cur, w.bus_name) {
                assert(gone.contains(w));
                let j = choose|j: int| 0 <= j < gone.len() && gone[j] == w;
                assert(gm[j] == EventView::Disappeared(w));
                assert(d[j] == EventView::Disappeared(w));
                assert(d.contains(EventView::Disappeared(w)));
            }
        }
        assert forall|w: WindowView| #[trigger] d.contains(EventView::Appeared(w))
            <==> cur.contains(w) && !bus_present(prev, w.bus_name) by {
            if d.contains(EventView::Appeared(w)) {
                let i = choose|i: int| 0 <= i < d.len() && d[i] == EventView::Appeared(w);
                if i < gm.len() {
                    assert(gm[i] == EventView::Disappeared(gone[i]));
                } else {
                    assert(d[i] == am[i - gm.len()]);
                    assert(am[i - gm.len()] == EventView::Appeared(fresh_ws[i - gm.len()]));
                    assert(fresh_ws[i - gm.len()] == w);
                    assert(fresh_ws.contains(w));
                }
            }
            if cur.contains(w) && !bus_present(prev, w.bus_name) {
                assert(fresh_ws.contains(w));
                let j = choose|j: int| 0 <= j < fresh_ws.len() && fresh_ws[j] == w;
                assert(am[j] == EventView::Appeared(w));
                assert(d[gm.len() + j] == EventView::Appeared(w));
                assert(d.contains(EventView::Appeared(w)));
            }
        }
    }
}

proof fn lemma_vanished_contains(from: Seq<WindowView>, against: Seq<WindowView>)
    ensures
        forall|w: WindowView| #[trigger] vanished(from, against).contains(w) <==> from.contains(w)
            && !bus_present(against, w.bus_name),
    decreases from.len(),
{
    if from.len() > 0 {
        let s0 = from.drop_last();
        lemma_vanished_contains(s0, against);
        let v0 = vanished(s0, against);
        let v = vanished(from, against);
        assert forall|w: WindowView| #[trigger] v.contains(w) implies from.contains(w)
            && !bus_present(against, w.bus_name) by {
            let i = choose|i: int| 0 <= i < v.len() && v[i] == w;
            if i < v0.len() {
                assert(v0[i] == w);
                assert(v0.contains(w));
                let j = choose|j: int| 0 <= j < s0.len() && s0[j] == w;
                assert(from[j] == w);
                assert(from.contains(w));
            } else {
                assert(v[i] == from.last());
                assert(from[from.len() - 1] == w);
                assert(from.contains(w));
            }
        }
        assert forall|w: WindowView| from.contains(w) && !bus_present(against, w.bus_name)
            implies #[trigger] v.contains(w) by {
            let i = choose|i: int| 0 <= i < from.len() && from[i] == w;
            if i < from.len() - 1 {
                assert(s0[i] == w);
                assert(s0.contains(w));
                assert(v0.contains(w));
                let j = choose|j: int| 0 <= j < v0.len() && v0[j] == w;
                assert(v[j] == w);
                assert(v.contains(w));
            } else {
                assert(from.last() == w);
                assert(v[v0.len() as int] == w);
                assert(v.contains(w));
            }
        }
    }
}

proof fn lemma_vanished_self(from: Seq<WindowView>, all: Seq<WindowView>)
    requires
        forall|i: int| 0 <= i < from.len() ==> bus_present(all, (#[trigger] from[i]).bus_name),
    ensures
        vanished(from, all).len() == 0,
    decreases from.len(),
{
    if from.len() > 0 {
        assert(forall|i: int|
            0 <= i < from.drop_last().len() ==> from.drop_last()[i] == #[trigger] from[i]);
        lemma_vanished_self(from.drop_last(), all);
        assert(from[from.len() - 1] == from.last());
        assert(bus_present(all, from.last().bus_name));
    }
}

/// The bus identifiers named by appear/disappear events.
pub open spec fn event_buses(es: Seq<EventView>) -> Set<Seq<char>>
    decreases es.len(),
{
    if es.len() == 0 {
        Set::empty()
    } else {
        let rest = event_buses(es.drop_last());
        match es.last() {
            EventView::Appeared(w) => rest.insert(w.bus_name),
            EventView::Disappeared(w) => rest.insert(w.bus_name),
            _ => rest,
        }
    }
}

/// Drop every cached tree of every application an appear or disappear
/// event names; every other entry is kept unchanged.
#[verifier::loop_isolation(false)]
pub fn invalidate_for_events(cache: &mut TreeCache, events: &Vec<DesktopEvent>)
    ensures
        final(cache).view() == restrict_entries(
            old(cache).view(),
            (|k: CacheKeyV, e: CacheEntryView| !event_buses(events.deep_view()).contains(k.0)),
        ),
{
    let mut i: usize = 0;
    while i < events.len()
        invariant
            i <= events.view().len(),
            cache.view() =~= restrict_entries(
                old(cache).view(),
                (|k: CacheKeyV, e: CacheEntryView| !event_buses(
                    events.deep_view().subrange(0, i as int),
                ).contains(k.0)),
            ),
        decreases events.view().len() - i,
    {
        let ghost prefix = events.deep_view().subrange(0, i as int);
        proof {
            assert(events.deep_view().subrange(0, i + 1).drop_last() =~= prefix);
            assert(events.deep_view().subrange(0, i + 1).last() == events.deep_view()[i as int]);
        }
        match &events[i] {
            DesktopEvent::Appeared(w) => {
                cache.invalidate_bus(w.bus_name.as_str());
            },
            DesktopEvent::Disappeared(w) => {
                cache.invalidate_bus(w.bus_name.as_str());
            },
            _ => {},
        }
        proof {
            assert(cache.view() =~= restrict_entries(
                old(cache).view(),
                (|k: CacheKeyV, e: CacheEntryView| !event_buses(
                    events.deep_view().subrange(0, i + 1),
                ).contains(k.0)),
            ));
        }
        i = i + 1;
    }
    proof {
        assert(events.deep_view().subrange(0, events.deep_view().len() as int)
            =~= events.deep_view());
        assert(cache.view() =~= restrict_entries(
            old(cache).view(),
            (|k: CacheKeyV, e: CacheEntryView| !event_buses(events.deep_view()).contains(k.0)),
        ));
    }
}

/// The event the live listener republishes for a focus notification; the
/// application name is not part of the notification and stays empty.
pub fn focus_event(bus_name: String, path: String) -> (r: DesktopEvent)
    ensures
        r.deep_view() == (EventView::FocusChanged {
            app_name: Seq::empty(),
            bus_name: bus_name.view(),
            path: path.view(),
        }),
{
    let r = DesktopEvent::FocusChanged { app_name: String::new(), bus_name, path };
    proof {
        assert(r.deep_view() =~~= (EventView::FocusChanged {
            app_name: Seq::<char>::empty(),
            bus_name: r->FocusChanged_bus_name.view(),
            path: r->FocusChanged_path.view(),
        }));
    }
    r
}

/// The event the live listener republishes for a state-change
/// notification; a raw flag other than zero means enabled.
pub fn state_event(bus_name: String, path: String, state: String, enabled_raw: i32) -> (r:
    DesktopEvent)
    ensures
        r.deep_view() == (EventView::StateChanged {
            app_name: Seq::empty(),
            bus_name: bus_name.view(),
            path: path.view(),
            state: state.view(),
            enabled: enabled_raw != 0,
        }),
{
    let enabled = enabled_raw != 0;
    let r = DesktopEvent::StateChanged {
        app_name: String::new(),
        bus_name,
        path,
        state,
        enabled,
    };
    proof {
        assert(r.deep_view() =~~= (EventView::StateChanged {
            app_name: Seq::<char>::empty(),
            bus_name: r->StateChanged_bus_name.view(),
            path: r->StateChanged_path.view(),
            state: r->StateChanged_state.view(),
            enabled: enabled_raw != 0,
        }));
    }
    r
}

} // verus!
