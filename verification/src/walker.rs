//! Bounded traversal of an application's element tree.
//!
//! The accessibility protocol is driven by the surrounding application; the
//! traversal itself lives here as a state machine. [`TreeWalk::next_request`]
//! says which element to query next, the caller performs the query and
//! hands the reply to [`TreeWalk::feed_node`] or
//! [`TreeWalk::feed_children`], and [`TreeWalk::take_result`] yields the
//! finished snapshot. Whatever replies are fed in, the finished tree has a
//! single root, no node deeper than the requested depth, and at most
//! [`CHILD_CAP`] children per node.
//!
//! Per-element failures degrade rather than abort: an unnamed element keeps
//! an empty name, an unreadable role reads as "unknown", an unreachable
//! child is skipped. Only a failure on the root element fails the whole
//! traversal.

use vstd::prelude::*;

use crate::cache::{cache_lookup, CacheEntryView, TreeCache};
use crate::tree::{
    forest_height, forest_view, forest_wf, node_height, node_view, node_wf, A11yNode, NodeView,
    CHILD_CAP,
};

verus! {

/// Identity of one element: bus identifier and object path.
#[derive(Debug)]
pub struct ElementId {
    pub bus_name: String,
    pub path: String,
}

/// Ghost image of an element identity.
pub type ElementIdView = (Seq<char>, Seq<char>);

/// Ghost image of an element identity value.
pub open spec fn id_view(e: ElementId) -> ElementIdView {
    (e.bus_name.view(), e.path.view())
}

/// Ghost image of a sequence of element identities.
pub open spec fn ids_view(s: Seq<ElementId>) -> Seq<ElementIdView> {
    Seq::new(s.len(), |i: int| id_view(s[i]))
}

impl Clone for ElementId {
    fn clone(&self) -> (res: Self)
        ensures
            id_view(res) == id_view(*self),
    {
        ElementId { bus_name: self.bus_name.clone(), path: self.path.clone() }
    }
}

/// Reply to a single element query. `error` set means the element could not
/// be reached at all; a missing name or role degrades instead of failing.
#[derive(Debug)]
pub struct NodeFetch {
    pub error: Option<String>,
    pub name: Option<String>,
    pub role: Option<String>,
}

/// What the traversal asks the protocol driver to do next.
#[derive(Debug)]
pub enum WalkRequest {
    /// Fetch the element's name and role.
    FetchNode(ElementId),
    /// Fetch the element's child identities, in server order.
    FetchChildren(ElementId),
}

/// The walk's answer-shape: which reply it expects, or that it is finished.
pub enum WalkStatus {
    NeedRootNode,
    NeedChildren,
    NeedChildNode,
    Done,
}

/// Ghost image of one traversal frame: a node under construction.
#[verifier::ext_equal]
pub struct FrameView {
    pub role: Seq<char>,
    pub name: Seq<char>,
    pub bus_name: Seq<char>,
    pub path: Seq<char>,
    /// Whether the child identities were already fetched.
    pub fetched: bool,
    /// Children still to visit, in order.
    pub pending: Seq<ElementIdView>,
    /// Children already built, in order.
    pub built: Seq<NodeView>,
    /// Levels still allowed below this node; at least 1 for every frame.
    pub budget: u32,
}

/// Ghost image of a whole traversal.
#[verifier::ext_equal]
pub struct WalkView {
    pub bus_name: Seq<char>,
    pub path: Seq<char>,
    pub max_depth: u32,
    pub stack: Seq<FrameView>,
    pub outcome: Option<Result<Seq<NodeView>, Seq<char>>>,
}

/// Which reply the traversal in state `w` expects.
pub open spec fn status_of(w: WalkView) -> WalkStatus {
    if w.outcome is Some {
        WalkStatus::Done
    } else if w.stack.len() == 0 {
        WalkStatus::NeedRootNode
    } else if !w.stack.last().fetched {
        WalkStatus::NeedChildren
    } else {
        WalkStatus::NeedChildNode
    }
}

/// The node a finished frame denotes.
pub open spec fn frame_node(f: FrameView) -> NodeView {
    NodeView {
        role: f.role,
        name: f.name,
        bus_name: f.bus_name,
        path: f.path,
        children: f.built,
    }
}

/// Attach a finished node to the nearest ancestor frame that still has
/// children to visit, folding up every frame that thereby completes; an
/// empty stack means the node is the finished root.
pub open spec fn settle(stack: Seq<FrameView>, node: NodeView) -> (Seq<FrameView>, Option<
    Seq<NodeView>,
>)
    decreases stack.len(),
{
    if stack.len() == 0 {
        (stack, Some(seq![node]))
    } else {
        let top = stack.last();
        let top2 = FrameView { built: top.built.push(node), ..top };
        if top2.pending.len() > 0 {
            (stack.drop_last().push(top2), None)
        } else {
            settle(stack.drop_last(), frame_node(top2))
        }
    }
}

/// Fold the stack after its top frame changed: a top frame with nothing
/// pending is finished and settles into its parent.
pub open spec fn resolve(stack: Seq<FrameView>) -> (Seq<FrameView>, Option<Seq<NodeView>>)
    recommends
        stack.len() > 0,
{
    if stack.last().pending.len() > 0 {
        (stack, None)
    } else {
        settle(stack.drop_last(), frame_node(stack.last()))
    }
}

/// A folded stack applied back to the walk: a produced root sequence ends
/// the walk successfully.
pub open spec fn apply_fold(w: WalkView, r: (Seq<FrameView>, Option<Seq<NodeView>>)) -> WalkView {
    WalkView {
        stack: r.0,
        outcome: match r.1 {
            Some(ns) => Some(Ok(ns)),
            None => w.outcome,
        },
        ..w
    }
}

/// A missing name degrades to the empty string.
pub open spec fn effective_name(n: Option<Seq<char>>) -> Seq<char> {
    match n {
        Some(s) => s,
        None => Seq::empty(),
    }
}

/// A missing role degrades to "unknown".
pub open spec fn effective_role(r: Option<Seq<char>>) -> Seq<char> {
    match r {
        Some(s) => s,
        None => "unknown".view(),
    }
}

/// The fresh traversal state for the given root element and depth.
pub open spec fn walk_start(bus: Seq<char>, path: Seq<char>, max_depth: u32) -> WalkView {
    WalkView { bus_name: bus, path, max_depth, stack: Seq::empty(), outcome: None }
}

/// Transition on an element reply, for the root as well as for a child.
///
/// A failed root fails the walk with the reply's error text; a failed child
/// is skipped. An element whose depth budget is exhausted becomes a leaf;
/// any other element opens a new frame and has its children fetched next.
pub open spec fn on_node(
    w: WalkView,
    error: Option<Seq<char>>,
    name: Option<Seq<char>>,
    role: Option<Seq<char>>,
) -> WalkView
    recommends
        status_of(w) is NeedRootNode || status_of(w) is NeedChildNode,
{
    if w.stack.len() == 0 {
        match error {
            Some(e) => WalkView { outcome: Some(Err(e)), ..w },
            None => {
                if w.max_depth == 0 {
                    WalkView {
                        outcome: Some(
                            Ok(
                                seq![
                                    NodeView {
                                        role: effective_role(role),
                                        name: effective_name(name),
                                        bus_name: w.bus_name,
                                        path: w.path,
                                        children: Seq::empty(),
                                    },
                                ],
                            ),
                        ),
                        ..w
                    }
                } else {
                    WalkView {
                        stack: seq![
                            FrameView {
                                role: effective_role(role),
                                name: effective_name(name),
                                bus_name: w.bus_name,
                                path: w.path,
                                fetched: false,
                                pending: Seq::empty(),
                                built: Seq::empty(),
                                budget: w.max_depth,
                            },
                        ],
                        ..w
                    }
                }
            },
        }
    } else {
        let top = w.stack.last();
        let id = top.pending[0];
        let top2 = FrameView { pending: top.pending.drop_first(), ..top };
        let stack2 = w.stack.drop_last().push(top2);
        match error {
            Some(e) => apply_fold(w, resolve(stack2)),
            None => {
                let node = NodeView {
                    role: effective_role(role),
                    name: effective_name(name),
                    bus_name: id.0,
                    path: id.1,
                    children: Seq::empty(),
                };
                if top.budget == 1 {
                    apply_fold(w, settle(stack2, node))
                } else {
                    WalkView {
                        stack: stack2.push(
                            FrameView {
                                role: effective_role(role),
                                name: effective_name(name),
                                bus_name: id.0,
                                path: id.1,
                                fetched: false,
                                pending: Seq::empty(),
                                built: Seq::empty(),
                                budget: (top.budget - 1) as u32,
                            },
                        ),
                        ..w
                    }
                }
            },
        }
    }
}

/// Transition on a child-list reply: an unreadable list reads as empty, and
/// at most [`CHILD_CAP`] children are kept, in server order.
pub open spec fn on_children(w: WalkView, kids: Option<Seq<ElementIdView>>) -> WalkView
    recommends
        status_of(w) is NeedChildren,
{
    let top = w.stack.last();
    let ks = match kids {
        Some(s) => if s.len() > CHILD_CAP {
            s.take(CHILD_CAP as int)
        } else {
            s
        },
        None => Seq::empty(),
    };
    let top2 = FrameView { fetched: true, pending: ks, ..top };
    apply_fold(w, resolve(w.stack.drop_last().push(top2)))
}

/// Structural soundness of one frame.
pub open spec fn frame_wf(f: FrameView) -> bool {
    &&& 1 <= f.budget
    &&& forest_wf(f.built)
    &&& forest_height(f.built) <= f.budget
    &&& (!f.fetched ==> f.pending.len() == 0 && f.built.len() == 0)
}

/// Structural soundness of the frame stack: budgets fall by exactly one per
/// level starting from the requested depth, every frame below the top is
/// fetched and mid-visit, and no frame can exceed the fan-out cap.
pub open spec fn stack_wf(stack: Seq<FrameView>, max_depth: u32) -> bool {
    &&& (forall|i: int| 0 <= i < stack.len() ==> frame_wf(#[trigger] stack[i]))
    &&& (stack.len() > 0 ==> stack[0].budget == max_depth)
    &&& (forall|i: int|
        1 <= i < stack.len() ==> (#[trigger] stack[i]).budget == stack[i - 1].budget - 1)
    &&& (forall|i: int| 0 <= i < stack.len() - 1 ==> (#[trigger] stack[i]).fetched)
    &&& (forall|i: int|
        0 <= i < stack.len() ==> (#[trigger] stack[i]).built.len() + stack[i].pending.len() + (
        if i < stack.len() - 1 {
            1int
        } else {
            0int
        }) <= CHILD_CAP)
}

/// Soundness of a whole traversal state; in particular a successful outcome
/// is a single root tree within the depth and fan-out bounds.
pub open spec fn walk_wf(w: WalkView) -> bool {
    &&& stack_wf(w.stack, w.max_depth)
    &&& (w.stack.len() > 0 && w.stack.last().fetched ==> w.stack.last().pending.len() > 0)
    &&& (w.outcome is Some ==> w.stack.len() == 0)
    &&& (match w.outcome {
        Some(Ok(ns)) => ns.len() == 1 && forest_wf(ns) && forest_height(ns) <= w.max_depth + 1,
        Some(Err(_)) => true,
        None => true,
    })
}

/// The traversal state machine. All protocol traffic happens outside; the
/// machine only decides and assembles, and its result is bounded whatever
/// is fed in.
#[derive(Debug)]
pub struct TreeWalk {
    bus_name: String,
    path: String,
    max_depth: u32,
    stack: Vec<Frame>,
    outcome: Option<Result<Vec<A11yNode>, String>>,
}

#[derive(Debug)]
struct Frame {
    role: String,
    name: String,
    bus_name: String,
    path: String,
    fetched: bool,
    pending: Vec<ElementId>,
    built: Vec<A11yNode>,
    budget: u32,
}

spec fn frame_view_of(f: Frame) -> FrameView {
    FrameView {
        role: f.role.view(),
        name: f.name.view(),
        bus_name: f.bus_name.view(),
        path: f.path.view(),
        fetched: f.fetched,
        pending: ids_view(f.pending.view()),
        built: forest_view(f.built.view()),
        budget: f.budget,
    }
}

spec fn frames_view(s: Seq<Frame>) -> Seq<FrameView> {
    Seq::new(s.len(), |i: int| frame_view_of(s[i]))
}

spec fn outcome_view(o: Option<Result<Vec<A11yNode>, String>>) -> Option<Result<
    Seq<NodeView>,
    Seq<char>,
>> {
    match o {
        None => None,
        Some(Ok(v)) => Some(Ok(forest_view(v.view()))),
        Some(Err(s)) => Some(Err(s.view())),
    }
}

impl View for TreeWalk {
    type V = WalkView;

    closed spec fn view(&self) -> WalkView {
        WalkView {
            bus_name: self.bus_name.view(),
            path: self.path.view(),
            max_depth: self.max_depth,
            stack: frames_view(self.stack.view()),
            outcome: outcome_view(self.outcome),
        }
    }
}

impl TreeWalk {
    #[verifier::type_invariant]
    spec fn inv(&self) -> bool {
        walk_wf(self.view())
    }

    /// A fresh traversal of the tree rooted at the given element, to the
    /// given depth.
    pub fn new(bus_name: String, path: String, max_depth: u32) -> (w: TreeWalk)
        ensures
            w.view() == walk_start(bus_name.view(), path.view(), max_depth),
    {
        let w = TreeWalk { bus_name, path, max_depth, stack: Vec::new(), outcome: None };
        proof {
            assert(w.view() =~= walk_start(w.bus_name.view(), w.path.view(), max_depth));
        }
        w
    }

    /// The next query to perform, or nothing once the walk is finished.
    pub fn next_request(&self) -> (r: Option<WalkRequest>)
        ensures
            match status_of(self.view()) {
                WalkStatus::Done => r is None,
                WalkStatus::NeedRootNode => match r {
                    Some(WalkRequest::FetchNode(id)) => id_view(id) == (
                        self.view().bus_name,
                        self.view().path,
                    ),
                    _ => false,
                },
                WalkStatus::NeedChildren => match r {
                    Some(WalkRequest::FetchChildren(id)) => id_view(id) == (
                        self.view().stack.last().bus_name,
                        self.view().stack.last().path,
                    ),
                    _ => false,
                },
                WalkStatus::NeedChildNode => match r {
                    Some(WalkRequest::FetchNode(id)) => id_view(id)
                        == self.view().stack.last().pending[0],
                    _ => false,
                },
            },
    {
        proof {
            use_type_invariant(self);
        }
        if self.outcome.is_some() {
            None
        } else if self.stack.len() == 0 {
            Some(
                WalkRequest::FetchNode(
                    ElementId { bus_name: self.bus_name.clone(), path: self.path.clone() },
                ),
            )
        } else {
            let top = &self.stack[self.stack.len() - 1];
            proof {
                assert(frames_view(self.stack.view()).last() == frame_view_of(
                    self.stack.view().last(),
                ));
            }
            if !top.fetched {
                Some(
                    WalkRequest::FetchChildren(
                        ElementId { bus_name: top.bus_name.clone(), path: top.path.clone() },
                    ),
                )
            } else {
                Some(WalkRequest::FetchNode(top.pending[0].clone()))
            }
        }
    }

    /// Whether the walk is finished.
    pub fn is_done(&self) -> (r: bool)
        ensures
            r == (status_of(self.view()) is Done),
    {
        self.outcome.is_some()
    }

    /// Feed the reply to a [`WalkRequest::FetchNode`] query.
    pub fn feed_node(&mut self, fetch: NodeFetch)
        requires
            status_of(old(self).view()) is NeedRootNode || status_of(old(self).view())
                is NeedChildNode,
        ensures
            final(self).view() == on_node(
                old(self).view(),
                opt_string_view(fetch.error),
                opt_string_view(fetch.name),
                opt_string_view(fetch.role),
            ),
    {
        proof {
            use_type_invariant(&*self);
        }
        let ghost w0 = self.view();
        if self.stack.len() == 0 {
            match fetch.error {
                Some(e) => {
                    self.outcome = Some(Err(e));
                    proof {
                        assert(self.view() =~= on_node(
                            w0,
                            opt_string_view(fetch.error),
                            opt_string_view(fetch.name),
                            opt_string_view(fetch.role),
                        ));
                    }
                },
                None => {
                    let name = match fetch.name {
                        Some(n) => n,
                        None => String::new(),
                    };
                    let role = match fetch.role {
                        Some(r) => r,
                        None => "unknown".to_owned(),
                    };
                    if self.max_depth == 0 {
                        let node = A11yNode {
                            role,
                            name,
                            bus_name: self.bus_name.clone(),
                            path: self.path.clone(),
                            children: Vec::new(),
                        };
                        let mut roots: Vec<A11yNode> = Vec::new();
                        proof {
                            assert(forest_view(Seq::<A11yNode>::empty()) =~= Seq::<
                                NodeView,
                            >::empty());
                        }
                        roots.push(node);
                        proof {
                            crate::tree::lemma_forest_view(roots.view());
                            assert(forest_view(roots.view()) =~= seq![node_view(node)]);
                            assert(node_view(node).children =~= Seq::<NodeView>::empty());
                            assert(node_wf(node_view(node)));
                            assert forall|i: int|
                                0 <= i < seq![node_view(node)].len() implies node_wf(
                                #[trigger] seq![node_view(node)][i],
                            ) by {
                                assert(seq![node_view(node)][i] == node_view(node));
                            }
                            crate::tree::lemma_forest_wf_intro(seq![node_view(node)]);
                            crate::tree::lemma_forest_height_singleton(node_view(node));
                        }
                        self.outcome = Some(Ok(roots));
                        proof {
                            assert(self.view() =~= on_node(
                                w0,
                                opt_string_view(fetch.error),
                                opt_string_view(fetch.name),
                                opt_string_view(fetch.role),
                            ));
                        }
                    } else {
                        let fr = Frame {
                            role,
                            name,
                            bus_name: self.bus_name.clone(),
                            path: self.path.clone(),
                            fetched: false,
                            pending: Vec::new(),
                            built: Vec::new(),
                            budget: self.max_depth,
                        };
                        let mut stack: Vec<Frame> = Vec::new();
                        std::mem::swap(&mut stack, &mut self.stack);
                        stack.push(fr);
                        proof {
                            assert(forest_view(Seq::<A11yNode>::empty()) =~= Seq::<
                                NodeView,
                            >::empty());
                            assert(ids_view(Seq::<ElementId>::empty()) =~= Seq::<
                                ElementIdView,
                            >::empty());
                            assert(frames_view(stack.view()) =~= seq![frame_view_of(fr)]);
                        }
                        self.stack = stack;
                        proof {
                            assert(self.view() =~= on_node(
                                w0,
                                opt_string_view(fetch.error),
                                opt_string_view(fetch.name),
                                opt_string_view(fetch.role),
                            ));
                        }
                    }
                },
            }
        } else {
            let mut stack: Vec<Frame> = Vec::new();
            std::mem::swap(&mut stack, &mut self.stack);
            let mut top = match stack.pop() {
                Some(t) => t,
                None => vstd::pervasive::unreached(),
            };
            let ghost topv = frame_view_of(top);
            proof {
                assert(w0.stack =~= frames_view(stack.view()).push(topv));
                assert(w0.stack.last() == topv);
                assert(w0.stack.drop_last() =~= frames_view(stack.view()));
            }
            let id = top.pending.remove(0);
            let ghost top2 = FrameView { pending: topv.pending.drop_first(), ..topv };
            proof {
                assert(id_view(id) == topv.pending[0]);
                assert(frame_view_of(top) =~~= top2);
                assert(frames_view(stack.view()).push(frame_view_of(top)) =~= w0.stack.drop_last(
                ).push(top2));
            }
            let ghost stack2 = w0.stack.drop_last().push(top2);
            match fetch.error {
                Some(e) => {
                    if top.pending.len() > 0 {
                        stack.push(top);
                        proof {
                            assert(frames_view(stack.view()) =~= stack2);
                        }
                        self.stack = stack;
                        proof {
                            assert(self.view() =~= on_node(
                                w0,
                                opt_string_view(fetch.error),
                                opt_string_view(fetch.name),
                                opt_string_view(fetch.role),
                            ));
                        }
                    } else {
                        let node = A11yNode {
                            role: top.role,
                            name: top.name,
                            bus_name: top.bus_name,
                            path: top.path,
                            children: top.built,
                        };
                        proof {
                            assert(node_view(node) =~~= frame_node(top2));
                            assert(frames_view(stack.view()) =~= stack2.drop_last());
                            lemma_member_heights(top2.built, top2.budget);
                        }
                        self.settle_node(stack, node);
                        proof {
                            assert(self.view() =~= on_node(
                                w0,
                                opt_string_view(fetch.error),
                                opt_string_view(fetch.name),
                                opt_string_view(fetch.role),
                            ));
                        }
                    }
                },
                None => {
                    let name = match fetch.name {
                        Some(n) => n,
                        None => String::new(),
                    };
                    let role = match fetch.role {
                        Some(r) => r,
                        None => "unknown".to_owned(),
                    };
                    if top.budget == 1 {
                        let node = A11yNode {
                            role,
                            name,
                            bus_name: id.bus_name,
                            path: id.path,
                            children: Vec::new(),
                        };
                        stack.push(top);
                        proof {
                            assert(forest_view(Seq::<A11yNode>::empty()) =~= Seq::<
                                NodeView,
                            >::empty());
                            assert(frames_view(stack.view()) =~= stack2);
                        }
                        self.settle_node(stack, node);
                        proof {
                            assert(self.view() =~= on_node(
                                w0,
                                opt_string_view(fetch.error),
                                opt_string_view(fetch.name),
                                opt_string_view(fetch.role),
                            ));
                        }
                    } else {
                        let budget = top.budget - 1;
                        stack.push(top);
                        let fr = Frame {
                            role,
                            name,
                            bus_name: id.bus_name,
                            path: id.path,
                            fetched: false,
                            pending: Vec::new(),
                            built: Vec::new(),
                            budget,
                        };
                        stack.push(fr);
                        proof {
                            assert(forest_view(Seq::<A11yNode>::empty()) =~= Seq::<
                                NodeView,
                            >::empty());
                            assert(ids_view(Seq::<ElementId>::empty()) =~= Seq::<
                                ElementIdView,
                            >::empty());
                            assert(frames_view(stack.view()) =~= stack2.push(frame_view_of(fr)));
                        }
                        self.stack = stack;
                        proof {
                            assert(self.view() =~= on_node(
                                w0,
                                opt_string_view(fetch.error),
                                opt_string_view(fetch.name),
                                opt_string_view(fetch.role),
                            ));
                        }
                    }
                },
            }
        }
    }

    /// Feed the reply to a [`WalkRequest::FetchChildren`] query.
    pub fn feed_children(&mut self, children: Option<Vec<ElementId>>)
        requires
            status_of(old(self).view()) is NeedChildren,
        ensures
            final(self).view() == on_children(old(self).view(), opt_ids_view(children)),
    {
        proof {
            use_type_invariant(&*self);
        }
        let ghost w0 = self.view();
        let mut stack: Vec<Frame> = Vec::new();
        std::mem::swap(&mut stack, &mut self.stack);
        let mut top = match stack.pop() {
            Some(t) => t,
            None => vstd::pervasive::unreached(),
        };
        let ghost topv = frame_view_of(top);
        proof {
            assert(w0.stack =~= frames_view(stack.view()).push(topv));
            assert(w0.stack.last() == topv);
            assert(w0.stack.drop_last() =~= frames_view(stack.view()));
        }
        top.fetched = true;
        top.pending = match children {
            Some(mut c) => {
                if c.len() > CHILD_CAP {
                    c.truncate(CHILD_CAP);
                }
                c
            },
            None => Vec::new(),
        };
        let ghost ks = match opt_ids_view(children) {
            Some(s) => if s.len() > CHILD_CAP {
                s.take(CHILD_CAP as int)
            } else {
                s
            },
            None => Seq::<ElementIdView>::empty(),
        };
        let ghost top2 = FrameView { fetched: true, pending: ks, ..topv };
        proof {
            assert(frame_view_of(top) =~~= top2);
        }
        let ghost stack2 = w0.stack.drop_last().push(top2);
        if top.pending.len() > 0 {
            stack.push(top);
            proof {
                assert(frames_view(stack.view()) =~= stack2);
            }
            self.stack = stack;
            proof {
                assert(self.view() =~= on_children(w0, opt_ids_view(children)));
            }
        } else {
            let node = A11yNode {
                role: top.role,
                name: top.name,
                bus_name: top.bus_name,
                path: top.path,
                children: top.built,
            };
            proof {
                assert(node_view(node) =~~= frame_node(top2));
                assert(frames_view(stack.view()) =~= stack2.drop_last());
                lemma_member_heights(top2.built, top2.budget);
            }
            self.settle_node(stack, node);
            proof {
                assert(self.view() =~= on_children(w0, opt_ids_view(children)));
            }
        }
    }

    /// The finished snapshot: on success a single root tree bounded by the
    /// requested depth and the fan-out cap; on failure the error text of
    /// the root query.
    pub fn take_result(self) -> (r: Result<Vec<A11yNode>, String>)
        requires
            status_of(self.view()) is Done,
        ensures
            match (self.view().outcome, r) {
                (Some(Ok(ns)), Ok(nodes)) => {
                    &&& forest_view(nodes.view()) == ns
                    &&& ns.len() == 1
                    &&& forest_wf(ns)
                    &&& forest_height(ns) <= self.view().max_depth + 1
                },
                (Some(Err(m)), Err(s)) => s.view() == m,
                _ => false,
            },
    {
        proof {
            use_type_invariant(&self);
        }
        match self.outcome {
            Some(r) => r,
            None => vstd::pervasive::unreached(),
        }
    }

    /// Attach the finished `node` to the top of `stack`, folding up every
    /// frame that completes, and store the folded state in `self`, whose
    /// stack must have been taken out beforehand.
    #[verifier::loop_isolation(false)]
    #[verifier::rlimit(100)]
    fn settle_node(&mut self, stack: Vec<Frame>, node: A11yNode)
        requires
            old(self).stack.view().len() == 0,
            old(self).outcome is None,
            settle_pre(
                frames_view(stack.view()),
                node_view(node),
                old(self).max_depth,
            ),
        ensures
            final(self).bus_name == old(self).bus_name,
            final(self).path == old(self).path,
            final(self).max_depth == old(self).max_depth,
            final(self).view() == apply_settle(
                old(self).view(),
                settle(frames_view(stack.view()), node_view(node)),
            ),
    {
        let ghost r0 = settle(frames_view(stack.view()), node_view(node));
        let mut stack = stack;
        let mut node = node;
        loop
            invariant
                settle_pre(frames_view(stack.view()), node_view(node), self.max_depth),
                settle(frames_view(stack.view()), node_view(node)) == r0,
                self.stack.view().len() == 0,
                self.outcome is None,
                self.bus_name == old(self).bus_name,
                self.path == old(self).path,
                self.max_depth == old(self).max_depth,
            decreases stack.view().len(),
        {
            let ghost sv = frames_view(stack.view());
            match stack.pop() {
                None => {
                    proof {
                        assert(sv.len() == 0);
                        assert(r0 == (sv, Some(seq![node_view(node)])));
                    }
                    let mut roots: Vec<A11yNode> = Vec::new();
                    proof {
                        assert(forest_view(Seq::<A11yNode>::empty()) =~= Seq::<NodeView>::empty());
                    }
                    roots.push(node);
                    proof {
                        crate::tree::lemma_forest_view(roots.view());
                        assert(forest_view(roots.view()) =~= seq![node_view(node)]);
                        assert forall|i: int| 0 <= i < seq![node_view(node)].len() implies node_wf(
                            #[trigger] seq![node_view(node)][i],
                        ) by {
                            assert(seq![node_view(node)][i] == node_view(node));
                        }
                        crate::tree::lemma_forest_wf_intro(seq![node_view(node)]);
                        crate::tree::lemma_forest_height_singleton(node_view(node));
                    }
                    self.outcome = Some(Ok(roots));
                    proof {
                        assert(self.view() =~= apply_settle(old(self).view(), r0));
                    }
                    return ;
                },
                Some(t) => {
                    let mut top = t;
                    let ghost topv = frame_view_of(top);
                    proof {
                        assert(sv =~= frames_view(stack.view()).push(topv));
                        assert(sv[sv.len() - 1] == topv);
                        assert(sv.last() == topv);
                        assert(sv.drop_last() =~= frames_view(stack.view()));
                        lemma_settle_step(sv, node_view(node), self.max_depth);
                    }
                    let ghost oldbuilt = top.built.view();
                    top.built.push(node);
                    let ghost top2 = FrameView { built: topv.built.push(node_view(node)), ..topv };
                    proof {
                        crate::tree::lemma_forest_view(top.built.view());
                        crate::tree::lemma_forest_view(oldbuilt);
                        assert(top.built.view() =~= oldbuilt.push(node));
                        assert(forest_view(top.built.view()) =~= topv.built.push(
                            node_view(node),
                        ));
                        assert(frame_view_of(top) =~~= top2);
                    }
                    if top.pending.len() > 0 {
                        stack.push(top);
                        proof {
                            assert(frames_view(stack.view()) =~= sv.drop_last().push(top2));
                            assert(settle(sv, node_view(node)) == (
                                sv.drop_last().push(top2),
                                None::<Seq<NodeView>>,
                            ));
                        }
                        self.stack = stack;
                        proof {
                            assert(self.view() =~= apply_settle(old(self).view(), r0));
                        }
                        return ;
                    } else {
                        let next = A11yNode {
                            role: top.role,
                            name: top.name,
                            bus_name: top.bus_name,
                            path: top.path,
                            children: top.built,
                        };
                        proof {
                            assert(node_view(next) =~~= frame_node(top2));
                        }
                        node = next;
                    }
                },
            }
        }
    }
}

/// One folding step of [`settle`]: pushing the finished node into the top
/// frame keeps the stack sound, and either the walk pauses on that frame or
/// the frame completes and the folding continues one level down.
proof fn lemma_settle_step(sv: Seq<FrameView>, nv: NodeView, max_depth: u32)
    requires
        settle_pre(sv, nv, max_depth),
        sv.len() > 0,
    ensures
        ({
            let topv = sv.last();
            let top2 = FrameView { built: topv.built.push(nv), ..topv };
            &&& frame_wf(top2)
            &&& (top2.pending.len() > 0 ==> {
                let st = sv.drop_last().push(top2);
                &&& stack_wf(st, max_depth)
                &&& st.last().fetched
                &&& st.last().pending.len() > 0
                &&& settle(sv, nv) == (st, None::<Seq<NodeView>>)
            })
            &&& (top2.pending.len() == 0 ==> settle_pre(
                sv.drop_last(),
                frame_node(top2),
                max_depth,
            ) && settle(sv, nv) == settle(sv.drop_last(), frame_node(top2)))
        }),
{
    let topv = sv.last();
    let top2 = FrameView { built: topv.built.push(nv), ..topv };
    assert(sv[sv.len() - 1] == topv);
    assert(frame_wf(topv));
    assert(topv.fetched);
    assert forall|i: int| 0 <= i < top2.built.len() implies node_wf(
        #[trigger] top2.built[i],
    ) by {
        if i < topv.built.len() {
            assert(top2.built[i] == topv.built[i]);
            crate::tree::lemma_forest_wf_member(topv.built, i);
        } else {
            assert(top2.built[i] == nv);
        }
    }
    crate::tree::lemma_forest_wf_intro(top2.built);
    lemma_member_heights(topv.built, topv.budget);
    assert forall|i: int| 0 <= i < top2.built.len() implies node_height(
        #[trigger] top2.built[i],
    ) <= topv.budget by {
        if i < topv.built.len() {
            assert(top2.built[i] == topv.built[i]);
        } else {
            assert(top2.built[i] == nv);
        }
    }
    crate::tree::lemma_forest_height_bound(top2.built, topv.budget as nat);
    assert(frame_wf(top2));
    let prefix = sv.drop_last();
    assert(forall|i: int| 0 <= i < prefix.len() ==> #[trigger] prefix[i] == sv[i]);
    if top2.pending.len() > 0 {
        let st = prefix.push(top2);
        assert(forall|i: int| 0 <= i < st.len() - 1 ==> #[trigger] st[i] == sv[i]);
        assert(st[st.len() - 1] == top2);
        assert(st.last() == top2);
        assert(stack_wf(st, max_depth));
    } else {
        let node2 = frame_node(top2);
        assert(node_wf(node2));
        assert(node2.children == top2.built);
        assert(node_height(node2) == 1 + forest_height(top2.built));
        if prefix.len() == 0 {
            assert(topv.budget == max_depth);
        } else {
            assert(prefix[prefix.len() - 1] == sv[sv.len() - 2]);
            assert(sv[sv.len() - 1].budget == sv[sv.len() - 2].budget - 1);
            assert(prefix.last().budget == topv.budget + 1);
            assert(sv[sv.len() - 2].built.len() + sv[sv.len() - 2].pending.len() + 1
                <= CHILD_CAP);
        }
        assert(settle_pre(prefix, node2, max_depth));
    }
}

/// The precondition under which a node can settle into a stack: the stack
/// is sound, every frame is mid-visit with room for one more child, and the
/// node fits the depth budget of the frame it settles into.
pub open spec fn settle_pre(stack: Seq<FrameView>, node: NodeView, max_depth: u32) -> bool {
    &&& stack_wf(stack, max_depth)
    &&& (forall|i: int| 0 <= i < stack.len() ==> (#[trigger] stack[i]).fetched)
    &&& node_wf(node)
    &&& node_height(node) <= if stack.len() == 0 {
        max_depth + 1
    } else {
        stack.last().budget as int
    }
    &&& (stack.len() > 0 ==> stack.last().built.len() + stack.last().pending.len() + 1
        <= CHILD_CAP)
}

/// A folded stack written back into a walk whose stack was taken out.
pub open spec fn apply_settle(w: WalkView, r: (Seq<FrameView>, Option<Seq<NodeView>>)) -> WalkView {
    WalkView {
        stack: r.0,
        outcome: match r.1 {
            Some(ns) => Some(Ok(ns)),
            None => None,
        },
        ..w
    }
}

/// Every member of a height-bounded forest is height-bounded.
proof fn lemma_member_heights(s: Seq<NodeView>, b: u32)
    requires
        forest_height(s) <= b,
    ensures
        forall|i: int| 0 <= i < s.len() ==> node_height(#[trigger] s[i]) <= b,
{
    assert forall|i: int| 0 <= i < s.len() implies node_height(#[trigger] s[i]) <= b by {
        crate::tree::lemma_forest_height_member(s, i);
    }
}

/// Ghost image of an optional identity list.
pub open spec fn opt_ids_view(o: Option<Vec<ElementId>>) -> Option<Seq<ElementIdView>> {
    match o {
        Some(v) => Some(ids_view(v.view())),
        None => None,
    }
}

/// Ghost image of an optional string.
pub open spec fn opt_string_view(o: Option<String>) -> Option<Seq<char>> {
    match o {
        Some(s) => Some(s.view()),
        None => None,
    }
}

/// Outcome of consulting the cache before a traversal: a cached snapshot,
/// or a traversal to run for exactly the requested key.
pub enum TreeQuery {
    Hit(Vec<A11yNode>),
    Miss(TreeWalk),
}

/// Consult the cache under (bus identifier, object path, depth); on a hit
/// return the cached snapshot unchanged, on a miss begin a traversal for
/// exactly that key.
pub fn get_tree_begin(
    cache: &TreeCache,
    bus_name: &str,
    path: &str,
    max_depth: u32,
    now: u64,
) -> (r: TreeQuery)
    ensures
        match r {
            TreeQuery::Hit(nodes) => cache_lookup(
                cache.view(),
                (bus_name.view(), path.view(), max_depth),
                now,
            ) == Some(forest_view(nodes.view())),
            TreeQuery::Miss(w) => cache_lookup(
                cache.view(),
                (bus_name.view(), path.view(), max_depth),
                now,
            ) is None && w.view() == walk_start(bus_name.view(), path.view(), max_depth),
        },
{
    match cache.get(bus_name, path, max_depth, now) {
        Some(nodes) => TreeQuery::Hit(nodes),
        None => TreeQuery::Miss(
            TreeWalk::new(bus_name.to_owned(), path.to_owned(), max_depth),
        ),
    }
}

/// Store a finished traversal under the key it was begun for. Sub-trees
/// visited along the way are not stored separately: cache granularity is
/// exactly the caller's requested depth.
pub fn get_tree_finish(
    cache: &mut TreeCache,
    bus_name: &str,
    path: &str,
    max_depth: u32,
    nodes: &Vec<A11yNode>,
    now: u64,
)
    ensures
        final(cache).view() == old(cache).view().insert(
            (bus_name.view(), path.view(), max_depth),
            CacheEntryView { nodes: forest_view(nodes.view()), at: now },
        ),
{
    cache.put(bus_name, path, max_depth, crate::tree::clone_nodes(nodes), now);
}

} // verus!
