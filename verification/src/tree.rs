//! Data model of the accessibility tree.
//!
//! A [`A11yWindow`] is a top-level application root discovered by enumerating
//! the accessibility registry; a [`A11yNode`] is one element of an
//! application's element tree and owns its subtree as a value. Contracts
//! speak about these types through the ghost views [`WindowView`] and
//! [`NodeView`].

use vstd::prelude::*;

verus! {

/// Fan-out cap: a traversal keeps at most this many children per node.
pub const CHILD_CAP: usize = 50;

/// A top-level application window discovered through the accessibility
/// registry.
#[derive(Debug)]
pub struct A11yWindow {
    /// Application name.
    pub app_name: String,
    /// Bus identifier of the application's endpoint.
    pub bus_name: String,
    /// Object path of the root element.
    pub path: String,
    /// Role name of the root element.
    pub role: String,
    /// Number of top-level child elements.
    pub child_count: i32,
}

/// One element of an accessibility tree, owning its subtree.
#[derive(Debug)]
pub struct A11yNode {
    /// Role name, for instance a push button or a text field.
    pub role: String,
    /// Name or label of the element; empty when the element has none.
    pub name: String,
    /// Bus identifier of the owning application.
    pub bus_name: String,
    /// Object path of this element.
    pub path: String,
    /// Child elements, in server order, capped at [`CHILD_CAP`].
    pub children: Vec<A11yNode>,
}

/// Screen-space rectangle of an element, origin at the top left.
#[derive(Debug, Clone, Copy, PartialEq, Eq, Structural)]
pub struct ElementExtents {
    pub x: i32,
    pub y: i32,
    pub width: i32,
    pub height: i32,
}

/// Ghost image of a [`A11yWindow`].
#[verifier::ext_equal]
pub struct WindowView {
    pub app_name: Seq<char>,
    pub bus_name: Seq<char>,
    pub path: Seq<char>,
    pub role: Seq<char>,
    pub child_count: int,
}

/// Ghost image of a [`A11yNode`]: the whole subtree as a mathematical value.
#[verifier::ext_equal]
pub struct NodeView {
    pub role: Seq<char>,
    pub name: Seq<char>,
    pub bus_name: Seq<char>,
    pub path: Seq<char>,
    pub children: Seq<NodeView>,
}

impl DeepView for A11yWindow {
    type V = WindowView;

    open spec fn deep_view(&self) -> WindowView {
        WindowView {
            app_name: self.app_name.view(),
            bus_name: self.bus_name.view(),
            path: self.path.view(),
            role: self.role.view(),
            child_count: self.child_count as int,
        }
    }
}

/// Ghost image of a node: the whole subtree as a mathematical value.
pub open spec fn node_view(n: A11yNode) -> NodeView
    decreases n,
{
    NodeView {
        role: n.role.view(),
        name: n.name.view(),
        bus_name: n.bus_name.view(),
        path: n.path.view(),
        children: forest_view(n.children.view()),
    }
}

/// Ghost image of a node sequence, element by element.
pub open spec fn forest_view(s: Seq<A11yNode>) -> Seq<NodeView>
    decreases s,
{
    if s.len() == 0 {
        Seq::empty()
    } else {
        seq![node_view(s[0])] + forest_view(s.drop_first())
    }
}

/// The ghost image of a node sequence has the same length and is the image
/// of the sequence element by element.
pub proof fn lemma_forest_view(s: Seq<A11yNode>)
    ensures
        forest_view(s).len() == s.len(),
        forall|i: int| 0 <= i < s.len() ==> #[trigger] forest_view(s)[i] == node_view(s[i]),
    decreases s.len(),
{
    if s.len() > 0 {
        lemma_forest_view(s.drop_first());
        assert(forall|i: int|
            1 <= i < s.len() ==> #[trigger] forest_view(s)[i] == forest_view(s.drop_first())[i
                - 1]);
        assert(forall|i: int| 1 <= i < s.len() ==> s.drop_first()[i - 1] == #[trigger] s[i]);
    }
}

impl Clone for A11yWindow {
    fn clone(&self) -> (res: Self)
        ensures
            res.deep_view() == self.deep_view(),
    {
        A11yWindow {
            app_name: self.app_name.clone(),
            bus_name: self.bus_name.clone(),
            path: self.path.clone(),
            role: self.role.clone(),
            child_count: self.child_count,
        }
    }
}

impl Clone for A11yNode {
    fn clone(&self) -> (res: Self)
        ensures
            node_view(res) == node_view(*self),
        decreases *self,
    {
        let res = A11yNode {
            role: self.role.clone(),
            name: self.name.clone(),
            bus_name: self.bus_name.clone(),
            path: self.path.clone(),
            children: clone_nodes(&self.children),
        };
        proof {
            assert(node_view(res) =~= node_view(*self));
        }
        res
    }
}

/// Deep copy of a node sequence, preserving the ghost image exactly.
pub fn clone_nodes(nodes: &Vec<A11yNode>) -> (res: Vec<A11yNode>)
    ensures
        forest_view(res.view()) == forest_view(nodes.view()),
    decreases nodes.view(),
{
    let mut res: Vec<A11yNode> = Vec::new();
    let mut i: usize = 0;
    while i < nodes.len()
        invariant
            i <= nodes.view().len(),
            res.view().len() == i,
            forall|j: int|
                0 <= j < i ==> node_view(res.view()[j]) == node_view(
                    #[trigger] nodes.view()[j],
                ),
        decreases nodes.view().len() - i,
    {
        res.push(nodes[i].clone());
        i = i + 1;
    }
    proof {
        lemma_forest_view(res.view());
        lemma_forest_view(nodes.view());
        assert forall|j: int| 0 <= j < nodes.view().len() implies forest_view(res.view())[j]
            == forest_view(nodes.view())[j] by {
            assert(node_view(res.view()[j]) == node_view(nodes.view()[j]));
        }
        assert(forest_view(res.view()) =~= forest_view(nodes.view()));
    }
    res
}

/// Number of levels in the subtree below and including this node: a
/// childless node has height 1.
pub open spec fn node_height(v: NodeView) -> nat
    decreases v,
{
    1 + forest_height(v.children)
}

/// Greatest height among the nodes of the sequence; 0 for an empty one.
pub open spec fn forest_height(s: Seq<NodeView>) -> nat
    decreases s,
{
    if s.len() == 0 {
        0
    } else {
        let h = node_height(s[0]);
        let r = forest_height(s.drop_first());
        if h >= r {
            h
        } else {
            r
        }
    }
}

/// Every node of the subtree respects the fan-out cap.
pub open spec fn node_wf(v: NodeView) -> bool
    decreases v,
{
    v.children.len() <= CHILD_CAP && forest_wf(v.children)
}

/// Every node of every subtree respects the fan-out cap.
pub open spec fn forest_wf(s: Seq<NodeView>) -> bool
    decreases s,
{
    if s.len() == 0 {
        true
    } else {
        node_wf(s[0]) && forest_wf(s.drop_first())
    }
}

/// Fan-out soundness propagates from a sequence to each of its nodes.
pub proof fn lemma_forest_wf_member(s: Seq<NodeView>, i: int)
    requires
        forest_wf(s),
        0 <= i < s.len(),
    ensures
        node_wf(s[i]),
    decreases s.len(),
{
    if i > 0 {
        lemma_forest_wf_member(s.drop_first(), i - 1);
        assert(s.drop_first()[i - 1] == s[i]);
    }
}

/// Fan-out soundness of every node of a sequence makes the sequence sound.
pub proof fn lemma_forest_wf_intro(s: Seq<NodeView>)
    requires
        forall|i: int| 0 <= i < s.len() ==> node_wf(#[trigger] s[i]),
    ensures
        forest_wf(s),
    decreases s.len(),
{
    if s.len() > 0 {
        assert forall|i: int| 0 <= i < s.drop_first().len() implies node_wf(
            #[trigger] s.drop_first()[i],
        ) by {
            assert(s.drop_first()[i] == s[i + 1]);
        }
        lemma_forest_wf_intro(s.drop_first());
    }
}

/// A height bound propagates from a sequence to each of its nodes.
pub proof fn lemma_forest_height_member(s: Seq<NodeView>, i: int)
    requires
        0 <= i < s.len(),
    ensures
        node_height(s[i]) <= forest_height(s),
    decreases s.len(),
{
    if i == 0 {
    } else {
        lemma_forest_height_member(s.drop_first(), i - 1);
        assert(s.drop_first()[i - 1] == s[i]);
    }
}

/// A single-node sequence is as high as its node.
pub proof fn lemma_forest_height_singleton(v: NodeView)
    ensures
        forest_height(seq![v]) == node_height(v),
{
    assert(seq![v].drop_first() =~= Seq::<NodeView>::empty());
    assert(forest_height(Seq::<NodeView>::empty()) == 0);
    assert(seq![v][0] == v);
}

/// Law: descending one level shrinks the height bound by one, so a
/// traversal whose tree has height at most `d + 1` holds no node at depth
/// greater than `d` below the root.
pub proof fn lemma_child_height(v: NodeView, i: int)
    requires
        0 <= i < v.children.len(),
    ensures
        node_height(v.children[i]) <= node_height(v) - 1,
{
    lemma_forest_height_member(v.children, i);
}

/// A height bound on every node of a sequence bounds the sequence's height.
pub proof fn lemma_forest_height_bound(s: Seq<NodeView>, b: nat)
    requires
        forall|i: int| 0 <= i < s.len() ==> node_height(#[trigger] s[i]) <= b,
    ensures
        forest_height(s) <= b,
    decreases s.len(),
{
    if s.len() > 0 {
        assert(forall|i: int|
            0 <= i < s.drop_first().len() ==> s.drop_first()[i] == #[trigger] s[i + 1]);
        lemma_forest_height_bound(s.drop_first(), b);
    }
}

/// A node matches a search: its lowercased role contains the pattern and
/// its name is not empty.
pub open spec fn role_matches(v: NodeView, pat: Seq<char>) -> bool {
    crate::text::has_substring(crate::text::lower_of(v.role), pat) && v.name.len() > 0
}

/// The (name, role, path) triples found in a subtree, the node itself
/// first, then its children in order.
pub open spec fn found_in_node(v: NodeView, pat: Seq<char>) -> Seq<(Seq<char>, Seq<char>, Seq<char>)>
    decreases v,
{
    (if role_matches(v, pat) {
        seq![(v.name, v.role, v.path)]
    } else {
        Seq::empty()
    }) + found_in_forest(v.children, pat)
}

/// The (name, role, path) triples found in a forest, in order.
pub open spec fn found_in_forest(s: Seq<NodeView>, pat: Seq<char>) -> Seq<
    (Seq<char>, Seq<char>, Seq<char>),
>
    decreases s,
{
    if s.len() == 0 {
        Seq::empty()
    } else {
        found_in_forest(s.drop_last(), pat) + found_in_node(s.last(), pat)
    }
}

/// Collect the named elements whose lowercased role contains `role`, in
/// pre-order, appending (name, role, path) triples to `out`.
#[verifier::loop_isolation(false)]
pub fn collect_by_role(nodes: &Vec<A11yNode>, role: &str, out: &mut Vec<(String, String, String)>)
    ensures
        final(out).deep_view() == old(out).deep_view() + found_in_forest(
            forest_view(nodes.view()),
            role.view(),
        ),
    decreases nodes.view(),
{
    let ghost fv = forest_view(nodes.view());
    proof {
        lemma_forest_view(nodes.view());
    }
    let mut i: usize = 0;
    while i < nodes.len()
        invariant
            i <= nodes.view().len(),
            out.deep_view() =~= old(out).deep_view() + found_in_forest(
                fv.subrange(0, i as int),
                role.view(),
            ),
        decreases nodes.view().len() - i,
    {
        proof {
            assert(fv.subrange(0, i + 1).drop_last() =~= fv.subrange(0, i as int));
            assert(fv.subrange(0, i + 1).last() == fv[i as int]);
            assert(fv[i as int] == node_view(nodes.view()[i as int]));
        }
        let node = &nodes[i];
        let lowered = crate::text::to_lowercase(node.role.as_str());
        if crate::text::find_substring(lowered.as_str(), role) && !node.name.as_str().is_empty() {
            let entry = (node.name.clone(), node.role.clone(), node.path.clone());
            let ghost ov = out.deep_view();
            out.push(entry);
            proof {
                assert(entry.deep_view() == (
                    node_view(nodes.view()[i as int]).name,
                    node_view(nodes.view()[i as int]).role,
                    node_view(nodes.view()[i as int]).path,
                ));
                assert(out.deep_view() =~= ov.push(entry.deep_view()));
            }
        }
        let ghost mid = out.deep_view();
        collect_by_role(&node.children, role, out);
        proof {
            let nv = fv[i as int];
            assert(forest_view(node.children.view()) == nv.children);
            assert(out.deep_view() =~= mid + found_in_forest(nv.children, role.view()));
            assert(mid =~= old(out).deep_view() + found_in_forest(
                fv.subrange(0, i as int),
                role.view(),
            ) + (if role_matches(nv, role.view()) {
                seq![(nv.name, nv.role, nv.path)]
            } else {
                Seq::<(Seq<char>, Seq<char>, Seq<char>)>::empty()
            }));
            assert(found_in_forest(fv.subrange(0, i + 1), role.view()) =~= found_in_forest(
                fv.subrange(0, i as int),
                role.view(),
            ) + found_in_node(nv, role.view()));
            assert(found_in_node(nv, role.view()) =~= (if role_matches(nv, role.view()) {
                seq![(nv.name, nv.role, nv.path)]
            } else {
                Seq::<(Seq<char>, Seq<char>, Seq<char>)>::empty()
            }) + found_in_forest(nv.children, role.view()));
            assert(out.deep_view() =~= old(out).deep_view() + found_in_forest(
                fv.subrange(0, i + 1),
                role.view(),
            ));
        }
        i = i + 1;
    }
    proof {
        assert(fv.subrange(0, fv.len() as int) =~= fv);
    }
}

} // verus!
