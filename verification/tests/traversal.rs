//! Tests of the traversal state machine and its bounds.

use std::collections::HashMap;

use hgk_desktop::cache::TreeCache;
use hgk_desktop::tree::{A11yNode, CHILD_CAP};
use hgk_desktop::walker::{
    get_tree_begin, get_tree_finish, ElementId, NodeFetch, TreeQuery, TreeWalk, WalkRequest,
};

/// A scripted tree: for each path, the element's name, role and children.
struct FakeTree {
    names: HashMap<String, (String, String)>,
    children: HashMap<String, Vec<String>>,
}

impl FakeTree {
    fn new() -> Self {
        FakeTree { names: HashMap::new(), children: HashMap::new() }
    }

    fn node(&mut self, path: &str, name: &str, role: &str, kids: &[&str]) {
        self.names.insert(path.to_string(), (name.to_string(), role.to_string()));
        self.children.insert(
            path.to_string(),
            kids.iter().map(|k| k.to_string()).collect(),
        );
    }

    /// Drive a walk over this tree to completion.
    fn run(&self, bus: &str, root: &str, depth: u32) -> Result<Vec<A11yNode>, String> {
        let mut walk = TreeWalk::new(bus.to_string(), root.to_string(), depth);
        let mut steps = 0;
        while let Some(req) = walk.next_request() {
            steps += 1;
            assert!(steps < 100_000, "walk does not terminate");
            match req {
                WalkRequest::FetchNode(id) => match self.names.get(&id.path) {
                    Some((name, role)) => walk.feed_node(NodeFetch {
                        error: None,
                        name: Some(name.clone()),
                        role: Some(role.clone()),
                    }),
                    None => walk.feed_node(NodeFetch {
                        error: Some(format!("no element at {}", id.path)),
                        name: None,
                        role: None,
                    }),
                },
                WalkRequest::FetchChildren(id) => {
                    let kids = self.children.get(&id.path).cloned().unwrap_or_default();
                    let ids = kids
                        .into_iter()
                        .map(|p| ElementId { bus_name: id.bus_name.clone(), path: p })
                        .collect::<Vec<_>>();
                    walk.feed_children(Some(ids));
                }
            }
        }
        walk.take_result()
    }
}

fn depth_of(n: &A11yNode) -> usize {
    1 + n.children.iter().map(depth_of).max().unwrap_or(0)
}

fn max_fanout(n: &A11yNode) -> usize {
    n.children
        .iter()
        .map(max_fanout)
        .max()
        .unwrap_or(0)
        .max(n.children.len())
}

fn small_tree() -> FakeTree {
    let mut t = FakeTree::new();
    t.node("/root", "App", "application", &["/a", "/b"]);
    t.node("/a", "Toolbar", "tool bar", &["/a/1"]);
    t.node("/a/1", "Save", "push button", &[]);
    t.node("/b", "Body", "panel", &[]);
    t
}

#[test]
fn walk_builds_the_tree() {
    let nodes = small_tree().run(":1.9", "/root", 3).expect("walk succeeds");
    assert_eq!(nodes.len(), 1);
    let root = &nodes[0];
    assert_eq!(root.name, "App");
    assert_eq!(root.role, "application");
    assert_eq!(root.bus_name, ":1.9");
    assert_eq!(root.path, "/root");
    assert_eq!(root.children.len(), 2);
    assert_eq!(root.children[0].name, "Toolbar");
    assert_eq!(root.children[0].children.len(), 1);
    assert_eq!(root.children[0].children[0].name, "Save");
    assert_eq!(root.children[1].name, "Body");
}

#[test]
fn walk_depth_zero_yields_childless_root() {
    let nodes = small_tree().run(":1.9", "/root", 0).expect("walk succeeds");
    assert_eq!(nodes.len(), 1);
    assert!(nodes[0].children.is_empty());
    assert_eq!(nodes[0].name, "App");
}

#[test]
fn walk_depth_bounds_hold() {
    for d in 0..4u32 {
        let nodes = small_tree().run(":1.9", "/root", d).expect("walk succeeds");
        assert_eq!(nodes.len(), 1);
        assert!(depth_of(&nodes[0]) <= d as usize + 1);
        assert!(max_fanout(&nodes[0]) <= CHILD_CAP);
    }
}

#[test]
fn walk_caps_children_at_fifty() {
    let mut t = FakeTree::new();
    let kid_names: Vec<String> = (0..60).map(|i| format!("/k{}", i)).collect();
    let kid_refs: Vec<&str> = kid_names.iter().map(|s| s.as_str()).collect();
    t.node("/root", "App", "application", &kid_refs);
    for (i, k) in kid_names.iter().enumerate() {
        t.node(k, &format!("kid{}", i), "panel", &[]);
    }
    let nodes = t.run(":1.9", "/root", 1).expect("walk succeeds");
    assert_eq!(nodes[0].children.len(), CHILD_CAP);
    assert_eq!(nodes[0].children[0].name, "kid0");
    assert_eq!(nodes[0].children[CHILD_CAP - 1].name, "kid49");
}

#[test]
fn walk_root_failure_fails_the_walk() {
    let t = FakeTree::new();
    let err = t.run(":1.9", "/nowhere", 2).expect_err("walk fails");
    assert_eq!(err, "no element at /nowhere");
}

#[test]
fn walk_skips_unreachable_child_and_degrades_missing_metadata() {
    let mut t = FakeTree::new();
    t.node("/root", "App", "application", &["/gone", "/here"]);
    t.node("/here", "Here", "panel", &[]);
    let mut walk = TreeWalk::new(":1.9".to_string(), "/root".to_string(), 2);
    let mut root_metadata_degraded = false;
    while let Some(req) = walk.next_request() {
        match req {
            WalkRequest::FetchNode(id) => {
                if id.path == "/root" {
                    // The root's role lookup fails: it degrades to "unknown".
                    root_metadata_degraded = true;
                    walk.feed_node(NodeFetch {
                        error: None,
                        name: None,
                        role: None,
                    });
                } else if id.path == "/gone" {
                    walk.feed_node(NodeFetch {
                        error: Some("unreachable".to_string()),
                        name: None,
                        role: None,
                    });
                } else {
                    walk.feed_node(NodeFetch {
                        error: None,
                        name: Some("Here".to_string()),
                        role: Some("panel".to_string()),
                    });
                }
            }
            WalkRequest::FetchChildren(id) => {
                let kids = t.children.get(&id.path).cloned().unwrap_or_default();
                walk.feed_children(Some(
                    kids.into_iter()
                        .map(|p| ElementId { bus_name: id.bus_name.clone(), path: p })
                        .collect(),
                ));
            }
        }
    }
    assert!(root_metadata_degraded);
    let nodes = walk.take_result().expect("walk succeeds");
    let root = &nodes[0];
    assert_eq!(root.name, "");
    assert_eq!(root.role, "unknown");
    assert_eq!(root.children.len(), 1);
    assert_eq!(root.children[0].name, "Here");
}

#[test]
fn walk_failed_child_list_reads_as_empty() {
    let mut walk = TreeWalk::new(":1.9".to_string(), "/root".to_string(), 2);
    match walk.next_request() {
        Some(WalkRequest::FetchNode(_)) => walk.feed_node(NodeFetch {
            error: None,
            name: Some("App".to_string()),
            role: Some("application".to_string()),
        }),
        other => panic!("unexpected request {:?}", other),
    }
    match walk.next_request() {
        Some(WalkRequest::FetchChildren(_)) => walk.feed_children(None),
        other => panic!("unexpected request {:?}", other),
    }
    assert!(walk.next_request().is_none());
    let nodes = walk.take_result().expect("walk succeeds");
    assert!(nodes[0].children.is_empty());
}

#[test]
fn tree_cache_integration_hits_after_store() {
    let mut cache = TreeCache::new();
    let t = small_tree();
    let begun = get_tree_begin(&cache, ":1.9", "/root", 3, 100);
    let nodes = match begun {
        TreeQuery::Miss(_) => t.run(":1.9", "/root", 3).expect("walk succeeds"),
        TreeQuery::Hit(_) => panic!("empty cache cannot hit"),
    };
    get_tree_finish(&mut cache, ":1.9", "/root", 3, &nodes, 100);
    match get_tree_begin(&cache, ":1.9", "/root", 3, 101) {
        TreeQuery::Hit(cached) => {
            assert_eq!(cached.len(), 1);
            assert_eq!(cached[0].name, "App");
        }
        TreeQuery::Miss(_) => panic!("expected a cache hit"),
    }
    // The stored entry is keyed by the requested depth only.
    match get_tree_begin(&cache, ":1.9", "/root", 2, 101) {
        TreeQuery::Miss(_) => {}
        TreeQuery::Hit(_) => panic!("other depth must miss"),
    }
}
