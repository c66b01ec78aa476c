//! Window-focus resolution: the window manager's tree is searched for
//! windows whose name mentions the profile, and the focus target is the
//! first of those whose name mentions the tab's title, falling back to
//! the first match.

use vstd::prelude::*;

verus! {

use crate::text::{contains_at, contains_str, spec_dec, u64_to_string};
use vstd::string::StringExecFns;

/// One node of the window manager's tree: an optional window id, an
/// optional name, and child nodes.
pub struct WindowNode {
    pub window_id: Option<u64>,
    pub name: Option<String>,
    pub nodes: Vec<WindowNode>,
}

/// The mathematical value of a tree node: its fields with every string
/// as a character sequence.
pub struct WindowNodeView {
    pub window_id: Option<u64>,
    pub name: Option<Seq<char>>,
    pub nodes: Seq<WindowNodeView>,
}

/// The value of one node.
pub open spec fn view_of_node(n: WindowNode) -> WindowNodeView
    decreases n, 0int,
{
    WindowNodeView {
        window_id: n.window_id,
        name: match n.name {
            Some(s) => Some(s@),
            None => None,
        },
        nodes: view_of_nodes(n.nodes@),
    }
}

/// The values of a forest, in order.
pub open spec fn view_of_nodes(ns: Seq<WindowNode>) -> Seq<WindowNodeView>
    decreases ns, ns.len() + 1,
{
    if ns.len() == 0 {
        Seq::empty()
    } else {
        view_of_nodes(ns.drop_last()).push(view_of_node(ns.last()))
    }
}

/// `p` occurs somewhere in `s`.
pub open spec fn spec_contains(s: Seq<char>, p: Seq<char>) -> bool {
    exists|i: int| contains_at(s, p, i)
}

/// What one node alone contributes: its window id and name, when it has
/// both and the name mentions the profile's display name or its window
/// class.
pub open spec fn spec_node_entry(n: WindowNode, name: Seq<char>, class: Seq<char>) -> Seq<
    (u64, Seq<char>),
> {
    match (n.window_id, n.name) {
        (Some(id), Some(nm)) => if spec_contains(nm@, name) || spec_contains(nm@, class) {
            seq![(id, nm@)]
        } else {
            Seq::empty()
        },
        _ => Seq::empty(),
    }
}

/// All matching windows of a node's subtree, the node's own entry first,
/// then its children's, in order.
pub open spec fn spec_windows(n: WindowNode, name: Seq<char>, class: Seq<char>) -> Seq<
    (u64, Seq<char>),
>
    decreases n, 0int,
{
    spec_node_entry(n, name, class) + spec_windows_list(n.nodes@, name, class)
}

/// All matching windows of a forest, in order.
pub open spec fn spec_windows_list(ns: Seq<WindowNode>, name: Seq<char>, class: Seq<char>) -> Seq<
    (u64, Seq<char>),
>
    decreases ns, ns.len() + 1,
{
    if ns.len() == 0 {
        Seq::empty()
    } else {
        spec_windows_list(ns.drop_last(), name, class) + spec_windows(ns.last(), name, class)
    }
}

/// The views of a list of id-and-name pairs.
pub open spec fn views_of_pairs(s: Seq<(u64, String)>) -> Seq<(u64, Seq<char>)> {
    s.map_values(|p: (u64, String)| (p.0, p.1@))
}

/// Collect the matching windows of a subtree, in tree order.
pub fn collect_windows(node: &WindowNode, name: &str, class: &str) -> (r: Vec<(u64, String)>)
    ensures
        views_of_pairs(r@) == spec_windows(*node, name@, class@),
    decreases *node,
{
    let mut out: Vec<(u64, String)> = Vec::new();
    match node.window_id {
        Some(id) => {
            match &node.name {
                Some(nm) => {
                    if contains_str(nm.as_str(), name) || contains_str(nm.as_str(), class) {
                        out.push((id, nm.clone()));
                    }
                },
                None => {},
            }
        },
        None => {},
    }
    proof {
        assert(views_of_pairs(out@) =~= spec_node_entry(*node, name@, class@));
        assert(node.nodes@.take(0) =~= Seq::<WindowNode>::empty());
    }
    let ghost entry = spec_node_entry(*node, name@, class@);
    let mut i: usize = 0;
    while i < node.nodes.len()
        invariant
            0 <= i <= node.nodes.len(),
            views_of_pairs(out@) == entry + spec_windows_list(
                node.nodes@.take(i as int),
                name@,
                class@,
            ),
            entry == spec_node_entry(*node, name@, class@),
        decreases node.nodes.len() - i,
    {
        let ghost prev = views_of_pairs(out@);
        let mut sub = collect_windows(&node.nodes[i], name, class);
        let ghost subv = views_of_pairs(sub@);
        out.append(&mut sub);
        proof {
            assert(views_of_pairs(out@) =~= prev + subv);
            assert(node.nodes@.take(i + 1).drop_last() =~= node.nodes@.take(i as int));
            assert(node.nodes@.take(i + 1).last() == node.nodes@[i as int]);
            assert(views_of_pairs(out@) =~= entry + spec_windows_list(
                node.nodes@.take(i + 1),
                name@,
                class@,
            ));
        }
        i += 1;
    }
    proof {
        assert(node.nodes@.take(node.nodes@.len() as int) =~= node.nodes@);
    }
    out
}

/// The focus target among the matching windows: the first whose name
/// mentions the tab's title, else the first window at all, else none.
pub fn choose_window(windows: &Vec<(u64, String)>, tab_title: &str) -> (r: Option<u64>)
    ensures
        r is None <==> windows.len() == 0,
        match r {
            Some(id) => {
                ||| exists|i: int|
                    {
                        &&& 0 <= i < windows@.len()
                        &&& #[trigger] spec_contains(windows@[i].1@, tab_title@)
                        &&& forall|j: int|
                            0 <= j < i ==> !spec_contains(#[trigger] windows@[j].1@, tab_title@)
                        &&& id == windows@[i].0
                    }
                ||| {
                    &&& forall|j: int|
                        0 <= j < windows@.len() ==> !spec_contains(
                            #[trigger] windows@[j].1@,
                            tab_title@,
                        )
                    &&& windows@.len() > 0
                    &&& id == windows@[0].0
                }
            },
            None => true,
        },
{
    if windows.len() == 0 {
        return None;
    }
    let mut i: usize = 0;
    while i < windows.len()
        invariant
            0 <= i <= windows.len(),
            windows.len() > 0,
            forall|j: int|
                0 <= j < i ==> !spec_contains(#[trigger] windows@[j].1@, tab_title@),
        decreases windows.len() - i,
    {
        if contains_str(windows[i].1.as_str(), tab_title) {
            proof {
                assert(spec_contains(windows@[i as int].1@, tab_title@));
            }
            return Some(windows[i].0);
        }
        i += 1;
    }
    Some(windows[0].0)
}

/// The window-manager command focusing every window of a class.
pub fn focus_class_command(class: &str) -> (r: String)
    ensures
        r@ == "[class=\""@ + class@ + "\"] focus"@,
{
    let mut out = "[class=\"".to_owned();
    out.append(class);
    out.append("\"] focus");
    out
}

/// The window-manager command focusing one window by its numeric id.
pub fn focus_id_command(id: u64) -> (r: String)
    ensures
        r@ == "[id=\""@ + spec_dec(id as nat) + "\"] focus"@,
{
    let mut out = "[id=\"".to_owned();
    out.append(u64_to_string(id).as_str());
    out.append("\"] focus");
    out
}

} // verus!
