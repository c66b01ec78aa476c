//! Reading the JSON documents the outside world hands back: the debugger
//! discovery response, the target-listing message, and the window
//! manager's tree. Each reading is a function of the text alone, so each
//! result carries a name, and the public readers' contracts are exact
//! over those names; the verified logic downstream (the target filter
//! and the window search) states what becomes of whatever is read.

use vstd::prelude::*;

verus! {

use crate::tabs::{views_of_raw, RawTarget, RawTargetView};
use crate::windows::{view_of_node, WindowNode, WindowNodeView};

/// Relies on serde_json::Value being an ordinary owned type; a value of
/// it appears only inside the trusted readers below.
#[verifier::external_type_specification]
#[verifier::external_body]
pub struct ExValue(serde_json::Value);

/// The string at `/webSocketDebuggerUrl` of a JSON document, when the
/// document parses and carries one: a function of the text alone.
pub uninterp spec fn spec_ws_url_of(body: Seq<char>) -> Option<Seq<char>>;

/// Relies on serde_json::from_str, Value::pointer and Value::as_str:
/// parsing is deterministic, the pointer resolves the one path, and the
/// field is returned exactly when it is a string.
#[verifier::external_body]
fn ws_url_field(body: &str) -> (r: Option<String>)
    ensures
        (r is Some) == (spec_ws_url_of(body@) is Some),
        r is Some ==> r->0@ == spec_ws_url_of(body@)->0,
{
    let v: serde_json::Value = serde_json::from_str(body).ok()?;
    let s = v.pointer("/webSocketDebuggerUrl")?.as_str()?;
    Some(s.to_string())
}

/// The target records under `/result/targetInfos` of a JSON document,
/// when the document parses and that path holds an array: a function of
/// the text alone.
pub uninterp spec fn spec_targets_of(text: Seq<char>) -> Option<Seq<RawTargetView>>;

/// Relies on serde_json::from_str, Value::pointer, Value::as_array and
/// Value::as_str: each array entry's `type`, `targetId`, `title` and
/// `url` string fields are moved into one record, absent or non-string
/// fields becoming absent.
#[verifier::external_body]
fn targets_field(text: &str) -> (r: Option<Vec<RawTarget>>)
    ensures
        (r is Some) == (spec_targets_of(text@) is Some),
        r is Some ==> views_of_raw(r->0@) == spec_targets_of(text@)->0,
{
    let v: serde_json::Value = serde_json::from_str(text).ok()?;
    let arr = v.pointer("/result/targetInfos")?.as_array()?;
    let get = |t: &serde_json::Value, p: &str| t.pointer(p).and_then(|x| x.as_str()).map(str::to_string);
    Some(arr.iter().map(|t| RawTarget {
        kind: get(t, "/type"),
        target_id: get(t, "/targetId"),
        title: get(t, "/title"),
        url: get(t, "/url"),
    }).collect())
}

/// The window tree of a JSON document, when it parses: a function of the
/// text alone.
pub uninterp spec fn spec_window_tree_of(text: Seq<char>) -> Option<WindowNodeView>;

/// Relies on serde_json::Value::pointer, Value::as_u64, Value::as_str
/// and Value::as_array: one node's `window`, `name` and `nodes` fields,
/// moved into a tree node, with the same reading of each child. Together
/// with `window_tree_field` below this is the one trusted reading of the
/// window tree.
#[verifier::external_body]
fn json_window_node(v: &serde_json::Value) -> WindowNode {
    WindowNode {
        window_id: v.pointer("/window").and_then(|x| x.as_u64()),
        name: v.pointer("/name").and_then(|x| x.as_str()).map(str::to_string),
        nodes: match v.pointer("/nodes").and_then(|x| x.as_array()) {
            Some(a) => a.iter().map(json_window_node).collect(),
            None => Vec::new(),
        },
    }
}

/// Relies on serde_json::from_str and the node reading above: the tree
/// read from a document is a function of the text alone.
#[verifier::external_body]
fn window_tree_field(text: &str) -> (r: Option<WindowNode>)
    ensures
        (r is Some) == (spec_window_tree_of(text@) is Some),
        r is Some ==> view_of_node(r->0) == spec_window_tree_of(text@)->0,
{
    let v: serde_json::Value = serde_json::from_str(text).ok()?;
    Some(json_window_node(&v))
}

/// The debugger socket URL of a discovery response body: present exactly
/// when the body carries one, and determined by the body alone.
pub fn extract_ws_url(body: &str) -> (r: Option<String>)
    ensures
        (r is Some) == (spec_ws_url_of(body@) is Some),
        r is Some ==> r->0@ == spec_ws_url_of(body@)->0,
{
    ws_url_field(body)
}

/// The raw target records of a protocol message: present exactly when
/// the message carries a target list, and determined by the text alone.
/// The verified target filter states exactly which records become tabs.
pub fn extract_targets(text: &str) -> (r: Option<Vec<RawTarget>>)
    ensures
        (r is Some) == (spec_targets_of(text@) is Some),
        r is Some ==> views_of_raw(r->0@) == spec_targets_of(text@)->0,
{
    targets_field(text)
}

/// The window tree of the window manager's reply: present exactly when
/// the reply parses, and determined by the text alone. The verified
/// window search states what is collected from any tree.
pub fn extract_window_tree(text: &str) -> (r: Option<WindowNode>)
    ensures
        (r is Some) == (spec_window_tree_of(text@) is Some),
        r is Some ==> view_of_node(r->0) == spec_window_tree_of(text@)->0,
{
    window_tree_field(text)
}

} // verus!
