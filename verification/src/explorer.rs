//! The file tree of the explorer view: nodes that can be expanded and
//! selected, and the rows that such a tree shows.
//!
//! A tree is a list of root nodes. A node of a directory may hold its
//! children, once they were loaded. The rows of the view are the nodes in
//! the order in which they are drawn: each node, and right below an
//! expanded node the rows of its children.

use vstd::prelude::*;
use crate::textscan::same_text;

verus! {

/// One file or directory of the tree.
#[derive(Debug)]
pub struct FileNode {
    /// The name that is shown.
    pub name: String,
    /// The full path.
    pub path: String,
    /// Whether this is a directory.
    pub is_dir: bool,
    /// Whether the children are shown.
    pub is_expanded: bool,
    /// The children, once they were loaded.
    pub children: Option<Vec<FileNode>>,
    /// Whether the node is marked for the clipboard.
    pub is_selected: bool,
}

/// A node as a mathematical value.
pub struct NodeView {
    pub name: Seq<char>,
    pub path: Seq<char>,
    pub is_dir: bool,
    pub is_expanded: bool,
    pub children: Option<Seq<NodeView>>,
    pub is_selected: bool,
}

/// The value of a node.
pub open spec fn node_view(node: FileNode) -> NodeView
    decreases node,
{
    NodeView {
        name: node.name@,
        path: node.path@,
        is_dir: node.is_dir,
        is_expanded: node.is_expanded,
        children: match node.children {
            Some(c) => Some(views_of(c@, c@.len())),
            None => None,
        },
        is_selected: node.is_selected,
    }
}

/// The values of the first `n` nodes of a list.
pub open spec fn views_of(nodes: Seq<FileNode>, n: nat) -> Seq<NodeView>
    decreases nodes, n,
{
    if n == 0 || n > nodes.len() {
        Seq::empty()
    } else {
        views_of(nodes, (n - 1) as nat).push(node_view(nodes[n - 1]))
    }
}

/// The values of the nodes of a list.
pub open spec fn views(nodes: Seq<FileNode>) -> Seq<NodeView> {
    views_of(nodes, nodes.len())
}

impl View for FileNode {
    type V = NodeView;

    open spec fn view(&self) -> NodeView {
        node_view(*self)
    }
}

/// `views_of` goes through the list node by node.
pub proof fn lemma_views_of(nodes: Seq<FileNode>, n: nat)
    requires
        n <= nodes.len(),
    ensures
        views_of(nodes, n).len() == n,
        forall|i: int| 0 <= i < n ==> #[trigger] views_of(nodes, n)[i] == node_view(nodes[i]),
    decreases n,
{
    if n > 0 {
        lemma_views_of(nodes, (n - 1) as nat);
    }
}

/// The depth of the children of a node at `depth`.
pub open spec fn deeper(depth: usize) -> usize {
    if depth < usize::MAX {
        (depth + 1) as usize
    } else {
        depth
    }
}

/// The rows that a node takes: its own, and below it those of its
/// children if it is expanded and they are loaded.
pub open spec fn node_rows(node: NodeView, depth: usize) -> Seq<(NodeView, usize)>
    decreases node,
{
    seq![(node, depth)] + (match node.children {
        Some(c) => if node.is_expanded {
            list_rows(c, c.len(), deeper(depth))
        } else {
            Seq::empty()
        },
        None => Seq::empty(),
    })
}

/// The rows of the first `n` nodes of a list.
pub open spec fn list_rows(nodes: Seq<NodeView>, n: nat, depth: usize) -> Seq<(NodeView, usize)>
    decreases nodes, n,
{
    if n == 0 || n > nodes.len() {
        Seq::empty()
    } else {
        list_rows(nodes, (n - 1) as nat, depth) + node_rows(nodes[n - 1], depth)
    }
}

/// The rows of a tree, each with its depth.
pub open spec fn rows(nodes: Seq<NodeView>) -> Seq<(NodeView, usize)> {
    list_rows(nodes, nodes.len(), 0)
}

/// What a list of borrowed rows shows.
pub open spec fn shown(out: Seq<(&FileNode, usize)>) -> Seq<(NodeView, usize)> {
    Seq::new(out.len(), |i: int| ((*out[i].0)@, out[i].1))
}

/// Appends the rows of `nodes`, drawn at `depth`, to `out`.
pub fn flatten_tree<'a>(
    nodes: &'a Vec<FileNode>,
    depth: usize,
    out: &mut Vec<(&'a FileNode, usize)>,
)
    ensures
        shown(final(out)@) == shown(old(out)@) + list_rows(views(nodes@), nodes@.len(), depth),
    decreases nodes,
{
    let ghost vs = views(nodes@);
    proof {
        lemma_views_of(nodes@, nodes@.len());
    }
    let mut i: usize = 0;
    while i < nodes.len()
        invariant
            i <= nodes@.len(),
            vs == views(nodes@),
            vs.len() == nodes@.len(),
            forall|k: int| 0 <= k < nodes@.len() ==> #[trigger] vs[k] == node_view(nodes@[k]),
            shown(out@) == shown(old(out)@) + list_rows(vs, i as nat, depth),
        decreases nodes@.len() - i,
    {
        let node = &nodes[i];
        let ghost before = out@;
        out.push((node, depth));
        assert(shown(out@) =~= shown(before) + seq![(vs[i as int], depth)]);
        let ghost own = out@;
        if node.is_expanded {
            if let Some(children) = &node.children {
                let below = if depth < usize::MAX {
                    depth + 1
                } else {
                    depth
                };
                flatten_tree(children, below, out);
                assert(vs[i as int].children == Some(views(children@)));
                assert(shown(out@) =~= shown(before) + (seq![(vs[i as int], depth)] + list_rows(
                    views(children@),
                    children@.len(),
                    below,
                )));
            }
        }
        assert(shown(out@) =~= shown(before) + node_rows(vs[i as int], depth)) by {
            let v = vs[i as int];
            assert(v == node_view(*node));
            if node.is_expanded && node.children is Some {
                let c = node.children.unwrap();
                assert(v.children == Some(views(c@)));
                assert(views(c@).len() == c@.len()) by {
                    lemma_views_of(c@, c@.len());
                }
                assert(node_rows(v, depth) == seq![(v, depth)] + list_rows(
                    views(c@),
                    c@.len(),
                    deeper(depth),
                ));
            } else {
                assert(out@ == own);
                assert(node_rows(v, depth) =~= seq![(v, depth)]);
            }
        }
        i += 1;
    }
}

/// The number of rows that a node takes.
pub open spec fn node_count(node: NodeView) -> nat
    decreases node,
{
    1 + (match node.children {
        Some(c) => if node.is_expanded {
            list_count(c, c.len())
        } else {
            0
        },
        None => 0,
    })
}

/// The number of rows of the first `n` nodes of a list.
pub open spec fn list_count(nodes: Seq<NodeView>, n: nat) -> nat
    decreases nodes, n,
{
    if n == 0 || n > nodes.len() {
        0
    } else {
        list_count(nodes, (n - 1) as nat) + node_count(nodes[n - 1])
    }
}

/// The node of row `k` among the rows of a node.
pub open spec fn node_row(node: NodeView, k: nat) -> NodeView
    decreases node,
{
    if k == 0 {
        node
    } else {
        match node.children {
            Some(c) => if node.is_expanded {
                list_row(c, c.len(), (k - 1) as nat)
            } else {
                node
            },
            None => node,
        }
    }
}

/// The node of row `k` among the rows of the first `n` nodes of a list,
/// for `k` below their number.
pub open spec fn list_row(nodes: Seq<NodeView>, n: nat, k: nat) -> NodeView
    decreases nodes, n,
{
    if n == 0 || n > nodes.len() {
        arbitrary()
    } else if k < list_count(nodes, (n - 1) as nat) {
        list_row(nodes, (n - 1) as nat, k)
    } else {
        node_row(nodes[n - 1], (k - list_count(nodes, (n - 1) as nat)) as nat)
    }
}

/// The rows are as many as `list_count` says, and row `k` shows the node
/// that `list_row` names, whatever the depth.
pub proof fn lemma_rows_of_list(nodes: Seq<NodeView>, n: nat, depth: usize)
    requires
        n <= nodes.len(),
    ensures
        list_rows(nodes, n, depth).len() == list_count(nodes, n),
        forall|k: int|
            0 <= k < list_count(nodes, n) ==> (#[trigger] list_rows(nodes, n, depth)[k]).0
                == list_row(nodes, n, k as nat),
    decreases nodes, n, 0nat,
{
    if n > 0 {
        lemma_rows_of_list(nodes, (n - 1) as nat, depth);
        lemma_rows_of_node(nodes[n - 1], depth);
    }
}

/// The same for the rows of one node.
pub proof fn lemma_rows_of_node(node: NodeView, depth: usize)
    ensures
        node_rows(node, depth).len() == node_count(node),
        forall|k: int|
            0 <= k < node_count(node) ==> (#[trigger] node_rows(node, depth)[k]).0 == node_row(
                node,
                k as nat,
            ),
    decreases node, 0nat, 0nat,
{
    match node.children {
        Some(c) => {
            if node.is_expanded {
                lemma_rows_of_list(c, c.len(), deeper(depth));
            }
        },
        None => {},
    }
}

/// The rows of a longer part of a list begin with those of a shorter one.
pub proof fn lemma_rows_grow(nodes: Seq<NodeView>, n: nat, m: nat)
    requires
        n <= m <= nodes.len(),
    ensures
        list_count(nodes, n) <= list_count(nodes, m),
        forall|k: nat| k < list_count(nodes, n) ==> list_row(nodes, m, k) == list_row(nodes, n, k),
    decreases m,
{
    if n < m {
        lemma_rows_grow(nodes, n, (m - 1) as nat);
    }
}

/// Looks for row `skip` among the rows of `nodes`. Where there are fewer
/// rows, says how many rows further the row would be.
fn seek<'a>(nodes: &'a Vec<FileNode>, skip: usize) -> (r: Result<&'a FileNode, usize>)
    ensures
        match r {
            Ok(node) => skip < list_count(views(nodes@), nodes@.len()) && node@ == list_row(
                views(nodes@),
                nodes@.len(),
                skip as nat,
            ),
            Err(rest) => rest + list_count(views(nodes@), nodes@.len()) == skip,
        },
    decreases nodes,
{
    let ghost vs = views(nodes@);
    proof {
        lemma_views_of(nodes@, nodes@.len());
    }
    let mut left = skip;
    let mut i: usize = 0;
    while i < nodes.len()
        invariant
            i <= nodes@.len(),
            vs == views(nodes@),
            vs.len() == nodes@.len(),
            forall|k: int| 0 <= k < nodes@.len() ==> #[trigger] vs[k] == node_view(nodes@[k]),
            left + list_count(vs, i as nat) == skip,
        decreases nodes@.len() - i,
    {
        let node = &nodes[i];
        let ghost v = vs[i as int];
        let ghost before = list_count(vs, i as nat);
        proof {
            lemma_rows_grow(vs, (i + 1) as nat, vs.len());
            assert(v == node_view(*node));
            assert(list_count(vs, (i + 1) as nat) == before + node_count(v));
            assert(skip >= before);
            assert(skip < before + node_count(v) ==> list_row(vs, (i + 1) as nat, skip as nat)
                == node_row(v, (skip - before) as nat));
        }
        if left == 0 {
            assert(node_row(v, 0) == v);
            return Ok(node);
        }
        left -= 1;
        if node.is_expanded {
            if let Some(children) = &node.children {
                proof {
                    lemma_views_of(children@, children@.len());
                    assert(v.children == Some(views(children@)));
                    assert(node_count(v) == 1 + list_count(views(children@), children@.len()));
                }
                match seek(children, left) {
                    Ok(found) => {
                        assert(node_row(v, (skip - before) as nat) == list_row(
                            views(children@),
                            children@.len(),
                            left as nat,
                        ));
                        return Ok(found);
                    },
                    Err(rest) => {
                        left = rest;
                    },
                }
            } else {
                assert(node_count(v) == 1);
            }
        } else {
            assert(node_count(v) == 1);
        }
        i += 1;
    }
    Err(left)
}

/// The node of row `row`, if the tree shows so many rows.
pub fn node_at_row(nodes: &Vec<FileNode>, row: usize) -> (r: Option<&FileNode>)
    ensures
        match r {
            Some(node) => row < rows(views(nodes@)).len() && node@ == rows(
                views(nodes@),
            )[row as int].0,
            None => row >= rows(views(nodes@)).len(),
        },
{
    proof {
        lemma_views_of(nodes@, nodes@.len());
        lemma_rows_of_list(views(nodes@), nodes@.len(), 0);
    }
    match seek(nodes, row) {
        Ok(node) => Some(node),
        Err(_) => None,
    }
}

/// The path of the node of row `row`, if the tree shows so many rows.
pub fn path_at_cursor(nodes: &Vec<FileNode>, row: usize) -> (r: Option<String>)
    ensures
        match r {
            Some(path) => row < rows(views(nodes@)).len() && path@ == rows(
                views(nodes@),
            )[row as int].0.path,
            None => row >= rows(views(nodes@)).len(),
        },
{
    match node_at_row(nodes, row) {
        Some(node) => Some(node.path.clone()),
        None => None,
    }
}

/// What a key press does to the node of a row.
#[derive(Debug, Clone, Copy, PartialEq, Eq, Structural)]
pub enum RowChange {
    /// Shows or hides the children of a directory.
    ToggleExpanded,
    /// Marks or unmarks the node for the clipboard.
    ToggleSelected,
}

/// The node after the change.
pub open spec fn changed(node: NodeView, change: RowChange) -> NodeView {
    match change {
        RowChange::ToggleExpanded => if node.is_dir {
            NodeView { is_expanded: !node.is_expanded, ..node }
        } else {
            node
        },
        RowChange::ToggleSelected => NodeView { is_selected: !node.is_selected, ..node },
    }
}

/// A node after the change of row `k` among its rows.
pub open spec fn node_with_row(node: NodeView, k: nat, change: RowChange) -> NodeView
    decreases node,
{
    if k == 0 {
        changed(node, change)
    } else {
        match node.children {
            Some(c) => if node.is_expanded {
                NodeView {
                    children: Some(list_with_row(c, c.len(), (k - 1) as nat, change)),
                    ..node
                }
            } else {
                node
            },
            None => node,
        }
    }
}

/// A list after the change of row `k` among the rows of its first `n`
/// nodes.
pub open spec fn list_with_row(nodes: Seq<NodeView>, n: nat, k: nat, change: RowChange) -> Seq<
    NodeView,
>
    decreases nodes, n,
{
    if n == 0 || n > nodes.len() {
        nodes
    } else if k < list_count(nodes, (n - 1) as nat) {
        list_with_row(nodes, (n - 1) as nat, k, change)
    } else {
        nodes.update(
            n - 1,
            node_with_row(nodes[n - 1], (k - list_count(nodes, (n - 1) as nat)) as nat, change),
        )
    }
}

/// A tree after the change of row `k`: the node of that row is changed
/// and every other node is as it was; a tree with fewer rows is as it was.
pub open spec fn with_row(nodes: Seq<NodeView>, k: nat, change: RowChange) -> Seq<NodeView> {
    list_with_row(nodes, nodes.len(), k, change)
}

/// A change of a row that is not there changes nothing.
pub proof fn lemma_no_such_row_in_list(nodes: Seq<NodeView>, n: nat, k: nat, change: RowChange)
    requires
        n <= nodes.len(),
        k >= list_count(nodes, n),
    ensures
        list_with_row(nodes, n, k, change) == nodes,
    decreases nodes, n, 0nat,
{
    if n > 0 {
        lemma_no_such_row_in_node(
            nodes[n - 1],
            (k - list_count(nodes, (n - 1) as nat)) as nat,
            change,
        );
        assert(nodes.update(n - 1, nodes[n - 1]) =~= nodes);
    }
}

/// The same for one node.
pub proof fn lemma_no_such_row_in_node(node: NodeView, k: nat, change: RowChange)
    requires
        k >= node_count(node),
    ensures
        node_with_row(node, k, change) == node,
    decreases node, 0nat, 0nat,
{
    match node.children {
        Some(c) => {
            if node.is_expanded {
                lemma_no_such_row_in_list(c, c.len(), (k - 1) as nat, change);
            }
        },
        None => {},
    }
}

/// A change of a row among the first nodes of a list does not look at
/// the later ones.
pub proof fn lemma_change_grows(nodes: Seq<NodeView>, n: nat, m: nat, k: nat, change: RowChange)
    requires
        n <= m <= nodes.len(),
        k < list_count(nodes, n),
    ensures
        list_with_row(nodes, m, k, change) == list_with_row(nodes, n, k, change),
    decreases m,
{
    if n < m {
        lemma_rows_grow(nodes, n, (m - 1) as nat);
        lemma_change_grows(nodes, n, (m - 1) as nat, k, change);
    }
}

/// The path to load after a change: that of a directory which was just
/// expanded and whose children are not loaded.
pub open spec fn to_load(node: NodeView, change: RowChange) -> Option<Seq<char>> {
    if change == RowChange::ToggleExpanded && node.is_dir && !node.is_expanded
        && node.children.is_none() {
        Some(node.path)
    } else {
        None
    }
}

/// Whether what was handed out to load is what the change asks for.
pub open spec fn loads(got: Option<String>, asked: Option<Seq<char>>) -> bool {
    match got {
        Some(path) => asked == Some(path@),
        None => asked.is_none(),
    }
}

/// Changes row `skip` among the rows of `nodes`. Where there are fewer
/// rows, says how many rows further the row would be.
fn change_row(nodes: &mut Vec<FileNode>, skip: usize, change: RowChange) -> (r: Result<
    Option<String>,
    usize,
>)
    ensures
        final(nodes)@.len() == old(nodes)@.len(),
        views(final(nodes)@) == with_row(views(old(nodes)@), skip as nat, change),
        match r {
            Ok(path) => skip < list_count(views(old(nodes)@), old(nodes)@.len()) && loads(
                path,
                to_load(list_row(views(old(nodes)@), old(nodes)@.len(), skip as nat), change),
            ),
            Err(rest) => rest + list_count(views(old(nodes)@), old(nodes)@.len()) == skip,
        },
    decreases views(old(nodes)@),
{
    let ghost vs = views(nodes@);
    let ghost len = nodes@.len();
    proof {
        lemma_views_of(nodes@, nodes@.len());
    }
    let mut left = skip;
    let mut i: usize = 0;
    while i < nodes.len()
        invariant
            i <= len,
            len == nodes@.len(),
            len == old(nodes)@.len(),
            vs == views(old(nodes)@),
            vs == views(nodes@),
            vs.len() == len,
            left + list_count(vs, i as nat) == skip,
        decreases len - i,
    {
        let ghost v = vs[i as int];
        let ghost before = list_count(vs, i as nat);
        let ghost was = nodes@;
        proof {
            lemma_views_of(nodes@, nodes@.len());
            lemma_rows_grow(vs, (i + 1) as nat, len);
            assert(v == node_view(nodes@[i as int]));
            assert(list_count(vs, (i + 1) as nat) == before + node_count(v));
            assert(skip < before + node_count(v) ==> list_row(vs, len, skip as nat) == node_row(
                v,
                (skip - before) as nat,
            )) by {
                if skip < before + node_count(v) {
                    assert(list_row(vs, (i + 1) as nat, skip as nat) == node_row(
                        v,
                        (skip - before) as nat,
                    ));
                }
            }
        }
        if left == 0 {
            assert(list_row(vs, len, skip as nat) == v);
            let mut path: Option<String> = None;
            match change {
                RowChange::ToggleExpanded => {
                    if nodes[i].is_dir {
                        let now = !nodes[i].is_expanded;
                        nodes[i].is_expanded = now;
                        if now && nodes[i].children.is_none() {
                            path = Some(nodes[i].path.clone());
                        }
                    }
                },
                RowChange::ToggleSelected => {
                    let now = !nodes[i].is_selected;
                    nodes[i].is_selected = now;
                },
            }
            proof {
                lemma_views_of(nodes@, nodes@.len());
                lemma_change_grows(vs, (i + 1) as nat, len, skip as nat, change);
                assert(node_view(nodes@[i as int]) == changed(v, change));
                assert(views(nodes@) =~= vs.update(i as int, changed(v, change)));
            }
            return Ok(path);
        }
        left -= 1;
        if nodes[i].is_expanded {
            if let Some(children) = &mut nodes[i].children {
                proof {
                    lemma_views_of(children@, children@.len());
                }
                let ghost cs = views(children@);
                assert(v.children == Some(cs));
                assert(node_count(v) == 1 + list_count(cs, cs.len()));
                match change_row(children, left, change) {
                    Ok(path) => {
                        proof {
                            assert(list_row(vs, len, skip as nat) == list_row(
                                cs,
                                cs.len(),
                                left as nat,
                            ));
                            lemma_views_of(nodes@, nodes@.len());
                            lemma_change_grows(vs, (i + 1) as nat, len, skip as nat, change);
                            assert(views(nodes@) =~= vs.update(
                                i as int,
                                node_with_row(v, (skip - before) as nat, change),
                            ));
                        }
                        return Ok(path);
                    },
                    Err(rest) => {
                        proof {
                            lemma_no_such_row_in_list(cs, cs.len(), left as nat, change);
                            lemma_views_of(nodes@, nodes@.len());
                            assert(views(nodes@) =~= vs);
                        }
                        left = rest;
                    },
                }
            } else {
                assert(nodes@ == was);
            }
        }
        i += 1;
    }
    proof {
        lemma_no_such_row_in_list(vs, len, skip as nat, change);
    }
    Err(left)
}

/// Shows or hides the children of the directory of row `row`. The
/// first result says whether the tree has that row; the second is the
/// path whose children are to be loaded, where the directory was
/// expanded for the first time.
pub fn toggle_node_at(nodes: &mut Vec<FileNode>, row: usize) -> (r: (bool, Option<String>))
    ensures
        final(nodes)@.len() == old(nodes)@.len(),
        views(final(nodes)@) == with_row(
            views(old(nodes)@),
            row as nat,
            RowChange::ToggleExpanded,
        ),
        r.0 == (row < rows(views(old(nodes)@)).len()),
        r.0 ==> loads(
            r.1,
            to_load(rows(views(old(nodes)@))[row as int].0, RowChange::ToggleExpanded),
        ),
        !r.0 ==> r.1.is_none(),
{
    proof {
        lemma_views_of(nodes@, nodes@.len());
        lemma_rows_of_list(views(nodes@), nodes@.len(), 0);
    }
    match change_row(nodes, row, RowChange::ToggleExpanded) {
        Ok(path) => (true, path),
        Err(_) => (false, None),
    }
}

/// Marks or unmarks the node of row `row`, and says whether the tree has
/// that row.
pub fn select_node_at(nodes: &mut Vec<FileNode>, row: usize) -> (r: bool)
    ensures
        final(nodes)@.len() == old(nodes)@.len(),
        views(final(nodes)@) == with_row(
            views(old(nodes)@),
            row as nat,
            RowChange::ToggleSelected,
        ),
        r == (row < rows(views(old(nodes)@)).len()),
{
    proof {
        lemma_views_of(nodes@, nodes@.len());
        lemma_rows_of_list(views(nodes@), nodes@.len(), 0);
    }
    change_row(nodes, row, RowChange::ToggleSelected).is_ok()
}

/// The paths of the marked nodes in a node and below it, the node first.
/// Children count whether they are shown or not.
pub open spec fn node_selected(node: NodeView) -> Seq<Seq<char>>
    decreases node,
{
    (if node.is_selected {
        seq![node.path]
    } else {
        Seq::empty()
    }) + (match node.children {
        Some(c) => list_selected(c, c.len()),
        None => Seq::empty(),
    })
}

/// The paths of the marked nodes among the first `n` nodes of a list and
/// below them.
pub open spec fn list_selected(nodes: Seq<NodeView>, n: nat) -> Seq<Seq<char>>
    decreases nodes, n,
{
    if n == 0 || n > nodes.len() {
        Seq::empty()
    } else {
        list_selected(nodes, (n - 1) as nat) + node_selected(nodes[n - 1])
    }
}

/// The texts of a list of strings.
pub open spec fn texts(list: Seq<String>) -> Seq<Seq<char>> {
    Seq::new(list.len(), |i: int| list[i]@)
}

fn collect_selected(nodes: &Vec<FileNode>, out: &mut Vec<String>)
    ensures
        texts(final(out)@) == texts(old(out)@) + list_selected(views(nodes@), nodes@.len()),
    decreases nodes,
{
    let ghost vs = views(nodes@);
    proof {
        lemma_views_of(nodes@, nodes@.len());
    }
    let mut i: usize = 0;
    while i < nodes.len()
        invariant
            i <= nodes@.len(),
            vs == views(nodes@),
            vs.len() == nodes@.len(),
            forall|k: int| 0 <= k < nodes@.len() ==> #[trigger] vs[k] == node_view(nodes@[k]),
            texts(out@) == texts(old(out)@) + list_selected(vs, i as nat),
        decreases nodes@.len() - i,
    {
        let node = &nodes[i];
        let ghost before = out@;
        let ghost v = vs[i as int];
        assert(v == node_view(*node));
        if node.is_selected {
            out.push(node.path.clone());
            assert(texts(out@) =~= texts(before) + seq![v.path]);
        }
        let ghost own = out@;
        if let Some(children) = &node.children {
            collect_selected(children, out);
            assert(v.children == Some(views(children@)));
            proof {
                lemma_views_of(children@, children@.len());
            }
            assert(texts(out@) =~= texts(own) + list_selected(views(children@), children@.len()));
        }
        assert(texts(out@) =~= texts(before) + node_selected(v));
        i += 1;
    }
}

/// The paths of the marked nodes, in the order of the tree.
pub fn selected_paths(nodes: &Vec<FileNode>) -> (r: Vec<String>)
    ensures
        texts(r@) == list_selected(views(nodes@), nodes@.len()),
{
    let mut out: Vec<String> = Vec::new();
    assert(texts(out@) =~= Seq::<Seq<char>>::empty());
    collect_selected(nodes, &mut out);
    out
}

/// What is looked for in a tree.
#[derive(Debug, Clone, Copy)]
pub enum Wanted<'a> {
    /// The node with this path.
    Path(&'a str),
    /// An expanded directory whose children are not loaded.
    Unloaded,
}

/// What is looked for, as a mathematical value.
pub enum WantedView {
    Path(Seq<char>),
    Unloaded,
}

impl<'a> View for Wanted<'a> {
    type V = WantedView;

    open spec fn view(&self) -> WantedView {
        match self {
            Wanted::Path(p) => WantedView::Path(p@),
            Wanted::Unloaded => WantedView::Unloaded,
        }
    }
}

/// Whether a node is what is looked for.
pub open spec fn is_wanted(node: NodeView, wanted: WantedView) -> bool {
    match wanted {
        WantedView::Path(p) => node.path == p,
        WantedView::Unloaded => node.is_expanded && node.children.is_none() && node.is_dir,
    }
}

/// The first wanted node in a node and below it, the node first.
/// Children count whether they are shown or not.
pub open spec fn node_find(node: NodeView, wanted: WantedView) -> Option<NodeView>
    decreases node,
{
    if is_wanted(node, wanted) {
        Some(node)
    } else {
        match node.children {
            Some(c) => list_find(c, 0, wanted),
            None => None,
        }
    }
}

/// The first wanted node among the nodes of a list from `from` on and
/// below them.
pub open spec fn list_find(nodes: Seq<NodeView>, from: nat, wanted: WantedView) -> Option<
    NodeView,
>
    decreases nodes, nodes.len() - from,
{
    if from >= nodes.len() {
        None
    } else {
        match node_find(nodes[from as int], wanted) {
            Some(found) => Some(found),
            None => list_find(nodes, from + 1, wanted),
        }
    }
}

/// The first wanted node of a tree.
pub open spec fn found(nodes: Seq<NodeView>, wanted: WantedView) -> Option<NodeView> {
    list_find(nodes, 0, wanted)
}

fn wanted_here(node: &FileNode, wanted: &Wanted) -> (r: bool)
    ensures
        r == is_wanted(node@, wanted@),
{
    match wanted {
        Wanted::Path(p) => same_text(node.path.as_str(), p),
        Wanted::Unloaded => node.is_expanded && node.children.is_none() && node.is_dir,
    }
}

/// The first wanted node of the tree.
pub fn find_node<'a>(nodes: &'a Vec<FileNode>, wanted: &Wanted) -> (r: Option<&'a FileNode>)
    ensures
        match r {
            Some(node) => found(views(nodes@), wanted@) == Some(node@),
            None => found(views(nodes@), wanted@).is_none(),
        },
    decreases nodes,
{
    let ghost vs = views(nodes@);
    proof {
        lemma_views_of(nodes@, nodes@.len());
    }
    let mut i: usize = 0;
    while i < nodes.len()
        invariant
            i <= nodes@.len(),
            vs == views(nodes@),
            vs.len() == nodes@.len(),
            forall|k: int| 0 <= k < nodes@.len() ==> #[trigger] vs[k] == node_view(nodes@[k]),
            list_find(vs, 0, wanted@) == list_find(vs, i as nat, wanted@),
        decreases nodes@.len() - i,
    {
        let node = &nodes[i];
        let ghost v = vs[i as int];
        assert(v == node_view(*node));
        if wanted_here(node, wanted) {
            return Some(node);
        }
        if let Some(children) = &node.children {
            assert(v.children == Some(views(children@)));
            match find_node(children, wanted) {
                Some(found) => {
                    return Some(found);
                },
                None => {},
            }
        }
        assert(node_find(v, wanted@).is_none());
        i += 1;
    }
    None
}

/// A node after the children of the first wanted node in it or below it
/// were set; with `expand`, that node is expanded too.
pub open spec fn node_loaded(
    node: NodeView,
    wanted: WantedView,
    children: Seq<NodeView>,
    expand: bool,
) -> NodeView
    decreases node,
{
    if is_wanted(node, wanted) {
        NodeView { children: Some(children), is_expanded: node.is_expanded || expand, ..node }
    } else {
        match node.children {
            Some(c) => NodeView {
                children: Some(list_loaded(c, 0, wanted, children, expand)),
                ..node
            },
            None => node,
        }
    }
}

/// A list after the children of the first wanted node among its nodes
/// from `from` on and below them were set. Without such a node the list
/// is as it was.
pub open spec fn list_loaded(
    nodes: Seq<NodeView>,
    from: nat,
    wanted: WantedView,
    children: Seq<NodeView>,
    expand: bool,
) -> Seq<NodeView>
    decreases nodes, nodes.len() - from,
{
    if from >= nodes.len() {
        nodes
    } else if node_find(nodes[from as int], wanted).is_some() {
        nodes.update(from as int, node_loaded(nodes[from as int], wanted, children, expand))
    } else {
        list_loaded(nodes, from + 1, wanted, children, expand)
    }
}

/// A tree after the children of its first wanted node were set.
pub open spec fn loaded(
    nodes: Seq<NodeView>,
    wanted: WantedView,
    children: Seq<NodeView>,
    expand: bool,
) -> Seq<NodeView> {
    list_loaded(nodes, 0, wanted, children, expand)
}

/// Sets the children of the first wanted node, or hands them back where
/// no node is wanted.
fn put_children(
    nodes: &mut Vec<FileNode>,
    wanted: &Wanted,
    children: Vec<FileNode>,
    expand: bool,
) -> (r: Result<(), Vec<FileNode>>)
    ensures
        final(nodes)@.len() == old(nodes)@.len(),
        match r {
            Ok(_) => found(views(old(nodes)@), wanted@).is_some() && views(final(nodes)@)
                == loaded(views(old(nodes)@), wanted@, views(children@), expand),
            Err(back) => found(views(old(nodes)@), wanted@).is_none() && views(final(nodes)@)
                == views(old(nodes)@) && back == children,
        },
    decreases views(old(nodes)@),
{
    let ghost vs = views(nodes@);
    let ghost len = nodes@.len();
    let ghost kv = views(children@);
    proof {
        lemma_views_of(nodes@, nodes@.len());
    }
    let mut kids = children;
    let mut i: usize = 0;
    while i < nodes.len()
        invariant
            i <= len,
            len == nodes@.len(),
            len == old(nodes)@.len(),
            vs == views(old(nodes)@),
            vs == views(nodes@),
            vs.len() == len,
            kids == children,
            kv == views(children@),
            list_find(vs, 0, wanted@) == list_find(vs, i as nat, wanted@),
            list_loaded(vs, 0, wanted@, kv, expand) == list_loaded(vs, i as nat, wanted@, kv, expand),
        decreases len - i,
    {
        let ghost v = vs[i as int];
        let ghost was = nodes@;
        proof {
            lemma_views_of(nodes@, nodes@.len());
            assert(v == node_view(nodes@[i as int]));
        }
        if wanted_here(&nodes[i], wanted) {
            nodes[i].children = Some(kids);
            if expand {
                nodes[i].is_expanded = true;
            }
            proof {
                lemma_views_of(nodes@, nodes@.len());
                assert(node_view(nodes@[i as int]) == node_loaded(v, wanted@, kv, expand));
                assert(views(nodes@) =~= vs.update(i as int, node_loaded(v, wanted@, kv, expand)));
            }
            return Ok(());
        }
        if let Some(below) = &mut nodes[i].children {
            let ghost cs = views(below@);
            assert(v.children == Some(cs));
            match put_children(below, wanted, kids, expand) {
                Ok(_) => {
                    proof {
                        lemma_views_of(nodes@, nodes@.len());
                        assert(node_find(v, wanted@).is_some());
                        assert(views(nodes@) =~= vs.update(
                            i as int,
                            node_loaded(v, wanted@, kv, expand),
                        ));
                    }
                    return Ok(());
                },
                Err(back) => {
                    proof {
                        lemma_views_of(nodes@, nodes@.len());
                        assert(views(nodes@) =~= vs);
                    }
                    kids = back;
                },
            }
        } else {
            assert(nodes@ == was);
        }
        assert(node_find(v, wanted@).is_none());
        i += 1;
    }
    Err(kids)
}

/// Sets the children of the first wanted node of the tree and, with
/// `expand`, expands it. Says whether there was such a node; without one
/// the tree is as it was.
pub fn set_children(
    nodes: &mut Vec<FileNode>,
    wanted: &Wanted,
    children: Vec<FileNode>,
    expand: bool,
) -> (r: bool)
    ensures
        final(nodes)@.len() == old(nodes)@.len(),
        r == found(views(old(nodes)@), wanted@).is_some(),
        r ==> views(final(nodes)@) == loaded(views(old(nodes)@), wanted@, views(children@), expand),
        !r ==> views(final(nodes)@) == views(old(nodes)@),
{
    put_children(nodes, wanted, children, expand).is_ok()
}

/// The number of rows of the nodes before a replaced node, and of all
/// nodes where the new node takes as many rows as the old one.
proof fn lemma_count_of_update(nodes: Seq<NodeView>, at: int, node: NodeView, m: nat)
    requires
        0 <= at < nodes.len(),
        m <= nodes.len(),
        m <= at || node_count(node) == node_count(nodes[at]),
    ensures
        list_count(nodes.update(at, node), m) == list_count(nodes, m),
    decreases m,
{
    if m > 0 {
        lemma_count_of_update(nodes, at, node, (m - 1) as nat);
    }
}

/// Marking a row changes no number of rows, in a list.
proof fn lemma_marking_keeps_rows_in_list(nodes: Seq<NodeView>, n: nat, k: nat, m: nat)
    requires
        n <= nodes.len(),
        m <= nodes.len(),
    ensures
        list_with_row(nodes, n, k, RowChange::ToggleSelected).len() == nodes.len(),
        list_count(list_with_row(nodes, n, k, RowChange::ToggleSelected), m) == list_count(
            nodes,
            m,
        ),
    decreases nodes, n, 0nat,
{
    if n > 0 {
        let before = list_count(nodes, (n - 1) as nat);
        if k < before {
            lemma_marking_keeps_rows_in_list(nodes, (n - 1) as nat, k, m);
        } else {
            lemma_marking_keeps_rows_in_node(nodes[n - 1], (k - before) as nat);
            lemma_count_of_update(
                nodes,
                n - 1,
                node_with_row(nodes[n - 1], (k - before) as nat, RowChange::ToggleSelected),
                m,
            );
        }
    }
}

/// Marking a row changes no number of rows, in a node.
proof fn lemma_marking_keeps_rows_in_node(node: NodeView, k: nat)
    ensures
        node_count(node_with_row(node, k, RowChange::ToggleSelected)) == node_count(node),
    decreases node, 0nat, 0nat,
{
    if k > 0 {
        match node.children {
            Some(c) => {
                if node.is_expanded {
                    lemma_marking_keeps_rows_in_list(c, c.len(), (k - 1) as nat, c.len());
                }
            },
            None => {},
        }
    }
}

proof fn lemma_marking_twice_in_list(nodes: Seq<NodeView>, n: nat, k: nat)
    requires
        n <= nodes.len(),
    ensures
        list_with_row(
            list_with_row(nodes, n, k, RowChange::ToggleSelected),
            n,
            k,
            RowChange::ToggleSelected,
        ) == nodes,
    decreases nodes, n, 0nat,
{
    if n > 0 {
        let before = list_count(nodes, (n - 1) as nat);
        let once = list_with_row(nodes, n, k, RowChange::ToggleSelected);
        lemma_marking_keeps_rows_in_list(nodes, n, k, (n - 1) as nat);
        if k < before {
            lemma_marking_twice_in_list(nodes, (n - 1) as nat, k);
        } else {
            lemma_marking_twice_in_node(nodes[n - 1], (k - before) as nat);
            assert(once.update(n - 1, nodes[n - 1]) =~= nodes);
        }
    }
}

proof fn lemma_marking_twice_in_node(node: NodeView, k: nat)
    ensures
        node_with_row(
            node_with_row(node, k, RowChange::ToggleSelected),
            k,
            RowChange::ToggleSelected,
        ) == node,
    decreases node, 0nat, 0nat,
{
    if k > 0 {
        match node.children {
            Some(c) => {
                if node.is_expanded {
                    lemma_marking_keeps_rows_in_list(c, c.len(), (k - 1) as nat, c.len());
                    lemma_marking_twice_in_list(c, c.len(), (k - 1) as nat);
                }
            },
            None => {},
        }
    }
}

/// Marking a row shows as many rows as before, and marking it once more
/// gives the tree back.
pub proof fn lemma_marking_twice(nodes: Seq<NodeView>, k: nat)
    ensures
        rows(with_row(nodes, k, RowChange::ToggleSelected)).len() == rows(nodes).len(),
        with_row(with_row(nodes, k, RowChange::ToggleSelected), k, RowChange::ToggleSelected)
            == nodes,
{
    let once = with_row(nodes, k, RowChange::ToggleSelected);
    lemma_marking_keeps_rows_in_list(nodes, nodes.len(), k, nodes.len());
    lemma_marking_twice_in_list(nodes, nodes.len(), k);
    lemma_rows_of_list(nodes, nodes.len(), 0);
    lemma_rows_of_list(once, once.len(), 0);
}

proof fn lemma_set_is_found_in_list(
    nodes: Seq<NodeView>,
    from: nat,
    path: Seq<char>,
    children: Seq<NodeView>,
    expand: bool,
)
    requires
        list_find(nodes, from, WantedView::Path(path)) matches Some(node),
    ensures
        list_find(
            list_loaded(nodes, from, WantedView::Path(path), children, expand),
            from,
            WantedView::Path(path),
        ) matches Some(node) && node.children == Some(children) && node.path == path,
    decreases nodes, nodes.len() - from,
{
    let wanted = WantedView::Path(path);
    if node_find(nodes[from as int], wanted).is_some() {
        lemma_set_is_found_in_node(nodes[from as int], path, children, expand);
    } else {
        lemma_set_is_found_in_list(nodes, from + 1, path, children, expand);
        lemma_unset_is_kept(nodes, from, from + 1, path, children, expand);
    }
}

/// Setting children at a later node leaves the nodes before it.
proof fn lemma_unset_is_kept(
    nodes: Seq<NodeView>,
    at: nat,
    from: nat,
    path: Seq<char>,
    children: Seq<NodeView>,
    expand: bool,
)
    requires
        at < from,
    ensures
        list_loaded(nodes, from, WantedView::Path(path), children, expand).len() == nodes.len(),
        at < nodes.len() ==> list_loaded(nodes, from, WantedView::Path(path), children, expand)[at as int]
            == nodes[at as int],
    decreases nodes.len() - from,
{
    if from < nodes.len() && node_find(nodes[from as int], WantedView::Path(path)).is_none() {
        lemma_unset_is_kept(nodes, at, from + 1, path, children, expand);
    }
}

proof fn lemma_set_is_found_in_node(
    node: NodeView,
    path: Seq<char>,
    children: Seq<NodeView>,
    expand: bool,
)
    requires
        node_find(node, WantedView::Path(path)) matches Some(found),
    ensures
        node_find(node_loaded(node, WantedView::Path(path), children, expand), WantedView::Path(path))
            matches Some(found) && found.children == Some(children) && found.path == path,
    decreases node, 0nat,
{
    if node.path != path {
        match node.children {
            Some(c) => {
                lemma_set_is_found_in_list(c, 0, path, children, expand);
            },
            None => {},
        }
    }
}

/// After the children of the node with a path were set, the node that is
/// found for that path holds them.
pub proof fn lemma_set_children_are_found(
    nodes: Seq<NodeView>,
    path: Seq<char>,
    children: Seq<NodeView>,
    expand: bool,
)
    requires
        found(nodes, WantedView::Path(path)).is_some(),
    ensures
        found(loaded(nodes, WantedView::Path(path), children, expand), WantedView::Path(path))
            matches Some(node) && node.children == Some(children) && node.path == path,
{
    lemma_set_is_found_in_list(nodes, 0, path, children, expand);
}

/// One tree of the explorer with its cursor.
#[derive(Debug)]
pub struct TreeViewState {
    /// The roots of the tree.
    pub root_nodes: Vec<FileNode>,
    /// The row on which the cursor stands.
    pub cursor_index: usize,
    /// The first row that is drawn.
    pub scroll_offset: usize,
}

impl Default for TreeViewState {
    fn default() -> (r: TreeViewState)
        ensures
            r.root_nodes@.len() == 0,
            r.cursor_index == 0,
            r.scroll_offset == 0,
    {
        TreeViewState { root_nodes: Vec::new(), cursor_index: 0, scroll_offset: 0 }
    }
}

impl TreeViewState {
    /// The rows of the tree.
    pub open spec fn spec_rows(&self) -> Seq<(NodeView, usize)> {
        rows(views(self.root_nodes@))
    }

    /// Moves the cursor one row down, unless it stands on the last row
    /// (or on the largest number that a cursor can hold).
    pub fn cursor_down(&mut self)
        ensures
            views(final(self).root_nodes@) == views(old(self).root_nodes@),
            final(self).scroll_offset == old(self).scroll_offset,
            final(self).cursor_index == (if old(self).cursor_index + 1 < old(self).spec_rows().len()
                && old(self).cursor_index < usize::MAX {
                (old(self).cursor_index + 1) as usize
            } else {
                old(self).cursor_index
            }),
    {
        if self.cursor_index < usize::MAX {
            if node_at_row(&self.root_nodes, self.cursor_index + 1).is_some() {
                self.cursor_index += 1;
            }
        }
    }

    /// Moves the cursor one row up, unless it stands on the first row.
    pub fn cursor_up(&mut self)
        ensures
            final(self).root_nodes == old(self).root_nodes,
            final(self).scroll_offset == old(self).scroll_offset,
            final(self).cursor_index == (if old(self).cursor_index > 0 {
                (old(self).cursor_index - 1) as usize
            } else {
                0
            }),
    {
        if self.cursor_index > 0 {
            self.cursor_index -= 1;
        }
    }

    /// Scrolls a window of `height` rows so far that it holds the cursor:
    /// up to the cursor where it stands above the window, down until the
    /// cursor is the last row where it stands below. A window without
    /// rows is left where it is.
    pub fn follow_cursor(&mut self, height: usize)
        ensures
            final(self).root_nodes == old(self).root_nodes,
            final(self).cursor_index == old(self).cursor_index,
            final(self).scroll_offset == (if height == 0 {
                old(self).scroll_offset
            } else if old(self).cursor_index < old(self).scroll_offset {
                old(self).cursor_index
            } else if old(self).cursor_index >= old(self).scroll_offset + height {
                (old(self).cursor_index - height + 1) as usize
            } else {
                old(self).scroll_offset
            }),
            height > 0 ==> final(self).scroll_offset <= final(self).cursor_index
                < final(self).scroll_offset + height,
    {
        if height > 0 {
            if self.cursor_index < self.scroll_offset {
                self.scroll_offset = self.cursor_index;
            } else if self.cursor_index - self.scroll_offset >= height {
                self.scroll_offset = self.cursor_index - height + 1;
            }
        }
    }

    /// The path of the node under the cursor.
    pub fn path_at_cursor(&self) -> (r: Option<String>)
        ensures
            match r {
                Some(path) => self.cursor_index < self.spec_rows().len() && path@
                    == self.spec_rows()[self.cursor_index as int].0.path,
                None => self.cursor_index >= self.spec_rows().len(),
            },
    {
        path_at_cursor(&self.root_nodes, self.cursor_index)
    }
}

/// The two trees of the explorer, of this machine and of the agent's,
/// and the clipboard between them.
#[derive(Debug)]
pub struct TreeExplorerState {
    /// The tree of this machine.
    pub local_tree: TreeViewState,
    /// The tree of the agent's machine.
    pub slave_tree: TreeViewState,
    /// Which tree has the cursor: `false` this machine's, `true` the
    /// agent's.
    pub active_side: bool,
    /// The paths that were copied or cut.
    pub clipboard: Vec<String>,
    /// Whether the clipboard was cut, not copied.
    pub is_cut_operation: bool,
}

impl Default for TreeExplorerState {
    fn default() -> (r: TreeExplorerState)
        ensures
            r.local_tree.root_nodes@.len() == 0,
            r.local_tree.cursor_index == 0,
            r.local_tree.scroll_offset == 0,
            r.slave_tree.root_nodes@.len() == 0,
            r.slave_tree.cursor_index == 0,
            r.slave_tree.scroll_offset == 0,
            !r.active_side,
            r.clipboard@.len() == 0,
            !r.is_cut_operation,
    {
        TreeExplorerState {
            local_tree: TreeViewState::default(),
            slave_tree: TreeViewState::default(),
            active_side: false,
            clipboard: Vec::new(),
            is_cut_operation: false,
        }
    }
}

impl TreeExplorerState {
    /// The tree that has the cursor.
    pub open spec fn spec_active(&self) -> TreeViewState {
        if self.active_side {
            self.slave_tree
        } else {
            self.local_tree
        }
    }

    /// The tree that has the cursor.
    pub fn active_tree(&self) -> (r: &TreeViewState)
        ensures
            *r == self.spec_active(),
    {
        if self.active_side {
            &self.slave_tree
        } else {
            &self.local_tree
        }
    }

    /// Moves the cursor of the active tree one row down.
    pub fn tree_cursor_down(&mut self)
        ensures
            final(self).active_side == old(self).active_side,
            final(self).clipboard == old(self).clipboard,
            final(self).is_cut_operation == old(self).is_cut_operation,
            old(self).active_side ==> final(self).local_tree == old(self).local_tree,
            !old(self).active_side ==> final(self).slave_tree == old(self).slave_tree,
            views(final(self).spec_active().root_nodes@) == views(
                old(self).spec_active().root_nodes@,
            ),
            final(self).spec_active().scroll_offset == old(self).spec_active().scroll_offset,
            final(self).spec_active().cursor_index == (if old(self).spec_active().cursor_index + 1
                < old(self).spec_active().spec_rows().len() && old(self).spec_active().cursor_index < usize::MAX {
                (old(self).spec_active().cursor_index + 1) as usize
            } else {
                old(self).spec_active().cursor_index
            }),
    {
        if self.active_side {
            self.slave_tree.cursor_down();
        } else {
            self.local_tree.cursor_down();
        }
    }

    /// Moves the cursor of the active tree one row up.
    pub fn tree_cursor_up(&mut self)
        ensures
            final(self).active_side == old(self).active_side,
            final(self).clipboard == old(self).clipboard,
            final(self).is_cut_operation == old(self).is_cut_operation,
            old(self).active_side ==> final(self).local_tree == old(self).local_tree,
            !old(self).active_side ==> final(self).slave_tree == old(self).slave_tree,
            final(self).spec_active().root_nodes == old(self).spec_active().root_nodes,
            final(self).spec_active().scroll_offset == old(self).spec_active().scroll_offset,
            final(self).spec_active().cursor_index == (if old(self).spec_active().cursor_index > 0 {
                (old(self).spec_active().cursor_index - 1) as usize
            } else {
                0
            }),
    {
        if self.active_side {
            self.slave_tree.cursor_up();
        } else {
            self.local_tree.cursor_up();
        }
    }

    /// Shows or hides the children of the directory under the cursor of
    /// the active tree, and hands out the path whose children are to be
    /// loaded, where the directory was expanded for the first time.
    pub fn tree_toggle_expand(&mut self) -> (r: Option<String>)
        ensures
            final(self).active_side == old(self).active_side,
            final(self).clipboard == old(self).clipboard,
            final(self).is_cut_operation == old(self).is_cut_operation,
            old(self).active_side ==> final(self).local_tree == old(self).local_tree,
            !old(self).active_side ==> final(self).slave_tree == old(self).slave_tree,
            final(self).spec_active().cursor_index == old(self).spec_active().cursor_index,
            final(self).spec_active().scroll_offset == old(self).spec_active().scroll_offset,
            views(final(self).spec_active().root_nodes@) == with_row(
                views(old(self).spec_active().root_nodes@),
                old(self).spec_active().cursor_index as nat,
                RowChange::ToggleExpanded,
            ),
            old(self).spec_active().cursor_index < old(self).spec_active().spec_rows().len()
                ==> loads(
                r,
                to_load(
                    old(self).spec_active().spec_rows()[old(self).spec_active().cursor_index as int].0,
                    RowChange::ToggleExpanded,
                ),
            ),
            old(self).spec_active().cursor_index >= old(self).spec_active().spec_rows().len()
                ==> r.is_none(),
    {
        let (_, path) = if self.active_side {
            toggle_node_at(&mut self.slave_tree.root_nodes, self.slave_tree.cursor_index)
        } else {
            toggle_node_at(&mut self.local_tree.root_nodes, self.local_tree.cursor_index)
        };
        path
    }

    /// Marks or unmarks the node under the cursor of the active tree.
    pub fn tree_toggle_select(&mut self)
        ensures
            final(self).active_side == old(self).active_side,
            final(self).clipboard == old(self).clipboard,
            final(self).is_cut_operation == old(self).is_cut_operation,
            old(self).active_side ==> final(self).local_tree == old(self).local_tree,
            !old(self).active_side ==> final(self).slave_tree == old(self).slave_tree,
            final(self).spec_active().cursor_index == old(self).spec_active().cursor_index,
            final(self).spec_active().scroll_offset == old(self).spec_active().scroll_offset,
            views(final(self).spec_active().root_nodes@) == with_row(
                views(old(self).spec_active().root_nodes@),
                old(self).spec_active().cursor_index as nat,
                RowChange::ToggleSelected,
            ),
    {
        if self.active_side {
            select_node_at(&mut self.slave_tree.root_nodes, self.slave_tree.cursor_index);
        } else {
            select_node_at(&mut self.local_tree.root_nodes, self.local_tree.cursor_index);
        }
    }

    /// The paths that are marked in the active tree.
    pub open spec fn spec_marked(&self) -> Seq<Seq<char>> {
        list_selected(
            views(self.spec_active().root_nodes@),
            self.spec_active().root_nodes@.len(),
        )
    }

    /// Takes the marked paths of the active tree into the clipboard, as
    /// copied or as cut, and says how many they are. Where nothing is
    /// marked the clipboard stays as it is.
    pub fn fill_clipboard(&mut self, cut: bool) -> (r: usize)
        ensures
            final(self).active_side == old(self).active_side,
            final(self).local_tree == old(self).local_tree,
            final(self).slave_tree == old(self).slave_tree,
            r == old(self).spec_marked().len(),
            r > 0 ==> texts(final(self).clipboard@) == old(self).spec_marked()
                && final(self).is_cut_operation == cut,
            r == 0 ==> final(self).clipboard == old(self).clipboard
                && final(self).is_cut_operation == old(self).is_cut_operation,
    {
        let selected = if self.active_side {
            selected_paths(&self.slave_tree.root_nodes)
        } else {
            selected_paths(&self.local_tree.root_nodes)
        };
        let n = selected.len();
        assert(texts(selected@).len() == n);
        if n > 0 {
            self.clipboard = selected;
            self.is_cut_operation = cut;
        }
        n
    }

    /// Copies the marked paths of the active tree.
    pub fn tree_copy(&mut self) -> (r: usize)
        ensures
            final(self).active_side == old(self).active_side,
            final(self).local_tree == old(self).local_tree,
            final(self).slave_tree == old(self).slave_tree,
            r == old(self).spec_marked().len(),
            r > 0 ==> texts(final(self).clipboard@) == old(self).spec_marked()
                && !final(self).is_cut_operation,
            r == 0 ==> final(self).clipboard == old(self).clipboard
                && final(self).is_cut_operation == old(self).is_cut_operation,
    {
        self.fill_clipboard(false)
    }

    /// Cuts the marked paths of the active tree.
    pub fn tree_cut(&mut self) -> (r: usize)
        ensures
            final(self).active_side == old(self).active_side,
            final(self).local_tree == old(self).local_tree,
            final(self).slave_tree == old(self).slave_tree,
            r == old(self).spec_marked().len(),
            r > 0 ==> texts(final(self).clipboard@) == old(self).spec_marked()
                && final(self).is_cut_operation,
            r == 0 ==> final(self).clipboard == old(self).clipboard
                && final(self).is_cut_operation == old(self).is_cut_operation,
    {
        self.fill_clipboard(true)
    }

    /// Gives the cursor to the other tree.
    pub fn tree_switch_side(&mut self)
        ensures
            *final(self) == (TreeExplorerState {
                active_side: !old(self).active_side,
                ..*old(self)
            }),
    {
        self.active_side = !self.active_side;
    }
}

} // verus!
