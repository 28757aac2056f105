use tix_core::explorer::{
    find_node, flatten_tree, node_at_row, path_at_cursor, select_node_at, selected_paths,
    set_children, toggle_node_at, FileNode, TreeExplorerState, TreeViewState, Wanted,
};

fn file(name: &str, path: &str) -> FileNode {
    FileNode {
        name: name.to_string(),
        path: path.to_string(),
        is_dir: false,
        is_expanded: false,
        children: None,
        is_selected: false,
    }
}

fn dir(name: &str, path: &str, expanded: bool, children: Option<Vec<FileNode>>) -> FileNode {
    FileNode {
        name: name.to_string(),
        path: path.to_string(),
        is_dir: true,
        is_expanded: expanded,
        children,
        is_selected: false,
    }
}

// a/            (expanded)
//   a/one
//   a/sub/      (collapsed, loaded)
//     a/sub/x
// b/            (collapsed, not loaded)
// c
fn sample() -> Vec<FileNode> {
    vec![
        dir(
            "a",
            "a",
            true,
            Some(vec![
                file("one", "a/one"),
                dir("sub", "a/sub", false, Some(vec![file("x", "a/sub/x")])),
            ]),
        ),
        dir("b", "b", false, None),
        file("c", "c"),
    ]
}

fn shown(nodes: &Vec<FileNode>) -> Vec<(String, usize)> {
    let mut out = Vec::new();
    flatten_tree(nodes, 0, &mut out);
    out.into_iter().map(|(n, d)| (n.path.clone(), d)).collect()
}

fn row(path: &str, depth: usize) -> (String, usize) {
    (path.to_string(), depth)
}

#[test]
fn rows_are_the_nodes_with_their_expanded_children() {
    let tree = sample();
    assert_eq!(
        shown(&tree),
        vec![row("a", 0), row("a/one", 1), row("a/sub", 1), row("b", 0), row("c", 0)]
    );
    assert!(shown(&Vec::new()).is_empty());
    let mut out = Vec::new();
    flatten_tree(&tree, 7, &mut out);
    assert_eq!(out[1].1, 8);
    flatten_tree(&tree, usize::MAX, &mut out);
    assert_eq!(out.len(), 10);
    assert_eq!(out[6].1, usize::MAX);
}

#[test]
fn a_row_is_found_by_its_number() {
    let tree = sample();
    assert_eq!(node_at_row(&tree, 0).map(|n| n.path.as_str()), Some("a"));
    assert_eq!(node_at_row(&tree, 2).map(|n| n.path.as_str()), Some("a/sub"));
    assert_eq!(node_at_row(&tree, 4).map(|n| n.path.as_str()), Some("c"));
    assert!(node_at_row(&tree, 5).is_none());
    assert!(node_at_row(&tree, usize::MAX).is_none());
    assert_eq!(path_at_cursor(&tree, 1), Some("a/one".to_string()));
    assert_eq!(path_at_cursor(&tree, 3), Some("b".to_string()));
    assert_eq!(path_at_cursor(&tree, 9), None);
    assert_eq!(path_at_cursor(&Vec::new(), 0), None);
}

#[test]
fn expanding_shows_the_children_and_asks_for_those_not_loaded() {
    let mut tree = sample();
    // a loaded directory
    assert_eq!(toggle_node_at(&mut tree, 2), (true, None));
    assert_eq!(
        shown(&tree),
        vec![
            row("a", 0),
            row("a/one", 1),
            row("a/sub", 1),
            row("a/sub/x", 2),
            row("b", 0),
            row("c", 0)
        ]
    );
    // a directory that was never loaded
    assert_eq!(toggle_node_at(&mut tree, 4), (true, Some("b".to_string())));
    assert!(tree[1].is_expanded);
    // collapsing it again asks for nothing
    assert_eq!(toggle_node_at(&mut tree, 4), (true, None));
    assert!(!tree[1].is_expanded);
    // a file is left alone
    assert_eq!(toggle_node_at(&mut tree, 5), (true, None));
    assert!(!tree[2].is_expanded);
    // no such row
    assert_eq!(toggle_node_at(&mut tree, 6), (false, None));
    // collapsing the first root hides all below it
    assert_eq!(toggle_node_at(&mut tree, 0), (true, None));
    assert_eq!(shown(&tree), vec![row("a", 0), row("b", 0), row("c", 0)]);
}

#[test]
fn marking_a_row_twice_gives_the_tree_back() {
    let mut tree = sample();
    assert!(select_node_at(&mut tree, 1));
    assert!(select_node_at(&mut tree, 4));
    assert!(!select_node_at(&mut tree, 5));
    assert_eq!(selected_paths(&tree), vec!["a/one".to_string(), "c".to_string()]);
    assert!(select_node_at(&mut tree, 1));
    assert_eq!(selected_paths(&tree), vec!["c".to_string()]);
    assert!(select_node_at(&mut tree, 4));
    assert!(selected_paths(&tree).is_empty());
}

#[test]
fn marked_nodes_are_listed_in_tree_order_hidden_ones_too() {
    let mut tree = sample();
    // mark a/sub/x while it is shown, then hide it
    assert_eq!(toggle_node_at(&mut tree, 2), (true, None));
    assert!(select_node_at(&mut tree, 3));
    assert!(select_node_at(&mut tree, 0));
    assert_eq!(toggle_node_at(&mut tree, 0), (true, None));
    assert!(select_node_at(&mut tree, 1));
    assert_eq!(
        selected_paths(&tree),
        vec!["a".to_string(), "a/sub/x".to_string(), "b".to_string()]
    );
}

#[test]
fn the_first_node_with_a_path_is_found() {
    let mut tree = sample();
    tree.push(file("again", "a/one"));
    assert_eq!(find_node(&tree, &Wanted::Path("a/one")).map(|n| n.name.as_str()), Some("one"));
    assert_eq!(find_node(&tree, &Wanted::Path("a/sub/x")).map(|n| n.name.as_str()), Some("x"));
    assert_eq!(find_node(&tree, &Wanted::Path("c")).map(|n| n.name.as_str()), Some("c"));
    assert!(find_node(&tree, &Wanted::Path("a/")).is_none());
    assert!(find_node(&tree, &Wanted::Path("")).is_none());
    // nothing is expanded without children
    assert!(find_node(&tree, &Wanted::Unloaded).is_none());
    assert_eq!(toggle_node_at(&mut tree, 3), (true, Some("b".to_string())));
    assert_eq!(find_node(&tree, &Wanted::Unloaded).map(|n| n.path.as_str()), Some("b"));
}

#[test]
fn children_are_set_at_the_first_wanted_node() {
    let mut tree = sample();
    assert!(set_children(&mut tree, &Wanted::Path("b"), vec![file("y", "b/y")], true));
    assert!(tree[1].is_expanded);
    assert_eq!(
        shown(&tree),
        vec![
            row("a", 0),
            row("a/one", 1),
            row("a/sub", 1),
            row("b", 0),
            row("b/y", 1),
            row("c", 0)
        ]
    );
    // without `expand` the node stays as it is shown
    assert!(set_children(&mut tree, &Wanted::Path("a/sub"), vec![file("z", "a/sub/z")], false));
    assert_eq!(shown(&tree).len(), 6);
    assert_eq!(find_node(&tree, &Wanted::Path("a/sub/z")).map(|n| n.name.as_str()), Some("z"));
    assert!(find_node(&tree, &Wanted::Path("a/sub/x")).is_none());
    // an unknown path changes nothing
    assert!(!set_children(&mut tree, &Wanted::Path("nowhere"), vec![file("q", "q")], true));
    assert_eq!(shown(&tree).len(), 6);
    assert!(find_node(&tree, &Wanted::Path("q")).is_none());
    // the first expanded directory without children
    assert!(!set_children(&mut tree, &Wanted::Unloaded, Vec::new(), false));
    let mut tree = sample();
    assert_eq!(toggle_node_at(&mut tree, 3), (true, Some("b".to_string())));
    assert!(set_children(&mut tree, &Wanted::Unloaded, vec![file("y", "b/y")], false));
    assert_eq!(path_at_cursor(&tree, 4), Some("b/y".to_string()));
}

#[test]
fn the_cursor_stays_inside_the_rows() {
    let mut view = TreeViewState::default();
    view.cursor_down();
    assert_eq!(view.cursor_index, 0);
    view.cursor_up();
    assert_eq!(view.cursor_index, 0);
    view.root_nodes = sample();
    for expected in [1, 2, 3, 4, 4, 4] {
        view.cursor_down();
        assert_eq!(view.cursor_index, expected);
    }
    assert_eq!(view.path_at_cursor(), Some("c".to_string()));
    for expected in [3, 2, 1, 0, 0] {
        view.cursor_up();
        assert_eq!(view.cursor_index, expected);
    }
    view.cursor_index = usize::MAX;
    view.cursor_down();
    assert_eq!(view.cursor_index, usize::MAX);
    assert_eq!(view.path_at_cursor(), None);
}

#[test]
fn the_window_follows_the_cursor() {
    let mut view = TreeViewState::default();
    view.cursor_index = 10;
    view.follow_cursor(4);
    assert_eq!(view.scroll_offset, 7);
    view.cursor_index = 8;
    view.follow_cursor(4);
    assert_eq!(view.scroll_offset, 7);
    view.cursor_index = 10;
    view.follow_cursor(4);
    assert_eq!(view.scroll_offset, 7);
    view.cursor_index = 11;
    view.follow_cursor(4);
    assert_eq!(view.scroll_offset, 8);
    view.cursor_index = 2;
    view.follow_cursor(4);
    assert_eq!(view.scroll_offset, 2);
    view.cursor_index = 30;
    view.follow_cursor(0);
    assert_eq!(view.scroll_offset, 2);
    view.cursor_index = usize::MAX;
    view.scroll_offset = usize::MAX - 1;
    view.follow_cursor(usize::MAX);
    assert_eq!(view.scroll_offset, usize::MAX - 1);
}

#[test]
fn the_explorer_works_on_the_active_tree() {
    let mut explorer = TreeExplorerState::default();
    assert!(!explorer.active_side);
    assert!(explorer.clipboard.is_empty());
    explorer.local_tree.root_nodes = sample();
    explorer.slave_tree.root_nodes = vec![dir("r", "r", false, None), file("s", "s")];

    explorer.tree_cursor_down();
    assert_eq!((explorer.local_tree.cursor_index, explorer.slave_tree.cursor_index), (1, 0));
    explorer.tree_toggle_select();
    assert_eq!(explorer.tree_copy(), 1);
    assert_eq!(explorer.clipboard, vec!["a/one".to_string()]);
    assert!(!explorer.is_cut_operation);

    explorer.tree_switch_side();
    assert!(explorer.active_side);
    assert_eq!(explorer.active_tree().root_nodes.len(), 2);
    // nothing is marked on this side: the clipboard stays
    assert_eq!(explorer.tree_cut(), 0);
    assert_eq!(explorer.clipboard, vec!["a/one".to_string()]);
    assert!(!explorer.is_cut_operation);

    assert_eq!(explorer.tree_toggle_expand(), Some("r".to_string()));
    assert!(explorer.slave_tree.root_nodes[0].is_expanded);
    explorer.tree_cursor_down();
    explorer.tree_cursor_down();
    assert_eq!((explorer.local_tree.cursor_index, explorer.slave_tree.cursor_index), (1, 1));
    assert_eq!(explorer.tree_toggle_expand(), None);
    explorer.tree_toggle_select();
    assert_eq!(explorer.tree_cut(), 1);
    assert_eq!(explorer.clipboard, vec!["s".to_string()]);
    assert!(explorer.is_cut_operation);
    explorer.tree_cursor_up();
    explorer.tree_cursor_up();
    assert_eq!(explorer.slave_tree.cursor_index, 0);

    explorer.tree_switch_side();
    assert!(!explorer.active_side);
    assert_eq!(explorer.active_tree().root_nodes.len(), 3);
}
