use wadcore::tree::{add_file_to_tree, build_file_system_tree, Item};

#[test]
fn three_names_build_the_documented_tree() {
    let tree = build_file_system_tree(vec!["a/b.txt", "a/c.txt", "d.txt"], String::from("root"));
    assert!(!tree.is_leaf());
    assert_eq!(tree.name(), "root");
    let children = tree.children();
    assert_eq!(children.len(), 2);

    let dir_a = &children[0];
    assert!(!dir_a.is_leaf());
    assert_eq!(dir_a.name(), "a");
    let a_children = dir_a.children();
    assert_eq!(a_children.len(), 2);
    assert!(a_children[0].is_leaf());
    assert_eq!(a_children[0].name(), "a/b.txt");
    assert!(a_children[1].is_leaf());
    assert_eq!(a_children[1].name(), "a/c.txt");

    let leaf_d = &children[1];
    assert!(leaf_d.is_leaf());
    assert_eq!(leaf_d.name(), "d.txt");
    assert_eq!(leaf_d.children().len(), 0);
}

#[test]
fn same_names_always_build_the_same_tree() {
    let names = vec!["x/one", "x/two", "y/deep/leaf", "top"];
    let first = build_file_system_tree(names.clone(), String::from("wad"));
    let second = build_file_system_tree(names, String::from("wad"));
    assert_eq!(format!("{:?}", first), format!("{:?}", second));
}

#[test]
fn directories_differing_in_case_stay_distinct() {
    let tree = build_file_system_tree(vec!["Dir/a", "dir/b"], String::from("root"));
    let children = tree.children();
    assert_eq!(children.len(), 2);
    assert_eq!(children[0].name(), "Dir");
    assert_eq!(children[1].name(), "dir");
}

fn assert_leaf_names(node: &Item, expected: &[&str]) {
    let children = node.children();
    assert_eq!(children.len(), expected.len());
    for (child, want) in children.iter().zip(expected.iter()) {
        assert!(child.is_leaf());
        assert_eq!(child.name(), want);
    }
}

#[test]
fn add_file_walks_and_creates_segments() {
    let mut root = Item::Directory(String::from("root"), Vec::new());
    add_file_to_tree(&mut root, "x/y/z.txt");
    add_file_to_tree(&mut root, "x/y/w.txt");
    add_file_to_tree(&mut root, "x/top.txt");
    let children = root.children();
    assert_eq!(children.len(), 1);
    let x = &children[0];
    assert_eq!(x.name(), "x");
    let x_children = x.children();
    assert_eq!(x_children.len(), 2);
    let y = &x_children[0];
    assert_eq!(y.name(), "y");
    assert_leaf_names(y, &["x/y/z.txt", "x/y/w.txt"]);
    assert!(x_children[1].is_leaf());
    assert_eq!(x_children[1].name(), "x/top.txt");
}

#[test]
fn adding_into_a_leaf_changes_nothing() {
    let mut leaf = Item::File(String::from("solo"));
    add_file_to_tree(&mut leaf, "a/b");
    assert!(leaf.is_leaf());
    assert_eq!(leaf.name(), "solo");
}
