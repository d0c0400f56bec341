//! The page tree: preorder search, subtree removal, attachment.

use script_task::page::Page;
use script_task::tree::PageTree;

fn page(id: u64) -> Page {
    Page::new(id, None, 1000 + id, None, 9)
}

fn three_page_tree() -> PageTree {
    // root A (id 10) with children B (id 20) and C (id 30)
    let mut tree = PageTree::new(page(10));
    tree.attach(0, page(20));
    tree.attach(0, page(30));
    tree
}

#[test]
fn find_returns_each_node_exactly() {
    let tree = three_page_tree();
    assert_eq!(tree.len(), 3);
    let a = tree.find(10).expect("root must be found");
    let b = tree.find(20).expect("first child must be found");
    let c = tree.find(30).expect("second child must be found");
    assert_eq!(tree.pages[a].page.id, 10);
    assert_eq!(tree.pages[b].page.id, 20);
    assert_eq!(tree.pages[c].page.id, 30);
    assert!(tree.find(40).is_none());
    assert!(tree.find(0).is_none());
}

#[test]
fn preorder_lists_parent_before_children() {
    let tree = three_page_tree();
    let ids = tree.preorder_ids();
    assert_eq!(ids, vec![10, 20, 30]);
    assert_eq!(tree.pages[0].depth, 0);
    assert_eq!(tree.pages[1].depth, 1);
    assert_eq!(tree.pages[2].depth, 1);
}

#[test]
fn remove_middle_child_keeps_siblings_untouched() {
    let mut tree = three_page_tree();
    let removed = tree.remove(20).expect("child B must be removable");
    assert_eq!(removed.preorder_ids(), vec![20]);
    assert_eq!(tree.preorder_ids(), vec![10, 30]);
}

#[test]
fn remove_returns_whole_subtree_intact() {
    // root 10, child 20 with grandchildren 21 and 22, child 30
    let mut tree = PageTree::new(page(10));
    tree.attach(0, page(20));
    tree.attach(1, page(21));
    tree.attach(1, page(22));
    tree.attach(0, page(30));
    assert_eq!(tree.preorder_ids(), vec![10, 20, 21, 22, 30]);

    let removed = tree.remove(20).expect("subtree must be removable");
    assert_eq!(removed.preorder_ids(), vec![20, 21, 22]);
    assert_eq!(removed.pages[0].depth, 0);
    assert_eq!(removed.pages[1].depth, 1);
    assert_eq!(removed.pages[2].depth, 1);
    assert_eq!(tree.preorder_ids(), vec![10, 30]);
}

#[test]
fn remove_never_matches_the_root() {
    let mut tree = three_page_tree();
    assert!(tree.remove(10).is_none());
    assert_eq!(tree.preorder_ids(), vec![10, 20, 30]);
}

#[test]
fn remove_of_absent_id_is_a_no_op() {
    let mut tree = three_page_tree();
    assert!(tree.remove(99).is_none());
    assert_eq!(tree.preorder_ids(), vec![10, 20, 30]);
}

#[test]
fn attach_places_new_child_after_existing_subtree() {
    let mut tree = PageTree::new(page(10));
    tree.attach(0, page(20));
    // a grandchild under 20, then a second child of the root: the second
    // child must come after 20's whole subtree
    tree.attach(1, page(21));
    tree.attach(0, page(30));
    assert_eq!(tree.preorder_ids(), vec![10, 20, 21, 30]);
    assert_eq!(tree.pages[2].depth, 2);
    assert_eq!(tree.pages[3].depth, 1);
}
