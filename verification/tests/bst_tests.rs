use linked_structs::bst::BinarySearchTree;

#[test]
fn test_insert_and_search() {
    let mut bst = BinarySearchTree::new();

    assert!(!bst.search(1));

    bst.insert(5);
    bst.insert(3);
    bst.insert(7);
    bst.insert(2);
    bst.insert(4);

    assert!(bst.search(5));
    assert!(bst.search(3));
    assert!(bst.search(7));
    assert!(bst.search(2));
    assert!(bst.search(4));

    assert!(!bst.search(1));
    assert!(!bst.search(6));
}

#[test]
fn test_insert_duplicate() {
    let mut bst = BinarySearchTree::new();

    bst.insert(1);
    bst.insert(1);

    assert!(bst.search(1));

    match bst.root {
        Some(ref node) => {
            assert!(node.left.is_none());
            assert!(node.right.is_none());
        }
        None => panic!("Root should not be None after insertion"),
    }
}
