use linked_structs::list::LinkedList;

#[test]
fn test_merge_linked_list_1() {
    let mut list_a = LinkedList::<i64>::new();
    let mut list_b = LinkedList::<i64>::new();
    let vec_a = vec![1, 3, 5, 7];
    let vec_b = vec![2, 4, 6, 8];
    let target_vec = vec![1, 2, 3, 4, 5, 6, 7, 8];

    let mut i: usize = 0;
    while i < vec_a.len() {
        list_a.add(vec_a[i]);
        i += 1;
    }
    let mut j: usize = 0;
    while j < vec_b.len() {
        list_b.add(vec_b[j]);
        j += 1;
    }
    println!("list a {} list b {}", list_a.render(), list_b.render());
    let list_c = LinkedList::merge(list_a, list_b);
    println!("merged List is {}", list_c.render());
    let mut k: usize = 0;
    while k < target_vec.len() {
        assert_eq!(target_vec[k], *list_c.get(k as u32).unwrap());
        k += 1;
    }
}

#[test]
fn test_merge_linked_list_2() {
    let mut list_a = LinkedList::<i64>::new();
    let mut list_b = LinkedList::<i64>::new();
    let vec_a = vec![11, 33, 44, 88, 89, 90, 100];
    let vec_b = vec![1, 22, 30, 45];
    let target_vec = vec![1, 11, 22, 30, 33, 44, 45, 88, 89, 90, 100];

    let mut i: usize = 0;
    while i < vec_a.len() {
        list_a.add(vec_a[i]);
        i += 1;
    }
    let mut j: usize = 0;
    while j < vec_b.len() {
        list_b.add(vec_b[j]);
        j += 1;
    }
    println!("list a {} list b {}", list_a.render(), list_b.render());
    let list_c = LinkedList::merge(list_a, list_b);
    println!("merged List is {}", list_c.render());
    let mut k: usize = 0;
    while k < target_vec.len() {
        assert_eq!(target_vec[k], *list_c.get(k as u32).unwrap());
        k += 1;
    }
}

#[test]
fn merge_with_empty_list_returns_other() {
    let mut list_b = LinkedList::<i64>::new();
    list_b.add(2);
    list_b.add(4);
    list_b.add(6);
    let merged = LinkedList::merge(LinkedList::new(), list_b);
    assert_eq!("2, 4, 6", merged.render());
    assert_eq!(3, merged.length);

    let mut list_a = LinkedList::<i64>::new();
    list_a.add(1);
    list_a.add(3);
    let merged_2 = LinkedList::merge(list_a, LinkedList::new());
    assert_eq!("1, 3", merged_2.render());
    assert_eq!(2, merged_2.length);
}

#[test]
fn merge_of_two_empty_lists_is_empty() {
    let merged = LinkedList::<i64>::merge(LinkedList::new(), LinkedList::new());
    assert_eq!(0, merged.length);
    assert_eq!("", merged.render());
}

#[test]
fn merge_moves_smaller_front_first_even_when_unsorted() {
    let mut list_a = LinkedList::<i64>::new();
    list_a.add(3);
    list_a.add(1);
    let mut list_b = LinkedList::<i64>::new();
    list_b.add(2);
    let merged = LinkedList::merge(list_a, list_b);
    assert_eq!("2, 3, 1", merged.render());
}

#[test]
fn merge_keeps_duplicates_and_counts() {
    let mut list_a = LinkedList::<i64>::new();
    list_a.add(1);
    list_a.add(2);
    list_a.add(2);
    let mut list_b = LinkedList::<i64>::new();
    list_b.add(2);
    list_b.add(5);
    let merged = LinkedList::merge(list_a, list_b);
    assert_eq!(5, merged.length);
    assert_eq!("1, 2, 2, 2, 5", merged.render());
}
