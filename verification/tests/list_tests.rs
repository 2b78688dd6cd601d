use linked_structs::list::LinkedList;

#[test]
fn create_numeric_list() {
    let mut list = LinkedList::<i64>::new();
    list.add(1);
    list.add(2);
    list.add(3);
    println!("Linked List is {}", list.render());
    assert_eq!(3, list.length);
}

#[test]
fn create_string_list() {
    let mut list_str = LinkedList::<String>::new();
    list_str.add("A".to_string());
    list_str.add("B".to_string());
    list_str.add("C".to_string());
    println!("Linked List is {}", list_str.render());
    assert_eq!(3, list_str.length);
}

#[test]
fn render_string_elements() {
    let mut list_str = LinkedList::<String>::new();
    list_str.add("ab".to_string());
    list_str.add("".to_string());
    list_str.add("c".to_string());
    assert_eq!("ab, , c", list_str.render());
    assert_eq!("", LinkedList::<String>::new().render());
}

#[test]
fn get_returns_appended_values_in_order() {
    let mut list = LinkedList::<i64>::new();
    list.add(10);
    list.add(20);
    list.add(30);
    assert_eq!(10, *list.get(0).unwrap());
    assert_eq!(20, *list.get(1).unwrap());
    assert_eq!(30, *list.get(2).unwrap());
}

#[test]
fn get_past_end_is_absent() {
    let mut list = LinkedList::<i64>::new();
    list.add(4);
    list.add(5);
    assert!(list.get(2).is_none());
    assert!(list.get(3).is_none());
    assert!(LinkedList::<i64>::new().get(0).is_none());
}

#[test]
fn pop_front_returns_append_order() {
    let mut list = LinkedList::<i64>::new();
    list.add(7);
    list.add(8);
    list.add(9);
    assert_eq!(Some(7), list.pop_front());
    assert_eq!(Some(8), list.pop_front());
    assert_eq!(Some(9), list.pop_front());
    assert_eq!(None, list.pop_front());
    assert_eq!(0, list.length);
}

#[test]
fn pop_front_on_empty_stays_empty() {
    let mut list = LinkedList::<i64>::new();
    assert!(list.pop_front().is_none());
    assert_eq!(0, list.length);
}

#[test]
fn render_three_elements() {
    let mut list = LinkedList::<i64>::new();
    list.add(1);
    list.add(2);
    list.add(3);
    assert_eq!("1, 2, 3", list.render());
    assert_eq!(3, list.length);
}

#[test]
fn render_handles_signs_and_widths() {
    let mut list = LinkedList::<i64>::new();
    list.add(-45);
    list.add(0);
    list.add(607);
    assert_eq!("-45, 0, 607", list.render());
}

#[test]
fn render_empty_list_is_empty_string() {
    let list = LinkedList::<i64>::new();
    assert_eq!("", list.render());
}
