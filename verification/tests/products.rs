use supply_chain_backend::Products;

#[test]
fn new_products_are_empty() {
    let products = Products::new();
    assert_eq!(products.len(), 0);
    assert_eq!(products.get("bolts"), None);
    assert!(!products.contains_key("bolts"));
    assert_eq!(products.position("bolts"), None);
}

#[test]
fn an_inserted_line_is_found() {
    let mut products = Products::new();
    assert_eq!(products.insert("bolts".to_string(), 10), None);
    assert_eq!(products.insert("nuts".to_string(), 20), None);
    assert_eq!(products.len(), 2);
    assert_eq!(products.get("bolts"), Some(10));
    assert_eq!(products.get("nuts"), Some(20));
    assert_eq!(products.get("washers"), None);
    assert!(products.contains_key("nuts"));
    assert!(!products.contains_key("nut"));
    assert_eq!(products.position("bolts"), Some(0));
    assert_eq!(products.position("nuts"), Some(1));
    assert_eq!(products.name(0), "bolts");
    assert_eq!(products.quantity(0), 10);
    assert_eq!(products.name(1), "nuts");
    assert_eq!(products.quantity(1), 20);
}

#[test]
fn inserting_a_name_again_replaces_its_quantity() {
    let mut products = Products::new();
    products.insert("bolts".to_string(), 10);
    products.insert("nuts".to_string(), 20);
    assert_eq!(products.insert("bolts".to_string(), 30), Some(10));
    assert_eq!(products.len(), 2);
    assert_eq!(products.get("bolts"), Some(30));
    assert_eq!(products.position("bolts"), Some(0));
    assert_eq!(products.get("nuts"), Some(20));
}

#[test]
fn products_are_equal_when_their_lines_are() {
    let mut left = Products::new();
    left.insert("bolts".to_string(), 10);
    let right = Products::from_lines(vec![("bolts".to_string(), 10)]).unwrap();
    assert_eq!(left, right);
    assert_eq!(left.clone(), right);
    let other = Products::from_lines(vec![("bolts".to_string(), 11)]).unwrap();
    assert_ne!(left, other);
}

#[test]
fn lines_are_taken_as_they_are_given() {
    let products = Products::from_lines(vec![
        ("bolts".to_string(), 1),
        ("nuts".to_string(), 2),
        ("washers".to_string(), 3),
    ])
    .unwrap();
    assert_eq!(products.len(), 3);
    assert_eq!(products.get("nuts"), Some(2));
    assert_eq!(products.position("washers"), Some(2));
    assert_eq!(Products::from_lines(vec![]), Some(Products::new()));
}

#[test]
fn a_name_in_two_lines_is_refused() {
    assert_eq!(
        Products::from_lines(vec![
            ("bolts".to_string(), 1),
            ("nuts".to_string(), 2),
            ("bolts".to_string(), 3),
        ]),
        None
    );
    assert_eq!(
        Products::from_lines(vec![("bolts".to_string(), 1), ("bolts".to_string(), 1)]),
        None
    );
}
