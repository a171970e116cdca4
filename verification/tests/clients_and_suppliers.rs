use supply_chain_backend::operations::{is_client_id_valid, is_supplier_id_valid};
use supply_chain_backend::{add_client, add_supplier, get_client, get_supplier, get_suppliers};
use supply_chain_backend::{Client, ClientPayload, Error, Supplier, SupplierPayload, SupplyChain};

fn client(name: &str, phone: &str) -> ClientPayload {
    ClientPayload {
        name: name.to_string(),
        email: "someone@example.com".to_string(),
        phone: phone.to_string(),
    }
}

fn supplier(name: &str, phone: &str, items: &[&str]) -> SupplierPayload {
    SupplierPayload {
        name: name.to_string(),
        email: "supplier@example.com".to_string(),
        phone: phone.to_string(),
        preferred_items: items.iter().map(|item| item.to_string()).collect(),
    }
}

fn invalid(msg: &str) -> Error {
    Error::InvalidPayload { msg: msg.to_string() }
}

#[test]
fn an_added_client_is_found_as_it_was_made() {
    let mut store = SupplyChain::new();
    let added = add_client(&mut store, client("Acme", "5551234"), 42).unwrap();
    let expected = Client {
        id: 0,
        name: "Acme".to_string(),
        email: "someone@example.com".to_string(),
        phone: "5551234".to_string(),
        order_ids: vec![],
        created_at: 42,
        updated_at: None,
    };
    assert_eq!(added, expected);
    assert_eq!(get_client(&store, added.id), Ok(expected));
}

#[test]
fn an_added_supplier_is_found_as_it_was_made() {
    let mut store = SupplyChain::new();
    add_client(&mut store, client("Acme", "5551234"), 1).unwrap();
    let added = add_supplier(&mut store, supplier("Boltworks", "5559876", &["bolts", "nuts"]), 7)
        .unwrap();
    let expected = Supplier {
        id: 1,
        name: "Boltworks".to_string(),
        email: "supplier@example.com".to_string(),
        phone: "5559876".to_string(),
        preferred_items: vec!["bolts".to_string(), "nuts".to_string()],
        order_ids: vec![],
        created_at: 7,
        updated_at: None,
    };
    assert_eq!(added, expected);
    assert_eq!(get_supplier(&store, 1), Ok(expected));
}

#[test]
fn texts_outside_ascii_are_stored_as_they_are() {
    let mut store = SupplyChain::new();
    let mut payload = client("Ünïcødé 株式会社", "+49 30 1234");
    payload.email = "käse@bücher.example".to_string();
    let added = add_client(&mut store, payload, 1).unwrap();
    let found = get_client(&store, added.id).unwrap();
    assert_eq!(found.name, "Ünïcødé 株式会社");
    assert_eq!(found.email, "käse@bücher.example");
    assert_eq!(found.phone, "+49 30 1234");
}

#[test]
fn an_unknown_client_is_not_found() {
    let mut store = SupplyChain::new();
    assert_eq!(
        get_client(&store, 7),
        Err(Error::NotFound { msg: "client id:7 does not exist".to_string() })
    );
    let added = add_supplier(&mut store, supplier("Boltworks", "5559876", &[]), 1).unwrap();
    assert_eq!(
        get_client(&store, added.id),
        Err(Error::NotFound { msg: "client id:0 does not exist".to_string() })
    );
    assert!(!is_client_id_valid(&store, &added.id));
    assert!(is_supplier_id_valid(&store, &added.id));
}

#[test]
fn an_unknown_supplier_is_not_found() {
    let mut store = SupplyChain::new();
    assert_eq!(
        get_supplier(&store, 18446744073709551615),
        Err(Error::NotFound { msg: "supplier id:18446744073709551615 does not exist".to_string() })
    );
    let added = add_client(&mut store, client("Acme", "5551234"), 1).unwrap();
    assert_eq!(
        get_supplier(&store, added.id),
        Err(Error::NotFound { msg: "supplier id:0 does not exist".to_string() })
    );
    assert!(is_client_id_valid(&store, &added.id));
    assert!(!is_supplier_id_valid(&store, &added.id));
}

#[test]
fn a_short_name_is_rejected() {
    let mut store = SupplyChain::new();
    assert_eq!(
        add_client(&mut store, client("Ac", "5551234"), 1),
        Err(invalid("name: length must be at least 3"))
    );
    assert_eq!(
        add_supplier(&mut store, supplier("", "5551234", &[]), 1),
        Err(invalid("name: length must be at least 3"))
    );
    assert_eq!(get_suppliers(&store), Err(Error::NotFound { msg: "No suppliers available.".to_string() }));
    assert!(!is_client_id_valid(&store, &0));
}

#[test]
fn a_phone_number_out_of_range_is_rejected() {
    let mut store = SupplyChain::new();
    assert_eq!(
        add_client(&mut store, client("Acme", "555123"), 1),
        Err(invalid("phone: length must be between 7 and 15"))
    );
    assert_eq!(
        add_client(&mut store, client("Acme", "1234567890123456"), 1),
        Err(invalid("phone: length must be between 7 and 15"))
    );
    assert_eq!(
        add_supplier(&mut store, supplier("Boltworks", "", &[]), 1),
        Err(invalid("phone: length must be between 7 and 15"))
    );
}

#[test]
fn a_short_name_and_a_bad_phone_number_are_both_named() {
    let mut store = SupplyChain::new();
    assert_eq!(
        add_client(&mut store, client("A", "1"), 1),
        Err(invalid("name: length must be at least 3\nphone: length must be between 7 and 15"))
    );
}

#[test]
fn lengths_at_the_bounds_are_accepted() {
    let mut store = SupplyChain::new();
    assert!(add_client(&mut store, client("Abc", "1234567"), 1).is_ok());
    assert!(add_client(&mut store, client("Abc", "123456789012345"), 1).is_ok());
    assert!(add_supplier(&mut store, supplier("Abc", "1234567", &[]), 1).is_ok());
}

#[test]
fn lengths_are_counted_in_characters() {
    let mut store = SupplyChain::new();
    // Two characters of three bytes each: too short.
    assert_eq!(
        add_client(&mut store, client("日本", "5551234"), 1),
        Err(invalid("name: length must be at least 3"))
    );
    // Three characters.
    assert!(add_client(&mut store, client("日本語", "5551234"), 1).is_ok());
    // Fifteen characters of two bytes each: not too long.
    assert!(add_client(&mut store, client("Acme", "ééééééééééééééé"), 1).is_ok());
    assert_eq!(
        add_client(&mut store, client("Acme", "éééééééééééééééé"), 1),
        Err(invalid("phone: length must be between 7 and 15"))
    );
}

#[test]
fn payloads_say_what_is_wrong_with_them() {
    assert_eq!(client("Acme", "5551234").validate(), Ok(()));
    assert_eq!(client("Ac", "5551234").validate(), Err(invalid("name: length must be at least 3")));
    assert_eq!(supplier("Boltworks", "5551234", &[]).validate(), Ok(()));
    assert_eq!(
        supplier("Boltworks", "1", &[]).validate(),
        Err(invalid("phone: length must be between 7 and 15"))
    );
    let e = invalid("some text");
    assert_eq!(e.message(), "some text");
    assert_eq!(Error::NotFound { msg: "a".to_string() }.message(), "a");
    assert_eq!(Error::AlreadyCompleted { msg: "b".to_string() }.message(), "b");
}

#[test]
fn all_suppliers_are_listed_by_identifier() {
    let mut store = SupplyChain::new();
    let first = add_supplier(&mut store, supplier("First", "5551234", &["a"]), 1).unwrap();
    add_client(&mut store, client("Acme", "5551234"), 2).unwrap();
    let second = add_supplier(&mut store, supplier("Second", "5551234", &[]), 3).unwrap();
    assert_eq!(get_suppliers(&store), Ok(vec![first, second]));
}
