use supply_chain_backend::operations::{may_add_order, may_complete_order, may_update_order};
use supply_chain_backend::{add_client, add_order, add_order_supplier, add_supplier};
use supply_chain_backend::{complete_order, delete_order, get_client, get_order, get_supplier};
use supply_chain_backend::{update_order, ClientPayload, Error, Order, OrderPayload, Products};
use supply_chain_backend::{SupplierPayload, SupplyChain};

fn new_client(store: &mut SupplyChain) -> u64 {
    let payload = ClientPayload {
        name: "Acme".to_string(),
        email: "acme@example.com".to_string(),
        phone: "5551234".to_string(),
    };
    add_client(store, payload, 1).unwrap().id
}

fn new_supplier(store: &mut SupplyChain) -> u64 {
    let payload = SupplierPayload {
        name: "Boltworks".to_string(),
        email: "bolts@example.com".to_string(),
        phone: "5559876".to_string(),
        preferred_items: vec!["bolts".to_string()],
    };
    add_supplier(store, payload, 1).unwrap().id
}

fn products(lines: &[(&str, u64)]) -> Products {
    let mut products = Products::new();
    for (name, quantity) in lines {
        products.insert(name.to_string(), *quantity);
    }
    products
}

fn payload(title: &str, client_id: u64, supplier_id: u64) -> OrderPayload {
    OrderPayload {
        title: title.to_string(),
        client_id,
        supplier_id,
        products: products(&[("bolt M8", 100), ("nut M8", 250)]),
        item_types: vec!["bolts".to_string(), "nuts".to_string()],
        is_complete: true,
    }
}

fn not_found(msg: &str) -> Error {
    Error::NotFound { msg: msg.to_string() }
}

#[test]
fn a_new_order_has_no_supplier_and_is_not_complete() {
    let mut store = SupplyChain::new();
    let client = new_client(&mut store);
    let supplier = new_supplier(&mut store);
    let added = add_order(&mut store, payload("Fasteners", client, supplier), 50).unwrap();
    let expected = Order {
        id: 2,
        title: "Fasteners".to_string(),
        client_id: client,
        supplier_id: None,
        item_types: vec!["bolts".to_string(), "nuts".to_string()],
        products: products(&[("bolt M8", 100), ("nut M8", 250)]),
        is_complete: false,
        created_at: 50,
        updated_at: None,
    };
    assert_eq!(added, expected);
    assert_eq!(get_order(&store, 2), Ok(expected));
}

#[test]
fn an_order_needs_a_stored_client() {
    let mut store = SupplyChain::new();
    let supplier = new_supplier(&mut store);
    assert_eq!(
        add_order(&mut store, payload("Fasteners", 9, supplier), 1),
        Err(not_found("Client with id=9 not found."))
    );
    // A supplier's identifier is no client's.
    assert_eq!(
        add_order(&mut store, payload("Fasteners", supplier, supplier), 1),
        Err(not_found("Client with id=0 not found."))
    );
    assert_eq!(get_order(&store, 1), Err(not_found("order id:1 does not exist")));
}

#[test]
fn an_order_needs_a_title() {
    let mut store = SupplyChain::new();
    let client = new_client(&mut store);
    let no_title = Error::InvalidPayload { msg: "title: length must be at least 1".to_string() };
    assert_eq!(payload("", client, 0).validate(), Err(Error::InvalidPayload {
        msg: "title: length must be at least 1".to_string()
    }));
    assert_eq!(payload("x", client, 0).validate(), Ok(()));
    assert_eq!(add_order(&mut store, payload("", client, 0), 1), Err(no_title));
    // The title is looked at before the client is.
    assert!(matches!(
        add_order(&mut store, payload("", 77, 0), 1),
        Err(Error::InvalidPayload { .. })
    ));
    assert!(add_order(&mut store, payload("x", client, 0), 1).is_ok());
}

#[test]
fn a_supplier_is_assigned_to_an_order() {
    let mut store = SupplyChain::new();
    let client = new_client(&mut store);
    let supplier = new_supplier(&mut store);
    let order = add_order(&mut store, payload("Fasteners", client, 0), 10).unwrap();
    let assigned = add_order_supplier(&mut store, order.id, supplier, 20).unwrap();
    let mut expected = order.clone();
    expected.supplier_id = Some(supplier);
    expected.updated_at = Some(20);
    assert_eq!(assigned, expected);
    assert_eq!(get_order(&store, order.id), Ok(expected));
}

#[test]
fn assigning_a_supplier_needs_order_and_supplier() {
    let mut store = SupplyChain::new();
    let client = new_client(&mut store);
    let supplier = new_supplier(&mut store);
    let order = add_order(&mut store, payload("Fasteners", client, 0), 10).unwrap();
    assert_eq!(
        add_order_supplier(&mut store, 5, supplier, 20),
        Err(not_found("couldn't update an order with id=5. order not found"))
    );
    assert_eq!(
        add_order_supplier(&mut store, order.id, 44, 20),
        Err(not_found("Supplier with id=44 not found."))
    );
    assert_eq!(
        add_order_supplier(&mut store, order.id, client, 20),
        Err(not_found("Supplier with id=0 not found."))
    );
    // The order is looked for before the supplier is.
    assert_eq!(
        add_order_supplier(&mut store, 5, 44, 20),
        Err(not_found("couldn't update an order with id=5. order not found"))
    );
    assert_eq!(get_order(&store, order.id), Ok(order));
}

#[test]
fn an_update_replaces_what_the_payload_gives_and_keeps_the_rest() {
    let mut store = SupplyChain::new();
    let client = new_client(&mut store);
    let other_client = new_client(&mut store);
    let supplier = new_supplier(&mut store);
    let order = add_order(&mut store, payload("Fasteners", client, 0), 10).unwrap();

    let change = OrderPayload {
        title: "Washers".to_string(),
        client_id: other_client,
        supplier_id: supplier,
        products: products(&[("washer", 7)]),
        item_types: vec!["washers".to_string()],
        is_complete: true,
    };
    let updated = update_order(&mut store, order.id, change, 30).unwrap();
    let expected = Order {
        id: order.id,
        title: "Washers".to_string(),
        client_id: other_client,
        supplier_id: Some(supplier),
        item_types: vec!["washers".to_string()],
        products: products(&[("washer", 7)]),
        is_complete: false,
        created_at: 10,
        updated_at: Some(30),
    };
    assert_eq!(updated, expected);
    assert_eq!(get_order(&store, order.id), Ok(expected));
}

#[test]
fn an_update_keeps_a_complete_order_complete() {
    let mut store = SupplyChain::new();
    let client = new_client(&mut store);
    let supplier = new_supplier(&mut store);
    let order = add_order(&mut store, payload("Fasteners", client, 0), 10).unwrap();
    add_order_supplier(&mut store, order.id, supplier, 11).unwrap();
    complete_order(&mut store, order.id, 12).unwrap();
    let mut change = payload("Renamed", client, supplier);
    change.is_complete = false;
    let updated = update_order(&mut store, order.id, change, 13).unwrap();
    assert!(updated.is_complete);
    assert_eq!(updated.id, order.id);
    assert_eq!(updated.created_at, 10);
    assert_eq!(updated.updated_at, Some(13));
    assert_eq!(
        complete_order(&mut store, order.id, 14),
        Err(Error::AlreadyCompleted { msg: "Order was already completed.".to_string() })
    );
}

#[test]
fn an_update_is_rejected_without_a_change() {
    let mut store = SupplyChain::new();
    let client = new_client(&mut store);
    let supplier = new_supplier(&mut store);
    let order = add_order(&mut store, payload("Fasteners", client, 0), 10).unwrap();

    assert_eq!(
        update_order(&mut store, order.id, payload("Other", 99, supplier), 20),
        Err(not_found("Client with id=99 not found."))
    );
    assert_eq!(
        update_order(&mut store, order.id, payload("Other", client, 98), 20),
        Err(not_found("Supplier with id=98 not found."))
    );
    // The client is looked for before the supplier is.
    assert_eq!(
        update_order(&mut store, order.id, payload("Other", 99, 98), 20),
        Err(not_found("Client with id=99 not found."))
    );
    assert_eq!(
        update_order(&mut store, order.id, payload("", client, supplier), 20),
        Err(Error::InvalidPayload { msg: "title: length must be at least 1".to_string() })
    );
    assert_eq!(
        update_order(&mut store, 77, payload("Other", client, supplier), 20),
        Err(not_found("couldn't update an order with id=77. order not found"))
    );
    assert_eq!(get_order(&store, order.id), Ok(order));
}

#[test]
fn completing_an_order_fails_for_an_unknown_order() {
    let mut store = SupplyChain::new();
    assert_eq!(
        complete_order(&mut store, 3, 1),
        Err(not_found("couldn't update an order with id=3. order not found"))
    );
}

#[test]
fn completing_an_order_twice_fails_and_records_it_once() {
    let mut store = SupplyChain::new();
    let client = new_client(&mut store);
    let supplier = new_supplier(&mut store);
    let order = add_order(&mut store, payload("Fasteners", client, 0), 10).unwrap();
    add_order_supplier(&mut store, order.id, supplier, 11).unwrap();
    let done = complete_order(&mut store, order.id, 12).unwrap();
    assert!(done.is_complete);
    assert_eq!(
        complete_order(&mut store, order.id, 13),
        Err(Error::AlreadyCompleted { msg: "Order was already completed.".to_string() })
    );
    assert_eq!(get_order(&store, order.id), Ok(done));
    assert_eq!(get_client(&store, client).unwrap().order_ids, vec![order.id]);
    assert_eq!(get_supplier(&store, supplier).unwrap().order_ids, vec![order.id]);
}

#[test]
fn completions_are_recorded_in_the_order_they_happen() {
    let mut store = SupplyChain::new();
    let client = new_client(&mut store);
    let supplier = new_supplier(&mut store);
    let other_supplier = new_supplier(&mut store);
    let first = add_order(&mut store, payload("First", client, 0), 10).unwrap();
    let second = add_order(&mut store, payload("Second", client, 0), 11).unwrap();
    let third = add_order(&mut store, payload("Third", client, 0), 12).unwrap();
    add_order_supplier(&mut store, first.id, supplier, 13).unwrap();
    add_order_supplier(&mut store, second.id, other_supplier, 13).unwrap();
    add_order_supplier(&mut store, third.id, supplier, 13).unwrap();
    complete_order(&mut store, third.id, 14).unwrap();
    complete_order(&mut store, first.id, 15).unwrap();
    complete_order(&mut store, second.id, 16).unwrap();
    assert_eq!(get_client(&store, client).unwrap().order_ids, vec![third.id, first.id, second.id]);
    assert_eq!(get_supplier(&store, supplier).unwrap().order_ids, vec![third.id, first.id]);
    assert_eq!(get_supplier(&store, other_supplier).unwrap().order_ids, vec![second.id]);
    // What else the client and the suppliers hold stays as it was.
    assert_eq!(get_client(&store, client).unwrap().name, "Acme");
    assert_eq!(get_client(&store, client).unwrap().updated_at, None);
    assert_eq!(get_supplier(&store, supplier).unwrap().preferred_items, vec!["bolts".to_string()]);
}

#[test]
fn a_deleted_order_is_returned_and_gone() {
    let mut store = SupplyChain::new();
    let client = new_client(&mut store);
    let kept = add_order(&mut store, payload("Kept", client, 0), 10).unwrap();
    let order = add_order(&mut store, payload("Gone", client, 0), 11).unwrap();
    assert_eq!(delete_order(&mut store, order.id), Ok(order.clone()));
    assert_eq!(get_order(&store, order.id), Err(not_found("order id:2 does not exist")));
    assert_eq!(
        delete_order(&mut store, order.id),
        Err(not_found("Order id:2 deletion unsuccessful. Order Not found"))
    );
    assert_eq!(get_order(&store, kept.id), Ok(kept));
    // Clients are not orders.
    assert_eq!(
        delete_order(&mut store, client),
        Err(not_found("Order id:0 deletion unsuccessful. Order Not found"))
    );
    assert!(get_client(&store, client).is_ok());
}

#[test]
fn the_operations_may_be_called_on_ordinary_input() {
    let mut store = SupplyChain::new();
    let client = new_client(&mut store);
    let supplier = new_supplier(&mut store);
    assert!(may_add_order(&store, &payload("Fasteners", client, 0)));
    assert!(may_add_order(&store, &payload("", client, 0)));
    assert!(may_add_order(&store, &payload("Fasteners", 99, 0)));
    let order = add_order(&mut store, payload("Fasteners", client, 0), 10).unwrap();
    assert!(may_update_order(&store, order.id, &payload("Other", client, supplier)));
    assert!(may_update_order(&store, 99, &payload("Other", client, supplier)));
    assert!(may_complete_order(&store, order.id));
    assert!(may_complete_order(&store, 99));
    add_order_supplier(&mut store, order.id, supplier, 11).unwrap();
    assert!(may_complete_order(&store, order.id));
}

#[test]
fn an_order_whose_record_would_not_fit_may_not_be_stored() {
    let mut store = SupplyChain::new();
    let client = new_client(&mut store);
    let supplier = new_supplier(&mut store);
    let mut large = payload("Fasteners", client, supplier);
    large.title = "x".repeat(2000);
    assert!(!may_add_order(&store, &large));
    let order = add_order(&mut store, payload("Fasteners", client, 0), 10).unwrap();
    assert!(!may_update_order(&store, order.id, &large));
    // Where the update would be rejected anyway, the size does not matter.
    large.client_id = 99;
    assert!(may_update_order(&store, order.id, &large));
    assert!(may_add_order(&store, &large));
}
