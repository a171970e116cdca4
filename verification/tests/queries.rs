use supply_chain_backend::queries::{_get_supplier_preferred_items, among, has_wanted};
use supply_chain_backend::queries::{meets_criteria, select, share_item};
use supply_chain_backend::{add_client, add_order, add_order_supplier, add_supplier};
use supply_chain_backend::{analyze_client_engagement, complete_order, delete_order};
use supply_chain_backend::{filter_orders_by_criteria, get_client_orders, get_completed_orders};
use supply_chain_backend::{get_incomplete_orders, get_orders, get_supplier_completed_orders};
use supply_chain_backend::{get_supplier_orders, get_supplier_preferred_orders};
use supply_chain_backend::{suggest_suppliers_for_client, update_order};
use supply_chain_backend::{ClientEngagement, ClientPayload, Error, Order, OrderCriteria};
use supply_chain_backend::{OrderPayload, Products, SupplierPayload, SupplyChain};

fn new_client(store: &mut SupplyChain, name: &str) -> u64 {
    let payload = ClientPayload {
        name: name.to_string(),
        email: "client@example.com".to_string(),
        phone: "5551234".to_string(),
    };
    add_client(store, payload, 1).unwrap().id
}

fn new_supplier(store: &mut SupplyChain, name: &str, items: &[&str]) -> u64 {
    let payload = SupplierPayload {
        name: name.to_string(),
        email: "supplier@example.com".to_string(),
        phone: "5559876".to_string(),
        preferred_items: items.iter().map(|item| item.to_string()).collect(),
    };
    add_supplier(store, payload, 1).unwrap().id
}

fn payload(title: &str, client_id: u64, supplier_id: u64, types: &[&str], lines: &[&str]) -> OrderPayload {
    let mut products = Products::new();
    for name in lines {
        products.insert(name.to_string(), 1);
    }
    OrderPayload {
        title: title.to_string(),
        client_id,
        supplier_id,
        products,
        item_types: types.iter().map(|item| item.to_string()).collect(),
        is_complete: false,
    }
}

fn new_order(store: &mut SupplyChain, client_id: u64, types: &[&str], lines: &[&str], now: u64) -> Order {
    add_order(store, payload("Order", client_id, 0, types, lines), now).unwrap()
}

fn completed(store: &mut SupplyChain, client: u64, supplier: u64, lines: &[&str], now: u64) -> Order {
    let order = new_order(store, client, &[], lines, now);
    add_order_supplier(store, order.id, supplier, now).unwrap();
    complete_order(store, order.id, now).unwrap()
}

fn not_found(msg: &str) -> Error {
    Error::NotFound { msg: msg.to_string() }
}

fn no_criteria() -> OrderCriteria {
    OrderCriteria {
        start_date: None,
        end_date: None,
        is_complete: None,
        client_id: None,
        supplier_id: None,
        product: None,
    }
}

fn ids(orders: &Result<Vec<Order>, Error>) -> Vec<u64> {
    orders.as_ref().unwrap().iter().map(|order| order.id).collect()
}

#[test]
fn queries_on_an_empty_store_find_nothing() {
    let store = SupplyChain::new();
    assert_eq!(get_orders(&store), Err(not_found("No orders available.")));
    assert_eq!(get_incomplete_orders(&store), Err(not_found("No incomplete orders available.")));
    assert_eq!(get_completed_orders(&store), Err(not_found("No completed orders available.")));
    assert_eq!(
        filter_orders_by_criteria(&store, &no_criteria()),
        Err(not_found("No orders match the criteria."))
    );
}

#[test]
fn orders_are_listed_by_ascending_identifier() {
    let mut store = SupplyChain::new();
    let client = new_client(&mut store, "Acme");
    let supplier = new_supplier(&mut store, "Boltworks", &[]);
    let first = new_order(&mut store, client, &[], &[], 10);
    let second = new_order(&mut store, client, &[], &[], 11);
    let third = new_order(&mut store, client, &[], &[], 12);
    // Writing the first order again does not move it.
    let first = add_order_supplier(&mut store, first.id, supplier, 13).unwrap();
    delete_order(&mut store, second.id).unwrap();
    let fourth = new_order(&mut store, client, &[], &[], 14);
    assert_eq!(get_orders(&store), Ok(vec![first, third, fourth]));
}

#[test]
fn many_orders_are_listed_by_ascending_identifier() {
    let mut store = SupplyChain::new();
    let client = new_client(&mut store, "Acme");
    let mut expected = vec![];
    for now in 0..60 {
        expected.push(new_order(&mut store, client, &["bolts"], &["bolt"], now));
    }
    let listed = get_orders(&store).unwrap();
    assert_eq!(listed.len(), 60);
    assert_eq!(listed, expected);
}

#[test]
fn orders_are_told_apart_by_completion() {
    let mut store = SupplyChain::new();
    let client = new_client(&mut store, "Acme");
    let supplier = new_supplier(&mut store, "Boltworks", &[]);
    let open = new_order(&mut store, client, &[], &[], 10);
    assert_eq!(get_incomplete_orders(&store), Ok(vec![open.clone()]));
    assert_eq!(get_completed_orders(&store), Err(not_found("No completed orders available.")));
    let done = completed(&mut store, client, supplier, &[], 11);
    let also_open = new_order(&mut store, client, &[], &[], 12);
    assert_eq!(get_incomplete_orders(&store), Ok(vec![open.clone(), also_open.clone()]));
    assert_eq!(get_completed_orders(&store), Ok(vec![done.clone()]));
    assert_eq!(get_orders(&store), Ok(vec![open, done, also_open]));
}

#[test]
fn when_every_order_is_complete_none_is_incomplete() {
    let mut store = SupplyChain::new();
    let client = new_client(&mut store, "Acme");
    let supplier = new_supplier(&mut store, "Boltworks", &[]);
    completed(&mut store, client, supplier, &[], 11);
    assert_eq!(get_incomplete_orders(&store), Err(not_found("No incomplete orders available.")));
}

#[test]
fn the_orders_of_a_client_are_found() {
    let mut store = SupplyChain::new();
    let acme = new_client(&mut store, "Acme");
    let zenith = new_client(&mut store, "Zenith");
    let idle = new_client(&mut store, "Idle");
    let a1 = new_order(&mut store, acme, &[], &[], 10);
    let z1 = new_order(&mut store, zenith, &[], &[], 11);
    let a2 = new_order(&mut store, acme, &[], &[], 12);
    assert_eq!(get_client_orders(&store, acme), Ok(vec![a1, a2]));
    assert_eq!(get_client_orders(&store, zenith), Ok(vec![z1.clone()]));
    assert_eq!(
        get_client_orders(&store, idle),
        Err(not_found("No orders available for client id:2"))
    );
    assert_eq!(get_client_orders(&store, 99), Err(not_found("Client with id=99 not found.")));
    assert_eq!(get_client_orders(&store, z1.id), Err(not_found("Client with id=4 not found.")));
}

#[test]
fn the_orders_of_a_supplier_are_found() {
    let mut store = SupplyChain::new();
    let client = new_client(&mut store, "Acme");
    let bolts = new_supplier(&mut store, "Boltworks", &[]);
    let nuts = new_supplier(&mut store, "Nutty", &[]);
    let unassigned = new_order(&mut store, client, &[], &[], 10);
    let assigned = new_order(&mut store, client, &[], &[], 11);
    let assigned = add_order_supplier(&mut store, assigned.id, bolts, 12).unwrap();
    let done = completed(&mut store, client, bolts, &[], 13);

    assert_eq!(get_supplier_orders(&store, bolts), Ok(vec![assigned.clone(), done.clone()]));
    assert_eq!(get_supplier_completed_orders(&store, bolts), Ok(vec![done]));
    assert_eq!(
        get_supplier_orders(&store, nuts),
        Err(not_found("No orders available for supplier id:2"))
    );
    assert_eq!(
        get_supplier_completed_orders(&store, nuts),
        Err(not_found("No completed orders available for supplier id:2"))
    );
    assert_eq!(get_supplier_orders(&store, 99), Err(not_found("Supplier with id=99 not found.")));
    assert_eq!(
        get_supplier_completed_orders(&store, client),
        Err(not_found("Supplier with id=0 not found."))
    );
    assert_eq!(ids(&get_orders(&store)), vec![unassigned.id, assigned.id, 5]);
}

#[test]
fn a_supplier_with_assigned_but_no_complete_orders_has_no_completed_orders() {
    let mut store = SupplyChain::new();
    let client = new_client(&mut store, "Acme");
    let bolts = new_supplier(&mut store, "Boltworks", &[]);
    let order = new_order(&mut store, client, &[], &[], 10);
    add_order_supplier(&mut store, order.id, bolts, 11).unwrap();
    assert_eq!(
        get_supplier_completed_orders(&store, bolts),
        Err(not_found("No completed orders available for supplier id:1"))
    );
}

#[test]
fn the_orders_that_a_supplier_prefers_are_found() {
    let mut store = SupplyChain::new();
    let client = new_client(&mut store, "Acme");
    let supplier = new_supplier(&mut store, "Boltworks", &["bolts", "screws"]);
    let picky = new_supplier(&mut store, "Picky", &["gold"]);
    let indifferent = new_supplier(&mut store, "Indifferent", &[]);
    let bolts = new_order(&mut store, client, &["bolts"], &[], 10);
    let nuts = new_order(&mut store, client, &["nuts"], &[], 11);
    let mixed = new_order(&mut store, client, &["nuts", "screws"], &[], 12);
    let plain = new_order(&mut store, client, &[], &[], 13);

    assert_eq!(get_supplier_preferred_orders(&store, supplier), Ok(vec![bolts, mixed]));
    assert_eq!(
        get_supplier_preferred_orders(&store, picky),
        Err(not_found("No orders available matching supplier id:2 prefferences"))
    );
    assert_eq!(
        get_supplier_preferred_orders(&store, indifferent),
        Err(not_found("No orders available matching supplier id:3 prefferences"))
    );
    assert_eq!(
        get_supplier_preferred_orders(&store, 99),
        Err(not_found("Supplier with id=99 not found."))
    );
    assert_eq!(ids(&get_orders(&store)), vec![4, nuts.id, 6, plain.id]);
}

#[test]
fn the_preferred_items_of_a_supplier_are_read() {
    let mut store = SupplyChain::new();
    let supplier = new_supplier(&mut store, "Boltworks", &["bolts", "screws"]);
    assert_eq!(
        _get_supplier_preferred_items(&store, supplier),
        vec!["bolts".to_string(), "screws".to_string()]
    );
    assert_eq!(_get_supplier_preferred_items(&store, 99), Vec::<String>::new());
}

#[test]
fn lists_of_texts_are_searched() {
    let items = vec!["bolts".to_string(), "nuts".to_string()];
    assert!(among(&"nuts".to_string(), &items));
    assert!(!among(&"nut".to_string(), &items));
    assert!(!among(&"nuts".to_string(), &vec![]));
    assert!(share_item(&items, &vec!["screws".to_string(), "nuts".to_string()]));
    assert!(!share_item(&items, &vec!["screws".to_string()]));
    assert!(!share_item(&items, &vec![]));
    assert!(!share_item(&vec![], &items));
    let products =
        Products::from_lines(vec![("washer".to_string(), 1), ("bolts".to_string(), 2)]).unwrap();
    assert!(has_wanted(&products, &items));
    assert!(!has_wanted(&products, &vec!["screws".to_string()]));
    assert!(!has_wanted(&Products::new(), &items));
}

#[test]
fn without_criteria_every_order_is_found() {
    let mut store = SupplyChain::new();
    let client = new_client(&mut store, "Acme");
    let supplier = new_supplier(&mut store, "Boltworks", &[]);
    let first = new_order(&mut store, client, &["bolts"], &["bolt"], 10);
    let second = completed(&mut store, client, supplier, &["nut"], 11);
    assert_eq!(filter_orders_by_criteria(&store, &no_criteria()), Ok(vec![first, second]));
    assert_eq!(filter_orders_by_criteria(&store, &no_criteria()), get_orders(&store));
}

#[test]
fn criteria_that_contradict_what_is_stored_find_nothing() {
    let mut store = SupplyChain::new();
    let acme = new_client(&mut store, "Acme");
    let zenith = new_client(&mut store, "Zenith");
    let supplier = new_supplier(&mut store, "Boltworks", &[]);
    new_order(&mut store, acme, &[], &[], 10);
    new_order(&mut store, acme, &[], &[], 11);
    completed(&mut store, zenith, supplier, &[], 12);
    let mut criteria = no_criteria();
    criteria.is_complete = Some(true);
    criteria.client_id = Some(acme);
    assert_eq!(
        filter_orders_by_criteria(&store, &criteria),
        Err(not_found("No orders match the criteria."))
    );
    let mut criteria = no_criteria();
    criteria.start_date = Some(20);
    criteria.end_date = Some(10);
    assert_eq!(
        filter_orders_by_criteria(&store, &criteria),
        Err(not_found("No orders match the criteria."))
    );
}

#[test]
fn every_criterion_that_is_set_must_be_met() {
    let mut store = SupplyChain::new();
    let acme = new_client(&mut store, "Acme");
    let zenith = new_client(&mut store, "Zenith");
    let bolts = new_supplier(&mut store, "Boltworks", &[]);
    let nuts = new_supplier(&mut store, "Nutty", &[]);
    let a = new_order(&mut store, acme, &[], &["bolt", "nut"], 10);
    let b = completed(&mut store, acme, bolts, &["bolt"], 20);
    let c = completed(&mut store, zenith, nuts, &["nut"], 30);
    let d = new_order(&mut store, zenith, &[], &[], 40);
    let d = add_order_supplier(&mut store, d.id, bolts, 41).unwrap();

    let mut by_client = no_criteria();
    by_client.client_id = Some(acme);
    assert_eq!(ids(&filter_orders_by_criteria(&store, &by_client)), vec![a.id, b.id]);

    let mut by_supplier = no_criteria();
    by_supplier.supplier_id = Some(bolts);
    assert_eq!(ids(&filter_orders_by_criteria(&store, &by_supplier)), vec![b.id, d.id]);

    let mut by_completion = no_criteria();
    by_completion.is_complete = Some(false);
    assert_eq!(ids(&filter_orders_by_criteria(&store, &by_completion)), vec![a.id, d.id]);
    by_completion.is_complete = Some(true);
    assert_eq!(ids(&filter_orders_by_criteria(&store, &by_completion)), vec![b.id, c.id]);

    let mut by_product = no_criteria();
    by_product.product = Some("nut".to_string());
    assert_eq!(ids(&filter_orders_by_criteria(&store, &by_product)), vec![a.id, c.id]);
    by_product.product = Some("nu".to_string());
    assert!(filter_orders_by_criteria(&store, &by_product).is_err());

    // The bounds of a range of dates belong to it.
    let mut by_date = no_criteria();
    by_date.start_date = Some(20);
    by_date.end_date = Some(30);
    assert_eq!(ids(&filter_orders_by_criteria(&store, &by_date)), vec![b.id, c.id]);
    by_date.end_date = None;
    assert_eq!(ids(&filter_orders_by_criteria(&store, &by_date)), vec![b.id, c.id, d.id]);
    by_date.start_date = None;
    by_date.end_date = Some(19);
    assert_eq!(ids(&filter_orders_by_criteria(&store, &by_date)), vec![a.id]);

    let mut all_of_it = no_criteria();
    all_of_it.start_date = Some(5);
    all_of_it.end_date = Some(25);
    all_of_it.is_complete = Some(true);
    all_of_it.client_id = Some(acme);
    all_of_it.supplier_id = Some(bolts);
    all_of_it.product = Some("bolt".to_string());
    assert_eq!(filter_orders_by_criteria(&store, &all_of_it), Ok(vec![b.clone()]));
    assert!(meets_criteria(&b, &all_of_it));
    assert!(!meets_criteria(&a, &all_of_it));
    assert_eq!(select(&vec![a.clone(), b.clone(), c.clone()], &all_of_it), vec![b]);
    assert_eq!(select(&vec![a.clone(), c.clone()], &all_of_it), vec![]);
}

#[test]
fn suppliers_are_suggested_for_what_a_client_has_ordered() {
    let mut store = SupplyChain::new();
    let acme = new_client(&mut store, "Acme");
    let zenith = new_client(&mut store, "Zenith");
    let bolts = new_supplier(&mut store, "Boltworks", &[]);
    let nuts = new_supplier(&mut store, "Nutty", &[]);
    let gold = new_supplier(&mut store, "Goldsmith", &[]);
    // Acme has completed an order of bolts and nuts with Boltworks.
    completed(&mut store, acme, bolts, &["bolt", "nut"], 10);
    // Zenith has completed orders with all three.
    completed(&mut store, zenith, bolts, &["bolt"], 11);
    completed(&mut store, zenith, nuts, &["nut", "washer"], 12);
    completed(&mut store, zenith, gold, &["ring"], 13);
    completed(&mut store, zenith, nuts, &["washer"], 14);

    let suggested = suggest_suppliers_for_client(&store, acme).unwrap();
    let names: Vec<&str> = suggested.iter().map(|supplier| supplier.name.as_str()).collect();
    // Boltworks once for each of its two orders with a bolt, Nutty once.
    assert_eq!(names, vec!["Boltworks", "Boltworks", "Nutty"]);
    assert_eq!(suggested[0].id, bolts);
    assert_eq!(suggested[0].order_ids.len(), 2);
    assert_eq!(suggested[2].id, nuts);

    let for_zenith = suggest_suppliers_for_client(&store, zenith).unwrap();
    let names: Vec<&str> = for_zenith.iter().map(|supplier| supplier.name.as_str()).collect();
    assert_eq!(names, vec!["Boltworks", "Boltworks", "Nutty", "Nutty", "Goldsmith"]);
}

#[test]
fn no_supplier_is_suggested_where_nothing_is_shared() {
    let mut store = SupplyChain::new();
    let acme = new_client(&mut store, "Acme");
    let zenith = new_client(&mut store, "Zenith");
    let bolts = new_supplier(&mut store, "Boltworks", &[]);
    assert_eq!(
        suggest_suppliers_for_client(&store, acme),
        Err(not_found("No suppliers to suggest for client id:0"))
    );
    // An order that is not complete is on no record.
    let open = new_order(&mut store, acme, &[], &["bolt"], 10);
    add_order_supplier(&mut store, open.id, bolts, 11).unwrap();
    completed(&mut store, zenith, bolts, &["bolt"], 12);
    assert_eq!(
        suggest_suppliers_for_client(&store, acme),
        Err(not_found("No suppliers to suggest for client id:0"))
    );
    assert_eq!(
        suggest_suppliers_for_client(&store, 99),
        Err(not_found("Client with id=99 not found."))
    );
    assert_eq!(
        suggest_suppliers_for_client(&store, bolts),
        Err(not_found("Client with id=2 not found."))
    );
}

#[test]
fn orders_that_were_deleted_are_passed_over() {
    let mut store = SupplyChain::new();
    let acme = new_client(&mut store, "Acme");
    let bolts = new_supplier(&mut store, "Boltworks", &[]);
    let first = completed(&mut store, acme, bolts, &["bolt", "nut"], 10);
    let second = completed(&mut store, acme, bolts, &["nut", "washer"], 11);
    assert_eq!(
        analyze_client_engagement(&store, acme),
        Ok(ClientEngagement { total_orders: 2, distinct_products: 3 })
    );
    assert_eq!(suggest_suppliers_for_client(&store, acme).unwrap().len(), 2);

    delete_order(&mut store, first.id).unwrap();
    assert_eq!(
        analyze_client_engagement(&store, acme),
        Ok(ClientEngagement { total_orders: 1, distinct_products: 2 })
    );
    assert_eq!(suggest_suppliers_for_client(&store, acme).unwrap().len(), 1);

    delete_order(&mut store, second.id).unwrap();
    assert_eq!(
        analyze_client_engagement(&store, acme),
        Ok(ClientEngagement { total_orders: 0, distinct_products: 0 })
    );
    assert_eq!(
        suggest_suppliers_for_client(&store, acme),
        Err(not_found("No suppliers to suggest for client id:0"))
    );
}

#[test]
fn the_engagement_of_a_client_is_counted() {
    let mut store = SupplyChain::new();
    let acme = new_client(&mut store, "Acme");
    let bolts = new_supplier(&mut store, "Boltworks", &[]);
    assert_eq!(
        analyze_client_engagement(&store, acme),
        Ok(ClientEngagement { total_orders: 0, distinct_products: 0 })
    );
    new_order(&mut store, acme, &[], &["bolt"], 10);
    assert_eq!(
        analyze_client_engagement(&store, acme),
        Ok(ClientEngagement { total_orders: 0, distinct_products: 0 })
    );
    completed(&mut store, acme, bolts, &["bolt", "nut"], 11);
    completed(&mut store, acme, bolts, &["bolt"], 12);
    completed(&mut store, acme, bolts, &[], 13);
    assert_eq!(
        analyze_client_engagement(&store, acme),
        Ok(ClientEngagement { total_orders: 3, distinct_products: 2 })
    );
    assert_eq!(
        analyze_client_engagement(&store, 99),
        Err(not_found("Client with id=99 not found."))
    );
}

#[test]
fn an_update_moves_an_order_between_clients() {
    let mut store = SupplyChain::new();
    let acme = new_client(&mut store, "Acme");
    let zenith = new_client(&mut store, "Zenith");
    let bolts = new_supplier(&mut store, "Boltworks", &[]);
    let order = new_order(&mut store, acme, &[], &[], 10);
    update_order(&mut store, order.id, payload("Moved", zenith, bolts, &[], &[]), 11).unwrap();
    assert_eq!(
        get_client_orders(&store, acme),
        Err(not_found("No orders available for client id:0"))
    );
    assert_eq!(ids(&get_client_orders(&store, zenith)), vec![order.id]);
    assert_eq!(ids(&get_supplier_orders(&store, bolts)), vec![order.id]);
}
