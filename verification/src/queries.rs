//! The queries: lists of stored orders and suppliers, each by ascending
//! identifier, and what they find about a client.

use vstd::prelude::*;
use crate::entities::{ClientEngagement, Order, OrderCriteria, OrderView, Products};
use crate::entities::{Supplier, SupplierView};
use crate::entities::{names, order_views, supplier_views, texts};
use crate::errors::{Error, ErrorView, missing_numbered, missing_plain};
use crate::errors::{orders_outcome, suppliers_outcome};
use crate::errors::{client_not_found, supplier_not_found};
use crate::errors::{no_client_orders, no_completed_orders, no_incomplete_orders};
use crate::errors::{no_matching_orders, no_orders, no_preferred_orders};
use crate::errors::{no_supplier_completed_orders, no_supplier_orders, no_suppliers};
use crate::errors::no_suggestions;
use crate::listing::in_key_order;
use crate::operations::{is_client_id_valid, is_supplier_id_valid};
use crate::store::{State, SupplyChain, _get_client, _get_order, _get_supplier};
use crate::store::{list_orders, list_suppliers};

verus! {

/// What a query returns that has found `items`: the items, or the error
/// `nothing` where there are none.
pub open spec fn found<T>(items: Seq<T>, nothing: ErrorView) -> Result<Seq<T>, ErrorView> {
    if items.len() > 0 {
        Ok(items)
    } else {
        Err(nothing)
    }
}

/// Whether an order meets the criteria.
pub open spec fn meets(order: OrderView, criteria: OrderCriteria) -> bool {
    &&& criteria.start_date matches Some(start) ==> order.created_at >= start
    &&& criteria.end_date matches Some(end) ==> order.created_at <= end
    &&& criteria.is_complete matches Some(flag) ==> order.is_complete == flag
    &&& criteria.client_id matches Some(id) ==> order.client_id == id
    &&& criteria.supplier_id matches Some(id) ==> order.supplier_id == Some(id)
    &&& criteria.product matches Some(name) ==> names(order.products, name@)
}

/// The orders that meet the criteria.
pub open spec fn meeting(criteria: OrderCriteria) -> spec_fn(OrderView) -> bool {
    |order: OrderView| meets(order, criteria)
}

/// The criteria that ask for a completion state, a client and a supplier,
/// each where it is given, and for nothing else.
pub open spec fn asking(
    is_complete: Option<bool>,
    client_id: Option<u64>,
    supplier_id: Option<u64>,
) -> OrderCriteria {
    OrderCriteria {
        start_date: None,
        end_date: None,
        is_complete,
        client_id,
        supplier_id,
        product: None,
    }
}

/// The orders with the given completion state.
pub open spec fn with_completion(flag: bool) -> spec_fn(OrderView) -> bool {
    meeting(asking(Some(flag), None, None))
}

/// The orders of a client.
pub open spec fn of_client(client_id: u64) -> spec_fn(OrderView) -> bool {
    meeting(asking(None, Some(client_id), None))
}

/// The orders assigned to a supplier.
pub open spec fn of_supplier(supplier_id: u64) -> spec_fn(OrderView) -> bool {
    meeting(asking(None, None, Some(supplier_id)))
}

/// The complete orders assigned to a supplier.
pub open spec fn completed_of_supplier(supplier_id: u64) -> spec_fn(OrderView) -> bool {
    meeting(asking(Some(true), None, Some(supplier_id)))
}

/// Whether one of `items` is among `types`.
pub open spec fn shares_item(items: Seq<Seq<char>>, types: Seq<Seq<char>>) -> bool {
    exists|i: int, j: int|
        0 <= i < items.len() && 0 <= j < types.len() && #[trigger] items[i] == #[trigger] types[j]
}

/// The orders with an item type among `items`.
pub open spec fn preferred_among(items: Seq<Seq<char>>) -> spec_fn(OrderView) -> bool {
    |order: OrderView| shares_item(items, order.item_types)
}

/// What `get_suppliers` returns.
pub open spec fn get_suppliers_result(s: State) -> Result<Seq<SupplierView>, ErrorView> {
    found(in_key_order(s.suppliers), no_suppliers())
}

/// What `get_orders` returns.
pub open spec fn get_orders_result(s: State) -> Result<Seq<OrderView>, ErrorView> {
    found(in_key_order(s.orders), no_orders())
}

/// What `get_incomplete_orders` returns.
pub open spec fn get_incomplete_orders_result(s: State) -> Result<Seq<OrderView>, ErrorView> {
    found(in_key_order(s.orders).filter(with_completion(false)), no_incomplete_orders())
}

/// What `get_completed_orders` returns.
pub open spec fn get_completed_orders_result(s: State) -> Result<Seq<OrderView>, ErrorView> {
    found(in_key_order(s.orders).filter(with_completion(true)), no_completed_orders())
}

/// What `get_client_orders` returns.
pub open spec fn get_client_orders_result(s: State, client_id: u64) -> Result<
    Seq<OrderView>,
    ErrorView,
> {
    if s.clients.contains_key(client_id) {
        found(in_key_order(s.orders).filter(of_client(client_id)), no_client_orders(client_id))
    } else {
        Err(client_not_found(client_id))
    }
}

/// What `get_supplier_orders` returns.
pub open spec fn get_supplier_orders_result(s: State, supplier_id: u64) -> Result<
    Seq<OrderView>,
    ErrorView,
> {
    if s.suppliers.contains_key(supplier_id) {
        found(
            in_key_order(s.orders).filter(of_supplier(supplier_id)),
            no_supplier_orders(supplier_id),
        )
    } else {
        Err(supplier_not_found(supplier_id))
    }
}

/// What `get_supplier_completed_orders` returns.
pub open spec fn get_supplier_completed_orders_result(s: State, supplier_id: u64) -> Result<
    Seq<OrderView>,
    ErrorView,
> {
    if s.suppliers.contains_key(supplier_id) {
        found(
            in_key_order(s.orders).filter(completed_of_supplier(supplier_id)),
            no_supplier_completed_orders(supplier_id),
        )
    } else {
        Err(supplier_not_found(supplier_id))
    }
}

/// What `get_supplier_preferred_orders` returns.
pub open spec fn get_supplier_preferred_orders_result(s: State, supplier_id: u64) -> Result<
    Seq<OrderView>,
    ErrorView,
> {
    if s.suppliers.contains_key(supplier_id) {
        found(
            in_key_order(s.orders).filter(
                preferred_among(s.suppliers[supplier_id].preferred_items),
            ),
            no_preferred_orders(supplier_id),
        )
    } else {
        Err(supplier_not_found(supplier_id))
    }
}

/// What `filter_orders_by_criteria` returns.
pub open spec fn filter_orders_by_criteria_result(s: State, criteria: OrderCriteria) -> Result<
    Seq<OrderView>,
    ErrorView,
> {
    found(in_key_order(s.orders).filter(meeting(criteria)), no_matching_orders())
}

/// Whether `order` meets `criteria`.
pub fn meets_criteria(order: &Order, criteria: &OrderCriteria) -> (yes: bool)
    ensures
        yes == meets(order@, *criteria),
{
    let after_start = match criteria.start_date {
        Some(start) => order.created_at >= start,
        None => true,
    };
    let before_end = match criteria.end_date {
        Some(end) => order.created_at <= end,
        None => true,
    };
    let in_state = match criteria.is_complete {
        Some(flag) => order.is_complete == flag,
        None => true,
    };
    let of_client = match criteria.client_id {
        Some(id) => order.client_id == id,
        None => true,
    };
    let of_supplier = match criteria.supplier_id {
        Some(id) => match order.supplier_id {
            Some(assigned) => assigned == id,
            None => false,
        },
        None => true,
    };
    let has_product = match &criteria.product {
        Some(name) => order.products.contains_key(name.as_str()),
        None => true,
    };
    after_start && before_end && in_state && of_client && of_supplier && has_product
}

/// The orders of `orders` that meet `criteria`, in their order.
pub fn select(orders: &Vec<Order>, criteria: &OrderCriteria) -> (chosen: Vec<Order>)
    ensures
        order_views(chosen@) == order_views(orders@).filter(meeting(*criteria)),
{
    let ghost all = order_views(orders@);
    let mut chosen: Vec<Order> = Vec::new();
    let mut i: usize = 0;
    proof {
        reveal(Seq::filter);
    }
    while i < orders.len()
        invariant
            i <= orders.len(),
            all == order_views(orders@),
            order_views(chosen@) == all.take(i as int).filter(meeting(*criteria)),
        decreases orders.len() - i,
    {
        proof {
            all.take(i as int).lemma_filter_push(all[i as int], meeting(*criteria));
            assert(all.take(i + 1) =~= all.take(i as int).push(all[i as int]));
        }
        if meets_criteria(&orders[i], criteria) {
            chosen.push(orders[i].clone());
        }
        i += 1;
    }
    assert(all.take(orders.len() as int) =~= all);
    chosen
}

/// `Ok` with the orders, or the error `nothing` where there are none.
fn found_orders(orders: Vec<Order>, nothing: Error) -> (r: Result<Vec<Order>, Error>)
    ensures
        orders_outcome(r) == found(order_views(orders@), nothing@),
{
    if orders.len() > 0 {
        Ok(orders)
    } else {
        Err(nothing)
    }
}

fn criteria_asking(
    is_complete: Option<bool>,
    client_id: Option<u64>,
    supplier_id: Option<u64>,
) -> (c: OrderCriteria)
    ensures
        c == asking(is_complete, client_id, supplier_id),
{
    OrderCriteria {
        start_date: None,
        end_date: None,
        is_complete,
        client_id,
        supplier_id,
        product: None,
    }
}

/// All suppliers.
pub fn get_suppliers(store: &SupplyChain) -> (r: Result<Vec<Supplier>, Error>)
    requires
        store.wf(),
    ensures
        suppliers_outcome(r) == get_suppliers_result(store@),
{
    let suppliers = list_suppliers(store);
    if suppliers.len() > 0 {
        Ok(suppliers)
    } else {
        Err(missing_plain("No suppliers available."))
    }
}

/// All orders.
pub fn get_orders(store: &SupplyChain) -> (r: Result<Vec<Order>, Error>)
    requires
        store.wf(),
    ensures
        orders_outcome(r) == get_orders_result(store@),
{
    found_orders(list_orders(store), missing_plain("No orders available."))
}

/// The orders that are not complete.
pub fn get_incomplete_orders(store: &SupplyChain) -> (r: Result<Vec<Order>, Error>)
    requires
        store.wf(),
    ensures
        orders_outcome(r) == get_incomplete_orders_result(store@),
{
    let orders = select(&list_orders(store), &criteria_asking(Some(false), None, None));
    found_orders(orders, missing_plain("No incomplete orders available."))
}

/// The orders that are complete.
pub fn get_completed_orders(store: &SupplyChain) -> (r: Result<Vec<Order>, Error>)
    requires
        store.wf(),
    ensures
        orders_outcome(r) == get_completed_orders_result(store@),
{
    let orders = select(&list_orders(store), &criteria_asking(Some(true), None, None));
    found_orders(orders, missing_plain("No completed orders available."))
}

/// The orders of the client `client_id`.
pub fn get_client_orders(store: &SupplyChain, client_id: u64) -> (r: Result<Vec<Order>, Error>)
    requires
        store.wf(),
    ensures
        orders_outcome(r) == get_client_orders_result(store@, client_id),
{
    if !is_client_id_valid(store, &client_id) {
        return Err(missing_numbered("Client with id=", client_id, " not found."));
    }
    let orders = select(&list_orders(store), &criteria_asking(None, Some(client_id), None));
    found_orders(orders, missing_numbered("No orders available for client id:", client_id, ""))
}

/// The orders assigned to the supplier `supplier_id`.
pub fn get_supplier_orders(store: &SupplyChain, supplier_id: u64) -> (r: Result<Vec<Order>, Error>)
    requires
        store.wf(),
    ensures
        orders_outcome(r) == get_supplier_orders_result(store@, supplier_id),
{
    if !is_supplier_id_valid(store, &supplier_id) {
        return Err(missing_numbered("Supplier with id=", supplier_id, " not found."));
    }
    let orders = select(&list_orders(store), &criteria_asking(None, None, Some(supplier_id)));
    found_orders(orders, missing_numbered("No orders available for supplier id:", supplier_id, ""))
}

/// The complete orders assigned to the supplier `supplier_id`.
pub fn get_supplier_completed_orders(
    store: &SupplyChain,
    supplier_id: u64,
) -> (r: Result<Vec<Order>, Error>)
    requires
        store.wf(),
    ensures
        orders_outcome(r) == get_supplier_completed_orders_result(store@, supplier_id),
{
    if !is_supplier_id_valid(store, &supplier_id) {
        return Err(missing_numbered("Supplier with id=", supplier_id, " not found."));
    }
    let orders = select(
        &list_orders(store),
        &criteria_asking(Some(true), None, Some(supplier_id)),
    );
    found_orders(
        orders,
        missing_numbered("No completed orders available for supplier id:", supplier_id, ""),
    )
}

/// The orders that meet `criteria`.
pub fn filter_orders_by_criteria(
    store: &SupplyChain,
    criteria: &OrderCriteria,
) -> (r: Result<Vec<Order>, Error>)
    requires
        store.wf(),
    ensures
        orders_outcome(r) == filter_orders_by_criteria_result(store@, *criteria),
{
    let orders = select(&list_orders(store), criteria);
    found_orders(orders, missing_plain("No orders match the criteria."))
}

/// Whether `text` is one of `items`.
pub fn among(text: &String, items: &Vec<String>) -> (yes: bool)
    ensures
        yes == texts(items@).contains(text@),
{
    let mut j: usize = 0;
    while j < items.len()
        invariant
            j <= items.len(),
            forall|k: int| 0 <= k < j ==> texts(items@)[k] != text@,
        decreases items.len() - j,
    {
        if items[j] == *text {
            assert(texts(items@)[j as int] == text@);
            return true;
        }
        j += 1;
    }
    false
}

/// Whether one of `items` is among `types`.
pub fn share_item(items: &Vec<String>, types: &Vec<String>) -> (yes: bool)
    ensures
        yes == shares_item(texts(items@), texts(types@)),
{
    let mut i: usize = 0;
    while i < items.len()
        invariant
            i <= items.len(),
            forall|k: int, j: int|
                0 <= k < i && 0 <= j < types.len() ==> #[trigger] texts(items@)[k]
                    != #[trigger] texts(types@)[j],
        decreases items.len() - i,
    {
        if among(&items[i], types) {
            let ghost j = choose|j: int|
                0 <= j < texts(types@).len() && texts(types@)[j] == items[i as int]@;
            assert(texts(items@)[i as int] == texts(types@)[j]);
            return true;
        }
        i += 1;
    }
    false
}

/// The preferred items of the supplier `supplier_id`; none where no such
/// supplier is stored.
pub fn _get_supplier_preferred_items(store: &SupplyChain, supplier_id: u64) -> (items: Vec<String>)
    requires
        store.wf(),
    ensures
        texts(items@) == if store@.suppliers.contains_key(supplier_id) {
            store@.suppliers[supplier_id].preferred_items
        } else {
            Seq::empty()
        },
{
    let supplier = _get_supplier(store, &supplier_id);
    if let Some(supplier) = supplier {
        supplier.preferred_items
    } else {
        let items: Vec<String> = Vec::new();
        items
    }
}

/// The orders with an item type that the supplier `supplier_id` prefers.
pub fn get_supplier_preferred_orders(
    store: &SupplyChain,
    supplier_id: u64,
) -> (r: Result<Vec<Order>, Error>)
    requires
        store.wf(),
    ensures
        orders_outcome(r) == get_supplier_preferred_orders_result(store@, supplier_id),
{
    if !is_supplier_id_valid(store, &supplier_id) {
        return Err(missing_numbered("Supplier with id=", supplier_id, " not found."));
    }
    let preferred_items = _get_supplier_preferred_items(store, supplier_id);
    let orders = list_orders(store);
    let ghost all = order_views(orders@);
    let ghost wanted = preferred_among(texts(preferred_items@));
    let mut chosen: Vec<Order> = Vec::new();
    let mut i: usize = 0;
    proof {
        reveal(Seq::filter);
    }
    while i < orders.len()
        invariant
            i <= orders.len(),
            all == order_views(orders@),
            wanted == preferred_among(texts(preferred_items@)),
            order_views(chosen@) == all.take(i as int).filter(wanted),
        decreases orders.len() - i,
    {
        proof {
            all.take(i as int).lemma_filter_push(all[i as int], wanted);
            assert(all.take(i + 1) =~= all.take(i as int).push(all[i as int]));
        }
        if share_item(&preferred_items, &orders[i].item_types) {
            chosen.push(orders[i].clone());
        }
        i += 1;
    }
    assert(all.take(orders.len() as int) =~= all);
    found_orders(
        chosen,
        missing_numbered("No orders available matching supplier id:", supplier_id, " prefferences"),
    )
}

/// Whether an order that is on the record `ids` and still stored has a
/// product line named `name`.
pub open spec fn ordered_on_record(s: State, ids: Seq<u64>, name: Seq<char>) -> bool {
    exists|i: int|
        0 <= i < ids.len() && s.orders.contains_key(#[trigger] ids[i]) && names(
            s.orders[ids[i]].products,
            name,
        )
}

/// The product names of the orders that are on the record `ids` and still
/// stored.
pub open spec fn ordered_names(s: State, ids: Seq<u64>) -> Set<Seq<char>> {
    Set::new(|name: Seq<char>| ordered_on_record(s, ids, name))
}

/// The number of entries of the record `ids` whose order is still stored.
pub open spec fn stored_on_record(s: State, ids: Seq<u64>) -> nat
    decreases ids.len(),
{
    if ids.len() == 0 {
        0
    } else {
        stored_on_record(s, ids.drop_last()) + if s.orders.contains_key(ids.last()) {
            1nat
        } else {
            0nat
        }
    }
}

/// Whether an order has a product line with a name in `wanted`.
pub open spec fn shares_product(order: OrderView, wanted: Set<Seq<char>>) -> bool {
    exists|j: int|
        0 <= j < order.products.len() && wanted.contains((#[trigger] order.products[j]).0)
}

/// The number of entries of the record `ids` whose order is still stored
/// and has a product line with a name in `wanted`.
pub open spec fn matches_on_record(s: State, ids: Seq<u64>, wanted: Set<Seq<char>>) -> nat
    decreases ids.len(),
{
    if ids.len() == 0 {
        0
    } else {
        matches_on_record(s, ids.drop_last(), wanted) + if s.orders.contains_key(ids.last())
            && shares_product(s.orders[ids.last()], wanted) {
            1nat
        } else {
            0nat
        }
    }
}

/// `item`, `times` times.
pub open spec fn repeated<T>(item: T, times: nat) -> Seq<T> {
    Seq::new(times, |i: int| item)
}

/// The suppliers to suggest for the product names `wanted`: each of
/// `suppliers` in turn, once for every entry of its record whose order is
/// still stored and has a product line with a name in `wanted`.
pub open spec fn suggested(
    s: State,
    suppliers: Seq<SupplierView>,
    wanted: Set<Seq<char>>,
) -> Seq<SupplierView>
    decreases suppliers.len(),
{
    if suppliers.len() == 0 {
        Seq::empty()
    } else {
        suggested(s, suppliers.drop_last(), wanted) + repeated(
            suppliers.last(),
            matches_on_record(s, suppliers.last().order_ids, wanted),
        )
    }
}

/// What `suggest_suppliers_for_client` returns.
pub open spec fn suggest_suppliers_for_client_result(s: State, client_id: u64) -> Result<
    Seq<SupplierView>,
    ErrorView,
> {
    if s.clients.contains_key(client_id) {
        found(
            suggested(
                s,
                in_key_order(s.suppliers),
                ordered_names(s, s.clients[client_id].order_ids),
            ),
            no_suggestions(client_id),
        )
    } else {
        Err(client_not_found(client_id))
    }
}

/// The product names of the orders that are on the record `ids` and still
/// stored, each once.
fn product_names_on_record(store: &SupplyChain, ids: &Vec<u64>) -> (seen: Vec<String>)
    requires
        store.wf(),
    ensures
        texts(seen@).no_duplicates(),
        forall|name: Seq<char>| #[trigger]
            texts(seen@).contains(name) <==> ordered_on_record(store@, ids@, name),
{
    let mut seen: Vec<String> = Vec::new();
    let mut i: usize = 0;
    while i < ids.len()
        invariant
            i <= ids.len(),
            store.wf(),
            texts(seen@).no_duplicates(),
            forall|name: Seq<char>| #[trigger]
                texts(seen@).contains(name) <==> ordered_on_record(
                    store@,
                    ids@.take(i as int),
                    name,
                ),
        decreases ids.len() - i,
    {
        let ghost before = ids@.take(i as int);
        let ghost after = ids@.take(i + 1);
        match _get_order(store, &ids[i]) {
            Some(order) => {
                let mut j: usize = 0;
                while j < order.products.len()
                    invariant
                        j <= order.products@.len(),
                        i < ids.len(),
                        before == ids@.take(i as int),
                        store@.orders.contains_key(ids[i as int]),
                        order@ == store@.orders[ids[i as int]],
                        texts(seen@).no_duplicates(),
                        forall|name: Seq<char>| #[trigger]
                            texts(seen@).contains(name) <==> (ordered_on_record(
                                store@,
                                before,
                                name,
                            ) || names(order.products@.take(j as int), name)),
                    decreases order.products@.len() - j,
                {
                    let name = order.products.name(j);
                    let ghost old_seen = texts(seen@);
                    let ghost lines = order.products@;
                    if !among(name, &seen) {
                        seen.push(name.clone());
                        assert(texts(seen@) =~= old_seen.push(name@));
                    }
                    proof {
                        let now_seen = texts(seen@);
                        assert forall|n: Seq<char>|
                            names(lines.take(j + 1), n) <==> (names(lines.take(j as int), n) || n
                                == name@) by {
                            if n == name@ {
                                assert(lines.take(j + 1)[j as int].0 == n);
                            }
                        }
                        assert forall|n: Seq<char>|
                            now_seen.contains(n) <==> (old_seen.contains(n) || n == name@) by {
                            if old_seen.contains(n) {
                                let k = choose|k: int| 0 <= k < old_seen.len() && old_seen[k] == n;
                                assert(now_seen[k] == n);
                            }
                            if n == name@ && !old_seen.contains(name@) {
                                assert(now_seen[now_seen.len() - 1] == n);
                            }
                        }
                    }
                    j += 1;
                }
                proof {
                    let lines = order.products@;
                    assert(lines.take(lines.len() as int) =~= lines);
                    assert forall|n: Seq<char>| #[trigger]
                        texts(seen@).contains(n) <==> ordered_on_record(store@, after, n) by {
                        if names(lines, n) {
                            assert(after[i as int] == ids[i as int]);
                        }
                    }
                }
            },
            None => {},
        }
        i += 1;
    }
    assert(ids@.take(ids.len() as int) =~= ids@);
    seen
}

/// Whether a product line has a name among `wanted`.
pub fn has_wanted(products: &Products, wanted: &Vec<String>) -> (yes: bool)
    ensures
        yes == exists|j: int|
            0 <= j < products@.len() && texts(wanted@).contains((#[trigger] products@[j]).0),
{
    let mut j: usize = 0;
    while j < products.len()
        invariant
            j <= products@.len(),
            forall|k: int| 0 <= k < j ==> !texts(wanted@).contains((#[trigger] products@[k]).0),
        decreases products@.len() - j,
    {
        if among(products.name(j), wanted) {
            return true;
        }
        j += 1;
    }
    false
}

/// The suppliers that have fulfilled a product which the client
/// `client_id` has ordered: every supplier once for each order on its
/// record that is still stored and has a product of an order on the
/// client's record.
pub fn suggest_suppliers_for_client(
    store: &SupplyChain,
    client_id: u64,
) -> (r: Result<Vec<Supplier>, Error>)
    requires
        store.wf(),
    ensures
        suppliers_outcome(r) == suggest_suppliers_for_client_result(store@, client_id),
{
    let client = match _get_client(store, &client_id) {
        Some(client) => client,
        None => {
            return Err(missing_numbered("Client with id=", client_id, " not found."));
        },
    };
    let wanted = product_names_on_record(store, &client.order_ids);
    let ghost names_wanted = ordered_names(store@, client.order_ids@);
    let suppliers = list_suppliers(store);
    let ghost all = supplier_views(suppliers@);
    let mut chosen: Vec<Supplier> = Vec::new();
    let mut i: usize = 0;
    while i < suppliers.len()
        invariant
            i <= suppliers.len(),
            store.wf(),
            all == supplier_views(suppliers@),
            forall|name: Seq<char>| #[trigger]
                texts(wanted@).contains(name) <==> names_wanted.contains(name),
            supplier_views(chosen@) == suggested(store@, all.take(i as int), names_wanted),
        decreases suppliers.len() - i,
    {
        let supplier = &suppliers[i];
        let ghost done = suggested(store@, all.take(i as int), names_wanted);
        let mut k: usize = 0;
        while k < supplier.order_ids.len()
            invariant
                k <= supplier.order_ids.len(),
                i < suppliers.len(),
                store.wf(),
                all == supplier_views(suppliers@),
                supplier@ == all[i as int],
                forall|name: Seq<char>| #[trigger]
                    texts(wanted@).contains(name) <==> names_wanted.contains(name),
                supplier_views(chosen@) == done + repeated(
                    all[i as int],
                    matches_on_record(store@, supplier.order_ids@.take(k as int), names_wanted),
                ),
            decreases supplier.order_ids.len() - k,
        {
            let ghost before = supplier_views(chosen@);
            let ghost ids = supplier.order_ids@;
            assert(ids.take(k + 1).drop_last() =~= ids.take(k as int));
            let matched = match _get_order(store, &supplier.order_ids[k]) {
                Some(order) => has_wanted(&order.products, &wanted),
                None => false,
            };
            proof {
                let id = ids[k as int];
                if store@.orders.contains_key(id) {
                    let lines = store@.orders[id].products;
                }
            }
            if matched {
                chosen.push(supplier.clone());
                assert(supplier_views(chosen@) =~= before.push(all[i as int]));
            }
            k += 1;
        }
        proof {
            assert(supplier.order_ids@.take(supplier.order_ids.len() as int)
                =~= supplier.order_ids@);
            assert(all.take(i + 1).drop_last() =~= all.take(i as int));
        }
        i += 1;
    }
    assert(all.take(suppliers.len() as int) =~= all);
    if chosen.len() > 0 {
        Ok(chosen)
    } else {
        Err(missing_numbered("No suppliers to suggest for client id:", client_id, ""))
    }
}

/// How much the client `client_id` has ordered: the orders on its record
/// that are still stored, and the different product names among their
/// lines.
pub fn analyze_client_engagement(
    store: &SupplyChain,
    client_id: u64,
) -> (r: Result<ClientEngagement, Error>)
    requires
        store.wf(),
    ensures
        match r {
            Ok(engagement) => {
                &&& store@.clients.contains_key(client_id)
                &&& engagement.total_orders == stored_on_record(
                    store@,
                    store@.clients[client_id].order_ids,
                )
                &&& engagement.distinct_products == ordered_names(
                    store@,
                    store@.clients[client_id].order_ids,
                ).len()
            },
            Err(e) => !store@.clients.contains_key(client_id) && e@ == client_not_found(client_id),
        },
{
    let client = match _get_client(store, &client_id) {
        Some(client) => client,
        None => {
            return Err(missing_numbered("Client with id=", client_id, " not found."));
        },
    };
    let ghost ids = client.order_ids@;
    let mut total: usize = 0;
    let mut i: usize = 0;
    while i < client.order_ids.len()
        invariant
            i <= client.order_ids.len(),
            store.wf(),
            ids == client.order_ids@,
            total <= i,
            total == stored_on_record(store@, ids.take(i as int)),
        decreases client.order_ids.len() - i,
    {
        assert(ids.take(i + 1).drop_last() =~= ids.take(i as int));
        if _get_order(store, &client.order_ids[i]).is_some() {
            total += 1;
        }
        i += 1;
    }
    assert(ids.take(client.order_ids.len() as int) =~= ids);
    let seen = product_names_on_record(store, &client.order_ids);
    proof {
        let listed = texts(seen@);
        listed.unique_seq_to_set();
        assert(listed.to_set() =~= ordered_names(store@, ids));
    }
    Ok(ClientEngagement { total_orders: total as u64, distinct_products: seen.len() as u64 })
}

} // verus!
