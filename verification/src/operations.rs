//! The operations that create, change and look up clients, suppliers and
//! orders.

use vstd::prelude::*;
use crate::entities::{Client, ClientPayload, ClientView, Order, OrderPayload, OrderView};
use crate::entities::{Supplier, SupplierPayload, SupplierView};
use crate::entities::copy_texts;
use crate::errors::{Error, ErrorView, client_outcome, missing_numbered, missing_plain};
use crate::errors::{order_outcome, supplier_outcome};
use crate::fields::HEAD;
use crate::model::{add_client_result, add_client_state, can_add_client};
use crate::model::{add_order_result, add_order_state, can_add_order};
use crate::model::{add_order_supplier_result, add_order_supplier_state};
use crate::model::{add_supplier_result, add_supplier_state, can_add_supplier};
use crate::model::{can_complete_order, complete_order_result, complete_order_state};
use crate::model::{can_update_order, update_order_result, update_order_state};
use crate::model::{completion_fits, with_completion_recorded};
use crate::model::{delete_order_result, delete_order_state};
use crate::model::{get_client_result, get_order_result, get_supplier_result};
use crate::model::{new_client, new_order, new_supplier};
use crate::records::{client_len, order_len, supplier_len};
use crate::records::{encode_client, encode_order, encode_supplier};
use crate::records::{lemma_client_len, lemma_order_len, lemma_supplier_len};
use crate::storage::MAX_RECORD_SIZE;
use crate::store::{SupplyChain, next_id, peek_next_id};
use crate::store::{_get_client, _get_order, _get_supplier};
use crate::store::{_insert_client, _insert_order, _insert_supplier, remove_order};

verus! {

/// The client `id`.
pub fn get_client(store: &SupplyChain, id: u64) -> (r: Result<Client, Error>)
    requires
        store.wf(),
    ensures
        client_outcome(r) == get_client_result(store@, id),
{
    match _get_client(store, &id) {
        Some(client) => Ok(client),
        None => Err(missing_numbered("client id:", id, " does not exist")),
    }
}

/// The supplier `id`.
pub fn get_supplier(store: &SupplyChain, id: u64) -> (r: Result<Supplier, Error>)
    requires
        store.wf(),
    ensures
        supplier_outcome(r) == get_supplier_result(store@, id),
{
    match _get_supplier(store, &id) {
        Some(supplier) => Ok(supplier),
        None => Err(missing_numbered("supplier id:", id, " does not exist")),
    }
}

/// The order `id`.
pub fn get_order(store: &SupplyChain, id: u64) -> (r: Result<Order, Error>)
    requires
        store.wf(),
    ensures
        order_outcome(r) == get_order_result(store@, id),
{
    match _get_order(store, &id) {
        Some(order) => Ok(order),
        None => Err(missing_numbered("order id:", id, " does not exist")),
    }
}

/// Whether a client is stored under `client_id`.
pub fn is_client_id_valid(store: &SupplyChain, client_id: &u64) -> (valid: bool)
    requires
        store.wf(),
    ensures
        valid == store@.clients.contains_key(*client_id),
{
    let client = get_client(store, *client_id);
    if client.is_err() {
        false
    } else {
        true
    }
}

/// Whether a supplier is stored under `supplier_id`.
pub fn is_supplier_id_valid(store: &SupplyChain, supplier_id: &u64) -> (valid: bool)
    requires
        store.wf(),
    ensures
        valid == store@.suppliers.contains_key(*supplier_id),
{
    let supplier = get_supplier(store, *supplier_id);
    if supplier.is_err() {
        false
    } else {
        true
    }
}

/// Puts the completion of `order` on the record of its client and of its
/// supplier.
pub fn _update_ids(store: &mut SupplyChain, order: Order)
    requires
        old(store).wf(),
        old(store)@.clients.contains_key(order.client_id),
        order.supplier_id is Some,
        old(store)@.suppliers.contains_key(order.supplier_id.unwrap()),
        completion_fits(old(store)@, order@),
        order.id < old(store)@.next_id,
        old(store)@.orders.contains_key(order.id) ==> old(store)@.orders[order.id].is_complete,
    ensures
        final(store).wf(),
        final(store)@ == with_completion_recorded(old(store)@, order@),
{
    proof {
        store.lemma_valid();
    }
    match _get_client(store, &order.client_id) {
        Some(mut client) => {
            client.order_ids.push(order.id);
            _insert_client(store, &client);
        },
        None => {},
    }
    proof {
        store.lemma_valid();
    }
    match order.supplier_id {
        Some(supplier_id) => match _get_supplier(store, &supplier_id) {
            Some(mut supplier) => {
                supplier.order_ids.push(order.id);
                _insert_supplier(store, &supplier);
            },
            None => {},
        },
        None => {},
    }
}

/// Stores a new client made from `payload`, created at `now`.
pub fn add_client(
    store: &mut SupplyChain,
    payload: ClientPayload,
    now: u64,
) -> (r: Result<Client, Error>)
    requires
        old(store).wf(),
        can_add_client(old(store)@, payload),
    ensures
        final(store).wf(),
        client_outcome(r) == add_client_result(old(store)@, payload, now),
        final(store)@ == add_client_state(old(store)@, payload, now),
{
    match payload.validate() {
        Err(e) => {
            return Err(e);
        },
        Ok(()) => {},
    }
    proof {
        store.lemma_valid();
    }
    let id = next_id(store);
    let client = Client {
        id,
        name: payload.name,
        email: payload.email,
        phone: payload.phone,
        order_ids: Vec::new(),
        created_at: now,
        updated_at: None,
    };
    proof {
        store.lemma_valid();
    }
    _insert_client(store, &client);
    Ok(client)
}

/// Stores a new supplier made from `payload`, created at `now`.
pub fn add_supplier(
    store: &mut SupplyChain,
    payload: SupplierPayload,
    now: u64,
) -> (r: Result<Supplier, Error>)
    requires
        old(store).wf(),
        can_add_supplier(old(store)@, payload),
    ensures
        final(store).wf(),
        supplier_outcome(r) == add_supplier_result(old(store)@, payload, now),
        final(store)@ == add_supplier_state(old(store)@, payload, now),
{
    match payload.validate() {
        Err(e) => {
            return Err(e);
        },
        Ok(()) => {},
    }
    proof {
        store.lemma_valid();
    }
    let id = next_id(store);
    let supplier = Supplier {
        id,
        name: payload.name,
        email: payload.email,
        phone: payload.phone,
        preferred_items: payload.preferred_items,
        order_ids: Vec::new(),
        created_at: now,
        updated_at: None,
    };
    proof {
        store.lemma_valid();
    }
    _insert_supplier(store, &supplier);
    Ok(supplier)
}

/// Stores a new order made from `payload`, created at `now`, for a client
/// that is stored.
pub fn add_order(
    store: &mut SupplyChain,
    payload: OrderPayload,
    now: u64,
) -> (r: Result<Order, Error>)
    requires
        old(store).wf(),
        can_add_order(old(store)@, payload),
    ensures
        final(store).wf(),
        order_outcome(r) == add_order_result(old(store)@, payload, now),
        final(store)@ == add_order_state(old(store)@, payload, now),
{
    match payload.validate() {
        Err(e) => {
            return Err(e);
        },
        Ok(()) => {},
    }
    if !is_client_id_valid(store, &payload.client_id) {
        return Err(missing_numbered("Client with id=", payload.client_id, " not found."));
    }
    proof {
        store.lemma_valid();
    }
    let id = next_id(store);
    let order = Order {
        id,
        title: payload.title,
        client_id: payload.client_id,
        supplier_id: None,
        item_types: payload.item_types,
        products: payload.products,
        is_complete: false,
        created_at: now,
        updated_at: None,
    };
    proof {
        store.lemma_valid();
    }
    _insert_order(store, &order);
    Ok(order)
}

/// Assigns the supplier `supplier_id` to the order `order_id`, at `now`.
pub fn add_order_supplier(
    store: &mut SupplyChain,
    order_id: u64,
    supplier_id: u64,
    now: u64,
) -> (r: Result<Order, Error>)
    requires
        old(store).wf(),
    ensures
        final(store).wf(),
        order_outcome(r) == add_order_supplier_result(old(store)@, order_id, supplier_id, now),
        final(store)@ == add_order_supplier_state(old(store)@, order_id, supplier_id, now),
{
    match _get_order(store, &order_id) {
        Some(mut order) => {
            if !is_supplier_id_valid(store, &supplier_id) {
                return Err(missing_numbered("Supplier with id=", supplier_id, " not found."));
            }
            order.supplier_id = Some(supplier_id);
            order.updated_at = Some(now);
            proof {
                store.lemma_valid();
            }
            _insert_order(store, &order);
            Ok(order)
        },
        None => Err(
            missing_numbered("couldn't update an order with id=", order_id, ". order not found"),
        ),
    }
}

/// Marks the order `id` complete, at `now`, and puts it on the record of
/// its client and of its supplier.
pub fn complete_order(store: &mut SupplyChain, id: u64, now: u64) -> (r: Result<Order, Error>)
    requires
        old(store).wf(),
        can_complete_order(old(store)@, id),
    ensures
        final(store).wf(),
        order_outcome(r) == complete_order_result(old(store)@, id, now),
        final(store)@ == complete_order_state(old(store)@, id, now),
{
    match _get_order(store, &id) {
        Some(mut order) => {
            if order.is_complete {
                return Err(
                    Error::AlreadyCompleted { msg: "Order was already completed.".to_owned() },
                );
            }
            if !is_client_id_valid(store, &order.client_id) {
                return Err(missing_numbered("Client with id=", order.client_id, " not found."));
            }
            let supplier_id = match order.supplier_id {
                None => {
                    return Err(missing_plain("No Supplier set for this order."));
                },
                Some(supplier_id) => supplier_id,
            };
            if !is_supplier_id_valid(store, &supplier_id) {
                return Err(missing_numbered("Supplier with id=", supplier_id, " not found."));
            }
            order.is_complete = true;
            order.updated_at = Some(now);
            proof {
                store.lemma_valid();
            }
            _insert_order(store, &order);
            _update_ids(store, order.clone());
            Ok(order)
        },
        None => Err(missing_numbered("couldn't update an order with id=", id, ". order not found")),
    }
}

/// Replaces the title, client, supplier, item types and products of the
/// order `id` by those of `payload`, at `now`.
pub fn update_order(
    store: &mut SupplyChain,
    id: u64,
    payload: OrderPayload,
    now: u64,
) -> (r: Result<Order, Error>)
    requires
        old(store).wf(),
        can_update_order(old(store)@, id, payload),
    ensures
        final(store).wf(),
        order_outcome(r) == update_order_result(old(store)@, id, payload, now),
        final(store)@ == update_order_state(old(store)@, id, payload, now),
{
    let order = match _get_order(store, &id) {
        Some(order) => order,
        None => {
            return Err(
                missing_numbered("couldn't update an order with id=", id, ". order not found"),
            );
        },
    };
    match payload.validate() {
        Err(e) => {
            return Err(e);
        },
        Ok(()) => {},
    }
    if !is_client_id_valid(store, &payload.client_id) {
        return Err(missing_numbered("Client with id=", payload.client_id, " not found."));
    }
    if !is_supplier_id_valid(store, &payload.supplier_id) {
        return Err(missing_numbered("Supplier with id=", payload.supplier_id, " not found."));
    }
    let updated_order = Order {
        id: order.id,
        title: payload.title,
        client_id: payload.client_id,
        supplier_id: Some(payload.supplier_id),
        item_types: payload.item_types,
        products: payload.products,
        is_complete: order.is_complete,
        created_at: order.created_at,
        updated_at: Some(now),
    };
    proof {
        store.lemma_valid();
    }
    _insert_order(store, &updated_order);
    Ok(updated_order)
}

/// Takes the order `id` out of the store and returns it.
pub fn delete_order(store: &mut SupplyChain, id: u64) -> (r: Result<Order, Error>)
    requires
        old(store).wf(),
    ensures
        final(store).wf(),
        order_outcome(r) == delete_order_result(old(store)@, id),
        final(store)@ == delete_order_state(old(store)@, id),
{
    match remove_order(store, id) {
        Some(order) => Ok(order),
        None => Err(missing_numbered("Order id:", id, " deletion unsuccessful. Order Not found")),
    }
}

/// Whether the record of a client made from `payload` fits.
pub fn client_fits(payload: &ClientPayload) -> (ok: bool)
    ensures
        ok == (client_len(new_client(0, *payload, 0)) <= MAX_RECORD_SIZE),
{
    let probe = Client {
        id: 0,
        name: payload.name.clone(),
        email: payload.email.clone(),
        phone: payload.phone.clone(),
        order_ids: Vec::new(),
        created_at: 0,
        updated_at: None,
    };
    proof {
        lemma_client_len(probe@);
    }
    encode_client(&probe).len() <= MAX_RECORD_SIZE
}

/// Whether the record of a supplier made from `payload` fits.
pub fn supplier_fits(payload: &SupplierPayload) -> (ok: bool)
    ensures
        ok == (supplier_len(new_supplier(0, *payload, 0)) <= MAX_RECORD_SIZE),
{
    let probe = Supplier {
        id: 0,
        name: payload.name.clone(),
        email: payload.email.clone(),
        phone: payload.phone.clone(),
        preferred_items: copy_texts(&payload.preferred_items),
        order_ids: Vec::new(),
        created_at: 0,
        updated_at: None,
    };
    proof {
        lemma_supplier_len(probe@);
    }
    encode_supplier(&probe).len() <= MAX_RECORD_SIZE
}

/// Whether the record of an order made from `payload` fits.
pub fn order_fits(payload: &OrderPayload) -> (ok: bool)
    ensures
        ok == (order_len(new_order(0, *payload, 0)) <= MAX_RECORD_SIZE),
{
    let probe = Order {
        id: 0,
        title: payload.title.clone(),
        client_id: payload.client_id,
        supplier_id: None,
        item_types: copy_texts(&payload.item_types),
        products: payload.products.clone(),
        is_complete: false,
        created_at: 0,
        updated_at: None,
    };
    proof {
        lemma_order_len(probe@);
    }
    encode_order(&probe).len() <= MAX_RECORD_SIZE
}

/// Whether `add_client` may be called with `payload`.
pub fn may_add_client(store: &SupplyChain, payload: &ClientPayload) -> (ok: bool)
    ensures
        ok == can_add_client(store@, *payload),
{
    payload.validate().is_err() || (peek_next_id(store) < u64::MAX && client_fits(payload))
}

/// Whether `add_supplier` may be called with `payload`.
pub fn may_add_supplier(store: &SupplyChain, payload: &SupplierPayload) -> (ok: bool)
    ensures
        ok == can_add_supplier(store@, *payload),
{
    payload.validate().is_err() || (peek_next_id(store) < u64::MAX && supplier_fits(payload))
}

/// Whether `add_order` may be called with `payload`.
pub fn may_add_order(store: &SupplyChain, payload: &OrderPayload) -> (ok: bool)
    requires
        store.wf(),
    ensures
        ok == can_add_order(store@, *payload),
{
    payload.validate().is_err() || !is_client_id_valid(store, &payload.client_id) || (
    peek_next_id(store) < u64::MAX && order_fits(payload))
}

/// Whether `update_order` may be called for the order `id` with `payload`.
pub fn may_update_order(store: &SupplyChain, id: u64, payload: &OrderPayload) -> (ok: bool)
    requires
        store.wf(),
    ensures
        ok == can_update_order(store@, id, *payload),
{
    _get_order(store, &id).is_none() || payload.validate().is_err() || !is_client_id_valid(
        store,
        &payload.client_id,
    ) || !is_supplier_id_valid(store, &payload.supplier_id) || order_fits(payload)
}

/// Whether `complete_order` may be called for the order `id`.
pub fn may_complete_order(store: &SupplyChain, id: u64) -> (ok: bool)
    requires
        store.wf(),
    ensures
        ok == can_complete_order(store@, id),
{
    let order = match _get_order(store, &id) {
        Some(order) => order,
        None => {
            return true;
        },
    };
    if order.is_complete {
        return true;
    }
    let client = match _get_client(store, &order.client_id) {
        Some(client) => client,
        None => {
            return true;
        },
    };
    let supplier_id = match order.supplier_id {
        Some(supplier_id) => supplier_id,
        None => {
            return true;
        },
    };
    let supplier = match _get_supplier(store, &supplier_id) {
        Some(supplier) => supplier,
        None => {
            return true;
        },
    };
    proof {
        lemma_client_len(client@);
        lemma_supplier_len(supplier@);
    }
    encode_client(&client).len() <= MAX_RECORD_SIZE - HEAD && encode_supplier(&supplier).len()
        <= MAX_RECORD_SIZE - HEAD
}


/// What a result with a client holds, where there is a result.
pub open spec fn tried_client(r: Option<Result<Client, Error>>) -> Option<
    Result<ClientView, ErrorView>,
> {
    match r {
        Some(r) => Some(client_outcome(r)),
        None => None,
    }
}

/// What a result with a supplier holds, where there is a result.
pub open spec fn tried_supplier(r: Option<Result<Supplier, Error>>) -> Option<
    Result<SupplierView, ErrorView>,
> {
    match r {
        Some(r) => Some(supplier_outcome(r)),
        None => None,
    }
}

/// What a result with an order holds, where there is a result.
pub open spec fn tried_order(r: Option<Result<Order, Error>>) -> Option<
    Result<OrderView, ErrorView>,
> {
    match r {
        Some(r) => Some(order_outcome(r)),
        None => None,
    }
}

/// `add_client` where it may be called; else nothing, and nothing changes.
pub fn try_add_client(
    store: &mut SupplyChain,
    payload: ClientPayload,
    now: u64,
) -> (r: Option<Result<Client, Error>>)
    requires
        old(store).wf(),
    ensures
        final(store).wf(),
        tried_client(r) == if can_add_client(old(store)@, payload) {
            Some(add_client_result(old(store)@, payload, now))
        } else {
            None
        },
        final(store)@ == if can_add_client(old(store)@, payload) {
            add_client_state(old(store)@, payload, now)
        } else {
            old(store)@
        },
{
    if may_add_client(store, &payload) {
        Some(add_client(store, payload, now))
    } else {
        None
    }
}

/// `add_supplier` where it may be called; else nothing, and nothing
/// changes.
pub fn try_add_supplier(
    store: &mut SupplyChain,
    payload: SupplierPayload,
    now: u64,
) -> (r: Option<Result<Supplier, Error>>)
    requires
        old(store).wf(),
    ensures
        final(store).wf(),
        tried_supplier(r) == if can_add_supplier(old(store)@, payload) {
            Some(add_supplier_result(old(store)@, payload, now))
        } else {
            None
        },
        final(store)@ == if can_add_supplier(old(store)@, payload) {
            add_supplier_state(old(store)@, payload, now)
        } else {
            old(store)@
        },
{
    if may_add_supplier(store, &payload) {
        Some(add_supplier(store, payload, now))
    } else {
        None
    }
}

/// `add_order` where it may be called; else nothing, and nothing changes.
pub fn try_add_order(
    store: &mut SupplyChain,
    payload: OrderPayload,
    now: u64,
) -> (r: Option<Result<Order, Error>>)
    requires
        old(store).wf(),
    ensures
        final(store).wf(),
        tried_order(r) == if can_add_order(old(store)@, payload) {
            Some(add_order_result(old(store)@, payload, now))
        } else {
            None
        },
        final(store)@ == if can_add_order(old(store)@, payload) {
            add_order_state(old(store)@, payload, now)
        } else {
            old(store)@
        },
{
    if may_add_order(store, &payload) {
        Some(add_order(store, payload, now))
    } else {
        None
    }
}

/// `update_order` where it may be called; else nothing, and nothing
/// changes.
pub fn try_update_order(
    store: &mut SupplyChain,
    id: u64,
    payload: OrderPayload,
    now: u64,
) -> (r: Option<Result<Order, Error>>)
    requires
        old(store).wf(),
    ensures
        final(store).wf(),
        tried_order(r) == if can_update_order(old(store)@, id, payload) {
            Some(update_order_result(old(store)@, id, payload, now))
        } else {
            None
        },
        final(store)@ == if can_update_order(old(store)@, id, payload) {
            update_order_state(old(store)@, id, payload, now)
        } else {
            old(store)@
        },
{
    if may_update_order(store, id, &payload) {
        Some(update_order(store, id, payload, now))
    } else {
        None
    }
}

/// `complete_order` where it may be called; else nothing, and nothing
/// changes.
pub fn try_complete_order(
    store: &mut SupplyChain,
    id: u64,
    now: u64,
) -> (r: Option<Result<Order, Error>>)
    requires
        old(store).wf(),
    ensures
        final(store).wf(),
        tried_order(r) == if can_complete_order(old(store)@, id) {
            Some(complete_order_result(old(store)@, id, now))
        } else {
            None
        },
        final(store)@ == if can_complete_order(old(store)@, id) {
            complete_order_state(old(store)@, id, now)
        } else {
            old(store)@
        },
{
    if may_complete_order(store, id) {
        Some(complete_order(store, id, now))
    } else {
        None
    }
}

} // verus!
