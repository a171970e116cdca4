//! What each operation returns and how it changes the state, as
//! mathematics over `State`.

use vstd::prelude::*;
use crate::entities::{ClientPayload, ClientView, OrderPayload, OrderView};
use crate::entities::{SupplierPayload, SupplierView, texts};
use crate::errors::{ErrorView, already_completed, client_not_found, client_unknown};
use crate::errors::{no_supplier_set, order_not_deletable, order_not_updatable, order_unknown};
use crate::errors::{supplier_not_found, supplier_unknown};
use crate::fields::HEAD;
use crate::records::{client_len, order_len, supplier_len};
use crate::storage::MAX_RECORD_SIZE;
use crate::store::State;

verus! {

/// The client made from a payload.
pub open spec fn new_client(id: u64, payload: ClientPayload, now: u64) -> ClientView {
    ClientView {
        id,
        name: payload.name@,
        email: payload.email@,
        phone: payload.phone@,
        order_ids: Seq::empty(),
        created_at: now,
        updated_at: None,
    }
}

/// The supplier made from a payload.
pub open spec fn new_supplier(id: u64, payload: SupplierPayload, now: u64) -> SupplierView {
    SupplierView {
        id,
        name: payload.name@,
        email: payload.email@,
        phone: payload.phone@,
        preferred_items: texts(payload.preferred_items@),
        order_ids: Seq::empty(),
        created_at: now,
        updated_at: None,
    }
}

/// The order made from a payload: without a supplier, and not complete.
pub open spec fn new_order(id: u64, payload: OrderPayload, now: u64) -> OrderView {
    OrderView {
        id,
        title: payload.title@,
        client_id: payload.client_id,
        supplier_id: None,
        item_types: texts(payload.item_types@),
        products: payload.products@,
        is_complete: false,
        created_at: now,
        updated_at: None,
    }
}

/// The order `old` after an update with a payload: the payload's title,
/// client, supplier, item types and products, with `old`'s identifier,
/// creation time and completion flag.
pub open spec fn updated_order(old: OrderView, payload: OrderPayload, now: u64) -> OrderView {
    OrderView {
        id: old.id,
        title: payload.title@,
        client_id: payload.client_id,
        supplier_id: Some(payload.supplier_id),
        item_types: texts(payload.item_types@),
        products: payload.products@,
        is_complete: old.is_complete,
        created_at: old.created_at,
        updated_at: Some(now),
    }
}

/// What `get_client` returns.
pub open spec fn get_client_result(s: State, id: u64) -> Result<ClientView, ErrorView> {
    if s.clients.contains_key(id) {
        Ok(s.clients[id])
    } else {
        Err(client_unknown(id))
    }
}

/// What `get_supplier` returns.
pub open spec fn get_supplier_result(s: State, id: u64) -> Result<SupplierView, ErrorView> {
    if s.suppliers.contains_key(id) {
        Ok(s.suppliers[id])
    } else {
        Err(supplier_unknown(id))
    }
}

/// What `get_order` returns.
pub open spec fn get_order_result(s: State, id: u64) -> Result<OrderView, ErrorView> {
    if s.orders.contains_key(id) {
        Ok(s.orders[id])
    } else {
        Err(order_unknown(id))
    }
}

/// What `add_client` returns.
pub open spec fn add_client_result(s: State, payload: ClientPayload, now: u64) -> Result<
    ClientView,
    ErrorView,
> {
    match payload.problems() {
        Some(msg) => Err(ErrorView::InvalidPayload { msg }),
        None => Ok(new_client(s.next_id, payload, now)),
    }
}

/// The state after `add_client`.
pub open spec fn add_client_state(s: State, payload: ClientPayload, now: u64) -> State {
    match add_client_result(s, payload, now) {
        Ok(client) => s.advanced().with_client(client),
        Err(_) => s,
    }
}

/// What `add_client` needs: where it stores a client, an identifier is
/// left to hand out and the client's record fits.
pub open spec fn can_add_client(s: State, payload: ClientPayload) -> bool {
    payload.problems() is None ==> s.next_id < u64::MAX && client_len(new_client(0, payload, 0))
        <= MAX_RECORD_SIZE
}

/// What `add_supplier` returns.
pub open spec fn add_supplier_result(s: State, payload: SupplierPayload, now: u64) -> Result<
    SupplierView,
    ErrorView,
> {
    match payload.problems() {
        Some(msg) => Err(ErrorView::InvalidPayload { msg }),
        None => Ok(new_supplier(s.next_id, payload, now)),
    }
}

/// The state after `add_supplier`.
pub open spec fn add_supplier_state(s: State, payload: SupplierPayload, now: u64) -> State {
    match add_supplier_result(s, payload, now) {
        Ok(supplier) => s.advanced().with_supplier(supplier),
        Err(_) => s,
    }
}

/// What `add_supplier` needs: where it stores a supplier, an identifier is
/// left to hand out and the supplier's record fits.
pub open spec fn can_add_supplier(s: State, payload: SupplierPayload) -> bool {
    payload.problems() is None ==> s.next_id < u64::MAX && supplier_len(
        new_supplier(0, payload, 0),
    ) <= MAX_RECORD_SIZE
}

/// What `add_order` returns.
pub open spec fn add_order_result(s: State, payload: OrderPayload, now: u64) -> Result<
    OrderView,
    ErrorView,
> {
    match payload.problems() {
        Some(msg) => Err(ErrorView::InvalidPayload { msg }),
        None => if s.clients.contains_key(payload.client_id) {
            Ok(new_order(s.next_id, payload, now))
        } else {
            Err(client_not_found(payload.client_id))
        },
    }
}

/// The state after `add_order`.
pub open spec fn add_order_state(s: State, payload: OrderPayload, now: u64) -> State {
    match add_order_result(s, payload, now) {
        Ok(order) => s.advanced().with_order(order),
        Err(_) => s,
    }
}

/// What `add_order` needs: where it stores an order, an identifier is left
/// to hand out and the order's record fits.
pub open spec fn can_add_order(s: State, payload: OrderPayload) -> bool {
    add_order_result(s, payload, 0) is Ok ==> s.next_id < u64::MAX && order_len(
        new_order(0, payload, 0),
    ) <= MAX_RECORD_SIZE
}

/// What `add_order_supplier` returns.
pub open spec fn add_order_supplier_result(
    s: State,
    order_id: u64,
    supplier_id: u64,
    now: u64,
) -> Result<OrderView, ErrorView> {
    if !s.orders.contains_key(order_id) {
        Err(order_not_updatable(order_id))
    } else if !s.suppliers.contains_key(supplier_id) {
        Err(supplier_not_found(supplier_id))
    } else {
        Ok(
            OrderView {
                supplier_id: Some(supplier_id),
                updated_at: Some(now),
                ..s.orders[order_id]
            },
        )
    }
}

/// The state after `add_order_supplier`.
pub open spec fn add_order_supplier_state(
    s: State,
    order_id: u64,
    supplier_id: u64,
    now: u64,
) -> State {
    match add_order_supplier_result(s, order_id, supplier_id, now) {
        Ok(order) => State { orders: s.orders.insert(order_id, order), ..s },
        Err(_) => s,
    }
}

/// What `update_order` returns.
pub open spec fn update_order_result(s: State, id: u64, payload: OrderPayload, now: u64) -> Result<
    OrderView,
    ErrorView,
> {
    if !s.orders.contains_key(id) {
        Err(order_not_updatable(id))
    } else {
        match payload.problems() {
            Some(msg) => Err(ErrorView::InvalidPayload { msg }),
            None => if !s.clients.contains_key(payload.client_id) {
                Err(client_not_found(payload.client_id))
            } else if !s.suppliers.contains_key(payload.supplier_id) {
                Err(supplier_not_found(payload.supplier_id))
            } else {
                Ok(updated_order(s.orders[id], payload, now))
            },
        }
    }
}

/// The state after `update_order`.
pub open spec fn update_order_state(s: State, id: u64, payload: OrderPayload, now: u64) -> State {
    match update_order_result(s, id, payload, now) {
        Ok(order) => State { orders: s.orders.insert(id, order), ..s },
        Err(_) => s,
    }
}

/// What `update_order` needs: where it stores the order, the order's new
/// record fits.
pub open spec fn can_update_order(s: State, id: u64, payload: OrderPayload) -> bool {
    update_order_result(s, id, payload, 0) is Ok ==> order_len(new_order(0, payload, 0))
        <= MAX_RECORD_SIZE
}

/// What `complete_order` returns.
pub open spec fn complete_order_result(s: State, id: u64, now: u64) -> Result<
    OrderView,
    ErrorView,
> {
    if !s.orders.contains_key(id) {
        Err(order_not_updatable(id))
    } else if s.orders[id].is_complete {
        Err(already_completed())
    } else if !s.clients.contains_key(s.orders[id].client_id) {
        Err(client_not_found(s.orders[id].client_id))
    } else {
        match s.orders[id].supplier_id {
            None => Err(no_supplier_set()),
            Some(supplier_id) => if !s.suppliers.contains_key(supplier_id) {
                Err(supplier_not_found(supplier_id))
            } else {
                Ok(OrderView { is_complete: true, updated_at: Some(now), ..s.orders[id] })
            },
        }
    }
}

/// The state after the completion of `order` was put on the record of its
/// client and of its supplier.
pub open spec fn with_completion_recorded(s: State, order: OrderView) -> State {
    State {
        clients: s.clients.insert(
            order.client_id,
            s.clients[order.client_id].with_order(order.id),
        ),
        suppliers: s.suppliers.insert(
            order.supplier_id.unwrap(),
            s.suppliers[order.supplier_id.unwrap()].with_order(order.id),
        ),
        ..s
    }
}

/// The state after `complete_order`.
pub open spec fn complete_order_state(s: State, id: u64, now: u64) -> State {
    match complete_order_result(s, id, now) {
        Ok(order) => with_completion_recorded(
            State { orders: s.orders.insert(id, order), ..s },
            order,
        ),
        Err(_) => s,
    }
}

/// Whether one more order fits on the record of the order's client and of
/// its supplier.
pub open spec fn completion_fits(s: State, order: OrderView) -> bool {
    &&& client_len(s.clients[order.client_id]) + HEAD <= MAX_RECORD_SIZE
    &&& supplier_len(s.suppliers[order.supplier_id.unwrap()]) + HEAD <= MAX_RECORD_SIZE
}

/// What `complete_order` needs: where it completes the order, one more
/// order fits on the record of the order's client and of its supplier.
pub open spec fn can_complete_order(s: State, id: u64) -> bool {
    complete_order_result(s, id, 0) is Ok ==> completion_fits(s, s.orders[id])
}

/// What `delete_order` returns.
pub open spec fn delete_order_result(s: State, id: u64) -> Result<OrderView, ErrorView> {
    if s.orders.contains_key(id) {
        Ok(s.orders[id])
    } else {
        Err(order_not_deletable(id))
    }
}

/// The state after `delete_order`.
pub open spec fn delete_order_state(s: State, id: u64) -> State {
    s.without_order(id)
}

} // verus!
