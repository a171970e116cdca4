//! The errors that the operations return, and the texts they carry.

use vstd::prelude::*;
use crate::entities::{Client, ClientView, Order, OrderView, Supplier, SupplierView};
use crate::entities::{order_views, supplier_views};
use crate::text::{numbered, numbered_text};

verus! {

/// Why an operation did not go through. Each carries a text for a human
/// reader.
#[derive(Debug, PartialEq, Eq)]
pub enum Error {
    /// An entity that was asked for or referred to does not exist, or a
    /// query found nothing.
    NotFound { msg: String },
    /// A payload did not pass validation.
    InvalidPayload { msg: String },
    /// The order to complete is complete already.
    AlreadyCompleted { msg: String },
}

/// What an `Error` holds.
pub enum ErrorView {
    NotFound { msg: Seq<char> },
    InvalidPayload { msg: Seq<char> },
    AlreadyCompleted { msg: Seq<char> },
}

impl View for Error {
    type V = ErrorView;

    open spec fn view(&self) -> ErrorView {
        match self {
            Error::NotFound { msg } => ErrorView::NotFound { msg: msg@ },
            Error::InvalidPayload { msg } => ErrorView::InvalidPayload { msg: msg@ },
            Error::AlreadyCompleted { msg } => ErrorView::AlreadyCompleted { msg: msg@ },
        }
    }
}

impl Error {
    /// The text of the error.
    pub fn message(&self) -> (msg: &String)
        ensures
            msg@ == match self@ {
                ErrorView::NotFound { msg } => msg,
                ErrorView::InvalidPayload { msg } => msg,
                ErrorView::AlreadyCompleted { msg } => msg,
            },
    {
        match self {
            Error::NotFound { msg } => msg,
            Error::InvalidPayload { msg } => msg,
            Error::AlreadyCompleted { msg } => msg,
        }
    }
}

/// What a result with a client holds.
pub open spec fn client_outcome(r: Result<Client, Error>) -> Result<ClientView, ErrorView> {
    match r {
        Ok(client) => Ok(client@),
        Err(e) => Err(e@),
    }
}

/// What a result with a supplier holds.
pub open spec fn supplier_outcome(r: Result<Supplier, Error>) -> Result<SupplierView, ErrorView> {
    match r {
        Ok(supplier) => Ok(supplier@),
        Err(e) => Err(e@),
    }
}

/// What a result with an order holds.
pub open spec fn order_outcome(r: Result<Order, Error>) -> Result<OrderView, ErrorView> {
    match r {
        Ok(order) => Ok(order@),
        Err(e) => Err(e@),
    }
}

/// What a result with a list of orders holds.
pub open spec fn orders_outcome(r: Result<Vec<Order>, Error>) -> Result<
    Seq<OrderView>,
    ErrorView,
> {
    match r {
        Ok(orders) => Ok(order_views(orders@)),
        Err(e) => Err(e@),
    }
}

/// What a result with a list of suppliers holds.
pub open spec fn suppliers_outcome(r: Result<Vec<Supplier>, Error>) -> Result<
    Seq<SupplierView>,
    ErrorView,
> {
    match r {
        Ok(suppliers) => Ok(supplier_views(suppliers@)),
        Err(e) => Err(e@),
    }
}

/// A `NotFound` with the given text.
pub open spec fn missing(msg: Seq<char>) -> ErrorView {
    ErrorView::NotFound { msg }
}

/// The client that was asked for is not stored.
pub open spec fn client_unknown(id: u64) -> ErrorView {
    missing(numbered("client id:"@, id, " does not exist"@))
}

/// The supplier that was asked for is not stored.
pub open spec fn supplier_unknown(id: u64) -> ErrorView {
    missing(numbered("supplier id:"@, id, " does not exist"@))
}

/// The order that was asked for is not stored.
pub open spec fn order_unknown(id: u64) -> ErrorView {
    missing(numbered("order id:"@, id, " does not exist"@))
}

/// The client that an operation refers to is not stored.
pub open spec fn client_not_found(id: u64) -> ErrorView {
    missing(numbered("Client with id="@, id, " not found."@))
}

/// The supplier that an operation refers to is not stored.
pub open spec fn supplier_not_found(id: u64) -> ErrorView {
    missing(numbered("Supplier with id="@, id, " not found."@))
}

/// The order to change is not stored.
pub open spec fn order_not_updatable(id: u64) -> ErrorView {
    missing(numbered("couldn't update an order with id="@, id, ". order not found"@))
}

/// The order to delete is not stored.
pub open spec fn order_not_deletable(id: u64) -> ErrorView {
    missing(numbered("Order id:"@, id, " deletion unsuccessful. Order Not found"@))
}

/// The order to complete has no supplier.
pub open spec fn no_supplier_set() -> ErrorView {
    missing("No Supplier set for this order."@)
}

/// The order to complete is complete already.
pub open spec fn already_completed() -> ErrorView {
    ErrorView::AlreadyCompleted { msg: "Order was already completed."@ }
}

/// No supplier is stored.
pub open spec fn no_suppliers() -> ErrorView {
    missing("No suppliers available."@)
}

/// No order is stored.
pub open spec fn no_orders() -> ErrorView {
    missing("No orders available."@)
}

/// No stored order is incomplete.
pub open spec fn no_incomplete_orders() -> ErrorView {
    missing("No incomplete orders available."@)
}

/// No stored order is complete.
pub open spec fn no_completed_orders() -> ErrorView {
    missing("No completed orders available."@)
}

/// No order is of a type that the supplier prefers.
pub open spec fn no_preferred_orders(supplier_id: u64) -> ErrorView {
    missing(numbered("No orders available matching supplier id:"@, supplier_id, " prefferences"@))
}

/// No order belongs to the client.
pub open spec fn no_client_orders(client_id: u64) -> ErrorView {
    missing(numbered("No orders available for client id:"@, client_id, ""@))
}

/// No order is assigned to the supplier.
pub open spec fn no_supplier_orders(supplier_id: u64) -> ErrorView {
    missing(numbered("No orders available for supplier id:"@, supplier_id, ""@))
}

/// No complete order is assigned to the supplier.
pub open spec fn no_supplier_completed_orders(supplier_id: u64) -> ErrorView {
    missing(numbered("No completed orders available for supplier id:"@, supplier_id, ""@))
}

/// No order meets the criteria.
pub open spec fn no_matching_orders() -> ErrorView {
    missing("No orders match the criteria."@)
}

/// No supplier has fulfilled a product that the client has ordered.
pub open spec fn no_suggestions(client_id: u64) -> ErrorView {
    missing(numbered("No suppliers to suggest for client id:"@, client_id, ""@))
}

/// A `NotFound` whose text is `lead`, the digits of `id`, `trail`.
pub fn missing_numbered(lead: &str, id: u64, trail: &str) -> (e: Error)
    ensures
        e@ == missing(numbered(lead@, id, trail@)),
{
    Error::NotFound { msg: numbered_text(lead, id, trail) }
}

/// A `NotFound` with the text `msg`.
pub fn missing_plain(msg: &str) -> (e: Error)
    ensures
        e@ == missing(msg@),
{
    Error::NotFound { msg: msg.to_owned() }
}

} // verus!
