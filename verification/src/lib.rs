//! Clients, suppliers and orders of a supply chain, kept in stable memory.
//!
//! Every entity is stored as one record under its numeric identifier, which
//! a single counter hands out. The operations keep the links between the
//! three stores intact: an order names a client and, once assigned, a
//! supplier, and completing an order is recorded on both of them.
//!
//! `store` holds the state and its stores, `operations` what changes and
//! looks up single entities, `queries` the lists. `model` says what each
//! operation returns and does to the state, and `laws` what follows for
//! the operations taken together. `records` and `fields` lay the entities
//! out as bytes, and `storage` is where the stable structures are called.
//!
//! A record takes at most `storage::MAX_RECORD_SIZE` bytes. An operation
//! that stores one needs it to fit, and one that creates an entity needs an
//! identifier to be left: the `may_` functions of `operations` test this,
//! and the `try_` functions call an operation only where it holds. The
//! time is given to each operation that records it.

pub mod entities;
pub mod errors;
pub mod fields;
pub mod laws;
pub mod listing;
pub mod model;
pub mod operations;
pub mod queries;
pub mod records;
pub mod storage;
pub mod store;
pub mod text;
pub mod validation;

pub use entities::{Client, ClientEngagement, ClientPayload, Order, OrderCriteria, OrderPayload};
pub use entities::{Products, Supplier, SupplierPayload};
pub use errors::Error;
pub use operations::{add_client, add_order, add_order_supplier, add_supplier, complete_order};
pub use operations::{delete_order, get_client, get_order, get_supplier, update_order};
pub use operations::{try_add_client, try_add_order, try_add_supplier, try_complete_order};
pub use operations::try_update_order;
pub use queries::{analyze_client_engagement, filter_orders_by_criteria, get_client_orders};
pub use queries::{get_completed_orders, get_incomplete_orders, get_orders, get_suppliers};
pub use queries::{get_supplier_completed_orders, get_supplier_orders};
pub use queries::{get_supplier_preferred_orders, suggest_suppliers_for_client};
pub use store::SupplyChain;
