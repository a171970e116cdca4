//! The supply chain's state and the stores that hold it.

use vstd::prelude::*;
use crate::entities::{Client, ClientView, Order, OrderView, Supplier, SupplierView};
use crate::entities::{order_views, supplier_views};
use crate::listing::{in_key_order, lemma_listed_in_key_order, lists};
use crate::records::{bytes_client, bytes_order, bytes_supplier};
use crate::records::{client_len, order_len, supplier_len};
use crate::records::{decode_client, decode_order, decode_supplier};
use crate::records::{encode_client, encode_order, encode_supplier};
use crate::records::{lemma_client_canonical, lemma_order_canonical, lemma_supplier_canonical};
use crate::records::{lemma_client_len, lemma_order_len, lemma_supplier_len};
use crate::records::{lemma_client_round_trip, lemma_order_round_trip, lemma_supplier_round_trip};
use crate::storage::{MAX_RECORD_SIZE, Stores, counter_value, records};
use crate::storage::{counter_get, counter_set, create_stores, load_stores};
use crate::storage::{lists_records, map_entries, map_get, map_insert, map_remove};

verus! {

/// What a supply chain holds: the identifier to hand out next, and the
/// stored clients, suppliers and orders by identifier.
pub struct State {
    pub next_id: u64,
    pub clients: Map<u64, ClientView>,
    pub suppliers: Map<u64, SupplierView>,
    pub orders: Map<u64, OrderView>,
}

impl State {
    /// The state of a supply chain that has stored nothing yet.
    pub open spec fn empty() -> State {
        State {
            next_id: FIRST_ID,
            clients: Map::empty(),
            suppliers: Map::empty(),
            orders: Map::empty(),
        }
    }

    /// Whether an entity of any kind is stored under `id`.
    pub open spec fn uses(self, id: u64) -> bool {
        self.clients.contains_key(id) || self.suppliers.contains_key(id)
            || self.orders.contains_key(id)
    }

    /// Every entry of a record of completed orders is an identifier that
    /// was handed out before, and the order under it, where one is still
    /// stored, is complete.
    pub open spec fn record_sound(self, order_ids: Seq<u64>) -> bool {
        forall|k: int|
            0 <= k < order_ids.len() ==> (#[trigger] order_ids[k]) < self.next_id && (
            self.orders.contains_key(order_ids[k]) ==> self.orders[order_ids[k]].is_complete)
    }

    /// Every client is stored under its own identifier, which was handed
    /// out before and belongs to no supplier and no order; its record fits,
    /// and its record of completed orders is sound.
    pub open spec fn clients_valid(self) -> bool {
        forall|id: u64| #[trigger]
            self.clients.contains_key(id) ==> {
                &&& id < self.next_id
                &&& self.clients[id].id == id
                &&& client_len(self.clients[id]) <= MAX_RECORD_SIZE
                &&& !self.suppliers.contains_key(id)
                &&& !self.orders.contains_key(id)
                &&& self.record_sound(self.clients[id].order_ids)
            }
    }

    /// Every supplier is stored under its own identifier, which was handed
    /// out before and belongs to no order; its record fits, and its record
    /// of completed orders is sound.
    pub open spec fn suppliers_valid(self) -> bool {
        forall|id: u64| #[trigger]
            self.suppliers.contains_key(id) ==> {
                &&& id < self.next_id
                &&& self.suppliers[id].id == id
                &&& supplier_len(self.suppliers[id]) <= MAX_RECORD_SIZE
                &&& !self.orders.contains_key(id)
                &&& self.record_sound(self.suppliers[id].order_ids)
            }
    }

    /// Every order is stored under its own identifier, which was handed out
    /// before, and its record fits.
    pub open spec fn orders_valid(self) -> bool {
        forall|id: u64| #[trigger]
            self.orders.contains_key(id) ==> {
                &&& id < self.next_id
                &&& self.orders[id].id == id
                &&& order_len(self.orders[id]) <= MAX_RECORD_SIZE
            }
    }

    /// Every entity is stored under its own identifier, which was handed
    /// out before and belongs to no entity of another kind; its record
    /// fits; and an order on the record of a client or of a supplier is
    /// complete or no longer stored.
    pub open spec fn valid(self) -> bool {
        self.clients_valid() && self.suppliers_valid() && self.orders_valid()
    }

    /// The state with `client` stored under its identifier.
    pub open spec fn with_client(self, client: ClientView) -> State {
        State { clients: self.clients.insert(client.id, client), ..self }
    }

    /// The state with `supplier` stored under its identifier.
    pub open spec fn with_supplier(self, supplier: SupplierView) -> State {
        State { suppliers: self.suppliers.insert(supplier.id, supplier), ..self }
    }

    /// The state with `order` stored under its identifier.
    pub open spec fn with_order(self, order: OrderView) -> State {
        State { orders: self.orders.insert(order.id, order), ..self }
    }

    /// The state without the order `id`.
    pub open spec fn without_order(self, id: u64) -> State {
        State { orders: self.orders.remove(id), ..self }
    }

    /// The state after one more identifier was handed out.
    pub open spec fn advanced(self) -> State {
        State { next_id: (self.next_id + 1) as u64, ..self }
    }
}

/// The identifier that is handed out first.
pub const FIRST_ID: u64 = 0;

/// The memory slot of the identifier counter.
pub const COUNTER_SLOT: u8 = 0;

/// The memory slot of the clients.
pub const CLIENT_SLOT: u8 = 1;

/// The memory slot of the suppliers.
pub const SUPPLIER_SLOT: u8 = 2;

/// The memory slot of the orders.
pub const ORDER_SLOT: u8 = 3;

/// Every record is the record of a client.
pub open spec fn hold_clients(raw: Map<u64, Seq<u8>>) -> bool {
    forall|id: u64| #[trigger]
        raw.contains_key(id) ==> bytes_client(raw[id]) is Some
}

/// Every record is the record of a supplier.
pub open spec fn hold_suppliers(raw: Map<u64, Seq<u8>>) -> bool {
    forall|id: u64| #[trigger]
        raw.contains_key(id) ==> bytes_supplier(raw[id]) is Some
}

/// Every record is the record of an order.
pub open spec fn hold_orders(raw: Map<u64, Seq<u8>>) -> bool {
    forall|id: u64| #[trigger]
        raw.contains_key(id) ==> bytes_order(raw[id]) is Some
}

/// The clients that the records hold.
pub open spec fn clients_of(raw: Map<u64, Seq<u8>>) -> Map<u64, ClientView> {
    Map::new(|id: u64| raw.contains_key(id), |id: u64| bytes_client(raw[id]).unwrap())
}

/// The suppliers that the records hold.
pub open spec fn suppliers_of(raw: Map<u64, Seq<u8>>) -> Map<u64, SupplierView> {
    Map::new(|id: u64| raw.contains_key(id), |id: u64| bytes_supplier(raw[id]).unwrap())
}

/// The orders that the records hold.
pub open spec fn orders_of(raw: Map<u64, Seq<u8>>) -> Map<u64, OrderView> {
    Map::new(|id: u64| raw.contains_key(id), |id: u64| bytes_order(raw[id]).unwrap())
}

/// The state that a counter's value and three maps' records stand for.
pub open spec fn state_of(
    next_id: u64,
    clients: Map<u64, Seq<u8>>,
    suppliers: Map<u64, Seq<u8>>,
    orders: Map<u64, Seq<u8>>,
) -> State {
    State {
        next_id,
        clients: clients_of(clients),
        suppliers: suppliers_of(suppliers),
        orders: orders_of(orders),
    }
}

/// Whether a counter's value and three maps' records stand for a valid
/// state.
pub open spec fn well_formed(
    next_id: u64,
    clients: Map<u64, Seq<u8>>,
    suppliers: Map<u64, Seq<u8>>,
    orders: Map<u64, Seq<u8>>,
) -> bool {
    &&& hold_clients(clients)
    &&& hold_suppliers(suppliers)
    &&& hold_orders(orders)
    &&& state_of(next_id, clients, suppliers, orders).valid()
}

/// A supply chain: the identifier counter and the three stores.
pub struct SupplyChain {
    stores: Stores,
}

impl View for SupplyChain {
    type V = State;

    closed spec fn view(&self) -> State {
        state_of(
            counter_value(self.stores.counter),
            records(self.stores.clients),
            records(self.stores.suppliers),
            records(self.stores.orders),
        )
    }
}

impl SupplyChain {
    /// The stores hold a valid state. `new` and `open` give a supply chain
    /// of which this holds; every operation needs it of the supply chain it
    /// is given and leaves it so.
    pub closed spec fn wf(&self) -> bool {
        well_formed(
            counter_value(self.stores.counter),
            records(self.stores.clients),
            records(self.stores.suppliers),
            records(self.stores.orders),
        )
    }

    /// The state of a well-formed supply chain is valid.
    pub proof fn lemma_valid(&self)
        requires
            self.wf(),
        ensures
            self@.valid(),
    {
    }

    /// A supply chain that holds nothing, in stores that are made anew.
    pub fn new() -> (store: SupplyChain)
        ensures
            store.wf(),
            store@ == State::empty(),
    {
        let stores = create_stores(COUNTER_SLOT, CLIENT_SLOT, SUPPLIER_SLOT, ORDER_SLOT, FIRST_ID);
        let store = SupplyChain { stores };
        proof {
            assert(store@.clients =~= Map::<u64, ClientView>::empty());
            assert(store@.suppliers =~= Map::<u64, SupplierView>::empty());
            assert(store@.orders =~= Map::<u64, OrderView>::empty());
        }
        store
    }

    /// Whether the stores hold a valid state: reads every record and holds
    /// it against the rules.
    pub fn is_sound(&self) -> (ok: bool)
        ensures
            ok == self.wf(),
    {
        let next = counter_get(&self.stores.counter);
        orders_sound(&self.stores, next) && suppliers_sound(&self.stores, next) && clients_sound(
            &self.stores,
            next,
        )
    }

    /// The supply chain that stable memory holds, as `adopt` takes it up:
    /// nothing where what the stores hold is not a valid state.
    pub fn open() -> (store: Option<SupplyChain>)
        ensures
            store matches Some(s) ==> s.wf(),
    {
        SupplyChain::adopt(
            load_stores(COUNTER_SLOT, CLIENT_SLOT, SUPPLIER_SLOT, ORDER_SLOT, FIRST_ID),
        )
    }

    /// The supply chain in the given stores: one that holds the state they
    /// stand for, where that state is valid, and nothing where it is not.
    pub fn adopt(stores: Stores) -> (store: Option<SupplyChain>)
        ensures
            match store {
                Some(s) => sound(stores) && s.wf() && s@ == stored(stores),
                None => !sound(stores),
            },
    {
        let store = SupplyChain { stores };
        if store.is_sound() {
            Some(store)
        } else {
            None
        }
    }
}

/// The state that the stores stand for.
pub closed spec fn stored(stores: Stores) -> State {
    state_of(
        counter_value(stores.counter),
        records(stores.clients),
        records(stores.suppliers),
        records(stores.orders),
    )
}

/// Whether every record in the stores is a record of its kind, and the
/// state that the stores stand for is valid.
pub closed spec fn sound(stores: Stores) -> bool {
    well_formed(
        counter_value(stores.counter),
        records(stores.clients),
        records(stores.suppliers),
        records(stores.orders),
    )
}

fn record_is_sound(stores: &Stores, next: u64, order_ids: &Vec<u64>) -> (ok: bool)
    requires
        next == counter_value(stores.counter),
        hold_orders(records(stores.orders)),
    ensures
        ok == stored(*stores).record_sound(order_ids@),
{
    let ghost state = stored(*stores);
    let mut k: usize = 0;
    while k < order_ids.len()
        invariant
            k <= order_ids.len(),
            state == stored(*stores),
            next == counter_value(stores.counter),
            hold_orders(records(stores.orders)),
            forall|j: int|
                0 <= j < k ==> (#[trigger] order_ids[j]) < state.next_id && (
                state.orders.contains_key(order_ids[j]) ==> state.orders[order_ids[j]].is_complete),
        decreases order_ids.len() - k,
    {
        let id = order_ids[k];
        let sound = id < next && match map_get(&stores.orders, id) {
            Some(bytes) => match decode_order(bytes.as_slice()) {
                Some(order) => order.is_complete,
                None => false,
            },
            None => true,
        };
        if !sound {
            return false;
        }
        k += 1;
    }
    true
}

fn clients_sound(stores: &Stores, next: u64) -> (ok: bool)
    requires
        next == counter_value(stores.counter),
        hold_orders(records(stores.orders)),
    ensures
        ok == (hold_clients(records(stores.clients)) && stored(*stores).clients_valid()),
{
    let ghost raw = records(stores.clients);
    let ghost state = stored(*stores);
    let entries = map_entries(&stores.clients);
    let mut i: usize = 0;
    while i < entries.len()
        invariant
            i <= entries.len(),
            raw == records(stores.clients),
            state == stored(*stores),
            next == counter_value(stores.counter),
            lists_records(entries@, raw),
            forall|k: int|
                0 <= k < i ==> {
                    let id = (#[trigger] entries[k]).0;
                    &&& bytes_client(raw[id]) is Some
                    &&& id < state.next_id
                    &&& state.clients[id].id == id
                    &&& client_len(state.clients[id]) <= MAX_RECORD_SIZE
                    &&& !state.suppliers.contains_key(id)
                    &&& !state.orders.contains_key(id)
                    &&& state.record_sound(state.clients[id].order_ids)
                },
            hold_orders(records(stores.orders)),
        decreases entries.len() - i,
    {
        let id = entries[i].0;
        assert(state.clients.contains_key(id));
        let sound = match decode_client(entries[i].1.as_slice()) {
            Some(client) => {
                proof {
                    lemma_client_canonical(entries[i as int].1@);
                    lemma_client_len(client@);
                }
                entries[i].1.len() <= MAX_RECORD_SIZE
                    && client.id == id && id < next && map_get(&stores.suppliers, id).is_none()
                    && map_get(&stores.orders, id).is_none() && record_is_sound(
                    stores,
                    next,
                    &client.order_ids,
                )
            },
            None => false,
        };
        if !sound {
            return false;
        }
        i += 1;
    }
    true
}

fn suppliers_sound(stores: &Stores, next: u64) -> (ok: bool)
    requires
        next == counter_value(stores.counter),
        hold_orders(records(stores.orders)),
    ensures
        ok == (hold_suppliers(records(stores.suppliers)) && stored(*stores).suppliers_valid()),
{
    let ghost raw = records(stores.suppliers);
    let ghost state = stored(*stores);
    let entries = map_entries(&stores.suppliers);
    let mut i: usize = 0;
    while i < entries.len()
        invariant
            i <= entries.len(),
            raw == records(stores.suppliers),
            state == stored(*stores),
            next == counter_value(stores.counter),
            lists_records(entries@, raw),
            forall|k: int|
                0 <= k < i ==> {
                    let id = (#[trigger] entries[k]).0;
                    &&& bytes_supplier(raw[id]) is Some
                    &&& id < state.next_id
                    &&& state.suppliers[id].id == id
                    &&& supplier_len(state.suppliers[id]) <= MAX_RECORD_SIZE
                    &&& !state.orders.contains_key(id)
                    &&& state.record_sound(state.suppliers[id].order_ids)
                },
            hold_orders(records(stores.orders)),
        decreases entries.len() - i,
    {
        let id = entries[i].0;
        assert(state.suppliers.contains_key(id));
        let sound = match decode_supplier(entries[i].1.as_slice()) {
            Some(supplier) => {
                proof {
                    lemma_supplier_canonical(entries[i as int].1@);
                    lemma_supplier_len(supplier@);
                }
                entries[i].1.len() <= MAX_RECORD_SIZE
                    && supplier.id == id && id < next && map_get(&stores.orders, id).is_none()
                    && record_is_sound(stores, next, &supplier.order_ids)
            },
            None => false,
        };
        if !sound {
            return false;
        }
        i += 1;
    }
    true
}

fn orders_sound(stores: &Stores, next: u64) -> (ok: bool)
    requires
        next == counter_value(stores.counter),
    ensures
        ok == (hold_orders(records(stores.orders)) && stored(*stores).orders_valid()),
{
    let ghost raw = records(stores.orders);
    let ghost state = stored(*stores);
    let entries = map_entries(&stores.orders);
    let mut i: usize = 0;
    while i < entries.len()
        invariant
            i <= entries.len(),
            raw == records(stores.orders),
            state == stored(*stores),
            next == counter_value(stores.counter),
            lists_records(entries@, raw),
            forall|k: int|
                0 <= k < i ==> {
                    let id = (#[trigger] entries[k]).0;
                    &&& bytes_order(raw[id]) is Some
                    &&& id < state.next_id
                    &&& state.orders[id].id == id
                    &&& order_len(state.orders[id]) <= MAX_RECORD_SIZE
                },
        decreases entries.len() - i,
    {
        let id = entries[i].0;
        assert(state.orders.contains_key(id));
        let sound = match decode_order(entries[i].1.as_slice()) {
            Some(order) => {
                proof {
                    lemma_order_canonical(entries[i as int].1@);
                    lemma_order_len(order@);
                }
                entries[i].1.len() <= MAX_RECORD_SIZE
                    && order.id == id && id < next
            },
            None => false,
        };
        if !sound {
            return false;
        }
        i += 1;
    }
    true
}

/// The identifier that is handed out next.
pub fn peek_next_id(store: &SupplyChain) -> (id: u64)
    ensures
        id == store@.next_id,
{
    counter_get(&store.stores.counter)
}

/// Hands out the next identifier.
pub fn next_id(store: &mut SupplyChain) -> (id: u64)
    requires
        old(store).wf(),
        old(store)@.next_id < u64::MAX,
    ensures
        final(store).wf(),
        id == old(store)@.next_id,
        final(store)@ == old(store)@.advanced(),
{
    let id = counter_get(&store.stores.counter);
    counter_set(&mut store.stores.counter, id + 1);
    id
}

/// The client stored under `id`, if there is one.
pub fn _get_client(store: &SupplyChain, id: &u64) -> (found: Option<Client>)
    requires
        store.wf(),
    ensures
        match found {
            Some(client) => store@.clients.contains_key(*id) && client@ == store@.clients[*id],
            None => !store@.clients.contains_key(*id),
        },
{
    match map_get(&store.stores.clients, *id) {
        Some(bytes) => decode_client(bytes.as_slice()),
        None => None,
    }
}

/// Stores `client` under its identifier, in place of what was there.
pub fn _insert_client(store: &mut SupplyChain, client: &Client)
    requires
        old(store).wf(),
        old(store)@.with_client(client@).valid(),
    ensures
        final(store).wf(),
        final(store)@ == old(store)@.with_client(client@),
{
    let bytes = encode_client(client);
    proof {
        lemma_client_len(client@);
        lemma_client_round_trip(client@);
        assert(old(store)@.with_client(client@).clients.contains_key(client.id));
    }
    map_insert(&mut store.stores.clients, client.id, &bytes);
    proof {
        assert(store@.clients =~= old(store)@.clients.insert(client.id, client@));
    }
}

/// The supplier stored under `id`, if there is one.
pub fn _get_supplier(store: &SupplyChain, id: &u64) -> (found: Option<Supplier>)
    requires
        store.wf(),
    ensures
        match found {
            Some(supplier) => store@.suppliers.contains_key(*id) && supplier@
                == store@.suppliers[*id],
            None => !store@.suppliers.contains_key(*id),
        },
{
    match map_get(&store.stores.suppliers, *id) {
        Some(bytes) => decode_supplier(bytes.as_slice()),
        None => None,
    }
}

/// Stores `supplier` under its identifier, in place of what was there.
pub fn _insert_supplier(store: &mut SupplyChain, supplier: &Supplier)
    requires
        old(store).wf(),
        old(store)@.with_supplier(supplier@).valid(),
    ensures
        final(store).wf(),
        final(store)@ == old(store)@.with_supplier(supplier@),
{
    let bytes = encode_supplier(supplier);
    proof {
        lemma_supplier_len(supplier@);
        lemma_supplier_round_trip(supplier@);
        assert(old(store)@.with_supplier(supplier@).suppliers.contains_key(supplier.id));
    }
    map_insert(&mut store.stores.suppliers, supplier.id, &bytes);
    proof {
        assert(store@.suppliers =~= old(store)@.suppliers.insert(supplier.id, supplier@));
    }
}

/// The order stored under `id`, if there is one.
pub fn _get_order(store: &SupplyChain, id: &u64) -> (found: Option<Order>)
    requires
        store.wf(),
    ensures
        match found {
            Some(order) => store@.orders.contains_key(*id) && order@ == store@.orders[*id],
            None => !store@.orders.contains_key(*id),
        },
{
    match map_get(&store.stores.orders, *id) {
        Some(bytes) => decode_order(bytes.as_slice()),
        None => None,
    }
}

/// Stores `order` under its identifier, in place of what was there.
pub fn _insert_order(store: &mut SupplyChain, order: &Order)
    requires
        old(store).wf(),
        old(store)@.with_order(order@).valid(),
    ensures
        final(store).wf(),
        final(store)@ == old(store)@.with_order(order@),
{
    let bytes = encode_order(order);
    proof {
        lemma_order_len(order@);
        lemma_order_round_trip(order@);
        assert(old(store)@.with_order(order@).orders.contains_key(order.id));
    }
    map_insert(&mut store.stores.orders, order.id, &bytes);
    proof {
        assert(store@.orders =~= old(store)@.orders.insert(order.id, order@));
    }
}

/// Takes the order `id` out of the store and returns it, if it is there.
pub fn remove_order(store: &mut SupplyChain, id: u64) -> (removed: Option<Order>)
    requires
        old(store).wf(),
    ensures
        final(store).wf(),
        final(store)@ == old(store)@.without_order(id),
        match removed {
            Some(order) => old(store)@.orders.contains_key(id) && order@ == old(store)@.orders[id],
            None => !old(store)@.orders.contains_key(id),
        },
{
    let removed = map_remove(&mut store.stores.orders, id);
    proof {
        assert(store@.orders =~= old(store)@.orders.remove(id));
    }
    match removed {
        Some(bytes) => decode_order(bytes.as_slice()),
        None => None,
    }
}

/// All stored suppliers, by ascending identifier.
pub fn list_suppliers(store: &SupplyChain) -> (suppliers: Vec<Supplier>)
    requires
        store.wf(),
    ensures
        supplier_views(suppliers@) == in_key_order(store@.suppliers),
{
    let entries = map_entries(&store.stores.suppliers);
    let ghost raw = records(store.stores.suppliers);
    let mut suppliers: Vec<Supplier> = Vec::new();
    let mut i: usize = 0;
    while i < entries.len()
        invariant
            i <= entries.len(),
            suppliers.len() == i,
            hold_suppliers(raw),
            lists_records(entries@, raw),
            forall|k: int|
                0 <= k < i ==> (#[trigger] suppliers[k])@ == bytes_supplier(entries[k].1@).unwrap(),
        decreases entries.len() - i,
    {
        match decode_supplier(entries[i].1.as_slice()) {
            Some(supplier) => {
                suppliers.push(supplier);
            },
            None => {
                assert(false);
            },
        }
        i += 1;
    }
    proof {
        let keys = Seq::new(entries.len() as nat, |k: int| entries[k].0);
        let values = supplier_views(suppliers@);
        assert(lists(keys, values, store@.suppliers)) by {
            assert forall|id: u64| #[trigger] store@.suppliers.contains_key(id) implies exists|
                k: int,
            |
                0 <= k < keys.len() && #[trigger] keys[k] == id by {
                let k = choose|k: int| 0 <= k < entries.len() && (#[trigger] entries[k]).0 == id;
                assert(keys[k] == id);
            }
        }
        lemma_listed_in_key_order(keys, values, store@.suppliers);
    }
    suppliers
}

/// All stored orders, by ascending identifier.
pub fn list_orders(store: &SupplyChain) -> (orders: Vec<Order>)
    requires
        store.wf(),
    ensures
        order_views(orders@) == in_key_order(store@.orders),
{
    let entries = map_entries(&store.stores.orders);
    let ghost raw = records(store.stores.orders);
    let mut orders: Vec<Order> = Vec::new();
    let mut i: usize = 0;
    while i < entries.len()
        invariant
            i <= entries.len(),
            orders.len() == i,
            hold_orders(raw),
            lists_records(entries@, raw),
            forall|k: int|
                0 <= k < i ==> (#[trigger] orders[k])@ == bytes_order(entries[k].1@).unwrap(),
        decreases entries.len() - i,
    {
        match decode_order(entries[i].1.as_slice()) {
            Some(order) => {
                orders.push(order);
            },
            None => {
                assert(false);
            },
        }
        i += 1;
    }
    proof {
        let keys = Seq::new(entries.len() as nat, |k: int| entries[k].0);
        let values = order_views(orders@);
        assert(lists(keys, values, store@.orders)) by {
            assert forall|id: u64| #[trigger] store@.orders.contains_key(id) implies exists|
                k: int,
            |
                0 <= k < keys.len() && #[trigger] keys[k] == id by {
                let k = choose|k: int| 0 <= k < entries.len() && (#[trigger] entries[k]).0 == id;
                assert(keys[k] == id);
            }
        }
        lemma_listed_in_key_order(keys, values, store@.orders);
    }
    orders
}

} // verus!
