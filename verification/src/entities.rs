//! The three kinds of entity, the payloads they are made from, and their
//! mathematical views.

use vstd::prelude::*;

verus! {

/// The texts of a list of strings.
pub open spec fn texts(items: Seq<String>) -> Seq<Seq<char>> {
    Seq::new(items.len(), |i: int| items[i]@)
}

/// A client, as stored.
#[derive(Debug, PartialEq, Eq)]
pub struct Client {
    pub id: u64,
    pub name: String,
    pub email: String,
    pub phone: String,
    /// The orders whose completion was recorded for this client, oldest first.
    pub order_ids: Vec<u64>,
    pub created_at: u64,
    pub updated_at: Option<u64>,
}

/// What a `Client` holds.
pub struct ClientView {
    pub id: u64,
    pub name: Seq<char>,
    pub email: Seq<char>,
    pub phone: Seq<char>,
    pub order_ids: Seq<u64>,
    pub created_at: u64,
    pub updated_at: Option<u64>,
}

impl View for Client {
    type V = ClientView;

    open spec fn view(&self) -> ClientView {
        ClientView {
            id: self.id,
            name: self.name@,
            email: self.email@,
            phone: self.phone@,
            order_ids: self.order_ids@,
            created_at: self.created_at,
            updated_at: self.updated_at,
        }
    }
}

impl ClientView {
    /// The same client with one more completed order on record.
    pub open spec fn with_order(self, order_id: u64) -> ClientView {
        ClientView { order_ids: self.order_ids.push(order_id), ..self }
    }
}

/// A supplier, as stored.
#[derive(Debug, PartialEq, Eq)]
pub struct Supplier {
    pub id: u64,
    pub name: String,
    pub email: String,
    pub phone: String,
    /// The product types this supplier prefers to fulfil.
    pub preferred_items: Vec<String>,
    /// The orders whose completion was recorded for this supplier, oldest first.
    pub order_ids: Vec<u64>,
    pub created_at: u64,
    pub updated_at: Option<u64>,
}

/// What a `Supplier` holds.
pub struct SupplierView {
    pub id: u64,
    pub name: Seq<char>,
    pub email: Seq<char>,
    pub phone: Seq<char>,
    pub preferred_items: Seq<Seq<char>>,
    pub order_ids: Seq<u64>,
    pub created_at: u64,
    pub updated_at: Option<u64>,
}

impl View for Supplier {
    type V = SupplierView;

    open spec fn view(&self) -> SupplierView {
        SupplierView {
            id: self.id,
            name: self.name@,
            email: self.email@,
            phone: self.phone@,
            preferred_items: texts(self.preferred_items@),
            order_ids: self.order_ids@,
            created_at: self.created_at,
            updated_at: self.updated_at,
        }
    }
}

impl SupplierView {
    /// The same supplier with one more completed order on record.
    pub open spec fn with_order(self, order_id: u64) -> SupplierView {
        SupplierView { order_ids: self.order_ids.push(order_id), ..self }
    }
}

/// The product lines of an order: product names with their quantities. No
/// name stands in two lines, and the lines keep the order in which their
/// names first came. Two values are equal where they hold the same lines in
/// the same order.
#[derive(Debug, PartialEq, Eq)]
pub struct Products {
    lines: Vec<(String, u64)>,
}

/// The names and quantities of some product lines.
pub open spec fn lines_view(lines: Seq<(String, u64)>) -> Seq<(Seq<char>, u64)> {
    Seq::new(lines.len(), |i: int| (lines[i].0@, lines[i].1))
}

/// Whether `name` is the name of one of the lines.
pub open spec fn names(lines: Seq<(Seq<char>, u64)>, name: Seq<char>) -> bool {
    exists|i: int| 0 <= i < lines.len() && (#[trigger] lines[i]).0 == name
}

/// Whether no name stands in two lines.
pub open spec fn names_distinct(lines: Seq<(Seq<char>, u64)>) -> bool {
    forall|i: int, j: int|
        0 <= i < j < lines.len() ==> (#[trigger] lines[i]).0 != (#[trigger] lines[j]).0
}

impl View for Products {
    type V = Seq<(Seq<char>, u64)>;

    closed spec fn view(&self) -> Seq<(Seq<char>, u64)> {
        lines_view(self.lines@)
    }
}

impl Products {
    #[verifier::type_invariant]
    spec fn names_stand_once(self) -> bool {
        names_distinct(lines_view(self.lines@))
    }

    /// No product lines.
    pub fn new() -> (products: Products)
        ensures
            products@.len() == 0,
    {
        Products { lines: Vec::new() }
    }

    /// The lines in the given order; nothing where a name stands in two of
    /// them.
    pub fn from_lines(lines: Vec<(String, u64)>) -> (products: Option<Products>)
        ensures
            match products {
                Some(products) => products@ == lines_view(lines@) && names_distinct(products@),
                None => !names_distinct(lines_view(lines@)),
            },
    {
        let ghost view = lines_view(lines@);
        let mut j: usize = 0;
        while j < lines.len()
            invariant
                j <= lines.len(),
                view == lines_view(lines@),
                forall|a: int, b: int|
                    0 <= a < b < j ==> (#[trigger] view[a]).0 != (#[trigger] view[b]).0,
            decreases lines.len() - j,
        {
            let mut i: usize = 0;
            while i < j
                invariant
                    i <= j < lines.len(),
                    view == lines_view(lines@),
                    forall|a: int| 0 <= a < i ==> (#[trigger] view[a]).0 != view[j as int].0,
                decreases j - i,
            {
                if lines[i].0 == lines[j].0 {
                    assert(view[i as int].0 == view[j as int].0);
                    return None;
                }
                i += 1;
            }
            j += 1;
        }
        Some(Products { lines })
    }

    /// The number of lines. No name stands in two of them.
    pub fn len(&self) -> (n: usize)
        ensures
            n == self@.len(),
            names_distinct(self@),
    {
        proof {
            use_type_invariant(self);
        }
        self.lines.len()
    }

    /// The name of line `i`.
    pub fn name(&self, i: usize) -> (name: &String)
        requires
            i < self@.len(),
        ensures
            name@ == self@[i as int].0,
    {
        &self.lines[i].0
    }

    /// The quantity of line `i`.
    pub fn quantity(&self, i: usize) -> (quantity: u64)
        requires
            i < self@.len(),
        ensures
            quantity == self@[i as int].1,
    {
        self.lines[i].1
    }

    /// The index of the line named `name`, if there is one.
    pub fn position(&self, name: &str) -> (found: Option<usize>)
        ensures
            match found {
                Some(i) => i < self@.len() && self@[i as int].0 == name@,
                None => !names(self@, name@),
            },
    {
        let key = name.to_owned();
        let mut i: usize = 0;
        while i < self.lines.len()
            invariant
                i <= self.lines.len(),
                key@ == name@,
                forall|j: int| 0 <= j < i ==> (#[trigger] self@[j]).0 != name@,
            decreases self.lines.len() - i,
        {
            if self.lines[i].0 == key {
                return Some(i);
            }
            i += 1;
        }
        None
    }

    /// Whether a line is named `name`.
    pub fn contains_key(&self, name: &str) -> (found: bool)
        ensures
            found == names(self@, name@),
    {
        self.position(name).is_some()
    }

    /// The quantity of the line named `name`, if there is one.
    pub fn get(&self, name: &str) -> (quantity: Option<u64>)
        ensures
            match quantity {
                Some(q) => self@.contains((name@, q)),
                None => !names(self@, name@),
            },
    {
        match self.position(name) {
            Some(i) => Some(self.lines[i].1),
            None => None,
        }
    }

    /// Sets the quantity of `name`: in its line where it has one, else in a
    /// new last line. Returns the quantity it had.
    pub fn insert(&mut self, name: String, quantity: u64) -> (previous: Option<u64>)
        ensures
            match previous {
                Some(q) => exists|i: int|
                    0 <= i < old(self)@.len() && (#[trigger] old(self)@[i]) == (name@, q)
                        && final(self)@ == old(self)@.update(i, (name@, quantity)),
                None => !names(old(self)@, name@) && final(self)@ == old(self)@.push(
                    (name@, quantity),
                ),
            },
            names_distinct(final(self)@),
    {
        let found = self.position(name.as_str());
        let mut taken = Products::new();
        std::mem::swap(self, &mut taken);
        proof {
            use_type_invariant(&taken);
        }
        let Products { mut lines } = taken;
        let ghost before = lines_view(lines@);
        let previous = match found {
            Some(i) => {
                let q = lines[i].1;
                lines.set(i, (name, quantity));
                Some(q)
            },
            None => {
                lines.push((name, quantity));
                None
            },
        };
        proof {
            let after = lines_view(lines@);
            assert forall|a: int, b: int| 0 <= a < b < after.len() implies (#[trigger] after[a]).0
                != (#[trigger] after[b]).0 by {
                if b < before.len() {
                    assert(before[a].0 != before[b].0);
                } else {
                    assert(before[a].0 != name@);
                }
            }
        }
        *self = Products { lines };
        previous
    }
}

/// An order, as stored.
#[derive(Debug, PartialEq, Eq)]
pub struct Order {
    pub id: u64,
    pub title: String,
    pub client_id: u64,
    /// The supplier assigned to the order, once there is one.
    pub supplier_id: Option<u64>,
    pub item_types: Vec<String>,
    pub products: Products,
    pub is_complete: bool,
    pub created_at: u64,
    pub updated_at: Option<u64>,
}

/// What an `Order` holds.
pub struct OrderView {
    pub id: u64,
    pub title: Seq<char>,
    pub client_id: u64,
    pub supplier_id: Option<u64>,
    pub item_types: Seq<Seq<char>>,
    pub products: Seq<(Seq<char>, u64)>,
    pub is_complete: bool,
    pub created_at: u64,
    pub updated_at: Option<u64>,
}

impl View for Order {
    type V = OrderView;

    open spec fn view(&self) -> OrderView {
        OrderView {
            id: self.id,
            title: self.title@,
            client_id: self.client_id,
            supplier_id: self.supplier_id,
            item_types: texts(self.item_types@),
            products: self.products@,
            is_complete: self.is_complete,
            created_at: self.created_at,
            updated_at: self.updated_at,
        }
    }
}

/// The views of a list of orders.
pub open spec fn order_views(orders: Seq<Order>) -> Seq<OrderView> {
    Seq::new(orders.len(), |i: int| orders[i]@)
}

/// The views of a list of suppliers.
pub open spec fn supplier_views(suppliers: Seq<Supplier>) -> Seq<SupplierView> {
    Seq::new(suppliers.len(), |i: int| suppliers[i]@)
}

/// What a client is created from.
#[derive(Debug, PartialEq, Eq)]
pub struct ClientPayload {
    pub name: String,
    pub email: String,
    pub phone: String,
}

/// What a supplier is created from.
#[derive(Debug, PartialEq, Eq)]
pub struct SupplierPayload {
    pub name: String,
    pub email: String,
    pub phone: String,
    pub preferred_items: Vec<String>,
}

/// What an order is created from, or updated with.
///
/// Creating an order reads neither `supplier_id` nor `is_complete`: a new
/// order has no supplier and is not complete. Updating one reads
/// `supplier_id` and keeps the order's own completion flag.
#[derive(Debug, PartialEq, Eq)]
pub struct OrderPayload {
    pub title: String,
    pub client_id: u64,
    pub supplier_id: u64,
    pub products: Products,
    pub item_types: Vec<String>,
    pub is_complete: bool,
}

/// Conditions on an order. An order meets the criteria when it meets every
/// condition that is set; one that is not set admits every order.
#[derive(Debug, PartialEq, Eq)]
pub struct OrderCriteria {
    /// Created at this time or later.
    pub start_date: Option<u64>,
    /// Created at this time or earlier.
    pub end_date: Option<u64>,
    pub is_complete: Option<bool>,
    pub client_id: Option<u64>,
    pub supplier_id: Option<u64>,
    /// Has a product line of this name.
    pub product: Option<String>,
}

/// How much a client has ordered.
#[derive(Debug, Clone, Copy, PartialEq, Eq, Structural)]
pub struct ClientEngagement {
    /// The orders on the client's record that are still stored.
    pub total_orders: u64,
    /// The different product names among the lines of those orders.
    pub distinct_products: u64,
}

/// A copy of a list of strings.
pub fn copy_texts(items: &Vec<String>) -> (copy: Vec<String>)
    ensures
        texts(copy@) == texts(items@),
{
    let mut copy: Vec<String> = Vec::new();
    let mut i: usize = 0;
    while i < items.len()
        invariant
            i <= items.len(),
            copy.len() == i,
            forall|j: int| 0 <= j < i ==> (#[trigger] copy[j])@ == items[j]@,
        decreases items.len() - i,
    {
        copy.push(items[i].clone());
        i += 1;
    }
    copy
}

/// A copy of a list of identifiers.
pub fn copy_ids(ids: &Vec<u64>) -> (copy: Vec<u64>)
    ensures
        copy@ == ids@,
{
    let mut copy: Vec<u64> = Vec::new();
    let mut i: usize = 0;
    while i < ids.len()
        invariant
            i <= ids.len(),
            copy@ == ids@.take(i as int),
        decreases ids.len() - i,
    {
        copy.push(ids[i]);
        i += 1;
    }
    copy
}

impl Clone for Products {
    fn clone(&self) -> (copy: Products)
        ensures
            copy@ == self@,
    {
        proof {
            use_type_invariant(self);
        }
        let mut lines: Vec<(String, u64)> = Vec::new();
        let mut i: usize = 0;
        while i < self.lines.len()
            invariant
                i <= self.lines.len(),
                lines.len() == i,
                forall|j: int|
                    0 <= j < i ==> (#[trigger] lines[j]).0@ == self.lines[j].0@
                        && lines[j].1 == self.lines[j].1,
            decreases self.lines.len() - i,
        {
            lines.push((self.lines[i].0.clone(), self.lines[i].1));
            i += 1;
        }
        assert(lines_view(lines@) =~= self@);
        Products { lines }
    }
}

impl Clone for Client {
    fn clone(&self) -> (copy: Client)
        ensures
            copy@ == self@,
    {
        Client {
            id: self.id,
            name: self.name.clone(),
            email: self.email.clone(),
            phone: self.phone.clone(),
            order_ids: copy_ids(&self.order_ids),
            created_at: self.created_at,
            updated_at: self.updated_at,
        }
    }
}

impl Clone for Supplier {
    fn clone(&self) -> (copy: Supplier)
        ensures
            copy@ == self@,
    {
        Supplier {
            id: self.id,
            name: self.name.clone(),
            email: self.email.clone(),
            phone: self.phone.clone(),
            preferred_items: copy_texts(&self.preferred_items),
            order_ids: copy_ids(&self.order_ids),
            created_at: self.created_at,
            updated_at: self.updated_at,
        }
    }
}

impl Clone for Order {
    fn clone(&self) -> (copy: Order)
        ensures
            copy@ == self@,
    {
        Order {
            id: self.id,
            title: self.title.clone(),
            client_id: self.client_id,
            supplier_id: self.supplier_id,
            item_types: copy_texts(&self.item_types),
            products: self.products.clone(),
            is_complete: self.is_complete,
            created_at: self.created_at,
            updated_at: self.updated_at,
        }
    }
}

impl Clone for ClientPayload {
    fn clone(&self) -> (copy: ClientPayload)
        ensures
            copy.name@ == self.name@,
            copy.email@ == self.email@,
            copy.phone@ == self.phone@,
    {
        ClientPayload {
            name: self.name.clone(),
            email: self.email.clone(),
            phone: self.phone.clone(),
        }
    }
}

impl Clone for SupplierPayload {
    fn clone(&self) -> (copy: SupplierPayload)
        ensures
            copy.name@ == self.name@,
            copy.email@ == self.email@,
            copy.phone@ == self.phone@,
            texts(copy.preferred_items@) == texts(self.preferred_items@),
    {
        SupplierPayload {
            name: self.name.clone(),
            email: self.email.clone(),
            phone: self.phone.clone(),
            preferred_items: copy_texts(&self.preferred_items),
        }
    }
}

impl Clone for OrderPayload {
    fn clone(&self) -> (copy: OrderPayload)
        ensures
            copy.title@ == self.title@,
            copy.client_id == self.client_id,
            copy.supplier_id == self.supplier_id,
            copy.products@ == self.products@,
            texts(copy.item_types@) == texts(self.item_types@),
            copy.is_complete == self.is_complete,
    {
        OrderPayload {
            title: self.title.clone(),
            client_id: self.client_id,
            supplier_id: self.supplier_id,
            products: self.products.clone(),
            item_types: copy_texts(&self.item_types),
            is_complete: self.is_complete,
        }
    }
}

} // verus!
