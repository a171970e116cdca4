//! What holds of the operations taken together.

use vstd::prelude::*;
use crate::entities::{ClientPayload, ClientView, OrderCriteria, OrderPayload, OrderView};
use crate::entities::SupplierPayload;
use crate::errors::{ErrorView, already_completed, client_not_found, no_matching_orders};
use crate::errors::{no_supplier_set, supplier_not_found};
use crate::listing::{in_key_order, is_value, lemma_in_key_order_values};
use crate::model::{add_client_result, add_client_state, can_add_client, new_client};
use crate::model::{add_order_result, add_order_state, can_add_order};
use crate::model::{add_order_supplier_result, add_order_supplier_state};
use crate::model::{add_supplier_result, add_supplier_state, can_add_supplier};
use crate::model::{can_complete_order, complete_order_result, complete_order_state};
use crate::model::{can_update_order, update_order_result, update_order_state};
use crate::model::{delete_order_result, delete_order_state, get_client_result};
use crate::queries::{completed_of_supplier, filter_orders_by_criteria_result, found};
use crate::queries::{meeting, meets, of_client, of_supplier, with_completion};
use crate::store::State;

verus! {

/// The result of an operation that failed where it would have returned an
/// order.
pub open spec fn order_failure(e: ErrorView) -> Result<OrderView, ErrorView> {
    Err(e)
}

/// The result of a query that failed where it would have returned orders.
pub open spec fn orders_failure(e: ErrorView) -> Result<Seq<OrderView>, ErrorView> {
    Err(e)
}

/// The result of an operation that returns a client.
pub open spec fn client_success(client: ClientView) -> Result<ClientView, ErrorView> {
    Ok(client)
}

/// An operation that may change the state, with what it is given.
pub enum Step {
    AddClient { client: ClientPayload, now: u64 },
    AddSupplier { supplier: SupplierPayload, now: u64 },
    AddOrder { order: OrderPayload, now: u64 },
    AddOrderSupplier { order_id: u64, supplier_id: u64, now: u64 },
    UpdateOrder { id: u64, order: OrderPayload, now: u64 },
    CompleteOrder { id: u64, now: u64 },
    DeleteOrder { id: u64 },
}

/// Whether the state meets what the operation needs.
pub open spec fn allowed(s: State, step: Step) -> bool {
    match step {
        Step::AddClient { client, now } => can_add_client(s, client),
        Step::AddSupplier { supplier, now } => can_add_supplier(s, supplier),
        Step::AddOrder { order, now } => can_add_order(s, order),
        Step::AddOrderSupplier { order_id, supplier_id, now } => true,
        Step::UpdateOrder { id, order, now } => can_update_order(s, id, order),
        Step::CompleteOrder { id, now } => can_complete_order(s, id),
        Step::DeleteOrder { id } => true,
    }
}

/// The state after the operation.
pub open spec fn after(s: State, step: Step) -> State {
    match step {
        Step::AddClient { client, now } => add_client_state(s, client, now),
        Step::AddSupplier { supplier, now } => add_supplier_state(s, supplier, now),
        Step::AddOrder { order, now } => add_order_state(s, order, now),
        Step::AddOrderSupplier { order_id, supplier_id, now } => add_order_supplier_state(
            s,
            order_id,
            supplier_id,
            now,
        ),
        Step::UpdateOrder { id, order, now } => update_order_state(s, id, order, now),
        Step::CompleteOrder { id, now } => complete_order_state(s, id, now),
        Step::DeleteOrder { id } => delete_order_state(s, id),
    }
}

/// The identifier of the entity that the operation creates, if it creates
/// one.
pub open spec fn created(s: State, step: Step) -> Option<u64> {
    match step {
        Step::AddClient { client, now } => match add_client_result(s, client, now) {
            Ok(client) => Some(client.id),
            Err(_) => None,
        },
        Step::AddSupplier { supplier, now } => match add_supplier_result(s, supplier, now) {
            Ok(supplier) => Some(supplier.id),
            Err(_) => None,
        },
        Step::AddOrder { order, now } => match add_order_result(s, order, now) {
            Ok(order) => Some(order.id),
            Err(_) => None,
        },
        _ => None,
    }
}

/// The state after the operations, one after the other.
pub open spec fn run(s: State, steps: Seq<Step>) -> State
    decreases steps.len(),
{
    if steps.len() == 0 {
        s
    } else {
        after(run(s, steps.drop_last()), steps.last())
    }
}

/// Whether each of the operations finds what it needs in the state that
/// those before it have left.
pub open spec fn all_allowed(s: State, steps: Seq<Step>) -> bool
    decreases steps.len(),
{
    steps.len() > 0 ==> all_allowed(s, steps.drop_last()) && allowed(
        run(s, steps.drop_last()),
        steps.last(),
    )
}

/// An operation leaves a valid state valid.
pub proof fn law_operation_keeps_valid(s: State, step: Step)
    requires
        s.valid(),
        allowed(s, step),
    ensures
        after(s, step).valid(),
{
}

/// An operation hands out the identifier that is next, which nothing
/// stored has, and never lowers the one that is next.
pub proof fn law_identifier_is_new(s: State, step: Step)
    requires
        s.valid(),
        allowed(s, step),
    ensures
        after(s, step).next_id >= s.next_id,
        created(s, step) matches Some(id) ==> id == s.next_id && !s.uses(id) && after(
            s,
            step,
        ).next_id == id + 1,
{
}

/// Operations leave a valid state valid and never lower the identifier
/// that is next.
pub proof fn law_operations_keep_valid(s: State, steps: Seq<Step>)
    requires
        s.valid(),
        all_allowed(s, steps),
    ensures
        run(s, steps).valid(),
        run(s, steps).next_id >= s.next_id,
    decreases steps.len(),
{
    if steps.len() > 0 {
        law_operations_keep_valid(s, steps.drop_last());
    }
}

/// The operations up to, and without, the one at `index`.
pub open spec fn until(steps: Seq<Step>, index: int) -> Seq<Step> {
    steps.take(index)
}

/// Identifiers are handed out in strictly ascending order, whatever was
/// done in between, deletions too: of two operations that each create an
/// entity, the later one gives the greater identifier.
pub proof fn law_identifiers_ascend(s: State, steps: Seq<Step>, first: int, second: int)
    requires
        s.valid(),
        all_allowed(s, steps),
        0 <= first < second < steps.len(),
        created(run(s, until(steps, first)), steps[first]) is Some,
        created(run(s, until(steps, second)), steps[second]) is Some,
    ensures
        created(run(s, until(steps, first)), steps[first]).unwrap() < created(
            run(s, until(steps, second)),
            steps[second],
        ).unwrap(),
    decreases steps.len(),
{
    let front = steps.drop_last();
    if second < steps.len() - 1 {
        assert(until(front, first) =~= until(steps, first));
        assert(until(front, second) =~= until(steps, second));
        law_identifiers_ascend(s, front, first, second);
    } else {
        lemma_allowed_prefix(s, steps, first + 1);
        assert(until(steps, first + 1).drop_last() =~= until(steps, first));
        lemma_counter_grows(s, steps, first + 1, second);
    }
}

/// What holds of all operations holds of those up to an index.
pub proof fn lemma_allowed_prefix(s: State, steps: Seq<Step>, index: int)
    requires
        all_allowed(s, steps),
        0 <= index <= steps.len(),
    ensures
        all_allowed(s, until(steps, index)),
    decreases steps.len(),
{
    if index < steps.len() {
        let front = steps.drop_last();
        lemma_allowed_prefix(s, front, index);
        assert(until(front, index) =~= until(steps, index));
    } else {
        assert(until(steps, index) =~= steps);
    }
}

/// The identifier that is next after more operations is no lower than
/// after fewer.
pub proof fn lemma_counter_grows(s: State, steps: Seq<Step>, fewer: int, more: int)
    requires
        s.valid(),
        all_allowed(s, steps),
        0 <= fewer <= more <= steps.len(),
    ensures
        run(s, until(steps, fewer)).next_id <= run(s, until(steps, more)).next_id,
    decreases more - fewer,
{
    if fewer < more {
        lemma_counter_grows(s, steps, fewer, more - 1);
        lemma_allowed_prefix(s, steps, more);
        assert(until(steps, more).drop_last() =~= until(steps, more - 1));
    }
}

/// Whether the operation fails.
pub open spec fn fails(s: State, step: Step) -> bool {
    match step {
        Step::AddClient { client, now } => add_client_result(s, client, now) is Err,
        Step::AddSupplier { supplier, now } => add_supplier_result(s, supplier, now) is Err,
        Step::AddOrder { order, now } => add_order_result(s, order, now) is Err,
        Step::AddOrderSupplier { order_id, supplier_id, now } => add_order_supplier_result(
            s,
            order_id,
            supplier_id,
            now,
        ) is Err,
        Step::UpdateOrder { id, order, now } => update_order_result(s, id, order, now) is Err,
        Step::CompleteOrder { id, now } => complete_order_result(s, id, now) is Err,
        Step::DeleteOrder { id } => delete_order_result(s, id) is Err,
    }
}

/// An operation that fails changes nothing: a payload that is rejected, or
/// a reference that does not resolve, leaves no trace.
pub proof fn law_failure_changes_nothing(s: State, step: Step)
    requires
        fails(s, step),
    ensures
        after(s, step) == s,
{
    match step {
        Step::DeleteOrder { id } => {
            assert(s.orders.remove(id) =~= s.orders);
        },
        _ => {},
    }
}

/// Every order names a client that is stored and, where it has a supplier,
/// a supplier that is stored.
pub open spec fn linked(s: State) -> bool {
    forall|id: u64| #[trigger]
        s.orders.contains_key(id) ==> s.clients.contains_key(s.orders[id].client_id) && (
        s.orders[id].supplier_id matches Some(supplier_id) ==> s.suppliers.contains_key(
            supplier_id,
        ))
}

/// The links of the orders stay intact: where every order names a stored
/// client and a stored supplier, it does so after an operation.
pub proof fn law_links_stay_intact(s: State, step: Step)
    requires
        linked(s),
    ensures
        linked(after(s, step)),
{
}

/// An order that is complete stays complete for as long as it is stored.
pub proof fn law_completion_is_final(s: State, step: Step, id: u64)
    requires
        s.valid(),
        s.orders.contains_key(id),
        s.orders[id].is_complete,
        after(s, step).orders.contains_key(id),
    ensures
        after(s, step).orders[id].is_complete,
{
}

/// Clients and suppliers stay stored, and the record of completed orders
/// of each only grows at its end.
pub proof fn law_records_only_grow(s: State, step: Step, id: u64)
    requires
        s.valid(),
    ensures
        s.clients.contains_key(id) ==> after(s, step).clients.contains_key(id)
            && s.clients[id].order_ids.is_prefix_of(after(s, step).clients[id].order_ids),
        s.suppliers.contains_key(id) ==> after(s, step).suppliers.contains_key(id)
            && s.suppliers[id].order_ids.is_prefix_of(after(s, step).suppliers[id].order_ids),
{
}

/// A client that was just added is found under its identifier, as it was
/// made from the payload: with no order on its record and no update.
pub proof fn law_added_client_is_found(s: State, payload: ClientPayload, now: u64)
    requires
        add_client_result(s, payload, now) is Ok,
    ensures
        ({
            let client = add_client_result(s, payload, now)->Ok_0;
            &&& get_client_result(add_client_state(s, payload, now), client.id) == client_success(
                client,
            )
            &&& client == new_client(s.next_id, payload, now)
            &&& client.order_ids == Seq::<u64>::empty()
            &&& client.updated_at is None
        }),
{
}

/// Completing an order that has no supplier fails: no supplier is set.
pub proof fn law_complete_needs_supplier(s: State, id: u64, now: u64)
    requires
        s.orders.contains_key(id),
        !s.orders[id].is_complete,
        s.clients.contains_key(s.orders[id].client_id),
        s.orders[id].supplier_id is None,
    ensures
        complete_order_result(s, id, now) == order_failure(no_supplier_set()),
        complete_order_state(s, id, now) == s,
{
}

/// Completing an order whose client is no longer stored fails: the client
/// is not found.
pub proof fn law_complete_needs_client(s: State, id: u64, now: u64)
    requires
        s.orders.contains_key(id),
        !s.orders[id].is_complete,
        !s.clients.contains_key(s.orders[id].client_id),
    ensures
        complete_order_result(s, id, now) == order_failure(
            client_not_found(s.orders[id].client_id),
        ),
        complete_order_state(s, id, now) == s,
{
}

/// Completing an order whose supplier is no longer stored fails: the
/// supplier is not found.
pub proof fn law_complete_needs_stored_supplier(s: State, id: u64, now: u64)
    requires
        s.orders.contains_key(id),
        !s.orders[id].is_complete,
        s.clients.contains_key(s.orders[id].client_id),
        s.orders[id].supplier_id is Some,
        !s.suppliers.contains_key(s.orders[id].supplier_id.unwrap()),
    ensures
        complete_order_result(s, id, now) == order_failure(
            supplier_not_found(s.orders[id].supplier_id.unwrap()),
        ),
        complete_order_state(s, id, now) == s,
{
}

/// Completing a complete order fails: it was already completed. So an
/// order is completed once at most.
pub proof fn law_complete_once(s: State, id: u64, now: u64, later: u64)
    ensures
        s.orders.contains_key(id) && s.orders[id].is_complete ==> complete_order_result(s, id, now)
            == order_failure(already_completed()) && complete_order_state(s, id, now) == s,
        complete_order_result(s, id, now) is Ok ==> complete_order_result(
            complete_order_state(s, id, now),
            id,
            later,
        ) == order_failure(already_completed()),
{
}

/// Whether `id` stands in `ids` once and no more.
pub open spec fn holds_once(ids: Seq<u64>, id: u64) -> bool {
    exists|k: int|
        0 <= k < ids.len() && #[trigger] ids[k] == id && forall|j: int|
            0 <= j < ids.len() && j != k ==> #[trigger] ids[j] != id
}

/// After an order was completed, the record of its client and the record
/// of its supplier each hold its identifier once.
pub proof fn law_completion_is_recorded_once(s: State, id: u64, now: u64)
    requires
        s.valid(),
        complete_order_result(s, id, now) is Ok,
    ensures
        ({
            let order = s.orders[id];
            let t = complete_order_state(s, id, now);
            &&& t.orders[id].is_complete
            &&& holds_once(t.clients[order.client_id].order_ids, id)
            &&& holds_once(t.suppliers[order.supplier_id.unwrap()].order_ids, id)
        }),
{
    let order = s.orders[id];
    let client_record = s.clients[order.client_id].order_ids;
    let supplier_record = s.suppliers[order.supplier_id.unwrap()].order_ids;
    assert(client_record.push(id)[client_record.len() as int] == id);
    assert(supplier_record.push(id)[supplier_record.len() as int] == id);
}

/// Updating an order with a payload that names a client which is not
/// stored fails and changes nothing.
pub proof fn law_update_needs_client(s: State, id: u64, payload: OrderPayload, now: u64)
    requires
        s.orders.contains_key(id),
        payload.problems() is None,
        !s.clients.contains_key(payload.client_id),
    ensures
        update_order_result(s, id, payload, now) == order_failure(
            client_not_found(payload.client_id),
        ),
        update_order_state(s, id, payload, now) == s,
{
}

/// Updating an order with a payload that names a supplier which is not
/// stored fails and changes nothing.
pub proof fn law_update_needs_supplier(s: State, id: u64, payload: OrderPayload, now: u64)
    requires
        s.orders.contains_key(id),
        payload.problems() is None,
        s.clients.contains_key(payload.client_id),
        !s.suppliers.contains_key(payload.supplier_id),
    ensures
        update_order_result(s, id, payload, now) == order_failure(
            supplier_not_found(payload.supplier_id),
        ),
        update_order_state(s, id, payload, now) == s,
{
}

/// Updating an order changes neither its identifier nor the time of its
/// creation, nor whether it is complete.
pub proof fn law_update_keeps_identity(s: State, id: u64, payload: OrderPayload, now: u64)
    requires
        s.orders.contains_key(id),
    ensures
        ({
            let t = update_order_state(s, id, payload, now);
            &&& t.orders.contains_key(id)
            &&& t.orders[id].id == s.orders[id].id
            &&& t.orders[id].created_at == s.orders[id].created_at
            &&& t.orders[id].is_complete == s.orders[id].is_complete
            &&& update_order_result(s, id, payload, now) matches Ok(order) ==> order
                == t.orders[id]
        }),
{
}

/// Criteria of which none is set.
pub open spec fn no_criteria(criteria: OrderCriteria) -> bool {
    &&& criteria.start_date is None
    &&& criteria.end_date is None
    &&& criteria.is_complete is None
    &&& criteria.client_id is None
    &&& criteria.supplier_id is None
    &&& criteria.product is None
}

proof fn lemma_filter_all<T>(items: Seq<T>, keep: spec_fn(T) -> bool)
    requires
        forall|i: int| 0 <= i < items.len() ==> keep(#[trigger] items[i]),
    ensures
        items.filter(keep) == items,
    decreases items.len(),
{
    reveal(Seq::filter);
    if items.len() > 0 {
        lemma_filter_all(items.drop_last(), keep);
    }
}

proof fn lemma_filter_none<T>(items: Seq<T>, keep: spec_fn(T) -> bool)
    requires
        forall|i: int| 0 <= i < items.len() ==> !keep(#[trigger] items[i]),
    ensures
        items.filter(keep).len() == 0,
    decreases items.len(),
{
    reveal(Seq::filter);
    if items.len() > 0 {
        lemma_filter_none(items.drop_last(), keep);
    }
}

/// With no criterion set, every order is found.
pub proof fn law_no_criteria_find_all(s: State, criteria: OrderCriteria)
    requires
        no_criteria(criteria),
    ensures
        filter_orders_by_criteria_result(s, criteria) == found(
            in_key_order(s.orders),
            no_matching_orders(),
        ),
{
    lemma_filter_all(in_key_order(s.orders), meeting(criteria));
}

/// Where no stored order meets the criteria, as with criteria that
/// contradict what is stored, nothing is found; where one does, the orders
/// that are found are those that meet them.
pub proof fn law_criteria_find_what_meets(s: State, criteria: OrderCriteria)
    ensures
        (forall|id: u64| #[trigger] s.orders.contains_key(id) ==> !meets(s.orders[id], criteria))
            <==> filter_orders_by_criteria_result(s, criteria) == orders_failure(
            no_matching_orders(),
        ),
        filter_orders_by_criteria_result(s, criteria) matches Ok(orders) ==> forall|i: int|
            0 <= i < orders.len() ==> meets(#[trigger] orders[i], criteria) && is_value(
                s.orders,
                orders[i],
            ),
{
    let all = in_key_order(s.orders);
    let keep = meeting(criteria);
    lemma_in_key_order_values(s.orders);
    if forall|id: u64| #[trigger] s.orders.contains_key(id) ==> !meets(s.orders[id], criteria) {
        lemma_filter_none(all, keep);
    }
    if all.filter(keep).len() == 0 {
        assert forall|id: u64| #[trigger] s.orders.contains_key(id) implies !meets(
            s.orders[id],
            criteria,
        ) by {
            if meets(s.orders[id], criteria) {
                let i = choose|i: int| 0 <= i < all.len() && all[i] == s.orders[id];
                all.lemma_filter_contains(keep, i);
            }
        }
    }
    if all.filter(keep).len() > 0 {
        let orders = all.filter(keep);
        assert forall|i: int| 0 <= i < orders.len() implies meets(#[trigger] orders[i], criteria)
            && is_value(s.orders, orders[i]) by {
            all.lemma_filter_contains_rev(keep, orders[i]);
        }
    }
}

/// What the selections of the queries select.
pub proof fn law_selections(order: OrderView, flag: bool, id: u64)
    ensures
        with_completion(flag)(order) == (order.is_complete == flag),
        of_client(id)(order) == (order.client_id == id),
        of_supplier(id)(order) == (order.supplier_id == Some(id)),
        completed_of_supplier(id)(order) == (order.supplier_id == Some(id) && order.is_complete),
{
}

} // verus!
