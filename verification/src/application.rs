//! The application: one cluster of command-handling aggregates, query
//! handlers and the saga manager around a single event log store.
use vstd::prelude::*;

use crate::aggregate::{
    RestaurantAggregate, restaurant_aggregate, spec_appended_restaurant_ok,
    spec_restaurant_stream_decodes,
};
use crate::api::{OrderCommand, OrderEvent, RestaurantCommand, RestaurantEvent};
use crate::error::HandleError;
use crate::materialized_view::{
    OrderMaterializedView, RestaurantMaterializedView, order_materialized_view,
    restaurant_materialized_view,
};
use crate::order_aggregate::{
    OrderAggregate, order_aggregate, spec_appended_order_ok, spec_order_stream_decodes,
};
use crate::order_view::{OrderViewState, SpecOrderViewState};
use crate::restaurant_view::{RestaurantViewState, SpecRestaurantViewState};
use crate::saga_manager::{OrderSagaManager, order_saga_manager};
use crate::store::{
    EventStore, SpecDeciderEventEntity, SpecEventEntity, SpecLockEntity, spec_registered,
    spec_view_registered,
};

verus! {

/// Whether every event variant of the two deciders is registered.
pub open spec fn spec_core_registered(regs: Seq<SpecDeciderEventEntity>) -> bool {
    &&& spec_registered(regs, "Restaurant"@, "RestaurantCreated"@)
    &&& spec_registered(regs, "Restaurant"@, "RestaurantNotCreated"@)
    &&& spec_registered(regs, "Restaurant"@, "RestaurantMenuChanged"@)
    &&& spec_registered(regs, "Restaurant"@, "RestaurantMenuNotChanged"@)
    &&& spec_registered(regs, "Restaurant"@, "OrderPlaced"@)
    &&& spec_registered(regs, "Restaurant"@, "OrderNotPlaced"@)
    &&& spec_registered(regs, "Order"@, "OrderCreated"@)
    &&& spec_registered(regs, "Order"@, "OrderNotCreated"@)
    &&& spec_registered(regs, "Order"@, "OrderPrepared"@)
    &&& spec_registered(regs, "Order"@, "OrderNotPrepared"@)
}

/// A cluster of command handling, query handling and saga components,
/// all sharing one event log store.
pub struct Application {
    pub store: EventStore,
    pub restaurant_aggregate: RestaurantAggregate,
    pub order_aggregate: OrderAggregate,
    pub restaurant_materialized_view: RestaurantMaterializedView,
    pub order_materialized_view: OrderMaterializedView,
    pub order_saga_manager: OrderSagaManager,
}

impl Application {
    /// The application's invariant: the store's laws hold and every event
    /// variant of the two deciders is registered, as are the `view` and
    /// `saga` subscriptions.
    pub open spec fn wf(&self) -> bool {
        &&& self.store.wf()
        &&& spec_core_registered(self.store.deciders.deep_view())
        &&& spec_view_registered(self.store.views.deep_view(), "view"@)
        &&& spec_view_registered(self.store.views.deep_view(), "saga"@)
    }

    /// Wire a fresh application: an empty store with every decider event
    /// registered and the `view` and `saga` subscriptions created.
    pub fn new(lease_millis: u64, pooling_delay: u64, now: u64) -> (r: Application)
        ensures
            r.wf(),
            r.store.events.deep_view() == Seq::<SpecEventEntity>::empty(),
            r.store.locks.deep_view() == Seq::<SpecLockEntity>::empty(),
            r.store.lease_millis == lease_millis,
            r.restaurant_materialized_view.repository.rows.deep_view() == Seq::<
                (u128, SpecRestaurantViewState),
            >::empty(),
            r.order_materialized_view.repository.rows.deep_view() == Seq::<
                (u128, SpecOrderViewState),
            >::empty(),
    {
        let mut store = EventStore::new(lease_millis);
        store.register_decider(&"RestaurantCreated".to_owned(), &"Restaurant".to_owned());
        store.register_decider(&"RestaurantNotCreated".to_owned(), &"Restaurant".to_owned());
        store.register_decider(&"RestaurantMenuChanged".to_owned(), &"Restaurant".to_owned());
        store.register_decider(&"RestaurantMenuNotChanged".to_owned(), &"Restaurant".to_owned());
        store.register_decider(&"OrderPlaced".to_owned(), &"Restaurant".to_owned());
        store.register_decider(&"OrderNotPlaced".to_owned(), &"Restaurant".to_owned());
        store.register_decider(&"OrderCreated".to_owned(), &"Order".to_owned());
        store.register_decider(&"OrderNotCreated".to_owned(), &"Order".to_owned());
        store.register_decider(&"OrderPrepared".to_owned(), &"Order".to_owned());
        store.register_decider(&"OrderNotPrepared".to_owned(), &"Order".to_owned());
        store.register_view(&"view".to_owned(), pooling_delay, now);
        store.register_view(&"saga".to_owned(), pooling_delay, now);
        Application {
            store,
            restaurant_aggregate: restaurant_aggregate(),
            order_aggregate: order_aggregate(),
            restaurant_materialized_view: restaurant_materialized_view(),
            order_materialized_view: order_materialized_view(),
            order_saga_manager: order_saga_manager(),
        }
    }

    /// Submit a restaurant command to the restaurant aggregate.
    pub fn handle_restaurant_command(&mut self, command: &RestaurantCommand, now: u64) -> (r:
        Result<Vec<(RestaurantEvent, u128)>, HandleError>)
        requires
            old(self).wf(),
            old(self).store.events@.len() + 1 < u64::MAX,
        ensures
            final(self).wf(),
            final(self).restaurant_materialized_view == old(self).restaurant_materialized_view,
            final(self).order_materialized_view == old(self).order_materialized_view,
            final(self).store.locks == old(self).store.locks,
            !spec_restaurant_stream_decodes(
                old(self).store.events.deep_view(),
                command.deep_view(),
            ) ==> r == Err::<Vec<(RestaurantEvent, u128)>, HandleError>(
                HandleError::DecodeFailure,
            ) && final(self).store.events@ == old(self).store.events@,
            spec_restaurant_stream_decodes(
                old(self).store.events.deep_view(),
                command.deep_view(),
            ) && r is Ok ==> spec_appended_restaurant_ok(
                old(self).store.events.deep_view(),
                final(self).store.events.deep_view(),
                old(self).store.events@.len() as int,
                command.deep_view(),
                now,
            ),
            spec_restaurant_stream_decodes(
                old(self).store.events.deep_view(),
                command.deep_view(),
            ) && r is Err ==> final(self).store.events@ == old(self).store.events@,
    {
        self.restaurant_aggregate.handle(&mut self.store, command, now)
    }

    /// Submit an order command to the order aggregate.
    pub fn handle_order_command(&mut self, command: &OrderCommand, now: u64) -> (r: Result<
        Vec<(OrderEvent, u128)>,
        HandleError,
    >)
        requires
            old(self).wf(),
            old(self).store.events@.len() + 1 < u64::MAX,
        ensures
            final(self).wf(),
            final(self).restaurant_materialized_view == old(self).restaurant_materialized_view,
            final(self).order_materialized_view == old(self).order_materialized_view,
            final(self).store.locks == old(self).store.locks,
            !spec_order_stream_decodes(
                old(self).store.events.deep_view(),
                command.deep_view(),
            ) ==> r == Err::<Vec<(OrderEvent, u128)>, HandleError>(HandleError::DecodeFailure)
                && final(self).store.events@ == old(self).store.events@,
            spec_order_stream_decodes(old(self).store.events.deep_view(), command.deep_view())
                && r is Ok ==> spec_appended_order_ok(
                old(self).store.events.deep_view(),
                final(self).store.events.deep_view(),
                old(self).store.events@.len() as int,
                command.deep_view(),
                now,
            ),
            spec_order_stream_decodes(old(self).store.events.deep_view(), command.deep_view())
                && r is Err ==> final(self).store.events@ == old(self).store.events@,
    {
        self.order_aggregate.handle(&mut self.store, command, now)
    }

    /// The restaurant projection stored for `id`, or none.
    pub fn get_restaurant(&self, id: u128) -> (r: Option<RestaurantViewState>)
        ensures
            r.deep_view() == crate::materialized_view::spec_row_lookup(
                self.restaurant_materialized_view.repository.rows.deep_view(),
                id,
            ),
    {
        self.restaurant_materialized_view.repository.get_restaurant(id)
    }

    /// Every stored restaurant projection.
    pub fn get_all_restaurants(&self) -> (r: Vec<RestaurantViewState>)
        ensures
            r.deep_view().len() == self.restaurant_materialized_view.repository.rows.deep_view()
                .len(),
            forall|i: int|
                0 <= i < self.restaurant_materialized_view.repository.rows.deep_view().len()
                    ==> #[trigger] r.deep_view()[i] == self.restaurant_materialized_view
                    .repository.rows.deep_view()[i].1,
    {
        self.restaurant_materialized_view.repository.get_all_restaurants()
    }

    /// The order projection stored for `id`, or none.
    pub fn get_order(&self, id: u128) -> (r: Option<OrderViewState>)
        ensures
            r.deep_view() == crate::materialized_view::spec_row_lookup(
                self.order_materialized_view.repository.rows.deep_view(),
                id,
            ),
    {
        self.order_materialized_view.repository.get_order(id)
    }

    /// Every stored order projection.
    pub fn get_all_orders(&self) -> (r: Vec<OrderViewState>)
        ensures
            r.deep_view().len() == self.order_materialized_view.repository.rows.deep_view().len(),
            forall|i: int|
                0 <= i < self.order_materialized_view.repository.rows.deep_view().len()
                    ==> #[trigger] r.deep_view()[i] == self.order_materialized_view.repository
                    .rows.deep_view()[i].1,
    {
        self.order_materialized_view.repository.get_all_orders()
    }
}

} // verus!
