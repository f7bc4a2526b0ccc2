//! The order view: a pure event-driven projection
//! `(initial_state, evolve)` feeding the order materialized view.
use vstd::prelude::*;

use crate::api::{
    OrderEvent, OrderId, OrderLineItem, OrderStatus, RestaurantId, SpecOrderEvent,
    SpecOrderLineItem, clone_line_items,
};

verus! {

/// The projected state of one order.
#[derive(PartialEq, Eq, Debug)]
pub struct OrderViewState {
    pub identifier: OrderId,
    pub restaurant_identifier: RestaurantId,
    pub status: OrderStatus,
    pub line_items: Vec<OrderLineItem>,
}

/// Model of an [`OrderViewState`].
pub struct SpecOrderViewState {
    pub identifier: OrderId,
    pub restaurant_identifier: RestaurantId,
    pub status: OrderStatus,
    pub line_items: Seq<SpecOrderLineItem>,
}

impl DeepView for OrderViewState {
    type V = SpecOrderViewState;

    open spec fn deep_view(&self) -> SpecOrderViewState {
        SpecOrderViewState {
            identifier: self.identifier,
            restaurant_identifier: self.restaurant_identifier,
            status: self.status,
            line_items: self.line_items.deep_view(),
        }
    }
}

impl Clone for OrderViewState {
    fn clone(&self) -> (r: Self)
        ensures
            r.deep_view() == self.deep_view(),
    {
        OrderViewState {
            identifier: self.identifier,
            restaurant_identifier: self.restaurant_identifier,
            status: self.status,
            line_items: clone_line_items(&self.line_items),
        }
    }
}

/// Clone an optional order projection, keeping its model.
pub fn clone_order_view_state(state: &Option<OrderViewState>) -> (r: Option<OrderViewState>)
    ensures
        r.deep_view() == state.deep_view(),
{
    match state {
        Some(s) => Some(s.clone()),
        None => None,
    }
}

/// What the view's `evolve` returns, as a function of the models.
pub open spec fn spec_evolve_order_view(
    state: Option<SpecOrderViewState>,
    event: SpecOrderEvent,
) -> Option<SpecOrderViewState> {
    match event {
        SpecOrderEvent::Created(e) => Some(
            SpecOrderViewState {
                identifier: e.identifier,
                restaurant_identifier: e.restaurant_identifier,
                status: e.status,
                line_items: e.line_items,
            },
        ),
        SpecOrderEvent::NotCreated(_) => state,
        SpecOrderEvent::Prepared(e) => match state {
            Some(s) => Some(
                SpecOrderViewState {
                    identifier: e.identifier,
                    restaurant_identifier: s.restaurant_identifier,
                    status: e.status,
                    line_items: s.line_items,
                },
            ),
            None => None,
        },
        SpecOrderEvent::NotPrepared(_) => state,
    }
}

/// Applying the same event twice to the order view leaves the same
/// projection as applying it once.
pub proof fn lemma_order_view_idempotent(
    state: Option<SpecOrderViewState>,
    event: SpecOrderEvent,
)
    ensures
        spec_evolve_order_view(spec_evolve_order_view(state, event), event)
            == spec_evolve_order_view(state, event),
{
}

/// The order view, a record of `evolve` and `initial_state`.
pub struct OrderView;

impl OrderView {
    /// The projection before any event: absent.
    pub fn initial_state(&self) -> (r: Option<OrderViewState>)
        ensures
            r is None,
    {
        None
    }

    /// Evolve the projection by one event; negative events leave it unchanged.
    pub fn evolve(&self, state: &Option<OrderViewState>, event: &OrderEvent) -> (r: Option<
        OrderViewState,
    >)
        ensures
            r.deep_view() == spec_evolve_order_view(state.deep_view(), event.deep_view()),
    {
        match event {
            OrderEvent::Created(event) => Some(
                OrderViewState {
                    identifier: event.identifier,
                    restaurant_identifier: event.restaurant_identifier,
                    status: event.status,
                    line_items: clone_line_items(&event.line_items),
                },
            ),
            OrderEvent::NotCreated(..) => clone_order_view_state(state),
            OrderEvent::Prepared(event) => match state {
                Some(s) => Some(
                    OrderViewState {
                        identifier: event.identifier,
                        restaurant_identifier: s.restaurant_identifier,
                        status: event.status,
                        line_items: clone_line_items(&s.line_items),
                    },
                ),
                None => None,
            },
            OrderEvent::NotPrepared(..) => clone_order_view_state(state),
        }
    }
}

/// Build the order view.
pub fn order_view() -> OrderView {
    OrderView
}

} // verus!
