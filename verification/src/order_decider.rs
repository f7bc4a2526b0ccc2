//! The order decider: a pure command-driven state machine
//! `(initial_state, decide, evolve)` over order commands and events.
use vstd::prelude::*;

use crate::api::{
    OrderCommand, OrderCreated, OrderEvent, OrderId, OrderLineItem, OrderNotCreated,
    OrderNotPrepared, OrderPrepared, OrderStatus, Reason, RestaurantId, SpecOrderCommand,
    SpecOrderCreated, SpecOrderEvent, SpecOrderLineItem, SpecOrderNotCreated, SpecOrderNotPrepared,
    clone_line_items,
};

verus! {

/// The state of one order stream.
#[derive(PartialEq, Eq, Debug)]
pub struct Order {
    pub identifier: OrderId,
    pub restaurant_identifier: RestaurantId,
    pub status: OrderStatus,
    pub line_items: Vec<OrderLineItem>,
}

/// Model of an [`Order`].
pub struct SpecOrder {
    pub identifier: OrderId,
    pub restaurant_identifier: RestaurantId,
    pub status: OrderStatus,
    pub line_items: Seq<SpecOrderLineItem>,
}

impl DeepView for Order {
    type V = SpecOrder;

    open spec fn deep_view(&self) -> SpecOrder {
        SpecOrder {
            identifier: self.identifier,
            restaurant_identifier: self.restaurant_identifier,
            status: self.status,
            line_items: self.line_items.deep_view(),
        }
    }
}

impl Clone for Order {
    fn clone(&self) -> (r: Self)
        ensures
            r.deep_view() == self.deep_view(),
    {
        Order {
            identifier: self.identifier,
            restaurant_identifier: self.restaurant_identifier,
            status: self.status,
            line_items: clone_line_items(&self.line_items),
        }
    }
}

/// Clone an optional order state, keeping its model.
pub fn clone_order_state(state: &Option<Order>) -> (r: Option<Order>)
    ensures
        r.deep_view() == state.deep_view(),
{
    match state {
        Some(s) => Some(s.clone()),
        None => None,
    }
}

/// What `decide` returns, as a function of the command and state models.
pub open spec fn spec_decide_order(
    command: SpecOrderCommand,
    state: Option<SpecOrder>,
) -> Seq<SpecOrderEvent> {
    match command {
        SpecOrderCommand::Create(c) => if state is Some {
            seq![
                SpecOrderEvent::NotCreated(
                    SpecOrderNotCreated {
                        identifier: c.identifier,
                        restaurant_identifier: c.restaurant_identifier,
                        line_items: c.line_items,
                        reason: "Order already exists"@,
                    },
                ),
            ]
        } else {
            seq![
                SpecOrderEvent::Created(
                    SpecOrderCreated {
                        identifier: c.identifier,
                        restaurant_identifier: c.restaurant_identifier,
                        status: OrderStatus::Created,
                        line_items: c.line_items,
                    },
                ),
            ]
        },
        SpecOrderCommand::MarkAsPrepared(c) => if state matches Some(s) && s.status
            == OrderStatus::Created {
            seq![
                SpecOrderEvent::Prepared(
                    OrderPrepared { identifier: c.identifier, status: OrderStatus::Prepared },
                ),
            ]
        } else {
            seq![
                SpecOrderEvent::NotPrepared(
                    SpecOrderNotPrepared {
                        identifier: c.identifier,
                        reason: "Order in the wrong status previously"@,
                    },
                ),
            ]
        },
    }
}

/// What `evolve` returns, as a function of the state and event models.
pub open spec fn spec_evolve_order(
    state: Option<SpecOrder>,
    event: SpecOrderEvent,
) -> Option<SpecOrder> {
    match event {
        SpecOrderEvent::Created(e) => Some(
            SpecOrder {
                identifier: e.identifier,
                restaurant_identifier: e.restaurant_identifier,
                status: e.status,
                line_items: e.line_items,
            },
        ),
        SpecOrderEvent::NotCreated(_) => state,
        SpecOrderEvent::Prepared(e) => match state {
            Some(s) => Some(
                SpecOrder {
                    identifier: e.identifier,
                    restaurant_identifier: s.restaurant_identifier,
                    status: e.status,
                    line_items: s.line_items,
                },
            ),
            None => None,
        },
        SpecOrderEvent::NotPrepared(_) => state,
    }
}

/// Folding a sequence of events from a state, event by event.
pub open spec fn spec_fold_order(
    state: Option<SpecOrder>,
    events: Seq<SpecOrderEvent>,
) -> Option<SpecOrder>
    decreases events.len(),
{
    if events.len() == 0 {
        state
    } else {
        spec_fold_order(spec_evolve_order(state, events[0]), events.drop_first())
    }
}

/// Folding a longer sequence folds its front first.
pub proof fn lemma_fold_order_append(
    state: Option<SpecOrder>,
    a: Seq<SpecOrderEvent>,
    b: Seq<SpecOrderEvent>,
)
    ensures
        spec_fold_order(state, a + b) == spec_fold_order(spec_fold_order(state, a), b),
    decreases a.len(),
{
    if a.len() == 0 {
        assert(a + b =~= b);
    } else {
        assert((a + b).drop_first() =~= a.drop_first() + b);
        lemma_fold_order_append(spec_evolve_order(state, a[0]), a.drop_first(), b);
    }
}

/// The order decider, a record of `decide`, `evolve` and `initial_state`.
pub struct OrderDecider;

impl OrderDecider {
    /// The state before any event: no order.
    pub fn initial_state(&self) -> (r: Option<Order>)
        ensures
            r is None,
    {
        None
    }

    /// Decide new events from the current state and the command.
    /// Refusals come back as negative events, never as errors.
    pub fn decide(&self, command: &OrderCommand, state: &Option<Order>) -> (r: Vec<OrderEvent>)
        ensures
            r.deep_view() == spec_decide_order(command.deep_view(), state.deep_view()),
    {
        let r: Vec<OrderEvent> = match command {
            OrderCommand::Create(command) => {
                if state.is_some() {
                    vec![
                        OrderEvent::NotCreated(
                            OrderNotCreated {
                                identifier: command.identifier,
                                restaurant_identifier: command.restaurant_identifier,
                                line_items: clone_line_items(&command.line_items),
                                reason: Reason("Order already exists".to_owned()),
                            },
                        ),
                    ]
                } else {
                    vec![
                        OrderEvent::Created(
                            OrderCreated {
                                identifier: command.identifier,
                                restaurant_identifier: command.restaurant_identifier,
                                status: OrderStatus::Created,
                                line_items: clone_line_items(&command.line_items),
                            },
                        ),
                    ]
                }
            },
            OrderCommand::MarkAsPrepared(command) => {
                let created = match state {
                    Some(s) => s.status == OrderStatus::Created,
                    None => false,
                };
                if created {
                    vec![
                        OrderEvent::Prepared(
                            OrderPrepared {
                                identifier: command.identifier,
                                status: OrderStatus::Prepared,
                            },
                        ),
                    ]
                } else {
                    vec![
                        OrderEvent::NotPrepared(
                            OrderNotPrepared {
                                identifier: command.identifier,
                                reason: Reason("Order in the wrong status previously".to_owned()),
                            },
                        ),
                    ]
                }
            },
        };
        proof {
            assert(r.deep_view() =~= spec_decide_order(command.deep_view(), state.deep_view()));
        }
        r
    }

    /// Evolve the state by one event; negative events leave it unchanged.
    pub fn evolve(&self, state: &Option<Order>, event: &OrderEvent) -> (r: Option<Order>)
        ensures
            r.deep_view() == spec_evolve_order(state.deep_view(), event.deep_view()),
    {
        match event {
            OrderEvent::Created(event) => Some(
                Order {
                    identifier: event.identifier,
                    restaurant_identifier: event.restaurant_identifier,
                    status: event.status,
                    line_items: clone_line_items(&event.line_items),
                },
            ),
            OrderEvent::NotCreated(..) => clone_order_state(state),
            OrderEvent::Prepared(event) => match state {
                Some(s) => Some(
                    Order {
                        identifier: event.identifier,
                        restaurant_identifier: s.restaurant_identifier,
                        status: event.status,
                        line_items: clone_line_items(&s.line_items),
                    },
                ),
                None => None,
            },
            OrderEvent::NotPrepared(..) => clone_order_state(state),
        }
    }
}

/// Build the order decider.
pub fn order_decider() -> OrderDecider {
    OrderDecider
}

} // verus!
