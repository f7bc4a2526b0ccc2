//! The order saga: a pure reaction turning restaurant events into order
//! commands. Only a placed order triggers a command; every other event
//! reacts with nothing.
use vstd::prelude::*;

use crate::api::{
    CreateOrder, OrderCommand, RestaurantEvent, SpecCreateOrder, SpecOrderCommand,
    SpecRestaurantEvent, clone_line_items,
};

verus! {

/// What `react` returns, as a function of the event model.
pub open spec fn spec_react_order_saga(event: SpecRestaurantEvent) -> Seq<SpecOrderCommand> {
    match event {
        SpecRestaurantEvent::OrderPlaced(e) => seq![
            SpecOrderCommand::Create(
                SpecCreateOrder {
                    identifier: e.order_identifier,
                    restaurant_identifier: e.identifier,
                    line_items: e.line_items,
                },
            ),
        ],
        _ => Seq::empty(),
    }
}

/// The order saga, a record of `react`.
pub struct OrderSaga;

impl OrderSaga {
    /// React to a restaurant event with the order commands it requires.
    pub fn react(&self, event: &RestaurantEvent) -> (r: Vec<OrderCommand>)
        ensures
            r.deep_view() == spec_react_order_saga(event.deep_view()),
    {
        let r: Vec<OrderCommand> = match event {
            RestaurantEvent::OrderPlaced(event) => {
                vec![
                    OrderCommand::Create(
                        CreateOrder {
                            identifier: event.order_identifier,
                            restaurant_identifier: event.identifier,
                            line_items: clone_line_items(&event.line_items),
                        },
                    ),
                ]
            },
            RestaurantEvent::OrderNotPlaced(..) => Vec::new(),
            RestaurantEvent::NotCreated(..) => Vec::new(),
            RestaurantEvent::MenuNotChanged(..) => Vec::new(),
            RestaurantEvent::Created(..) => Vec::new(),
            RestaurantEvent::MenuChanged(..) => Vec::new(),
        };
        proof {
            assert(r.deep_view() =~= spec_react_order_saga(event.deep_view()));
        }
        r
    }
}

/// Build the order saga.
pub fn order_saga() -> OrderSaga {
    OrderSaga
}

} // verus!
