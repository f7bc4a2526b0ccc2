//! The restaurant decider: a pure command-driven state machine
//! `(initial_state, decide, evolve)` over restaurant commands and events.
use vstd::prelude::*;

use crate::api::{
    OrderNotPlaced, OrderPlaced, Reason, RestaurantCommand, RestaurantCreated, RestaurantEvent,
    RestaurantId, RestaurantMenu, RestaurantMenuChanged, RestaurantMenuNotChanged, RestaurantName,
    RestaurantNotCreated, SpecRestaurantCommand, SpecRestaurantEvent, SpecRestaurantCreated,
    SpecRestaurantNotCreated, SpecRestaurantMenuChanged, SpecRestaurantMenuNotChanged,
    SpecOrderPlaced, SpecOrderNotPlaced, SpecRestaurantMenu, clone_menu_items, clone_line_items,
};

verus! {

/// The state of one restaurant stream.
#[derive(PartialEq, Eq, Debug)]
pub struct Restaurant {
    pub identifier: RestaurantId,
    pub name: RestaurantName,
    pub menu: RestaurantMenu,
}

/// Model of a [`Restaurant`].
pub struct SpecRestaurant {
    pub identifier: RestaurantId,
    pub name: Seq<char>,
    pub menu: SpecRestaurantMenu,
}

impl DeepView for Restaurant {
    type V = SpecRestaurant;

    open spec fn deep_view(&self) -> SpecRestaurant {
        SpecRestaurant {
            identifier: self.identifier,
            name: self.name.deep_view(),
            menu: self.menu.deep_view(),
        }
    }
}

impl Clone for Restaurant {
    fn clone(&self) -> (r: Self)
        ensures
            r.deep_view() == self.deep_view(),
    {
        Restaurant {
            identifier: self.identifier,
            name: self.name.clone(),
            menu: self.menu.clone(),
        }
    }
}

/// Clone an optional restaurant state, keeping its model.
pub fn clone_restaurant_state(state: &Option<Restaurant>) -> (r: Option<Restaurant>)
    ensures
        r.deep_view() == state.deep_view(),
{
    match state {
        Some(s) => Some(s.clone()),
        None => None,
    }
}

/// What `decide` returns, as a function of the command and state models.
pub open spec fn spec_decide_restaurant(
    command: SpecRestaurantCommand,
    state: Option<SpecRestaurant>,
) -> Seq<SpecRestaurantEvent> {
    match command {
        SpecRestaurantCommand::CreateRestaurant(c) => if state is Some {
            seq![
                SpecRestaurantEvent::NotCreated(
                    SpecRestaurantNotCreated {
                        identifier: c.identifier,
                        name: c.name,
                        menu: c.menu,
                        reason: "Restaurant already exists"@,
                    },
                ),
            ]
        } else {
            seq![
                SpecRestaurantEvent::Created(
                    SpecRestaurantCreated { identifier: c.identifier, name: c.name, menu: c.menu },
                ),
            ]
        },
        SpecRestaurantCommand::ChangeMenu(c) => if state is Some {
            seq![
                SpecRestaurantEvent::MenuChanged(
                    SpecRestaurantMenuChanged { identifier: c.identifier, menu: c.menu },
                ),
            ]
        } else {
            seq![
                SpecRestaurantEvent::MenuNotChanged(
                    SpecRestaurantMenuNotChanged {
                        identifier: c.identifier,
                        menu: c.menu,
                        reason: "Restaurant does not exist"@,
                    },
                ),
            ]
        },
        SpecRestaurantCommand::PlaceOrder(c) => if state is Some {
            seq![
                SpecRestaurantEvent::OrderPlaced(
                    SpecOrderPlaced {
                        identifier: c.identifier,
                        order_identifier: c.order_identifier,
                        line_items: c.line_items,
                    },
                ),
            ]
        } else {
            seq![
                SpecRestaurantEvent::OrderNotPlaced(
                    SpecOrderNotPlaced {
                        identifier: c.identifier,
                        order_identifier: c.order_identifier,
                        line_items: c.line_items,
                        reason: "Restaurant does not exist"@,
                    },
                ),
            ]
        },
    }
}

/// What `evolve` returns, as a function of the state and event models.
pub open spec fn spec_evolve_restaurant(
    state: Option<SpecRestaurant>,
    event: SpecRestaurantEvent,
) -> Option<SpecRestaurant> {
    match event {
        SpecRestaurantEvent::Created(e) => Some(
            SpecRestaurant { identifier: e.identifier, name: e.name, menu: e.menu },
        ),
        SpecRestaurantEvent::NotCreated(_) => state,
        SpecRestaurantEvent::MenuChanged(e) => match state {
            Some(s) => Some(
                SpecRestaurant { identifier: e.identifier, name: s.name, menu: e.menu },
            ),
            None => None,
        },
        SpecRestaurantEvent::MenuNotChanged(_) => state,
        SpecRestaurantEvent::OrderPlaced(e) => match state {
            Some(s) => Some(
                SpecRestaurant { identifier: e.identifier, name: s.name, menu: s.menu },
            ),
            None => None,
        },
        SpecRestaurantEvent::OrderNotPlaced(_) => state,
    }
}

/// Folding a sequence of events from a state, event by event.
pub open spec fn spec_fold_restaurant(
    state: Option<SpecRestaurant>,
    events: Seq<SpecRestaurantEvent>,
) -> Option<SpecRestaurant>
    decreases events.len(),
{
    if events.len() == 0 {
        state
    } else {
        spec_fold_restaurant(spec_evolve_restaurant(state, events[0]), events.drop_first())
    }
}

/// Folding a longer sequence folds its front first.
pub proof fn lemma_fold_restaurant_append(
    state: Option<SpecRestaurant>,
    a: Seq<SpecRestaurantEvent>,
    b: Seq<SpecRestaurantEvent>,
)
    ensures
        spec_fold_restaurant(state, a + b) == spec_fold_restaurant(spec_fold_restaurant(state, a), b),
    decreases a.len(),
{
    if a.len() == 0 {
        assert(a + b =~= b);
    } else {
        assert((a + b).drop_first() =~= a.drop_first() + b);
        lemma_fold_restaurant_append(spec_evolve_restaurant(state, a[0]), a.drop_first(), b);
    }
}

/// The restaurant decider, a record of `decide`, `evolve` and `initial_state`.
pub struct RestaurantDecider;

impl RestaurantDecider {
    /// The state before any event: no restaurant.
    pub fn initial_state(&self) -> (r: Option<Restaurant>)
        ensures
            r is None,
    {
        None
    }

    /// Decide new events from the current state and the command.
    /// Refusals come back as negative events, never as errors.
    pub fn decide(&self, command: &RestaurantCommand, state: &Option<Restaurant>) -> (r: Vec<
        RestaurantEvent,
    >)
        ensures
            r.deep_view() == spec_decide_restaurant(command.deep_view(), state.deep_view()),
    {
        let r: Vec<RestaurantEvent> = match command {
            RestaurantCommand::CreateRestaurant(command) => {
                if state.is_some() {
                    vec![
                        RestaurantEvent::NotCreated(
                            RestaurantNotCreated {
                                identifier: command.identifier,
                                name: command.name.clone(),
                                menu: command.menu.clone(),
                                reason: Reason("Restaurant already exists".to_owned()),
                            },
                        ),
                    ]
                } else {
                    vec![
                        RestaurantEvent::Created(
                            RestaurantCreated {
                                identifier: command.identifier,
                                name: command.name.clone(),
                                menu: command.menu.clone(),
                            },
                        ),
                    ]
                }
            },
            RestaurantCommand::ChangeMenu(command) => {
                if state.is_some() {
                    vec![
                        RestaurantEvent::MenuChanged(
                            RestaurantMenuChanged {
                                identifier: command.identifier,
                                menu: command.menu.clone(),
                            },
                        ),
                    ]
                } else {
                    vec![
                        RestaurantEvent::MenuNotChanged(
                            RestaurantMenuNotChanged {
                                identifier: command.identifier,
                                menu: command.menu.clone(),
                                reason: Reason("Restaurant does not exist".to_owned()),
                            },
                        ),
                    ]
                }
            },
            RestaurantCommand::PlaceOrder(command) => {
                if state.is_some() {
                    vec![
                        RestaurantEvent::OrderPlaced(
                            OrderPlaced {
                                identifier: command.identifier,
                                order_identifier: command.order_identifier,
                                line_items: clone_line_items(&command.line_items),
                            },
                        ),
                    ]
                } else {
                    vec![
                        RestaurantEvent::OrderNotPlaced(
                            OrderNotPlaced {
                                identifier: command.identifier,
                                order_identifier: command.order_identifier,
                                line_items: clone_line_items(&command.line_items),
                                reason: Reason("Restaurant does not exist".to_owned()),
                            },
                        ),
                    ]
                }
            },
        };
        proof {
            assert(r.deep_view() =~= spec_decide_restaurant(
                command.deep_view(),
                state.deep_view(),
            ));
        }
        r
    }

    /// Evolve the state by one event; negative events leave it unchanged.
    pub fn evolve(&self, state: &Option<Restaurant>, event: &RestaurantEvent) -> (r: Option<
        Restaurant,
    >)
        ensures
            r.deep_view() == spec_evolve_restaurant(state.deep_view(), event.deep_view()),
    {
        match event {
            RestaurantEvent::Created(event) => Some(
                Restaurant {
                    identifier: event.identifier,
                    name: event.name.clone(),
                    menu: event.menu.clone(),
                },
            ),
            RestaurantEvent::NotCreated(..) => clone_restaurant_state(state),
            RestaurantEvent::MenuChanged(event) => match state {
                Some(s) => Some(
                    Restaurant {
                        identifier: event.identifier,
                        name: s.name.clone(),
                        menu: event.menu.clone(),
                    },
                ),
                None => None,
            },
            RestaurantEvent::MenuNotChanged(..) => clone_restaurant_state(state),
            RestaurantEvent::OrderPlaced(event) => match state {
                Some(s) => Some(
                    Restaurant {
                        identifier: event.identifier,
                        name: s.name.clone(),
                        menu: s.menu.clone(),
                    },
                ),
                None => None,
            },
            RestaurantEvent::OrderNotPlaced(..) => clone_restaurant_state(state),
        }
    }
}

/// Build the restaurant decider.
pub fn restaurant_decider() -> RestaurantDecider {
    RestaurantDecider
}

} // verus!
