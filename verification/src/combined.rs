//! Composing the two deciders: one decider over the disjoint union of the
//! command and event families, whose `decide` dispatches on the command
//! variant and whose `evolve` dispatches on the event variant. It lets one
//! monolithic host drive both families over a single log.
use vstd::prelude::*;

use crate::api::{
    DeciderName, EventName, Identifier, OrderCommand, OrderEvent, RestaurantCommand,
    RestaurantEvent, SpecOrderCommand, SpecOrderEvent, SpecRestaurantCommand,
    SpecRestaurantEvent, spec_order_command_id, spec_order_event_id, spec_order_event_name,
    spec_restaurant_command_id, spec_restaurant_event_id, spec_restaurant_event_name,
};
use crate::order_decider::{
    Order, OrderDecider, SpecOrder, clone_order_state, order_decider, spec_decide_order,
    spec_evolve_order,
};
use crate::restaurant_decider::{
    Restaurant, RestaurantDecider, SpecRestaurant, clone_restaurant_state, restaurant_decider,
    spec_decide_restaurant, spec_evolve_restaurant,
};

verus! {

/// All command variants that can be sent: one family or the other.
#[derive(PartialEq, Eq, Debug)]
pub enum Command {
    First(RestaurantCommand),
    Second(OrderCommand),
}

/// All event variants that can be stored: one family or the other.
#[derive(PartialEq, Eq, Debug)]
pub enum Event {
    First(RestaurantEvent),
    Second(OrderEvent),
}

/// Model of a [`Command`].
pub enum SpecCommand {
    First(SpecRestaurantCommand),
    Second(SpecOrderCommand),
}

/// Model of an [`Event`].
pub enum SpecEvent {
    First(SpecRestaurantEvent),
    Second(SpecOrderEvent),
}

impl DeepView for Command {
    type V = SpecCommand;

    open spec fn deep_view(&self) -> SpecCommand {
        match self {
            Command::First(c) => SpecCommand::First(c.deep_view()),
            Command::Second(c) => SpecCommand::Second(c.deep_view()),
        }
    }
}

impl DeepView for Event {
    type V = SpecEvent;

    open spec fn deep_view(&self) -> SpecEvent {
        match self {
            Event::First(e) => SpecEvent::First(e.deep_view()),
            Event::Second(e) => SpecEvent::Second(e.deep_view()),
        }
    }
}

impl Identifier for Command {
    open spec fn spec_identifier(&self) -> u128 {
        match self {
            Command::First(c) => spec_restaurant_command_id(c.deep_view()),
            Command::Second(c) => spec_order_command_id(c.deep_view()),
        }
    }

    fn identifier(&self) -> (r: u128)
        ensures
            r == self.spec_identifier(),
    {
        match self {
            Command::First(c) => c.identifier(),
            Command::Second(c) => c.identifier(),
        }
    }
}

impl Identifier for Event {
    open spec fn spec_identifier(&self) -> u128 {
        match self {
            Event::First(e) => spec_restaurant_event_id(e.deep_view()),
            Event::Second(e) => spec_order_event_id(e.deep_view()),
        }
    }

    fn identifier(&self) -> (r: u128)
        ensures
            r == self.spec_identifier(),
    {
        match self {
            Event::First(e) => e.identifier(),
            Event::Second(e) => e.identifier(),
        }
    }
}

impl DeciderName for Event {
    open spec fn spec_decider_name(&self) -> Seq<char> {
        match self {
            Event::First(_) => "Restaurant"@,
            Event::Second(_) => "Order"@,
        }
    }

    fn decider_name(&self) -> (r: String)
        ensures
            r@ == self.spec_decider_name(),
    {
        match self {
            Event::First(e) => e.decider_name(),
            Event::Second(e) => e.decider_name(),
        }
    }
}

impl EventName for Event {
    open spec fn spec_event_name(&self) -> Seq<char> {
        match self {
            Event::First(e) => spec_restaurant_event_name(e.deep_view()),
            Event::Second(e) => spec_order_event_name(e.deep_view()),
        }
    }

    fn event_name(&self) -> (r: String)
        ensures
            r@ == self.spec_event_name(),
    {
        match self {
            Event::First(e) => e.event_name(),
            Event::Second(e) => e.event_name(),
        }
    }
}

/// What the combined `decide` returns: the deciding family's events,
/// injected into the union.
pub open spec fn spec_decide_combined(
    command: SpecCommand,
    state: (Option<SpecRestaurant>, Option<SpecOrder>),
) -> Seq<SpecEvent> {
    match command {
        SpecCommand::First(c) => spec_decide_restaurant(c, state.0).map_values(
            |e: SpecRestaurantEvent| SpecEvent::First(e),
        ),
        SpecCommand::Second(c) => spec_decide_order(c, state.1).map_values(
            |e: SpecOrderEvent| SpecEvent::Second(e),
        ),
    }
}

/// What the combined `evolve` returns: the event's family evolves its own
/// half of the state; the other half is untouched.
pub open spec fn spec_evolve_combined(
    state: (Option<SpecRestaurant>, Option<SpecOrder>),
    event: SpecEvent,
) -> (Option<SpecRestaurant>, Option<SpecOrder>) {
    match event {
        SpecEvent::First(e) => (spec_evolve_restaurant(state.0, e), state.1),
        SpecEvent::Second(e) => (state.0, spec_evolve_order(state.1, e)),
    }
}

/// The combined decider over both families.
pub struct CombinedDecider {
    pub restaurant: RestaurantDecider,
    pub order: OrderDecider,
}

/// Build the combined decider from the two family deciders.
pub fn combined_decider() -> CombinedDecider {
    CombinedDecider { restaurant: restaurant_decider(), order: order_decider() }
}

impl CombinedDecider {
    /// The paired initial state: neither family exists yet.
    pub fn initial_state(&self) -> (s: (Option<Restaurant>, Option<Order>))
        ensures
            s.0 is None,
            s.1 is None,
    {
        (None, None)
    }

    /// Decide by dispatching on the command's family.
    pub fn decide(&self, command: &Command, state: &(Option<Restaurant>, Option<Order>)) -> (r:
        Vec<Event>)
        ensures
            r.deep_view() == spec_decide_combined(command.deep_view(), state.deep_view()),
    {
        match command {
            Command::First(c) => {
                let mut events = self.restaurant.decide(c, &state.0);
                let ghost devents = events.deep_view();
                let mut out: Vec<Event> = Vec::new();
                proof {
                    crate::aggregate::lemma_vec_events_deep(&events);
                }
                while events.len() > 0
                    invariant
                        devents.len() == events@.len() + out@.len(),
                        forall|i: int|
                            0 <= i < events@.len() ==> #[trigger] events@[i].deep_view()
                                == devents[out@.len() + i],
                        forall|i: int|
                            0 <= i < out@.len() ==> #[trigger] out@[i].deep_view()
                                == SpecEvent::First(devents[i]),
                    decreases events.len(),
                {
                    let e = events.remove(0);
                    out.push(Event::First(e));
                }
                proof {
                    lemma_vec_union_events_deep(&out);
                    assert(out.deep_view() =~= spec_decide_combined(
                        command.deep_view(),
                        state.deep_view(),
                    ));
                }
                out
            },
            Command::Second(c) => {
                let mut events = self.order.decide(c, &state.1);
                let ghost devents = events.deep_view();
                let mut out: Vec<Event> = Vec::new();
                proof {
                    crate::order_aggregate::lemma_vec_events_deep(&events);
                }
                while events.len() > 0
                    invariant
                        devents.len() == events@.len() + out@.len(),
                        forall|i: int|
                            0 <= i < events@.len() ==> #[trigger] events@[i].deep_view()
                                == devents[out@.len() + i],
                        forall|i: int|
                            0 <= i < out@.len() ==> #[trigger] out@[i].deep_view()
                                == SpecEvent::Second(devents[i]),
                    decreases events.len(),
                {
                    let e = events.remove(0);
                    out.push(Event::Second(e));
                }
                proof {
                    lemma_vec_union_events_deep(&out);
                    assert(out.deep_view() =~= spec_decide_combined(
                        command.deep_view(),
                        state.deep_view(),
                    ));
                }
                out
            },
        }
    }

    /// Evolve by dispatching on the event's family.
    pub fn evolve(&self, state: &(Option<Restaurant>, Option<Order>), event: &Event) -> (r: (
        Option<Restaurant>,
        Option<Order>,
    ))
        ensures
            r.deep_view() == spec_evolve_combined(state.deep_view(), event.deep_view()),
    {
        match event {
            Event::First(e) => (self.restaurant.evolve(&state.0, e), clone_order_state(
                &state.1,
            )),
            Event::Second(e) => (clone_restaurant_state(&state.0), self.order.evolve(
                &state.1,
                e,
            )),
        }
    }
}

/// The model of a vector of union events is pointwise.
pub proof fn lemma_vec_union_events_deep(v: &Vec<Event>)
    ensures
        v.deep_view().len() == v@.len(),
        forall|i: int| 0 <= i < v@.len() ==> #[trigger] v.deep_view()[i] == v@[i].deep_view(),
{
}

} // verus!
