//! The restaurant view: a pure event-driven projection
//! `(initial_state, evolve)` feeding the restaurant materialized view.
use vstd::prelude::*;

use crate::api::{
    RestaurantEvent, RestaurantId, RestaurantMenu, RestaurantName, SpecRestaurantEvent,
    SpecRestaurantMenu,
};

verus! {

/// The projected state of one restaurant.
#[derive(PartialEq, Eq, Debug)]
pub struct RestaurantViewState {
    pub identifier: RestaurantId,
    pub name: RestaurantName,
    pub menu: RestaurantMenu,
}

/// Model of a [`RestaurantViewState`].
pub struct SpecRestaurantViewState {
    pub identifier: RestaurantId,
    pub name: Seq<char>,
    pub menu: SpecRestaurantMenu,
}

impl DeepView for RestaurantViewState {
    type V = SpecRestaurantViewState;

    open spec fn deep_view(&self) -> SpecRestaurantViewState {
        SpecRestaurantViewState {
            identifier: self.identifier,
            name: self.name.deep_view(),
            menu: self.menu.deep_view(),
        }
    }
}

impl Clone for RestaurantViewState {
    fn clone(&self) -> (r: Self)
        ensures
            r.deep_view() == self.deep_view(),
    {
        RestaurantViewState {
            identifier: self.identifier,
            name: self.name.clone(),
            menu: self.menu.clone(),
        }
    }
}

/// Clone an optional restaurant projection, keeping its model.
pub fn clone_restaurant_view_state(state: &Option<RestaurantViewState>) -> (r: Option<
    RestaurantViewState,
>)
    ensures
        r.deep_view() == state.deep_view(),
{
    match state {
        Some(s) => Some(s.clone()),
        None => None,
    }
}

/// What the view's `evolve` returns, as a function of the models.
pub open spec fn spec_evolve_restaurant_view(
    state: Option<SpecRestaurantViewState>,
    event: SpecRestaurantEvent,
) -> Option<SpecRestaurantViewState> {
    match event {
        SpecRestaurantEvent::Created(e) => Some(
            SpecRestaurantViewState { identifier: e.identifier, name: e.name, menu: e.menu },
        ),
        SpecRestaurantEvent::NotCreated(_) => state,
        SpecRestaurantEvent::MenuChanged(e) => match state {
            Some(s) => Some(
                SpecRestaurantViewState { identifier: e.identifier, name: s.name, menu: e.menu },
            ),
            None => None,
        },
        SpecRestaurantEvent::MenuNotChanged(_) => state,
        SpecRestaurantEvent::OrderPlaced(e) => match state {
            Some(s) => Some(
                SpecRestaurantViewState { identifier: e.identifier, name: s.name, menu: s.menu },
            ),
            None => None,
        },
        SpecRestaurantEvent::OrderNotPlaced(_) => state,
    }
}

/// Applying the same event twice to the restaurant view leaves the same
/// projection as applying it once.
pub proof fn lemma_restaurant_view_idempotent(
    state: Option<SpecRestaurantViewState>,
    event: SpecRestaurantEvent,
)
    ensures
        spec_evolve_restaurant_view(spec_evolve_restaurant_view(state, event), event)
            == spec_evolve_restaurant_view(state, event),
{
}

/// The restaurant view, a record of `evolve` and `initial_state`.
pub struct RestaurantView;

impl RestaurantView {
    /// The projection before any event: absent.
    pub fn initial_state(&self) -> (r: Option<RestaurantViewState>)
        ensures
            r is None,
    {
        None
    }

    /// Evolve the projection by one event; negative events leave it unchanged.
    pub fn evolve(&self, state: &Option<RestaurantViewState>, event: &RestaurantEvent) -> (r:
        Option<RestaurantViewState>)
        ensures
            r.deep_view() == spec_evolve_restaurant_view(state.deep_view(), event.deep_view()),
    {
        match event {
            RestaurantEvent::Created(event) => Some(
                RestaurantViewState {
                    identifier: event.identifier,
                    name: event.name.clone(),
                    menu: event.menu.clone(),
                },
            ),
            RestaurantEvent::NotCreated(..) => clone_restaurant_view_state(state),
            RestaurantEvent::MenuChanged(event) => match state {
                Some(s) => Some(
                    RestaurantViewState {
                        identifier: event.identifier,
                        name: s.name.clone(),
                        menu: event.menu.clone(),
                    },
                ),
                None => None,
            },
            RestaurantEvent::MenuNotChanged(..) => clone_restaurant_view_state(state),
            RestaurantEvent::OrderPlaced(event) => match state {
                Some(s) => Some(
                    RestaurantViewState {
                        identifier: event.identifier,
                        name: s.name.clone(),
                        menu: s.menu.clone(),
                    },
                ),
                None => None,
            },
            RestaurantEvent::OrderNotPlaced(..) => clone_restaurant_view_state(state),
        }
    }
}

/// Build the restaurant view.
pub fn restaurant_view() -> RestaurantView {
    RestaurantView
}

} // verus!
