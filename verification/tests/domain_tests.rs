use restaurant_cqrs::api::{
    ChangeRestaurantMenu, CreateOrder, CreateRestaurant, MarkOrderAsPrepared, MenuId, MenuItem,
    MenuItemId, MenuItemName, Money, OrderCommand, OrderCreated, OrderEvent, OrderId,
    OrderLineItem, OrderLineItemId, OrderLineItemQuantity, OrderPlaced, OrderPrepared,
    OrderStatus, RestaurantCommand, RestaurantCreated, RestaurantEvent, RestaurantId,
    RestaurantMenu, RestaurantMenuChanged, RestaurantMenuCuisine, RestaurantName,
};
use restaurant_cqrs::order_decider::{order_decider, Order};
use restaurant_cqrs::order_saga::order_saga;
use restaurant_cqrs::order_view::{order_view, OrderViewState};
use restaurant_cqrs::restaurant_decider::{restaurant_decider, Restaurant};
use restaurant_cqrs::restaurant_view::{restaurant_view, RestaurantViewState};
use uuid::Uuid;

fn id(s: &str) -> u128 {
    Uuid::parse_str(s).unwrap().as_u128()
}

fn order_line_items() -> Vec<OrderLineItem> {
    vec![OrderLineItem {
        id: OrderLineItemId(id("02f09a3f-1624-3b1d-8409-44eff7708209")),
        name: MenuItemName("Item 1".to_string()),
        quantity: OrderLineItemQuantity(1),
        menu_item_id: MenuItemId(id("02f09a3f-1624-3b1d-8409-44eff7708210")),
    }]
}

fn menu(cuisine: RestaurantMenuCuisine) -> RestaurantMenu {
    RestaurantMenu {
        menu_id: MenuId(id("02f09a3f-1624-3b1d-8409-44eff7708210")),
        items: vec![MenuItem {
            id: MenuItemId(id("02f09a3f-1624-3b1d-8409-44eff7708210")),
            name: MenuItemName("Item 1".to_string()),
            price: Money(1001),
        }],
        cuisine,
    }
}

#[test]
fn create_order_test() {
    let decider = order_decider();
    let identifier = OrderId(id("02f09a3f-1624-3b1d-8409-44eff7708207"));
    let restaurant_identifier = RestaurantId(id("02f09a3f-1624-3b1d-8409-44eff7708208"));
    let line_items = order_line_items();

    let create_order_command = OrderCommand::Create(CreateOrder {
        identifier,
        restaurant_identifier,
        line_items: clone_items(&line_items),
    });

    // given no events, when Create, then OrderCreated
    let new_events = decider.decide(&create_order_command, &None);
    assert_eq!(
        new_events,
        vec![OrderEvent::Created(OrderCreated {
            identifier,
            restaurant_identifier,
            status: OrderStatus::Created,
            line_items: clone_items(&line_items),
        })]
    );

    // given no state, when Create, then the new state holds the order
    let mut state: Option<Order> = None;
    for event in &new_events {
        state = decider.evolve(&state, event);
    }
    assert_eq!(
        state,
        Some(Order {
            identifier,
            restaurant_identifier,
            status: OrderStatus::Created,
            line_items: clone_items(&line_items),
        })
    );
}

#[test]
fn prepare_order_test() {
    let decider = order_decider();
    let identifier = OrderId(id("02f09a3f-1624-3b1d-8409-44eff7708207"));
    let restaurant_identifier = RestaurantId(id("02f09a3f-1624-3b1d-8409-44eff7708208"));
    let line_items = order_line_items();

    let mark_order_as_prepared = OrderCommand::MarkAsPrepared(MarkOrderAsPrepared { identifier });

    // given OrderCreated, when MarkAsPrepared, then OrderPrepared
    let given = vec![OrderEvent::Created(OrderCreated {
        identifier,
        restaurant_identifier,
        status: OrderStatus::Created,
        line_items: clone_items(&line_items),
    })];
    let mut state: Option<Order> = None;
    for event in &given {
        state = decider.evolve(&state, event);
    }
    let new_events = decider.decide(&mark_order_as_prepared, &state);
    assert_eq!(
        new_events,
        vec![OrderEvent::Prepared(OrderPrepared {
            identifier,
            status: OrderStatus::Prepared,
        })]
    );

    // given the created state, when MarkAsPrepared, then the state is prepared
    let mut new_state = state;
    for event in &new_events {
        new_state = decider.evolve(&new_state, event);
    }
    assert_eq!(
        new_state,
        Some(Order {
            identifier,
            restaurant_identifier,
            status: OrderStatus::Prepared,
            line_items: clone_items(&line_items),
        })
    );
}

#[test]
fn order_saga_test() {
    let saga = order_saga();
    let restaurant_identifier = RestaurantId(id("02f09a3f-1624-3b1d-8409-44eff7708208"));

    let order_placed_event = RestaurantEvent::OrderPlaced(OrderPlaced {
        identifier: restaurant_identifier,
        order_identifier: OrderId(id("02f09a3f-1624-3b1d-8409-44eff7708207")),
        line_items: order_line_items(),
    });

    let create_order_command = OrderCommand::Create(CreateOrder {
        identifier: OrderId(id("02f09a3f-1624-3b1d-8409-44eff7708207")),
        restaurant_identifier,
        line_items: order_line_items(),
    });

    let commands = saga.react(&order_placed_event);
    assert_eq!(commands, vec![create_order_command]);
}

#[test]
fn order_view_test() {
    let view = order_view();
    let identifier = OrderId(id("02f09a3f-1624-3b1d-8409-44eff7708207"));
    let restaurant_identifier = RestaurantId(id("02f09a3f-1624-3b1d-8409-44eff7708208"));
    let line_items = order_line_items();

    let order_created = OrderEvent::Created(OrderCreated {
        identifier,
        restaurant_identifier,
        status: OrderStatus::Created,
        line_items: clone_items(&line_items),
    });
    let new_state = view.evolve(&None, &order_created);
    assert_eq!(
        new_state,
        Some(OrderViewState {
            identifier,
            restaurant_identifier,
            status: OrderStatus::Created,
            line_items: clone_items(&line_items),
        })
    );

    let order_prepared = OrderEvent::Prepared(OrderPrepared {
        identifier,
        status: OrderStatus::Prepared,
    });
    let old_state = Some(OrderViewState {
        identifier,
        restaurant_identifier,
        status: OrderStatus::Created,
        line_items: clone_items(&line_items),
    });
    let new_state = view.evolve(&old_state, &order_prepared);
    assert_eq!(
        new_state,
        Some(OrderViewState {
            identifier,
            restaurant_identifier,
            status: OrderStatus::Prepared,
            line_items: clone_items(&line_items),
        })
    );
}

#[test]
fn restaurant_decider_test() {
    let decider = restaurant_decider();
    let restaurant_identifier = RestaurantId(id("02f09a3f-1624-3b1d-8409-44eff7708208"));

    let create_restaurant_command = RestaurantCommand::CreateRestaurant(CreateRestaurant {
        identifier: restaurant_identifier,
        name: RestaurantName("Restaurant 1".to_string()),
        menu: menu(RestaurantMenuCuisine::Vietnamese),
    });
    // given no events, when CreateRestaurant, then RestaurantCreated
    let new_events = decider.decide(&create_restaurant_command, &None);
    assert_eq!(
        new_events,
        vec![RestaurantEvent::Created(RestaurantCreated {
            identifier: restaurant_identifier,
            name: RestaurantName("Restaurant 1".to_string()),
            menu: menu(RestaurantMenuCuisine::Vietnamese),
        })]
    );
    // given no state, when CreateRestaurant, then the new state holds it
    let mut new_state: Option<Restaurant> = None;
    for event in &new_events {
        new_state = decider.evolve(&new_state, event);
    }
    assert_eq!(
        new_state,
        Some(Restaurant {
            identifier: restaurant_identifier,
            name: RestaurantName("Restaurant 1".to_string()),
            menu: menu(RestaurantMenuCuisine::Vietnamese),
        })
    );

    let change_restaurant_menu = RestaurantCommand::ChangeMenu(ChangeRestaurantMenu {
        identifier: restaurant_identifier,
        menu: menu(RestaurantMenuCuisine::Japanese),
    });
    // given RestaurantCreated, when ChangeMenu, then RestaurantMenuChanged
    let old_events = vec![RestaurantEvent::Created(RestaurantCreated {
        identifier: restaurant_identifier,
        name: RestaurantName("Restaurant 1".to_string()),
        menu: menu(RestaurantMenuCuisine::Vietnamese),
    })];
    let mut state: Option<Restaurant> = None;
    for event in &old_events {
        state = decider.evolve(&state, event);
    }
    let new_events = decider.decide(&change_restaurant_menu, &state);
    assert_eq!(
        new_events,
        vec![RestaurantEvent::MenuChanged(RestaurantMenuChanged {
            identifier: restaurant_identifier,
            menu: menu(RestaurantMenuCuisine::Japanese),
        })]
    );
    // given the created state, when ChangeMenu, then the menu is replaced
    let mut changed_state = state;
    for event in &new_events {
        changed_state = decider.evolve(&changed_state, event);
    }
    assert_eq!(
        changed_state,
        Some(Restaurant {
            identifier: restaurant_identifier,
            name: RestaurantName("Restaurant 1".to_string()),
            menu: menu(RestaurantMenuCuisine::Japanese),
        })
    );
}

#[test]
fn restaurant_view_test() {
    let view = restaurant_view();
    let restaurant_identifier = RestaurantId(id("02f09a3f-1624-3b1d-8409-44eff7708208"));

    let restaurant_created = RestaurantEvent::Created(RestaurantCreated {
        identifier: restaurant_identifier,
        name: RestaurantName("Restaurant 1".to_string()),
        menu: menu(RestaurantMenuCuisine::Vietnamese),
    });
    let new_state = view.evolve(&None, &restaurant_created);
    assert_eq!(
        new_state,
        Some(RestaurantViewState {
            identifier: restaurant_identifier,
            name: RestaurantName("Restaurant 1".to_string()),
            menu: menu(RestaurantMenuCuisine::Vietnamese),
        })
    );

    let menu_changed = RestaurantEvent::MenuChanged(RestaurantMenuChanged {
        identifier: restaurant_identifier,
        menu: menu(RestaurantMenuCuisine::Japanese),
    });
    let old_state = Some(RestaurantViewState {
        identifier: restaurant_identifier,
        name: RestaurantName("Restaurant 1".to_string()),
        menu: menu(RestaurantMenuCuisine::Vietnamese),
    });
    let new_state = view.evolve(&old_state, &menu_changed);
    assert_eq!(
        new_state,
        Some(RestaurantViewState {
            identifier: restaurant_identifier,
            name: RestaurantName("Restaurant 1".to_string()),
            menu: menu(RestaurantMenuCuisine::Japanese),
        })
    );
}

fn clone_items(items: &Vec<OrderLineItem>) -> Vec<OrderLineItem> {
    items.iter().map(|i| i.clone()).collect()
}
