use restaurant_cqrs::api::{
    CreateOrder, CreateRestaurant, MenuId, MenuItem, MenuItemId, MenuItemName, Money,
    OrderCommand, OrderEvent, OrderCreated, OrderId, OrderLineItem, OrderLineItemId,
    OrderLineItemQuantity, OrderStatus, RestaurantCommand, RestaurantCreated, RestaurantEvent,
    RestaurantId, RestaurantMenu, RestaurantMenuCuisine, RestaurantName,
};
use restaurant_cqrs::application::Application;
use restaurant_cqrs::combined::{combined_decider, Command, Event};

fn combined_menu() -> RestaurantMenu {
    RestaurantMenu {
        menu_id: MenuId(5),
        items: vec![MenuItem {
            id: MenuItemId(6),
            name: MenuItemName("Bun cha".to_string()),
            price: Money(1250),
        }],
        cuisine: RestaurantMenuCuisine::Vietnamese,
    }
}

fn combined_line_items() -> Vec<OrderLineItem> {
    vec![OrderLineItem {
        id: OrderLineItemId(7),
        quantity: OrderLineItemQuantity(1),
        menu_item_id: MenuItemId(6),
        name: MenuItemName("Bun cha".to_string()),
    }]
}

#[test]
fn combined_decider_dispatches_on_the_command_family() {
    let decider = combined_decider();
    let state = decider.initial_state();

    // a restaurant command decides restaurant events in the union
    let create = Command::First(RestaurantCommand::CreateRestaurant(CreateRestaurant {
        identifier: RestaurantId(1),
        name: RestaurantName("Chez".to_string()),
        menu: combined_menu(),
    }));
    let events = decider.decide(&create, &state);
    assert_eq!(
        events,
        vec![Event::First(RestaurantEvent::Created(RestaurantCreated {
            identifier: RestaurantId(1),
            name: RestaurantName("Chez".to_string()),
            menu: combined_menu(),
        }))]
    );

    // evolving by a restaurant event touches only the restaurant half
    let mut folded = state;
    for event in &events {
        folded = decider.evolve(&folded, event);
    }
    assert!(folded.0.is_some());
    assert!(folded.1.is_none());

    // an order command decides order events in the union
    let create_order = Command::Second(OrderCommand::Create(CreateOrder {
        identifier: OrderId(2),
        restaurant_identifier: RestaurantId(1),
        line_items: combined_line_items(),
    }));
    let events = decider.decide(&create_order, &folded);
    assert_eq!(
        events,
        vec![Event::Second(OrderEvent::Created(OrderCreated {
            identifier: OrderId(2),
            restaurant_identifier: RestaurantId(1),
            status: OrderStatus::Created,
            line_items: combined_line_items(),
        }))]
    );
    for event in &events {
        folded = decider.evolve(&folded, event);
    }
    assert!(folded.0.is_some());
    assert!(folded.1.is_some());
}

#[test]
fn application_surface_commands_and_queries() {
    let mut app = Application::new(1000, 500, 0);
    let create = RestaurantCommand::CreateRestaurant(CreateRestaurant {
        identifier: RestaurantId(1),
        name: RestaurantName("Chez".to_string()),
        menu: combined_menu(),
    });
    let pairs = app.handle_restaurant_command(&create, 1).unwrap();
    assert_eq!(pairs.len(), 1);
    // nothing is projected until the view dispatcher has run
    assert!(app.get_restaurant(1).is_none());
    assert_eq!(app.get_all_restaurants().len(), 0);

    loop {
        let served_view = restaurant_cqrs::view_stream::stream_events_to_view(
            &mut app.restaurant_materialized_view,
            &mut app.order_materialized_view,
            &mut app.store,
            2,
        )
        .unwrap();
        if !served_view {
            break;
        }
    }
    let row = app.get_restaurant(1).unwrap();
    assert_eq!(row.name, RestaurantName("Chez".to_string()));
    assert_eq!(app.get_all_restaurants().len(), 1);
    assert!(app.get_order(2).is_none());
    assert_eq!(app.get_all_orders().len(), 0);
}
