use restaurant_cqrs::api::{
    MenuId, MenuItem, MenuItemId, MenuItemName, Money, OrderCreated, OrderEvent, OrderId,
    OrderLineItem, OrderLineItemId, OrderLineItemQuantity, OrderNotCreated, OrderNotPlaced,
    OrderNotPrepared, OrderPlaced, OrderPrepared, OrderStatus, Reason, RestaurantCreated,
    RestaurantEvent, RestaurantId, RestaurantMenu, RestaurantMenuChanged,
    RestaurantMenuCuisine, RestaurantMenuNotChanged, RestaurantName, RestaurantNotCreated,
};
use restaurant_cqrs::codec::Value;
use restaurant_cqrs::event_codec::{
    decode_order_event, decode_restaurant_event, encode_order_event, encode_restaurant_event,
};

fn sample_menu() -> RestaurantMenu {
    RestaurantMenu {
        menu_id: MenuId(7),
        items: vec![
            MenuItem {
                id: MenuItemId(11),
                name: MenuItemName("Pho".to_string()),
                price: Money(950),
            },
            MenuItem {
                id: MenuItemId(12),
                name: MenuItemName("Summer rolls".to_string()),
                price: Money(450),
            },
        ],
        cuisine: RestaurantMenuCuisine::Vietnamese,
    }
}

fn sample_line_items() -> Vec<OrderLineItem> {
    vec![OrderLineItem {
        id: OrderLineItemId(21),
        quantity: OrderLineItemQuantity(2),
        menu_item_id: MenuItemId(11),
        name: MenuItemName("Pho".to_string()),
    }]
}

fn restaurant_round_trip(e: RestaurantEvent) {
    let encoded = encode_restaurant_event(&e);
    let decoded = decode_restaurant_event(&encoded).unwrap();
    assert_eq!(decoded, e);
}

fn order_round_trip(e: OrderEvent) {
    let encoded = encode_order_event(&e);
    let decoded = decode_order_event(&encoded).unwrap();
    assert_eq!(decoded, e);
}

#[test]
fn restaurant_created_round_trip() {
    restaurant_round_trip(RestaurantEvent::Created(RestaurantCreated {
        identifier: RestaurantId(1),
        name: RestaurantName("Chez".to_string()),
        menu: sample_menu(),
    }));
}

#[test]
fn restaurant_not_created_round_trip() {
    restaurant_round_trip(RestaurantEvent::NotCreated(RestaurantNotCreated {
        identifier: RestaurantId(1),
        name: RestaurantName("Chez".to_string()),
        menu: sample_menu(),
        reason: Reason("Restaurant already exists".to_string()),
    }));
}

#[test]
fn restaurant_menu_changed_round_trip() {
    restaurant_round_trip(RestaurantEvent::MenuChanged(RestaurantMenuChanged {
        identifier: RestaurantId(1),
        menu: sample_menu(),
    }));
}

#[test]
fn restaurant_menu_not_changed_round_trip() {
    restaurant_round_trip(RestaurantEvent::MenuNotChanged(RestaurantMenuNotChanged {
        identifier: RestaurantId(1),
        menu: sample_menu(),
        reason: Reason("Restaurant does not exist".to_string()),
    }));
}

#[test]
fn order_placed_round_trip() {
    restaurant_round_trip(RestaurantEvent::OrderPlaced(OrderPlaced {
        identifier: RestaurantId(1),
        order_identifier: OrderId(2),
        line_items: sample_line_items(),
    }));
}

#[test]
fn order_not_placed_round_trip() {
    restaurant_round_trip(RestaurantEvent::OrderNotPlaced(OrderNotPlaced {
        identifier: RestaurantId(1),
        order_identifier: OrderId(2),
        line_items: sample_line_items(),
        reason: Reason("Restaurant does not exist".to_string()),
    }));
}

#[test]
fn order_created_round_trip() {
    order_round_trip(OrderEvent::Created(OrderCreated {
        identifier: OrderId(2),
        restaurant_identifier: RestaurantId(1),
        status: OrderStatus::Created,
        line_items: sample_line_items(),
    }));
}

#[test]
fn order_not_created_round_trip() {
    order_round_trip(OrderEvent::NotCreated(OrderNotCreated {
        identifier: OrderId(2),
        restaurant_identifier: RestaurantId(1),
        line_items: sample_line_items(),
        reason: Reason("Order already exists".to_string()),
    }));
}

#[test]
fn order_prepared_round_trip() {
    order_round_trip(OrderEvent::Prepared(OrderPrepared {
        identifier: OrderId(2),
        status: OrderStatus::Prepared,
    }));
}

#[test]
fn order_not_prepared_round_trip() {
    order_round_trip(OrderEvent::NotPrepared(OrderNotPrepared {
        identifier: OrderId(2),
        reason: Reason("Order in the wrong status previously".to_string()),
    }));
}

#[test]
fn undecodable_payloads_are_rejected() {
    assert!(decode_restaurant_event(&Value::Null).is_err());
    assert!(decode_order_event(&Value::Null).is_err());
    assert!(decode_restaurant_event(&Value::Obj(vec![])).is_err());
    // a restaurant payload is not an order payload
    let restaurant = encode_restaurant_event(&RestaurantEvent::MenuChanged(
        RestaurantMenuChanged { identifier: RestaurantId(1), menu: sample_menu() },
    ));
    assert!(decode_order_event(&restaurant).is_err());
}

#[test]
fn encoding_is_tagged_by_variant_name() {
    let encoded = encode_restaurant_event(&RestaurantEvent::Created(RestaurantCreated {
        identifier: RestaurantId(1),
        name: RestaurantName("Chez".to_string()),
        menu: sample_menu(),
    }));
    match encoded {
        Value::Obj(fields) => {
            assert_eq!(fields[0].0, "type".to_string());
            assert_eq!(fields[0].1, Value::Str("RestaurantCreated".to_string()));
        },
        _ => panic!("an encoded event is a tagged object"),
    }
}
