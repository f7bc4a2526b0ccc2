use restaurant_cqrs::api::{
    ChangeRestaurantMenu, CreateRestaurant, MarkOrderAsPrepared, MenuId, MenuItem, MenuItemId,
    MenuItemName, Money, OrderCommand, OrderLineItem, OrderLineItemId, OrderLineItemQuantity,
    OrderStatus, PlaceOrder, RestaurantCommand, RestaurantEvent, RestaurantId, RestaurantMenu,
    RestaurantMenuCuisine, RestaurantMenuChanged, RestaurantName,
};
use restaurant_cqrs::application::Application;
use restaurant_cqrs::codec::Value;
use restaurant_cqrs::error::{AckError, AppendError};
use restaurant_cqrs::saga_stream::stream_events_to_saga;
use restaurant_cqrs::store::{EventStore, NewEventEntity};
use restaurant_cqrs::view_stream::stream_events_to_view;

const R1: u128 = 0x1001;
const O1: u128 = 0x2001;
const L1: u128 = 0x3001;
const M1: u128 = 0x4001;

fn test_menu() -> RestaurantMenu {
    RestaurantMenu {
        menu_id: MenuId(M1),
        items: vec![MenuItem {
            id: MenuItemId(M1 + 1),
            name: MenuItemName("Pho".to_string()),
            price: Money(950),
        }],
        cuisine: RestaurantMenuCuisine::Vietnamese,
    }
}

fn other_menu() -> RestaurantMenu {
    RestaurantMenu {
        menu_id: MenuId(M1 + 2),
        items: vec![],
        cuisine: RestaurantMenuCuisine::Japanese,
    }
}

fn line_items() -> Vec<OrderLineItem> {
    vec![OrderLineItem {
        id: OrderLineItemId(L1),
        quantity: OrderLineItemQuantity(2),
        menu_item_id: MenuItemId(M1 + 1),
        name: MenuItemName("Pho".to_string()),
    }]
}

fn create_restaurant() -> RestaurantCommand {
    RestaurantCommand::CreateRestaurant(CreateRestaurant {
        identifier: RestaurantId(R1),
        name: RestaurantName("Chez".to_string()),
        menu: test_menu(),
    })
}

fn drain(app: &mut Application, now: u64) {
    // run both dispatchers until neither serves an event
    loop {
        let served_view = stream_events_to_view(
            &mut app.restaurant_materialized_view,
            &mut app.order_materialized_view,
            &mut app.store,
            now,
        )
        .unwrap();
        let served_saga = stream_events_to_saga(&app.order_saga_manager, &mut app.store, now)
            .unwrap();
        if !served_view && !served_saga {
            break;
        }
    }
}

#[test]
fn create_restaurant_appends_one_event_and_projects_it() {
    let mut app = Application::new(1000, 500, 0);
    let pairs = app
        .restaurant_aggregate
        .handle(&mut app.store, &create_restaurant(), 1)
        .unwrap();
    assert_eq!(pairs.len(), 1);
    assert_eq!(app.store.events.len(), 1);
    assert_eq!(app.store.events[0].event, "RestaurantCreated".to_string());
    assert_eq!(app.store.events[0].decider, "Restaurant".to_string());
    assert_eq!(app.store.events[0].decider_id, R1);
    assert_eq!(app.store.events[0].offset, 1);
    assert_eq!(app.store.events[0].previous_id, None);

    drain(&mut app, 2);
    let row = app.restaurant_materialized_view.repository.get_restaurant(R1).unwrap();
    assert_eq!(row.name, RestaurantName("Chez".to_string()));
    assert_eq!(row.menu, test_menu());
    // the saga ignores a creation: nothing further was appended
    assert_eq!(app.store.events.len(), 1);
}

#[test]
fn duplicate_creation_is_refused_as_a_fact() {
    let mut app = Application::new(1000, 500, 0);
    app.restaurant_aggregate
        .handle(&mut app.store, &create_restaurant(), 1)
        .unwrap();
    drain(&mut app, 2);
    let before = app.restaurant_materialized_view.repository.get_restaurant(R1).unwrap();

    app.restaurant_aggregate
        .handle(&mut app.store, &create_restaurant(), 3)
        .unwrap();
    assert_eq!(app.store.events.len(), 2);
    assert_eq!(app.store.events[1].event, "RestaurantNotCreated".to_string());
    assert_eq!(app.store.events[1].previous_id, Some(app.store.events[0].event_id));

    drain(&mut app, 4);
    let after = app.restaurant_materialized_view.repository.get_restaurant(R1).unwrap();
    assert_eq!(before, after);
}

#[test]
fn place_order_triggers_the_saga() {
    let mut app = Application::new(1000, 500, 0);
    app.restaurant_aggregate
        .handle(&mut app.store, &create_restaurant(), 1)
        .unwrap();
    let place = RestaurantCommand::PlaceOrder(PlaceOrder {
        identifier: RestaurantId(R1),
        order_identifier: restaurant_cqrs::api::OrderId(O1),
        line_items: line_items(),
    });
    app.restaurant_aggregate.handle(&mut app.store, &place, 2).unwrap();
    assert_eq!(app.store.events[1].event, "OrderPlaced".to_string());

    drain(&mut app, 3);
    // the saga issued CreateOrder, and an OrderCreated event appeared
    let names: Vec<String> = app.store.events.iter().map(|e| e.event.clone()).collect();
    assert!(names.contains(&"OrderCreated".to_string()));
    let row = app.order_materialized_view.repository.get_order(O1).unwrap();
    assert_eq!(row.status, OrderStatus::Created);
    assert_eq!(row.restaurant_identifier, RestaurantId(R1));
}

#[test]
fn mark_prepared_in_wrong_state_is_refused_as_a_fact() {
    let mut app = Application::new(1000, 500, 0);
    let mark = OrderCommand::MarkAsPrepared(MarkOrderAsPrepared {
        identifier: restaurant_cqrs::api::OrderId(O1),
    });
    app.order_aggregate.handle(&mut app.store, &mark, 1).unwrap();
    assert_eq!(app.store.events.len(), 1);
    assert_eq!(app.store.events[0].event, "OrderNotPrepared".to_string());

    drain(&mut app, 2);
    assert!(app.order_materialized_view.repository.get_order(O1).is_none());
}

#[test]
fn concurrent_menu_changes_conflict() {
    let mut app = Application::new(1000, 500, 0);
    app.restaurant_aggregate
        .handle(&mut app.store, &create_restaurant(), 1)
        .unwrap();

    // two writers decide against the same observed version
    let change = ChangeRestaurantMenu { identifier: RestaurantId(R1), menu: other_menu() };
    let event_a = RestaurantEvent::MenuChanged(RestaurantMenuChanged {
        identifier: RestaurantId(R1),
        menu: change.menu.clone(),
    });
    let event_b = RestaurantEvent::MenuChanged(RestaurantMenuChanged {
        identifier: RestaurantId(R1),
        menu: change.menu.clone(),
    });
    let batch_a = app
        .restaurant_aggregate
        .prepare_batch(&app.store, &vec![event_a], &vec![0xaaaa]);
    let batch_b = app
        .restaurant_aggregate
        .prepare_batch(&app.store, &vec![event_b], &vec![0xbbbb]);

    assert_eq!(app.store.append_events(&batch_a, 2), Ok(()));
    assert_eq!(app.store.append_events(&batch_b, 3), Err(AppendError::VersionConflict));
    // exactly one RestaurantMenuChanged was appended
    let names: Vec<String> = app.store.events.iter().map(|e| e.event.clone()).collect();
    assert_eq!(
        names.iter().filter(|n| **n == "RestaurantMenuChanged".to_string()).count(),
        1
    );
}

#[test]
fn lease_recovery_reserves_the_same_event() {
    let mut app = Application::new(1000, 500, 0);
    app.restaurant_aggregate
        .handle(&mut app.store, &create_restaurant(), 1)
        .unwrap();

    // worker A takes the lease and crashes without ack or nack
    let served_a = app.store.stream_events(&"view".to_string(), 10).unwrap();
    assert_eq!(served_a.offset, 1);
    // while the lease is active the stream is blocked
    assert!(app.store.stream_events(&"view".to_string(), 10).is_none());
    // once the lease has run out, worker B is served the same event
    let served_b = app.store.stream_events(&"view".to_string(), 1010).unwrap();
    assert_eq!(served_b.offset, served_a.offset);
    assert_eq!(served_b.event_id, served_a.event_id);
    // and can acknowledge it, advancing the stream
    let lock = app.store.ack_event(served_b.offset, &"view".to_string(), R1, 1011).unwrap();
    assert_eq!(lock.last_offset, 1);
    assert!(app.store.stream_events(&"view".to_string(), 1012).is_none());
}

#[test]
fn ack_advances_and_nack_does_not() {
    let mut app = Application::new(1000, 500, 0);
    app.restaurant_aggregate
        .handle(&mut app.store, &create_restaurant(), 1)
        .unwrap();

    let served = app.store.stream_events(&"saga".to_string(), 2).unwrap();
    let lock = app.store.nack_event(&"saga".to_string(), R1, 3).unwrap();
    assert_eq!(lock.last_offset, 0);
    // the same event comes back after a nack
    let again = app.store.stream_events(&"saga".to_string(), 4).unwrap();
    assert_eq!(again.event_id, served.event_id);
    let lock = app.store.ack_event(again.offset, &"saga".to_string(), R1, 5).unwrap();
    assert_eq!(lock.last_offset, 1);
}

#[test]
fn append_is_guarded_by_registration_chain_and_finality() {
    let mut store = EventStore::new(1000);
    let row = |previous_id: Option<u128>, event_id: u128, is_final: bool| NewEventEntity {
        decider: "Restaurant".to_string(),
        decider_id: R1,
        event: "RestaurantCreated".to_string(),
        data: Value::Null,
        event_id,
        command_id: None,
        previous_id,
        is_final,
    };

    // nothing is registered yet
    assert_eq!(
        store.append_events(&vec![row(None, 1, false)], 0),
        Err(AppendError::UnregisteredEvent)
    );
    store.register_decider(&"RestaurantCreated".to_string(), &"Restaurant".to_string());

    // a duplicate event id within the batch rejects the whole batch
    assert_eq!(
        store.append_events(&vec![row(None, 1, false), row(Some(1), 1, false)], 0),
        Err(AppendError::DuplicateEventId)
    );
    assert_eq!(store.events.len(), 0);

    // a stale version is a conflict
    assert_eq!(store.append_events(&vec![row(None, 1, true)], 0), Ok(()));
    assert_eq!(
        store.append_events(&vec![row(None, 2, false)], 1),
        Err(AppendError::StreamClosed)
    );

    // acknowledging a stream that holds no lock names the missing lease
    assert_eq!(
        store.ack_event(1, &"view".to_string(), R1, 2),
        Err(AckError::LeaseMissing)
    );
}

#[test]
fn undecodable_stream_fails_the_command() {
    let mut store = EventStore::new(1000);
    store.register_decider(&"RestaurantCreated".to_string(), &"Restaurant".to_string());
    let bad = NewEventEntity {
        decider: "Restaurant".to_string(),
        decider_id: R1,
        event: "RestaurantCreated".to_string(),
        data: Value::Null,
        event_id: 1,
        command_id: None,
        previous_id: None,
        is_final: false,
    };
    assert_eq!(store.append_events(&vec![bad], 0), Ok(()));
    let aggregate = restaurant_cqrs::aggregate::restaurant_aggregate();
    let r = aggregate.handle(&mut store, &create_restaurant(), 1);
    assert_eq!(r, Err(restaurant_cqrs::error::HandleError::DecodeFailure));
    assert_eq!(store.events.len(), 1);
}

#[test]
fn fold_consistency_on_a_handled_stream() {
    let mut app = Application::new(1000, 500, 0);
    let aggregate = restaurant_cqrs::aggregate::restaurant_aggregate();
    aggregate.handle(&mut app.store, &create_restaurant(), 1).unwrap();
    let change = RestaurantCommand::ChangeMenu(ChangeRestaurantMenu {
        identifier: RestaurantId(R1),
        menu: other_menu(),
    });
    // the state the decider observed, evolved by what it decided,
    // equals the fold of the whole stream afterwards
    let before = aggregate.fold_state(&aggregate.fetch_events(&app.store, &change).unwrap());
    let decided = aggregate.decider.decide(&change, &before);
    let mut continued = before;
    for event in &decided {
        continued = aggregate.decider.evolve(&continued, event);
    }
    aggregate.handle(&mut app.store, &change, 2).unwrap();
    let after = aggregate.fold_state(&aggregate.fetch_events(&app.store, &change).unwrap());
    assert_eq!(after, continued);
}

#[test]
fn causal_chain_links_consecutive_events() {
    let mut app = Application::new(1000, 500, 0);
    app.restaurant_aggregate
        .handle(&mut app.store, &create_restaurant(), 1)
        .unwrap();
    app.restaurant_aggregate
        .handle(&mut app.store, &create_restaurant(), 2)
        .unwrap();
    app.restaurant_aggregate
        .handle(&mut app.store, &create_restaurant(), 3)
        .unwrap();
    let events = app.store.list_events(R1);
    assert_eq!(events.len(), 3);
    assert_eq!(events[0].previous_id, None);
    assert_eq!(events[1].previous_id, Some(events[0].event_id));
    assert_eq!(events[2].previous_id, Some(events[1].event_id));
    assert!(events[0].offset < events[1].offset && events[1].offset < events[2].offset);
    let latest = app.store.get_latest_event(R1).unwrap();
    assert_eq!(latest.event_id, events[2].event_id);
}

#[test]
fn registration_is_idempotent() {
    let mut store = EventStore::new(1000);
    store.register_decider(&"RestaurantCreated".to_string(), &"Restaurant".to_string());
    store.register_decider(&"RestaurantCreated".to_string(), &"Restaurant".to_string());
    assert_eq!(store.deciders.len(), 1);
    store.register_view(&"view".to_string(), 500, 0);
    store.register_view(&"view".to_string(), 500, 7);
    assert_eq!(store.views.len(), 1);
    assert_eq!(store.views[0].created_at, 0);
}

#[test]
fn view_handling_is_idempotent() {
    let mut app = Application::new(1000, 500, 0);
    app.restaurant_aggregate
        .handle(&mut app.store, &create_restaurant(), 1)
        .unwrap();
    let event = restaurant_cqrs::event_codec::decode_restaurant_event(&app.store.events[0].data)
        .unwrap();
    app.restaurant_materialized_view.handle(&event);
    let once: Vec<_> = app
        .restaurant_materialized_view
        .repository
        .get_all_restaurants();
    app.restaurant_materialized_view.handle(&event);
    let twice: Vec<_> = app
        .restaurant_materialized_view
        .repository
        .get_all_restaurants();
    assert_eq!(once, twice);
}

#[test]
fn handling_against_an_unregistered_store_reports_the_append_error() {
    // a store with no registrations refuses the decided events
    let mut store = EventStore::new(1000);
    let aggregate = restaurant_cqrs::aggregate::restaurant_aggregate();
    let r = aggregate.handle(&mut store, &create_restaurant(), 1);
    assert_eq!(
        r,
        Err(restaurant_cqrs::error::HandleError::Append(AppendError::UnregisteredEvent))
    );
    assert_eq!(store.events.len(), 0);
}

#[test]
fn append_errors_carry_their_messages() {
    assert_eq!(AppendError::VersionConflict.to_message().message, "version conflict");
    assert_eq!(AppendError::UnregisteredEvent.to_message().message, "unregistered event");
    assert_eq!(AppendError::StreamClosed.to_message().message, "stream closed");
    assert_eq!(AppendError::DuplicateEventId.to_message().message, "duplicate event id");
}
