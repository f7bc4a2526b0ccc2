//! Encoding and decoding of the domain event variants.
//!
//! Each event is stored as an object whose `type` field holds the variant
//! name; decoding is the exact inverse and the round-trip laws are proved.
use vstd::prelude::*;

use crate::api::{
    OrderCreated, OrderEvent, OrderId, OrderNotCreated, OrderNotPlaced, OrderNotPrepared,
    OrderPlaced, OrderPrepared, OrderStatus, Reason, RestaurantCreated, RestaurantEvent,
    RestaurantId, RestaurantMenuChanged, RestaurantMenuNotChanged, RestaurantName,
    RestaurantNotCreated, SpecOrderCreated, SpecOrderEvent, SpecOrderNotCreated,
    SpecOrderNotPlaced, SpecOrderNotPrepared, SpecOrderPlaced, SpecRestaurantCreated,
    SpecRestaurantEvent, SpecRestaurantMenuChanged, SpecRestaurantMenuNotChanged,
    SpecRestaurantNotCreated,
};
use crate::codec::{
    SpecValue, Value, decode_error, decode_line_items, decode_menu, encode_line_items,
    encode_menu, key_is, lemma_line_items_round_trip, lemma_menu_round_trip,
    lemma_view_fields_index, spec_decode_line_items, spec_decode_menu, spec_encode_line_items,
    spec_encode_menu, view_fields,
};
use crate::error::ErrorMessage;

verus! {

// ########################################################
// ################### Status encoding ####################
// ########################################################

/// The wire code of an order status.
pub open spec fn spec_status_code(s: OrderStatus) -> u64 {
    match s {
        OrderStatus::Created => 0,
        OrderStatus::Prepared => 1,
        OrderStatus::Cancelled => 2,
        OrderStatus::Rejected => 3,
    }
}

/// The order status a wire code stands for, if any.
pub open spec fn spec_status_of_code(n: u64) -> Option<OrderStatus> {
    if n == 0 {
        Some(OrderStatus::Created)
    } else if n == 1 {
        Some(OrderStatus::Prepared)
    } else if n == 2 {
        Some(OrderStatus::Cancelled)
    } else if n == 3 {
        Some(OrderStatus::Rejected)
    } else {
        None
    }
}

fn status_code(s: &OrderStatus) -> (r: u64)
    ensures
        r == spec_status_code(*s),
{
    match s {
        OrderStatus::Created => 0,
        OrderStatus::Prepared => 1,
        OrderStatus::Cancelled => 2,
        OrderStatus::Rejected => 3,
    }
}

fn status_of_code(n: u64) -> (r: Option<OrderStatus>)
    ensures
        r == spec_status_of_code(n),
{
    if n == 0 {
        Some(OrderStatus::Created)
    } else if n == 1 {
        Some(OrderStatus::Prepared)
    } else if n == 2 {
        Some(OrderStatus::Cancelled)
    } else if n == 3 {
        Some(OrderStatus::Rejected)
    } else {
        None
    }
}

// ########################################################
// ############## Restaurant event encoding ###############
// ########################################################

/// Wire form of a restaurant event: an object tagged by variant name.
pub open spec fn spec_encode_restaurant_event(e: SpecRestaurantEvent) -> SpecValue {
    match e {
        SpecRestaurantEvent::Created(e) => SpecValue::Obj(
            seq![
                ("type"@, SpecValue::Str("RestaurantCreated"@)),
                ("identifier"@, SpecValue::Id(e.identifier.0)),
                ("name"@, SpecValue::Str(e.name)),
                ("menu"@, spec_encode_menu(e.menu)),
            ],
        ),
        SpecRestaurantEvent::NotCreated(e) => SpecValue::Obj(
            seq![
                ("type"@, SpecValue::Str("RestaurantNotCreated"@)),
                ("identifier"@, SpecValue::Id(e.identifier.0)),
                ("name"@, SpecValue::Str(e.name)),
                ("menu"@, spec_encode_menu(e.menu)),
                ("reason"@, SpecValue::Str(e.reason)),
            ],
        ),
        SpecRestaurantEvent::MenuChanged(e) => SpecValue::Obj(
            seq![
                ("type"@, SpecValue::Str("RestaurantMenuChanged"@)),
                ("identifier"@, SpecValue::Id(e.identifier.0)),
                ("menu"@, spec_encode_menu(e.menu)),
            ],
        ),
        SpecRestaurantEvent::MenuNotChanged(e) => SpecValue::Obj(
            seq![
                ("type"@, SpecValue::Str("RestaurantMenuNotChanged"@)),
                ("identifier"@, SpecValue::Id(e.identifier.0)),
                ("menu"@, spec_encode_menu(e.menu)),
                ("reason"@, SpecValue::Str(e.reason)),
            ],
        ),
        SpecRestaurantEvent::OrderPlaced(e) => SpecValue::Obj(
            seq![
                ("type"@, SpecValue::Str("OrderPlaced"@)),
                ("identifier"@, SpecValue::Id(e.identifier.0)),
                ("order_identifier"@, SpecValue::Id(e.order_identifier.0)),
                ("line_items"@, SpecValue::Arr(spec_encode_line_items(e.line_items))),
            ],
        ),
        SpecRestaurantEvent::OrderNotPlaced(e) => SpecValue::Obj(
            seq![
                ("type"@, SpecValue::Str("OrderNotPlaced"@)),
                ("identifier"@, SpecValue::Id(e.identifier.0)),
                ("order_identifier"@, SpecValue::Id(e.order_identifier.0)),
                ("line_items"@, SpecValue::Arr(spec_encode_line_items(e.line_items))),
                ("reason"@, SpecValue::Str(e.reason)),
            ],
        ),
    }
}

pub open spec fn spec_decode_restaurant_created(fs: Seq<(Seq<char>, SpecValue)>) -> Option<
    SpecRestaurantEvent,
> {
    if fs.len() == 4 && fs[1].0 == "identifier"@ && fs[2].0 == "name"@ && fs[3].0 == "menu"@ {
        match (fs[1].1, fs[2].1) {
            (SpecValue::Id(id), SpecValue::Str(name)) => match spec_decode_menu(fs[3].1) {
                Some(menu) => Some(
                    SpecRestaurantEvent::Created(
                        SpecRestaurantCreated { identifier: RestaurantId(id), name, menu },
                    ),
                ),
                None => None,
            },
            _ => None,
        }
    } else {
        None
    }
}

pub open spec fn spec_decode_restaurant_not_created(fs: Seq<(Seq<char>, SpecValue)>) -> Option<
    SpecRestaurantEvent,
> {
    if fs.len() == 5 && fs[1].0 == "identifier"@ && fs[2].0 == "name"@ && fs[3].0 == "menu"@
        && fs[4].0 == "reason"@ {
        match (fs[1].1, fs[2].1, fs[4].1) {
            (SpecValue::Id(id), SpecValue::Str(name), SpecValue::Str(reason)) => match
                spec_decode_menu(fs[3].1) {
                Some(menu) => Some(
                    SpecRestaurantEvent::NotCreated(
                        SpecRestaurantNotCreated {
                            identifier: RestaurantId(id),
                            name,
                            menu,
                            reason,
                        },
                    ),
                ),
                None => None,
            },
            _ => None,
        }
    } else {
        None
    }
}

pub open spec fn spec_decode_restaurant_menu_changed(fs: Seq<(Seq<char>, SpecValue)>) -> Option<
    SpecRestaurantEvent,
> {
    if fs.len() == 3 && fs[1].0 == "identifier"@ && fs[2].0 == "menu"@ {
        match fs[1].1 {
            SpecValue::Id(id) => match spec_decode_menu(fs[2].1) {
                Some(menu) => Some(
                    SpecRestaurantEvent::MenuChanged(
                        SpecRestaurantMenuChanged { identifier: RestaurantId(id), menu },
                    ),
                ),
                None => None,
            },
            _ => None,
        }
    } else {
        None
    }
}

pub open spec fn spec_decode_restaurant_menu_not_changed(fs: Seq<(Seq<char>, SpecValue)>) -> Option<
    SpecRestaurantEvent,
> {
    if fs.len() == 4 && fs[1].0 == "identifier"@ && fs[2].0 == "menu"@ && fs[3].0 == "reason"@ {
        match (fs[1].1, fs[3].1) {
            (SpecValue::Id(id), SpecValue::Str(reason)) => match spec_decode_menu(fs[2].1) {
                Some(menu) => Some(
                    SpecRestaurantEvent::MenuNotChanged(
                        SpecRestaurantMenuNotChanged { identifier: RestaurantId(id), menu, reason },
                    ),
                ),
                None => None,
            },
            _ => None,
        }
    } else {
        None
    }
}

pub open spec fn spec_decode_order_placed(fs: Seq<(Seq<char>, SpecValue)>) -> Option<SpecRestaurantEvent> {
    if fs.len() == 4 && fs[1].0 == "identifier"@ && fs[2].0 == "order_identifier"@ && fs[3].0
        == "line_items"@ {
        match (fs[1].1, fs[2].1, fs[3].1) {
            (SpecValue::Id(id), SpecValue::Id(oid), SpecValue::Arr(vs)) => match
                spec_decode_line_items(vs) {
                Some(line_items) => Some(
                    SpecRestaurantEvent::OrderPlaced(
                        SpecOrderPlaced {
                            identifier: RestaurantId(id),
                            order_identifier: OrderId(oid),
                            line_items,
                        },
                    ),
                ),
                None => None,
            },
            _ => None,
        }
    } else {
        None
    }
}

pub open spec fn spec_decode_order_not_placed(fs: Seq<(Seq<char>, SpecValue)>) -> Option<
    SpecRestaurantEvent,
> {
    if fs.len() == 5 && fs[1].0 == "identifier"@ && fs[2].0 == "order_identifier"@ && fs[3].0
        == "line_items"@ && fs[4].0 == "reason"@ {
        match (fs[1].1, fs[2].1, fs[3].1, fs[4].1) {
            (SpecValue::Id(id), SpecValue::Id(oid), SpecValue::Arr(vs), SpecValue::Str(reason)) =>
                match spec_decode_line_items(vs) {
                Some(line_items) => Some(
                    SpecRestaurantEvent::OrderNotPlaced(
                        SpecOrderNotPlaced {
                            identifier: RestaurantId(id),
                            order_identifier: OrderId(oid),
                            line_items,
                            reason,
                        },
                    ),
                ),
                None => None,
            },
            _ => None,
        }
    } else {
        None
    }
}

/// The restaurant event a wire value stands for, if any.
pub open spec fn spec_decode_restaurant_event(v: SpecValue) -> Option<SpecRestaurantEvent> {
    match v {
        SpecValue::Obj(fs) => if fs.len() >= 1 && fs[0].0 == "type"@ {
            match fs[0].1 {
                SpecValue::Str(tag) => if tag == "RestaurantCreated"@ {
                    spec_decode_restaurant_created(fs)
                } else if tag == "RestaurantNotCreated"@ {
                    spec_decode_restaurant_not_created(fs)
                } else if tag == "RestaurantMenuChanged"@ {
                    spec_decode_restaurant_menu_changed(fs)
                } else if tag == "RestaurantMenuNotChanged"@ {
                    spec_decode_restaurant_menu_not_changed(fs)
                } else if tag == "OrderPlaced"@ {
                    spec_decode_order_placed(fs)
                } else if tag == "OrderNotPlaced"@ {
                    spec_decode_order_not_placed(fs)
                } else {
                    None
                },
                _ => None,
            }
        } else {
            None
        },
        _ => None,
    }
}

/// The six restaurant variant tags are pairwise distinct.
proof fn lemma_restaurant_tags_distinct()
    ensures
        "RestaurantCreated"@ != "RestaurantNotCreated"@,
        "RestaurantCreated"@ != "RestaurantMenuChanged"@,
        "RestaurantCreated"@ != "RestaurantMenuNotChanged"@,
        "RestaurantCreated"@ != "OrderPlaced"@,
        "RestaurantCreated"@ != "OrderNotPlaced"@,
        "RestaurantNotCreated"@ != "RestaurantMenuChanged"@,
        "RestaurantNotCreated"@ != "RestaurantMenuNotChanged"@,
        "RestaurantNotCreated"@ != "OrderPlaced"@,
        "RestaurantNotCreated"@ != "OrderNotPlaced"@,
        "RestaurantMenuChanged"@ != "RestaurantMenuNotChanged"@,
        "RestaurantMenuChanged"@ != "OrderPlaced"@,
        "RestaurantMenuChanged"@ != "OrderNotPlaced"@,
        "RestaurantMenuNotChanged"@ != "OrderPlaced"@,
        "RestaurantMenuNotChanged"@ != "OrderNotPlaced"@,
        "OrderPlaced"@ != "OrderNotPlaced"@,
{
    reveal_strlit("RestaurantCreated");
    reveal_strlit("RestaurantNotCreated");
    reveal_strlit("RestaurantMenuChanged");
    reveal_strlit("RestaurantMenuNotChanged");
    reveal_strlit("OrderPlaced");
    reveal_strlit("OrderNotPlaced");
    assert("RestaurantCreated"@.len() == 17);
    assert("RestaurantNotCreated"@.len() == 20);
    assert("RestaurantMenuChanged"@.len() == 21);
    assert("RestaurantMenuNotChanged"@.len() == 24);
    assert("OrderPlaced"@.len() == 11);
    assert("OrderNotPlaced"@.len() == 14);
}

/// Round trip: decoding an encoded restaurant event gives the event back.
pub proof fn lemma_restaurant_event_round_trip(e: SpecRestaurantEvent)
    ensures
        spec_decode_restaurant_event(spec_encode_restaurant_event(e)) == Some(e),
{
    lemma_restaurant_tags_distinct();
    match e {
        SpecRestaurantEvent::Created(ev) => {
            lemma_menu_round_trip(ev.menu);
        },
        SpecRestaurantEvent::NotCreated(ev) => {
            lemma_menu_round_trip(ev.menu);
        },
        SpecRestaurantEvent::MenuChanged(ev) => {
            lemma_menu_round_trip(ev.menu);
        },
        SpecRestaurantEvent::MenuNotChanged(ev) => {
            lemma_menu_round_trip(ev.menu);
        },
        SpecRestaurantEvent::OrderPlaced(ev) => {
            lemma_line_items_round_trip(ev.line_items);
        },
        SpecRestaurantEvent::OrderNotPlaced(ev) => {
            lemma_line_items_round_trip(ev.line_items);
        },
    }
}

/// Encode a restaurant event into its wire form.
pub fn encode_restaurant_event(e: &RestaurantEvent) -> (r: Value)
    ensures
        r.deep_view() == spec_encode_restaurant_event(e.deep_view()),
{
    let fields: Vec<(String, Value)> = match e {
        RestaurantEvent::Created(e) => vec![
            ("type".to_owned(), Value::Str("RestaurantCreated".to_owned())),
            ("identifier".to_owned(), Value::Id(e.identifier.0)),
            ("name".to_owned(), Value::Str(e.name.0.clone())),
            ("menu".to_owned(), encode_menu(&e.menu)),
        ],
        RestaurantEvent::NotCreated(e) => vec![
            ("type".to_owned(), Value::Str("RestaurantNotCreated".to_owned())),
            ("identifier".to_owned(), Value::Id(e.identifier.0)),
            ("name".to_owned(), Value::Str(e.name.0.clone())),
            ("menu".to_owned(), encode_menu(&e.menu)),
            ("reason".to_owned(), Value::Str(e.reason.0.clone())),
        ],
        RestaurantEvent::MenuChanged(e) => vec![
            ("type".to_owned(), Value::Str("RestaurantMenuChanged".to_owned())),
            ("identifier".to_owned(), Value::Id(e.identifier.0)),
            ("menu".to_owned(), encode_menu(&e.menu)),
        ],
        RestaurantEvent::MenuNotChanged(e) => vec![
            ("type".to_owned(), Value::Str("RestaurantMenuNotChanged".to_owned())),
            ("identifier".to_owned(), Value::Id(e.identifier.0)),
            ("menu".to_owned(), encode_menu(&e.menu)),
            ("reason".to_owned(), Value::Str(e.reason.0.clone())),
        ],
        RestaurantEvent::OrderPlaced(e) => vec![
            ("type".to_owned(), Value::Str("OrderPlaced".to_owned())),
            ("identifier".to_owned(), Value::Id(e.identifier.0)),
            ("order_identifier".to_owned(), Value::Id(e.order_identifier.0)),
            ("line_items".to_owned(), Value::Arr(encode_line_items(&e.line_items))),
        ],
        RestaurantEvent::OrderNotPlaced(e) => vec![
            ("type".to_owned(), Value::Str("OrderNotPlaced".to_owned())),
            ("identifier".to_owned(), Value::Id(e.identifier.0)),
            ("order_identifier".to_owned(), Value::Id(e.order_identifier.0)),
            ("line_items".to_owned(), Value::Arr(encode_line_items(&e.line_items))),
            ("reason".to_owned(), Value::Str(e.reason.0.clone())),
        ],
    };
    proof {
        lemma_view_fields_index(fields@);
        assert(view_fields(fields@) =~= spec_encode_restaurant_event(e.deep_view())->Obj_0);
    }
    Value::Obj(fields)
}

/// Decode a restaurant event from its wire form.
pub fn decode_restaurant_event(v: &Value) -> (r: Result<RestaurantEvent, ErrorMessage>)
    ensures
        match spec_decode_restaurant_event(v.deep_view()) {
            Some(e) => r matches Ok(ev) && ev.deep_view() == e,
            None => r is Err,
        },
{
    match v {
        Value::Obj(fields) => {
            proof {
                lemma_view_fields_index(fields@);
            }
            if fields.len() >= 1 && key_is(&fields[0].0, "type") {
                let tag: &String = match &fields[0].1 {
                    Value::Str(s) => s,
                    _ => {
                        return Err(decode_error());
                    },
                };
                if key_is(tag, "RestaurantCreated") {
                    decode_restaurant_created(fields)
                } else if key_is(tag, "RestaurantNotCreated") {
                    decode_restaurant_not_created(fields)
                } else if key_is(tag, "RestaurantMenuChanged") {
                    decode_restaurant_menu_changed(fields)
                } else if key_is(tag, "RestaurantMenuNotChanged") {
                    decode_restaurant_menu_not_changed(fields)
                } else if key_is(tag, "OrderPlaced") {
                    decode_order_placed(fields)
                } else if key_is(tag, "OrderNotPlaced") {
                    decode_order_not_placed(fields)
                } else {
                    Err(decode_error())
                }
            } else {
                Err(decode_error())
            }
        },
        _ => Err(decode_error()),
    }
}

fn decode_restaurant_created(fields: &Vec<(String, Value)>) -> (r: Result<
    RestaurantEvent,
    ErrorMessage,
>)
    ensures
        match spec_decode_restaurant_created(view_fields(fields@)) {
            Some(e) => r matches Ok(ev) && ev.deep_view() == e,
            None => r is Err,
        },
{
    proof {
        lemma_view_fields_index(fields@);
    }
    if fields.len() == 4 && key_is(&fields[1].0, "identifier") && key_is(&fields[2].0, "name")
        && key_is(&fields[3].0, "menu") {
        let id: u128 = match &fields[1].1 {
            Value::Id(n) => *n,
            _ => {
                return Err(decode_error());
            },
        };
        let name: String = match &fields[2].1 {
            Value::Str(s) => s.clone(),
            _ => {
                return Err(decode_error());
            },
        };
        let menu = match decode_menu(&fields[3].1) {
            Ok(m) => m,
            Err(e) => {
                return Err(e);
            },
        };
        Ok(
            RestaurantEvent::Created(
                RestaurantCreated {
                    identifier: RestaurantId(id),
                    name: RestaurantName(name),
                    menu,
                },
            ),
        )
    } else {
        Err(decode_error())
    }
}

fn decode_restaurant_not_created(fields: &Vec<(String, Value)>) -> (r: Result<
    RestaurantEvent,
    ErrorMessage,
>)
    ensures
        match spec_decode_restaurant_not_created(view_fields(fields@)) {
            Some(e) => r matches Ok(ev) && ev.deep_view() == e,
            None => r is Err,
        },
{
    proof {
        lemma_view_fields_index(fields@);
    }
    if fields.len() == 5 && key_is(&fields[1].0, "identifier") && key_is(&fields[2].0, "name")
        && key_is(&fields[3].0, "menu") && key_is(&fields[4].0, "reason") {
        let id: u128 = match &fields[1].1 {
            Value::Id(n) => *n,
            _ => {
                return Err(decode_error());
            },
        };
        let name: String = match &fields[2].1 {
            Value::Str(s) => s.clone(),
            _ => {
                return Err(decode_error());
            },
        };
        let menu = match decode_menu(&fields[3].1) {
            Ok(m) => m,
            Err(e) => {
                return Err(e);
            },
        };
        let reason: String = match &fields[4].1 {
            Value::Str(s) => s.clone(),
            _ => {
                return Err(decode_error());
            },
        };
        Ok(
            RestaurantEvent::NotCreated(
                RestaurantNotCreated {
                    identifier: RestaurantId(id),
                    name: RestaurantName(name),
                    menu,
                    reason: Reason(reason),
                },
            ),
        )
    } else {
        Err(decode_error())
    }
}

fn decode_restaurant_menu_changed(fields: &Vec<(String, Value)>) -> (r: Result<
    RestaurantEvent,
    ErrorMessage,
>)
    ensures
        match spec_decode_restaurant_menu_changed(view_fields(fields@)) {
            Some(e) => r matches Ok(ev) && ev.deep_view() == e,
            None => r is Err,
        },
{
    proof {
        lemma_view_fields_index(fields@);
    }
    if fields.len() == 3 && key_is(&fields[1].0, "identifier") && key_is(&fields[2].0, "menu") {
        let id: u128 = match &fields[1].1 {
            Value::Id(n) => *n,
            _ => {
                return Err(decode_error());
            },
        };
        let menu = match decode_menu(&fields[2].1) {
            Ok(m) => m,
            Err(e) => {
                return Err(e);
            },
        };
        Ok(
            RestaurantEvent::MenuChanged(
                RestaurantMenuChanged { identifier: RestaurantId(id), menu },
            ),
        )
    } else {
        Err(decode_error())
    }
}

fn decode_restaurant_menu_not_changed(fields: &Vec<(String, Value)>) -> (r: Result<
    RestaurantEvent,
    ErrorMessage,
>)
    ensures
        match spec_decode_restaurant_menu_not_changed(view_fields(fields@)) {
            Some(e) => r matches Ok(ev) && ev.deep_view() == e,
            None => r is Err,
        },
{
    proof {
        lemma_view_fields_index(fields@);
    }
    if fields.len() == 4 && key_is(&fields[1].0, "identifier") && key_is(&fields[2].0, "menu")
        && key_is(&fields[3].0, "reason") {
        let id: u128 = match &fields[1].1 {
            Value::Id(n) => *n,
            _ => {
                return Err(decode_error());
            },
        };
        let menu = match decode_menu(&fields[2].1) {
            Ok(m) => m,
            Err(e) => {
                return Err(e);
            },
        };
        let reason: String = match &fields[3].1 {
            Value::Str(s) => s.clone(),
            _ => {
                return Err(decode_error());
            },
        };
        Ok(
            RestaurantEvent::MenuNotChanged(
                RestaurantMenuNotChanged {
                    identifier: RestaurantId(id),
                    menu,
                    reason: Reason(reason),
                },
            ),
        )
    } else {
        Err(decode_error())
    }
}

fn decode_order_placed(fields: &Vec<(String, Value)>) -> (r: Result<RestaurantEvent, ErrorMessage>)
    ensures
        match spec_decode_order_placed(view_fields(fields@)) {
            Some(e) => r matches Ok(ev) && ev.deep_view() == e,
            None => r is Err,
        },
{
    proof {
        lemma_view_fields_index(fields@);
    }
    if fields.len() == 4 && key_is(&fields[1].0, "identifier") && key_is(
        &fields[2].0,
        "order_identifier",
    ) && key_is(&fields[3].0, "line_items") {
        let id: u128 = match &fields[1].1 {
            Value::Id(n) => *n,
            _ => {
                return Err(decode_error());
            },
        };
        let oid: u128 = match &fields[2].1 {
            Value::Id(n) => *n,
            _ => {
                return Err(decode_error());
            },
        };
        let line_items = match &fields[3].1 {
            Value::Arr(vs) => match decode_line_items(vs) {
                Ok(items) => items,
                Err(e) => {
                    return Err(e);
                },
            },
            _ => {
                return Err(decode_error());
            },
        };
        Ok(
            RestaurantEvent::OrderPlaced(
                OrderPlaced {
                    identifier: RestaurantId(id),
                    order_identifier: OrderId(oid),
                    line_items,
                },
            ),
        )
    } else {
        Err(decode_error())
    }
}

fn decode_order_not_placed(fields: &Vec<(String, Value)>) -> (r: Result<
    RestaurantEvent,
    ErrorMessage,
>)
    ensures
        match spec_decode_order_not_placed(view_fields(fields@)) {
            Some(e) => r matches Ok(ev) && ev.deep_view() == e,
            None => r is Err,
        },
{
    proof {
        lemma_view_fields_index(fields@);
    }
    if fields.len() == 5 && key_is(&fields[1].0, "identifier") && key_is(
        &fields[2].0,
        "order_identifier",
    ) && key_is(&fields[3].0, "line_items") && key_is(&fields[4].0, "reason") {
        let id: u128 = match &fields[1].1 {
            Value::Id(n) => *n,
            _ => {
                return Err(decode_error());
            },
        };
        let oid: u128 = match &fields[2].1 {
            Value::Id(n) => *n,
            _ => {
                return Err(decode_error());
            },
        };
        let line_items = match &fields[3].1 {
            Value::Arr(vs) => match decode_line_items(vs) {
                Ok(items) => items,
                Err(e) => {
                    return Err(e);
                },
            },
            _ => {
                return Err(decode_error());
            },
        };
        let reason: String = match &fields[4].1 {
            Value::Str(s) => s.clone(),
            _ => {
                return Err(decode_error());
            },
        };
        Ok(
            RestaurantEvent::OrderNotPlaced(
                OrderNotPlaced {
                    identifier: RestaurantId(id),
                    order_identifier: OrderId(oid),
                    line_items,
                    reason: Reason(reason),
                },
            ),
        )
    } else {
        Err(decode_error())
    }
}

// ########################################################
// ################ Order event encoding ##################
// ########################################################

/// Wire form of an order event: an object tagged by variant name.
pub open spec fn spec_encode_order_event(e: SpecOrderEvent) -> SpecValue {
    match e {
        SpecOrderEvent::Created(e) => SpecValue::Obj(
            seq![
                ("type"@, SpecValue::Str("OrderCreated"@)),
                ("identifier"@, SpecValue::Id(e.identifier.0)),
                ("restaurant_identifier"@, SpecValue::Id(e.restaurant_identifier.0)),
                ("status"@, SpecValue::UInt(spec_status_code(e.status))),
                ("line_items"@, SpecValue::Arr(spec_encode_line_items(e.line_items))),
            ],
        ),
        SpecOrderEvent::NotCreated(e) => SpecValue::Obj(
            seq![
                ("type"@, SpecValue::Str("OrderNotCreated"@)),
                ("identifier"@, SpecValue::Id(e.identifier.0)),
                ("restaurant_identifier"@, SpecValue::Id(e.restaurant_identifier.0)),
                ("line_items"@, SpecValue::Arr(spec_encode_line_items(e.line_items))),
                ("reason"@, SpecValue::Str(e.reason)),
            ],
        ),
        SpecOrderEvent::Prepared(e) => SpecValue::Obj(
            seq![
                ("type"@, SpecValue::Str("OrderPrepared"@)),
                ("identifier"@, SpecValue::Id(e.identifier.0)),
                ("status"@, SpecValue::UInt(spec_status_code(e.status))),
            ],
        ),
        SpecOrderEvent::NotPrepared(e) => SpecValue::Obj(
            seq![
                ("type"@, SpecValue::Str("OrderNotPrepared"@)),
                ("identifier"@, SpecValue::Id(e.identifier.0)),
                ("reason"@, SpecValue::Str(e.reason)),
            ],
        ),
    }
}

pub open spec fn spec_decode_order_created(fs: Seq<(Seq<char>, SpecValue)>) -> Option<
    SpecOrderEvent,
> {
    if fs.len() == 5 && fs[1].0 == "identifier"@ && fs[2].0 == "restaurant_identifier"@ && fs[3].0
        == "status"@ && fs[4].0 == "line_items"@ {
        match (fs[1].1, fs[2].1, fs[3].1, fs[4].1) {
            (SpecValue::Id(id), SpecValue::Id(rid), SpecValue::UInt(code), SpecValue::Arr(vs)) =>
                match (spec_status_of_code(code), spec_decode_line_items(vs)) {
                (Some(status), Some(line_items)) => Some(
                    SpecOrderEvent::Created(
                        SpecOrderCreated {
                            identifier: OrderId(id),
                            restaurant_identifier: RestaurantId(rid),
                            status,
                            line_items,
                        },
                    ),
                ),
                _ => None,
            },
            _ => None,
        }
    } else {
        None
    }
}

pub open spec fn spec_decode_order_not_created(fs: Seq<(Seq<char>, SpecValue)>) -> Option<
    SpecOrderEvent,
> {
    if fs.len() == 5 && fs[1].0 == "identifier"@ && fs[2].0 == "restaurant_identifier"@ && fs[3].0
        == "line_items"@ && fs[4].0 == "reason"@ {
        match (fs[1].1, fs[2].1, fs[3].1, fs[4].1) {
            (SpecValue::Id(id), SpecValue::Id(rid), SpecValue::Arr(vs), SpecValue::Str(reason)) =>
                match spec_decode_line_items(vs) {
                Some(line_items) => Some(
                    SpecOrderEvent::NotCreated(
                        SpecOrderNotCreated {
                            identifier: OrderId(id),
                            restaurant_identifier: RestaurantId(rid),
                            line_items,
                            reason,
                        },
                    ),
                ),
                None => None,
            },
            _ => None,
        }
    } else {
        None
    }
}

pub open spec fn spec_decode_order_prepared(fs: Seq<(Seq<char>, SpecValue)>) -> Option<
    SpecOrderEvent,
> {
    if fs.len() == 3 && fs[1].0 == "identifier"@ && fs[2].0 == "status"@ {
        match (fs[1].1, fs[2].1) {
            (SpecValue::Id(id), SpecValue::UInt(code)) => match spec_status_of_code(code) {
                Some(status) => Some(
                    SpecOrderEvent::Prepared(OrderPrepared { identifier: OrderId(id), status }),
                ),
                None => None,
            },
            _ => None,
        }
    } else {
        None
    }
}

pub open spec fn spec_decode_order_not_prepared(fs: Seq<(Seq<char>, SpecValue)>) -> Option<
    SpecOrderEvent,
> {
    if fs.len() == 3 && fs[1].0 == "identifier"@ && fs[2].0 == "reason"@ {
        match (fs[1].1, fs[2].1) {
            (SpecValue::Id(id), SpecValue::Str(reason)) => Some(
                SpecOrderEvent::NotPrepared(
                    SpecOrderNotPrepared { identifier: OrderId(id), reason },
                ),
            ),
            _ => None,
        }
    } else {
        None
    }
}

/// The order event a wire value stands for, if any.
pub open spec fn spec_decode_order_event(v: SpecValue) -> Option<SpecOrderEvent> {
    match v {
        SpecValue::Obj(fs) => if fs.len() >= 1 && fs[0].0 == "type"@ {
            match fs[0].1 {
                SpecValue::Str(tag) => if tag == "OrderCreated"@ {
                    spec_decode_order_created(fs)
                } else if tag == "OrderNotCreated"@ {
                    spec_decode_order_not_created(fs)
                } else if tag == "OrderPrepared"@ {
                    spec_decode_order_prepared(fs)
                } else if tag == "OrderNotPrepared"@ {
                    spec_decode_order_not_prepared(fs)
                } else {
                    None
                },
                _ => None,
            }
        } else {
            None
        },
        _ => None,
    }
}

/// The four order variant tags are pairwise distinct.
proof fn lemma_order_tags_distinct()
    ensures
        "OrderCreated"@ != "OrderNotCreated"@,
        "OrderCreated"@ != "OrderPrepared"@,
        "OrderCreated"@ != "OrderNotPrepared"@,
        "OrderNotCreated"@ != "OrderPrepared"@,
        "OrderNotCreated"@ != "OrderNotPrepared"@,
        "OrderPrepared"@ != "OrderNotPrepared"@,
{
    reveal_strlit("OrderCreated");
    reveal_strlit("OrderNotCreated");
    reveal_strlit("OrderPrepared");
    reveal_strlit("OrderNotPrepared");
    assert("OrderCreated"@.len() == 12);
    assert("OrderNotCreated"@.len() == 15);
    assert("OrderPrepared"@.len() == 13);
    assert("OrderNotPrepared"@.len() == 16);
}

/// Round trip: decoding an encoded order event gives the event back.
pub proof fn lemma_order_event_round_trip(e: SpecOrderEvent)
    ensures
        spec_decode_order_event(spec_encode_order_event(e)) == Some(e),
{
    lemma_order_tags_distinct();
    match e {
        SpecOrderEvent::Created(ev) => {
            lemma_line_items_round_trip(ev.line_items);
        },
        SpecOrderEvent::NotCreated(ev) => {
            lemma_line_items_round_trip(ev.line_items);
        },
        SpecOrderEvent::Prepared(ev) => {
        },
        SpecOrderEvent::NotPrepared(ev) => {
        },
    }
}

/// Encode an order event into its wire form.
pub fn encode_order_event(e: &OrderEvent) -> (r: Value)
    ensures
        r.deep_view() == spec_encode_order_event(e.deep_view()),
{
    let fields: Vec<(String, Value)> = match e {
        OrderEvent::Created(e) => vec![
            ("type".to_owned(), Value::Str("OrderCreated".to_owned())),
            ("identifier".to_owned(), Value::Id(e.identifier.0)),
            ("restaurant_identifier".to_owned(), Value::Id(e.restaurant_identifier.0)),
            ("status".to_owned(), Value::UInt(status_code(&e.status))),
            ("line_items".to_owned(), Value::Arr(encode_line_items(&e.line_items))),
        ],
        OrderEvent::NotCreated(e) => vec![
            ("type".to_owned(), Value::Str("OrderNotCreated".to_owned())),
            ("identifier".to_owned(), Value::Id(e.identifier.0)),
            ("restaurant_identifier".to_owned(), Value::Id(e.restaurant_identifier.0)),
            ("line_items".to_owned(), Value::Arr(encode_line_items(&e.line_items))),
            ("reason".to_owned(), Value::Str(e.reason.0.clone())),
        ],
        OrderEvent::Prepared(e) => vec![
            ("type".to_owned(), Value::Str("OrderPrepared".to_owned())),
            ("identifier".to_owned(), Value::Id(e.identifier.0)),
            ("status".to_owned(), Value::UInt(status_code(&e.status))),
        ],
        OrderEvent::NotPrepared(e) => vec![
            ("type".to_owned(), Value::Str("OrderNotPrepared".to_owned())),
            ("identifier".to_owned(), Value::Id(e.identifier.0)),
            ("reason".to_owned(), Value::Str(e.reason.0.clone())),
        ],
    };
    proof {
        lemma_view_fields_index(fields@);
        assert(view_fields(fields@) =~= spec_encode_order_event(e.deep_view())->Obj_0);
    }
    Value::Obj(fields)
}

/// Decode an order event from its wire form.
pub fn decode_order_event(v: &Value) -> (r: Result<OrderEvent, ErrorMessage>)
    ensures
        match spec_decode_order_event(v.deep_view()) {
            Some(e) => r matches Ok(ev) && ev.deep_view() == e,
            None => r is Err,
        },
{
    match v {
        Value::Obj(fields) => {
            proof {
                lemma_view_fields_index(fields@);
            }
            if fields.len() >= 1 && key_is(&fields[0].0, "type") {
                let tag: &String = match &fields[0].1 {
                    Value::Str(s) => s,
                    _ => {
                        return Err(decode_error());
                    },
                };
                if key_is(tag, "OrderCreated") {
                    decode_order_created(fields)
                } else if key_is(tag, "OrderNotCreated") {
                    decode_order_not_created(fields)
                } else if key_is(tag, "OrderPrepared") {
                    decode_order_prepared(fields)
                } else if key_is(tag, "OrderNotPrepared") {
                    decode_order_not_prepared(fields)
                } else {
                    Err(decode_error())
                }
            } else {
                Err(decode_error())
            }
        },
        _ => Err(decode_error()),
    }
}

fn decode_order_created(fields: &Vec<(String, Value)>) -> (r: Result<OrderEvent, ErrorMessage>)
    ensures
        match spec_decode_order_created(view_fields(fields@)) {
            Some(e) => r matches Ok(ev) && ev.deep_view() == e,
            None => r is Err,
        },
{
    proof {
        lemma_view_fields_index(fields@);
    }
    if fields.len() == 5 && key_is(&fields[1].0, "identifier") && key_is(
        &fields[2].0,
        "restaurant_identifier",
    ) && key_is(&fields[3].0, "status") && key_is(&fields[4].0, "line_items") {
        let id: u128 = match &fields[1].1 {
            Value::Id(n) => *n,
            _ => {
                return Err(decode_error());
            },
        };
        let rid: u128 = match &fields[2].1 {
            Value::Id(n) => *n,
            _ => {
                return Err(decode_error());
            },
        };
        let status: OrderStatus = match &fields[3].1 {
            Value::UInt(n) => match status_of_code(*n) {
                Some(s) => s,
                None => {
                    return Err(decode_error());
                },
            },
            _ => {
                return Err(decode_error());
            },
        };
        let line_items = match &fields[4].1 {
            Value::Arr(vs) => match decode_line_items(vs) {
                Ok(items) => items,
                Err(e) => {
                    return Err(e);
                },
            },
            _ => {
                return Err(decode_error());
            },
        };
        Ok(
            OrderEvent::Created(
                OrderCreated {
                    identifier: OrderId(id),
                    restaurant_identifier: RestaurantId(rid),
                    status,
                    line_items,
                },
            ),
        )
    } else {
        Err(decode_error())
    }
}

fn decode_order_not_created(fields: &Vec<(String, Value)>) -> (r: Result<OrderEvent, ErrorMessage>)
    ensures
        match spec_decode_order_not_created(view_fields(fields@)) {
            Some(e) => r matches Ok(ev) && ev.deep_view() == e,
            None => r is Err,
        },
{
    proof {
        lemma_view_fields_index(fields@);
    }
    if fields.len() == 5 && key_is(&fields[1].0, "identifier") && key_is(
        &fields[2].0,
        "restaurant_identifier",
    ) && key_is(&fields[3].0, "line_items") && key_is(&fields[4].0, "reason") {
        let id: u128 = match &fields[1].1 {
            Value::Id(n) => *n,
            _ => {
                return Err(decode_error());
            },
        };
        let rid: u128 = match &fields[2].1 {
            Value::Id(n) => *n,
            _ => {
                return Err(decode_error());
            },
        };
        let line_items = match &fields[3].1 {
            Value::Arr(vs) => match decode_line_items(vs) {
                Ok(items) => items,
                Err(e) => {
                    return Err(e);
                },
            },
            _ => {
                return Err(decode_error());
            },
        };
        let reason: String = match &fields[4].1 {
            Value::Str(s) => s.clone(),
            _ => {
                return Err(decode_error());
            },
        };
        Ok(
            OrderEvent::NotCreated(
                OrderNotCreated {
                    identifier: OrderId(id),
                    restaurant_identifier: RestaurantId(rid),
                    line_items,
                    reason: Reason(reason),
                },
            ),
        )
    } else {
        Err(decode_error())
    }
}

fn decode_order_prepared(fields: &Vec<(String, Value)>) -> (r: Result<OrderEvent, ErrorMessage>)
    ensures
        match spec_decode_order_prepared(view_fields(fields@)) {
            Some(e) => r matches Ok(ev) && ev.deep_view() == e,
            None => r is Err,
        },
{
    proof {
        lemma_view_fields_index(fields@);
    }
    if fields.len() == 3 && key_is(&fields[1].0, "identifier") && key_is(&fields[2].0, "status") {
        let id: u128 = match &fields[1].1 {
            Value::Id(n) => *n,
            _ => {
                return Err(decode_error());
            },
        };
        let status: OrderStatus = match &fields[2].1 {
            Value::UInt(n) => match status_of_code(*n) {
                Some(s) => s,
                None => {
                    return Err(decode_error());
                },
            },
            _ => {
                return Err(decode_error());
            },
        };
        Ok(OrderEvent::Prepared(OrderPrepared { identifier: OrderId(id), status }))
    } else {
        Err(decode_error())
    }
}

fn decode_order_not_prepared(fields: &Vec<(String, Value)>) -> (r: Result<OrderEvent, ErrorMessage>)
    ensures
        match spec_decode_order_not_prepared(view_fields(fields@)) {
            Some(e) => r matches Ok(ev) && ev.deep_view() == e,
            None => r is Err,
        },
{
    proof {
        lemma_view_fields_index(fields@);
    }
    if fields.len() == 3 && key_is(&fields[1].0, "identifier") && key_is(&fields[2].0, "reason") {
        let id: u128 = match &fields[1].1 {
            Value::Id(n) => *n,
            _ => {
                return Err(decode_error());
            },
        };
        let reason: String = match &fields[2].1 {
            Value::Str(s) => s.clone(),
            _ => {
                return Err(decode_error());
            },
        };
        Ok(OrderEvent::NotPrepared(OrderNotPrepared { identifier: OrderId(id), reason: Reason(reason) }))
    } else {
        Err(decode_error())
    }
}

// ########################################################
// ############ Mapping stored rows to events #############
// ########################################################

/// Map a stored row into a restaurant event.
pub trait ToRestaurantEvent {
    /// Decode this row's payload as a restaurant event.
    fn to_restaurant_event(&self) -> (r: Result<RestaurantEvent, ErrorMessage>);
}

/// Map a stored row into an order event.
pub trait ToOrderEvent {
    /// Decode this row's payload as an order event.
    fn to_order_event(&self) -> (r: Result<OrderEvent, ErrorMessage>);
}

impl ToRestaurantEvent for crate::store::EventEntity {
    fn to_restaurant_event(&self) -> (r: Result<RestaurantEvent, ErrorMessage>)
        ensures
            match spec_decode_restaurant_event(self.data.deep_view()) {
                Some(v) => r matches Ok(e) && e.deep_view() == v,
                None => r is Err,
            },
    {
        decode_restaurant_event(&self.data)
    }
}

impl ToOrderEvent for crate::store::EventEntity {
    fn to_order_event(&self) -> (r: Result<OrderEvent, ErrorMessage>)
        ensures
            match spec_decode_order_event(self.data.deep_view()) {
                Some(v) => r matches Ok(e) && e.deep_view() == v,
                None => r is Err,
            },
    {
        decode_order_event(&self.data)
    }
}

} // verus!
