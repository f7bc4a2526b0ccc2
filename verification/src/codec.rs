//! Self-describing payload values and the event codec.
//!
//! Events are stored as tagged objects: the field named `type` holds the
//! variant name and the remaining fields hold the variant's data. Decoding
//! is the exact inverse of encoding; the round-trip laws are proved below.
use vstd::prelude::*;

use crate::api::{
    MenuId, MenuItem, MenuItemId, MenuItemName, Money, OrderLineItem, OrderLineItemId,
    OrderLineItemQuantity, RestaurantMenu, RestaurantMenuCuisine, SpecMenuItem,
    SpecOrderLineItem, SpecRestaurantMenu, lemma_vec_deep_view,
};
use crate::error::ErrorMessage;

verus! {

/// A self-describing payload value.
#[derive(PartialEq, Eq, Debug)]
pub enum Value {
    Null,
    Id(u128),
    UInt(u64),
    Str(String),
    Arr(Vec<Value>),
    Obj(Vec<(String, Value)>),
}

/// Model of a [`Value`].
pub enum SpecValue {
    Null,
    Id(u128),
    UInt(u64),
    Str(Seq<char>),
    Arr(Seq<SpecValue>),
    Obj(Seq<(Seq<char>, SpecValue)>),
}

/// Model of one [`Value`].
pub open spec fn view_value(v: Value) -> SpecValue
    decreases v,
{
    match v {
        Value::Null => SpecValue::Null,
        Value::Id(n) => SpecValue::Id(n),
        Value::UInt(n) => SpecValue::UInt(n),
        Value::Str(s) => SpecValue::Str(s@),
        Value::Arr(vs) => SpecValue::Arr(view_values(vs@)),
        Value::Obj(fs) => SpecValue::Obj(view_fields(fs@)),
    }
}

/// Model of a sequence of values, elementwise.
pub open spec fn view_values(s: Seq<Value>) -> Seq<SpecValue>
    decreases s,
{
    if s.len() == 0 {
        Seq::empty()
    } else {
        seq![view_value(s[0])] + view_values(s.drop_first())
    }
}

/// Model of a sequence of keyed fields, elementwise.
pub open spec fn view_fields(s: Seq<(String, Value)>) -> Seq<(Seq<char>, SpecValue)>
    decreases s,
{
    if s.len() == 0 {
        Seq::empty()
    } else {
        seq![(s[0].0@, view_value(s[0].1))] + view_fields(s.drop_first())
    }
}

impl DeepView for Value {
    type V = SpecValue;

    open spec fn deep_view(&self) -> SpecValue {
        view_value(*self)
    }
}

/// The model of a value sequence is the pointwise model of its elements.
pub proof fn lemma_view_values_index(s: Seq<Value>)
    ensures
        view_values(s).len() == s.len(),
        forall|i: int| 0 <= i < s.len() ==> view_values(s)[i] == view_value(#[trigger] s[i]),
    decreases s.len(),
{
    if s.len() > 0 {
        lemma_view_values_index(s.drop_first());
        assert forall|i: int| 0 <= i < s.len() implies view_values(s)[i] == view_value(s[i]) by {
            if i > 0 {
                assert(s.drop_first()[i - 1] == s[i]);
                assert(view_values(s)[i] == view_values(s.drop_first())[i - 1]);
            }
        }
    }
}

/// The model of a field sequence is the pointwise model of its entries.
pub proof fn lemma_view_fields_index(s: Seq<(String, Value)>)
    ensures
        view_fields(s).len() == s.len(),
        forall|i: int|
            0 <= i < s.len() ==> view_fields(s)[i] == ((#[trigger] s[i]).0@, view_value(s[i].1)),
    decreases s.len(),
{
    if s.len() > 0 {
        lemma_view_fields_index(s.drop_first());
        assert forall|i: int| 0 <= i < s.len() implies view_fields(s)[i] == (s[i].0@, view_value(
            s[i].1,
        )) by {
            if i > 0 {
                assert(s.drop_first()[i - 1] == s[i]);
                assert(view_fields(s)[i] == view_fields(s.drop_first())[i - 1]);
            }
        }
    }
}

// ########################################################
// ############# Enumerations as small codes ##############
// ########################################################

/// The wire code of a cuisine.
pub open spec fn spec_cuisine_code(c: RestaurantMenuCuisine) -> u64 {
    match c {
        RestaurantMenuCuisine::Italian => 0,
        RestaurantMenuCuisine::Indian => 1,
        RestaurantMenuCuisine::Chinese => 2,
        RestaurantMenuCuisine::Japanese => 3,
        RestaurantMenuCuisine::American => 4,
        RestaurantMenuCuisine::Mexican => 5,
        RestaurantMenuCuisine::French => 6,
        RestaurantMenuCuisine::Thai => 7,
        RestaurantMenuCuisine::Vietnamese => 8,
        RestaurantMenuCuisine::Greek => 9,
        RestaurantMenuCuisine::Korean => 10,
        RestaurantMenuCuisine::Spanish => 11,
        RestaurantMenuCuisine::Lebanese => 12,
        RestaurantMenuCuisine::Turkish => 13,
        RestaurantMenuCuisine::Ethiopian => 14,
        RestaurantMenuCuisine::Moroccan => 15,
        RestaurantMenuCuisine::Egyptian => 16,
        RestaurantMenuCuisine::Brazilian => 17,
        RestaurantMenuCuisine::Polish => 18,
        RestaurantMenuCuisine::German => 19,
        RestaurantMenuCuisine::British => 20,
        RestaurantMenuCuisine::Irish => 21,
        RestaurantMenuCuisine::Other => 22,
    }
}

/// The cuisine a wire code stands for, if any.
pub open spec fn spec_cuisine_of_code(n: u64) -> Option<RestaurantMenuCuisine> {
    if n == 0 {
        Some(RestaurantMenuCuisine::Italian)
    } else if n == 1 {
        Some(RestaurantMenuCuisine::Indian)
    } else if n == 2 {
        Some(RestaurantMenuCuisine::Chinese)
    } else if n == 3 {
        Some(RestaurantMenuCuisine::Japanese)
    } else if n == 4 {
        Some(RestaurantMenuCuisine::American)
    } else if n == 5 {
        Some(RestaurantMenuCuisine::Mexican)
    } else if n == 6 {
        Some(RestaurantMenuCuisine::French)
    } else if n == 7 {
        Some(RestaurantMenuCuisine::Thai)
    } else if n == 8 {
        Some(RestaurantMenuCuisine::Vietnamese)
    } else if n == 9 {
        Some(RestaurantMenuCuisine::Greek)
    } else if n == 10 {
        Some(RestaurantMenuCuisine::Korean)
    } else if n == 11 {
        Some(RestaurantMenuCuisine::Spanish)
    } else if n == 12 {
        Some(RestaurantMenuCuisine::Lebanese)
    } else if n == 13 {
        Some(RestaurantMenuCuisine::Turkish)
    } else if n == 14 {
        Some(RestaurantMenuCuisine::Ethiopian)
    } else if n == 15 {
        Some(RestaurantMenuCuisine::Moroccan)
    } else if n == 16 {
        Some(RestaurantMenuCuisine::Egyptian)
    } else if n == 17 {
        Some(RestaurantMenuCuisine::Brazilian)
    } else if n == 18 {
        Some(RestaurantMenuCuisine::Polish)
    } else if n == 19 {
        Some(RestaurantMenuCuisine::German)
    } else if n == 20 {
        Some(RestaurantMenuCuisine::British)
    } else if n == 21 {
        Some(RestaurantMenuCuisine::Irish)
    } else if n == 22 {
        Some(RestaurantMenuCuisine::Other)
    } else {
        None
    }
}

/// Encoding a cuisine and reading the code back gives the cuisine.
pub proof fn lemma_cuisine_round_trip(c: RestaurantMenuCuisine)
    ensures
        spec_cuisine_of_code(spec_cuisine_code(c)) == Some(c),
{
}

fn cuisine_code(c: &RestaurantMenuCuisine) -> (r: u64)
    ensures
        r == spec_cuisine_code(*c),
{
    match c {
        RestaurantMenuCuisine::Italian => 0,
        RestaurantMenuCuisine::Indian => 1,
        RestaurantMenuCuisine::Chinese => 2,
        RestaurantMenuCuisine::Japanese => 3,
        RestaurantMenuCuisine::American => 4,
        RestaurantMenuCuisine::Mexican => 5,
        RestaurantMenuCuisine::French => 6,
        RestaurantMenuCuisine::Thai => 7,
        RestaurantMenuCuisine::Vietnamese => 8,
        RestaurantMenuCuisine::Greek => 9,
        RestaurantMenuCuisine::Korean => 10,
        RestaurantMenuCuisine::Spanish => 11,
        RestaurantMenuCuisine::Lebanese => 12,
        RestaurantMenuCuisine::Turkish => 13,
        RestaurantMenuCuisine::Ethiopian => 14,
        RestaurantMenuCuisine::Moroccan => 15,
        RestaurantMenuCuisine::Egyptian => 16,
        RestaurantMenuCuisine::Brazilian => 17,
        RestaurantMenuCuisine::Polish => 18,
        RestaurantMenuCuisine::German => 19,
        RestaurantMenuCuisine::British => 20,
        RestaurantMenuCuisine::Irish => 21,
        RestaurantMenuCuisine::Other => 22,
    }
}

fn cuisine_of_code(n: u64) -> (r: Option<RestaurantMenuCuisine>)
    ensures
        r == spec_cuisine_of_code(n),
{
    if n == 0 {
        Some(RestaurantMenuCuisine::Italian)
    } else if n == 1 {
        Some(RestaurantMenuCuisine::Indian)
    } else if n == 2 {
        Some(RestaurantMenuCuisine::Chinese)
    } else if n == 3 {
        Some(RestaurantMenuCuisine::Japanese)
    } else if n == 4 {
        Some(RestaurantMenuCuisine::American)
    } else if n == 5 {
        Some(RestaurantMenuCuisine::Mexican)
    } else if n == 6 {
        Some(RestaurantMenuCuisine::French)
    } else if n == 7 {
        Some(RestaurantMenuCuisine::Thai)
    } else if n == 8 {
        Some(RestaurantMenuCuisine::Vietnamese)
    } else if n == 9 {
        Some(RestaurantMenuCuisine::Greek)
    } else if n == 10 {
        Some(RestaurantMenuCuisine::Korean)
    } else if n == 11 {
        Some(RestaurantMenuCuisine::Spanish)
    } else if n == 12 {
        Some(RestaurantMenuCuisine::Lebanese)
    } else if n == 13 {
        Some(RestaurantMenuCuisine::Turkish)
    } else if n == 14 {
        Some(RestaurantMenuCuisine::Ethiopian)
    } else if n == 15 {
        Some(RestaurantMenuCuisine::Moroccan)
    } else if n == 16 {
        Some(RestaurantMenuCuisine::Egyptian)
    } else if n == 17 {
        Some(RestaurantMenuCuisine::Brazilian)
    } else if n == 18 {
        Some(RestaurantMenuCuisine::Polish)
    } else if n == 19 {
        Some(RestaurantMenuCuisine::German)
    } else if n == 20 {
        Some(RestaurantMenuCuisine::British)
    } else if n == 21 {
        Some(RestaurantMenuCuisine::Irish)
    } else if n == 22 {
        Some(RestaurantMenuCuisine::Other)
    } else {
        None
    }
}

// ########################################################
// ################# Menu item encoding ###################
// ########################################################

/// Wire form of one menu item.
pub open spec fn spec_encode_menu_item(m: SpecMenuItem) -> SpecValue {
    SpecValue::Obj(
        seq![
            ("id"@, SpecValue::Id(m.id.0)),
            ("name"@, SpecValue::Str(m.name)),
            ("price"@, SpecValue::UInt(m.price.0)),
        ],
    )
}

/// The menu item a wire value stands for, if any.
pub open spec fn spec_decode_menu_item(v: SpecValue) -> Option<SpecMenuItem> {
    match v {
        SpecValue::Obj(fs) => if fs.len() == 3 && fs[0].0 == "id"@ && fs[1].0 == "name"@ && fs[2].0
            == "price"@ {
            match (fs[0].1, fs[1].1, fs[2].1) {
                (SpecValue::Id(id), SpecValue::Str(name), SpecValue::UInt(price)) => Some(
                    SpecMenuItem { id: MenuItemId(id), name, price: Money(price) },
                ),
                _ => None,
            }
        } else {
            None
        },
        _ => None,
    }
}

/// Decoding an encoded menu item gives it back.
pub proof fn lemma_menu_item_round_trip(m: SpecMenuItem)
    ensures
        spec_decode_menu_item(spec_encode_menu_item(m)) == Some(m),
{
}

pub(crate) fn encode_menu_item(m: &MenuItem) -> (r: Value)
    ensures
        r.deep_view() == spec_encode_menu_item(m.deep_view()),
{
    let fields: Vec<(String, Value)> = vec![
        ("id".to_owned(), Value::Id(m.id.0)),
        ("name".to_owned(), Value::Str(m.name.0.clone())),
        ("price".to_owned(), Value::UInt(m.price.0)),
    ];
    proof {
        lemma_view_fields_index(fields@);
        assert(view_fields(fields@) =~= spec_encode_menu_item(m.deep_view())->Obj_0);
    }
    Value::Obj(fields)
}

pub(crate) fn decode_menu_item(v: &Value) -> (r: Result<MenuItem, ErrorMessage>)
    ensures
        match spec_decode_menu_item(v.deep_view()) {
            Some(m) => r matches Ok(item) && item.deep_view() == m,
            None => r is Err,
        },
{
    match v {
        Value::Obj(fields) => {
            proof {
                lemma_view_fields_index(fields@);
            }
            if fields.len() == 3 && key_is(&fields[0].0, "id") && key_is(&fields[1].0, "name")
                && key_is(&fields[2].0, "price") {
                let id: u128 = match &fields[0].1 {
                    Value::Id(n) => *n,
                    _ => {
                        return Err(decode_error());
                    },
                };
                let name: String = match &fields[1].1 {
                    Value::Str(s) => s.clone(),
                    _ => {
                        return Err(decode_error());
                    },
                };
                let price: u64 = match &fields[2].1 {
                    Value::UInt(n) => *n,
                    _ => {
                        return Err(decode_error());
                    },
                };
                Ok(MenuItem { id: MenuItemId(id), name: MenuItemName(name), price: Money(price) })
            } else {
                Err(decode_error())
            }
        },
        _ => Err(decode_error()),
    }
}

// ########################################################
// ################ Menu item sequences ###################
// ########################################################

/// Wire form of a sequence of menu items.
pub open spec fn spec_encode_menu_items(items: Seq<SpecMenuItem>) -> Seq<SpecValue> {
    items.map_values(|m: SpecMenuItem| spec_encode_menu_item(m))
}

/// The menu items a wire sequence stands for, if all of them decode.
pub open spec fn spec_decode_menu_items(s: Seq<SpecValue>) -> Option<Seq<SpecMenuItem>>
    decreases s.len(),
{
    if s.len() == 0 {
        Some(Seq::empty())
    } else {
        match (spec_decode_menu_item(s[0]), spec_decode_menu_items(s.drop_first())) {
            (Some(m), Some(rest)) => Some(seq![m] + rest),
            _ => None,
        }
    }
}

/// A wire sequence decodes exactly when each element does, elementwise.
pub proof fn lemma_decode_menu_items_pointwise(s: Seq<SpecValue>)
    ensures
        spec_decode_menu_items(s) is Some <==> (forall|i: int|
            0 <= i < s.len() ==> spec_decode_menu_item(#[trigger] s[i]) is Some),
        spec_decode_menu_items(s) matches Some(ms) ==> ms.len() == s.len() && (forall|i: int|
            0 <= i < s.len() ==> Some((#[trigger] ms[i])) == spec_decode_menu_item(s[i])),
    decreases s.len(),
{
    if s.len() > 0 {
        lemma_decode_menu_items_pointwise(s.drop_first());
        assert(forall|i: int| 1 <= i < s.len() ==> #[trigger] s[i] == s.drop_first()[i - 1]);
    }
}

/// Decoding an encoded sequence of menu items gives it back.
pub proof fn lemma_menu_items_round_trip(items: Seq<SpecMenuItem>)
    ensures
        spec_decode_menu_items(spec_encode_menu_items(items)) == Some(items),
{
    let enc = spec_encode_menu_items(items);
    lemma_decode_menu_items_pointwise(enc);
    assert forall|i: int| 0 <= i < enc.len() implies spec_decode_menu_item(
        #[trigger] enc[i],
    ) is Some by {
        lemma_menu_item_round_trip(items[i]);
    }
    let ms = spec_decode_menu_items(enc)->Some_0;
    assert forall|i: int| 0 <= i < items.len() implies ms[i] == items[i] by {
        lemma_menu_item_round_trip(items[i]);
    }
    assert(ms =~= items);
}

pub(crate) fn encode_menu_items(items: &Vec<MenuItem>) -> (r: Vec<Value>)
    ensures
        view_values(r@) == spec_encode_menu_items(items.deep_view()),
{
    let ghost goal: Seq<SpecValue> = spec_encode_menu_items(items.deep_view());
    proof {
        lemma_vec_deep_view(items);
    }
    let mut out: Vec<Value> = Vec::new();
    let mut i: usize = 0;
    while i < items.len()
        invariant
            i <= items.len(),
            goal == spec_encode_menu_items(items.deep_view()),
            items.deep_view().len() == items@.len(),
            goal.len() == items@.len(),
            out@.len() == i,
            forall|j: int|
                0 <= j < i ==> view_value(#[trigger] out@[j]) == spec_encode_menu_item(
                    items.deep_view()[j],
                ),
        decreases items.len() - i,
    {
        let v = encode_menu_item(&items[i]);
        proof {
            assert(items[i as int].deep_view() == items.deep_view()[i as int]);
        }
        out.push(v);
        i = i + 1;
    }
    proof {
        lemma_view_values_index(out@);
        assert forall|j: int| 0 <= j < out@.len() implies view_values(out@)[j] == goal[j] by {
            assert(view_value(out@[j]) == spec_encode_menu_item(items.deep_view()[j]));
        }
        assert(view_values(out@) =~= goal);
    }
    out
}

pub(crate) fn decode_menu_items(vs: &Vec<Value>) -> (r: Result<Vec<MenuItem>, ErrorMessage>)
    ensures
        match spec_decode_menu_items(view_values(vs@)) {
            Some(ms) => r matches Ok(items) && items.deep_view() == ms,
            None => r is Err,
        },
{
    proof {
        lemma_view_values_index(vs@);
        lemma_decode_menu_items_pointwise(view_values(vs@));
    }
    let mut out: Vec<MenuItem> = Vec::new();
    let mut i: usize = 0;
    while i < vs.len()
        invariant
            i <= vs.len(),
            out@.len() == i,
            view_values(vs@).len() == vs@.len(),
            forall|j: int|
                0 <= j < vs@.len() ==> view_values(vs@)[j] == view_value(#[trigger] vs@[j]),
            forall|j: int|
                0 <= j < i ==> Some((#[trigger] out@[j]).deep_view()) == spec_decode_menu_item(
                    view_values(vs@)[j],
                ),
        decreases vs.len() - i,
    {
        match decode_menu_item(&vs[i]) {
            Ok(m) => {
                out.push(m);
            },
            Err(e) => {
                proof {
                    lemma_decode_menu_items_pointwise(view_values(vs@));
                }
                return Err(e);
            },
        }
        i = i + 1;
    }
    proof {
        lemma_decode_menu_items_pointwise(view_values(vs@));
        lemma_vec_deep_view(&out);
        let s = view_values(vs@);
        assert forall|j: int| 0 <= j < s.len() implies spec_decode_menu_item(
            #[trigger] s[j],
        ) is Some by {
            assert(Some(out@[j].deep_view()) == spec_decode_menu_item(s[j]));
        }
        let ms = spec_decode_menu_items(s)->Some_0;
        assert forall|j: int| 0 <= j < out@.len() implies out.deep_view()[j] == ms[j] by {
            assert(Some(out@[j].deep_view()) == spec_decode_menu_item(s[j]));
            assert(Some(ms[j]) == spec_decode_menu_item(s[j]));
        }
        assert(out.deep_view() =~= ms);
    }
    Ok(out)
}

// ########################################################
// #################### Menu encoding #####################
// ########################################################

/// Wire form of a restaurant menu.
pub open spec fn spec_encode_menu(m: SpecRestaurantMenu) -> SpecValue {
    SpecValue::Obj(
        seq![
            ("menu_id"@, SpecValue::Id(m.menu_id.0)),
            ("items"@, SpecValue::Arr(spec_encode_menu_items(m.items))),
            ("cuisine"@, SpecValue::UInt(spec_cuisine_code(m.cuisine))),
        ],
    )
}

/// The menu a wire value stands for, if any.
pub open spec fn spec_decode_menu(v: SpecValue) -> Option<SpecRestaurantMenu> {
    match v {
        SpecValue::Obj(fs) => if fs.len() == 3 && fs[0].0 == "menu_id"@ && fs[1].0 == "items"@
            && fs[2].0 == "cuisine"@ {
            match (fs[0].1, fs[1].1, fs[2].1) {
                (SpecValue::Id(id), SpecValue::Arr(vs), SpecValue::UInt(code)) => match (
                    spec_decode_menu_items(vs),
                    spec_cuisine_of_code(code),
                ) {
                    (Some(items), Some(cuisine)) => Some(
                        SpecRestaurantMenu { menu_id: MenuId(id), items, cuisine },
                    ),
                    _ => None,
                },
                _ => None,
            }
        } else {
            None
        },
        _ => None,
    }
}

/// Decoding an encoded menu gives it back.
pub proof fn lemma_menu_round_trip(m: SpecRestaurantMenu)
    ensures
        spec_decode_menu(spec_encode_menu(m)) == Some(m),
{
    lemma_menu_items_round_trip(m.items);
    lemma_cuisine_round_trip(m.cuisine);
}

pub(crate) fn encode_menu(m: &RestaurantMenu) -> (r: Value)
    ensures
        r.deep_view() == spec_encode_menu(m.deep_view()),
{
    let items: Vec<Value> = encode_menu_items(&m.items);
    let code: u64 = cuisine_code(&m.cuisine);
    let fields: Vec<(String, Value)> = vec![
        ("menu_id".to_owned(), Value::Id(m.menu_id.0)),
        ("items".to_owned(), Value::Arr(items)),
        ("cuisine".to_owned(), Value::UInt(code)),
    ];
    proof {
        lemma_view_fields_index(fields@);
        assert(view_fields(fields@) =~= spec_encode_menu(m.deep_view())->Obj_0);
    }
    Value::Obj(fields)
}

pub(crate) fn decode_menu(v: &Value) -> (r: Result<RestaurantMenu, ErrorMessage>)
    ensures
        match spec_decode_menu(v.deep_view()) {
            Some(m) => r matches Ok(menu) && menu.deep_view() == m,
            None => r is Err,
        },
{
    match v {
        Value::Obj(fields) => {
            proof {
                lemma_view_fields_index(fields@);
            }
            if fields.len() == 3 && key_is(&fields[0].0, "menu_id") && key_is(
                &fields[1].0,
                "items",
            ) && key_is(&fields[2].0, "cuisine") {
                let id: u128 = match &fields[0].1 {
                    Value::Id(n) => *n,
                    _ => {
                        return Err(decode_error());
                    },
                };
                let items: Vec<MenuItem> = match &fields[1].1 {
                    Value::Arr(vs) => match decode_menu_items(vs) {
                        Ok(items) => items,
                        Err(e) => {
                            return Err(e);
                        },
                    },
                    _ => {
                        return Err(decode_error());
                    },
                };
                let cuisine: RestaurantMenuCuisine = match &fields[2].1 {
                    Value::UInt(n) => match cuisine_of_code(*n) {
                        Some(c) => c,
                        None => {
                            return Err(decode_error());
                        },
                    },
                    _ => {
                        return Err(decode_error());
                    },
                };
                Ok(RestaurantMenu { menu_id: MenuId(id), items, cuisine })
            } else {
                Err(decode_error())
            }
        },
        _ => Err(decode_error()),
    }
}

// ########################################################
// ################ Line item encoding ####################
// ########################################################

/// Wire form of one order line item.
pub open spec fn spec_encode_line_item(l: SpecOrderLineItem) -> SpecValue {
    SpecValue::Obj(
        seq![
            ("id"@, SpecValue::Id(l.id.0)),
            ("quantity"@, SpecValue::UInt(l.quantity.0 as u64)),
            ("menu_item_id"@, SpecValue::Id(l.menu_item_id.0)),
            ("name"@, SpecValue::Str(l.name)),
        ],
    )
}

/// The line item a wire value stands for, if any.
pub open spec fn spec_decode_line_item(v: SpecValue) -> Option<SpecOrderLineItem> {
    match v {
        SpecValue::Obj(fs) => if fs.len() == 4 && fs[0].0 == "id"@ && fs[1].0 == "quantity"@
            && fs[2].0 == "menu_item_id"@ && fs[3].0 == "name"@ {
            match (fs[0].1, fs[1].1, fs[2].1, fs[3].1) {
                (
                    SpecValue::Id(id),
                    SpecValue::UInt(q),
                    SpecValue::Id(mid),
                    SpecValue::Str(name),
                ) => if q <= u32::MAX as u64 {
                    Some(
                        SpecOrderLineItem {
                            id: OrderLineItemId(id),
                            quantity: OrderLineItemQuantity(q as u32),
                            menu_item_id: MenuItemId(mid),
                            name,
                        },
                    )
                } else {
                    None
                },
                _ => None,
            }
        } else {
            None
        },
        _ => None,
    }
}

/// Decoding an encoded line item gives it back.
pub proof fn lemma_line_item_round_trip(l: SpecOrderLineItem)
    ensures
        spec_decode_line_item(spec_encode_line_item(l)) == Some(l),
{
}

pub(crate) fn encode_line_item(l: &OrderLineItem) -> (r: Value)
    ensures
        r.deep_view() == spec_encode_line_item(l.deep_view()),
{
    let fields: Vec<(String, Value)> = vec![
        ("id".to_owned(), Value::Id(l.id.0)),
        ("quantity".to_owned(), Value::UInt(l.quantity.0 as u64)),
        ("menu_item_id".to_owned(), Value::Id(l.menu_item_id.0)),
        ("name".to_owned(), Value::Str(l.name.0.clone())),
    ];
    proof {
        lemma_view_fields_index(fields@);
        assert(view_fields(fields@) =~= spec_encode_line_item(l.deep_view())->Obj_0);
    }
    Value::Obj(fields)
}

pub(crate) fn decode_line_item(v: &Value) -> (r: Result<OrderLineItem, ErrorMessage>)
    ensures
        match spec_decode_line_item(v.deep_view()) {
            Some(l) => r matches Ok(item) && item.deep_view() == l,
            None => r is Err,
        },
{
    match v {
        Value::Obj(fields) => {
            proof {
                lemma_view_fields_index(fields@);
            }
            if fields.len() == 4 && key_is(&fields[0].0, "id") && key_is(&fields[1].0, "quantity")
                && key_is(&fields[2].0, "menu_item_id") && key_is(&fields[3].0, "name") {
                let id: u128 = match &fields[0].1 {
                    Value::Id(n) => *n,
                    _ => {
                        return Err(decode_error());
                    },
                };
                let quantity: u64 = match &fields[1].1 {
                    Value::UInt(n) => *n,
                    _ => {
                        return Err(decode_error());
                    },
                };
                if quantity > u32::MAX as u64 {
                    return Err(decode_error());
                }
                let mid: u128 = match &fields[2].1 {
                    Value::Id(n) => *n,
                    _ => {
                        return Err(decode_error());
                    },
                };
                let name: String = match &fields[3].1 {
                    Value::Str(s) => s.clone(),
                    _ => {
                        return Err(decode_error());
                    },
                };
                Ok(
                    OrderLineItem {
                        id: OrderLineItemId(id),
                        quantity: OrderLineItemQuantity(quantity as u32),
                        menu_item_id: MenuItemId(mid),
                        name: MenuItemName(name),
                    },
                )
            } else {
                Err(decode_error())
            }
        },
        _ => Err(decode_error()),
    }
}

// ########################################################
// ############### Line item sequences ####################
// ########################################################

/// Wire form of a sequence of order line items.
pub open spec fn spec_encode_line_items(items: Seq<SpecOrderLineItem>) -> Seq<SpecValue> {
    items.map_values(|l: SpecOrderLineItem| spec_encode_line_item(l))
}

/// The line items a wire sequence stands for, if all of them decode.
pub open spec fn spec_decode_line_items(s: Seq<SpecValue>) -> Option<Seq<SpecOrderLineItem>>
    decreases s.len(),
{
    if s.len() == 0 {
        Some(Seq::empty())
    } else {
        match (spec_decode_line_item(s[0]), spec_decode_line_items(s.drop_first())) {
            (Some(l), Some(rest)) => Some(seq![l] + rest),
            _ => None,
        }
    }
}

/// A wire sequence decodes exactly when each element does, elementwise.
pub proof fn lemma_decode_line_items_pointwise(s: Seq<SpecValue>)
    ensures
        spec_decode_line_items(s) is Some <==> (forall|i: int|
            0 <= i < s.len() ==> spec_decode_line_item(#[trigger] s[i]) is Some),
        spec_decode_line_items(s) matches Some(ls) ==> ls.len() == s.len() && (forall|i: int|
            0 <= i < s.len() ==> Some((#[trigger] ls[i])) == spec_decode_line_item(s[i])),
    decreases s.len(),
{
    if s.len() > 0 {
        lemma_decode_line_items_pointwise(s.drop_first());
        assert(forall|i: int| 1 <= i < s.len() ==> #[trigger] s[i] == s.drop_first()[i - 1]);
    }
}

/// Decoding an encoded sequence of line items gives it back.
pub proof fn lemma_line_items_round_trip(items: Seq<SpecOrderLineItem>)
    ensures
        spec_decode_line_items(spec_encode_line_items(items)) == Some(items),
{
    let enc = spec_encode_line_items(items);
    lemma_decode_line_items_pointwise(enc);
    assert forall|i: int| 0 <= i < enc.len() implies spec_decode_line_item(
        #[trigger] enc[i],
    ) is Some by {
        lemma_line_item_round_trip(items[i]);
    }
    let ls = spec_decode_line_items(enc)->Some_0;
    assert forall|i: int| 0 <= i < items.len() implies ls[i] == items[i] by {
        lemma_line_item_round_trip(items[i]);
    }
    assert(ls =~= items);
}

pub(crate) fn encode_line_items(items: &Vec<OrderLineItem>) -> (r: Vec<Value>)
    ensures
        view_values(r@) == spec_encode_line_items(items.deep_view()),
{
    let ghost goal: Seq<SpecValue> = spec_encode_line_items(items.deep_view());
    proof {
        lemma_vec_deep_view(items);
    }
    let mut out: Vec<Value> = Vec::new();
    let mut i: usize = 0;
    while i < items.len()
        invariant
            i <= items.len(),
            goal == spec_encode_line_items(items.deep_view()),
            items.deep_view().len() == items@.len(),
            goal.len() == items@.len(),
            out@.len() == i,
            forall|j: int|
                0 <= j < i ==> view_value(#[trigger] out@[j]) == spec_encode_line_item(
                    items.deep_view()[j],
                ),
        decreases items.len() - i,
    {
        let v = encode_line_item(&items[i]);
        proof {
            assert(items[i as int].deep_view() == items.deep_view()[i as int]);
        }
        out.push(v);
        i = i + 1;
    }
    proof {
        lemma_view_values_index(out@);
        assert forall|j: int| 0 <= j < out@.len() implies view_values(out@)[j] == goal[j] by {
            assert(view_value(out@[j]) == spec_encode_line_item(items.deep_view()[j]));
        }
        assert(view_values(out@) =~= goal);
    }
    out
}

pub(crate) fn decode_line_items(vs: &Vec<Value>) -> (r: Result<Vec<OrderLineItem>, ErrorMessage>)
    ensures
        match spec_decode_line_items(view_values(vs@)) {
            Some(ls) => r matches Ok(items) && items.deep_view() == ls,
            None => r is Err,
        },
{
    proof {
        lemma_view_values_index(vs@);
        lemma_decode_line_items_pointwise(view_values(vs@));
    }
    let mut out: Vec<OrderLineItem> = Vec::new();
    let mut i: usize = 0;
    while i < vs.len()
        invariant
            i <= vs.len(),
            out@.len() == i,
            view_values(vs@).len() == vs@.len(),
            forall|j: int|
                0 <= j < vs@.len() ==> view_values(vs@)[j] == view_value(#[trigger] vs@[j]),
            forall|j: int|
                0 <= j < i ==> Some((#[trigger] out@[j]).deep_view()) == spec_decode_line_item(
                    view_values(vs@)[j],
                ),
        decreases vs.len() - i,
    {
        match decode_line_item(&vs[i]) {
            Ok(l) => {
                out.push(l);
            },
            Err(e) => {
                proof {
                    lemma_decode_line_items_pointwise(view_values(vs@));
                }
                return Err(e);
            },
        }
        i = i + 1;
    }
    proof {
        lemma_decode_line_items_pointwise(view_values(vs@));
        lemma_vec_deep_view(&out);
        let s = view_values(vs@);
        assert forall|j: int| 0 <= j < s.len() implies spec_decode_line_item(
            #[trigger] s[j],
        ) is Some by {
            assert(Some(out@[j].deep_view()) == spec_decode_line_item(s[j]));
        }
        let ls = spec_decode_line_items(s)->Some_0;
        assert forall|j: int| 0 <= j < out@.len() implies out.deep_view()[j] == ls[j] by {
            assert(Some(out@[j].deep_view()) == spec_decode_line_item(s[j]));
            assert(Some(ls[j]) == spec_decode_line_item(s[j]));
        }
        assert(out.deep_view() =~= ls);
    }
    Ok(out)
}

/// Clone a payload value, keeping its model.
#[verifier::loop_isolation(false)]
pub fn clone_value(v: &Value) -> (r: Value)
    ensures
        r.deep_view() == v.deep_view(),
    decreases *v,
{
    match v {
        Value::Null => Value::Null,
        Value::Id(n) => Value::Id(*n),
        Value::UInt(n) => Value::UInt(*n),
        Value::Str(s) => Value::Str(s.clone()),
        Value::Arr(vs) => {
            let mut out: Vec<Value> = Vec::new();
            let mut i: usize = 0;
            while i < vs.len()
                invariant
                    i <= vs.len(),
                    out@.len() == i,
                    forall|j: int|
                        0 <= j < i ==> view_value(#[trigger] out@[j]) == view_value(vs@[j]),
                decreases vs.len() - i,
            {
                proof {
                    vstd::std_specs::vec::axiom_vec_index_decreases(*vs, i as int);
                }
                let c = clone_value(&vs[i]);
                out.push(c);
                i = i + 1;
            }
            proof {
                lemma_view_values_index(out@);
                lemma_view_values_index(vs@);
                assert forall|j: int| 0 <= j < out@.len() implies view_values(out@)[j]
                    == view_values(vs@)[j] by {
                    assert(view_value(out@[j]) == view_value(vs@[j]));
                }
                assert(view_values(out@) =~= view_values(vs@));
            }
            Value::Arr(out)
        },
        Value::Obj(fs) => {
            let mut out: Vec<(String, Value)> = Vec::new();
            let mut i: usize = 0;
            while i < fs.len()
                invariant
                    i <= fs.len(),
                    out@.len() == i,
                    forall|j: int|
                        0 <= j < i ==> (#[trigger] out@[j]).0@ == fs@[j].0@ && view_value(
                            out@[j].1,
                        ) == view_value(fs@[j].1),
                decreases fs.len() - i,
            {
                proof {
                    vstd::std_specs::vec::axiom_vec_index_decreases(*fs, i as int);
                }
                let key: String = fs[i].0.clone();
                let val: Value = clone_value(&fs[i].1);
                out.push((key, val));
                i = i + 1;
            }
            proof {
                lemma_view_fields_index(out@);
                lemma_view_fields_index(fs@);
                assert forall|j: int| 0 <= j < out@.len() implies view_fields(out@)[j]
                    == view_fields(fs@)[j] by {
                    assert(out@[j].0@ == fs@[j].0@ && view_value(out@[j].1) == view_value(
                        fs@[j].1,
                    ));
                }
                assert(view_fields(out@) =~= view_fields(fs@));
            }
            Value::Obj(out)
        },
    }
}

/// The error returned when a payload does not decode.
pub(crate) fn decode_error() -> (r: ErrorMessage)
    ensures
        r.message@ == "payload does not decode"@,
{
    ErrorMessage::new("payload does not decode")
}

pub(crate) fn key_is(key: &String, lit: &str) -> (r: bool)
    ensures
        r == (key@ == lit@),
{
    *key == lit.to_owned()
}

} // verus!
