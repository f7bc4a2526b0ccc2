//! Domain value objects, commands and events of the restaurant/order domain,
//! together with their mathematical models (`Spec*` datatypes reached through
//! `DeepView`) over which every contract in this crate is stated.
use vstd::prelude::*;

verus! {

// ########################################################
// #################### Value Objects #####################
// ########################################################

/// Identifier of a restaurant (a 128-bit id).
#[derive(Clone, Copy, PartialEq, Eq, Structural, Debug)]
pub struct RestaurantId(pub u128);

/// Name of a restaurant.
#[derive(PartialEq, Eq, Debug)]
pub struct RestaurantName(pub String);

/// Identifier of an order (a 128-bit id).
#[derive(Clone, Copy, PartialEq, Eq, Structural, Debug)]
pub struct OrderId(pub u128);

/// Why a command was refused; recorded inside negative events.
#[derive(PartialEq, Eq, Debug)]
pub struct Reason(pub String);

/// An amount of money, in minor currency units.
#[derive(Clone, Copy, PartialEq, Eq, Structural, Debug)]
pub struct Money(pub u64);

/// Identifier of a menu.
#[derive(Clone, Copy, PartialEq, Eq, Structural, Debug)]
pub struct MenuId(pub u128);

/// Identifier of a menu item.
#[derive(Clone, Copy, PartialEq, Eq, Structural, Debug)]
pub struct MenuItemId(pub u128);

/// Name of a menu item.
#[derive(PartialEq, Eq, Debug)]
pub struct MenuItemName(pub String);

/// Identifier of one line item of an order.
#[derive(Clone, Copy, PartialEq, Eq, Structural, Debug)]
pub struct OrderLineItemId(pub u128);

/// How many units of a menu item one line item asks for.
#[derive(Clone, Copy, PartialEq, Eq, Structural, Debug)]
pub struct OrderLineItemQuantity(pub u32);

/// One item offered on a restaurant menu.
#[derive(PartialEq, Eq, Debug)]
pub struct MenuItem {
    pub id: MenuItemId,
    pub name: MenuItemName,
    pub price: Money,
}

/// The cuisine a menu belongs to.
#[derive(Clone, Copy, PartialEq, Eq, Structural, Debug)]
pub enum RestaurantMenuCuisine {
    Italian,
    Indian,
    Chinese,
    Japanese,
    American,
    Mexican,
    French,
    Thai,
    Vietnamese,
    Greek,
    Korean,
    Spanish,
    Lebanese,
    Turkish,
    Ethiopian,
    Moroccan,
    Egyptian,
    Brazilian,
    Polish,
    German,
    British,
    Irish,
    Other,
}

/// A restaurant menu: its id, its items and its cuisine.
#[derive(PartialEq, Eq, Debug)]
pub struct RestaurantMenu {
    pub menu_id: MenuId,
    pub items: Vec<MenuItem>,
    pub cuisine: RestaurantMenuCuisine,
}

/// One line of an order: which menu item, how many, under which name.
#[derive(PartialEq, Eq, Debug)]
pub struct OrderLineItem {
    pub id: OrderLineItemId,
    pub quantity: OrderLineItemQuantity,
    pub menu_item_id: MenuItemId,
    pub name: MenuItemName,
}

/// Lifecycle status of an order.
#[derive(Clone, Copy, PartialEq, Eq, Structural, Debug)]
pub enum OrderStatus {
    Created,
    Prepared,
    Cancelled,
    Rejected,
}

// ########################################################
// ################ Mathematical models ###################
// ########################################################

/// Model of a [`MenuItem`].
pub struct SpecMenuItem {
    pub id: MenuItemId,
    pub name: Seq<char>,
    pub price: Money,
}

/// Model of a [`RestaurantMenu`].
pub struct SpecRestaurantMenu {
    pub menu_id: MenuId,
    pub items: Seq<SpecMenuItem>,
    pub cuisine: RestaurantMenuCuisine,
}

/// Model of an [`OrderLineItem`].
pub struct SpecOrderLineItem {
    pub id: OrderLineItemId,
    pub quantity: OrderLineItemQuantity,
    pub menu_item_id: MenuItemId,
    pub name: Seq<char>,
}

impl DeepView for RestaurantName {
    type V = Seq<char>;

    open spec fn deep_view(&self) -> Seq<char> {
        self.0@
    }
}

impl DeepView for Reason {
    type V = Seq<char>;

    open spec fn deep_view(&self) -> Seq<char> {
        self.0@
    }
}

impl DeepView for MenuItemName {
    type V = Seq<char>;

    open spec fn deep_view(&self) -> Seq<char> {
        self.0@
    }
}

impl DeepView for MenuItem {
    type V = SpecMenuItem;

    open spec fn deep_view(&self) -> SpecMenuItem {
        SpecMenuItem { id: self.id, name: self.name.deep_view(), price: self.price }
    }
}

impl DeepView for RestaurantMenu {
    type V = SpecRestaurantMenu;

    open spec fn deep_view(&self) -> SpecRestaurantMenu {
        SpecRestaurantMenu {
            menu_id: self.menu_id,
            items: self.items.deep_view(),
            cuisine: self.cuisine,
        }
    }
}

impl DeepView for OrderLineItem {
    type V = SpecOrderLineItem;

    open spec fn deep_view(&self) -> SpecOrderLineItem {
        SpecOrderLineItem {
            id: self.id,
            quantity: self.quantity,
            menu_item_id: self.menu_item_id,
            name: self.name.deep_view(),
        }
    }
}

impl Clone for RestaurantName {
    fn clone(&self) -> (r: Self)
        ensures
            r.deep_view() == self.deep_view(),
    {
        RestaurantName(self.0.clone())
    }
}

impl Clone for Reason {
    fn clone(&self) -> (r: Self)
        ensures
            r.deep_view() == self.deep_view(),
    {
        Reason(self.0.clone())
    }
}

impl Clone for MenuItemName {
    fn clone(&self) -> (r: Self)
        ensures
            r.deep_view() == self.deep_view(),
    {
        MenuItemName(self.0.clone())
    }
}

impl Clone for MenuItem {
    fn clone(&self) -> (r: Self)
        ensures
            r.deep_view() == self.deep_view(),
    {
        MenuItem { id: self.id, name: self.name.clone(), price: self.price }
    }
}

/// The model of a vector is the pointwise model of its elements.
pub proof fn lemma_vec_deep_view<T: DeepView>(v: &Vec<T>)
    ensures
        v.deep_view().len() == v@.len(),
        forall|i: int| 0 <= i < v@.len() ==> #[trigger] v.deep_view()[i] == v@[i].deep_view(),
{
}

/// Clone a vector of menu items, keeping its model.
pub fn clone_menu_items(items: &Vec<MenuItem>) -> (r: Vec<MenuItem>)
    ensures
        r.deep_view() == items.deep_view(),
{
    let mut out: Vec<MenuItem> = Vec::new();
    let mut i: usize = 0;
    proof {
        lemma_vec_deep_view(items);
    }
    while i < items.len()
        invariant
            i <= items.len(),
            items.deep_view().len() == items@.len(),
            out@.len() == i,
            out.deep_view() == items.deep_view().subrange(0, i as int),
        decreases items.len() - i,
    {
        let c = items[i].clone();
        let ghost old_out: Seq<MenuItem> = out@;
        let ghost old_deep = out.deep_view();
        out.push(c);
        proof {
            assert(out@ == old_out.push(c));
            assert(out.deep_view()[i as int] == c.deep_view());
            assert(c.deep_view() == items.deep_view()[i as int]);
            assert forall|j: int| 0 <= j < i implies out.deep_view()[j] == items.deep_view()[j] by {
                assert(out@[j] == old_out[j]);
                assert(old_deep[j] == old_out[j].deep_view());
                assert(old_deep[j] == items.deep_view()[j]);
            }
            assert(out.deep_view() =~= items.deep_view().subrange(0, (i + 1) as int));
        }
        i = i + 1;
    }
    proof {
        assert(items.deep_view().subrange(0, items@.len() as int) =~= items.deep_view());
    }
    out
}

impl Clone for RestaurantMenu {
    fn clone(&self) -> (r: Self)
        ensures
            r.deep_view() == self.deep_view(),
    {
        RestaurantMenu {
            menu_id: self.menu_id,
            items: clone_menu_items(&self.items),
            cuisine: self.cuisine,
        }
    }
}

impl Clone for OrderLineItem {
    fn clone(&self) -> (r: Self)
        ensures
            r.deep_view() == self.deep_view(),
    {
        OrderLineItem {
            id: self.id,
            quantity: self.quantity,
            menu_item_id: self.menu_item_id,
            name: self.name.clone(),
        }
    }
}

/// Clone a vector of order line items, keeping its model.
pub fn clone_line_items(items: &Vec<OrderLineItem>) -> (r: Vec<OrderLineItem>)
    ensures
        r.deep_view() == items.deep_view(),
{
    let mut out: Vec<OrderLineItem> = Vec::new();
    let mut i: usize = 0;
    proof {
        lemma_vec_deep_view(items);
    }
    while i < items.len()
        invariant
            i <= items.len(),
            items.deep_view().len() == items@.len(),
            out@.len() == i,
            out.deep_view() == items.deep_view().subrange(0, i as int),
        decreases items.len() - i,
    {
        let c = items[i].clone();
        let ghost old_out: Seq<OrderLineItem> = out@;
        let ghost old_deep = out.deep_view();
        out.push(c);
        proof {
            assert(out@ == old_out.push(c));
            assert(out.deep_view()[i as int] == c.deep_view());
            assert(c.deep_view() == items.deep_view()[i as int]);
            assert forall|j: int| 0 <= j < i implies out.deep_view()[j] == items.deep_view()[j] by {
                assert(out@[j] == old_out[j]);
                assert(old_deep[j] == old_out[j].deep_view());
                assert(old_deep[j] == items.deep_view()[j]);
            }
            assert(out.deep_view() =~= items.deep_view().subrange(0, (i + 1) as int));
        }
        i = i + 1;
    }
    proof {
        assert(items.deep_view().subrange(0, items@.len() as int) =~= items.deep_view());
    }
    out
}

// ########################################################
// ####################### COMMANDS #######################
// ########################################################

/// Intent to create a new restaurant.
#[derive(PartialEq, Eq, Debug)]
pub struct CreateRestaurant {
    pub identifier: RestaurantId,
    pub name: RestaurantName,
    pub menu: RestaurantMenu,
}

/// Intent to change the menu of a restaurant.
#[derive(PartialEq, Eq, Debug)]
pub struct ChangeRestaurantMenu {
    pub identifier: RestaurantId,
    pub menu: RestaurantMenu,
}

/// Intent to place an order at a restaurant.
#[derive(PartialEq, Eq, Debug)]
pub struct PlaceOrder {
    pub identifier: RestaurantId,
    pub order_identifier: OrderId,
    pub line_items: Vec<OrderLineItem>,
}

/// All command variants that can be sent to a restaurant.
#[derive(PartialEq, Eq, Debug)]
pub enum RestaurantCommand {
    CreateRestaurant(CreateRestaurant),
    ChangeMenu(ChangeRestaurantMenu),
    PlaceOrder(PlaceOrder),
}

/// Intent to create a new order.
#[derive(PartialEq, Eq, Debug)]
pub struct CreateOrder {
    pub identifier: OrderId,
    pub restaurant_identifier: RestaurantId,
    pub line_items: Vec<OrderLineItem>,
}

/// Intent to mark an order as prepared.
#[derive(Clone, Copy, PartialEq, Eq, Structural, Debug)]
pub struct MarkOrderAsPrepared {
    pub identifier: OrderId,
}

/// All command variants that can be sent to an order.
#[derive(PartialEq, Eq, Debug)]
pub enum OrderCommand {
    Create(CreateOrder),
    MarkAsPrepared(MarkOrderAsPrepared),
}

/// Model of a [`CreateRestaurant`].
pub struct SpecCreateRestaurant {
    pub identifier: RestaurantId,
    pub name: Seq<char>,
    pub menu: SpecRestaurantMenu,
}

/// Model of a [`ChangeRestaurantMenu`].
pub struct SpecChangeRestaurantMenu {
    pub identifier: RestaurantId,
    pub menu: SpecRestaurantMenu,
}

/// Model of a [`PlaceOrder`].
pub struct SpecPlaceOrder {
    pub identifier: RestaurantId,
    pub order_identifier: OrderId,
    pub line_items: Seq<SpecOrderLineItem>,
}

/// Model of a [`RestaurantCommand`].
pub enum SpecRestaurantCommand {
    CreateRestaurant(SpecCreateRestaurant),
    ChangeMenu(SpecChangeRestaurantMenu),
    PlaceOrder(SpecPlaceOrder),
}

/// Model of a [`CreateOrder`].
pub struct SpecCreateOrder {
    pub identifier: OrderId,
    pub restaurant_identifier: RestaurantId,
    pub line_items: Seq<SpecOrderLineItem>,
}

/// Model of an [`OrderCommand`].
pub enum SpecOrderCommand {
    Create(SpecCreateOrder),
    MarkAsPrepared(MarkOrderAsPrepared),
}

impl DeepView for CreateRestaurant {
    type V = SpecCreateRestaurant;

    open spec fn deep_view(&self) -> SpecCreateRestaurant {
        SpecCreateRestaurant {
            identifier: self.identifier,
            name: self.name.deep_view(),
            menu: self.menu.deep_view(),
        }
    }
}

impl DeepView for ChangeRestaurantMenu {
    type V = SpecChangeRestaurantMenu;

    open spec fn deep_view(&self) -> SpecChangeRestaurantMenu {
        SpecChangeRestaurantMenu { identifier: self.identifier, menu: self.menu.deep_view() }
    }
}

impl DeepView for PlaceOrder {
    type V = SpecPlaceOrder;

    open spec fn deep_view(&self) -> SpecPlaceOrder {
        SpecPlaceOrder {
            identifier: self.identifier,
            order_identifier: self.order_identifier,
            line_items: self.line_items.deep_view(),
        }
    }
}

impl DeepView for RestaurantCommand {
    type V = SpecRestaurantCommand;

    open spec fn deep_view(&self) -> SpecRestaurantCommand {
        match self {
            RestaurantCommand::CreateRestaurant(c) => SpecRestaurantCommand::CreateRestaurant(
                c.deep_view(),
            ),
            RestaurantCommand::ChangeMenu(c) => SpecRestaurantCommand::ChangeMenu(c.deep_view()),
            RestaurantCommand::PlaceOrder(c) => SpecRestaurantCommand::PlaceOrder(c.deep_view()),
        }
    }
}

impl DeepView for CreateOrder {
    type V = SpecCreateOrder;

    open spec fn deep_view(&self) -> SpecCreateOrder {
        SpecCreateOrder {
            identifier: self.identifier,
            restaurant_identifier: self.restaurant_identifier,
            line_items: self.line_items.deep_view(),
        }
    }
}

impl DeepView for OrderCommand {
    type V = SpecOrderCommand;

    open spec fn deep_view(&self) -> SpecOrderCommand {
        match self {
            OrderCommand::Create(c) => SpecOrderCommand::Create(c.deep_view()),
            OrderCommand::MarkAsPrepared(c) => SpecOrderCommand::MarkAsPrepared(*c),
        }
    }
}

// ########################################################
// ######################## EVENTS ########################
// ########################################################

/// Fact: a restaurant was created.
#[derive(PartialEq, Eq, Debug)]
pub struct RestaurantCreated {
    pub identifier: RestaurantId,
    pub name: RestaurantName,
    pub menu: RestaurantMenu,
}

/// Fact: a restaurant was not created, with the reason.
#[derive(PartialEq, Eq, Debug)]
pub struct RestaurantNotCreated {
    pub identifier: RestaurantId,
    pub name: RestaurantName,
    pub menu: RestaurantMenu,
    pub reason: Reason,
}

/// Fact: a restaurant's menu was changed.
#[derive(PartialEq, Eq, Debug)]
pub struct RestaurantMenuChanged {
    pub identifier: RestaurantId,
    pub menu: RestaurantMenu,
}

/// Fact: a restaurant's menu was not changed, with the reason.
#[derive(PartialEq, Eq, Debug)]
pub struct RestaurantMenuNotChanged {
    pub identifier: RestaurantId,
    pub menu: RestaurantMenu,
    pub reason: Reason,
}

/// Fact: an order was placed at a restaurant.
#[derive(PartialEq, Eq, Debug)]
pub struct OrderPlaced {
    pub identifier: RestaurantId,
    pub order_identifier: OrderId,
    pub line_items: Vec<OrderLineItem>,
}

/// Fact: an order was not placed, with the reason.
#[derive(PartialEq, Eq, Debug)]
pub struct OrderNotPlaced {
    pub identifier: RestaurantId,
    pub order_identifier: OrderId,
    pub line_items: Vec<OrderLineItem>,
    pub reason: Reason,
}

/// All event variants a restaurant stream can hold.
#[derive(PartialEq, Eq, Debug)]
pub enum RestaurantEvent {
    Created(RestaurantCreated),
    NotCreated(RestaurantNotCreated),
    MenuChanged(RestaurantMenuChanged),
    MenuNotChanged(RestaurantMenuNotChanged),
    OrderPlaced(OrderPlaced),
    OrderNotPlaced(OrderNotPlaced),
}

/// Fact: an order was created.
#[derive(PartialEq, Eq, Debug)]
pub struct OrderCreated {
    pub identifier: OrderId,
    pub restaurant_identifier: RestaurantId,
    pub status: OrderStatus,
    pub line_items: Vec<OrderLineItem>,
}

/// Fact: an order was not created, with the reason.
#[derive(PartialEq, Eq, Debug)]
pub struct OrderNotCreated {
    pub identifier: OrderId,
    pub restaurant_identifier: RestaurantId,
    pub line_items: Vec<OrderLineItem>,
    pub reason: Reason,
}

/// Fact: an order was prepared.
#[derive(Clone, Copy, PartialEq, Eq, Structural, Debug)]
pub struct OrderPrepared {
    pub identifier: OrderId,
    pub status: OrderStatus,
}

/// Fact: an order was not prepared, with the reason.
#[derive(PartialEq, Eq, Debug)]
pub struct OrderNotPrepared {
    pub identifier: OrderId,
    pub reason: Reason,
}

/// All event variants an order stream can hold.
#[derive(PartialEq, Eq, Debug)]
pub enum OrderEvent {
    Created(OrderCreated),
    NotCreated(OrderNotCreated),
    Prepared(OrderPrepared),
    NotPrepared(OrderNotPrepared),
}

/// Model of a [`RestaurantCreated`].
pub struct SpecRestaurantCreated {
    pub identifier: RestaurantId,
    pub name: Seq<char>,
    pub menu: SpecRestaurantMenu,
}

/// Model of a [`RestaurantNotCreated`].
pub struct SpecRestaurantNotCreated {
    pub identifier: RestaurantId,
    pub name: Seq<char>,
    pub menu: SpecRestaurantMenu,
    pub reason: Seq<char>,
}

/// Model of a [`RestaurantMenuChanged`].
pub struct SpecRestaurantMenuChanged {
    pub identifier: RestaurantId,
    pub menu: SpecRestaurantMenu,
}

/// Model of a [`RestaurantMenuNotChanged`].
pub struct SpecRestaurantMenuNotChanged {
    pub identifier: RestaurantId,
    pub menu: SpecRestaurantMenu,
    pub reason: Seq<char>,
}

/// Model of an [`OrderPlaced`].
pub struct SpecOrderPlaced {
    pub identifier: RestaurantId,
    pub order_identifier: OrderId,
    pub line_items: Seq<SpecOrderLineItem>,
}

/// Model of an [`OrderNotPlaced`].
pub struct SpecOrderNotPlaced {
    pub identifier: RestaurantId,
    pub order_identifier: OrderId,
    pub line_items: Seq<SpecOrderLineItem>,
    pub reason: Seq<char>,
}

/// Model of a [`RestaurantEvent`].
pub enum SpecRestaurantEvent {
    Created(SpecRestaurantCreated),
    NotCreated(SpecRestaurantNotCreated),
    MenuChanged(SpecRestaurantMenuChanged),
    MenuNotChanged(SpecRestaurantMenuNotChanged),
    OrderPlaced(SpecOrderPlaced),
    OrderNotPlaced(SpecOrderNotPlaced),
}

/// Model of an [`OrderCreated`].
pub struct SpecOrderCreated {
    pub identifier: OrderId,
    pub restaurant_identifier: RestaurantId,
    pub status: OrderStatus,
    pub line_items: Seq<SpecOrderLineItem>,
}

/// Model of an [`OrderNotCreated`].
pub struct SpecOrderNotCreated {
    pub identifier: OrderId,
    pub restaurant_identifier: RestaurantId,
    pub line_items: Seq<SpecOrderLineItem>,
    pub reason: Seq<char>,
}

/// Model of an [`OrderNotPrepared`].
pub struct SpecOrderNotPrepared {
    pub identifier: OrderId,
    pub reason: Seq<char>,
}

/// Model of an [`OrderEvent`].
pub enum SpecOrderEvent {
    Created(SpecOrderCreated),
    NotCreated(SpecOrderNotCreated),
    Prepared(OrderPrepared),
    NotPrepared(SpecOrderNotPrepared),
}

impl DeepView for RestaurantCreated {
    type V = SpecRestaurantCreated;

    open spec fn deep_view(&self) -> SpecRestaurantCreated {
        SpecRestaurantCreated {
            identifier: self.identifier,
            name: self.name.deep_view(),
            menu: self.menu.deep_view(),
        }
    }
}

impl DeepView for RestaurantNotCreated {
    type V = SpecRestaurantNotCreated;

    open spec fn deep_view(&self) -> SpecRestaurantNotCreated {
        SpecRestaurantNotCreated {
            identifier: self.identifier,
            name: self.name.deep_view(),
            menu: self.menu.deep_view(),
            reason: self.reason.deep_view(),
        }
    }
}

impl DeepView for RestaurantMenuChanged {
    type V = SpecRestaurantMenuChanged;

    open spec fn deep_view(&self) -> SpecRestaurantMenuChanged {
        SpecRestaurantMenuChanged { identifier: self.identifier, menu: self.menu.deep_view() }
    }
}

impl DeepView for RestaurantMenuNotChanged {
    type V = SpecRestaurantMenuNotChanged;

    open spec fn deep_view(&self) -> SpecRestaurantMenuNotChanged {
        SpecRestaurantMenuNotChanged {
            identifier: self.identifier,
            menu: self.menu.deep_view(),
            reason: self.reason.deep_view(),
        }
    }
}

impl DeepView for OrderPlaced {
    type V = SpecOrderPlaced;

    open spec fn deep_view(&self) -> SpecOrderPlaced {
        SpecOrderPlaced {
            identifier: self.identifier,
            order_identifier: self.order_identifier,
            line_items: self.line_items.deep_view(),
        }
    }
}

impl DeepView for OrderNotPlaced {
    type V = SpecOrderNotPlaced;

    open spec fn deep_view(&self) -> SpecOrderNotPlaced {
        SpecOrderNotPlaced {
            identifier: self.identifier,
            order_identifier: self.order_identifier,
            line_items: self.line_items.deep_view(),
            reason: self.reason.deep_view(),
        }
    }
}

impl DeepView for RestaurantEvent {
    type V = SpecRestaurantEvent;

    open spec fn deep_view(&self) -> SpecRestaurantEvent {
        match self {
            RestaurantEvent::Created(e) => SpecRestaurantEvent::Created(e.deep_view()),
            RestaurantEvent::NotCreated(e) => SpecRestaurantEvent::NotCreated(e.deep_view()),
            RestaurantEvent::MenuChanged(e) => SpecRestaurantEvent::MenuChanged(e.deep_view()),
            RestaurantEvent::MenuNotChanged(e) => SpecRestaurantEvent::MenuNotChanged(
                e.deep_view(),
            ),
            RestaurantEvent::OrderPlaced(e) => SpecRestaurantEvent::OrderPlaced(e.deep_view()),
            RestaurantEvent::OrderNotPlaced(e) => SpecRestaurantEvent::OrderNotPlaced(
                e.deep_view(),
            ),
        }
    }
}

impl DeepView for OrderCreated {
    type V = SpecOrderCreated;

    open spec fn deep_view(&self) -> SpecOrderCreated {
        SpecOrderCreated {
            identifier: self.identifier,
            restaurant_identifier: self.restaurant_identifier,
            status: self.status,
            line_items: self.line_items.deep_view(),
        }
    }
}

impl DeepView for OrderNotCreated {
    type V = SpecOrderNotCreated;

    open spec fn deep_view(&self) -> SpecOrderNotCreated {
        SpecOrderNotCreated {
            identifier: self.identifier,
            restaurant_identifier: self.restaurant_identifier,
            line_items: self.line_items.deep_view(),
            reason: self.reason.deep_view(),
        }
    }
}

impl DeepView for OrderNotPrepared {
    type V = SpecOrderNotPrepared;

    open spec fn deep_view(&self) -> SpecOrderNotPrepared {
        SpecOrderNotPrepared { identifier: self.identifier, reason: self.reason.deep_view() }
    }
}

impl DeepView for OrderEvent {
    type V = SpecOrderEvent;

    open spec fn deep_view(&self) -> SpecOrderEvent {
        match self {
            OrderEvent::Created(e) => SpecOrderEvent::Created(e.deep_view()),
            OrderEvent::NotCreated(e) => SpecOrderEvent::NotCreated(e.deep_view()),
            OrderEvent::Prepared(e) => SpecOrderEvent::Prepared(*e),
            OrderEvent::NotPrepared(e) => SpecOrderEvent::NotPrepared(e.deep_view()),
        }
    }
}

// ########################################################
// ####################     TRAITS      ###################
// ########################################################

/// The stream key of a restaurant command, as a model value.
pub open spec fn spec_restaurant_command_id(c: SpecRestaurantCommand) -> u128 {
    match c {
        SpecRestaurantCommand::CreateRestaurant(x) => x.identifier.0,
        SpecRestaurantCommand::ChangeMenu(x) => x.identifier.0,
        SpecRestaurantCommand::PlaceOrder(x) => x.identifier.0,
    }
}

/// The stream key of an order command, as a model value.
pub open spec fn spec_order_command_id(c: SpecOrderCommand) -> u128 {
    match c {
        SpecOrderCommand::Create(x) => x.identifier.0,
        SpecOrderCommand::MarkAsPrepared(x) => x.identifier.0,
    }
}

/// The stream key of a restaurant event, as a model value.
pub open spec fn spec_restaurant_event_id(e: SpecRestaurantEvent) -> u128 {
    match e {
        SpecRestaurantEvent::Created(x) => x.identifier.0,
        SpecRestaurantEvent::NotCreated(x) => x.identifier.0,
        SpecRestaurantEvent::MenuChanged(x) => x.identifier.0,
        SpecRestaurantEvent::MenuNotChanged(x) => x.identifier.0,
        SpecRestaurantEvent::OrderPlaced(x) => x.identifier.0,
        SpecRestaurantEvent::OrderNotPlaced(x) => x.identifier.0,
    }
}

/// The stream key of an order event, as a model value.
pub open spec fn spec_order_event_id(e: SpecOrderEvent) -> u128 {
    match e {
        SpecOrderEvent::Created(x) => x.identifier.0,
        SpecOrderEvent::NotCreated(x) => x.identifier.0,
        SpecOrderEvent::Prepared(x) => x.identifier.0,
        SpecOrderEvent::NotPrepared(x) => x.identifier.0,
    }
}

/// The registered variant tag of a restaurant event, as a model value.
pub open spec fn spec_restaurant_event_name(e: SpecRestaurantEvent) -> Seq<char> {
    match e {
        SpecRestaurantEvent::Created(_) => "RestaurantCreated"@,
        SpecRestaurantEvent::NotCreated(_) => "RestaurantNotCreated"@,
        SpecRestaurantEvent::MenuChanged(_) => "RestaurantMenuChanged"@,
        SpecRestaurantEvent::MenuNotChanged(_) => "RestaurantMenuNotChanged"@,
        SpecRestaurantEvent::OrderPlaced(_) => "OrderPlaced"@,
        SpecRestaurantEvent::OrderNotPlaced(_) => "OrderNotPlaced"@,
    }
}

/// The registered variant tag of an order event, as a model value.
pub open spec fn spec_order_event_name(e: SpecOrderEvent) -> Seq<char> {
    match e {
        SpecOrderEvent::Created(_) => "OrderCreated"@,
        SpecOrderEvent::NotCreated(_) => "OrderNotCreated"@,
        SpecOrderEvent::Prepared(_) => "OrderPrepared"@,
        SpecOrderEvent::NotPrepared(_) => "OrderNotPrepared"@,
    }
}

/// The stream key (`decider_id`) a command or event belongs to.
pub trait Identifier {
    /// The stream key, as a model value.
    spec fn spec_identifier(&self) -> u128;

    /// The stream key this message addresses.
    fn identifier(&self) -> (r: u128)
        ensures
            r == self.spec_identifier(),
    ;
}

impl Identifier for RestaurantCommand {
    open spec fn spec_identifier(&self) -> u128 {
        spec_restaurant_command_id(self.deep_view())
    }

    fn identifier(&self) -> (r: u128)
        ensures
            r == self.spec_identifier(),
    {
        match self {
            RestaurantCommand::CreateRestaurant(c) => c.identifier.0,
            RestaurantCommand::ChangeMenu(c) => c.identifier.0,
            RestaurantCommand::PlaceOrder(c) => c.identifier.0,
        }
    }
}

impl Identifier for OrderCommand {
    open spec fn spec_identifier(&self) -> u128 {
        spec_order_command_id(self.deep_view())
    }

    fn identifier(&self) -> (r: u128)
        ensures
            r == self.spec_identifier(),
    {
        match self {
            OrderCommand::Create(c) => c.identifier.0,
            OrderCommand::MarkAsPrepared(c) => c.identifier.0,
        }
    }
}

impl Identifier for RestaurantEvent {
    open spec fn spec_identifier(&self) -> u128 {
        spec_restaurant_event_id(self.deep_view())
    }

    fn identifier(&self) -> (r: u128)
        ensures
            r == self.spec_identifier(),
    {
        match self {
            RestaurantEvent::Created(e) => e.identifier.0,
            RestaurantEvent::NotCreated(e) => e.identifier.0,
            RestaurantEvent::MenuChanged(e) => e.identifier.0,
            RestaurantEvent::MenuNotChanged(e) => e.identifier.0,
            RestaurantEvent::OrderPlaced(e) => e.identifier.0,
            RestaurantEvent::OrderNotPlaced(e) => e.identifier.0,
        }
    }
}

impl Identifier for OrderEvent {
    open spec fn spec_identifier(&self) -> u128 {
        spec_order_event_id(self.deep_view())
    }

    fn identifier(&self) -> (r: u128)
        ensures
            r == self.spec_identifier(),
    {
        match self {
            OrderEvent::Created(e) => e.identifier.0,
            OrderEvent::NotCreated(e) => e.identifier.0,
            OrderEvent::Prepared(e) => e.identifier.0,
            OrderEvent::NotPrepared(e) => e.identifier.0,
        }
    }
}

/// The decider family (stream family) a message belongs to.
pub trait DeciderName {
    /// The family name, as a model value.
    spec fn spec_decider_name(&self) -> Seq<char>;

    /// The family name of this message.
    fn decider_name(&self) -> (r: String)
        ensures
            r@ == self.spec_decider_name(),
    ;
}

impl DeciderName for RestaurantEvent {
    open spec fn spec_decider_name(&self) -> Seq<char> {
        "Restaurant"@
    }

    fn decider_name(&self) -> (r: String)
        ensures
            r@ == self.spec_decider_name(),
    {
        "Restaurant".to_owned()
    }
}

impl DeciderName for OrderEvent {
    open spec fn spec_decider_name(&self) -> Seq<char> {
        "Order"@
    }

    fn decider_name(&self) -> (r: String)
        ensures
            r@ == self.spec_decider_name(),
    {
        "Order".to_owned()
    }
}

/// The registered variant tag of an event.
pub trait EventName {
    /// The variant tag, as a model value.
    spec fn spec_event_name(&self) -> Seq<char>;

    /// The variant tag of this event.
    fn event_name(&self) -> (r: String)
        ensures
            r@ == self.spec_event_name(),
    ;
}

impl EventName for RestaurantEvent {
    open spec fn spec_event_name(&self) -> Seq<char> {
        spec_restaurant_event_name(self.deep_view())
    }

    fn event_name(&self) -> (r: String)
        ensures
            r@ == self.spec_event_name(),
    {
        match self {
            RestaurantEvent::Created(_) => "RestaurantCreated".to_owned(),
            RestaurantEvent::NotCreated(_) => "RestaurantNotCreated".to_owned(),
            RestaurantEvent::MenuChanged(_) => "RestaurantMenuChanged".to_owned(),
            RestaurantEvent::MenuNotChanged(_) => "RestaurantMenuNotChanged".to_owned(),
            RestaurantEvent::OrderPlaced(_) => "OrderPlaced".to_owned(),
            RestaurantEvent::OrderNotPlaced(_) => "OrderNotPlaced".to_owned(),
        }
    }
}

impl EventName for OrderEvent {
    open spec fn spec_event_name(&self) -> Seq<char> {
        spec_order_event_name(self.deep_view())
    }

    fn event_name(&self) -> (r: String)
        ensures
            r@ == self.spec_event_name(),
    {
        match self {
            OrderEvent::Created(_) => "OrderCreated".to_owned(),
            OrderEvent::NotCreated(_) => "OrderNotCreated".to_owned(),
            OrderEvent::Prepared(_) => "OrderPrepared".to_owned(),
            OrderEvent::NotPrepared(_) => "OrderNotPrepared".to_owned(),
        }
    }
}

} // verus!
