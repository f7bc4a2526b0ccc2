//! Materialized views: projection row stores keyed by stream id, and the
//! runtime that folds one event into the stored projection and upserts it.
use vstd::prelude::*;

use vstd::pervasive::VecAdditionalExecFns;

use crate::api::{Identifier, OrderEvent, RestaurantEvent, spec_order_event_id,
    spec_restaurant_event_id};
use crate::order_view::{
    OrderView, OrderViewState, SpecOrderViewState, lemma_order_view_idempotent, order_view,
    spec_evolve_order_view,
};
use crate::restaurant_view::{
    RestaurantView, RestaurantViewState, SpecRestaurantViewState,
    lemma_restaurant_view_idempotent, restaurant_view, spec_evolve_restaurant_view,
};

verus! {

// ########################################################
// ############ Generic projection row model ##############
// ########################################################

/// The index of the row keyed `id`, or `-1` if none.
pub open spec fn spec_row_idx<S>(rows: Seq<(u128, S)>, id: u128) -> int
    decreases rows.len(),
{
    if rows.len() == 0 {
        -1
    } else if rows[0].0 == id {
        0
    } else {
        let r = spec_row_idx(rows.drop_first(), id);
        if r == -1 {
            -1
        } else {
            r + 1
        }
    }
}

/// The projection stored under `id`, if any.
pub open spec fn spec_row_lookup<S>(rows: Seq<(u128, S)>, id: u128) -> Option<S> {
    let k = spec_row_idx(rows, id);
    if k == -1 {
        None
    } else {
        Some(rows[k].1)
    }
}

/// The rows after writing `state` under `id`: update in place, or append.
pub open spec fn spec_upsert<S>(rows: Seq<(u128, S)>, id: u128, state: S) -> Seq<(u128, S)> {
    let k = spec_row_idx(rows, id);
    if k == -1 {
        rows.push((id, state))
    } else {
        rows.update(k, (id, state))
    }
}

/// The row index is in range and names a matching row, `-1` means no row
/// matches, and no earlier row matches.
pub proof fn lemma_row_idx<S>(rows: Seq<(u128, S)>, id: u128)
    ensures
        spec_row_idx(rows, id) == -1 ==> forall|i: int|
            0 <= i < rows.len() ==> (#[trigger] rows[i]).0 != id,
        spec_row_idx(rows, id) != -1 ==> {
            let k = spec_row_idx(rows, id);
            &&& 0 <= k < rows.len()
            &&& rows[k].0 == id
            &&& forall|m: int| 0 <= m < k ==> (#[trigger] rows[m]).0 != id
        },
    decreases rows.len(),
{
    if rows.len() > 0 {
        lemma_row_idx(rows.drop_first(), id);
        assert(forall|i: int| 1 <= i < rows.len() ==> #[trigger] rows[i] == rows.drop_first()[i
            - 1]);
    }
}

/// After an upsert, the key is found with the written state, and writing
/// the state that is already stored changes nothing.
pub proof fn lemma_upsert<S>(rows: Seq<(u128, S)>, id: u128, state: S)
    ensures
        spec_row_lookup(spec_upsert(rows, id, state), id) == Some(state),
        spec_row_lookup(rows, id) == Some(state) ==> spec_upsert(rows, id, state) == rows,
    decreases rows.len(),
{
    lemma_row_idx(rows, id);
    let out = spec_upsert(rows, id, state);
    lemma_row_idx(out, id);
    let k = spec_row_idx(rows, id);
    if k == -1 {
        lemma_row_idx_of_push_fresh(rows, id, state);
    } else {
        lemma_row_idx_of_update(rows, id, state, k);
        if spec_row_lookup(rows, id) == Some(state) {
            assert(rows.update(k, (id, state)) =~= rows);
        }
    }
}

proof fn lemma_row_idx_of_push_fresh<S>(rows: Seq<(u128, S)>, id: u128, state: S)
    requires
        spec_row_idx(rows, id) == -1,
    ensures
        spec_row_idx(rows.push((id, state)), id) == rows.len(),
    decreases rows.len(),
{
    if rows.len() == 0 {
        assert(rows.push((id, state))[0] == (id, state));
    } else {
        assert(rows.push((id, state))[0] == rows[0]);
        assert(rows[0].0 != id) by {
            lemma_row_idx(rows, id);
        }
        assert(rows.push((id, state)).drop_first() =~= rows.drop_first().push((id, state)));
        assert(spec_row_idx(rows.drop_first(), id) == -1) by {
            lemma_row_idx(rows.drop_first(), id);
            if spec_row_idx(rows.drop_first(), id) != -1 {
                assert(spec_row_idx(rows, id) == spec_row_idx(rows.drop_first(), id) + 1);
            }
        }
        lemma_row_idx_of_push_fresh(rows.drop_first(), id, state);
    }
}

proof fn lemma_row_idx_of_update<S>(rows: Seq<(u128, S)>, id: u128, state: S, k: int)
    requires
        spec_row_idx(rows, id) == k,
        0 <= k < rows.len(),
    ensures
        spec_row_idx(rows.update(k, (id, state)), id) == k,
    decreases rows.len(),
{
    if k == 0 {
        assert(rows.update(0, (id, state))[0] == (id, state));
    } else {
        assert(rows.update(k, (id, state))[0] == rows[0]);
        assert(rows.update(k, (id, state)).drop_first() =~= rows.drop_first().update(
            k - 1,
            (id, state),
        ));
        lemma_row_idx_of_update(rows.drop_first(), id, state, k - 1);
    }
}

// ########################################################
// ########### Restaurant projection repository ###########
// ########################################################

/// Stores the restaurant projections, one row per restaurant id.
pub struct RestaurantViewStateRepository {
    pub rows: Vec<(u128, RestaurantViewState)>,
}

impl RestaurantViewStateRepository {
    /// An empty repository.
    pub fn new() -> (r: RestaurantViewStateRepository)
        ensures
            r.rows.deep_view() == Seq::<(u128, SpecRestaurantViewState)>::empty(),
    {
        let r = RestaurantViewStateRepository { rows: Vec::new() };
        proof {
            assert(r.rows.deep_view() =~= Seq::<(u128, SpecRestaurantViewState)>::empty());
        }
        r
    }

    /// The projection stored for `id`, or none.
    #[verifier::loop_isolation(false)]
    pub fn get_restaurant(&self, id: u128) -> (r: Option<RestaurantViewState>)
        ensures
            r.deep_view() == spec_row_lookup(self.rows.deep_view(), id),
    {
        proof {
            lemma_vec_row_pairs_deep(&self.rows);
            lemma_row_idx(self.rows.deep_view(), id);
        }
        let mut i: usize = 0;
        while i < self.rows.len()
            invariant
                i <= self.rows@.len(),
                forall|j: int| 0 <= j < i ==> (#[trigger] self.rows.deep_view()[j]).0 != id,
            decreases self.rows@.len() - i,
        {
            if self.rows[i].0 == id {
                proof {
                    let k = spec_row_idx(self.rows.deep_view(), id);
                    assert((#[trigger] self.rows.deep_view()[i as int]).0 == id);
                    assert(k != -1);
                    if k < i as int {
                        assert((#[trigger] self.rows.deep_view()[k]).0 == id);
                        assert(false);
                    }
                    if k > i as int {
                        assert((#[trigger] self.rows.deep_view()[i as int]).0 != id);
                        assert(false);
                    }
                }
                return Some(self.rows[i].1.clone());
            }
            i = i + 1;
        }
        proof {
            if spec_row_idx(self.rows.deep_view(), id) != -1 {
                let k = spec_row_idx(self.rows.deep_view(), id);
                assert((#[trigger] self.rows.deep_view()[k]).0 == id);
                assert(false);
            }
        }
        None
    }

    /// All stored projections, in insertion order.
    #[verifier::loop_isolation(false)]
    pub fn get_all_restaurants(&self) -> (r: Vec<RestaurantViewState>)
        ensures
            r.deep_view().len() == self.rows.deep_view().len(),
            forall|i: int|
                0 <= i < self.rows.deep_view().len() ==> #[trigger] r.deep_view()[i]
                    == self.rows.deep_view()[i].1,
    {
        proof {
            lemma_vec_row_pairs_deep(&self.rows);
        }
        let mut out: Vec<RestaurantViewState> = Vec::new();
        let mut i: usize = 0;
        while i < self.rows.len()
            invariant
                i <= self.rows@.len(),
                out@.len() == i,
                forall|j: int|
                    0 <= j < i ==> (#[trigger] out@[j]).deep_view() == self.rows.deep_view()[
                        j].1,
            decreases self.rows@.len() - i,
        {
            out.push(self.rows[i].1.clone());
            i = i + 1;
        }
        proof {
            lemma_vec_states_deep(&out);
        }
        out
    }

    /// Write a projection under `id`, replacing any stored one.
    #[verifier::loop_isolation(false)]
    pub fn upsert_restaurant(&mut self, id: u128, state: RestaurantViewState)
        ensures
            final(self).rows.deep_view() == spec_upsert(
                old(self).rows.deep_view(),
                id,
                state.deep_view(),
            ),
    {
        proof {
            lemma_vec_row_pairs_deep(&self.rows);
            lemma_row_idx(self.rows.deep_view(), id);
        }
        let ghost rows0 = self.rows.deep_view();
        let mut i: usize = 0;
        while i < self.rows.len()
            invariant
                i <= self.rows@.len(),
                *self == *old(self),
                forall|j: int| 0 <= j < i ==> (#[trigger] self.rows.deep_view()[j]).0 != id,
            decreases self.rows@.len() - i,
        {
            if self.rows[i].0 == id {
                proof {
                    let k = spec_row_idx(rows0, id);
                    assert((#[trigger] rows0[i as int]).0 == id);
                    assert(k != -1);
                    if k < i as int {
                        assert((#[trigger] rows0[k]).0 == id);
                        assert(false);
                    }
                    if k > i as int {
                        assert((#[trigger] rows0[i as int]).0 != id);
                        assert(false);
                    }
                }
                self.rows.set(i, (id, state));
                proof {
                    lemma_vec_row_pairs_deep(&self.rows);
                    assert(self.rows.deep_view() =~= rows0.update(
                        i as int,
                        (id, state.deep_view()),
                    ));
                }
                return ;
            }
            i = i + 1;
        }
        proof {
            if spec_row_idx(rows0, id) != -1 {
                let k = spec_row_idx(rows0, id);
                assert((#[trigger] rows0[k]).0 == id);
                assert(false);
            }
        }
        self.rows.push((id, state));
        proof {
            lemma_vec_row_pairs_deep(&self.rows);
            assert(self.rows.deep_view() =~= rows0.push((id, state.deep_view())));
        }
    }
}

// ########################################################
// ############# Order projection repository ##############
// ########################################################

/// Stores the order projections, one row per order id.
pub struct OrderViewStateRepository {
    pub rows: Vec<(u128, OrderViewState)>,
}

impl OrderViewStateRepository {
    /// An empty repository.
    pub fn new() -> (r: OrderViewStateRepository)
        ensures
            r.rows.deep_view() == Seq::<(u128, SpecOrderViewState)>::empty(),
    {
        let r = OrderViewStateRepository { rows: Vec::new() };
        proof {
            assert(r.rows.deep_view() =~= Seq::<(u128, SpecOrderViewState)>::empty());
        }
        r
    }

    /// The projection stored for `id`, or none.
    #[verifier::loop_isolation(false)]
    pub fn get_order(&self, id: u128) -> (r: Option<OrderViewState>)
        ensures
            r.deep_view() == spec_row_lookup(self.rows.deep_view(), id),
    {
        proof {
            lemma_vec_order_row_pairs_deep(&self.rows);
            lemma_row_idx(self.rows.deep_view(), id);
        }
        let mut i: usize = 0;
        while i < self.rows.len()
            invariant
                i <= self.rows@.len(),
                forall|j: int| 0 <= j < i ==> (#[trigger] self.rows.deep_view()[j]).0 != id,
            decreases self.rows@.len() - i,
        {
            if self.rows[i].0 == id {
                proof {
                    let k = spec_row_idx(self.rows.deep_view(), id);
                    assert((#[trigger] self.rows.deep_view()[i as int]).0 == id);
                    assert(k != -1);
                    if k < i as int {
                        assert((#[trigger] self.rows.deep_view()[k]).0 == id);
                        assert(false);
                    }
                    if k > i as int {
                        assert((#[trigger] self.rows.deep_view()[i as int]).0 != id);
                        assert(false);
                    }
                }
                return Some(self.rows[i].1.clone());
            }
            i = i + 1;
        }
        proof {
            if spec_row_idx(self.rows.deep_view(), id) != -1 {
                let k = spec_row_idx(self.rows.deep_view(), id);
                assert((#[trigger] self.rows.deep_view()[k]).0 == id);
                assert(false);
            }
        }
        None
    }

    /// All stored projections, in insertion order.
    #[verifier::loop_isolation(false)]
    pub fn get_all_orders(&self) -> (r: Vec<OrderViewState>)
        ensures
            r.deep_view().len() == self.rows.deep_view().len(),
            forall|i: int|
                0 <= i < self.rows.deep_view().len() ==> #[trigger] r.deep_view()[i]
                    == self.rows.deep_view()[i].1,
    {
        proof {
            lemma_vec_order_row_pairs_deep(&self.rows);
        }
        let mut out: Vec<OrderViewState> = Vec::new();
        let mut i: usize = 0;
        while i < self.rows.len()
            invariant
                i <= self.rows@.len(),
                out@.len() == i,
                forall|j: int|
                    0 <= j < i ==> (#[trigger] out@[j]).deep_view() == self.rows.deep_view()[
                        j].1,
            decreases self.rows@.len() - i,
        {
            out.push(self.rows[i].1.clone());
            i = i + 1;
        }
        proof {
            lemma_vec_order_states_deep(&out);
        }
        out
    }

    /// Write a projection under `id`, replacing any stored one.
    #[verifier::loop_isolation(false)]
    pub fn upsert_order(&mut self, id: u128, state: OrderViewState)
        ensures
            final(self).rows.deep_view() == spec_upsert(
                old(self).rows.deep_view(),
                id,
                state.deep_view(),
            ),
    {
        proof {
            lemma_vec_order_row_pairs_deep(&self.rows);
            lemma_row_idx(self.rows.deep_view(), id);
        }
        let ghost rows0 = self.rows.deep_view();
        let mut i: usize = 0;
        while i < self.rows.len()
            invariant
                i <= self.rows@.len(),
                *self == *old(self),
                forall|j: int| 0 <= j < i ==> (#[trigger] self.rows.deep_view()[j]).0 != id,
            decreases self.rows@.len() - i,
        {
            if self.rows[i].0 == id {
                proof {
                    let k = spec_row_idx(rows0, id);
                    assert((#[trigger] rows0[i as int]).0 == id);
                    assert(k != -1);
                    if k < i as int {
                        assert((#[trigger] rows0[k]).0 == id);
                        assert(false);
                    }
                    if k > i as int {
                        assert((#[trigger] rows0[i as int]).0 != id);
                        assert(false);
                    }
                }
                self.rows.set(i, (id, state));
                proof {
                    lemma_vec_order_row_pairs_deep(&self.rows);
                    assert(self.rows.deep_view() =~= rows0.update(
                        i as int,
                        (id, state.deep_view()),
                    ));
                }
                return ;
            }
            i = i + 1;
        }
        proof {
            if spec_row_idx(rows0, id) != -1 {
                let k = spec_row_idx(rows0, id);
                assert((#[trigger] rows0[k]).0 == id);
                assert(false);
            }
        }
        self.rows.push((id, state));
        proof {
            lemma_vec_order_row_pairs_deep(&self.rows);
            assert(self.rows.deep_view() =~= rows0.push((id, state.deep_view())));
        }
    }
}

// ########################################################
// ################## The view runtimes ###################
// ########################################################

/// What one handled event does to the restaurant projection rows.
pub open spec fn spec_handle_restaurant_view(
    rows: Seq<(u128, SpecRestaurantViewState)>,
    event: crate::api::SpecRestaurantEvent,
) -> Seq<(u128, SpecRestaurantViewState)> {
    let id = spec_restaurant_event_id(event);
    match spec_evolve_restaurant_view(spec_row_lookup(rows, id), event) {
        Some(s) => spec_upsert(rows, id, s),
        None => rows,
    }
}

/// What one handled event does to the order projection rows.
pub open spec fn spec_handle_order_view(
    rows: Seq<(u128, SpecOrderViewState)>,
    event: crate::api::SpecOrderEvent,
) -> Seq<(u128, SpecOrderViewState)> {
    let id = spec_order_event_id(event);
    match spec_evolve_order_view(spec_row_lookup(rows, id), event) {
        Some(s) => spec_upsert(rows, id, s),
        None => rows,
    }
}

/// Handling the same event twice leaves the same restaurant projection
/// rows as handling it once.
pub proof fn lemma_handle_restaurant_view_idempotent(
    rows: Seq<(u128, SpecRestaurantViewState)>,
    event: crate::api::SpecRestaurantEvent,
)
    ensures
        spec_handle_restaurant_view(spec_handle_restaurant_view(rows, event), event)
            == spec_handle_restaurant_view(rows, event),
{
    let id = spec_restaurant_event_id(event);
    let s0 = spec_row_lookup(rows, id);
    lemma_restaurant_view_idempotent(s0, event);
    match spec_evolve_restaurant_view(s0, event) {
        Some(s1) => {
            lemma_upsert(rows, id, s1);
            let rows1 = spec_upsert(rows, id, s1);
            assert(spec_row_lookup(rows1, id) == Some(s1));
            assert(spec_evolve_restaurant_view(Some(s1), event) == Some(s1));
            lemma_upsert(rows1, id, s1);
        },
        None => {
        },
    }
}

/// Handling the same event twice leaves the same order projection rows as
/// handling it once.
pub proof fn lemma_handle_order_view_idempotent(
    rows: Seq<(u128, SpecOrderViewState)>,
    event: crate::api::SpecOrderEvent,
)
    ensures
        spec_handle_order_view(spec_handle_order_view(rows, event), event)
            == spec_handle_order_view(rows, event),
{
    let id = spec_order_event_id(event);
    let s0 = spec_row_lookup(rows, id);
    lemma_order_view_idempotent(s0, event);
    match spec_evolve_order_view(s0, event) {
        Some(s1) => {
            lemma_upsert(rows, id, s1);
            let rows1 = spec_upsert(rows, id, s1);
            assert(spec_row_lookup(rows1, id) == Some(s1));
            assert(spec_evolve_order_view(Some(s1), event) == Some(s1));
            lemma_upsert(rows1, id, s1);
        },
        None => {
        },
    }
}

/// The restaurant materialized view: folds one event at a time into the
/// stored projection of its stream.
pub struct RestaurantMaterializedView {
    pub repository: RestaurantViewStateRepository,
    pub view: RestaurantView,
}

/// Build the restaurant materialized view with an empty repository.
pub fn restaurant_materialized_view() -> (r: RestaurantMaterializedView)
    ensures
        r.repository.rows.deep_view() == Seq::<(u128, SpecRestaurantViewState)>::empty(),
{
    RestaurantMaterializedView { repository: RestaurantViewStateRepository::new(), view: restaurant_view() }
}

impl RestaurantMaterializedView {
    /// Fold one event into the projection of its stream and store it.
    /// Upserting is idempotent: the same event twice leaves the same rows.
    pub fn handle(&mut self, event: &RestaurantEvent)
        ensures
            final(self).repository.rows.deep_view() == spec_handle_restaurant_view(
                old(self).repository.rows.deep_view(),
                event.deep_view(),
            ),
            final(self).view == old(self).view,
    {
        let id: u128 = event.identifier();
        let current = self.repository.get_restaurant(id);
        let next = self.view.evolve(&current, event);
        match next {
            Some(s) => {
                self.repository.upsert_restaurant(id, s);
            },
            None => {},
        }
    }
}

/// The order materialized view: folds one event at a time into the stored
/// projection of its stream.
pub struct OrderMaterializedView {
    pub repository: OrderViewStateRepository,
    pub view: OrderView,
}

/// Build the order materialized view with an empty repository.
pub fn order_materialized_view() -> (r: OrderMaterializedView)
    ensures
        r.repository.rows.deep_view() == Seq::<(u128, SpecOrderViewState)>::empty(),
{
    OrderMaterializedView { repository: OrderViewStateRepository::new(), view: order_view() }
}

impl OrderMaterializedView {
    /// Fold one event into the projection of its stream and store it.
    /// Upserting is idempotent: the same event twice leaves the same rows.
    pub fn handle(&mut self, event: &OrderEvent)
        ensures
            final(self).repository.rows.deep_view() == spec_handle_order_view(
                old(self).repository.rows.deep_view(),
                event.deep_view(),
            ),
            final(self).view == old(self).view,
    {
        let id: u128 = event.identifier();
        let current = self.repository.get_order(id);
        let next = self.view.evolve(&current, event);
        match next {
            Some(s) => {
                self.repository.upsert_order(id, s);
            },
            None => {},
        }
    }
}

// ########################################################
// ################## Query handlers ######################
// ########################################################

/// The query side for restaurants: read the stored projections.
pub trait RestaurantQueryHandler {
    /// The restaurant projection stored for `id`, or none.
    fn query_restaurant(&self, id: u128) -> (r: Option<RestaurantViewState>);

    /// Every stored restaurant projection.
    fn query_all_restaurants(&self) -> (r: Vec<RestaurantViewState>);
}

/// The query side for orders: read the stored projections.
pub trait OrderQueryHandler {
    /// The order projection stored for `id`, or none.
    fn query_order(&self, id: u128) -> (r: Option<OrderViewState>);

    /// Every stored order projection.
    fn query_all_orders(&self) -> (r: Vec<OrderViewState>);
}

impl RestaurantQueryHandler for RestaurantViewStateRepository {
    fn query_restaurant(&self, id: u128) -> (r: Option<RestaurantViewState>)
        ensures
            r.deep_view() == spec_row_lookup(self.rows.deep_view(), id),
    {
        self.get_restaurant(id)
    }

    fn query_all_restaurants(&self) -> (r: Vec<RestaurantViewState>)
        ensures
            r.deep_view().len() == self.rows.deep_view().len(),
            forall|i: int|
                0 <= i < self.rows.deep_view().len() ==> #[trigger] r.deep_view()[i]
                    == self.rows.deep_view()[i].1,
    {
        self.get_all_restaurants()
    }
}

impl OrderQueryHandler for OrderViewStateRepository {
    fn query_order(&self, id: u128) -> (r: Option<OrderViewState>)
        ensures
            r.deep_view() == spec_row_lookup(self.rows.deep_view(), id),
    {
        self.get_order(id)
    }

    fn query_all_orders(&self) -> (r: Vec<OrderViewState>)
        ensures
            r.deep_view().len() == self.rows.deep_view().len(),
            forall|i: int|
                0 <= i < self.rows.deep_view().len() ==> #[trigger] r.deep_view()[i]
                    == self.rows.deep_view()[i].1,
    {
        self.get_all_orders()
    }
}

/// The model of a vector of restaurant projection rows is pointwise.
pub proof fn lemma_vec_row_pairs_deep(v: &Vec<(u128, RestaurantViewState)>)
    ensures
        v.deep_view().len() == v@.len(),
        forall|i: int|
            0 <= i < v@.len() ==> #[trigger] v.deep_view()[i] == (v@[i].0, v@[i].1.deep_view()),
{
}

/// The model of a vector of restaurant projections is pointwise.
pub proof fn lemma_vec_states_deep(v: &Vec<RestaurantViewState>)
    ensures
        v.deep_view().len() == v@.len(),
        forall|i: int| 0 <= i < v@.len() ==> #[trigger] v.deep_view()[i] == v@[i].deep_view(),
{
}

/// The model of a vector of order projection rows is pointwise.
pub proof fn lemma_vec_order_row_pairs_deep(v: &Vec<(u128, OrderViewState)>)
    ensures
        v.deep_view().len() == v@.len(),
        forall|i: int|
            0 <= i < v@.len() ==> #[trigger] v.deep_view()[i] == (v@[i].0, v@[i].1.deep_view()),
{
}

/// The model of a vector of order projections is pointwise.
pub proof fn lemma_vec_order_states_deep(v: &Vec<OrderViewState>)
    ensures
        v.deep_view().len() == v@.len(),
        forall|i: int| 0 <= i < v@.len() ==> #[trigger] v.deep_view()[i] == v@[i].deep_view(),
{
}

} // verus!
