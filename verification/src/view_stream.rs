//! The view dispatcher: pull one event for the `view` subscriber, hand it
//! to the matching materialized view, and acknowledge it on success or
//! release the lease without progress on a decode failure.
use vstd::prelude::*;

use crate::error::ErrorMessage;
use crate::event_codec::{
    decode_order_event, decode_restaurant_event, spec_decode_order_event,
    spec_decode_restaurant_event,
};
use crate::materialized_view::{
    OrderMaterializedView, RestaurantMaterializedView, spec_handle_order_view,
    spec_handle_restaurant_view,
};
use crate::store::{
    EventStore, lemma_lock_idx, lemma_lock_idx_keys, lemma_lock_idx_push_match, spec_eligible,
    spec_last_offset, spec_lock_idx, str_eq,
};

verus! {

/// Serve at most one event to the `view` subscriber and dispatch it:
/// restaurant events feed the restaurant projection, order events the
/// order projection, anything else is skipped. A handled or skipped event
/// is acknowledged, advancing the stream's position to its offset; an
/// undecodable payload is not acknowledged, so the event is served again.
#[verifier::loop_isolation(false)]
#[verifier::rlimit(100)]
pub fn stream_events_to_view(
    restaurant_materialized_view: &mut RestaurantMaterializedView,
    order_materialized_view: &mut OrderMaterializedView,
    store: &mut EventStore,
    now: u64,
) -> (r: Result<bool, ErrorMessage>)
    requires
        old(store).wf(),
        now + old(store).lease_millis <= u64::MAX,
    ensures
        final(store).wf(),
        final(store).events == old(store).events,
        final(store).deciders == old(store).deciders,
        final(store).views == old(store).views,
        final(store).lease_millis == old(store).lease_millis,
        r is Ok,
        r == Ok::<bool, ErrorMessage>(false) ==> final(store).locks == old(store).locks && *final(restaurant_materialized_view) == *old(restaurant_materialized_view) && *final(order_materialized_view) == *old(order_materialized_view),
        r == Ok::<bool, ErrorMessage>(false) && spec_view_registered_now(*old(store)) ==> forall|
            j: int,
        |
            !spec_eligible(
                old(store).events.deep_view(),
                old(store).locks.deep_view(),
                old(store).views.deep_view(),
                "view"@,
                now,
                j,
            ),
        r == Ok::<bool, ErrorMessage>(true) ==> exists|j: int|
            {
                let e = old(store).events.deep_view()[j];
                &&& #[trigger] spec_eligible(
                    old(store).events.deep_view(),
                    old(store).locks.deep_view(),
                    old(store).views.deep_view(),
                    "view"@,
                    now,
                    j,
                )
                &&& forall|k: int|
                    0 <= k < j ==> !spec_eligible(
                        old(store).events.deep_view(),
                        old(store).locks.deep_view(),
                        old(store).views.deep_view(),
                        "view"@,
                        now,
                        k,
                    )
                &&& e.decider == "Restaurant"@ && spec_decode_restaurant_event(e.data) is Some
                    ==> final(restaurant_materialized_view).repository.rows.deep_view()
                    == spec_handle_restaurant_view(
                    old(restaurant_materialized_view).repository.rows.deep_view(),
                    spec_decode_restaurant_event(e.data)->Some_0,
                ) && *final(order_materialized_view) == *old(order_materialized_view)
                    && spec_last_offset(
                    final(store).locks.deep_view(),
                    final(store).views.deep_view(),
                    "view"@,
                    e.decider_id,
                ) == e.offset
                &&& e.decider == "Restaurant"@ && spec_decode_restaurant_event(e.data) is None
                    ==> *final(restaurant_materialized_view) == *old(restaurant_materialized_view)
                    && *final(order_materialized_view) == *old(order_materialized_view)
                    && spec_last_offset(
                    final(store).locks.deep_view(),
                    final(store).views.deep_view(),
                    "view"@,
                    e.decider_id,
                ) == spec_last_offset(
                    old(store).locks.deep_view(),
                    old(store).views.deep_view(),
                    "view"@,
                    e.decider_id,
                )
                &&& e.decider == "Order"@ && spec_decode_order_event(e.data) is Some ==> final(order_materialized_view).repository.rows.deep_view() == spec_handle_order_view(
                    old(order_materialized_view).repository.rows.deep_view(),
                    spec_decode_order_event(e.data)->Some_0,
                ) && *final(restaurant_materialized_view) == *old(restaurant_materialized_view)
                    && spec_last_offset(
                    final(store).locks.deep_view(),
                    final(store).views.deep_view(),
                    "view"@,
                    e.decider_id,
                ) == e.offset
                &&& e.decider == "Order"@ && spec_decode_order_event(e.data) is None ==> *final(restaurant_materialized_view) == *old(restaurant_materialized_view) && *final(order_materialized_view) == *old(order_materialized_view) && spec_last_offset(
                    final(store).locks.deep_view(),
                    final(store).views.deep_view(),
                    "view"@,
                    e.decider_id,
                ) == spec_last_offset(
                    old(store).locks.deep_view(),
                    old(store).views.deep_view(),
                    "view"@,
                    e.decider_id,
                )
                &&& e.decider != "Restaurant"@ && e.decider != "Order"@ ==> *final(restaurant_materialized_view) == *old(restaurant_materialized_view) && *final(order_materialized_view) == *old(order_materialized_view) && spec_last_offset(
                    final(store).locks.deep_view(),
                    final(store).views.deep_view(),
                    "view"@,
                    e.decider_id,
                ) == e.offset
            },
{
    let view_name: String = "view".to_owned();
    let ghost evs0 = store.events.deep_view();
    let ghost locks0 = store.locks.deep_view();
    let ghost views0 = store.views.deep_view();
    match store.stream_events(&view_name, now) {
        None => Ok(false),
        Some(event_entity) => {
            let ghost j = choose|j: int|
                {
                    &&& #[trigger] spec_eligible(evs0, locks0, views0, "view"@, now, j)
                    &&& event_entity.deep_view() == evs0[j]
                    &&& forall|k: int|
                        0 <= k < j ==> !spec_eligible(evs0, locks0, views0, "view"@, now, k)
                };
            let ghost locks1 = store.locks.deep_view();
            let ghost id = event_entity.decider_id;
            proof {
                lemma_lock_idx(locks0, "view"@, id);
                let k0 = spec_lock_idx(locks0, "view"@, id);
                if k0 == -1 {
                    lemma_lock_idx_push_match(locks0, locks1.last(), "view"@, id);
                } else {
                    lemma_lock_idx_keys(locks0, locks1, "view"@, id);
                }
                lemma_lock_idx(locks1, "view"@, id);
            }
            proof {
                lemma_decider_names_distinct();
            }
            if str_eq(&event_entity.decider, &"Restaurant".to_owned()) {
                match decode_restaurant_event(&event_entity.data) {
                    Ok(ev) => {
                        restaurant_materialized_view.handle(&ev);
                        let _ack = store.ack_event(
                            event_entity.offset,
                            &view_name,
                            event_entity.decider_id,
                            now,
                        );
                        proof {
                            lemma_lock_idx_keys(locks1, store.locks.deep_view(), "view"@, id);
                        }
                        Ok(true)
                    },
                    Err(_) => {
                        let _nack = store.nack_event(&view_name, event_entity.decider_id, now);
                        proof {
                            lemma_lock_idx_keys(locks1, store.locks.deep_view(), "view"@, id);
                        }
                        Ok(true)
                    },
                }
            } else if str_eq(&event_entity.decider, &"Order".to_owned()) {
                match decode_order_event(&event_entity.data) {
                    Ok(ev) => {
                        order_materialized_view.handle(&ev);
                        let _ack = store.ack_event(
                            event_entity.offset,
                            &view_name,
                            event_entity.decider_id,
                            now,
                        );
                        proof {
                            lemma_lock_idx_keys(locks1, store.locks.deep_view(), "view"@, id);
                        }
                        Ok(true)
                    },
                    Err(_) => {
                        let _nack = store.nack_event(&view_name, event_entity.decider_id, now);
                        proof {
                            lemma_lock_idx_keys(locks1, store.locks.deep_view(), "view"@, id);
                        }
                        Ok(true)
                    },
                }
            } else {
                let _ack = store.ack_event(
                    event_entity.offset,
                    &view_name,
                    event_entity.decider_id,
                    now,
                );
                proof {
                    lemma_lock_idx_keys(locks1, store.locks.deep_view(), "view"@, id);
                    lemma_decider_names_distinct();
                }
                Ok(true)
            }
        },
    }
}

/// The two decider family names differ.
pub proof fn lemma_decider_names_distinct()
    ensures
        "Restaurant"@ != "Order"@,
{
    reveal_strlit("Restaurant");
    reveal_strlit("Order");
    assert("Restaurant"@.len() == 10);
    assert("Order"@.len() == 5);
}

/// Whether the `view` subscriber is registered on this store.
pub open spec fn spec_view_registered_now(store: EventStore) -> bool {
    crate::store::spec_view_registered(store.views.deep_view(), "view"@)
}

} // verus!
