//! The saga dispatcher: pull one event for the `saga` subscriber, hand
//! restaurant events to the saga manager, and acknowledge the event only
//! after the reaction succeeded, so a failed reaction is retried.
use vstd::prelude::*;

use crate::error::ErrorMessage;
use crate::event_codec::{decode_restaurant_event, spec_decode_restaurant_event};
use crate::order_aggregate::{spec_order_decided, spec_order_stream_decodes, spec_prepare_order};
use crate::order_saga::spec_react_order_saga;
use crate::saga_manager::OrderSagaManager;
use crate::store::{
    EventStore, lemma_lock_idx, lemma_lock_idx_keys, lemma_lock_idx_push_match, spec_appended,
    spec_eligible, spec_last_offset, spec_lock_idx, str_eq,
};

verus! {

/// What a successful saga reaction to `ev` does to the log: nothing when
/// the reaction is empty, and an append of the decided order events under
/// some fresh ids when the reaction issues its one command.
pub open spec fn spec_saga_reaction_applied(
    old_evs: Seq<crate::store::SpecEventEntity>,
    old_evs_sh: Seq<crate::store::EventEntity>,
    new_evs: Seq<crate::store::SpecEventEntity>,
    new_evs_sh: Seq<crate::store::EventEntity>,
    ev: crate::api::SpecRestaurantEvent,
    now: u64,
) -> bool {
    let cmds = spec_react_order_saga(ev);
    &&& cmds.len() == 0 ==> new_evs_sh == old_evs_sh
    &&& cmds.len() == 1 && spec_order_stream_decodes(old_evs, cmds[0]) ==> exists|ids: Seq<u128>|
        ids.len() == spec_order_decided(old_evs, cmds[0]).len() && new_evs == old_evs
            + #[trigger] spec_appended(
            old_evs_sh.len() as int,
            spec_prepare_order(old_evs, spec_order_decided(old_evs, cmds[0]), ids, Map::empty()),
            now,
        )
}

/// Serve at most one event to the `saga` subscriber and dispatch it:
/// restaurant events go to the saga manager, whose reaction may append
/// order events to the same log; anything else is skipped. The served
/// event is acknowledged only when the reaction succeeded; otherwise the
/// lease is released without progress and the event will be served again.
#[verifier::loop_isolation(false)]
#[verifier::rlimit(100)]
pub fn stream_events_to_saga(
    order_saga_manager: &OrderSagaManager,
    store: &mut EventStore,
    now: u64,
) -> (r: Result<bool, ErrorMessage>)
    requires
        old(store).wf(),
        now + old(store).lease_millis <= u64::MAX,
        old(store).events@.len() + 1 < u64::MAX,
    ensures
        final(store).wf(),
        final(store).deciders == old(store).deciders,
        final(store).views == old(store).views,
        final(store).lease_millis == old(store).lease_millis,
        r is Ok,
        r == Ok::<bool, ErrorMessage>(false) ==> final(store).locks == old(store).locks && final(store).events == old(store).events,
        r == Ok::<bool, ErrorMessage>(false) && crate::store::spec_view_registered(
            old(store).views.deep_view(),
            "saga"@,
        ) ==> forall|j: int|
            !spec_eligible(
                old(store).events.deep_view(),
                old(store).locks.deep_view(),
                old(store).views.deep_view(),
                "saga"@,
                now,
                j,
            ),
        r == Ok::<bool, ErrorMessage>(true) ==> exists|j: int|
            {
                let e = old(store).events.deep_view()[j];
                &&& #[trigger] spec_eligible(
                    old(store).events.deep_view(),
                    old(store).locks.deep_view(),
                    old(store).views.deep_view(),
                    "saga"@,
                    now,
                    j,
                )
                &&& forall|k: int|
                    0 <= k < j ==> !spec_eligible(
                        old(store).events.deep_view(),
                        old(store).locks.deep_view(),
                        old(store).views.deep_view(),
                        "saga"@,
                        now,
                        k,
                    )
                &&& e.decider == "Restaurant"@ && spec_decode_restaurant_event(e.data) is Some
                    ==> (spec_last_offset(
                    final(store).locks.deep_view(),
                    final(store).views.deep_view(),
                    "saga"@,
                    e.decider_id,
                ) == e.offset && spec_saga_reaction_applied(
                    old(store).events.deep_view(),
                    old(store).events@,
                    final(store).events.deep_view(),
                    final(store).events@,
                    spec_decode_restaurant_event(e.data)->Some_0,
                    now,
                )) || (spec_last_offset(
                    final(store).locks.deep_view(),
                    final(store).views.deep_view(),
                    "saga"@,
                    e.decider_id,
                ) == spec_last_offset(
                    old(store).locks.deep_view(),
                    old(store).views.deep_view(),
                    "saga"@,
                    e.decider_id,
                ) && final(store).events@ == old(store).events@)
                &&& e.decider == "Restaurant"@ && spec_decode_restaurant_event(e.data) is None
                    ==> spec_last_offset(
                    final(store).locks.deep_view(),
                    final(store).views.deep_view(),
                    "saga"@,
                    e.decider_id,
                ) == spec_last_offset(
                    old(store).locks.deep_view(),
                    old(store).views.deep_view(),
                    "saga"@,
                    e.decider_id,
                ) && final(store).events@ == old(store).events@
                &&& e.decider != "Restaurant"@ ==> spec_last_offset(
                    final(store).locks.deep_view(),
                    final(store).views.deep_view(),
                    "saga"@,
                    e.decider_id,
                ) == e.offset && final(store).events@ == old(store).events@
            },
{
    let saga_name: String = "saga".to_owned();
    let ghost evs0 = store.events.deep_view();
    let ghost locks0 = store.locks.deep_view();
    let ghost views0 = store.views.deep_view();
    match store.stream_events(&saga_name, now) {
        None => Ok(false),
        Some(event_entity) => {
            let ghost j = choose|j: int|
                {
                    &&& #[trigger] spec_eligible(evs0, locks0, views0, "saga"@, now, j)
                    &&& event_entity.deep_view() == evs0[j]
                    &&& forall|k: int|
                        0 <= k < j ==> !spec_eligible(evs0, locks0, views0, "saga"@, now, k)
                };
            let ghost locks1 = store.locks.deep_view();
            let ghost id = event_entity.decider_id;
            proof {
                lemma_lock_idx(locks0, "saga"@, id);
                let k0 = spec_lock_idx(locks0, "saga"@, id);
                if k0 == -1 {
                    lemma_lock_idx_push_match(locks0, locks1.last(), "saga"@, id);
                } else {
                    lemma_lock_idx_keys(locks0, locks1, "saga"@, id);
                }
                lemma_lock_idx(locks1, "saga"@, id);
            }
            if str_eq(&event_entity.decider, &"Restaurant".to_owned()) {
                match decode_restaurant_event(&event_entity.data) {
                    Ok(ev) => {
                        match order_saga_manager.handle(store, &ev, now) {
                            Ok(()) => {
                                let _ack = store.ack_event(
                                    event_entity.offset,
                                    &saga_name,
                                    event_entity.decider_id,
                                    now,
                                );
                                proof {
                                    lemma_lock_idx_keys(
                                        locks1,
                                        store.locks.deep_view(),
                                        "saga"@,
                                        id,
                                    );
                                }
                                Ok(true)
                            },
                            Err(_) => {
                                let _nack = store.nack_event(
                                    &saga_name,
                                    event_entity.decider_id,
                                    now,
                                );
                                proof {
                                    lemma_lock_idx_keys(
                                        locks1,
                                        store.locks.deep_view(),
                                        "saga"@,
                                        id,
                                    );
                                }
                                Ok(true)
                            },
                        }
                    },
                    Err(_) => {
                        let _nack = store.nack_event(&saga_name, event_entity.decider_id, now);
                        proof {
                            lemma_lock_idx_keys(locks1, store.locks.deep_view(), "saga"@, id);
                        }
                        Ok(true)
                    },
                }
            } else {
                let _ack = store.ack_event(
                    event_entity.offset,
                    &saga_name,
                    event_entity.decider_id,
                    now,
                );
                proof {
                    lemma_lock_idx_keys(locks1, store.locks.deep_view(), "saga"@, id);
                }
                Ok(true)
            }
        },
    }
}

} // verus!
