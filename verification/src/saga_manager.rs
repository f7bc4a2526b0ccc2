//! The saga manager: reacts to restaurant events with order commands and
//! dispatches each command, in order, to the order aggregate.
use vstd::prelude::*;

use crate::api::{OrderCommand, RestaurantEvent, SpecOrderCommand, spec_order_command_id};
use crate::error::HandleError;
use crate::order_aggregate::{
    OrderAggregate, order_aggregate, spec_decode_stream_order, spec_order_decided,
    spec_order_events_only, spec_order_stream_decodes, spec_prepare_order,
};
use crate::order_decider::{spec_decide_order, spec_fold_order};
use crate::order_saga::{OrderSaga, order_saga, spec_react_order_saga};
use crate::store::{EventStore, spec_append_verdict, spec_appended, spec_events_of_id};

verus! {

/// The saga reacts with at most one command to any event.
pub proof fn lemma_react_short(event: crate::api::SpecRestaurantEvent)
    ensures
        spec_react_order_saga(event).len() <= 1,
{
}

/// Publishes the commands a saga decides, by handling each in order on
/// the order aggregate.
pub struct OrderActionPublisher {
    pub order_aggregate: OrderAggregate,
}

impl OrderActionPublisher {
    /// Handle each command in order on the order aggregate; stop at the
    /// first failure and surface it.
    #[verifier::rlimit(100)]
    #[verifier::spinoff_prover]
    pub fn publish(
        &self,
        store: &mut EventStore,
        commands: &Vec<OrderCommand>,
        now: u64,
    ) -> (r: Result<(), HandleError>)
        requires
            old(store).wf(),
            old(store).events@.len() + commands@.len() < u64::MAX,
        ensures
            final(store).wf(),
            final(store).deciders == old(store).deciders,
            final(store).views == old(store).views,
            final(store).locks == old(store).locks,
            final(store).lease_millis == old(store).lease_millis,
            commands@.len() == 0 ==> r is Ok && final(store).events@ == old(store).events@,
            commands@.len() == 1 && !spec_order_stream_decodes(
                old(store).events.deep_view(),
                commands.deep_view()[0],
            ) ==> r == Err::<(), HandleError>(HandleError::DecodeFailure) && final(store).events@
                == old(store).events@,
            commands@.len() == 1 && spec_order_stream_decodes(
                old(store).events.deep_view(),
                commands.deep_view()[0],
            ) ==> !(r == Err::<(), HandleError>(HandleError::DecodeFailure)),
            commands@.len() == 1 && spec_order_stream_decodes(
                old(store).events.deep_view(),
                commands.deep_view()[0],
            ) && r is Ok ==> exists|ids: Seq<u128>|
                ids.len() == spec_order_decided(
                    old(store).events.deep_view(),
                    commands.deep_view()[0],
                ).len() && final(store).events.deep_view() == old(store).events.deep_view()
                    + #[trigger] spec_appended(
                    old(store).events@.len() as int,
                    spec_prepare_order(
                        old(store).events.deep_view(),
                        spec_order_decided(old(store).events.deep_view(), commands.deep_view()[0]),
                        ids,
                        Map::empty(),
                    ),
                    now,
                ),
            commands@.len() == 1 && spec_order_stream_decodes(
                old(store).events.deep_view(),
                commands.deep_view()[0],
            ) && r is Err ==> final(store).events@ == old(store).events@ && exists|ids: Seq<u128>|
                ids.len() == spec_order_decided(
                    old(store).events.deep_view(),
                    commands.deep_view()[0],
                ).len() && #[trigger] spec_append_verdict(
                    old(store).events.deep_view(),
                    old(store).deciders.deep_view(),
                    spec_prepare_order(
                        old(store).events.deep_view(),
                        spec_order_decided(old(store).events.deep_view(), commands.deep_view()[0]),
                        ids,
                        Map::empty(),
                    ),
                    now,
                ) == Some(r->Err_0->Append_0),
    {
        proof {
            crate::order_aggregate::lemma_vec_cmds_deep(commands);
        }
        if commands.len() == 0 {
            return Ok(());
        }
        if commands.len() == 1 {
            let command = &commands[0];
            match self.order_aggregate.handle(store, command, now) {
                Ok(pairs) => {
                    proof {
                        let decided = spec_order_decided(
                            old(store).events.deep_view(),
                            command.deep_view(),
                        );
                        let ids = pairs.deep_view().map_values(
                            |p: (crate::api::SpecOrderEvent, u128)| p.1,
                        );
                        assert(ids.len() == decided.len()) by {
                            assert(pairs.deep_view().map_values(
                                |p: (crate::api::SpecOrderEvent, u128)| p.0,
                            ).len() == decided.len());
                        }
                        assert(store.events.deep_view() == old(store).events.deep_view()
                            + spec_appended(
                            old(store).events@.len() as int,
                            spec_prepare_order(
                                old(store).events.deep_view(),
                                decided,
                                ids,
                                Map::empty(),
                            ),
                            now,
                        ));
                        assert(spec_appended(
                            old(store).events@.len() as int,
                            spec_prepare_order(
                                old(store).events.deep_view(),
                                decided,
                                ids,
                                Map::empty(),
                            ),
                            now,
                        ) =~= store.events.deep_view().skip(
                            old(store).events@.len() as int,
                        ));
                    }
                    Ok(())
                },
                Err(e) => Err(e),
            }
        } else {
            let mut i: usize = 0;
            while i < commands.len()
                invariant
                    old(store).wf(),
                    store.wf(),
                    commands@.len() >= 2,
                    i <= commands@.len(),
                    store.deciders == old(store).deciders,
                    store.views == old(store).views,
                    store.locks == old(store).locks,
                    store.lease_millis == old(store).lease_millis,
                    store.events@.len() <= old(store).events@.len() + i,
                    old(store).events@.len() + commands@.len() < u64::MAX,
                decreases commands@.len() - i,
            {
                let ghost pre_evs = store.events.deep_view();
                let ghost pre_len = store.events@.len();
                proof {
                    crate::aggregate::lemma_vec_rows_deep(&store.events);
                }
                match self.order_aggregate.handle(store, &commands[i], now) {
                    Ok(p) => {
                        proof {
                            crate::aggregate::lemma_vec_rows_deep(&store.events);
                            let cmd = commands@[i as int].deep_view();
                            let rows = spec_events_of_id(pre_evs, spec_order_command_id(cmd));
                            let stream = spec_decode_stream_order(rows)->Some_0;
                            let st = spec_fold_order(None, spec_order_events_only(stream));
                            let decided = spec_decide_order(cmd, st);
                            crate::order_aggregate::lemma_decide_order_len(cmd, st);
                            let ids = p.deep_view().map_values(
                                |q: (crate::api::SpecOrderEvent, u128)| q.1,
                            );
                            crate::order_aggregate::lemma_prepare_order_len(
                                pre_evs,
                                decided,
                                ids,
                                Map::empty(),
                            );
                            assert(store.events.deep_view().len() == pre_len + 1);
                        }
                    },
                    Err(e) => {
                        return Err(e);
                    },
                }
                i = i + 1;
            }
            Ok(())
        }
    }
}

/// The order saga manager: a saga and the publisher that carries out what
/// it decides.
pub struct OrderSagaManager {
    pub saga: OrderSaga,
    pub publisher: OrderActionPublisher,
}

/// Build the order saga manager.
pub fn order_saga_manager() -> OrderSagaManager {
    OrderSagaManager {
        saga: order_saga(),
        publisher: OrderActionPublisher { order_aggregate: order_aggregate() },
    }
}

impl OrderSagaManager {
    /// React to one restaurant event and dispatch the decided commands.
    /// The reaction is durable because the triggering event is only
    /// acknowledged by the dispatcher after this returns successfully.
    pub fn handle(&self, store: &mut EventStore, event: &RestaurantEvent, now: u64) -> (r: Result<
        (),
        HandleError,
    >)
        requires
            old(store).wf(),
            old(store).events@.len() + 1 < u64::MAX,
        ensures
            final(store).wf(),
            final(store).deciders == old(store).deciders,
            final(store).views == old(store).views,
            final(store).locks == old(store).locks,
            final(store).lease_millis == old(store).lease_millis,
            spec_react_order_saga(event.deep_view()).len() == 0 ==> r is Ok && final(store).events@ == old(store).events@,
            spec_react_order_saga(event.deep_view()).len() == 1 && !spec_order_stream_decodes(
                old(store).events.deep_view(),
                spec_react_order_saga(event.deep_view())[0],
            ) ==> r == Err::<(), HandleError>(HandleError::DecodeFailure) && final(store).events@
                == old(store).events@,
            spec_react_order_saga(event.deep_view()).len() == 1 && spec_order_stream_decodes(
                old(store).events.deep_view(),
                spec_react_order_saga(event.deep_view())[0],
            ) && r is Ok ==> exists|ids: Seq<u128>|
                ids.len() == spec_order_decided(
                    old(store).events.deep_view(),
                    spec_react_order_saga(event.deep_view())[0],
                ).len() && final(store).events.deep_view() == old(store).events.deep_view()
                    + #[trigger] spec_appended(
                    old(store).events@.len() as int,
                    spec_prepare_order(
                        old(store).events.deep_view(),
                        spec_order_decided(
                            old(store).events.deep_view(),
                            spec_react_order_saga(event.deep_view())[0],
                        ),
                        ids,
                        Map::empty(),
                    ),
                    now,
                ),
            spec_react_order_saga(event.deep_view()).len() == 1 && r is Err ==> final(store).events@ == old(store).events@,
    {
        let commands = self.saga.react(event);
        proof {
            lemma_react_short(event.deep_view());
            crate::order_aggregate::lemma_vec_cmds_deep(&commands);
        }
        self.publisher.publish(store, &commands, now)
    }
}

} // verus!
