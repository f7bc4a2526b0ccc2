//! The order aggregate: hosts the order decider against the log, with the
//! same load, fold, decide and append discipline as the restaurant side.
use vstd::prelude::*;

use crate::aggregate::{
    assoc_lookup, assoc_to_map, fresh_event_id, lemma_vec_new_rows_deep, lemma_vec_rows_deep,
};
use crate::api::{
    EventName, Identifier, OrderCommand, OrderEvent, SpecOrderEvent, spec_order_command_id,
    spec_order_event_id, spec_order_event_name,
};
use crate::error::{AppendError, HandleError};
use crate::event_codec::{
    decode_order_event, encode_order_event, lemma_order_event_round_trip,
    spec_decode_order_event, spec_encode_order_event,
};
use crate::order_decider::{
    Order, OrderDecider, SpecOrder, lemma_fold_order_append, order_decider, spec_decide_order,
    spec_fold_order,
};
use crate::store::{
    EventEntity, EventStore, NewEventEntity, SpecEventEntity, SpecNewEventEntity,
    spec_append_verdict, spec_appended, spec_events_of_id, spec_latest_of_id,
};

verus! {

// ########################################################
// ############# The order aggregate #################
// ########################################################

/// The decoded form of a stored stream, paired with each row's event id,
/// or nothing if any row fails to decode as an order event.
pub open spec fn spec_decode_stream_order(rows: Seq<SpecEventEntity>) -> Option<
    Seq<(SpecOrderEvent, u128)>,
>
    decreases rows.len(),
{
    if rows.len() == 0 {
        Some(Seq::empty())
    } else {
        match (
            spec_decode_order_event(rows[0].data),
            spec_decode_stream_order(rows.drop_first()),
        ) {
            (Some(e), Some(rest)) => Some(seq![(e, rows[0].event_id)] + rest),
            _ => None,
        }
    }
}

/// The events of a decoded stream, without their ids.
pub open spec fn spec_order_events_only(pairs: Seq<(SpecOrderEvent, u128)>) -> Seq<
    SpecOrderEvent,
> {
    pairs.map_values(|p: (SpecOrderEvent, u128)| p.0)
}

/// The rows a sequence of decided order events turns into: each event
/// chains from its own stream's latest id, probed from the log for the
/// first event of a stream and advanced in memory thereafter.
pub open spec fn spec_prepare_order(
    store_evs: Seq<SpecEventEntity>,
    events: Seq<SpecOrderEvent>,
    ids: Seq<u128>,
    seen: Map<u128, u128>,
) -> Seq<SpecNewEventEntity>
    decreases events.len(),
{
    if events.len() == 0 {
        Seq::empty()
    } else {
        let e = events[0];
        let sid = spec_order_event_id(e);
        let version: Option<u128> = if seen.contains_key(sid) {
            Some(seen[sid])
        } else {
            match spec_latest_of_id(store_evs, sid) {
                Some(row) => Some(row.event_id),
                None => None,
            }
        };
        seq![
            (SpecNewEventEntity {
                decider: "Order"@,
                decider_id: sid,
                event: spec_order_event_name(e),
                data: spec_encode_order_event(e),
                event_id: ids[0],
                command_id: None,
                previous_id: version,
                is_final: false,
            }),
        ] + spec_prepare_order(
            store_evs,
            events.drop_first(),
            ids.drop_first(),
            seen.insert(sid, ids[0]),
        )
    }
}

/// Whether the order stream `command` addresses decodes in `evs`.
pub open spec fn spec_order_stream_decodes(
    evs: Seq<SpecEventEntity>,
    command: crate::api::SpecOrderCommand,
) -> bool {
    spec_decode_stream_order(spec_events_of_id(evs, spec_order_command_id(command))) is Some
}

/// The events the order decider appends for `command` against the stream
/// it addresses in `evs`; meaningful when that stream decodes.
pub open spec fn spec_order_decided(
    evs: Seq<SpecEventEntity>,
    command: crate::api::SpecOrderCommand,
) -> Seq<SpecOrderEvent> {
    let rows = spec_events_of_id(evs, spec_order_command_id(command));
    let stream = spec_decode_stream_order(rows)->Some_0;
    spec_decide_order(command, spec_fold_order(None, spec_order_events_only(stream)))
}

/// After a successful command, the log grew by exactly the decided
/// events, prepared under some fresh ids.
pub open spec fn spec_appended_order_ok(
    old_evs: Seq<SpecEventEntity>,
    new_evs: Seq<SpecEventEntity>,
    old_len: int,
    command: crate::api::SpecOrderCommand,
    now: u64,
) -> bool {
    exists|ids: Seq<u128>|
        ids.len() == spec_order_decided(old_evs, command).len() && new_evs == old_evs
            + #[trigger] spec_appended(
            old_len,
            spec_prepare_order(old_evs, spec_order_decided(old_evs, command), ids, Map::empty()),
            now,
        )
}

/// The order aggregate: hosts the order decider against the log.
pub struct OrderAggregate {
    pub decider: OrderDecider,
}

/// Build the order aggregate.
pub fn order_aggregate() -> OrderAggregate {
    OrderAggregate { decider: order_decider() }
}

impl OrderAggregate {

    /// The id of the latest event of the stream this event addresses, used
    /// as the version for optimistic concurrency.
    pub fn version_provider(&self, store: &EventStore, event: &OrderEvent) -> (r: Option<
        u128,
    >)
        ensures
            r == (match spec_latest_of_id(
                store.events.deep_view(),
                spec_order_event_id(event.deep_view()),
            ) {
                Some(row) => Some(row.event_id),
                None => None::<u128>,
            }),
    {
        match store.get_latest_event(event.identifier()) {
            Some(row) => Some(row.event_id),
            None => None,
        }
    }

    /// Load and decode the stream a command addresses, oldest first.
    #[verifier::loop_isolation(false)]
    pub fn fetch_events(&self, store: &EventStore, command: &OrderCommand) -> (r: Result<
        Vec<(OrderEvent, u128)>,
        HandleError,
    >)
        ensures
            ({
                let rows = spec_events_of_id(
                    store.events.deep_view(),
                    spec_order_command_id(command.deep_view()),
                );
                match spec_decode_stream_order(rows) {
                    Some(pairs) => r matches Ok(v) && v.deep_view() == pairs,
                    None => r == Err::<Vec<(OrderEvent, u128)>, HandleError>(
                        HandleError::DecodeFailure,
                    ),
                }
            }),
    {
        let rows = store.list_events(command.identifier());
        let ghost srows = rows.deep_view();
        proof {
            lemma_decode_stream_order_pointwise(srows);
            lemma_vec_rows_deep(&rows);
        }
        let mut out: Vec<(OrderEvent, u128)> = Vec::new();
        let mut i: usize = 0;
        while i < rows.len()
            invariant
                i <= rows@.len(),
                srows == rows.deep_view(),
                srows.len() == rows@.len(),
                forall|j: int| 0 <= j < rows@.len() ==> #[trigger] rows@[j].deep_view()
                    == srows[j],
                out@.len() == i,
                forall|j: int|
                    0 <= j < i ==> (spec_decode_order_event(srows[j].data) matches Some(e)
                        && (#[trigger] out@[j]).0.deep_view() == e && out@[j].1 == srows[
                        j].event_id),
            decreases rows@.len() - i,
        {
            let row = &rows[i];
            match decode_order_event(&row.data) {
                Ok(e) => {
                    out.push((e, row.event_id));
                },
                Err(_) => {
                    proof {
                        assert(rows@[i as int].deep_view() == srows[i as int]);
                        assert(spec_decode_order_event(srows[i as int].data) is None);
                    }
                    return Err(HandleError::DecodeFailure);
                },
            }
            i = i + 1;
        }
        proof {
            lemma_decode_stream_order_pointwise(srows);
            lemma_vec_pairs_deep(&out);
            assert forall|j: int| 0 <= j < srows.len() implies spec_decode_order_event(
                (#[trigger] srows[j]).data,
            ) is Some by {
                assert((spec_decode_order_event(srows[j].data) matches Some(e) && out@[
                    j].0.deep_view() == e && out@[j].1 == srows[j].event_id));
            }
            let pairs = spec_decode_stream_order(srows)->Some_0;
            assert forall|j: int| 0 <= j < out@.len() implies out.deep_view()[j] == pairs[j] by {
                assert((spec_decode_order_event(srows[j].data) matches Some(e)
                    && out@[j].0.deep_view() == e && out@[j].1 == srows[j].event_id));
                assert(pairs[j] == (
                    spec_decode_order_event(srows[j].data)->Some_0,
                    srows[j].event_id,
                ));
                assert(out.deep_view()[j] == (out@[j].0.deep_view(), out@[j].1));
            }
            assert(out.deep_view() =~= pairs);
        }
        Ok(out)
    }

    /// Fold the stream into the current state, oldest event first.
    #[verifier::loop_isolation(false)]
    pub fn fold_state(&self, events: &Vec<(OrderEvent, u128)>) -> (r: Option<Order>)
        ensures
            r.deep_view() == spec_fold_order(
                None,
                spec_order_events_only(events.deep_view()),
            ),
    {
        proof {
            lemma_vec_pairs_deep(events);
        }
        let ghost evs = spec_order_events_only(events.deep_view());
        let mut state: Option<Order> = self.decider.initial_state();
        let mut i: usize = 0;
        proof {
            assert(evs.skip(0) =~= evs);
        }
        while i < events.len()
            invariant
                i <= events@.len(),
                evs == spec_order_events_only(events.deep_view()),
                evs.len() == events@.len(),
                forall|j: int| 0 <= j < events@.len() ==> #[trigger] evs[j] == events@[
                    j].0.deep_view(),
                spec_fold_order(None, evs) == spec_fold_order(
                    state.deep_view(),
                    evs.skip(i as int),
                ),
            decreases events@.len() - i,
        {
            proof {
                assert(evs.skip(i as int)[0] == evs[i as int]);
                assert(evs.skip(i as int).drop_first() =~= evs.skip(i + 1));
            }
            state = self.decider.evolve(&state, &events[i].0);
            i = i + 1;
        }
        proof {
            assert(evs.skip(evs.len() as int).len() == 0);
        }
        state
    }

    /// Turn decided events into rows to append, chaining each from its own
    /// stream's latest event id.
    #[verifier::loop_isolation(false)]
    pub fn prepare_batch(
        &self,
        store: &EventStore,
        events: &Vec<OrderEvent>,
        ids: &Vec<u128>,
    ) -> (r: Vec<NewEventEntity>)
        requires
            ids@.len() == events@.len(),
        ensures
            r.deep_view() == spec_prepare_order(
                store.events.deep_view(),
                events.deep_view(),
                ids@,
                Map::empty(),
            ),
    {
        let ghost sevents = events.deep_view();
        proof {
            lemma_vec_events_deep(events);
        }
        let mut latest: Vec<(u128, u128)> = Vec::new();
        let mut out: Vec<NewEventEntity> = Vec::new();
        let mut i: usize = 0;
        proof {
            assert(sevents.skip(0) =~= sevents);
            assert(ids@.skip(0) =~= ids@);
            assert(latest@ =~= Seq::<(u128, u128)>::empty());
            assert(out.deep_view() =~= Seq::<SpecNewEventEntity>::empty());
        }
        while i < events.len()
            invariant
                i <= events@.len(),
                ids@.len() == events@.len(),
                sevents == events.deep_view(),
                sevents.len() == events@.len(),
                forall|j: int| 0 <= j < events@.len() ==> #[trigger] sevents[j] == events@[
                    j].deep_view(),
                out@.len() == i,
                spec_prepare_order(store.events.deep_view(), sevents, ids@, Map::empty())
                    == out.deep_view() + spec_prepare_order(
                    store.events.deep_view(),
                    sevents.skip(i as int),
                    ids@.skip(i as int),
                    assoc_to_map(latest@),
                ),
            decreases events@.len() - i,
        {
            let e = &events[i];
            let sid: u128 = e.identifier();
            let version: Option<u128> = match assoc_lookup(&latest, sid) {
                Some(v) => Some(v),
                None => match store.get_latest_event(sid) {
                    Some(row) => Some(row.event_id),
                    None => None,
                },
            };
            let ghost pre_out = out.deep_view();
            let ghost pre_latest = latest@;
            let row = NewEventEntity {
                decider: "Order".to_owned(),
                decider_id: sid,
                event: e.event_name(),
                data: encode_order_event(e),
                event_id: ids[i],
                command_id: None,
                previous_id: version,
                is_final: false,
            };
            proof {
                assert(sevents.skip(i as int)[0] == sevents[i as int]);
                assert(sevents.skip(i as int).drop_first() =~= sevents.skip(i + 1));
                assert(ids@.skip(i as int)[0] == ids@[i as int]);
                assert(ids@.skip(i as int).drop_first() =~= ids@.skip(i + 1));
                assert(row.deep_view() == spec_prepare_order(
                    store.events.deep_view(),
                    sevents.skip(i as int),
                    ids@.skip(i as int),
                    assoc_to_map(pre_latest),
                )[0]);
            }
            out.push(row);
            latest.push((sid, ids[i]));
            proof {
                assert(latest@.drop_last() =~= pre_latest);
                assert(assoc_to_map(latest@) == assoc_to_map(pre_latest).insert(
                    sid,
                    ids@[i as int],
                ));
                assert(out.deep_view() =~= pre_out.push(
                    spec_prepare_order(
                        store.events.deep_view(),
                        sevents.skip(i as int),
                        ids@.skip(i as int),
                        assoc_to_map(pre_latest),
                    )[0],
                ));
                assert(out.deep_view() + spec_prepare_order(
                    store.events.deep_view(),
                    sevents.skip(i + 1),
                    ids@.skip(i + 1),
                    assoc_to_map(latest@),
                ) =~= pre_out + spec_prepare_order(
                    store.events.deep_view(),
                    sevents.skip(i as int),
                    ids@.skip(i as int),
                    assoc_to_map(pre_latest),
                ));
            }
            i = i + 1;
        }
        proof {
            assert(sevents.skip(sevents.len() as int).len() == 0);
            assert(out.deep_view() + Seq::<SpecNewEventEntity>::empty() =~= out.deep_view());
        }
        out
    }

    /// Append decided events under the ids the caller supplies. The append
    /// is accepted exactly when the batch passes every check of the log.
    pub fn save(
        &self,
        store: &mut EventStore,
        events: &Vec<OrderEvent>,
        ids: &Vec<u128>,
        now: u64,
    ) -> (r: Result<(), AppendError>)
        requires
            old(store).wf(),
            ids@.len() == events@.len(),
            old(store).events@.len() + events@.len() < u64::MAX,
        ensures
            final(store).wf(),
            final(store).deciders == old(store).deciders,
            final(store).views == old(store).views,
            final(store).locks == old(store).locks,
            final(store).lease_millis == old(store).lease_millis,
            ({
                let batch = spec_prepare_order(
                    old(store).events.deep_view(),
                    events.deep_view(),
                    ids@,
                    Map::empty(),
                );
                let verdict = spec_append_verdict(
                    old(store).events.deep_view(),
                    old(store).deciders.deep_view(),
                    batch,
                    now,
                );
                &&& (r matches Ok(())) <==> verdict is None
                &&& r matches Err(e) ==> Some(e) == verdict
                &&& r is Ok ==> final(store).events.deep_view() == old(store).events.deep_view()
                    + spec_appended(old(store).events@.len() as int, batch, now)
                &&& r is Err ==> final(store).events@ == old(store).events@
            }),
    {
        let batch = self.prepare_batch(store, events, ids);
        proof {
            lemma_vec_new_rows_deep(&batch);
            lemma_prepare_order_len(
                store.events.deep_view(),
                events.deep_view(),
                ids@,
                Map::empty(),
            );
        }
        store.append_events(&batch, now)
    }

    /// Handle one command: load the stream, fold the state, decide, and
    /// append the decided events with fresh ids under the optimistic-
    /// concurrency guard. On a decode failure or a rejected append the
    /// store is left as it was.
    #[verifier::loop_isolation(false)]
    pub fn handle(&self, store: &mut EventStore, command: &OrderCommand, now: u64) -> (r:
        Result<Vec<(OrderEvent, u128)>, HandleError>)
        requires
            old(store).wf(),
            old(store).events@.len() + 1 < u64::MAX,
        ensures
            final(store).wf(),
            final(store).deciders == old(store).deciders,
            final(store).views == old(store).views,
            final(store).locks == old(store).locks,
            final(store).lease_millis == old(store).lease_millis,
            ({
                let rows = spec_events_of_id(
                    old(store).events.deep_view(),
                    spec_order_command_id(command.deep_view()),
                );
                match spec_decode_stream_order(rows) {
                    None => r == Err::<Vec<(OrderEvent, u128)>, HandleError>(
                        HandleError::DecodeFailure,
                    ) && final(store).events@ == old(store).events@,
                    Some(stream) => {
                        let decided = spec_decide_order(
                            command.deep_view(),
                            spec_fold_order(None, spec_order_events_only(stream)),
                        );
                        match r {
                            Ok(pairs) => {
                                &&& pairs.deep_view().map_values(
                                    |p: (SpecOrderEvent, u128)| p.0,
                                ) == decided
                                &&& final(store).events.deep_view() == old(
                                    store,
                                ).events.deep_view() + spec_appended(
                                    old(store).events@.len() as int,
                                    spec_prepare_order(
                                        old(store).events.deep_view(),
                                        decided,
                                        pairs.deep_view().map_values(
                                            |p: (SpecOrderEvent, u128)| p.1,
                                        ),
                                        Map::empty(),
                                    ),
                                    now,
                                )
                            },
                            Err(HandleError::DecodeFailure) => false,
                            Err(HandleError::Append(e)) => {
                                &&& final(store).events@ == old(store).events@
                                &&& exists|ids: Seq<u128>|
                                    ids.len() == decided.len() && #[trigger] spec_append_verdict(
                                        old(store).events.deep_view(),
                                        old(store).deciders.deep_view(),
                                        spec_prepare_order(
                                            old(store).events.deep_view(),
                                            decided,
                                            ids,
                                            Map::empty(),
                                        ),
                                        now,
                                    ) == Some(e)
                            },
                        }
                    },
                }
            }),
            !spec_order_stream_decodes(
                old(store).events.deep_view(),
                command.deep_view(),
            ) ==> r == Err::<Vec<(OrderEvent, u128)>, HandleError>(HandleError::DecodeFailure),
            spec_order_stream_decodes(old(store).events.deep_view(), command.deep_view()) ==> !(r
                == Err::<Vec<(OrderEvent, u128)>, HandleError>(HandleError::DecodeFailure)),
            spec_order_stream_decodes(old(store).events.deep_view(), command.deep_view()) && r
                is Ok ==> exists|ids: Seq<u128>|
                ids.len() == spec_order_decided(
                    old(store).events.deep_view(),
                    command.deep_view(),
                ).len() && final(store).events.deep_view() == old(store).events.deep_view()
                    + #[trigger] spec_appended(
                    old(store).events@.len() as int,
                    spec_prepare_order(
                        old(store).events.deep_view(),
                        spec_order_decided(old(store).events.deep_view(), command.deep_view()),
                        ids,
                        Map::empty(),
                    ),
                    now,
                ),
            spec_order_stream_decodes(old(store).events.deep_view(), command.deep_view()) && r
                is Err ==> final(store).events@ == old(store).events@ && exists|ids: Seq<u128>|
                ids.len() == spec_order_decided(
                    old(store).events.deep_view(),
                    command.deep_view(),
                ).len() && #[trigger] spec_append_verdict(
                    old(store).events.deep_view(),
                    old(store).deciders.deep_view(),
                    spec_prepare_order(
                        old(store).events.deep_view(),
                        spec_order_decided(old(store).events.deep_view(), command.deep_view()),
                        ids,
                        Map::empty(),
                    ),
                    now,
                ) == Some(r->Err_0->Append_0),
    {
        let fetched = match self.fetch_events(store, command) {
            Ok(v) => v,
            Err(e) => {
                return Err(e);
            },
        };
        let state = self.fold_state(&fetched);
        let new_events = self.decider.decide(command, &state);
        proof {
            lemma_decide_order_len(command.deep_view(), state.deep_view());
        }
        let mut ids: Vec<u128> = Vec::new();
        let mut k: usize = 0;
        while k < new_events.len()
            invariant
                ids@.len() == k,
                k <= new_events@.len(),
            decreases new_events@.len() - k,
        {
            ids.push(fresh_event_id());
            k = k + 1;
        }
        match self.save(store, &new_events, &ids, now) {
            Ok(()) => {
                let mut pairs: Vec<(OrderEvent, u128)> = Vec::new();
                let mut m: usize = 0;
                let mut rest = new_events;
                proof {
                    lemma_vec_events_deep(&rest);
                }
                let ghost devents = rest.deep_view();
                while rest.len() > 0
                    invariant
                        devents.len() == rest@.len() + pairs@.len(),
                        ids@.len() == devents.len(),
                        forall|j: int| 0 <= j < rest@.len() ==> #[trigger] rest@[j].deep_view()
                            == devents[pairs@.len() + j],
                        forall|j: int|
                            0 <= j < pairs@.len() ==> (#[trigger] pairs@[j]).0.deep_view()
                                == devents[j] && pairs@[j].1 == ids@[j],
                    decreases rest.len(),
                {
                    let e = rest.remove(0);
                    let id = ids[pairs.len()];
                    pairs.push((e, id));
                }
                proof {
                    lemma_vec_pairs_deep(&pairs);
                    assert(pairs.deep_view().map_values(|p: (SpecOrderEvent, u128)| p.0)
                        =~= devents);
                    assert(pairs.deep_view().map_values(|p: (SpecOrderEvent, u128)| p.1)
                        =~= ids@);
                    let cmd = command.deep_view();
                    let decided = spec_order_decided(old(store).events.deep_view(), cmd);
                    assert(decided == devents);
                    assert(ids@.len() == decided.len());
                    assert(store.events.deep_view() == old(store).events.deep_view()
                        + spec_appended(
                        old(store).events@.len() as int,
                        spec_prepare_order(
                            old(store).events.deep_view(),
                            decided,
                            ids@,
                            Map::empty(),
                        ),
                        now,
                    ));
                }
                Ok(pairs)
            },
            Err(e) => {
                proof {
                    let devents = new_events.deep_view();
                    assert(ids@.len() == devents.len() && spec_append_verdict(
                        old(store).events.deep_view(),
                        old(store).deciders.deep_view(),
                        spec_prepare_order(
                            old(store).events.deep_view(),
                            devents,
                            ids@,
                            Map::empty(),
                        ),
                        now,
                    ) == Some(e));
                    let cmd = command.deep_view();
                    let decided = spec_order_decided(old(store).events.deep_view(), cmd);
                    assert(decided == devents);
                    assert(ids@.len() == decided.len() && spec_append_verdict(
                        old(store).events.deep_view(),
                        old(store).deciders.deep_view(),
                        spec_prepare_order(
                            old(store).events.deep_view(),
                            decided,
                            ids@,
                            Map::empty(),
                        ),
                        now,
                    ) == Some(e));
                }
                Err(HandleError::Append(e))
            },
        }
    }
}

/// Fold consistency: folding the stream extended by the decided events
/// equals evolving the state the decider observed by those events.
pub proof fn lemma_fold_consistency_order(
    command: crate::api::SpecOrderCommand,
    stream: Seq<SpecOrderEvent>,
)
    ensures
        ({
            let state = spec_fold_order(None, stream);
            let decided = spec_decide_order(command, state);
            spec_fold_order(None, stream + decided) == spec_fold_order(state, decided)
        }),
{
    let state = spec_fold_order(None, stream);
    lemma_fold_order_append(None, stream, spec_decide_order(command, state));
}

/// The rows of a prepared batch decode back to the decided events.
pub proof fn lemma_prepared_rows_decode_order(
    store_evs: Seq<SpecEventEntity>,
    events: Seq<SpecOrderEvent>,
    ids: Seq<u128>,
    seen: Map<u128, u128>,
)
    ensures
        forall|i: int|
            0 <= i < events.len() ==> spec_decode_order_event(
                spec_prepare_order(store_evs, events, ids, seen)[i].data,
            ) == Some(#[trigger] events[i]),
    decreases events.len(),
{
    lemma_prepare_order_len(store_evs, events, ids, seen);
    if events.len() > 0 {
        let e = events[0];
        let sid = spec_order_event_id(e);
        lemma_order_event_round_trip(e);
        lemma_prepared_rows_decode_order(
            store_evs,
            events.drop_first(),
            ids.drop_first(),
            seen.insert(sid, ids[0]),
        );
        lemma_prepare_order_len(
            store_evs,
            events.drop_first(),
            ids.drop_first(),
            seen.insert(sid, ids[0]),
        );
        assert forall|i: int| 0 <= i < events.len() implies spec_decode_order_event(
            spec_prepare_order(store_evs, events, ids, seen)[i].data,
        ) == Some(#[trigger] events[i]) by {
            if i > 0 {
                assert(spec_prepare_order(store_evs, events, ids, seen)[i] == spec_prepare_order(
                    store_evs,
                    events.drop_first(),
                    ids.drop_first(),
                    seen.insert(sid, ids[0]),
                )[i - 1]);
                assert(events.drop_first()[i - 1] == events[i]);
            }
        }
    }
}

/// A decoded stream is the pointwise decode of its rows.
pub proof fn lemma_decode_stream_order_pointwise(rows: Seq<SpecEventEntity>)
    ensures
        spec_decode_stream_order(rows) is Some <==> (forall|i: int|
            0 <= i < rows.len() ==> spec_decode_order_event(
                (#[trigger] rows[i]).data,
            ) is Some),
        spec_decode_stream_order(rows) matches Some(pairs) ==> pairs.len() == rows.len() && (
        forall|i: int|
            0 <= i < rows.len() ==> #[trigger] pairs[i] == (
                spec_decode_order_event(rows[i].data)->Some_0,
                rows[i].event_id,
            )),
    decreases rows.len(),
{
    if rows.len() > 0 {
        lemma_decode_stream_order_pointwise(rows.drop_first());
        assert(forall|i: int| 1 <= i < rows.len() ==> #[trigger] rows[i] == rows.drop_first()[i
            - 1]);
    }
}

/// The decider always returns a short batch: one event per command.
pub proof fn lemma_decide_order_len(
    command: crate::api::SpecOrderCommand,
    state: Option<SpecOrder>,
)
    ensures
        spec_decide_order(command, state).len() == 1,
{
}

/// A prepared batch has one row per decided event.
pub proof fn lemma_prepare_order_len(
    store_evs: Seq<SpecEventEntity>,
    events: Seq<SpecOrderEvent>,
    ids: Seq<u128>,
    seen: Map<u128, u128>,
)
    ensures
        spec_prepare_order(store_evs, events, ids, seen).len() == events.len(),
    decreases events.len(),
{
    if events.len() > 0 {
        let e = events[0];
        let sid = spec_order_event_id(e);
        lemma_prepare_order_len(
            store_evs,
            events.drop_first(),
            ids.drop_first(),
            seen.insert(sid, ids[0]),
        );
    }
}

/// The model of a vector of order events is pointwise.
pub proof fn lemma_vec_events_deep(v: &Vec<OrderEvent>)
    ensures
        v.deep_view().len() == v@.len(),
        forall|i: int| 0 <= i < v@.len() ==> #[trigger] v.deep_view()[i] == v@[i].deep_view(),
{
}

/// The model of a vector of event/id pairs is pointwise.
pub proof fn lemma_vec_pairs_deep(v: &Vec<(OrderEvent, u128)>)
    ensures
        v.deep_view().len() == v@.len(),
        forall|i: int|
            0 <= i < v@.len() ==> #[trigger] v.deep_view()[i] == (
                v@[i].0.deep_view(),
                v@[i].1,
            ),
{
}

/// The model of a vector of order commands is pointwise.
pub proof fn lemma_vec_cmds_deep(v: &Vec<OrderCommand>)
    ensures
        v.deep_view().len() == v@.len(),
        forall|i: int| 0 <= i < v@.len() ==> #[trigger] v.deep_view()[i] == v@[i].deep_view(),
{
}

} // verus!
