//! Event-sourced aggregates: handle a command by loading its stream,
//! folding the state, deciding new events and appending them with the
//! optimistic-concurrency guard.
use vstd::prelude::*;

use crate::api::{
    EventName, Identifier, RestaurantCommand, RestaurantEvent, SpecRestaurantEvent,
    spec_restaurant_command_id, spec_restaurant_event_id, spec_restaurant_event_name,
};
use crate::error::{AppendError, HandleError};
use crate::event_codec::{
    decode_restaurant_event, encode_restaurant_event, lemma_restaurant_event_round_trip,
    spec_decode_restaurant_event, spec_encode_restaurant_event,
};
use crate::restaurant_decider::{
    Restaurant, RestaurantDecider, SpecRestaurant, lemma_fold_restaurant_append,
    restaurant_decider, spec_decide_restaurant, spec_fold_restaurant,
};
use crate::store::{
    EventEntity, EventStore, NewEventEntity, SpecEventEntity, SpecNewEventEntity,
    spec_append_verdict, spec_appended, spec_events_of_id, spec_latest_of_id,
};

verus! {

/// Relies on uuid::Uuid::new_v4 for a fresh random event id; nothing is
/// promised of the value that comes back.
#[verifier::external_body]
pub(crate) fn fresh_event_id() -> u128 {
    uuid::Uuid::new_v4().as_u128()
}

// ########################################################
// ########## Per-stream latest-version bookkeeping #######
// ########################################################

/// The map an association list stands for; later entries win.
pub open spec fn assoc_to_map(s: Seq<(u128, u128)>) -> Map<u128, u128>
    decreases s.len(),
{
    if s.len() == 0 {
        Map::empty()
    } else {
        assoc_to_map(s.drop_last()).insert(s.last().0, s.last().1)
    }
}

/// Look a key up in an association list, later entries first.
pub(crate) fn assoc_lookup(s: &Vec<(u128, u128)>, key: u128) -> (r: Option<u128>)
    ensures
        r == (if assoc_to_map(s@).contains_key(key) {
            Some(assoc_to_map(s@)[key])
        } else {
            None::<u128>
        }),
{
    let ghost whole = s@;
    let mut i: usize = s.len();
    proof {
        assert(whole.take(i as int) =~= whole);
    }
    while i > 0
        invariant
            i <= s@.len(),
            whole == s@,
            assoc_to_map(whole).contains_key(key) == assoc_to_map(whole.take(i as int))
                .contains_key(key),
            assoc_to_map(whole).contains_key(key) ==> assoc_to_map(whole)[key] == assoc_to_map(
                whole.take(i as int),
            )[key],
        decreases i,
    {
        let entry = s[i - 1];
        proof {
            assert(whole.take(i as int).last() == whole[i - 1]);
            assert(whole.take(i as int).drop_last() =~= whole.take(i - 1));
        }
        if entry.0 == key {
            return Some(entry.1);
        }
        i = i - 1;
    }
    proof {
        assert(whole.take(0) =~= Seq::<(u128, u128)>::empty());
    }
    None
}

// ########################################################
// ############# The restaurant aggregate #################
// ########################################################

/// The decoded form of a stored stream, paired with each row's event id,
/// or nothing if any row fails to decode as a restaurant event.
pub open spec fn spec_decode_stream_restaurant(rows: Seq<SpecEventEntity>) -> Option<
    Seq<(SpecRestaurantEvent, u128)>,
>
    decreases rows.len(),
{
    if rows.len() == 0 {
        Some(Seq::empty())
    } else {
        match (
            spec_decode_restaurant_event(rows[0].data),
            spec_decode_stream_restaurant(rows.drop_first()),
        ) {
            (Some(e), Some(rest)) => Some(seq![(e, rows[0].event_id)] + rest),
            _ => None,
        }
    }
}

/// The events of a decoded stream, without their ids.
pub open spec fn spec_events_only(pairs: Seq<(SpecRestaurantEvent, u128)>) -> Seq<
    SpecRestaurantEvent,
> {
    pairs.map_values(|p: (SpecRestaurantEvent, u128)| p.0)
}

/// The rows a sequence of decided restaurant events turns into: each event
/// chains from its own stream's latest id, probed from the log for the
/// first event of a stream and advanced in memory thereafter.
pub open spec fn spec_prepare_restaurant(
    store_evs: Seq<SpecEventEntity>,
    events: Seq<SpecRestaurantEvent>,
    ids: Seq<u128>,
    seen: Map<u128, u128>,
) -> Seq<SpecNewEventEntity>
    decreases events.len(),
{
    if events.len() == 0 {
        Seq::empty()
    } else {
        let e = events[0];
        let sid = spec_restaurant_event_id(e);
        let version: Option<u128> = if seen.contains_key(sid) {
            Some(seen[sid])
        } else {
            match spec_latest_of_id(store_evs, sid) {
                Some(row) => Some(row.event_id),
                None => None,
            }
        };
        seq![
            (SpecNewEventEntity {
                decider: "Restaurant"@,
                decider_id: sid,
                event: spec_restaurant_event_name(e),
                data: spec_encode_restaurant_event(e),
                event_id: ids[0],
                command_id: None,
                previous_id: version,
                is_final: false,
            }),
        ] + spec_prepare_restaurant(
            store_evs,
            events.drop_first(),
            ids.drop_first(),
            seen.insert(sid, ids[0]),
        )
    }
}

/// Whether the restaurant stream `command` addresses decodes in `evs`.
pub open spec fn spec_restaurant_stream_decodes(
    evs: Seq<SpecEventEntity>,
    command: crate::api::SpecRestaurantCommand,
) -> bool {
    spec_decode_stream_restaurant(
        spec_events_of_id(evs, spec_restaurant_command_id(command)),
    ) is Some
}

/// The events the restaurant decider appends for `command` against the
/// stream it addresses in `evs`; meaningful when that stream decodes.
pub open spec fn spec_restaurant_decided(
    evs: Seq<SpecEventEntity>,
    command: crate::api::SpecRestaurantCommand,
) -> Seq<SpecRestaurantEvent> {
    let rows = spec_events_of_id(evs, spec_restaurant_command_id(command));
    let stream = spec_decode_stream_restaurant(rows)->Some_0;
    spec_decide_restaurant(command, spec_fold_restaurant(None, spec_events_only(stream)))
}

/// After a successful command, the log grew by exactly the decided
/// events, prepared under some fresh ids.
pub open spec fn spec_appended_restaurant_ok(
    old_evs: Seq<SpecEventEntity>,
    new_evs: Seq<SpecEventEntity>,
    old_len: int,
    command: crate::api::SpecRestaurantCommand,
    now: u64,
) -> bool {
    exists|ids: Seq<u128>|
        ids.len() == spec_restaurant_decided(old_evs, command).len() && new_evs == old_evs
            + #[trigger] spec_appended(
            old_len,
            spec_prepare_restaurant(
                old_evs,
                spec_restaurant_decided(old_evs, command),
                ids,
                Map::empty(),
            ),
            now,
        )
}

/// The restaurant aggregate: hosts the restaurant decider against the log.
pub struct RestaurantAggregate {
    pub decider: RestaurantDecider,
}

/// Build the restaurant aggregate.
pub fn restaurant_aggregate() -> RestaurantAggregate {
    RestaurantAggregate { decider: restaurant_decider() }
}

impl RestaurantAggregate {

    /// The id of the latest event of the stream this event addresses, used
    /// as the version for optimistic concurrency.
    pub fn version_provider(&self, store: &EventStore, event: &RestaurantEvent) -> (r: Option<
        u128,
    >)
        ensures
            r == (match spec_latest_of_id(
                store.events.deep_view(),
                spec_restaurant_event_id(event.deep_view()),
            ) {
                Some(row) => Some(row.event_id),
                None => None::<u128>,
            }),
    {
        match store.get_latest_event(event.identifier()) {
            Some(row) => Some(row.event_id),
            None => None,
        }
    }

    /// Load and decode the stream a command addresses, oldest first.
    #[verifier::loop_isolation(false)]
    pub fn fetch_events(&self, store: &EventStore, command: &RestaurantCommand) -> (r: Result<
        Vec<(RestaurantEvent, u128)>,
        HandleError,
    >)
        ensures
            ({
                let rows = spec_events_of_id(
                    store.events.deep_view(),
                    spec_restaurant_command_id(command.deep_view()),
                );
                match spec_decode_stream_restaurant(rows) {
                    Some(pairs) => r matches Ok(v) && v.deep_view() == pairs,
                    None => r == Err::<Vec<(RestaurantEvent, u128)>, HandleError>(
                        HandleError::DecodeFailure,
                    ),
                }
            }),
    {
        let rows = store.list_events(command.identifier());
        let ghost srows = rows.deep_view();
        proof {
            lemma_decode_stream_restaurant_pointwise(srows);
            lemma_vec_rows_deep(&rows);
        }
        let mut out: Vec<(RestaurantEvent, u128)> = Vec::new();
        let mut i: usize = 0;
        while i < rows.len()
            invariant
                i <= rows@.len(),
                srows == rows.deep_view(),
                srows.len() == rows@.len(),
                forall|j: int| 0 <= j < rows@.len() ==> #[trigger] rows@[j].deep_view()
                    == srows[j],
                out@.len() == i,
                forall|j: int|
                    0 <= j < i ==> (spec_decode_restaurant_event(srows[j].data) matches Some(e)
                        && (#[trigger] out@[j]).0.deep_view() == e && out@[j].1 == srows[
                        j].event_id),
            decreases rows@.len() - i,
        {
            let row = &rows[i];
            match decode_restaurant_event(&row.data) {
                Ok(e) => {
                    out.push((e, row.event_id));
                },
                Err(_) => {
                    proof {
                        assert(rows@[i as int].deep_view() == srows[i as int]);
                        assert(spec_decode_restaurant_event(srows[i as int].data) is None);
                    }
                    return Err(HandleError::DecodeFailure);
                },
            }
            i = i + 1;
        }
        proof {
            lemma_decode_stream_restaurant_pointwise(srows);
            lemma_vec_pairs_deep(&out);
            assert forall|j: int| 0 <= j < srows.len() implies spec_decode_restaurant_event(
                (#[trigger] srows[j]).data,
            ) is Some by {
                assert((spec_decode_restaurant_event(srows[j].data) matches Some(e) && out@[
                    j].0.deep_view() == e && out@[j].1 == srows[j].event_id));
            }
            let pairs = spec_decode_stream_restaurant(srows)->Some_0;
            assert forall|j: int| 0 <= j < out@.len() implies out.deep_view()[j] == pairs[j] by {
                assert((spec_decode_restaurant_event(srows[j].data) matches Some(e)
                    && out@[j].0.deep_view() == e && out@[j].1 == srows[j].event_id));
                assert(pairs[j] == (
                    spec_decode_restaurant_event(srows[j].data)->Some_0,
                    srows[j].event_id,
                ));
                assert(out.deep_view()[j] == (out@[j].0.deep_view(), out@[j].1));
            }
            assert(out.deep_view() =~= pairs);
        }
        Ok(out)
    }

    /// Fold the stream into the current state, oldest event first.
    #[verifier::loop_isolation(false)]
    pub fn fold_state(&self, events: &Vec<(RestaurantEvent, u128)>) -> (r: Option<Restaurant>)
        ensures
            r.deep_view() == spec_fold_restaurant(
                None,
                spec_events_only(events.deep_view()),
            ),
    {
        proof {
            lemma_vec_pairs_deep(events);
        }
        let ghost evs = spec_events_only(events.deep_view());
        let mut state: Option<Restaurant> = self.decider.initial_state();
        let mut i: usize = 0;
        proof {
            assert(evs.skip(0) =~= evs);
        }
        while i < events.len()
            invariant
                i <= events@.len(),
                evs == spec_events_only(events.deep_view()),
                evs.len() == events@.len(),
                forall|j: int| 0 <= j < events@.len() ==> #[trigger] evs[j] == events@[
                    j].0.deep_view(),
                spec_fold_restaurant(None, evs) == spec_fold_restaurant(
                    state.deep_view(),
                    evs.skip(i as int),
                ),
            decreases events@.len() - i,
        {
            proof {
                assert(evs.skip(i as int)[0] == evs[i as int]);
                assert(evs.skip(i as int).drop_first() =~= evs.skip(i + 1));
            }
            state = self.decider.evolve(&state, &events[i].0);
            i = i + 1;
        }
        proof {
            assert(evs.skip(evs.len() as int).len() == 0);
        }
        state
    }

    /// Turn decided events into rows to append, chaining each from its own
    /// stream's latest event id.
    #[verifier::loop_isolation(false)]
    pub fn prepare_batch(
        &self,
        store: &EventStore,
        events: &Vec<RestaurantEvent>,
        ids: &Vec<u128>,
    ) -> (r: Vec<NewEventEntity>)
        requires
            ids@.len() == events@.len(),
        ensures
            r.deep_view() == spec_prepare_restaurant(
                store.events.deep_view(),
                events.deep_view(),
                ids@,
                Map::empty(),
            ),
    {
        let ghost sevents = events.deep_view();
        proof {
            lemma_vec_events_deep(events);
        }
        let mut latest: Vec<(u128, u128)> = Vec::new();
        let mut out: Vec<NewEventEntity> = Vec::new();
        let mut i: usize = 0;
        proof {
            assert(sevents.skip(0) =~= sevents);
            assert(ids@.skip(0) =~= ids@);
            assert(latest@ =~= Seq::<(u128, u128)>::empty());
            assert(out.deep_view() =~= Seq::<SpecNewEventEntity>::empty());
        }
        while i < events.len()
            invariant
                i <= events@.len(),
                ids@.len() == events@.len(),
                sevents == events.deep_view(),
                sevents.len() == events@.len(),
                forall|j: int| 0 <= j < events@.len() ==> #[trigger] sevents[j] == events@[
                    j].deep_view(),
                out@.len() == i,
                spec_prepare_restaurant(store.events.deep_view(), sevents, ids@, Map::empty())
                    == out.deep_view() + spec_prepare_restaurant(
                    store.events.deep_view(),
                    sevents.skip(i as int),
                    ids@.skip(i as int),
                    assoc_to_map(latest@),
                ),
            decreases events@.len() - i,
        {
            let e = &events[i];
            let sid: u128 = e.identifier();
            let version: Option<u128> = match assoc_lookup(&latest, sid) {
                Some(v) => Some(v),
                None => match store.get_latest_event(sid) {
                    Some(row) => Some(row.event_id),
                    None => None,
                },
            };
            let ghost pre_out = out.deep_view();
            let ghost pre_latest = latest@;
            let row = NewEventEntity {
                decider: "Restaurant".to_owned(),
                decider_id: sid,
                event: e.event_name(),
                data: encode_restaurant_event(e),
                event_id: ids[i],
                command_id: None,
                previous_id: version,
                is_final: false,
            };
            proof {
                assert(sevents.skip(i as int)[0] == sevents[i as int]);
                assert(sevents.skip(i as int).drop_first() =~= sevents.skip(i + 1));
                assert(ids@.skip(i as int)[0] == ids@[i as int]);
                assert(ids@.skip(i as int).drop_first() =~= ids@.skip(i + 1));
                assert(row.deep_view() == spec_prepare_restaurant(
                    store.events.deep_view(),
                    sevents.skip(i as int),
                    ids@.skip(i as int),
                    assoc_to_map(pre_latest),
                )[0]);
            }
            out.push(row);
            latest.push((sid, ids[i]));
            proof {
                assert(latest@.drop_last() =~= pre_latest);
                assert(assoc_to_map(latest@) == assoc_to_map(pre_latest).insert(
                    sid,
                    ids@[i as int],
                ));
                assert(out.deep_view() =~= pre_out.push(
                    spec_prepare_restaurant(
                        store.events.deep_view(),
                        sevents.skip(i as int),
                        ids@.skip(i as int),
                        assoc_to_map(pre_latest),
                    )[0],
                ));
                assert(out.deep_view() + spec_prepare_restaurant(
                    store.events.deep_view(),
                    sevents.skip(i + 1),
                    ids@.skip(i + 1),
                    assoc_to_map(latest@),
                ) =~= pre_out + spec_prepare_restaurant(
                    store.events.deep_view(),
                    sevents.skip(i as int),
                    ids@.skip(i as int),
                    assoc_to_map(pre_latest),
                ));
            }
            i = i + 1;
        }
        proof {
            assert(sevents.skip(sevents.len() as int).len() == 0);
            assert(out.deep_view() + Seq::<SpecNewEventEntity>::empty() =~= out.deep_view());
        }
        out
    }

    /// Append decided events under the ids the caller supplies. The append
    /// is accepted exactly when the batch passes every check of the log.
    pub fn save(
        &self,
        store: &mut EventStore,
        events: &Vec<RestaurantEvent>,
        ids: &Vec<u128>,
        now: u64,
    ) -> (r: Result<(), AppendError>)
        requires
            old(store).wf(),
            ids@.len() == events@.len(),
            old(store).events@.len() + events@.len() < u64::MAX,
        ensures
            final(store).wf(),
            final(store).deciders == old(store).deciders,
            final(store).views == old(store).views,
            final(store).locks == old(store).locks,
            final(store).lease_millis == old(store).lease_millis,
            ({
                let batch = spec_prepare_restaurant(
                    old(store).events.deep_view(),
                    events.deep_view(),
                    ids@,
                    Map::empty(),
                );
                let verdict = spec_append_verdict(
                    old(store).events.deep_view(),
                    old(store).deciders.deep_view(),
                    batch,
                    now,
                );
                &&& (r matches Ok(())) <==> verdict is None
                &&& r matches Err(e) ==> Some(e) == verdict
                &&& r is Ok ==> final(store).events.deep_view() == old(store).events.deep_view()
                    + spec_appended(old(store).events@.len() as int, batch, now)
                &&& r is Err ==> final(store).events@ == old(store).events@
            }),
    {
        let batch = self.prepare_batch(store, events, ids);
        proof {
            lemma_vec_new_rows_deep(&batch);
            lemma_prepare_restaurant_len(
                store.events.deep_view(),
                events.deep_view(),
                ids@,
                Map::empty(),
            );
        }
        store.append_events(&batch, now)
    }

    /// Handle one command: load the stream, fold the state, decide, and
    /// append the decided events with fresh ids under the optimistic-
    /// concurrency guard. On a decode failure or a rejected append the
    /// store is left as it was.
    #[verifier::loop_isolation(false)]
    pub fn handle(&self, store: &mut EventStore, command: &RestaurantCommand, now: u64) -> (r:
        Result<Vec<(RestaurantEvent, u128)>, HandleError>)
        requires
            old(store).wf(),
            old(store).events@.len() + 1 < u64::MAX,
        ensures
            final(store).wf(),
            final(store).deciders == old(store).deciders,
            final(store).views == old(store).views,
            final(store).locks == old(store).locks,
            final(store).lease_millis == old(store).lease_millis,
            ({
                let rows = spec_events_of_id(
                    old(store).events.deep_view(),
                    spec_restaurant_command_id(command.deep_view()),
                );
                match spec_decode_stream_restaurant(rows) {
                    None => r == Err::<Vec<(RestaurantEvent, u128)>, HandleError>(
                        HandleError::DecodeFailure,
                    ) && final(store).events@ == old(store).events@,
                    Some(stream) => {
                        let decided = spec_decide_restaurant(
                            command.deep_view(),
                            spec_fold_restaurant(None, spec_events_only(stream)),
                        );
                        match r {
                            Ok(pairs) => {
                                &&& pairs.deep_view().map_values(
                                    |p: (SpecRestaurantEvent, u128)| p.0,
                                ) == decided
                                &&& final(store).events.deep_view() == old(
                                    store,
                                ).events.deep_view() + spec_appended(
                                    old(store).events@.len() as int,
                                    spec_prepare_restaurant(
                                        old(store).events.deep_view(),
                                        decided,
                                        pairs.deep_view().map_values(
                                            |p: (SpecRestaurantEvent, u128)| p.1,
                                        ),
                                        Map::empty(),
                                    ),
                                    now,
                                )
                            },
                            Err(HandleError::DecodeFailure) => false,
                            Err(HandleError::Append(e)) => {
                                &&& final(store).events@ == old(store).events@
                                &&& exists|ids: Seq<u128>|
                                    ids.len() == decided.len() && #[trigger] spec_append_verdict(
                                        old(store).events.deep_view(),
                                        old(store).deciders.deep_view(),
                                        spec_prepare_restaurant(
                                            old(store).events.deep_view(),
                                            decided,
                                            ids,
                                            Map::empty(),
                                        ),
                                        now,
                                    ) == Some(e)
                            },
                        }
                    },
                }
            }),
            !spec_restaurant_stream_decodes(
                old(store).events.deep_view(),
                command.deep_view(),
            ) ==> r == Err::<Vec<(RestaurantEvent, u128)>, HandleError>(
                HandleError::DecodeFailure,
            ),
            spec_restaurant_stream_decodes(old(store).events.deep_view(), command.deep_view())
                ==> !(r == Err::<Vec<(RestaurantEvent, u128)>, HandleError>(
                HandleError::DecodeFailure,
            )),
            spec_restaurant_stream_decodes(old(store).events.deep_view(), command.deep_view())
                && r is Ok ==> exists|ids: Seq<u128>|
                ids.len() == spec_restaurant_decided(
                    old(store).events.deep_view(),
                    command.deep_view(),
                ).len() && final(store).events.deep_view() == old(store).events.deep_view()
                    + #[trigger] spec_appended(
                    old(store).events@.len() as int,
                    spec_prepare_restaurant(
                        old(store).events.deep_view(),
                        spec_restaurant_decided(
                            old(store).events.deep_view(),
                            command.deep_view(),
                        ),
                        ids,
                        Map::empty(),
                    ),
                    now,
                ),
            spec_restaurant_stream_decodes(old(store).events.deep_view(), command.deep_view())
                && r is Err ==> final(store).events@ == old(store).events@ && exists|
                ids: Seq<u128>,
            |
                ids.len() == spec_restaurant_decided(
                    old(store).events.deep_view(),
                    command.deep_view(),
                ).len() && #[trigger] spec_append_verdict(
                    old(store).events.deep_view(),
                    old(store).deciders.deep_view(),
                    spec_prepare_restaurant(
                        old(store).events.deep_view(),
                        spec_restaurant_decided(
                            old(store).events.deep_view(),
                            command.deep_view(),
                        ),
                        ids,
                        Map::empty(),
                    ),
                    now,
                ) == Some(r->Err_0->Append_0),
    {
        let fetched = match self.fetch_events(store, command) {
            Ok(v) => v,
            Err(e) => {
                return Err(e);
            },
        };
        let state = self.fold_state(&fetched);
        let new_events = self.decider.decide(command, &state);
        proof {
            lemma_decide_restaurant_len(command.deep_view(), state.deep_view());
        }
        let mut ids: Vec<u128> = Vec::new();
        let mut k: usize = 0;
        while k < new_events.len()
            invariant
                ids@.len() == k,
                k <= new_events@.len(),
            decreases new_events@.len() - k,
        {
            ids.push(fresh_event_id());
            k = k + 1;
        }
        match self.save(store, &new_events, &ids, now) {
            Ok(()) => {
                let mut pairs: Vec<(RestaurantEvent, u128)> = Vec::new();
                let mut m: usize = 0;
                let mut rest = new_events;
                proof {
                    lemma_vec_events_deep(&rest);
                }
                let ghost devents = rest.deep_view();
                while rest.len() > 0
                    invariant
                        devents.len() == rest@.len() + pairs@.len(),
                        ids@.len() == devents.len(),
                        forall|j: int| 0 <= j < rest@.len() ==> #[trigger] rest@[j].deep_view()
                            == devents[pairs@.len() + j],
                        forall|j: int|
                            0 <= j < pairs@.len() ==> (#[trigger] pairs@[j]).0.deep_view()
                                == devents[j] && pairs@[j].1 == ids@[j],
                    decreases rest.len(),
                {
                    let e = rest.remove(0);
                    let id = ids[pairs.len()];
                    pairs.push((e, id));
                }
                proof {
                    lemma_vec_pairs_deep(&pairs);
                    assert(pairs.deep_view().map_values(|p: (SpecRestaurantEvent, u128)| p.0)
                        =~= devents);
                    assert(pairs.deep_view().map_values(|p: (SpecRestaurantEvent, u128)| p.1)
                        =~= ids@);
                    let cmd = command.deep_view();
                    let decided = spec_restaurant_decided(old(store).events.deep_view(), cmd);
                    assert(decided == devents);
                    assert(ids@.len() == decided.len());
                    assert(store.events.deep_view() == old(store).events.deep_view()
                        + spec_appended(
                        old(store).events@.len() as int,
                        spec_prepare_restaurant(
                            old(store).events.deep_view(),
                            decided,
                            ids@,
                            Map::empty(),
                        ),
                        now,
                    ));
                }
                Ok(pairs)
            },
            Err(e) => {
                proof {
                    let devents = new_events.deep_view();
                    assert(ids@.len() == devents.len() && spec_append_verdict(
                        old(store).events.deep_view(),
                        old(store).deciders.deep_view(),
                        spec_prepare_restaurant(
                            old(store).events.deep_view(),
                            devents,
                            ids@,
                            Map::empty(),
                        ),
                        now,
                    ) == Some(e));
                    let cmd = command.deep_view();
                    let decided = spec_restaurant_decided(old(store).events.deep_view(), cmd);
                    assert(decided == devents);
                    assert(ids@.len() == decided.len() && spec_append_verdict(
                        old(store).events.deep_view(),
                        old(store).deciders.deep_view(),
                        spec_prepare_restaurant(
                            old(store).events.deep_view(),
                            decided,
                            ids@,
                            Map::empty(),
                        ),
                        now,
                    ) == Some(e));
                }
                Err(HandleError::Append(e))
            },
        }
    }
}

/// Fold consistency: folding the stream extended by the decided events
/// equals evolving the state the decider observed by those events.
pub proof fn lemma_fold_consistency_restaurant(
    command: crate::api::SpecRestaurantCommand,
    stream: Seq<SpecRestaurantEvent>,
)
    ensures
        ({
            let state = spec_fold_restaurant(None, stream);
            let decided = spec_decide_restaurant(command, state);
            spec_fold_restaurant(None, stream + decided) == spec_fold_restaurant(state, decided)
        }),
{
    let state = spec_fold_restaurant(None, stream);
    lemma_fold_restaurant_append(None, stream, spec_decide_restaurant(command, state));
}

/// The rows of a prepared batch decode back to the decided events.
pub proof fn lemma_prepared_rows_decode_restaurant(
    store_evs: Seq<SpecEventEntity>,
    events: Seq<SpecRestaurantEvent>,
    ids: Seq<u128>,
    seen: Map<u128, u128>,
)
    ensures
        forall|i: int|
            0 <= i < events.len() ==> spec_decode_restaurant_event(
                spec_prepare_restaurant(store_evs, events, ids, seen)[i].data,
            ) == Some(#[trigger] events[i]),
    decreases events.len(),
{
    lemma_prepare_restaurant_len(store_evs, events, ids, seen);
    if events.len() > 0 {
        let e = events[0];
        let sid = spec_restaurant_event_id(e);
        lemma_restaurant_event_round_trip(e);
        lemma_prepared_rows_decode_restaurant(
            store_evs,
            events.drop_first(),
            ids.drop_first(),
            seen.insert(sid, ids[0]),
        );
        lemma_prepare_restaurant_len(
            store_evs,
            events.drop_first(),
            ids.drop_first(),
            seen.insert(sid, ids[0]),
        );
        assert forall|i: int| 0 <= i < events.len() implies spec_decode_restaurant_event(
            spec_prepare_restaurant(store_evs, events, ids, seen)[i].data,
        ) == Some(#[trigger] events[i]) by {
            if i > 0 {
                assert(spec_prepare_restaurant(store_evs, events, ids, seen)[i]
                    == spec_prepare_restaurant(
                    store_evs,
                    events.drop_first(),
                    ids.drop_first(),
                    seen.insert(sid, ids[0]),
                )[i - 1]);
                assert(events.drop_first()[i - 1] == events[i]);
            }
        }
    }
}

/// A decoded stream is the pointwise decode of its rows.
pub proof fn lemma_decode_stream_restaurant_pointwise(rows: Seq<SpecEventEntity>)
    ensures
        spec_decode_stream_restaurant(rows) is Some <==> (forall|i: int|
            0 <= i < rows.len() ==> spec_decode_restaurant_event(
                (#[trigger] rows[i]).data,
            ) is Some),
        spec_decode_stream_restaurant(rows) matches Some(pairs) ==> pairs.len() == rows.len() && (
        forall|i: int|
            0 <= i < rows.len() ==> #[trigger] pairs[i] == (
                spec_decode_restaurant_event(rows[i].data)->Some_0,
                rows[i].event_id,
            )),
    decreases rows.len(),
{
    if rows.len() > 0 {
        lemma_decode_stream_restaurant_pointwise(rows.drop_first());
        assert(forall|i: int| 1 <= i < rows.len() ==> #[trigger] rows[i] == rows.drop_first()[i
            - 1]);
    }
}

/// The decider always returns a short batch: one event per command.
pub proof fn lemma_decide_restaurant_len(
    command: crate::api::SpecRestaurantCommand,
    state: Option<SpecRestaurant>,
)
    ensures
        spec_decide_restaurant(command, state).len() == 1,
{
}

/// A prepared batch has one row per decided event.
pub proof fn lemma_prepare_restaurant_len(
    store_evs: Seq<SpecEventEntity>,
    events: Seq<SpecRestaurantEvent>,
    ids: Seq<u128>,
    seen: Map<u128, u128>,
)
    ensures
        spec_prepare_restaurant(store_evs, events, ids, seen).len() == events.len(),
    decreases events.len(),
{
    if events.len() > 0 {
        let e = events[0];
        let sid = spec_restaurant_event_id(e);
        lemma_prepare_restaurant_len(
            store_evs,
            events.drop_first(),
            ids.drop_first(),
            seen.insert(sid, ids[0]),
        );
    }
}

/// The model of a vector of stored rows is pointwise.
pub proof fn lemma_vec_rows_deep(v: &Vec<EventEntity>)
    ensures
        v.deep_view().len() == v@.len(),
        forall|i: int| 0 <= i < v@.len() ==> #[trigger] v.deep_view()[i] == v@[i].deep_view(),
{
}

/// The model of a vector of rows to append is pointwise.
pub proof fn lemma_vec_new_rows_deep(v: &Vec<NewEventEntity>)
    ensures
        v.deep_view().len() == v@.len(),
        forall|i: int| 0 <= i < v@.len() ==> #[trigger] v.deep_view()[i] == v@[i].deep_view(),
{
}

/// The model of a vector of restaurant events is pointwise.
pub proof fn lemma_vec_events_deep(v: &Vec<RestaurantEvent>)
    ensures
        v.deep_view().len() == v@.len(),
        forall|i: int| 0 <= i < v@.len() ==> #[trigger] v.deep_view()[i] == v@[i].deep_view(),
{
}

/// The model of a vector of event/id pairs is pointwise.
pub proof fn lemma_vec_pairs_deep(v: &Vec<(RestaurantEvent, u128)>)
    ensures
        v.deep_view().len() == v@.len(),
        forall|i: int|
            0 <= i < v@.len() ==> #[trigger] v.deep_view()[i] == (
                v@[i].0.deep_view(),
                v@[i].1,
            ),
{
}

} // verus!
