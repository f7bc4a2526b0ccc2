//! The append-only event log store: events with a per-stream causal chain
//! and optimistic concurrency, decider/event registrations, subscriptions,
//! and lease locks for pull-based dispatch.
use vstd::prelude::*;

use vstd::pervasive::VecAdditionalExecFns;

use crate::codec::{SpecValue, Value, clone_value};
use crate::error::{AckError, AppendError};

verus! {

// ########################################################
// ###################### Entities ########################
// ########################################################

/// One stored event row.
#[derive(PartialEq, Eq, Debug)]
pub struct EventEntity {
    pub decider: String,
    pub decider_id: u128,
    pub event: String,
    pub data: Value,
    pub event_id: u128,
    pub command_id: Option<u128>,
    pub previous_id: Option<u128>,
    pub is_final: bool,
    pub created_at: u64,
    pub offset: u64,
}

/// An event to be appended, before the log assigns its offset.
#[derive(PartialEq, Eq, Debug)]
pub struct NewEventEntity {
    pub decider: String,
    pub decider_id: u128,
    pub event: String,
    pub data: Value,
    pub event_id: u128,
    pub command_id: Option<u128>,
    pub previous_id: Option<u128>,
    pub is_final: bool,
}

/// A registration: this decider family may emit this event variant.
#[derive(PartialEq, Eq, Debug)]
pub struct DeciderEventEntity {
    pub decider: String,
    pub event: String,
}

/// A subscription of one logical consumer of the log.
#[derive(PartialEq, Eq, Debug)]
pub struct ViewEntity {
    pub view: String,
    pub pooling_delay: u64,
    pub start_at: u64,
    pub created_at: u64,
    pub updated_at: u64,
}

/// Per-subscriber, per-stream progress row used as a lease.
#[derive(PartialEq, Eq, Debug)]
pub struct LockEntity {
    pub view: String,
    pub decider_id: u128,
    pub offset: u64,
    pub last_offset: u64,
    pub locked_until: u64,
    pub offset_final: bool,
    pub created_at: u64,
    pub updated_at: u64,
}

/// Model of an [`EventEntity`].
pub struct SpecEventEntity {
    pub decider: Seq<char>,
    pub decider_id: u128,
    pub event: Seq<char>,
    pub data: SpecValue,
    pub event_id: u128,
    pub command_id: Option<u128>,
    pub previous_id: Option<u128>,
    pub is_final: bool,
    pub created_at: u64,
    pub offset: u64,
}

/// Model of a [`NewEventEntity`].
pub struct SpecNewEventEntity {
    pub decider: Seq<char>,
    pub decider_id: u128,
    pub event: Seq<char>,
    pub data: SpecValue,
    pub event_id: u128,
    pub command_id: Option<u128>,
    pub previous_id: Option<u128>,
    pub is_final: bool,
}

/// Model of a [`DeciderEventEntity`].
pub struct SpecDeciderEventEntity {
    pub decider: Seq<char>,
    pub event: Seq<char>,
}

/// Model of a [`ViewEntity`].
pub struct SpecViewEntity {
    pub view: Seq<char>,
    pub pooling_delay: u64,
    pub start_at: u64,
    pub created_at: u64,
    pub updated_at: u64,
}

/// Model of a [`LockEntity`].
pub struct SpecLockEntity {
    pub view: Seq<char>,
    pub decider_id: u128,
    pub offset: u64,
    pub last_offset: u64,
    pub locked_until: u64,
    pub offset_final: bool,
    pub created_at: u64,
    pub updated_at: u64,
}

impl DeepView for EventEntity {
    type V = SpecEventEntity;

    open spec fn deep_view(&self) -> SpecEventEntity {
        SpecEventEntity {
            decider: self.decider@,
            decider_id: self.decider_id,
            event: self.event@,
            data: self.data.deep_view(),
            event_id: self.event_id,
            command_id: self.command_id,
            previous_id: self.previous_id,
            is_final: self.is_final,
            created_at: self.created_at,
            offset: self.offset,
        }
    }
}

impl DeepView for NewEventEntity {
    type V = SpecNewEventEntity;

    open spec fn deep_view(&self) -> SpecNewEventEntity {
        SpecNewEventEntity {
            decider: self.decider@,
            decider_id: self.decider_id,
            event: self.event@,
            data: self.data.deep_view(),
            event_id: self.event_id,
            command_id: self.command_id,
            previous_id: self.previous_id,
            is_final: self.is_final,
        }
    }
}

impl DeepView for DeciderEventEntity {
    type V = SpecDeciderEventEntity;

    open spec fn deep_view(&self) -> SpecDeciderEventEntity {
        SpecDeciderEventEntity { decider: self.decider@, event: self.event@ }
    }
}

impl DeepView for ViewEntity {
    type V = SpecViewEntity;

    open spec fn deep_view(&self) -> SpecViewEntity {
        SpecViewEntity {
            view: self.view@,
            pooling_delay: self.pooling_delay,
            start_at: self.start_at,
            created_at: self.created_at,
            updated_at: self.updated_at,
        }
    }
}

impl DeepView for LockEntity {
    type V = SpecLockEntity;

    open spec fn deep_view(&self) -> SpecLockEntity {
        SpecLockEntity {
            view: self.view@,
            decider_id: self.decider_id,
            offset: self.offset,
            last_offset: self.last_offset,
            locked_until: self.locked_until,
            offset_final: self.offset_final,
            created_at: self.created_at,
            updated_at: self.updated_at,
        }
    }
}

impl Clone for EventEntity {
    fn clone(&self) -> (r: Self)
        ensures
            r.deep_view() == self.deep_view(),
    {
        EventEntity {
            decider: self.decider.clone(),
            decider_id: self.decider_id,
            event: self.event.clone(),
            data: clone_value(&self.data),
            event_id: self.event_id,
            command_id: self.command_id,
            previous_id: self.previous_id,
            is_final: self.is_final,
            created_at: self.created_at,
            offset: self.offset,
        }
    }
}

impl Clone for LockEntity {
    fn clone(&self) -> (r: Self)
        ensures
            r.deep_view() == self.deep_view(),
    {
        LockEntity {
            view: self.view.clone(),
            decider_id: self.decider_id,
            offset: self.offset,
            last_offset: self.last_offset,
            locked_until: self.locked_until,
            offset_final: self.offset_final,
            created_at: self.created_at,
            updated_at: self.updated_at,
        }
    }
}

// ########################################################
// ################### The log's laws #####################
// ########################################################

/// Whether `(decider, event)` is registered.
pub open spec fn spec_registered(
    regs: Seq<SpecDeciderEventEntity>,
    decider: Seq<char>,
    event: Seq<char>,
) -> bool {
    exists|i: int|
        0 <= i < regs.len() && (#[trigger] regs[i]).decider == decider && regs[i].event == event
}

/// The event id of the latest event of the stream `(decider, decider_id)`,
/// or none if the stream is empty.
pub open spec fn spec_latest_event_id(
    evs: Seq<SpecEventEntity>,
    decider: Seq<char>,
    decider_id: u128,
) -> Option<u128>
    decreases evs.len(),
{
    if evs.len() == 0 {
        None
    } else if evs.last().decider == decider && evs.last().decider_id == decider_id {
        Some(evs.last().event_id)
    } else {
        spec_latest_event_id(evs.drop_last(), decider, decider_id)
    }
}

/// Whether the stream `(decider, decider_id)` holds a final event.
pub open spec fn spec_stream_closed(
    evs: Seq<SpecEventEntity>,
    decider: Seq<char>,
    decider_id: u128,
) -> bool {
    exists|i: int|
        0 <= i < evs.len() && (#[trigger] evs[i]).decider == decider && evs[i].decider_id
            == decider_id && evs[i].is_final
}

/// Whether `event_id` appears nowhere in the log.
pub open spec fn spec_id_fresh(evs: Seq<SpecEventEntity>, event_id: u128) -> bool {
    forall|i: int| 0 <= i < evs.len() ==> (#[trigger] evs[i]).event_id != event_id
}

/// The laws of the event sequence itself: gapless offsets starting at one,
/// globally unique event ids, each event chained to the latest earlier event
/// of its stream, every `(decider, event)` pair registered, and nothing
/// after a final event of a stream.
pub open spec fn events_wf(
    evs: Seq<SpecEventEntity>,
    regs: Seq<SpecDeciderEventEntity>,
) -> bool {
    &&& forall|i: int| 0 <= i < evs.len() ==> (#[trigger] evs[i]).offset == i + 1
    &&& forall|i: int, j: int|
        0 <= i < j < evs.len() ==> (#[trigger] evs[i]).event_id != (#[trigger] evs[j]).event_id
    &&& forall|j: int|
        0 <= j < evs.len() ==> (#[trigger] evs[j]).previous_id == spec_latest_event_id(
            evs.take(j),
            evs[j].decider,
            evs[j].decider_id,
        )
    &&& forall|j: int|
        0 <= j < evs.len() ==> spec_registered(
            regs,
            (#[trigger] evs[j]).decider,
            evs[j].event,
        )
    &&& forall|j: int|
        0 <= j < evs.len() ==> !spec_stream_closed(
            evs.take(j),
            (#[trigger] evs[j]).decider,
            evs[j].decider_id,
        )
}

/// Whether a subscription named `view` exists.
pub open spec fn spec_view_registered(views: Seq<SpecViewEntity>, view: Seq<char>) -> bool {
    exists|i: int| 0 <= i < views.len() && (#[trigger] views[i]).view == view
}

/// The index of the lock row for `(view, decider_id)`, or `-1` if none.
pub open spec fn spec_lock_idx(
    locks: Seq<SpecLockEntity>,
    view: Seq<char>,
    decider_id: u128,
) -> int
    decreases locks.len(),
{
    if locks.len() == 0 {
        -1
    } else if locks[0].view == view && locks[0].decider_id == decider_id {
        0
    } else {
        let r = spec_lock_idx(locks.drop_first(), view, decider_id);
        if r == -1 {
            -1
        } else {
            r + 1
        }
    }
}

/// The lock index is in range and names a matching row, and `-1` means
/// that no row matches.
pub proof fn lemma_lock_idx(locks: Seq<SpecLockEntity>, view: Seq<char>, decider_id: u128)
    ensures
        spec_lock_idx(locks, view, decider_id) == -1 ==> forall|i: int|
            0 <= i < locks.len() ==> !((#[trigger] locks[i]).view == view && locks[i].decider_id
                == decider_id),
        spec_lock_idx(locks, view, decider_id) != -1 ==> {
            let k = spec_lock_idx(locks, view, decider_id);
            &&& 0 <= k < locks.len()
            &&& locks[k].view == view
            &&& locks[k].decider_id == decider_id
            &&& forall|m: int|
                0 <= m < k ==> !((#[trigger] locks[m]).view == view && locks[m].decider_id
                    == decider_id)
        },
    decreases locks.len(),
{
    if locks.len() > 0 {
        lemma_lock_idx(locks.drop_first(), view, decider_id);
        assert(forall|i: int|
            1 <= i < locks.len() ==> #[trigger] locks[i] == locks.drop_first()[i - 1]);
    }
}

/// The laws of the lock table: one row per `(view, decider_id)`, each for a
/// registered subscription.
pub open spec fn locks_wf(locks: Seq<SpecLockEntity>, views: Seq<SpecViewEntity>) -> bool {
    &&& forall|i: int, j: int|
        0 <= i < j < locks.len() ==> !((#[trigger] locks[i]).view == (#[trigger] locks[j]).view
            && locks[i].decider_id == locks[j].decider_id)
    &&& forall|i: int|
        0 <= i < locks.len() ==> spec_view_registered(views, (#[trigger] locks[i]).view)
}

/// The laws of the subscription table: names are unique.
pub open spec fn views_wf(views: Seq<SpecViewEntity>) -> bool {
    forall|i: int, j: int|
        0 <= i < j < views.len() ==> (#[trigger] views[i]).view != (#[trigger] views[j]).view
}

// ########################################################
// ###################### The store #######################
// ########################################################

/// The in-memory event log store.
pub struct EventStore {
    /// Registered `(decider, event)` pairs.
    pub deciders: Vec<DeciderEventEntity>,
    /// The append-only log, in offset order.
    pub events: Vec<EventEntity>,
    /// Registered subscriptions.
    pub views: Vec<ViewEntity>,
    /// Lease locks, one row per `(view, decider_id)`.
    pub locks: Vec<LockEntity>,
    /// How long a lease lasts, in the same unit as `now`.
    pub lease_millis: u64,
}

impl EventStore {
    /// All invariants of the store together.
    pub open spec fn wf(&self) -> bool {
        &&& events_wf(self.events.deep_view(), self.deciders.deep_view())
        &&& locks_wf(self.locks.deep_view(), self.views.deep_view())
        &&& views_wf(self.views.deep_view())
    }

    /// An empty store with the given lease duration.
    pub fn new(lease_millis: u64) -> (r: EventStore)
        ensures
            r.wf(),
            r.events.deep_view() == Seq::<SpecEventEntity>::empty(),
            r.deciders.deep_view() == Seq::<SpecDeciderEventEntity>::empty(),
            r.views.deep_view() == Seq::<SpecViewEntity>::empty(),
            r.locks.deep_view() == Seq::<SpecLockEntity>::empty(),
            r.lease_millis == lease_millis,
    {
        let r = EventStore {
            deciders: Vec::new(),
            events: Vec::new(),
            views: Vec::new(),
            locks: Vec::new(),
            lease_millis,
        };
        proof {
            assert(r.events.deep_view() =~= Seq::<SpecEventEntity>::empty());
            assert(r.deciders.deep_view() =~= Seq::<SpecDeciderEventEntity>::empty());
            assert(r.views.deep_view() =~= Seq::<SpecViewEntity>::empty());
            assert(r.locks.deep_view() =~= Seq::<SpecLockEntity>::empty());
        }
        r
    }

    /// Register that `decider` may emit `event`; creating the row is
    /// idempotent.
    #[verifier::loop_isolation(false)]
    pub fn register_decider(&mut self, event: &String, decider: &String)
        requires
            old(self).wf(),
        ensures
            final(self).wf(),
            spec_registered(final(self).deciders.deep_view(), decider@, event@),
            forall|d: Seq<char>, e2: Seq<char>|
                #[trigger] spec_registered(old(self).deciders.deep_view(), d, e2)
                    ==> spec_registered(final(self).deciders.deep_view(), d, e2),
            spec_registered(old(self).deciders.deep_view(), decider@, event@) ==> final(self).deciders.deep_view() == old(self).deciders.deep_view(),
            !spec_registered(old(self).deciders.deep_view(), decider@, event@) ==> final(self).deciders.deep_view() == old(self).deciders.deep_view().push(
                (SpecDeciderEventEntity { decider: decider@, event: event@ }),
            ),
            final(self).events.deep_view() == old(self).events.deep_view(),
            final(self).views.deep_view() == old(self).views.deep_view(),
            final(self).locks.deep_view() == old(self).locks.deep_view(),
            final(self).lease_millis == old(self).lease_millis,
    {
        let mut i: usize = 0;
        while i < self.deciders.len()
            invariant
                i <= self.deciders.len(),
                forall|j: int|
                    0 <= j < i ==> !((#[trigger] self.deciders.deep_view()[j]).decider == decider@
                        && self.deciders.deep_view()[j].event == event@),
                *self == *old(self),
            decreases self.deciders.len() - i,
        {
            let row = &self.deciders[i];
            if str_eq(&row.decider, decider) && str_eq(&row.event, event) {
                proof {
                    assert(self.deciders.deep_view()[i as int].decider == decider@);
                    assert(spec_registered(self.deciders.deep_view(), decider@, event@));
                }
                return ;
            }
            i = i + 1;
        }
        let ghost old_regs = self.deciders.deep_view();
        self.deciders.push(
            DeciderEventEntity { decider: decider.clone(), event: event.clone() },
        );
        proof {
            assert(self.deciders.deep_view() =~= old_regs.push(
                SpecDeciderEventEntity { decider: decider@, event: event@ },
            ));
            let k = self.deciders.deep_view().len() - 1;
            assert((#[trigger] self.deciders.deep_view()[k]).decider == decider@);
            assert(spec_registered(self.deciders.deep_view(), decider@, event@));
            lemma_events_wf_more_regs(
                self.events.deep_view(),
                old_regs,
                self.deciders.deep_view(),
            );
            assert forall|d: Seq<char>, e2: Seq<char>|
                #[trigger] spec_registered(old_regs, d, e2) implies spec_registered(
                self.deciders.deep_view(),
                d,
                e2,
            ) by {
                lemma_registered_prefix(old_regs, self.deciders.deep_view(), d, e2);
            }
        }
    }

    /// Register a subscription named `view`; creating the row is idempotent.
    #[verifier::loop_isolation(false)]
    pub fn register_view(&mut self, view: &String, pooling_delay: u64, now: u64)
        requires
            old(self).wf(),
        ensures
            final(self).wf(),
            spec_view_registered(final(self).views.deep_view(), view@),
            forall|v: Seq<char>|
                #[trigger] spec_view_registered(old(self).views.deep_view(), v)
                    ==> spec_view_registered(final(self).views.deep_view(), v),
            spec_view_registered(old(self).views.deep_view(), view@) ==> final(self).views.deep_view() == old(self).views.deep_view(),
            !spec_view_registered(old(self).views.deep_view(), view@) ==> final(self).views.deep_view() == old(self).views.deep_view().push(
                (SpecViewEntity {
                    view: view@,
                    pooling_delay,
                    start_at: 0,
                    created_at: now,
                    updated_at: now,
                }),
            ),
            final(self).events.deep_view() == old(self).events.deep_view(),
            final(self).deciders.deep_view() == old(self).deciders.deep_view(),
            final(self).locks.deep_view() == old(self).locks.deep_view(),
            final(self).lease_millis == old(self).lease_millis,
    {
        let mut i: usize = 0;
        while i < self.views.len()
            invariant
                i <= self.views.len(),
                forall|j: int| 0 <= j < i ==> (#[trigger] self.views.deep_view()[j]).view != view@,
                *self == *old(self),
            decreases self.views.len() - i,
        {
            if str_eq(&self.views[i].view, view) {
                proof {
                    assert((#[trigger] self.views.deep_view()[i as int]).view == view@);
                    assert(spec_view_registered(self.views.deep_view(), view@));
                }
                return ;
            }
            i = i + 1;
        }
        let ghost old_views = self.views.deep_view();
        self.views.push(
            ViewEntity {
                view: view.clone(),
                pooling_delay,
                start_at: 0,
                created_at: now,
                updated_at: now,
            },
        );
        proof {
            assert(self.views.deep_view() =~= old_views.push(
                SpecViewEntity {
                    view: view@,
                    pooling_delay,
                    start_at: 0,
                    created_at: now,
                    updated_at: now,
                },
            ));
            let k = self.views.deep_view().len() - 1;
            assert((#[trigger] self.views.deep_view()[k]).view == view@);
            assert(spec_view_registered(self.views.deep_view(), view@));
            assert forall|v: Seq<char>|
                #[trigger] spec_view_registered(old_views, v) implies spec_view_registered(
                self.views.deep_view(),
                v,
            ) by {
                let w = choose|x: int|
                    0 <= x < old_views.len() && (#[trigger] old_views[x]).view == v;
                assert((#[trigger] self.views.deep_view()[w]).view == v);
            }
            assert forall|i2: int|
                0 <= i2 < self.locks.deep_view().len() implies spec_view_registered(
                self.views.deep_view(),
                (#[trigger] self.locks.deep_view()[i2]).view,
            ) by {
                assert(spec_view_registered(old_views, self.locks.deep_view()[i2].view));
                let w = choose|x: int|
                    0 <= x < old_views.len() && (#[trigger] old_views[x]).view == self.locks
                        .deep_view()[i2].view;
                assert((#[trigger] self.views.deep_view()[w]).view == self.locks.deep_view()[
                    i2].view);
            }
        }
    }

    /// The events of stream key `decider_id`, in offset order.
    #[verifier::loop_isolation(false)]
    pub fn list_events(&self, decider_id: u128) -> (r: Vec<EventEntity>)
        ensures
            r.deep_view() == spec_events_of_id(self.events.deep_view(), decider_id),
    {
        let ghost goal = spec_events_of_id(self.events.deep_view(), decider_id);
        proof {
            lemma_events_of_id_take(self.events.deep_view(), decider_id);
        }
        let mut out: Vec<EventEntity> = Vec::new();
        let mut i: usize = 0;
        while i < self.events.len()
            invariant
                i <= self.events.len(),
                self.events.deep_view().len() == self.events@.len(),
                out.deep_view() == spec_events_of_id(
                    self.events.deep_view().take(i as int),
                    decider_id,
                ),
            decreases self.events.len() - i,
        {
            let ghost pre = self.events.deep_view().take(i as int);
            let e = &self.events[i];
            proof {
                assert(e.deep_view() == self.events.deep_view()[i as int]);
            }
            let ghost old_out = out.deep_view();
            if e.decider_id == decider_id {
                out.push(e.clone());
                proof {
                    assert(out.deep_view() =~= old_out + seq![
                        self.events.deep_view()[i as int],
                    ]);
                    assert(out.deep_view() == spec_events_of_id(
                        self.events.deep_view().take(i + 1 as int),
                        decider_id,
                    ));
                }
            } else {
                proof {
                    assert(out.deep_view() =~= old_out + Seq::<SpecEventEntity>::empty());
                    assert(out.deep_view() == spec_events_of_id(
                        self.events.deep_view().take(i + 1 as int),
                        decider_id,
                    ));
                }
            }
            i = i + 1;
        }
        proof {
            assert(self.events.deep_view().take(self.events@.len() as int) =~= self.events
                .deep_view());
        }
        out
    }

    /// The latest event of stream key `decider_id`, or none.
    #[verifier::loop_isolation(false)]
    pub fn get_latest_event(&self, decider_id: u128) -> (r: Option<EventEntity>)
        ensures
            match spec_latest_of_id(self.events.deep_view(), decider_id) {
                Some(e) => r matches Some(ev) && ev.deep_view() == e,
                None => r is None,
            },
    {
        let mut i: usize = self.events.len();
        proof {
            assert(self.events.deep_view().take(i as int) =~= self.events.deep_view());
        }
        while i > 0
            invariant
                i <= self.events.len(),
                self.events.deep_view().len() == self.events@.len(),
                spec_latest_of_id(self.events.deep_view(), decider_id) == spec_latest_of_id(
                    self.events.deep_view().take(i as int),
                    decider_id,
                ),
            decreases i,
        {
            let e = &self.events[i - 1];
            proof {
                assert(e.deep_view() == self.events.deep_view()[i - 1]);
                assert(self.events.deep_view().take(i as int).last() == self.events.deep_view()[i
                    - 1]);
                assert(self.events.deep_view().take(i as int).drop_last() =~= self.events
                    .deep_view().take(i - 1));
            }
            if e.decider_id == decider_id {
                return Some(e.clone());
            }
            i = i - 1;
        }
        proof {
            assert(self.events.deep_view().take(0) =~= Seq::<SpecEventEntity>::empty());
        }
        None
    }
}

// ########################################################
// #################### Appending #########################
// ########################################################

/// The stored form of a new event, once the log assigns its offset.
pub open spec fn spec_stored(b: SpecNewEventEntity, offset: u64, now: u64) -> SpecEventEntity {
    SpecEventEntity {
        decider: b.decider,
        decider_id: b.decider_id,
        event: b.event,
        data: b.data,
        event_id: b.event_id,
        command_id: b.command_id,
        previous_id: b.previous_id,
        is_final: b.is_final,
        created_at: now,
        offset,
    }
}

/// The rows a batch turns into when appended after `evs_len` events.
pub open spec fn spec_appended(
    evs_len: int,
    batch: Seq<SpecNewEventEntity>,
    now: u64,
) -> Seq<SpecEventEntity> {
    Seq::new(batch.len(), |i: int| spec_stored(batch[i], (evs_len + i + 1) as u64, now))
}

/// Why a batch is rejected against a log, or nothing if it is accepted.
/// Events are judged in order, each against the log extended by those
/// before it in the batch.
pub open spec fn spec_append_verdict(
    evs: Seq<SpecEventEntity>,
    regs: Seq<SpecDeciderEventEntity>,
    batch: Seq<SpecNewEventEntity>,
    now: u64,
) -> Option<AppendError>
    decreases batch.len(),
{
    if batch.len() == 0 {
        None
    } else {
        let b = batch[0];
        if !spec_registered(regs, b.decider, b.event) {
            Some(AppendError::UnregisteredEvent)
        } else if spec_stream_closed(evs, b.decider, b.decider_id) {
            Some(AppendError::StreamClosed)
        } else if b.previous_id != spec_latest_event_id(evs, b.decider, b.decider_id) {
            Some(AppendError::VersionConflict)
        } else if !spec_id_fresh(evs, b.event_id) {
            Some(AppendError::DuplicateEventId)
        } else {
            spec_append_verdict(
                evs.push(spec_stored(b, (evs.len() + 1) as u64, now)),
                regs,
                batch.drop_first(),
                now,
            )
        }
    }
}

/// Extending the appended prefix by one more batch element.
proof fn lemma_appended_take_step(
    old_evs: Seq<SpecEventEntity>,
    old_len: int,
    sb: Seq<SpecNewEventEntity>,
    i: int,
    now: u64,
)
    requires
        0 <= i < sb.len(),
        old_evs.len() == old_len,
    ensures
        old_evs + spec_appended(old_len, sb.take(i + 1), now) == (old_evs + spec_appended(
            old_len,
            sb.take(i),
            now,
        )).push(spec_stored(sb[i], (old_len + i + 1) as u64, now)),
{
    assert(old_evs + spec_appended(old_len, sb.take(i + 1), now) =~= (old_evs + spec_appended(
        old_len,
        sb.take(i),
        now,
    )).push(spec_stored(sb[i], (old_len + i + 1) as u64, now)));
}

/// One accepted batch element moves the verdict one step forward.
proof fn lemma_verdict_unfold_pass(
    cur: Seq<SpecEventEntity>,
    regs: Seq<SpecDeciderEventEntity>,
    rest: Seq<SpecNewEventEntity>,
    now: u64,
)
    requires
        rest.len() > 0,
        spec_registered(regs, rest[0].decider, rest[0].event),
        !spec_stream_closed(cur, rest[0].decider, rest[0].decider_id),
        rest[0].previous_id == spec_latest_event_id(cur, rest[0].decider, rest[0].decider_id),
        spec_id_fresh(cur, rest[0].event_id),
    ensures
        spec_append_verdict(cur, regs, rest, now) == spec_append_verdict(
            cur.push(spec_stored(rest[0], (cur.len() + 1) as u64, now)),
            regs,
            rest.drop_first(),
            now,
        ),
{
}

/// Appending one event that passes every check keeps the event laws.
pub proof fn lemma_events_wf_push(
    evs: Seq<SpecEventEntity>,
    regs: Seq<SpecDeciderEventEntity>,
    e: SpecEventEntity,
)
    requires
        events_wf(evs, regs),
        e.offset == evs.len() + 1,
        spec_id_fresh(evs, e.event_id),
        e.previous_id == spec_latest_event_id(evs, e.decider, e.decider_id),
        spec_registered(regs, e.decider, e.event),
        !spec_stream_closed(evs, e.decider, e.decider_id),
    ensures
        events_wf(evs.push(e), regs),
{
    let evs2 = evs.push(e);
    assert forall|j: int| 0 <= j < evs2.len() implies (#[trigger] evs2[j]).previous_id
        == spec_latest_event_id(evs2.take(j), evs2[j].decider, evs2[j].decider_id) by {
        if j < evs.len() {
            assert(evs2.take(j) =~= evs.take(j));
            assert(evs2[j] == evs[j]);
        } else {
            assert(evs2.take(j) =~= evs);
        }
    }
    assert forall|j: int| 0 <= j < evs2.len() implies !spec_stream_closed(
        evs2.take(j),
        (#[trigger] evs2[j]).decider,
        evs2[j].decider_id,
    ) by {
        if j < evs.len() {
            assert(evs2.take(j) =~= evs.take(j));
            assert(evs2[j] == evs[j]);
        } else {
            assert(evs2.take(j) =~= evs);
        }
    }
}

impl EventStore {
    fn is_registered(&self, decider: &String, event: &String) -> (r: bool)
        ensures
            r == spec_registered(self.deciders.deep_view(), decider@, event@),
    {
        let mut i: usize = 0;
        while i < self.deciders.len()
            invariant
                i <= self.deciders.len(),
                forall|j: int|
                    0 <= j < i ==> !((#[trigger] self.deciders.deep_view()[j]).decider == decider@
                        && self.deciders.deep_view()[j].event == event@),
            decreases self.deciders.len() - i,
        {
            let row = &self.deciders[i];
            if str_eq(&row.decider, decider) && str_eq(&row.event, event) {
                proof {
                    assert((#[trigger] self.deciders.deep_view()[i as int]).decider == decider@
                        && self.deciders.deep_view()[i as int].event == event@);
                }
                return true;
            }
            i = i + 1;
        }
        false
    }

    fn stream_closed_now(&self, decider: &String, decider_id: u128) -> (r: bool)
        ensures
            r == spec_stream_closed(self.events.deep_view(), decider@, decider_id),
    {
        let mut i: usize = 0;
        while i < self.events.len()
            invariant
                i <= self.events.len(),
                forall|j: int|
                    0 <= j < i ==> !((#[trigger] self.events.deep_view()[j]).decider == decider@
                        && self.events.deep_view()[j].decider_id == decider_id && self.events
                        .deep_view()[j].is_final),
            decreases self.events.len() - i,
        {
            let e = &self.events[i];
            if e.is_final && e.decider_id == decider_id && str_eq(&e.decider, decider) {
                proof {
                    assert((#[trigger] self.events.deep_view()[i as int]).decider == decider@
                        && self.events.deep_view()[i as int].decider_id == decider_id
                        && self.events.deep_view()[i as int].is_final);
                }
                return true;
            }
            i = i + 1;
        }
        false
    }

    fn latest_id_now(&self, decider: &String, decider_id: u128) -> (r: Option<u128>)
        ensures
            r == spec_latest_event_id(self.events.deep_view(), decider@, decider_id),
    {
        let ghost evs = self.events.deep_view();
        let mut i: usize = self.events.len();
        proof {
            assert(evs.take(i as int) =~= evs);
        }
        while i > 0
            invariant
                i <= self.events.len(),
                evs == self.events.deep_view(),
                evs.len() == self.events@.len(),
                spec_latest_event_id(evs, decider@, decider_id) == spec_latest_event_id(
                    evs.take(i as int),
                    decider@,
                    decider_id,
                ),
            decreases i,
        {
            let e = &self.events[i - 1];
            proof {
                assert(e.deep_view() == evs[i - 1]);
                assert(evs.take(i as int).last() == evs[i - 1]);
                assert(evs.take(i as int).drop_last() =~= evs.take(i - 1));
            }
            if e.decider_id == decider_id && str_eq(&e.decider, decider) {
                return Some(e.event_id);
            }
            i = i - 1;
        }
        proof {
            assert(evs.take(0) =~= Seq::<SpecEventEntity>::empty());
        }
        None
    }

    fn id_fresh_now(&self, event_id: u128) -> (r: bool)
        ensures
            r == spec_id_fresh(self.events.deep_view(), event_id),
    {
        let mut i: usize = 0;
        while i < self.events.len()
            invariant
                i <= self.events.len(),
                forall|j: int|
                    0 <= j < i ==> (#[trigger] self.events.deep_view()[j]).event_id != event_id,
            decreases self.events.len() - i,
        {
            if self.events[i].event_id == event_id {
                proof {
                    assert((#[trigger] self.events.deep_view()[i as int]).event_id == event_id);
                }
                return false;
            }
            i = i + 1;
        }
        true
    }

    /// Append a batch of events atomically: either every event is written,
    /// in order, with gapless offsets, or nothing is and the verdict says
    /// why. A batch whose `previous_id` does not name the latest event of
    /// its stream loses the optimistic-concurrency race.
    #[verifier::loop_isolation(false)]
    #[verifier::rlimit(100)]
    pub fn append_events(&mut self, batch: &Vec<NewEventEntity>, now: u64) -> (r: Result<
        (),
        AppendError,
    >)
        requires
            old(self).wf(),
            old(self).events@.len() + batch@.len() < u64::MAX,
        ensures
            final(self).wf(),
            final(self).deciders == old(self).deciders,
            final(self).views == old(self).views,
            final(self).locks == old(self).locks,
            final(self).lease_millis == old(self).lease_millis,
            (r matches Ok(())) <==> spec_append_verdict(
                old(self).events.deep_view(),
                old(self).deciders.deep_view(),
                batch.deep_view(),
                now,
            ) is None,
            r matches Err(e) ==> Some(e) == spec_append_verdict(
                old(self).events.deep_view(),
                old(self).deciders.deep_view(),
                batch.deep_view(),
                now,
            ),
            r is Ok ==> final(self).events.deep_view() == old(self).events.deep_view()
                + spec_appended(old(self).events@.len() as int, batch.deep_view(), now),
            r is Err ==> final(self).events@ == old(self).events@,
    {
        let old_len: usize = self.events.len();
        let ghost old_evs = self.events.deep_view();
        let ghost regs = self.deciders.deep_view();
        let ghost sb = batch.deep_view();
        proof {
            lemma_vec_deep_view_entity(batch);
            assert(sb.skip(0) =~= sb);
            assert(self.events.deep_view() =~= old_evs + spec_appended(
                old_len as int,
                sb.take(0),
                now,
            ));
            assert(self.events@.subrange(0, old_len as int) =~= old(self).events@);
        }
        let mut i: usize = 0;
        while i < batch.len()
            invariant
                i <= batch.len(),
                self.deciders == old(self).deciders,
                self.views == old(self).views,
                self.locks == old(self).locks,
                self.lease_millis == old(self).lease_millis,
                self.events@.len() == old_len + i,
                self.events@.subrange(0, old_len as int) == old(self).events@,
                self.events.deep_view() == old_evs + spec_appended(
                    old_len as int,
                    sb.take(i as int),
                    now,
                ),
                events_wf(self.events.deep_view(), regs),
                spec_append_verdict(old_evs, regs, sb, now) == spec_append_verdict(
                    self.events.deep_view(),
                    regs,
                    sb.skip(i as int),
                    now,
                ),
            decreases batch.len() - i,
        {
            let b = &batch[i];
            let ghost cur = self.events.deep_view();
            proof {
                assert(b.deep_view() == sb[i as int]);
                assert(sb.skip(i as int)[0] == sb[i as int]);
                assert(sb.skip(i as int).drop_first() =~= sb.skip(i + 1));
            }
            if !self.is_registered(&b.decider, &b.event) {
                self.rollback(old_len);
                proof {
                    assert(self.events@ =~= old(self).events@);
                    lemma_vec_deep_eq(self.events, old(self).events);
                }
                return Err(AppendError::UnregisteredEvent);
            }
            if self.stream_closed_now(&b.decider, b.decider_id) {
                self.rollback(old_len);
                proof {
                    assert(self.events@ =~= old(self).events@);
                    lemma_vec_deep_eq(self.events, old(self).events);
                }
                return Err(AppendError::StreamClosed);
            }
            let latest = self.latest_id_now(&b.decider, b.decider_id);
            if !opt_id_eq(&b.previous_id, &latest) {
                self.rollback(old_len);
                proof {
                    assert(self.events@ =~= old(self).events@);
                    lemma_vec_deep_eq(self.events, old(self).events);
                }
                return Err(AppendError::VersionConflict);
            }
            if !self.id_fresh_now(b.event_id) {
                self.rollback(old_len);
                proof {
                    assert(self.events@ =~= old(self).events@);
                    lemma_vec_deep_eq(self.events, old(self).events);
                }
                return Err(AppendError::DuplicateEventId);
            }
            let offset: u64 = (old_len as u64) + (i as u64) + 1;
            let e = EventEntity {
                decider: b.decider.clone(),
                decider_id: b.decider_id,
                event: b.event.clone(),
                data: clone_value(&b.data),
                event_id: b.event_id,
                command_id: b.command_id,
                previous_id: b.previous_id,
                is_final: b.is_final,
                created_at: now,
                offset,
            };
            proof {
                assert(e.deep_view() == spec_stored(sb[i as int], offset, now));
                lemma_events_wf_push(cur, regs, e.deep_view());
                lemma_verdict_unfold_pass(cur, regs, sb.skip(i as int), now);
                lemma_appended_take_step(old_evs, old_len as int, sb, i as int, now);
            }
            self.events.push(e);
            proof {
                assert(self.events.deep_view() =~= cur.push(
                    spec_stored(sb[i as int], offset, now),
                ));
                assert(self.events@.subrange(0, old_len as int) =~= old(self).events@);
            }
            i = i + 1;
        }
        proof {
            assert(sb.take(sb.len() as int) =~= sb);
            assert(sb.skip(sb.len() as int).len() == 0);
        }
        Ok(())
    }

    /// Drop every event after the first `old_len`, undoing a failed batch.
    #[verifier::loop_isolation(false)]
    fn rollback(&mut self, old_len: usize)
        requires
            old_len <= old(self).events@.len(),
        ensures
            final(self).events@ == old(self).events@.subrange(0, old_len as int),
            final(self).deciders == old(self).deciders,
            final(self).views == old(self).views,
            final(self).locks == old(self).locks,
            final(self).lease_millis == old(self).lease_millis,
    {
        let ghost orig = self.events@;
        while self.events.len() > old_len
            invariant
                old_len <= self.events@.len(),
                self.events@.len() <= orig.len(),
                self.events@ == orig.subrange(0, self.events@.len() as int),
                self.deciders == old(self).deciders,
                self.views == old(self).views,
                self.locks == old(self).locks,
                self.lease_millis == old(self).lease_millis,
            decreases self.events.len(),
        {
            let ghost pre = self.events@;
            let ghost n = self.events@.len() as int;
            self.events.pop();
            proof {
                assert(pre.len() == n);
                assert(self.events@ =~= pre.drop_last());
                assert forall|k: int| 0 <= k < n - 1 implies pre.drop_last()[k] == orig.subrange(
                    0,
                    n - 1,
                )[k] by {
                    assert(pre[k] == orig.subrange(0, n)[k]);
                }
                assert(pre.drop_last() =~= orig.subrange(0, n - 1));
            }
        }
    }
}

/// Vectors with the same rows have the same model.
proof fn lemma_vec_deep_eq(a: Vec<EventEntity>, b: Vec<EventEntity>)
    requires
        a@ == b@,
    ensures
        a.deep_view() == b.deep_view(),
{
    assert forall|k: int| 0 <= k < a@.len() implies a.deep_view()[k] == b.deep_view()[k] by {
        assert(a@[k] == b@[k]);
    }
    assert(a.deep_view() =~= b.deep_view());
}

/// The model of a vector of new events is pointwise.
pub proof fn lemma_vec_deep_view_entity(v: &Vec<NewEventEntity>)
    ensures
        v.deep_view().len() == v@.len(),
        forall|i: int| 0 <= i < v@.len() ==> #[trigger] v.deep_view()[i] == v@[i].deep_view(),
{
}

/// Whether two optional ids hold the same value.
pub fn opt_id_eq(a: &Option<u128>, b: &Option<u128>) -> (r: bool)
    ensures
        r == (a == b),
{
    match (a, b) {
        (Some(x), Some(y)) => *x == *y,
        (None, None) => true,
        _ => false,
    }
}

// ########################################################
// ############ Leases and pull-based dispatch ############
// ########################################################

/// The index of the subscription named `view`, or `-1` if none.
pub open spec fn spec_view_idx(views: Seq<SpecViewEntity>, view: Seq<char>) -> int
    decreases views.len(),
{
    if views.len() == 0 {
        -1
    } else if views[0].view == view {
        0
    } else {
        let r = spec_view_idx(views.drop_first(), view);
        if r == -1 {
            -1
        } else {
            r + 1
        }
    }
}

/// The view index is in range and names a matching row, and `-1` means
/// that no row matches.
pub proof fn lemma_view_idx(views: Seq<SpecViewEntity>, view: Seq<char>)
    ensures
        spec_view_idx(views, view) == -1 ==> forall|i: int|
            0 <= i < views.len() ==> (#[trigger] views[i]).view != view,
        spec_view_idx(views, view) != -1 ==> {
            let k = spec_view_idx(views, view);
            &&& 0 <= k < views.len()
            &&& views[k].view == view
            &&& forall|m: int| 0 <= m < k ==> (#[trigger] views[m]).view != view
        },
    decreases views.len(),
{
    if views.len() > 0 {
        lemma_view_idx(views.drop_first(), view);
        assert(forall|i: int|
            1 <= i < views.len() ==> #[trigger] views[i] == views.drop_first()[i - 1]);
    }
}

/// Where the subscriber starts reading a fresh stream: the subscription's
/// `start_at`, or zero if the subscription does not exist.
pub open spec fn spec_sub_start(views: Seq<SpecViewEntity>, view: Seq<char>) -> u64 {
    let k = spec_view_idx(views, view);
    if k == -1 {
        0
    } else {
        views[k].start_at
    }
}

/// The last offset the subscriber acknowledged for this stream key, or the
/// subscription's start if no lock row exists yet.
pub open spec fn spec_last_offset(
    locks: Seq<SpecLockEntity>,
    views: Seq<SpecViewEntity>,
    view: Seq<char>,
    decider_id: u128,
) -> u64 {
    let k = spec_lock_idx(locks, view, decider_id);
    if k == -1 {
        spec_sub_start(views, view)
    } else {
        locks[k].last_offset
    }
}

/// Whether another worker's lease on this stream key is still active.
pub open spec fn spec_lease_active(
    locks: Seq<SpecLockEntity>,
    view: Seq<char>,
    decider_id: u128,
    now: u64,
) -> bool {
    let k = spec_lock_idx(locks, view, decider_id);
    k != -1 && locks[k].locked_until > now
}

/// Whether the event at index `j` may be served to the subscriber now:
/// it lies beyond the acknowledged position of its stream, no lease blocks
/// the stream, and every earlier event of the stream is acknowledged.
pub open spec fn spec_eligible(
    evs: Seq<SpecEventEntity>,
    locks: Seq<SpecLockEntity>,
    views: Seq<SpecViewEntity>,
    view: Seq<char>,
    now: u64,
    j: int,
) -> bool {
    &&& 0 <= j < evs.len()
    &&& evs[j].offset > spec_last_offset(locks, views, view, evs[j].decider_id)
    &&& !spec_lease_active(locks, view, evs[j].decider_id, now)
    &&& forall|k: int|
        0 <= k < j && (#[trigger] evs[k]).decider_id == evs[j].decider_id ==> evs[k].offset
            <= spec_last_offset(locks, views, view, evs[j].decider_id)
}

/// Delivery and lease recovery: whenever no active lease blocks a stream,
/// its first unacknowledged event is eligible, so `stream_events` must
/// serve it (or an earlier eligible one) rather than return nothing. In
/// particular a crashed worker only delays a stream until its lease has
/// run out.
pub proof fn lemma_lease_recovery(
    evs: Seq<SpecEventEntity>,
    locks: Seq<SpecLockEntity>,
    views: Seq<SpecViewEntity>,
    view: Seq<char>,
    now: u64,
    j: int,
)
    requires
        0 <= j < evs.len(),
        !spec_lease_active(locks, view, evs[j].decider_id, now),
        evs[j].offset > spec_last_offset(locks, views, view, evs[j].decider_id),
        forall|k: int|
            0 <= k < j && (#[trigger] evs[k]).decider_id == evs[j].decider_id ==> evs[k].offset
                <= spec_last_offset(locks, views, view, evs[j].decider_id),
    ensures
        spec_eligible(evs, locks, views, view, now, j),
{
}

impl EventStore {
    fn view_registered_now(&self, view: &String) -> (r: bool)
        ensures
            r == spec_view_registered(self.views.deep_view(), view@),
    {
        let mut i: usize = 0;
        while i < self.views.len()
            invariant
                i <= self.views.len(),
                forall|j: int| 0 <= j < i ==> (#[trigger] self.views.deep_view()[j]).view != view@,
            decreases self.views.len() - i,
        {
            if str_eq(&self.views[i].view, view) {
                proof {
                    assert((#[trigger] self.views.deep_view()[i as int]).view == view@);
                }
                return true;
            }
            i = i + 1;
        }
        false
    }

    fn sub_start_now(&self, view: &String) -> (r: u64)
        ensures
            r == spec_sub_start(self.views.deep_view(), view@),
    {
        proof {
            lemma_view_idx(self.views.deep_view(), view@);
        }
        let mut i: usize = 0;
        while i < self.views.len()
            invariant
                i <= self.views.len(),
                forall|j: int| 0 <= j < i ==> (#[trigger] self.views.deep_view()[j]).view != view@,
            decreases self.views.len() - i,
        {
            if str_eq(&self.views[i].view, view) {
                proof {
                    lemma_view_idx(self.views.deep_view(), view@);
                    let k = spec_view_idx(self.views.deep_view(), view@);
                    assert((#[trigger] self.views.deep_view()[i as int]).view == view@);
                    assert(k != -1);
                    if k < i as int {
                        assert((#[trigger] self.views.deep_view()[k]).view == view@);
                        assert(false);
                    }
                    if k > i as int {
                        assert((#[trigger] self.views.deep_view()[i as int]).view != view@);
                        assert(false);
                    }
                }
                return self.views[i].start_at;
            }
            i = i + 1;
        }
        proof {
            lemma_view_idx(self.views.deep_view(), view@);
            if spec_view_idx(self.views.deep_view(), view@) != -1 {
                let k = spec_view_idx(self.views.deep_view(), view@);
                assert((#[trigger] self.views.deep_view()[k]).view == view@);
                assert(false);
            }
        }
        0
    }

    fn lock_idx_now(&self, view: &String, decider_id: u128) -> (r: Option<usize>)
        ensures
            match r {
                Some(k) => k as int == spec_lock_idx(self.locks.deep_view(), view@, decider_id),
                None => spec_lock_idx(self.locks.deep_view(), view@, decider_id) == -1,
            },
    {
        proof {
            lemma_lock_idx(self.locks.deep_view(), view@, decider_id);
        }
        let mut i: usize = 0;
        while i < self.locks.len()
            invariant
                i <= self.locks.len(),
                forall|j: int|
                    0 <= j < i ==> !((#[trigger] self.locks.deep_view()[j]).view == view@
                        && self.locks.deep_view()[j].decider_id == decider_id),
            decreases self.locks.len() - i,
        {
            let row = &self.locks[i];
            if row.decider_id == decider_id && str_eq(&row.view, view) {
                proof {
                    lemma_lock_idx(self.locks.deep_view(), view@, decider_id);
                    let k = spec_lock_idx(self.locks.deep_view(), view@, decider_id);
                    assert((#[trigger] self.locks.deep_view()[i as int]).view == view@
                        && self.locks.deep_view()[i as int].decider_id == decider_id);
                    assert(k != -1);
                    if k < i as int {
                        assert((#[trigger] self.locks.deep_view()[k]).view == view@
                            && self.locks.deep_view()[k].decider_id == decider_id);
                        assert(false);
                    }
                    if k > i as int {
                        assert(!((#[trigger] self.locks.deep_view()[i as int]).view == view@
                            && self.locks.deep_view()[i as int].decider_id == decider_id));
                        assert(false);
                    }
                }
                return Some(i);
            }
            i = i + 1;
        }
        proof {
            lemma_lock_idx(self.locks.deep_view(), view@, decider_id);
            if spec_lock_idx(self.locks.deep_view(), view@, decider_id) != -1 {
                let k = spec_lock_idx(self.locks.deep_view(), view@, decider_id);
                assert((#[trigger] self.locks.deep_view()[k]).view == view@
                    && self.locks.deep_view()[k].decider_id == decider_id);
                assert(false);
            }
        }
        None
    }

    fn last_offset_now(&self, view: &String, decider_id: u128) -> (r: u64)
        ensures
            r == spec_last_offset(self.locks.deep_view(), self.views.deep_view(), view@,
            decider_id),
    {
        match self.lock_idx_now(view, decider_id) {
            Some(k) => {
                proof {
                    lemma_lock_idx(self.locks.deep_view(), view@, decider_id);
                }
                self.locks[k].last_offset
            },
            None => self.sub_start_now(view),
        }
    }

    fn lease_active_now(&self, view: &String, decider_id: u128, now: u64) -> (r: bool)
        ensures
            r == spec_lease_active(self.locks.deep_view(), view@, decider_id, now),
    {
        match self.lock_idx_now(view, decider_id) {
            Some(k) => {
                proof {
                    lemma_lock_idx(self.locks.deep_view(), view@, decider_id);
                }
                self.locks[k].locked_until > now
            },
            None => false,
        }
    }

    fn earlier_pending(&self, j: usize, decider_id: u128, last: u64) -> (r: bool)
        requires
            j <= self.events@.len(),
        ensures
            r == exists|k: int|
                0 <= k < j && (#[trigger] self.events.deep_view()[k]).decider_id == decider_id
                    && self.events.deep_view()[k].offset > last,
    {
        let mut k: usize = 0;
        while k < j
            invariant
                k <= j,
                j <= self.events@.len(),
                forall|m: int|
                    0 <= m < k ==> !((#[trigger] self.events.deep_view()[m]).decider_id
                        == decider_id && self.events.deep_view()[m].offset > last),
            decreases j - k,
        {
            let e = &self.events[k];
            if e.decider_id == decider_id && e.offset > last {
                proof {
                    assert((#[trigger] self.events.deep_view()[k as int]).decider_id == decider_id
                        && self.events.deep_view()[k as int].offset > last);
                }
                return true;
            }
            k = k + 1;
        }
        false
    }

    /// Serve the next event for this subscriber, if any is eligible, and
    /// take or refresh the lease on its stream until `now` plus the lease
    /// duration. Events of one stream come strictly in offset order; an
    /// active lease held on a stream blocks it until the lease runs out.
    #[verifier::loop_isolation(false)]
    #[verifier::rlimit(100)]
    pub fn stream_events(&mut self, view: &String, now: u64) -> (r: Option<EventEntity>)
        requires
            old(self).wf(),
            now + old(self).lease_millis <= u64::MAX,
        ensures
            final(self).wf(),
            final(self).events == old(self).events,
            final(self).deciders == old(self).deciders,
            final(self).views == old(self).views,
            final(self).lease_millis == old(self).lease_millis,
            !spec_view_registered(old(self).views.deep_view(), view@) ==> r is None,
            r is None ==> final(self).locks == old(self).locks,
            r is None ==> spec_view_registered(old(self).views.deep_view(), view@) ==> forall|
                j: int,
            |
                !spec_eligible(
                    old(self).events.deep_view(),
                    old(self).locks.deep_view(),
                    old(self).views.deep_view(),
                    view@,
                    now,
                    j,
                ),
            r matches Some(e) ==> exists|j: int|
                {
                    &&& #[trigger] spec_eligible(
                        old(self).events.deep_view(),
                        old(self).locks.deep_view(),
                        old(self).views.deep_view(),
                        view@,
                        now,
                        j,
                    )
                    &&& e.deep_view() == old(self).events.deep_view()[j]
                    &&& forall|k: int|
                        0 <= k < j ==> !spec_eligible(
                            old(self).events.deep_view(),
                            old(self).locks.deep_view(),
                            old(self).views.deep_view(),
                            view@,
                            now,
                            k,
                        )
                },
            r matches Some(e) ==> ({
                let locks0 = old(self).locks.deep_view();
                let k = spec_lock_idx(locks0, view@, e.decider_id);
                if k == -1 {
                    final(self).locks.deep_view() == locks0.push(
                        (SpecLockEntity {
                            view: view@,
                            decider_id: e.decider_id,
                            offset: e.offset,
                            last_offset: spec_sub_start(old(self).views.deep_view(), view@),
                            locked_until: (now + old(self).lease_millis) as u64,
                            offset_final: e.is_final,
                            created_at: now,
                            updated_at: now,
                        }),
                    )
                } else {
                    final(self).locks.deep_view() == locks0.update(
                        k,
                        (SpecLockEntity {
                            view: view@,
                            decider_id: e.decider_id,
                            offset: e.offset,
                            last_offset: locks0[k].last_offset,
                            locked_until: (now + old(self).lease_millis) as u64,
                            offset_final: e.is_final,
                            created_at: locks0[k].created_at,
                            updated_at: now,
                        }),
                    )
                }
            }),
    {
        if !self.view_registered_now(view) {
            return None;
        }
        let ghost evs = self.events.deep_view();
        let ghost locks0 = self.locks.deep_view();
        let ghost views0 = self.views.deep_view();
        let mut j: usize = 0;
        while j < self.events.len()
            invariant
                j <= self.events@.len(),
                *self == *old(self),
                forall|k: int| 0 <= k < j ==> !spec_eligible(evs, locks0, views0, view@, now, k),
            decreases self.events.len() - j,
        {
            let decider_id: u128 = self.events[j].decider_id;
            let last: u64 = self.last_offset_now(view, decider_id);
            let blocked: bool = self.lease_active_now(view, decider_id, now);
            let pending_before: bool = self.earlier_pending(j, decider_id, last);
            let serve: bool = self.events[j].offset > last && !blocked && !pending_before;
            if serve {
                let e = self.events[j].clone();
                proof {
                    assert(e.deep_view() == evs[j as int]);
                    assert(spec_eligible(evs, locks0, views0, view@, now, j as int));
                }
                let locked_until: u64 = now + self.lease_millis;
                match self.lock_idx_now(view, decider_id) {
                    Some(k) => {
                        proof {
                            lemma_lock_idx(locks0, view@, decider_id);
                        }
                        let row = LockEntity {
                            view: view.clone(),
                            decider_id,
                            offset: e.offset,
                            last_offset: self.locks[k].last_offset,
                            locked_until,
                            offset_final: e.is_final,
                            created_at: self.locks[k].created_at,
                            updated_at: now,
                        };
                        self.locks.set(k, row);
                        proof {
                            assert forall|m: int|
                                0 <= m < self.locks.deep_view().len() implies #[trigger] self
                                .locks.deep_view()[m] == locks0.update(
                                k as int,
                                (SpecLockEntity {
                                    view: view@,
                                    decider_id,
                                    offset: e.deep_view().offset,
                                    last_offset: locks0[k as int].last_offset,
                                    locked_until,
                                    offset_final: e.deep_view().is_final,
                                    created_at: locks0[k as int].created_at,
                                    updated_at: now,
                                }),
                            )[m] by {
                                assert(self.locks@[m] == if m == k as int {
                                    row
                                } else {
                                    old(self).locks@[m]
                                });
                            }
                            assert(self.locks.deep_view() =~= locks0.update(
                                k as int,
                                (SpecLockEntity {
                                    view: view@,
                                    decider_id,
                                    offset: e.deep_view().offset,
                                    last_offset: locks0[k as int].last_offset,
                                    locked_until,
                                    offset_final: e.deep_view().is_final,
                                    created_at: locks0[k as int].created_at,
                                    updated_at: now,
                                }),
                            ));
                        }
                    },
                    None => {
                        let start: u64 = self.sub_start_now(view);
                        let row = LockEntity {
                            view: view.clone(),
                            decider_id,
                            offset: e.offset,
                            last_offset: start,
                            locked_until,
                            offset_final: e.is_final,
                            created_at: now,
                            updated_at: now,
                        };
                        self.locks.push(row);
                        proof {
                            lemma_lock_idx(locks0, view@, decider_id);
                            assert(self.locks.deep_view() =~= locks0.push(
                                (SpecLockEntity {
                                    view: view@,
                                    decider_id,
                                    offset: e.deep_view().offset,
                                    last_offset: start,
                                    locked_until,
                                    offset_final: e.deep_view().is_final,
                                    created_at: now,
                                    updated_at: now,
                                }),
                            ));
                        }
                    },
                }
                proof {
                    lemma_locks_wf_after(locks0, self.locks.deep_view(), views0, view@);
                }
                return Some(e);
            }
            j = j + 1;
        }
        None
    }

    /// Acknowledge the event at `offset`: advance the stream's acknowledged
    /// position and release the lease. Fails when no lock row exists.
    #[verifier::loop_isolation(false)]
    pub fn ack_event(&mut self, offset: u64, view: &String, decider_id: u128, now: u64) -> (r:
        Result<LockEntity, AckError>)
        requires
            old(self).wf(),
        ensures
            final(self).wf(),
            final(self).events == old(self).events,
            final(self).deciders == old(self).deciders,
            final(self).views == old(self).views,
            final(self).lease_millis == old(self).lease_millis,
            ({
                let k = spec_lock_idx(old(self).locks.deep_view(), view@, decider_id);
                if k == -1 {
                    r == Err::<LockEntity, AckError>(AckError::LeaseMissing) && final(self).locks
                        == old(self).locks
                } else {
                    let updated = (SpecLockEntity {
                        view: view@,
                        decider_id,
                        offset: old(self).locks.deep_view()[k].offset,
                        last_offset: offset,
                        locked_until: now,
                        offset_final: old(self).locks.deep_view()[k].offset_final,
                        created_at: old(self).locks.deep_view()[k].created_at,
                        updated_at: now,
                    });
                    &&& r matches Ok(row) && row.deep_view() == updated
                    &&& final(self).locks.deep_view() == old(self).locks.deep_view().update(
                        k,
                        updated,
                    )
                }
            }),
    {
        let ghost locks0 = self.locks.deep_view();
        match self.lock_idx_now(view, decider_id) {
            Some(k) => {
                proof {
                    lemma_lock_idx(locks0, view@, decider_id);
                }
                let row = LockEntity {
                    view: view.clone(),
                    decider_id,
                    offset: self.locks[k].offset,
                    last_offset: offset,
                    locked_until: now,
                    offset_final: self.locks[k].offset_final,
                    created_at: self.locks[k].created_at,
                    updated_at: now,
                };
                let out = row.clone();
                self.locks.set(k, row);
                proof {
                    assert forall|m: int|
                        0 <= m < self.locks.deep_view().len() implies #[trigger] self.locks
                        .deep_view()[m] == locks0.update(
                        k as int,
                        (SpecLockEntity {
                            view: view@,
                            decider_id,
                            offset: locks0[k as int].offset,
                            last_offset: offset,
                            locked_until: now,
                            offset_final: locks0[k as int].offset_final,
                            created_at: locks0[k as int].created_at,
                            updated_at: now,
                        }),
                    )[m] by {
                        assert(self.locks@[m] == if m == k as int {
                            row
                        } else {
                            old(self).locks@[m]
                        });
                    }
                    assert(self.locks.deep_view() =~= locks0.update(
                        k as int,
                        (SpecLockEntity {
                            view: view@,
                            decider_id,
                            offset: locks0[k as int].offset,
                            last_offset: offset,
                            locked_until: now,
                            offset_final: locks0[k as int].offset_final,
                            created_at: locks0[k as int].created_at,
                            updated_at: now,
                        }),
                    ));
                    lemma_locks_wf_after(locks0, self.locks.deep_view(), self.views.deep_view(),
                    view@);
                }
                Ok(out)
            },
            None => Err(AckError::LeaseMissing),
        }
    }

    /// Release the lease without advancing the acknowledged position: the
    /// same event will be served again. Fails when no lock row exists.
    #[verifier::loop_isolation(false)]
    pub fn nack_event(&mut self, view: &String, decider_id: u128, now: u64) -> (r: Result<
        LockEntity,
        AckError,
    >)
        requires
            old(self).wf(),
        ensures
            final(self).wf(),
            final(self).events == old(self).events,
            final(self).deciders == old(self).deciders,
            final(self).views == old(self).views,
            final(self).lease_millis == old(self).lease_millis,
            ({
                let k = spec_lock_idx(old(self).locks.deep_view(), view@, decider_id);
                if k == -1 {
                    r == Err::<LockEntity, AckError>(AckError::LeaseMissing) && final(self).locks
                        == old(self).locks
                } else {
                    let updated = (SpecLockEntity {
                        view: view@,
                        decider_id,
                        offset: old(self).locks.deep_view()[k].offset,
                        last_offset: old(self).locks.deep_view()[k].last_offset,
                        locked_until: now,
                        offset_final: old(self).locks.deep_view()[k].offset_final,
                        created_at: old(self).locks.deep_view()[k].created_at,
                        updated_at: now,
                    });
                    &&& r matches Ok(row) && row.deep_view() == updated
                    &&& final(self).locks.deep_view() == old(self).locks.deep_view().update(
                        k,
                        updated,
                    )
                }
            }),
    {
        let ghost locks0 = self.locks.deep_view();
        match self.lock_idx_now(view, decider_id) {
            Some(k) => {
                proof {
                    lemma_lock_idx(locks0, view@, decider_id);
                }
                let row = LockEntity {
                    view: view.clone(),
                    decider_id,
                    offset: self.locks[k].offset,
                    last_offset: self.locks[k].last_offset,
                    locked_until: now,
                    offset_final: self.locks[k].offset_final,
                    created_at: self.locks[k].created_at,
                    updated_at: now,
                };
                let out = row.clone();
                self.locks.set(k, row);
                proof {
                    assert forall|m: int|
                        0 <= m < self.locks.deep_view().len() implies #[trigger] self.locks
                        .deep_view()[m] == locks0.update(
                        k as int,
                        (SpecLockEntity {
                            view: view@,
                            decider_id,
                            offset: locks0[k as int].offset,
                            last_offset: locks0[k as int].last_offset,
                            locked_until: now,
                            offset_final: locks0[k as int].offset_final,
                            created_at: locks0[k as int].created_at,
                            updated_at: now,
                        }),
                    )[m] by {
                        assert(self.locks@[m] == if m == k as int {
                            row
                        } else {
                            old(self).locks@[m]
                        });
                    }
                    assert(self.locks.deep_view() =~= locks0.update(
                        k as int,
                        (SpecLockEntity {
                            view: view@,
                            decider_id,
                            offset: locks0[k as int].offset,
                            last_offset: locks0[k as int].last_offset,
                            locked_until: now,
                            offset_final: locks0[k as int].offset_final,
                            created_at: locks0[k as int].created_at,
                            updated_at: now,
                        }),
                    ));
                    lemma_locks_wf_after(locks0, self.locks.deep_view(), self.views.deep_view(),
                    view@);
                }
                Ok(out)
            },
            None => Err(AckError::LeaseMissing),
        }
    }
}

/// A lock table stays lawful when one row is updated in place keeping its
/// key, or a row with a fresh key for a registered view is appended.
proof fn lemma_locks_wf_after(
    locks0: Seq<SpecLockEntity>,
    locks1: Seq<SpecLockEntity>,
    views: Seq<SpecViewEntity>,
    view: Seq<char>,
)
    requires
        locks_wf(locks0, views),
        spec_view_registered(views, view),
        locks1.len() == locks0.len() || locks1.len() == locks0.len() + 1,
        forall|m: int|
            0 <= m < locks0.len() ==> (#[trigger] locks1[m]).view == locks0[m].view && locks1[
                m].decider_id == locks0[m].decider_id,
        locks1.len() == locks0.len() + 1 ==> locks1.last().view == view && (forall|m: int|
            0 <= m < locks0.len() ==> !((#[trigger] locks0[m]).view == locks1.last().view
                && locks0[m].decider_id == locks1.last().decider_id)),
    ensures
        locks_wf(locks1, views),
{
}

/// The events of one stream key, in log order.
pub open spec fn spec_events_of_id(evs: Seq<SpecEventEntity>, decider_id: u128) -> Seq<
    SpecEventEntity,
>
    decreases evs.len(),
{
    if evs.len() == 0 {
        Seq::empty()
    } else {
        spec_events_of_id(evs.drop_last(), decider_id) + (if evs.last().decider_id == decider_id {
            seq![evs.last()]
        } else {
            Seq::empty()
        })
    }
}

/// Filtering commutes with taking one more event.
pub proof fn lemma_events_of_id_take(evs: Seq<SpecEventEntity>, decider_id: u128)
    ensures
        forall|i: int|
            0 <= i < evs.len() ==> spec_events_of_id(#[trigger] evs.take(i + 1), decider_id)
                == spec_events_of_id(evs.take(i), decider_id) + (if evs[i].decider_id
                == decider_id {
                seq![evs[i]]
            } else {
                Seq::<SpecEventEntity>::empty()
            }),
{
    assert forall|i: int| 0 <= i < evs.len() implies spec_events_of_id(
        #[trigger] evs.take(i + 1),
        decider_id,
    ) == spec_events_of_id(evs.take(i), decider_id) + (if evs[i].decider_id == decider_id {
        seq![evs[i]]
    } else {
        Seq::<SpecEventEntity>::empty()
    }) by {
        let t = evs.take(i + 1);
        assert(t.len() == i + 1);
        assert(t.last() == evs[i]);
        assert(t.drop_last() =~= evs.take(i));
    }
}

/// The latest event of one stream key, or none.
pub open spec fn spec_latest_of_id(evs: Seq<SpecEventEntity>, decider_id: u128) -> Option<
    SpecEventEntity,
>
    decreases evs.len(),
{
    if evs.len() == 0 {
        None
    } else if evs.last().decider_id == decider_id {
        Some(evs.last())
    } else {
        spec_latest_of_id(evs.drop_last(), decider_id)
    }
}

/// The event laws do not depend on registrations that were only added.
pub proof fn lemma_events_wf_more_regs(
    evs: Seq<SpecEventEntity>,
    regs: Seq<SpecDeciderEventEntity>,
    more: Seq<SpecDeciderEventEntity>,
)
    requires
        events_wf(evs, regs),
        regs.is_prefix_of(more),
    ensures
        events_wf(evs, more),
{
    assert forall|j: int| 0 <= j < evs.len() implies spec_registered(
        more,
        (#[trigger] evs[j]).decider,
        evs[j].event,
    ) by {
        assert(spec_registered(regs, evs[j].decider, evs[j].event));
        let w = choose|x: int|
            0 <= x < regs.len() && (#[trigger] regs[x]).decider == evs[j].decider && regs[x].event
                == evs[j].event;
        assert((#[trigger] more[w]).decider == evs[j].decider && more[w].event == evs[j].event);
    }
}

// ########################################################
// ################ Laws of the log #######################
// ########################################################

/// Whether index `i` holds an event of the stream `(decider, decider_id)`.
pub open spec fn spec_in_stream(
    evs: Seq<SpecEventEntity>,
    decider: Seq<char>,
    decider_id: u128,
    i: int,
) -> bool {
    0 <= i < evs.len() && evs[i].decider == decider && evs[i].decider_id == decider_id
}

/// When index `i` is the last of its stream, the stream's latest id is the
/// id of the event at `i`.
pub proof fn lemma_latest_is_last_match(
    evs: Seq<SpecEventEntity>,
    decider: Seq<char>,
    decider_id: u128,
    i: int,
)
    requires
        spec_in_stream(evs, decider, decider_id, i),
        forall|k: int| i < k < evs.len() ==> !spec_in_stream(evs, decider, decider_id, k),
    ensures
        spec_latest_event_id(evs, decider, decider_id) == Some(evs[i].event_id),
    decreases evs.len(),
{
    if i == evs.len() - 1 {
    } else {
        assert(!spec_in_stream(evs, decider, decider_id, evs.len() - 1));
        assert forall|k: int| i < k < evs.drop_last().len() implies !spec_in_stream(
            evs.drop_last(),
            decider,
            decider_id,
            k,
        ) by {
            assert(evs.drop_last()[k] == evs[k]);
            assert(!spec_in_stream(evs, decider, decider_id, k));
        }
        assert(evs.drop_last()[i] == evs[i]);
        lemma_latest_is_last_match(evs.drop_last(), decider, decider_id, i);
    }
}

/// A stream with no events has no latest id.
pub proof fn lemma_latest_none(evs: Seq<SpecEventEntity>, decider: Seq<char>, decider_id: u128)
    requires
        forall|k: int| 0 <= k < evs.len() ==> !spec_in_stream(evs, decider, decider_id, k),
    ensures
        spec_latest_event_id(evs, decider, decider_id) is None,
    decreases evs.len(),
{
    if evs.len() > 0 {
        assert(!spec_in_stream(evs, decider, decider_id, evs.len() - 1));
        assert forall|k: int| 0 <= k < evs.drop_last().len() implies !spec_in_stream(
            evs.drop_last(),
            decider,
            decider_id,
            k,
        ) by {
            assert(evs.drop_last()[k] == evs[k]);
            assert(!spec_in_stream(evs, decider, decider_id, k));
        }
        lemma_latest_none(evs.drop_last(), decider, decider_id);
    }
}

/// A latest id always names an event of the stream.
pub proof fn lemma_latest_in(evs: Seq<SpecEventEntity>, decider: Seq<char>, decider_id: u128)
    requires
        spec_latest_event_id(evs, decider, decider_id) is Some,
    ensures
        exists|i: int|
            spec_in_stream(evs, decider, decider_id, i) && evs[i].event_id
                == spec_latest_event_id(evs, decider, decider_id)->Some_0,
    decreases evs.len(),
{
    if evs.last().decider == decider && evs.last().decider_id == decider_id {
        assert(spec_in_stream(evs, decider, decider_id, evs.len() - 1));
    } else {
        lemma_latest_in(evs.drop_last(), decider, decider_id);
        let i = choose|i: int|
            spec_in_stream(evs.drop_last(), decider, decider_id, i) && evs.drop_last()[
                i].event_id == spec_latest_event_id(evs.drop_last(), decider, decider_id)->Some_0;
        assert(evs.drop_last()[i] == evs[i]);
        assert(spec_in_stream(evs, decider, decider_id, i));
    }
}

/// The causal chain: any two consecutive events of one stream are linked
/// by `previous_id`, and the first event of a stream has none.
pub proof fn lemma_causal_chain(
    evs: Seq<SpecEventEntity>,
    regs: Seq<SpecDeciderEventEntity>,
    decider: Seq<char>,
    decider_id: u128,
    i: int,
    j: int,
)
    requires
        events_wf(evs, regs),
        spec_in_stream(evs, decider, decider_id, i),
        spec_in_stream(evs, decider, decider_id, j),
        i < j,
        forall|k: int| i < k < j ==> !spec_in_stream(evs, decider, decider_id, k),
    ensures
        evs[j].previous_id == Some(evs[i].event_id),
{
    let front = evs.take(j);
    assert(forall|k: int| 0 <= k < j ==> #[trigger] front[k] == evs[k]);
    assert(spec_in_stream(front, decider, decider_id, i));
    assert forall|k: int| i < k < front.len() implies !spec_in_stream(
        front,
        decider,
        decider_id,
        k,
    ) by {
        assert(front[k] == evs[k]);
        assert(!spec_in_stream(evs, decider, decider_id, k));
    }
    lemma_latest_is_last_match(front, decider, decider_id, i);
    assert(evs[j].previous_id == spec_latest_event_id(front, evs[j].decider, evs[j].decider_id));
}

/// The first event of a stream chains from nothing.
pub proof fn lemma_chain_first(
    evs: Seq<SpecEventEntity>,
    regs: Seq<SpecDeciderEventEntity>,
    decider: Seq<char>,
    decider_id: u128,
    j: int,
)
    requires
        events_wf(evs, regs),
        spec_in_stream(evs, decider, decider_id, j),
        forall|k: int| 0 <= k < j ==> !spec_in_stream(evs, decider, decider_id, k),
    ensures
        evs[j].previous_id is None,
{
    let front = evs.take(j);
    assert forall|k: int| 0 <= k < front.len() implies !spec_in_stream(
        front,
        decider,
        decider_id,
        k,
    ) by {
        assert(front[k] == evs[k]);
        assert(!spec_in_stream(evs, decider, decider_id, k));
    }
    lemma_latest_none(front, decider, decider_id);
    assert(evs[j].previous_id == spec_latest_event_id(front, evs[j].decider, evs[j].decider_id));
}

/// An accepted batch carries only event ids that are fresh for the log it
/// was accepted against.
pub proof fn lemma_verdict_none_fresh(
    evs: Seq<SpecEventEntity>,
    regs: Seq<SpecDeciderEventEntity>,
    batch: Seq<SpecNewEventEntity>,
    now: u64,
)
    requires
        spec_append_verdict(evs, regs, batch, now) is None,
    ensures
        forall|i: int| 0 <= i < batch.len() ==> spec_id_fresh(evs, (#[trigger] batch[i]).event_id),
    decreases batch.len(),
{
    if batch.len() > 0 {
        let evs2 = evs.push(spec_stored(batch[0], (evs.len() + 1) as u64, now));
        lemma_verdict_none_fresh(evs2, regs, batch.drop_first(), now);
        assert forall|i: int| 0 <= i < batch.len() implies spec_id_fresh(
            evs,
            (#[trigger] batch[i]).event_id,
        ) by {
            if i > 0 {
                assert(batch.drop_first()[i - 1] == batch[i]);
                assert(spec_id_fresh(evs2, batch[i].event_id));
                assert forall|k: int| 0 <= k < evs.len() implies (#[trigger] evs[k]).event_id
                    != batch[i].event_id by {
                    assert(evs2[k] == evs[k]);
                }
            }
        }
    }
}

/// How the latest id of a stream looks across a concatenation.
pub proof fn lemma_latest_concat(
    a: Seq<SpecEventEntity>,
    b: Seq<SpecEventEntity>,
    decider: Seq<char>,
    decider_id: u128,
)
    ensures
        spec_latest_event_id(a + b, decider, decider_id) == (if spec_latest_event_id(
            b,
            decider,
            decider_id,
        ) is Some {
            spec_latest_event_id(b, decider, decider_id)
        } else {
            spec_latest_event_id(a, decider, decider_id)
        }),
    decreases b.len(),
{
    if b.len() == 0 {
        assert(a + b =~= a);
    } else {
        assert((a + b).last() == b.last());
        assert((a + b).drop_last() =~= a + b.drop_last());
        lemma_latest_concat(a, b.drop_last(), decider, decider_id);
    }
}

/// Optimistic-concurrency exclusivity: of two writers that both prepared a
/// batch for the same stream against the same observed version, the one
/// that appends second is rejected with a version conflict.
pub proof fn lemma_occ_exclusivity(
    evs: Seq<SpecEventEntity>,
    regs: Seq<SpecDeciderEventEntity>,
    decider: Seq<char>,
    decider_id: u128,
    b1: Seq<SpecNewEventEntity>,
    b2: Seq<SpecNewEventEntity>,
    now1: u64,
    now2: u64,
)
    requires
        events_wf(evs, regs),
        evs.len() + b1.len() <= u64::MAX,
        b1.len() > 0,
        b2.len() > 0,
        b1[0].decider == decider && b1[0].decider_id == decider_id,
        b2[0].decider == decider && b2[0].decider_id == decider_id,
        b2[0].previous_id == spec_latest_event_id(evs, decider, decider_id),
        spec_registered(regs, b2[0].decider, b2[0].event),
        forall|k: int| 0 <= k < b1.len() ==> !(#[trigger] b1[k]).is_final,
        spec_append_verdict(evs, regs, b1, now1) is None,
    ensures
        spec_append_verdict(
            evs + spec_appended(evs.len() as int, b1, now1),
            regs,
            b2,
            now2,
        ) == Some(AppendError::VersionConflict),
{
    let app = spec_appended(evs.len() as int, b1, now1);
    let evs2 = evs + app;
    // the first batch was accepted, so its head passed every check
    assert(!spec_stream_closed(evs, decider, decider_id));
    // the combined log is not closed for this stream
    assert forall|k: int|
        0 <= k < evs2.len() implies !((#[trigger] evs2[k]).decider == decider && evs2[
        k].decider_id == decider_id && evs2[k].is_final) by {
        if k < evs.len() {
            assert(evs2[k] == evs[k]);
            assert(!spec_stream_closed(evs, decider, decider_id));
            if evs2[k].decider == decider && evs2[k].decider_id == decider_id && evs2[
                k].is_final {
                assert(spec_stream_closed(evs, decider, decider_id));
            }
        } else {
            assert(evs2[k] == app[k - evs.len()]);
            assert(app[k - evs.len()] == spec_stored(
                b1[k - evs.len()],
                (evs.len() + (k - evs.len()) + 1) as u64,
                now1,
            ));
        }
    }
    assert(!spec_stream_closed(evs2, decider, decider_id));
    // the latest id of the stream in the combined log comes from the batch
    assert(app[0] == spec_stored(b1[0], (evs.len() + 1) as u64, now1));
    assert(spec_latest_event_id(app, decider, decider_id) is Some) by {
        if app.last().decider == decider && app.last().decider_id == decider_id {
        } else {
            assert(spec_in_stream(app, decider, decider_id, 0));
            lemma_latest_some_when_match(app, decider, decider_id, 0);
        }
    }
    lemma_latest_concat(evs, app, decider, decider_id);
    let latest2 = spec_latest_event_id(evs2, decider, decider_id);
    assert(latest2 == spec_latest_event_id(app, decider, decider_id));
    lemma_latest_in(app, decider, decider_id);
    let w = choose|i: int|
        spec_in_stream(app, decider, decider_id, i) && app[i].event_id == spec_latest_event_id(
            app,
            decider,
            decider_id,
        )->Some_0;
    // that id is fresh for the log both writers started from, so it differs from the
    // version the second writer observed
    lemma_verdict_none_fresh(evs, regs, b1, now1);
    assert(app[w].event_id == b1[w].event_id);
    assert(spec_id_fresh(evs, b1[w].event_id));
    if b2[0].previous_id == latest2 {
        let x = latest2->Some_0;
        assert(x == b1[w].event_id);
        if spec_latest_event_id(evs, decider, decider_id) is Some {
            lemma_latest_in(evs, decider, decider_id);
            let v = choose|i: int|
                spec_in_stream(evs, decider, decider_id, i) && evs[i].event_id
                    == spec_latest_event_id(evs, decider, decider_id)->Some_0;
            assert(evs[v].event_id != b1[w].event_id);
            assert(false);
        } else {
            assert(false);
        }
    }
    assert(b2[0].previous_id != latest2);
}

/// A stream with a member has a latest id.
pub proof fn lemma_latest_some_when_match(
    evs: Seq<SpecEventEntity>,
    decider: Seq<char>,
    decider_id: u128,
    i: int,
)
    requires
        spec_in_stream(evs, decider, decider_id, i),
    ensures
        spec_latest_event_id(evs, decider, decider_id) is Some,
    decreases evs.len(),
{
    if evs.last().decider == decider && evs.last().decider_id == decider_id {
    } else {
        assert(i < evs.len() - 1);
        assert(evs.drop_last()[i] == evs[i]);
        lemma_latest_some_when_match(evs.drop_last(), decider, decider_id, i);
    }
}

/// Two lock tables with the same keys row by row give the same index for
/// any key.
pub proof fn lemma_lock_idx_keys(
    a: Seq<SpecLockEntity>,
    b: Seq<SpecLockEntity>,
    view: Seq<char>,
    decider_id: u128,
)
    requires
        a.len() == b.len(),
        forall|m: int|
            0 <= m < a.len() ==> (#[trigger] a[m]).view == b[m].view && a[m].decider_id == b[
                m].decider_id,
    ensures
        spec_lock_idx(a, view, decider_id) == spec_lock_idx(b, view, decider_id),
    decreases a.len(),
{
    if a.len() > 0 {
        assert(a[0].view == b[0].view && a[0].decider_id == b[0].decider_id);
        assert forall|m: int|
            0 <= m < a.drop_first().len() implies (#[trigger] a.drop_first()[m]).view
            == b.drop_first()[m].view && a.drop_first()[m].decider_id == b.drop_first()[
            m].decider_id by {
            assert(a.drop_first()[m] == a[m + 1]);
            assert(b.drop_first()[m] == b[m + 1]);
            assert(a[m + 1].view == b[m + 1].view && a[m + 1].decider_id == b[m + 1].decider_id);
        }
        lemma_lock_idx_keys(a.drop_first(), b.drop_first(), view, decider_id);
    }
}

/// Appending a lock row for a key that had none makes it findable at the
/// end of the table.
pub proof fn lemma_lock_idx_push_match(
    locks: Seq<SpecLockEntity>,
    row: SpecLockEntity,
    view: Seq<char>,
    decider_id: u128,
)
    requires
        spec_lock_idx(locks, view, decider_id) == -1,
        row.view == view,
        row.decider_id == decider_id,
    ensures
        spec_lock_idx(locks.push(row), view, decider_id) == locks.len(),
    decreases locks.len(),
{
    if locks.len() == 0 {
        assert(locks.push(row)[0] == row);
    } else {
        assert(locks.push(row)[0] == locks[0]);
        lemma_lock_idx(locks, view, decider_id);
        assert(!(locks[0].view == view && locks[0].decider_id == decider_id));
        assert(locks.push(row).drop_first() =~= locks.drop_first().push(row));
        assert(spec_lock_idx(locks.drop_first(), view, decider_id) == -1) by {
            lemma_lock_idx(locks.drop_first(), view, decider_id);
            if spec_lock_idx(locks.drop_first(), view, decider_id) != -1 {
                assert(spec_lock_idx(locks, view, decider_id) == spec_lock_idx(
                    locks.drop_first(),
                    view,
                    decider_id,
                ) + 1);
            }
        }
        lemma_lock_idx_push_match(locks.drop_first(), row, view, decider_id);
    }
}

/// Registered pairs stay registered when the table only grows.
pub proof fn lemma_registered_prefix(
    regs: Seq<SpecDeciderEventEntity>,
    more: Seq<SpecDeciderEventEntity>,
    decider: Seq<char>,
    event: Seq<char>,
)
    requires
        regs.is_prefix_of(more),
        spec_registered(regs, decider, event),
    ensures
        spec_registered(more, decider, event),
{
    let w = choose|x: int|
        0 <= x < regs.len() && (#[trigger] regs[x]).decider == decider && regs[x].event == event;
    assert((#[trigger] more[w]).decider == decider && more[w].event == event);
}

/// Compare two strings for equality of their characters.
pub fn str_eq(a: &String, b: &String) -> (r: bool)
    ensures
        r == (a@ == b@),
{
    *a == *b
}

} // verus!
