//! The subscriber set, the sampler's lifecycle, and the latest published
//! snapshot that every consumer reads.
//!
//! The decisions are made here; the caller runs the sampler task and the
//! consumer tasks, performs the action each decision names, and reports back.
use std::sync::Arc;
use vstd::prelude::*;

use crate::resources::SystemResources;

verus! {

/// How a consumer receives snapshots.
#[derive(Clone, Copy, Debug, PartialEq, Eq, Structural)]
pub enum SubscriberMode {
    /// Reads the latest snapshot on its own schedule.
    Pull,
    /// Is sent snapshots on a publish interval.
    Push,
}

/// A registered consumer.
#[derive(Clone, Copy, Debug, PartialEq, Eq, Structural)]
pub struct Subscriber {
    pub id: u64,
    pub mode: SubscriberMode,
    /// The version of the last snapshot this consumer read.
    pub last_seen_version: u64,
}

/// The sampler's lifecycle.
#[derive(Clone, Copy, Debug, PartialEq, Eq, Structural)]
pub enum SamplerState {
    /// No sampler task runs.
    Idle,
    /// One sampler task runs.
    Sampling,
    /// Shut down for good.
    Stopped,
}

/// What the sampler task does next.
#[derive(Clone, Copy, Debug, PartialEq, Eq, Structural)]
pub enum SamplerAction {
    /// Refresh the metrics source, apply the reading, publish.
    Refresh,
    /// Sleep until the interval elapses.
    Wait,
    /// Release the metrics source and end the task.
    Exit,
}

/// Why a subscription was refused.
#[derive(Clone, Copy, Debug, PartialEq, Eq, Structural)]
pub enum SubscribeError {
    /// The broadcaster has been shut down.
    ShutDown,
    /// Every handle has been given out.
    HandlesExhausted,
}

/// A granted subscription.
#[derive(Clone, Copy, Debug, PartialEq, Eq, Structural)]
pub struct Subscription {
    pub handle: u64,
    /// The version of the initial snapshot, the latest at subscription time.
    pub version: u64,
    /// No sampler task ran: the caller starts the one sampler task now.
    pub start_sampler: bool,
}

/// The state of a broadcaster, as its operations see it.
pub struct BroadcastView {
    pub subscribers: Seq<Subscriber>,
    pub next_id: u64,
    pub state: SamplerState,
    /// The next sampler decision refreshes at once, without waiting for the
    /// interval.
    pub refresh_due: bool,
    /// The version of the latest published snapshot.
    pub version: u64,
}

/// One operation on a broadcaster, for stating what holds over runs of them.
pub enum BroadcastOp {
    Subscribe(SubscriberMode),
    Unsubscribe(u64),
    /// A sampler decision; `true` when the interval has elapsed.
    Tick(bool),
    /// Publication of a snapshot of the given version.
    Publish(u64),
    Observe(u64),
    Shutdown,
}

/// Every handle is below the next one to be given out, and no consumer has
/// read a version newer than the latest.
pub open spec fn view_wf(v: BroadcastView) -> bool {
    forall|i: int|
        0 <= i < v.subscribers.len() ==> {
            &&& (#[trigger] v.subscribers[i]).id < v.next_id
            &&& v.subscribers[i].last_seen_version <= v.version
        }
}

pub open spec fn subscribe_result(v: BroadcastView) -> Result<Subscription, SubscribeError> {
    if v.state == SamplerState::Stopped {
        Err(SubscribeError::ShutDown)
    } else if v.next_id == u64::MAX {
        Err(SubscribeError::HandlesExhausted)
    } else {
        Ok(Subscription { handle: v.next_id, version: v.version, start_sampler: v.state == SamplerState::Idle })
    }
}

/// A new consumer is registered under the next handle, having seen the latest
/// version; a sampler that was idle starts, with one refresh due at once.
pub open spec fn after_subscribe(v: BroadcastView, mode: SubscriberMode) -> BroadcastView {
    match subscribe_result(v) {
        Err(_) => v,
        Ok(s) => BroadcastView {
            subscribers: v.subscribers.push(Subscriber { id: v.next_id, mode, last_seen_version: v.version }),
            next_id: (v.next_id + 1) as u64,
            state: SamplerState::Sampling,
            refresh_due: v.refresh_due || v.state == SamplerState::Idle,
            version: v.version,
        },
    }
}

/// The subscribers without those registered under `id`, in order.
pub open spec fn without(s: Seq<Subscriber>, id: u64) -> Seq<Subscriber>
    decreases s.len(),
{
    if s.len() == 0 {
        s
    } else if s.last().id == id {
        without(s.drop_last(), id)
    } else {
        without(s.drop_last(), id).push(s.last())
    }
}

pub open spec fn after_unsubscribe(v: BroadcastView, id: u64) -> BroadcastView {
    BroadcastView { subscribers: without(v.subscribers, id), ..v }
}

/// Whether a consumer is registered under `id`.
pub open spec fn has_id(s: Seq<Subscriber>, id: u64) -> bool {
    exists|i: int| 0 <= i < s.len() && (#[trigger] s[i]).id == id
}

/// The sampler's next action: it runs only while it is sampling and someone
/// is subscribed, and refreshes when a refresh is due or the interval has
/// elapsed.
pub open spec fn tick_action(v: BroadcastView, elapsed: bool) -> SamplerAction {
    if v.state != SamplerState::Sampling || v.subscribers.len() == 0 {
        SamplerAction::Exit
    } else if v.refresh_due || elapsed {
        SamplerAction::Refresh
    } else {
        SamplerAction::Wait
    }
}

pub open spec fn after_tick(v: BroadcastView, elapsed: bool) -> BroadcastView {
    if v.state == SamplerState::Sampling && v.subscribers.len() == 0 {
        BroadcastView { state: SamplerState::Idle, refresh_due: false, ..v }
    } else if tick_action(v, elapsed) == SamplerAction::Refresh {
        BroadcastView { refresh_due: false, ..v }
    } else {
        v
    }
}

/// A snapshot is taken only when it is newer than the latest.
pub open spec fn after_publish(v: BroadcastView, version: u64) -> BroadcastView {
    if version > v.version {
        BroadcastView { version, ..v }
    } else {
        v
    }
}

pub open spec fn observe_result(v: BroadcastView, id: u64) -> Option<u64> {
    if has_id(v.subscribers, id) {
        Some(v.version)
    } else {
        None
    }
}

/// The subscribers after the consumer `id` reads version `version`.
pub open spec fn seen(s: Seq<Subscriber>, id: u64, version: u64) -> Seq<Subscriber> {
    s.map_values(
        |x: Subscriber|
            if x.id == id {
                Subscriber { last_seen_version: version, ..x }
            } else {
                x
            },
    )
}

pub open spec fn after_observe(v: BroadcastView, id: u64) -> BroadcastView {
    BroadcastView { subscribers: seen(v.subscribers, id, v.version), ..v }
}

pub open spec fn after_shutdown(v: BroadcastView) -> BroadcastView {
    BroadcastView {
        subscribers: Seq::empty(),
        state: SamplerState::Stopped,
        refresh_due: false,
        ..v
    }
}

/// The handles of the push consumers among `s`, in order.
pub open spec fn push_handles(s: Seq<Subscriber>) -> Seq<u64>
    decreases s.len(),
{
    if s.len() == 0 {
        Seq::empty()
    } else if s.last().mode == SubscriberMode::Push {
        push_handles(s.drop_last()).push(s.last().id)
    } else {
        push_handles(s.drop_last())
    }
}

pub open spec fn step(v: BroadcastView, op: BroadcastOp) -> BroadcastView {
    match op {
        BroadcastOp::Subscribe(mode) => after_subscribe(v, mode),
        BroadcastOp::Unsubscribe(id) => after_unsubscribe(v, id),
        BroadcastOp::Tick(elapsed) => after_tick(v, elapsed),
        BroadcastOp::Publish(version) => after_publish(v, version),
        BroadcastOp::Observe(id) => after_observe(v, id),
        BroadcastOp::Shutdown => after_shutdown(v),
    }
}

/// The state after each mode of `modes` subscribes in turn.
pub open spec fn subscribe_all(v: BroadcastView, modes: Seq<SubscriberMode>) -> BroadcastView
    decreases modes.len(),
{
    if modes.len() == 0 {
        v
    } else {
        subscribe_all(after_subscribe(v, modes[0]), modes.subrange(1, modes.len() as int))
    }
}

/// The state after each handle of `ids` unsubscribes in turn.
pub open spec fn unsubscribe_all(v: BroadcastView, ids: Seq<u64>) -> BroadcastView
    decreases ids.len(),
{
    if ids.len() == 0 {
        v
    } else {
        unsubscribe_all(after_unsubscribe(v, ids[0]), ids.subrange(1, ids.len() as int))
    }
}

/// The state after one sampler decision per entry of `ticks`.
pub open spec fn ticked(v: BroadcastView, ticks: Seq<bool>) -> BroadcastView
    decreases ticks.len(),
{
    if ticks.len() == 0 {
        v
    } else {
        ticked(after_tick(v, ticks[0]), ticks.subrange(1, ticks.len() as int))
    }
}

/// How many of those decisions ask for a refresh of the metrics source.
pub open spec fn refreshes(v: BroadcastView, ticks: Seq<bool>) -> nat
    decreases ticks.len(),
{
    if ticks.len() == 0 {
        0
    } else {
        (if tick_action(v, ticks[0]) == SamplerAction::Refresh { 1nat } else { 0nat })
            + refreshes(after_tick(v, ticks[0]), ticks.subrange(1, ticks.len() as int))
    }
}

/// The versions that consumer `id` reads over a run of operations, in order.
pub open spec fn observed(v: BroadcastView, ops: Seq<BroadcastOp>, id: u64) -> Seq<u64>
    decreases ops.len(),
{
    if ops.len() == 0 {
        Seq::empty()
    } else {
        let rest = observed(step(v, ops[0]), ops.subrange(1, ops.len() as int), id);
        match ops[0] {
            BroadcastOp::Observe(h) => if h == id && observe_result(v, id) is Some {
                seq![v.version] + rest
            } else {
                rest
            },
            _ => rest,
        }
    }
}

proof fn lemma_without_members(s: Seq<Subscriber>, id: u64)
    ensures
        forall|i: int| 0 <= i < without(s, id).len() ==> {
            &&& s.contains(#[trigger] without(s, id)[i])
            &&& without(s, id)[i].id != id
        },
    decreases s.len(),
{
    if s.len() > 0 {
        lemma_without_members(s.drop_last(), id);
        let r = without(s, id);
        assert forall|i: int| 0 <= i < r.len() implies s.contains(#[trigger] r[i]) && r[i].id != id by {
            let r0 = without(s.drop_last(), id);
            if i < r0.len() {
                assert(r[i] == r0[i]);
                let k = choose|k: int| 0 <= k < s.drop_last().len() && s.drop_last()[k] == r0[i];
                assert(s[k] == r[i]);
            } else {
                assert(r[i] == s.last());
                assert(s[s.len() - 1] == r[i]);
            }
        }
    }
}

proof fn lemma_subscribe_all_handles(v: BroadcastView, modes: Seq<SubscriberMode>)
    ensures
        forall|i: int| 0 <= i < subscribe_all(v, modes).subscribers.len() ==> {
            let x = #[trigger] subscribe_all(v, modes).subscribers[i];
            v.subscribers.contains(x) || (v.next_id <= x.id < v.next_id + modes.len())
        },
    decreases modes.len(),
{
    if modes.len() > 0 {
        let v1 = after_subscribe(v, modes[0]);
        let rest = modes.subrange(1, modes.len() as int);
        lemma_subscribe_all_handles(v1, rest);
        let r = subscribe_all(v, modes);
        assert(r == subscribe_all(v1, rest));
        assert forall|i: int| 0 <= i < r.subscribers.len() implies {
            let x = #[trigger] r.subscribers[i];
            v.subscribers.contains(x) || (v.next_id <= x.id < v.next_id + modes.len())
        } by {
            let x = r.subscribers[i];
            if v1.subscribers.contains(x) && subscribe_result(v) is Ok {
                let k = choose|k: int| 0 <= k < v1.subscribers.len() && v1.subscribers[k] == x;
                if k < v.subscribers.len() {
                    assert(v.subscribers[k] == x);
                }
            }
        }
    }
}

proof fn lemma_unsubscribe_all_members(v: BroadcastView, ids: Seq<u64>)
    ensures
        forall|i: int| 0 <= i < unsubscribe_all(v, ids).subscribers.len() ==> {
            let x = #[trigger] unsubscribe_all(v, ids).subscribers[i];
            v.subscribers.contains(x) && !ids.contains(x.id)
        },
        unsubscribe_all(v, ids).state == v.state,
    decreases ids.len(),
{
    if ids.len() > 0 {
        let v1 = after_unsubscribe(v, ids[0]);
        let rest = ids.subrange(1, ids.len() as int);
        lemma_unsubscribe_all_members(v1, rest);
        lemma_without_members(v.subscribers, ids[0]);
        let r = unsubscribe_all(v, ids);
        assert forall|i: int| 0 <= i < r.subscribers.len() implies {
            let x = #[trigger] r.subscribers[i];
            v.subscribers.contains(x) && !ids.contains(x.id)
        } by {
            let x = r.subscribers[i];
            let k = choose|k: int| 0 <= k < v1.subscribers.len() && v1.subscribers[k] == x;
            assert(without(v.subscribers, ids[0])[k] == x);
            if ids.contains(x.id) {
                let j = choose|j: int| 0 <= j < ids.len() && ids[j] == x.id;
                if j > 0 {
                    assert(rest[j - 1] == x.id);
                }
            }
        }
    }
}

proof fn lemma_no_subscribers_no_refresh(v: BroadcastView, ticks: Seq<bool>)
    requires
        v.subscribers.len() == 0,
    ensures
        refreshes(v, ticks) == 0,
        ticks.len() > 0 ==> ticked(v, ticks).state != SamplerState::Sampling,
        ticks.len() == 0 ==> ticked(v, ticks) == v,
    decreases ticks.len(),
{
    if ticks.len() > 0 {
        let v1 = after_tick(v, ticks[0]);
        let rest = ticks.subrange(1, ticks.len() as int);
        lemma_no_subscribers_no_refresh(v1, rest);
        if rest.len() > 0 {
            assert(ticked(v1, rest).state != SamplerState::Sampling);
        } else {
            assert(v1.state != SamplerState::Sampling);
        }
    }
}

/// Subscribing any number of consumers to a broadcaster that has none, then
/// unsubscribing every handle that was given out, stops the sampler: no later
/// decision asks the metrics source for a refresh, and the first decision
/// leaves the sampler idle (or stopped).
pub proof fn lemma_unsubscribing_all_stops_sampler(
    v: BroadcastView,
    modes: Seq<SubscriberMode>,
    ids: Seq<u64>,
    ticks: Seq<bool>,
)
    requires
        v.subscribers.len() == 0,
        forall|id: u64| v.next_id <= id < v.next_id + modes.len() ==> ids.contains(id),
    ensures
        refreshes(unsubscribe_all(subscribe_all(v, modes), ids), ticks) == 0,
        ticks.len() > 0 ==> ticked(unsubscribe_all(subscribe_all(v, modes), ids), ticks).state
            != SamplerState::Sampling,
{
    let subscribed = subscribe_all(v, modes);
    let emptied = unsubscribe_all(subscribed, ids);
    lemma_subscribe_all_handles(v, modes);
    lemma_unsubscribe_all_members(subscribed, ids);
    if emptied.subscribers.len() > 0 {
        let x = emptied.subscribers[0];
        let k = choose|k: int| 0 <= k < subscribed.subscribers.len() && subscribed.subscribers[k] == x;
        assert(subscribed.subscribers[k] == x);
        assert(!v.subscribers.contains(x));
        assert(ids.contains(x.id));
    }
    lemma_no_subscribers_no_refresh(emptied, ticks);
}

proof fn lemma_step_keeps_version_order(v: BroadcastView, op: BroadcastOp)
    ensures
        step(v, op).version >= v.version,
{
}

proof fn lemma_observed_at_least(v: BroadcastView, ops: Seq<BroadcastOp>, id: u64)
    ensures
        forall|i: int| 0 <= i < observed(v, ops, id).len() ==> #[trigger] observed(v, ops, id)[i] >= v.version,
    decreases ops.len(),
{
    if ops.len() > 0 {
        let v1 = step(v, ops[0]);
        lemma_step_keeps_version_order(v, ops[0]);
        let rest = ops.subrange(1, ops.len() as int);
        lemma_observed_at_least(v1, rest, id);
        let r = observed(v1, rest, id);
        let all = observed(v, ops, id);
        assert forall|i: int| 0 <= i < all.len() implies #[trigger] all[i] >= v.version by {
            if all.len() == r.len() + 1 {
                assert(all =~= seq![v.version] + r);
                if i > 0 {
                    assert(all[i] == r[i - 1]);
                }
            } else {
                assert(all == r);
            }
        }
    }
}

/// Whatever operations run on a broadcaster, the versions that one consumer
/// reads never go down.
pub proof fn lemma_observed_versions_never_decrease(v: BroadcastView, ops: Seq<BroadcastOp>, id: u64)
    ensures
        forall|i: int, j: int|
            0 <= i <= j < observed(v, ops, id).len() ==> #[trigger] observed(v, ops, id)[i]
                <= #[trigger] observed(v, ops, id)[j],
    decreases ops.len(),
{
    if ops.len() > 0 {
        let v1 = step(v, ops[0]);
        let rest = ops.subrange(1, ops.len() as int);
        lemma_step_keeps_version_order(v, ops[0]);
        lemma_observed_versions_never_decrease(v1, rest, id);
        lemma_observed_at_least(v1, rest, id);
        let r = observed(v1, rest, id);
        let all = observed(v, ops, id);
        assert forall|i: int, j: int| 0 <= i <= j < all.len() implies #[trigger] all[i] <= #[trigger] all[j] by {
            if all.len() == r.len() + 1 {
                assert(all =~= seq![v.version] + r);
                if i == 0 {
                    if j > 0 {
                        assert(all[j] == r[j - 1]);
                    }
                } else {
                    assert(all[i] == r[i - 1]);
                    assert(all[j] == r[j - 1]);
                }
            } else {
                assert(all == r);
            }
        }
    }
}

/// How many sampler tasks run after `op`, when `running` ran before: a task
/// starts when a subscription asks for one, and ends when a running task's
/// decision is to exit. Only a running task makes decisions.
pub open spec fn samplers_after(v: BroadcastView, op: BroadcastOp, running: nat) -> nat {
    match op {
        BroadcastOp::Subscribe(_) => match subscribe_result(v) {
            Ok(s) => if s.start_sampler { running + 1 } else { running },
            Err(_) => running,
        },
        BroadcastOp::Tick(elapsed) => if running > 0 && tick_action(v, elapsed) == SamplerAction::Exit {
            (running - 1) as nat
        } else {
            running
        },
        _ => running,
    }
}

/// Whether, over a run of operations from `v` with `running` tasks, no more
/// than one sampler task ever runs.
pub open spec fn at_most_one_sampler(v: BroadcastView, ops: Seq<BroadcastOp>, running: nat) -> bool
    decreases ops.len(),
{
    running <= 1 && (ops.len() == 0 || at_most_one_sampler(
        step(v, ops[0]),
        ops.subrange(1, ops.len() as int),
        samplers_after(v, ops[0], running),
    ))
}

/// A broadcaster's state agrees with the number of sampler tasks running:
/// none while idle, exactly one while sampling, at most one once stopped.
pub open spec fn sampler_count_agrees(v: BroadcastView, running: nat) -> bool {
    &&& running <= 1
    &&& v.state == SamplerState::Idle ==> running == 0
    &&& v.state == SamplerState::Sampling ==> running == 1
}

/// Whatever operations run on a broadcaster whose state agrees with the
/// sampler tasks running (an idle one with none, as `new` makes it), at most
/// one sampler task runs at any time.
pub proof fn lemma_at_most_one_sampler(v: BroadcastView, ops: Seq<BroadcastOp>, running: nat)
    requires
        sampler_count_agrees(v, running),
    ensures
        at_most_one_sampler(v, ops, running),
    decreases ops.len(),
{
    if ops.len() > 0 {
        let v1 = step(v, ops[0]);
        let r1 = samplers_after(v, ops[0], running);
        assert(sampler_count_agrees(v1, r1));
        lemma_at_most_one_sampler(v1, ops.subrange(1, ops.len() as int), r1);
    }
}

/// Owns the subscriber set and the latest snapshot; decides when the one
/// sampler task runs.
pub struct Broadcaster {
    subscribers: Vec<Subscriber>,
    next_id: u64,
    state: SamplerState,
    refresh_due: bool,
    latest: Arc<SystemResources>,
}

impl View for Broadcaster {
    type V = BroadcastView;

    closed spec fn view(&self) -> BroadcastView {
        BroadcastView {
            subscribers: self.subscribers@,
            next_id: self.next_id,
            state: self.state,
            refresh_due: self.refresh_due,
            version: self.latest.version,
        }
    }
}

impl Broadcaster {
    pub open spec fn wf(&self) -> bool {
        view_wf(self@)
    }

    /// The latest published snapshot.
    pub closed spec fn latest_spec(&self) -> SystemResources {
        *self.latest
    }

    /// An idle broadcaster with no subscribers whose latest snapshot is
    /// `initial`.
    pub fn new(initial: SystemResources) -> (r: Broadcaster)
        ensures
            r.wf(),
            r@.subscribers.len() == 0,
            r@.next_id == 0,
            r@.state == SamplerState::Idle,
            !r@.refresh_due,
            r@.version == initial.version,
            r.latest_spec() == initial,
    {
        Broadcaster {
            subscribers: Vec::new(),
            next_id: 0,
            state: SamplerState::Idle,
            refresh_due: false,
            latest: Arc::new(initial),
        }
    }

    /// Registers a consumer. The initial snapshot is `latest()`, whose
    /// version the result carries.
    pub fn subscribe(&mut self, mode: SubscriberMode) -> (r: Result<Subscription, SubscribeError>)
        requires
            old(self).wf(),
        ensures
            final(self).wf(),
            r == subscribe_result(old(self)@),
            final(self)@ == after_subscribe(old(self)@, mode),
            final(self).latest_spec() == old(self).latest_spec(),
    {
        if self.state == SamplerState::Stopped {
            return Err(SubscribeError::ShutDown);
        }
        if self.next_id == u64::MAX {
            return Err(SubscribeError::HandlesExhausted);
        }
        let handle = self.next_id;
        let version = self.latest.version;
        let start_sampler = self.state == SamplerState::Idle;
        self.subscribers.push(Subscriber { id: handle, mode, last_seen_version: version });
        self.next_id = handle + 1;
        self.state = SamplerState::Sampling;
        self.refresh_due = self.refresh_due || start_sampler;
        Ok(Subscription { handle, version, start_sampler })
    }

    /// Removes the consumer registered under `handle`; true when there was
    /// one. The sampler notices an empty set on its next decision.
    pub fn unsubscribe(&mut self, handle: u64) -> (r: bool)
        requires
            old(self).wf(),
        ensures
            final(self).wf(),
            r == has_id(old(self)@.subscribers, handle),
            final(self)@ == after_unsubscribe(old(self)@, handle),
            final(self).latest_spec() == old(self).latest_spec(),
    {
        let mut kept: Vec<Subscriber> = Vec::with_capacity(self.subscribers.len());
        let mut found = false;
        let n = self.subscribers.len();
        let mut i: usize = 0;
        while i < n
            invariant
                n == self.subscribers@.len(),
                i <= n,
                kept@ == without(self.subscribers@.subrange(0, i as int), handle),
                found == has_id(self.subscribers@.subrange(0, i as int), handle),
                forall|j: int| 0 <= j < kept@.len() ==> exists|k: int| 0 <= k < i && #[trigger] kept@[j] == self.subscribers@[k],
            decreases n - i,
        {
            let s = self.subscribers[i];
            proof {
                let pre = self.subscribers@.subrange(0, i as int + 1);
                assert(pre.drop_last() =~= self.subscribers@.subrange(0, i as int));
                assert(pre.last() == s);
                if has_id(pre, handle) {
                    let k = choose|k: int| 0 <= k < pre.len() && (#[trigger] pre[k]).id == handle;
                    if k < i {
                        assert(self.subscribers@.subrange(0, i as int)[k].id == handle);
                    }
                }
                if found {
                    let k = choose|k: int| 0 <= k < i && (#[trigger] self.subscribers@.subrange(0, i as int)[k]).id == handle;
                    assert(pre[k].id == handle);
                }
            }
            if s.id == handle {
                found = true;
            } else {
                kept.push(s);
            }
            i += 1;
        }
        assert(self.subscribers@.subrange(0, n as int) =~= self.subscribers@);
        self.subscribers = kept;
        found
    }

    /// Decides what the sampler task does next. With nobody subscribed it
    /// goes idle and exits; otherwise it refreshes when a refresh is due or
    /// the interval has elapsed, and waits else.
    pub fn next_action(&mut self, interval_elapsed: bool) -> (r: SamplerAction)
        requires
            old(self).wf(),
        ensures
            final(self).wf(),
            r == tick_action(old(self)@, interval_elapsed),
            final(self)@ == after_tick(old(self)@, interval_elapsed),
            final(self).latest_spec() == old(self).latest_spec(),
    {
        if self.state != SamplerState::Sampling {
            return SamplerAction::Exit;
        }
        if self.subscribers.len() == 0 {
            self.state = SamplerState::Idle;
            self.refresh_due = false;
            return SamplerAction::Exit;
        }
        if self.refresh_due || interval_elapsed {
            self.refresh_due = false;
            SamplerAction::Refresh
        } else {
            SamplerAction::Wait
        }
    }

    /// Makes `snapshot` the latest when it is newer than the latest; true
    /// when it was taken. An older or equal version is dropped, so readers
    /// never go back in time.
    pub fn publish(&mut self, snapshot: SystemResources) -> (r: bool)
        requires
            old(self).wf(),
        ensures
            final(self).wf(),
            r == (snapshot.version > old(self)@.version),
            final(self)@ == after_publish(old(self)@, snapshot.version),
            final(self).latest_spec() == if r { snapshot } else { old(self).latest_spec() },
    {
        if snapshot.version > self.latest.version {
            self.latest = Arc::new(snapshot);
            true
        } else {
            false
        }
    }

    /// Records that consumer `handle` reads the latest snapshot now, and
    /// returns its version; none for an unknown handle.
    pub fn observe(&mut self, handle: u64) -> (r: Option<u64>)
        requires
            old(self).wf(),
        ensures
            final(self).wf(),
            r == observe_result(old(self)@, handle),
            final(self)@ == after_observe(old(self)@, handle),
            final(self).latest_spec() == old(self).latest_spec(),
    {
        let version = self.latest.version;
        let mut updated: Vec<Subscriber> = Vec::with_capacity(self.subscribers.len());
        let mut found = false;
        let n = self.subscribers.len();
        let mut i: usize = 0;
        while i < n
            invariant
                n == self.subscribers@.len(),
                version == self@.version,
                i <= n,
                updated@ =~= seen(self.subscribers@, handle, version).subrange(0, i as int),
                found == has_id(self.subscribers@.subrange(0, i as int), handle),
            decreases n - i,
        {
            let s = self.subscribers[i];
            proof {
                let pre = self.subscribers@.subrange(0, i as int + 1);
                assert(pre.last() == s);
                if has_id(pre, handle) {
                    let k = choose|k: int| 0 <= k < pre.len() && (#[trigger] pre[k]).id == handle;
                    if k < i {
                        assert(self.subscribers@.subrange(0, i as int)[k].id == handle);
                    }
                }
                if found {
                    let k = choose|k: int| 0 <= k < i && (#[trigger] self.subscribers@.subrange(0, i as int)[k]).id == handle;
                    assert(pre[k].id == handle);
                }
            }
            if s.id == handle {
                found = true;
                updated.push(Subscriber { last_seen_version: version, ..s });
            } else {
                updated.push(s);
            }
            i += 1;
        }
        assert(self.subscribers@.subrange(0, n as int) =~= self.subscribers@);
        assert(updated@ =~= seen(self.subscribers@, handle, version));
        self.subscribers = updated;
        if found {
            Some(version)
        } else {
            None
        }
    }

    /// Stops the sampler for good and drops every subscription; returns the
    /// handles of the push consumers, each of which is owed one terminal
    /// event.
    pub fn shutdown(&mut self) -> (r: Vec<u64>)
        requires
            old(self).wf(),
        ensures
            final(self).wf(),
            r@ == push_handles(old(self)@.subscribers),
            final(self)@ == after_shutdown(old(self)@),
            final(self).latest_spec() == old(self).latest_spec(),
    {
        let mut handles: Vec<u64> = Vec::new();
        let n = self.subscribers.len();
        let mut i: usize = 0;
        while i < n
            invariant
                n == self.subscribers@.len(),
                i <= n,
                handles@ == push_handles(self.subscribers@.subrange(0, i as int)),
            decreases n - i,
        {
            let s = self.subscribers[i];
            proof {
                let pre = self.subscribers@.subrange(0, i as int + 1);
                assert(pre.drop_last() =~= self.subscribers@.subrange(0, i as int));
            }
            if s.mode == SubscriberMode::Push {
                handles.push(s.id);
            }
            i += 1;
        }
        assert(self.subscribers@.subrange(0, n as int) =~= self.subscribers@);
        self.subscribers = Vec::new();
        self.state = SamplerState::Stopped;
        self.refresh_due = false;
        handles
    }

    /// The latest published snapshot, shared: readers hold it without
    /// copying, and it is never changed once published.
    pub fn latest(&self) -> (r: &Arc<SystemResources>)
        ensures
            **r == self.latest_spec(),
    {
        &self.latest
    }

    /// The version of the latest published snapshot.
    pub fn version(&self) -> (r: u64)
        ensures
            r == self@.version,
    {
        self.latest.version
    }

    /// The sampler's lifecycle state.
    pub fn state(&self) -> (r: SamplerState)
        ensures
            r == self@.state,
    {
        self.state
    }

    /// How many consumers are subscribed.
    pub fn subscriber_count(&self) -> (r: usize)
        ensures
            r == self@.subscribers.len(),
    {
        self.subscribers.len()
    }
}

} // verus!
