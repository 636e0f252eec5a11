//! The parameter synchronization orchestrator.
//!
//! The orchestrator owns the cache of last-known parameter values and
//! knows how many providers are registered: the console is always
//! provider identity 0, the remaining providers get dense identities
//! starting at 1, in registration order, for the life of the process.
//!
//! Every decision the hub makes is computed here, synchronously and
//! with a contract; the I/O it implies is returned as [`Effect`]
//! values.  The runtime that owns the actual console connection and
//! provider handles performs each effect in order, logging individual
//! failures without aborting the rest — delivery is best-effort by
//! design.  Waiting for an uncached value is likewise split into a
//! start step and a re-check step ([`Orchestrator::poll_wait`]) driven
//! by the runtime's change notification and clock.

use vstd::prelude::*;

use crate::cache::Cache;
use crate::value::{Value, ValueModel};

verus! {

/// Deadline granted to a bounded read, in milliseconds.
pub const OSC_TIMEOUT_MS: u64 = 100;

/// One unit of I/O that the hub has decided on: ask the console for a
/// path's value, or deliver an accepted value to one endpoint.
#[derive(Debug, PartialEq)]
pub enum Effect {
    /// Fire-and-forget request to the console adapter for a path.
    RequestConsole { path: String },
    /// Deliver a value to the console adapter (provider identity 0).
    WriteConsole { path: String, value: Value },
    /// Deliver a value to the registered provider with this identity.
    WriteProvider { provider: usize, path: String, value: Value },
}

/// The mathematical shape of an [`Effect`].
pub enum EffectModel {
    RequestConsole { path: Seq<char> },
    WriteConsole { path: Seq<char>, value: ValueModel },
    WriteProvider { provider: int, path: Seq<char>, value: ValueModel },
}

impl View for Effect {
    type V = EffectModel;

    open spec fn view(&self) -> EffectModel {
        match self {
            Effect::RequestConsole { path } => EffectModel::RequestConsole { path: path@ },
            Effect::WriteConsole { path, value } => EffectModel::WriteConsole {
                path: path@,
                value: value@,
            },
            Effect::WriteProvider { provider, path, value } => EffectModel::WriteProvider {
                provider: *provider as int,
                path: path@,
                value: value@,
            },
        }
    }
}

impl DeepView for Effect {
    type V = EffectModel;

    open spec fn deep_view(&self) -> EffectModel {
        self.view()
    }
}

/// The single write that informs endpoint `id` of a value: the console
/// is addressed as identity 0, everyone else through the provider list.
pub open spec fn write_effect(id: int, path: Seq<char>, value: ValueModel) -> EffectModel {
    if id == 0 {
        EffectModel::WriteConsole { path, value }
    } else {
        EffectModel::WriteProvider { provider: id, path, value }
    }
}

/// The writes a fan-out sends to the generic provider list: one per
/// identity in 1..=upto, in registration order, skipping the
/// originator.
pub open spec fn provider_writes(
    originator: int,
    upto: int,
    path: Seq<char>,
    value: ValueModel,
) -> Seq<EffectModel>
    decreases upto,
{
    if upto <= 0 {
        Seq::empty()
    } else {
        provider_writes(originator, upto - 1, path, value) + if upto == originator {
            Seq::empty()
        } else {
            seq![EffectModel::WriteProvider { provider: upto, path, value }]
        }
    }
}

/// The full fan-out of one accepted update: the console first (unless
/// it originated the update), then every other registered provider in
/// registration order.
pub open spec fn fanout_effects(
    originator: int,
    provider_count: int,
    path: Seq<char>,
    value: ValueModel,
) -> Seq<EffectModel> {
    (if originator != 0 {
        seq![EffectModel::WriteConsole { path, value }]
    } else {
        Seq::empty()
    }) + provider_writes(originator, provider_count, path, value)
}

/// Does this effect deliver a value to endpoint `id`?
pub open spec fn effect_writes_to(e: EffectModel, id: int) -> bool {
    match e {
        EffectModel::RequestConsole { .. } => false,
        EffectModel::WriteConsole { .. } => id == 0,
        EffectModel::WriteProvider { provider, .. } => id == provider,
    }
}

/// How many of these effects deliver a value to endpoint `id`.
pub open spec fn writes_to_count(s: Seq<EffectModel>, id: int) -> nat
    decreases s.len(),
{
    if s.len() == 0 {
        0
    } else {
        writes_to_count(s.drop_last(), id) + if effect_writes_to(s.last(), id) {
            1nat
        } else {
            0nat
        }
    }
}

proof fn lemma_writes_to_count_singleton(e: EffectModel, id: int)
    ensures
        writes_to_count(seq![e], id) == if effect_writes_to(e, id) {
            1nat
        } else {
            0nat
        },
{
    let s = seq![e];
    assert(s.drop_last() =~= Seq::<EffectModel>::empty());
    assert(writes_to_count(Seq::<EffectModel>::empty(), id) == 0);
    assert(s.last() == e);
}

proof fn lemma_writes_to_count_concat(a: Seq<EffectModel>, b: Seq<EffectModel>, id: int)
    ensures
        writes_to_count(a + b, id) == writes_to_count(a, id) + writes_to_count(b, id),
    decreases b.len(),
{
    if b.len() == 0 {
        assert(a + b =~= a);
    } else {
        lemma_writes_to_count_concat(a, b.drop_last(), id);
        assert((a + b).drop_last() =~= a + b.drop_last());
        assert((a + b).last() == b.last());
    }
}

proof fn lemma_provider_writes_count(
    originator: int,
    upto: int,
    path: Seq<char>,
    value: ValueModel,
    id: int,
)
    requires
        0 <= upto,
    ensures
        writes_to_count(provider_writes(originator, upto, path, value), id) == if 1 <= id <= upto
            && id != originator {
            1nat
        } else {
            0nat
        },
    decreases upto,
{
    if upto > 0 {
        lemma_provider_writes_count(originator, upto - 1, path, value, id);
        let head = provider_writes(originator, upto - 1, path, value);
        let tail = if upto == originator {
            Seq::<EffectModel>::empty()
        } else {
            seq![EffectModel::WriteProvider { provider: upto, path, value }]
        };
        lemma_writes_to_count_concat(head, tail, id);
        if upto != originator {
            lemma_writes_to_count_singleton(
                EffectModel::WriteProvider { provider: upto, path, value },
                id,
            );
        } else {
            assert(writes_to_count(tail, id) == 0);
        }
    }
}

/// Loop avoidance, in full: one fan-out delivers the update to every
/// registered endpoint other than the originator exactly once — the
/// console included, addressed as identity 0 — and never to the
/// originator itself.
pub proof fn lemma_fanout_loop_avoidance(
    originator: int,
    provider_count: int,
    path: Seq<char>,
    value: ValueModel,
)
    requires
        0 <= originator,
        0 <= provider_count,
    ensures
        writes_to_count(fanout_effects(originator, provider_count, path, value), originator) == 0,
        forall|id: int|
            0 <= id <= provider_count && id != originator ==> writes_to_count(
                fanout_effects(originator, provider_count, path, value),
                id,
            ) == 1,
{
    let console_part = if originator != 0 {
        seq![EffectModel::WriteConsole { path, value }]
    } else {
        Seq::<EffectModel>::empty()
    };
    let pw = provider_writes(originator, provider_count, path, value);
    assert forall|id: int| 0 <= id <= provider_count || id == originator implies writes_to_count(
        fanout_effects(originator, provider_count, path, value),
        id,
    ) == writes_to_count(console_part, id) + writes_to_count(pw, id) by {
        lemma_writes_to_count_concat(console_part, pw, id);
    }
    assert forall|id: int| 0 <= id implies writes_to_count(console_part, id) == if originator != 0
        && id == 0 {
        1nat
    } else {
        0nat
    } by {
        if originator != 0 {
            lemma_writes_to_count_singleton(EffectModel::WriteConsole { path, value }, id);
        } else {
            assert(writes_to_count(console_part, id) == 0);
        }
    }
    assert forall|id: int| 0 <= id implies writes_to_count(pw, id) == if 1 <= id <= provider_count
        && id != originator {
        1nat
    } else {
        0nat
    } by {
        lemma_provider_writes_count(originator, provider_count, path, value, id);
    }
}

/// Last-write-wins: two completed writes to the same path leave the
/// cache exactly as the second alone would, so any later read of that
/// path observes the second value, and no other path is disturbed.
pub proof fn lemma_last_write_wins(
    m: Map<Seq<char>, ValueModel>,
    k: Seq<char>,
    v1: ValueModel,
    v2: ValueModel,
)
    ensures
        m.insert(k, v1).insert(k, v2) == m.insert(k, v2),
        m.insert(k, v1).insert(k, v2)[k] == v2,
{
    assert(m.insert(k, v1).insert(k, v2) =~= m.insert(k, v2));
}

/// A bounded read that has issued its console request and is waiting
/// for the path to appear in the cache.
#[derive(Debug, PartialEq)]
pub struct PendingRead {
    /// The parameter path being awaited.
    pub path: String,
    /// Absolute time, in milliseconds, at which the wait gives up.
    pub deadline_ms: u64,
}

/// Outcome of starting a bounded read.
#[derive(Debug, PartialEq)]
pub enum ReadStart {
    /// The value was cached and no refresh was forced: returned
    /// immediately, no request issued.
    Hit(Value),
    /// A console request was issued; re-check on every cache change
    /// until the deadline.
    Wait(PendingRead),
}

/// Outcome of one re-check of a waiting read.
#[derive(Debug, PartialEq)]
pub enum ReadPoll {
    /// The path appeared in the cache; the read completes.
    Ready(Value),
    /// Not there yet and the deadline has not passed: keep waiting.
    KeepWaiting,
    /// Not there and the deadline has passed: the read fails with a
    /// timeout error.  The outstanding request is not cancelled.
    TimedOut,
}

/// Outcome of starting a checked value notification.
#[derive(Debug, PartialEq)]
pub enum NotifyStart {
    /// The value was cached: the notification was synthesized at once.
    Done,
    /// A console request was issued; the eventual reply's fan-out will
    /// notify the requester, but confirm arrival within the deadline.
    Wait(PendingRead),
}

/// Owns the cache and the provider registry, and computes every cache
/// mutation, fan-out and bounded-wait decision of the hub.
#[derive(Debug)]
pub struct Orchestrator {
    cache: Cache,
    /// Number of registered providers besides the console.
    provider_count: usize,
    /// Deadline granted to bounded reads, in milliseconds.
    timeout_ms: u64,
}

/// A per-provider capability handle: pairs a provider identity with
/// access to the orchestrator.  The console is always 0; the rest are
/// their index in the provider list plus 1.
#[derive(Debug, Clone)]
pub struct Interface {
    id: usize,
}

impl Orchestrator {
    /// The cache contents: parameter path to last accepted value.
    pub closed spec fn cache_map(&self) -> Map<Seq<char>, ValueModel> {
        self.cache.as_map()
    }

    /// Number of registered providers besides the console.
    pub closed spec fn providers(&self) -> int {
        self.provider_count as int
    }

    /// Deadline granted to bounded reads, in milliseconds.
    pub closed spec fn timeout(&self) -> u64 {
        self.timeout_ms
    }

    /// Well-formed: the cache holds one entry per path and another
    /// provider identity can still be represented.
    pub closed spec fn wf(&self) -> bool {
        self.cache.wf() && self.provider_count < usize::MAX
    }

    /// Register the console as identity 0 and each supplied provider
    /// under the next dense identity, and hand out one interface per
    /// endpoint, console first.  Registration happens exactly once, at
    /// start-up, for the process lifetime.
    pub fn new(provider_count: usize) -> (r: (Orchestrator, Vec<Interface>))
        requires
            provider_count < usize::MAX,
        ensures
            r.0.wf(),
            r.0.cache_map() == Map::<Seq<char>, ValueModel>::empty(),
            r.0.providers() == provider_count as int,
            r.0.timeout() == OSC_TIMEOUT_MS,
            r.1@.len() == provider_count + 1,
            forall|i: int| 0 <= i <= provider_count as int ==> r.1@[i].id_spec() == i,
    {
        let orchestrator = Orchestrator {
            cache: Cache::new(),
            provider_count,
            timeout_ms: OSC_TIMEOUT_MS,
        };
        let mut interfaces: Vec<Interface> = Vec::new();
        let mut id: usize = 0;
        while id <= provider_count
            invariant
                provider_count < usize::MAX,
                id <= provider_count + 1,
                interfaces@.len() == id,
                forall|i: int| 0 <= i < id as int ==> interfaces@[i].id_spec() == i,
            decreases provider_count + 1 - id,
        {
            interfaces.push(Interface::new(id));
            id = id + 1;
        }
        (orchestrator, interfaces)
    }

    /// The deadline granted to bounded reads, in milliseconds.
    pub fn timeout_ms(&self) -> (r: u64)
        ensures
            r == self.timeout(),
    {
        self.timeout_ms
    }

    /// Replace the deadline granted to bounded reads.
    pub fn set_timeout_ms(&mut self, timeout_ms: u64)
        ensures
            final(self).timeout() == timeout_ms,
            final(self).cache_map() == old(self).cache_map(),
            final(self).providers() == old(self).providers(),
            final(self).wf() == old(self).wf(),
    {
        self.timeout_ms = timeout_ms;
    }

    /// Immediate, non-blocking check whether a path has a cached value.
    pub fn value_exists_in_cache(&self, osc_addr: &str) -> (r: bool)
        requires
            self.wf(),
        ensures
            r == self.cache_map().contains_key(osc_addr@),
    {
        self.cache.contains(osc_addr)
    }

    /// Get a value from the cache, or `None` if it is not cached
    /// currently.
    pub fn get_cached_value(&self, osc_addr: &str) -> (r: Option<Value>)
        requires
            self.wf(),
        ensures
            match r {
                Some(v) => self.cache_map().contains_key(osc_addr@) && v@ == self.cache_map()[
                    osc_addr@
                ],
                None => !self.cache_map().contains_key(osc_addr@),
            },
    {
        match self.cache.get(osc_addr) {
            Some(v) => Some(v.clone()),
            None => None,
        }
    }

    /// Request a value for future retrieval.  The result is not
    /// returned here: the console's reply, if any, enters through the
    /// normal `set_value` path.
    pub fn request_value_from_console(&self, osc_addr: &str) -> (e: Effect)
        ensures
            e@ == (EffectModel::RequestConsole { path: osc_addr@ }),
    {
        Effect::RequestConsole { path: osc_addr.to_owned() }
    }

    /// Start a read: if the value is cached (and no refresh is forced)
    /// it is returned immediately with no request issued; otherwise a
    /// console request is issued and the caller re-checks via
    /// [`Orchestrator::poll_wait`] until the path appears.
    pub fn wait_for_value(&self, osc_addr: &str, force_refresh: bool) -> (r: (
        Option<Value>,
        Vec<Effect>,
    ))
        requires
            self.wf(),
        ensures
            !force_refresh && self.cache_map().contains_key(osc_addr@) ==> {
                &&& r.0 matches Some(v) && v@ == self.cache_map()[osc_addr@]
                &&& r.1.deep_view() == Seq::<EffectModel>::empty()
            },
            force_refresh || !self.cache_map().contains_key(osc_addr@) ==> {
                &&& r.0 is None
                &&& r.1.deep_view() == seq![EffectModel::RequestConsole { path: osc_addr@ }]
            },
    {
        if !force_refresh {
            if let Some(value) = self.cache.get(osc_addr) {
                let result = (Some(value.clone()), Vec::new());
                assert(result.1.deep_view() =~= Seq::<EffectModel>::empty());
                return result;
            }
        }
        let mut effects: Vec<Effect> = Vec::new();
        effects.push(self.request_value_from_console(osc_addr));
        assert(effects.deep_view() =~= seq![EffectModel::RequestConsole { path: osc_addr@ }]);
        (None, effects)
    }

    /// One re-check of a waiting read, after a cache change or at the
    /// deadline.  The read completes as soon as the path is cached;
    /// otherwise it keeps waiting until the deadline has passed, and
    /// not a poll earlier does it time out.
    pub fn poll_wait(&self, pending: &PendingRead, now_ms: u64) -> (r: ReadPoll)
        requires
            self.wf(),
        ensures
            self.cache_map().contains_key(pending.path@) ==> (r matches ReadPoll::Ready(v) && v@
                == self.cache_map()[pending.path@]),
            !self.cache_map().contains_key(pending.path@) && now_ms < pending.deadline_ms ==> r
                is KeepWaiting,
            !self.cache_map().contains_key(pending.path@) && now_ms >= pending.deadline_ms ==> r
                is TimedOut,
    {
        match self.cache.get(pending.path.as_str()) {
            Some(v) => ReadPoll::Ready(v.clone()),
            None => {
                if now_ms < pending.deadline_ms {
                    ReadPoll::KeepWaiting
                } else {
                    ReadPoll::TimedOut
                }
            },
        }
    }

    /// The single write that notifies one endpoint of a value update:
    /// identity 0 addresses the console, identities 1..=N the provider
    /// list.  An identity outside the registry is an internal
    /// consistency fault and produces nothing (the caller logs it).
    pub fn notify_provider_by_id(&self, provider_id: usize, osc_addr: &str, value: &Value) -> (r:
        Option<Effect>)
        requires
            self.wf(),
        ensures
            provider_id as int <= self.providers() ==> (r matches Some(e) && e@ == write_effect(
                provider_id as int,
                osc_addr@,
                value@,
            )),
            provider_id as int > self.providers() ==> r is None,
    {
        if provider_id == 0 {
            Some(Effect::WriteConsole { path: osc_addr.to_owned(), value: value.clone() })
        } else if provider_id <= self.provider_count {
            Some(
                Effect::WriteProvider {
                    provider: provider_id,
                    path: osc_addr.to_owned(),
                    value: value.clone(),
                },
            )
        } else {
            None
        }
    }
}

impl Interface {
    /// This interface's provider identity.
    pub closed spec fn id_spec(&self) -> int {
        self.id as int
    }

    /// An interface bound to a provider identity.
    pub fn new(id: usize) -> (r: Self)
        ensures
            r.id_spec() == id as int,
    {
        Interface { id }
    }

    /// This interface's provider identity.
    pub fn id(&self) -> (r: usize)
        ensures
            r as int == self.id_spec(),
    {
        self.id
    }

    /// Ensure that a value is available, requesting it if necessary.
    /// The request's eventual reply may generate a notification that
    /// reaches the caller through the normal fan-out.
    pub fn ensure_value(&self, orchestrator: &Orchestrator, osc_addr: &str, force_refresh: bool)
        -> (effects: Vec<Effect>)
        requires
            orchestrator.wf(),
        ensures
            !force_refresh && orchestrator.cache_map().contains_key(osc_addr@)
                ==> effects.deep_view() == Seq::<EffectModel>::empty(),
            force_refresh || !orchestrator.cache_map().contains_key(osc_addr@)
                ==> effects.deep_view() == seq![
                EffectModel::RequestConsole { path: osc_addr@ },
            ],
    {
        if !force_refresh && orchestrator.value_exists_in_cache(osc_addr) {
            let effects: Vec<Effect> = Vec::new();
            assert(effects.deep_view() =~= Seq::<EffectModel>::empty());
            return effects;
        }
        let mut effects: Vec<Effect> = Vec::new();
        effects.push(orchestrator.request_value_from_console(osc_addr));
        assert(effects.deep_view() =~= seq![EffectModel::RequestConsole { path: osc_addr@ }]);
        effects
    }

    /// Get a value, requesting it from the console if necessary.  A
    /// cache hit (with no refresh forced) returns immediately with no
    /// request issued; otherwise the caller polls until the path
    /// appears or the orchestrator's deadline passes.
    pub fn get_value(&self, orchestrator: &Orchestrator, osc_addr: &str, force_refresh: bool,
        now_ms: u64) -> (r: (ReadStart, Vec<Effect>))
        requires
            orchestrator.wf(),
            now_ms + orchestrator.timeout() <= u64::MAX,
        ensures
            !force_refresh && orchestrator.cache_map().contains_key(osc_addr@) ==> {
                &&& r.0 matches ReadStart::Hit(v) && v@ == orchestrator.cache_map()[osc_addr@]
                &&& r.1.deep_view() == Seq::<EffectModel>::empty()
            },
            force_refresh || !orchestrator.cache_map().contains_key(osc_addr@) ==> {
                &&& r.0 matches ReadStart::Wait(p) && p.path@ == osc_addr@ && p.deadline_ms
                    == now_ms + orchestrator.timeout()
                &&& r.1.deep_view() == seq![EffectModel::RequestConsole { path: osc_addr@ }]
            },
    {
        let (hit, effects) = orchestrator.wait_for_value(osc_addr, force_refresh);
        match hit {
            Some(value) => (ReadStart::Hit(value), effects),
            None => {
                let pending = PendingRead {
                    path: osc_addr.to_owned(),
                    deadline_ms: now_ms + orchestrator.timeout_ms,
                };
                (ReadStart::Wait(pending), effects)
            },
        }
    }

    /// Request a value notification that contains a value.  If the
    /// value is cached (and no refresh is forced) the notification is
    /// synthesized at once: exactly one write, to this provider,
    /// carrying the cached value, with no console request.  Otherwise
    /// the console is asked, and its reply's fan-out will notify the
    /// requester; a notification is not guaranteed in case of error.
    pub fn request_value_notification(&self, orchestrator: &Orchestrator, osc_addr: &str,
        force_refresh: bool) -> (effects: Vec<Effect>)
        requires
            orchestrator.wf(),
        ensures
            force_refresh || !orchestrator.cache_map().contains_key(osc_addr@)
                ==> effects.deep_view() == seq![
                EffectModel::RequestConsole { path: osc_addr@ },
            ],
            !force_refresh && orchestrator.cache_map().contains_key(osc_addr@) ==> {
                &&& self.id_spec() <= orchestrator.providers() ==> effects.deep_view() == seq![
                    write_effect(self.id_spec(), osc_addr@, orchestrator.cache_map()[osc_addr@]),
                ]
                &&& self.id_spec() > orchestrator.providers() ==> effects.deep_view() == Seq::<
                    EffectModel,
                >::empty()
            },
    {
        let mut effects: Vec<Effect> = Vec::new();
        if force_refresh || !orchestrator.value_exists_in_cache(osc_addr) {
            // Requesting the value from the console will generate a notification
            effects.push(orchestrator.request_value_from_console(osc_addr));
            assert(effects.deep_view() =~= seq![EffectModel::RequestConsole { path: osc_addr@ }]);
        } else {
            // If the value is in the cache, send an explicit notification
            let value = self.get_cached(orchestrator, osc_addr);
            if let Some(e) = orchestrator.notify_provider_by_id(self.id, osc_addr, &value) {
                effects.push(e);
                assert(effects.deep_view() =~= seq![
                    write_effect(self.id_spec(), osc_addr@, orchestrator.cache_map()[osc_addr@]),
                ]);
            } else {
                assert(effects.deep_view() =~= Seq::<EffectModel>::empty());
            }
        }
        effects
    }

    /// Request a value notification that contains a value, waiting a
    /// bounded time to confirm the value is available: the caller polls
    /// a [`NotifyStart::Wait`] like a read, discarding the value, and
    /// reports a timeout error if the deadline passes first.
    pub fn request_value_notification_checked(&self, orchestrator: &Orchestrator, osc_addr: &str,
        force_refresh: bool, now_ms: u64) -> (r: (NotifyStart, Vec<Effect>))
        requires
            orchestrator.wf(),
            now_ms + orchestrator.timeout() <= u64::MAX,
        ensures
            force_refresh || !orchestrator.cache_map().contains_key(osc_addr@) ==> {
                &&& r.0 matches NotifyStart::Wait(p) && p.path@ == osc_addr@ && p.deadline_ms
                    == now_ms + orchestrator.timeout()
                &&& r.1.deep_view() == seq![EffectModel::RequestConsole { path: osc_addr@ }]
            },
            !force_refresh && orchestrator.cache_map().contains_key(osc_addr@) ==> {
                &&& r.0 is Done
                &&& self.id_spec() <= orchestrator.providers() ==> r.1.deep_view() == seq![
                    write_effect(self.id_spec(), osc_addr@, orchestrator.cache_map()[osc_addr@]),
                ]
                &&& self.id_spec() > orchestrator.providers() ==> r.1.deep_view() == Seq::<
                    EffectModel,
                >::empty()
            },
    {
        if force_refresh || !orchestrator.value_exists_in_cache(osc_addr) {
            // Requesting the value from the console will generate a notification
            let mut effects: Vec<Effect> = Vec::new();
            effects.push(orchestrator.request_value_from_console(osc_addr));
            assert(effects.deep_view() =~= seq![EffectModel::RequestConsole { path: osc_addr@ }]);
            let pending = PendingRead {
                path: osc_addr.to_owned(),
                deadline_ms: now_ms + orchestrator.timeout_ms,
            };
            (NotifyStart::Wait(pending), effects)
        } else {
            let effects = self.request_value_notification(orchestrator, osc_addr, force_refresh);
            (NotifyStart::Done, effects)
        }
    }

    /// Set a value: store it in the cache (last-write-wins) and notify
    /// every other endpoint — the console, unless it originated the
    /// update, then each other registered provider in registration
    /// order.  Never the originator itself.  Delivery failures are the
    /// runtime's to log; they do not fail this call.
    pub fn set_value(&self, orchestrator: &mut Orchestrator, osc_addr: &str, value: Value) -> (
        effects: Vec<Effect>)
        requires
            old(orchestrator).wf(),
        ensures
            final(orchestrator).wf(),
            final(orchestrator).cache_map() == old(orchestrator).cache_map().insert(
                osc_addr@,
                value@,
            ),
            final(orchestrator).providers() == old(orchestrator).providers(),
            final(orchestrator).timeout() == old(orchestrator).timeout(),
            effects.deep_view() == fanout_effects(
                self.id_spec(),
                old(orchestrator).providers(),
                osc_addr@,
                value@,
            ),
    {
        let ghost originator = self.id_spec();
        let ghost path_view = osc_addr@;
        let ghost value_view = value@;

        // Update cache
        orchestrator.cache.insert(osc_addr, value.clone());

        let ghost console_part: Seq<EffectModel> = if originator != 0 {
            seq![EffectModel::WriteConsole { path: path_view, value: value_view }]
        } else {
            Seq::empty()
        };

        let mut effects: Vec<Effect> = Vec::new();
        if self.id != 0 {
            // Write to console, which is not part of the provider list
            effects.push(
                Effect::WriteConsole { path: osc_addr.to_owned(), value: value.clone() },
            );
        }
        proof {
            assert(effects.deep_view() =~= console_part);
        }

        let n = orchestrator.provider_count;
        let mut id: usize = 1;
        while id <= n
            invariant
                n < usize::MAX,
                1 <= id <= n + 1,
                originator == self.id_spec(),
                path_view == osc_addr@,
                value_view == value@,
                effects.deep_view() == console_part + provider_writes(
                    originator,
                    id - 1,
                    path_view,
                    value_view,
                ),
            decreases n + 1 - id,
        {
            // Do not write to self!
            if id != self.id {
                let ghost pre = effects.deep_view();
                let ghost e = EffectModel::WriteProvider {
                    provider: id as int,
                    path: path_view,
                    value: value_view,
                };
                effects.push(
                    Effect::WriteProvider {
                        provider: id,
                        path: osc_addr.to_owned(),
                        value: value.clone(),
                    },
                );
                proof {
                    assert(effects.deep_view() =~= pre.push(e));
                    assert(provider_writes(originator, id as int, path_view, value_view)
                        =~= provider_writes(originator, id - 1, path_view, value_view) + seq![e]);
                    assert(effects.deep_view() =~= console_part + provider_writes(
                        originator,
                        id as int,
                        path_view,
                        value_view,
                    ));
                }
            } else {
                proof {
                    assert(provider_writes(originator, id as int, path_view, value_view)
                        =~= provider_writes(originator, id - 1, path_view, value_view));
                }
            }
            id = id + 1;
        }
        effects
    }

    /// Broadcast streamed meter values: every registered provider, in
    /// registration order, is a delivery target.  Meter batches bypass
    /// the cache entirely and are never echoed to the console.
    pub fn set_meters(&self, orchestrator: &Orchestrator) -> (targets: Vec<usize>)
        requires
            orchestrator.wf(),
        ensures
            targets@.len() == orchestrator.providers(),
            forall|i: int| 0 <= i < targets@.len() ==> targets@[i] == i + 1,
    {
        let n = orchestrator.provider_count;
        let mut targets: Vec<usize> = Vec::new();
        let mut id: usize = 1;
        while id <= n
            invariant
                n < usize::MAX,
                1 <= id <= n + 1,
                targets@.len() == id - 1,
                forall|i: int| 0 <= i < targets@.len() ==> targets@[i] == i + 1,
            decreases n + 1 - id,
        {
            targets.push(id);
            id = id + 1;
        }
        targets
    }

    /// The cached value for a path that is known to be cached.
    fn get_cached(&self, orchestrator: &Orchestrator, osc_addr: &str) -> (r: Value)
        requires
            orchestrator.wf(),
            orchestrator.cache_map().contains_key(osc_addr@),
        ensures
            r@ == orchestrator.cache_map()[osc_addr@],
    {
        match orchestrator.get_cached_value(osc_addr) {
            Some(v) => v,
            None => {
                // Unreachable: the path is cached by precondition.
                assert(false);
                Value::Int(0)
            },
        }
    }
}

} // verus!
