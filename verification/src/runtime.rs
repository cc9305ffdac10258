//! Bot runtimes: their configuration, the health a runtime reports, and the
//! registry of running runtimes with the generation each was started in.
use vstd::prelude::*;
use std::collections::HashMap;
use vstd::std_specs::hash::spec_keys_iter;
use vstd::std_specs::iter::IteratorSpec;

use crate::types::FeishuRuntimeSnapshot;

verus! {

broadcast use vstd::std_specs::hash::group_hash_axioms;

/// How a bot's runtime runs. Intervals are in milliseconds.
#[derive(Debug, Clone)]
pub struct FeishuRuntimeConfig {
    /// Time between two health checks of the bot.
    pub heartbeat_interval: u64,
    /// Whether the runtime holds a long connection for inbound events.
    pub enable_long_connection: bool,
    /// Wait before the long connection is opened again after it ended.
    pub long_connection_retry_interval: u64,
}

impl Default for FeishuRuntimeConfig {
    /// Health checks every five minutes, a long connection, and five
    /// seconds between connection attempts.
    fn default() -> (r: Self)
        ensures
            r.heartbeat_interval == 300_000,
            r.enable_long_connection,
            r.long_connection_retry_interval == 5_000,
    {
        FeishuRuntimeConfig {
            heartbeat_interval: 300_000,
            enable_long_connection: true,
            long_connection_retry_interval: 5_000,
        }
    }
}

/// What happens to a bot's runtime when the bot is synchronised.
#[derive(Debug, Clone, Copy, PartialEq, Eq, Structural)]
pub enum RuntimeAction {
    /// (Re)start the runtime.
    Start,
    /// Stop the runtime if one runs.
    Stop,
}

/// A bot that exists and is enabled gets a (fresh) runtime; a missing or
/// disabled bot has its runtime stopped. `bot_enabled` is `None` when the
/// bot does not exist.
pub fn runtime_action(bot_enabled: Option<bool>) -> (r: RuntimeAction)
    ensures
        r == (if bot_enabled == Some(true) { RuntimeAction::Start } else { RuntimeAction::Stop }),
{
    match bot_enabled {
        Some(true) => RuntimeAction::Start,
        _ => RuntimeAction::Stop,
    }
}

/// One health check of a bot.
#[derive(Debug, Clone, Copy, PartialEq, Eq, Structural)]
pub enum ReconcileStep {
    /// The bot no longer exists: nothing to record.
    Skip,
    /// The bot is disabled: its health becomes `disabled`.
    MarkDisabled,
    /// Resolve the bot's secrets and validate it against the open platform.
    Validate,
}

pub fn reconcile_step(bot_enabled: Option<bool>) -> (r: ReconcileStep)
    ensures
        r == match bot_enabled {
            None => ReconcileStep::Skip,
            Some(false) => ReconcileStep::MarkDisabled,
            Some(true) => ReconcileStep::Validate,
        },
{
    match bot_enabled {
        None => ReconcileStep::Skip,
        Some(false) => ReconcileStep::MarkDisabled,
        Some(true) => ReconcileStep::Validate,
    }
}

/// What a runtime learned about its bot.
#[derive(Debug, Clone, Copy, PartialEq, Eq, Structural)]
pub enum HealthEvent {
    /// The bot is disabled.
    Disabled,
    /// The bot validated against the open platform.
    Validated,
    /// A health check failed.
    CheckFailed,
    /// The long connection ended with an error.
    LongConnectionEnded,
}

pub open spec fn spec_health_status(event: HealthEvent) -> Seq<char> {
    match event {
        HealthEvent::Disabled => "disabled"@,
        HealthEvent::Validated => "healthy"@,
        HealthEvent::CheckFailed => "reconnecting"@,
        HealthEvent::LongConnectionEnded => "degraded"@,
    }
}

/// The health status recorded for the bot after an event. Failures are
/// recorded together with their error message.
pub fn health_status(event: HealthEvent) -> (r: &'static str)
    ensures
        r@ == spec_health_status(event),
{
    match event {
        HealthEvent::Disabled => "disabled",
        HealthEvent::Validated => "healthy",
        HealthEvent::CheckFailed => "reconnecting",
        HealthEvent::LongConnectionEnded => "degraded",
    }
}

/// A running runtime: the generation it was started in and the handle of its task.
pub struct RuntimeEntry<H> {
    pub generation: u64,
    pub handle: H,
}

/// The generation the next runtime of a bot starts in.
pub open spec fn spec_next_generation(generations: Map<u128, u64>, bot_id: u128) -> int {
    if generations.dom().contains(bot_id) {
        generations[bot_id] + 1
    } else {
        1
    }
}

/// The generations after a bot's runtime is restarted.
pub open spec fn spec_restart(generations: Map<u128, u64>, bot_id: u128) -> Map<u128, u64> {
    generations.remove(bot_id).insert(bot_id, spec_next_generation(generations, bot_id) as u64)
}

/// The running runtimes, keyed by bot id.
pub struct RuntimeRegistry<H> {
    runtimes: HashMap<u128, RuntimeEntry<H>>,
}

impl<H> RuntimeRegistry<H> {
    /// The generation of each running runtime, by bot id.
    pub closed spec fn view(&self) -> Map<u128, u64> {
        self.runtimes@.map_values(|e: RuntimeEntry<H>| e.generation)
    }

    /// The task handle of each running runtime, by bot id.
    pub closed spec fn handles(&self) -> Map<u128, H> {
        self.runtimes@.map_values(|e: RuntimeEntry<H>| e.handle)
    }

    pub fn new() -> (r: Self)
        ensures
            r@ == Map::<u128, u64>::empty(),
            r.handles() == Map::<u128, H>::empty(),
    {
        let r = RuntimeRegistry { runtimes: HashMap::new() };
        assert(r@ =~= Map::<u128, u64>::empty());
        assert(r.handles() =~= Map::<u128, H>::empty());
        r
    }

    /// The generation of the bot's runtime, if one runs.
    pub fn generation(&self, bot_id: u128) -> (r: Option<u64>)
        ensures
            r == (if self@.dom().contains(bot_id) { Some(self@[bot_id]) } else { None }),
    {
        match self.runtimes.get(&bot_id) {
            Some(e) => Some(e.generation),
            None => None,
        }
    }

    /// The task handle of the bot's runtime, if one runs.
    pub fn handle(&self, bot_id: u128) -> (r: Option<&H>)
        ensures
            r is Some <==> self@.dom().contains(bot_id),
            r matches Some(h) ==> *h == self.handles()[bot_id],
    {
        match self.runtimes.get(&bot_id) {
            Some(e) => Some(&e.handle),
            None => None,
        }
    }

    /// Removes the bot's runtime and gives back its handle, to be aborted.
    /// Other runtimes are untouched.
    pub fn stop(&mut self, bot_id: u128) -> (r: Option<H>)
        ensures
            final(self)@ == old(self)@.remove(bot_id),
            final(self).handles() == old(self).handles().remove(bot_id),
            r is Some <==> old(self)@.dom().contains(bot_id),
            r matches Some(h) ==> h == old(self).handles()[bot_id],
    {
        let removed = self.runtimes.remove(&bot_id);
        assert(self@ =~= old(self)@.remove(bot_id));
        assert(self.handles() =~= old(self).handles().remove(bot_id));
        match removed {
            Some(e) => Some(e.handle),
            None => None,
        }
    }

    /// Removes the bot's runtime before it is started again: gives back the
    /// old handle, to be aborted, and the generation to continue from (0
    /// when none ran).
    pub fn take_for_restart(&mut self, bot_id: u128) -> (r: (Option<H>, u64))
        ensures
            final(self)@ == old(self)@.remove(bot_id),
            final(self).handles() == old(self).handles().remove(bot_id),
            r.0 is Some <==> old(self)@.dom().contains(bot_id),
            r.0 matches Some(h) ==> h == old(self).handles()[bot_id],
            r.1 == (if old(self)@.dom().contains(bot_id) { old(self)@[bot_id] } else { 0 }),
    {
        let removed = self.runtimes.remove(&bot_id);
        assert(self@ =~= old(self)@.remove(bot_id));
        assert(self.handles() =~= old(self).handles().remove(bot_id));
        match removed {
            Some(e) => (Some(e.handle), e.generation),
            None => (None, 0),
        }
    }

    /// Records the runtime started for the bot, one generation after
    /// `previous_generation`, and returns that generation.
    pub fn record_started(&mut self, bot_id: u128, previous_generation: u64, handle: H) -> (r: u64)
        requires
            previous_generation < u64::MAX,
        ensures
            r == previous_generation + 1,
            final(self)@ == old(self)@.insert(bot_id, r),
            final(self).handles() == old(self).handles().insert(bot_id, handle),
    {
        let generation = previous_generation + 1;
        let ghost h = handle;
        self.runtimes.insert(bot_id, RuntimeEntry { generation, handle });
        assert(self@ =~= old(self)@.insert(bot_id, generation));
        assert(self.handles() =~= old(self).handles().insert(bot_id, h));
        generation
    }

    /// The bots whose runtime runs, each once.
    pub fn bot_ids(&self) -> (r: Vec<u128>)
        ensures
            r@.to_set() == self@.dom(),
            r@.no_duplicates(),
    {
        let mut r: Vec<u128> = Vec::new();
        let ghost keys = spec_keys_iter(&self.runtimes).remaining();
        for k in it: self.runtimes.keys()
            invariant
                it.seq() == keys,
                r@ == keys.take(it.index() as int).map_values(|x: &u128| *x),
        {
            r.push(*k);
            assert(r@ =~= keys.take(it.index() + 1).map_values(|x: &u128| *x));
        }
        assert(keys.take(keys.len() as int) =~= keys);
        assert(r@ =~= keys.map_values(|x: &u128| *x));
        assert(r@ =~= keys.unref());
        r
    }

    /// The snapshot of the bot's runtime, given whether its task still runs.
    pub fn snapshot(&self, bot_id: u128, running: bool) -> (r: Option<FeishuRuntimeSnapshot>)
        ensures
            self@.dom().contains(bot_id) ==> r == Some(FeishuRuntimeSnapshot { bot_id, running, generation: self@[bot_id] }),
            !self@.dom().contains(bot_id) ==> r is None,
    {
        match self.generation(bot_id) {
            Some(generation) => Some(FeishuRuntimeSnapshot { bot_id, running, generation }),
            None => None,
        }
    }
}

/// Restarting a bot's runtime (taking it out, then recording the new one)
/// moves that bot to the next generation and leaves every other runtime as
/// it was.
pub proof fn law_restart_touches_only_its_bot(generations: Map<u128, u64>, bot_id: u128, other: u128)
    requires
        spec_next_generation(generations, bot_id) <= u64::MAX,
    ensures
        spec_restart(generations, bot_id)[bot_id] == spec_next_generation(generations, bot_id),
        generations.dom().contains(bot_id) ==> spec_restart(generations, bot_id)[bot_id] > generations[bot_id],
        other != bot_id ==> spec_restart(generations, bot_id).dom().contains(other) == generations.dom().contains(other),
        other != bot_id && generations.dom().contains(other) ==> spec_restart(generations, bot_id)[other] == generations[other],
{
}

/// Stopping a bot's runtime removes that runtime only.
pub proof fn law_stop_touches_only_its_bot(generations: Map<u128, u64>, bot_id: u128, other: u128)
    ensures
        !generations.remove(bot_id).dom().contains(bot_id),
        other != bot_id ==> generations.remove(bot_id).dom().contains(other) == generations.dom().contains(other),
        other != bot_id && generations.dom().contains(other) ==> generations.remove(bot_id)[other] == generations[other],
{
}

} // verus!
