//! The monitor: the configuration, the socket path and the cooldowns of the
//! trigger rules, with the decisions that the daemon takes on them.

use vstd::prelude::*;
use crate::classifier;
use crate::classifier::{event_path, file_metadata, rule_for};
use crate::config::{trigger_models, Config};
use crate::cooldown::Cooldowns;
use crate::event::SecurityEvent;
use crate::text::lowercase_text;
use crate::time::Timestamp;
use crate::trigger::{actions_match, cooldowns_after, fired, TriggerAction};
use crate::watch::{plan_of, plan_watch, WatchPlan};

verus! {

/// The state of the daemon that its decisions rest on.
#[derive(Debug)]
pub struct SecurityMonitor {
    pub config: Config,
    pub socket_path: String,
    pub trigger_cooldowns: Cooldowns,
}

impl SecurityMonitor {
    /// A monitor for a configuration, on the socket that it names, with no
    /// rule fired yet.
    pub fn new(config: Config) -> (r: SecurityMonitor)
        ensures
            r.config == config,
            r.socket_path@ == config.socket_path@,
            r.trigger_cooldowns@ == Map::<Seq<char>, u64>::empty(),
    {
        let socket_path = config.socket_path.clone();
        SecurityMonitor { config, socket_path, trigger_cooldowns: Cooldowns::new() }
    }

    /// How the paths of each configured watch are found, in the order of the
    /// configuration.
    pub fn setup_watches(&self) -> (r: Vec<WatchPlan>)
        ensures
            r@.len() == self.config.watches@.len(),
            forall|i: int| 0 <= i < r@.len() ==> r@[i] == plan_of(&self.config.watches@[i]),
    {
        let mut plans: Vec<WatchPlan> = Vec::new();
        let mut i: usize = 0;
        while i < self.config.watches.len()
            invariant
                i <= self.config.watches.len(),
                plans@.len() == i,
                forall|j: int| 0 <= j < i ==> plans@[j] == plan_of(&self.config.watches@[j]),
            decreases self.config.watches.len() - i,
        {
            plans.push(plan_watch(&self.config.watches[i]));
            i += 1;
        }
        plans
    }

    /// Builds the event for one raw filesystem notification on the watch at
    /// `base_path`, observed at `now`.
    pub fn create_security_event(
        &self,
        base_path: &str,
        name: Option<&str>,
        mask: u32,
        now: Timestamp,
    ) -> (ev: SecurityEvent)
        ensures
            ev.timestamp.spec_secs() == now.spec_secs(),
            ev.timestamp.spec_nanos() == now.spec_nanos(),
            ev.path@ == event_path(base_path@, name),
            ev.event_type == rule_for(
                lowercase_text(base_path@),
                lowercase_text(ev.path@),
                mask,
            ).event_type(),
            ev.details.severity == rule_for(
                lowercase_text(base_path@),
                lowercase_text(ev.path@),
                mask,
            ).severity(),
            ev.details.description@ == rule_for(
                lowercase_text(base_path@),
                lowercase_text(ev.path@),
                mask,
            ).label() + ev.path@,
            ev.details.metadata@ == file_metadata(mask, name),
            ev.well_described(),
    {
        classifier::create_security_event(base_path, name, mask, now)
    }

    /// Goes through the configured rules for one event at `now_ns` on the
    /// monotonic clock, and gives the commands of the rules that fire.
    pub fn process_event_triggers(&mut self, event: &SecurityEvent, now_ns: u64) -> (actions: Vec<
        TriggerAction,
    >)
        ensures
            final(self).config == old(self).config,
            final(self).socket_path == old(self).socket_path,
            final(self).trigger_cooldowns@ == cooldowns_after(
                trigger_models(old(self).config.triggers@),
                event.event_type,
                event.details.severity,
                old(self).trigger_cooldowns@,
                now_ns,
            ),
            actions_match(
                actions@,
                fired(
                    trigger_models(old(self).config.triggers@),
                    event.event_type,
                    event.details.severity,
                    old(self).trigger_cooldowns@,
                    now_ns,
                ),
                old(self).config.triggers@,
                event,
            ),
    {
        crate::trigger::process_event_triggers(
            &self.config.triggers,
            event,
            &mut self.trigger_cooldowns,
            now_ns,
        )
    }
}

} // verus!
