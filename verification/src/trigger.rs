//! The trigger engine: which rules fire on an event, under their cooldowns,
//! and the command that each fired rule runs.

use vstd::prelude::*;
use crate::config::{trigger_models, EventTrigger, TriggerModel};
use crate::cooldown::{cooldown_open, elapsed_seconds, Cooldowns, NANOS_PER_SECOND};
use crate::event::{min_level_of, severity_meets_minimum, EventType, SecurityEvent, Severity};
use crate::text::{replace, replace_all, same_text, texts};
use crate::time::rfc3339_text;

verus! {

/// An argument with the four placeholders replaced, in this order: the
/// path, the severity, the description, the timestamp.
pub open spec fn substituted(
    arg: Seq<char>,
    path: Seq<char>,
    severity: Seq<char>,
    description: Seq<char>,
    timestamp: Seq<char>,
) -> Seq<char> {
    replace_all(
        replace_all(
            replace_all(replace_all(arg, "{path}"@, path), "{severity}"@, severity),
            "{description}"@,
            description,
        ),
        "{timestamp}"@,
        timestamp,
    )
}

/// Replaces the placeholders of one argument.
pub fn substitute(arg: &str, path: &str, severity: &str, description: &str, timestamp: &str) -> (r:
    String)
    ensures
        r@ == substituted(arg@, path@, severity@, description@, timestamp@),
{
    proof {
        reveal_strlit("{path}");
        reveal_strlit("{severity}");
        reveal_strlit("{description}");
        reveal_strlit("{timestamp}");
    }
    let a = replace(arg, "{path}", path);
    let b = replace(a.as_str(), "{severity}", severity);
    let c = replace(b.as_str(), "{description}", description);
    replace(c.as_str(), "{timestamp}", timestamp)
}

/// The RFC 3339 text of the instant of an event.
pub open spec fn timestamp_text(event: &SecurityEvent) -> Seq<char> {
    rfc3339_text(event.timestamp.spec_secs(), event.timestamp.spec_nanos()).unwrap()
}

/// The arguments of a rule with the values of an event put in.
pub open spec fn substituted_args(args: Seq<Seq<char>>, event: &SecurityEvent) -> Seq<Seq<char>> {
    Seq::new(
        args.len(),
        |i: int|
            substituted(
                args[i],
                event.path@,
                event.details.severity.name_text(),
                event.details.description@,
                timestamp_text(event),
            ),
    )
}

/// Puts the values of an event into the arguments of a rule.
pub fn substitute_args(args: &Vec<String>, event: &SecurityEvent) -> (r: Vec<String>)
    ensures
        texts(r@) == substituted_args(texts(args@), event),
{
    let severity = event.details.severity.name();
    let timestamp = event.timestamp.rfc3339();
    let mut out: Vec<String> = Vec::new();
    let mut i: usize = 0;
    while i < args.len()
        invariant
            i <= args.len(),
            out@.len() == i,
            severity@ == event.details.severity.name_text(),
            timestamp@ == timestamp_text(event),
            forall|j: int|
                0 <= j < i ==> (#[trigger] out@[j])@ == substituted(
                    args@[j]@,
                    event.path@,
                    event.details.severity.name_text(),
                    event.details.description@,
                    timestamp_text(event),
                ),
        decreases args.len() - i,
    {
        out.push(
            substitute(
                args[i].as_str(),
                event.path.as_str(),
                severity.as_str(),
                event.details.description.as_str(),
                timestamp.as_str(),
            ),
        );
        i += 1;
    }
    proof {
        assert(texts(out@) =~= substituted_args(texts(args@), event));
    }
    out
}

/// A command to run for a rule that fired.
#[derive(Debug)]
pub struct TriggerAction {
    /// The name of the rule.
    pub name: String,
    pub command: String,
    pub args: Vec<String>,
    /// Start the command and do not wait for it.
    pub run_async: bool,
}

/// What a command to run says, as plain values.
pub ghost struct ActionModel {
    pub name: Seq<char>,
    pub command: Seq<char>,
    pub args: Seq<Seq<char>>,
    pub run_async: bool,
}

impl View for TriggerAction {
    type V = ActionModel;

    open spec fn view(&self) -> ActionModel {
        ActionModel {
            name: self.name@,
            command: self.command@,
            args: texts(self.args@),
            run_async: self.run_async,
        }
    }
}

/// The command that `rule` runs for `event`.
pub open spec fn action_for(rule: TriggerModel, event: &SecurityEvent) -> ActionModel {
    ActionModel {
        name: rule.name,
        command: rule.command,
        args: substituted_args(rule.args, event),
        run_async: rule.run_async,
    }
}

/// Builds the command that a rule runs for an event.
pub fn trigger_action(trigger: &EventTrigger, event: &SecurityEvent) -> (r: TriggerAction)
    ensures
        r@ == action_for(trigger@, event),
{
    TriggerAction {
        name: trigger.name.clone(),
        command: trigger.command.clone(),
        args: substitute_args(&trigger.args, event),
        run_async: trigger.run_async,
    }
}

/// Whether the tag name of `event_type` is among `event_types`.
pub fn event_type_listed(event_types: &Vec<String>, event_type: EventType) -> (r: bool)
    ensures
        r == texts(event_types@).contains(event_type.name_text()),
{
    let name = event_type.name();
    let mut i: usize = 0;
    while i < event_types.len()
        invariant
            i <= event_types.len(),
            name@ == event_type.name_text(),
            forall|j: int| 0 <= j < i ==> #[trigger] texts(event_types@)[j] != name@,
        decreases event_types.len() - i,
    {
        if same_text(event_types[i].as_str(), name.as_str()) {
            proof {
                assert(texts(event_types@)[i as int] == name@);
            }
            return true;
        }
        i += 1;
    }
    false
}

/// A rule is for an event when it is enabled, lists the kind of the event
/// and asks for no more than the severity of the event.
pub open spec fn rule_accepts(rule: TriggerModel, event_type: EventType, severity: Severity) -> bool {
    &&& rule.enabled
    &&& rule.event_types.contains(event_type.name_text())
    &&& severity.level() >= min_level_of(rule.min_severity)
}

pub fn trigger_matches(trigger: &EventTrigger, event: &SecurityEvent) -> (r: bool)
    ensures
        r == rule_accepts(trigger@, event.event_type, event.details.severity),
{
    trigger.enabled && event_type_listed(&trigger.event_types, event.event_type)
        && severity_meets_minimum(&event.details.severity, trigger.min_severity.as_str())
}

/// Decides whether the rule `trigger_name` may fire at `now`, and if so
/// notes the fire at once, before any command is started.
pub fn check_trigger_cooldown(
    cooldowns: &mut Cooldowns,
    trigger_name: &str,
    cooldown_seconds: u64,
    now: u64,
) -> (r: bool)
    ensures
        r == cooldown_open(old(cooldowns)@, trigger_name@, cooldown_seconds, now),
        final(cooldowns)@ == if r {
            old(cooldowns)@.insert(trigger_name@, now)
        } else {
            old(cooldowns)@
        },
{
    match cooldowns.last_fire(trigger_name) {
        Some(last_run) => {
            if elapsed_seconds(last_run, now) < cooldown_seconds {
                return false;
            }
        },
        None => {},
    }
    cooldowns.record(trigger_name, now);
    true
}

/// The last fires after the rules were gone through in order at `now`.
pub open spec fn cooldowns_after(
    rules: Seq<TriggerModel>,
    event_type: EventType,
    severity: Severity,
    last_fire: Map<Seq<char>, u64>,
    now: u64,
) -> Map<Seq<char>, u64>
    decreases rules.len(),
{
    if rules.len() == 0 {
        last_fire
    } else {
        let before = cooldowns_after(rules.drop_last(), event_type, severity, last_fire, now);
        let rule = rules.last();
        if rule_accepts(rule, event_type, severity) && cooldown_open(
            before,
            rule.name,
            rule.cooldown_seconds,
            now,
        ) {
            before.insert(rule.name, now)
        } else {
            before
        }
    }
}

/// The positions, in order, of the rules that fire when the rules are gone
/// through in order at `now`.
pub open spec fn fired(
    rules: Seq<TriggerModel>,
    event_type: EventType,
    severity: Severity,
    last_fire: Map<Seq<char>, u64>,
    now: u64,
) -> Seq<int>
    decreases rules.len(),
{
    if rules.len() == 0 {
        Seq::empty()
    } else {
        let earlier = fired(rules.drop_last(), event_type, severity, last_fire, now);
        let before = cooldowns_after(rules.drop_last(), event_type, severity, last_fire, now);
        let rule = rules.last();
        if rule_accepts(rule, event_type, severity) && cooldown_open(
            before,
            rule.name,
            rule.cooldown_seconds,
            now,
        ) {
            earlier.push(rules.len() - 1)
        } else {
            earlier
        }
    }
}

/// `actions` holds, in order, the commands of the rules at `positions`.
pub open spec fn actions_match(
    actions: Seq<TriggerAction>,
    positions: Seq<int>,
    triggers: Seq<EventTrigger>,
    event: &SecurityEvent,
) -> bool {
    &&& actions.len() == positions.len()
    &&& forall|k: int|
        0 <= k < positions.len() ==> 0 <= #[trigger] positions[k] < triggers.len() && actions[k]@
            == action_for(triggers[positions[k]]@, event)
}

/// Goes through the rules in order for one event at `now`. A rule fires when
/// it accepts the event and its cooldown has passed; its last fire is then
/// set to `now`. The commands of the fired rules come back in rule order.
pub fn process_event_triggers(
    triggers: &Vec<EventTrigger>,
    event: &SecurityEvent,
    cooldowns: &mut Cooldowns,
    now: u64,
) -> (actions: Vec<TriggerAction>)
    ensures
        final(cooldowns)@ == cooldowns_after(
            trigger_models(triggers@),
            event.event_type,
            event.details.severity,
            old(cooldowns)@,
            now,
        ),
        actions_match(
            actions@,
            fired(
                trigger_models(triggers@),
                event.event_type,
                event.details.severity,
                old(cooldowns)@,
                now,
            ),
            triggers@,
            event,
        ),
{
    let ghost rules = trigger_models(triggers@);
    let ghost start = cooldowns@;
    let ghost et = event.event_type;
    let ghost sev = event.details.severity;
    let mut actions: Vec<TriggerAction> = Vec::new();
    let mut i: usize = 0;
    while i < triggers.len()
        invariant
            i <= triggers.len(),
            rules == trigger_models(triggers@),
            et == event.event_type,
            sev == event.details.severity,
            cooldowns@ == cooldowns_after(rules.take(i as int), et, sev, start, now),
            actions_match(
                actions@,
                fired(rules.take(i as int), et, sev, start, now),
                triggers@,
                event,
            ),
        decreases triggers.len() - i,
    {
        let trigger = &triggers[i];
        proof {
            assert(rules.take(i + 1).drop_last() =~= rules.take(i as int));
            assert(rules.take(i + 1).last() == trigger@);
        }
        let ghost earlier = fired(rules.take(i as int), et, sev, start, now);
        let ghost later = fired(rules.take(i + 1), et, sev, start, now);
        let ghost done = actions@;
        let matches = trigger_matches(trigger, event);
        let fires = matches && check_trigger_cooldown(
            cooldowns,
            trigger.name.as_str(),
            trigger.cooldown_seconds,
            now,
        );
        if fires {
            actions.push(trigger_action(trigger, event));
            proof {
                assert(later == earlier.push(i as int));
                assert forall|k: int| 0 <= k < later.len() implies 0 <= #[trigger] later[k]
                    < triggers@.len() && actions@[k]@ == action_for(
                    triggers@[later[k]]@,
                    event,
                ) by {
                    if k < done.len() {
                        assert(actions@[k] == done[k]);
                        assert(later[k] == earlier[k]);
                    }
                }
            }
        } else {
            proof {
                assert(later == earlier);
            }
        }
        i += 1;
    }
    proof {
        assert(rules.take(i as int) =~= rules);
    }
    actions
}

/// A rule with a cooldown of `C` seconds that fired on an event at `t0`
/// fires again on a matching event at `t1`, `dt = t1 - t0` later, exactly
/// when `dt >= C`: two such events make one fire when `dt < C` and two when
/// `dt >= C`.
pub proof fn lemma_cooldown_two_events(
    rule: TriggerModel,
    event_type: EventType,
    severity: Severity,
    last_fire: Map<Seq<char>, u64>,
    t0: u64,
    t1: u64,
)
    requires
        rule_accepts(rule, event_type, severity),
        cooldown_open(last_fire, rule.name, rule.cooldown_seconds, t0),
        t0 <= t1,
    ensures
        fired(seq![rule], event_type, severity, last_fire, t0) == seq![0int],
        fired(
            seq![rule],
            event_type,
            severity,
            cooldowns_after(seq![rule], event_type, severity, last_fire, t0),
            t1,
        ) == if t1 - t0 >= rule.cooldown_seconds * NANOS_PER_SECOND {
            seq![0int]
        } else {
            Seq::<int>::empty()
        },
{
    let rules = seq![rule];
    assert(rules.drop_last() =~= Seq::<TriggerModel>::empty());
    assert(rules.last() == rule);
    let none = Seq::<TriggerModel>::empty();
    assert(cooldowns_after(none, event_type, severity, last_fire, t0) == last_fire);
    assert(fired(none, event_type, severity, last_fire, t0) == Seq::<int>::empty());
    assert(fired(rules, event_type, severity, last_fire, t0) =~= seq![0int]);
    let after = cooldowns_after(rules, event_type, severity, last_fire, t0);
    assert(after == last_fire.insert(rule.name, t0));
    assert(cooldowns_after(none, event_type, severity, after, t1) == after);
    assert(fired(none, event_type, severity, after, t1) == Seq::<int>::empty());
    let dt = (t1 - t0) as nat;
    let c = rule.cooldown_seconds as nat;
    assert(dt / 1_000_000_000 >= c <==> dt >= c * 1_000_000_000);
    if t1 - t0 >= rule.cooldown_seconds * NANOS_PER_SECOND {
        assert(fired(rules, event_type, severity, after, t1) =~= seq![0int]);
    } else {
        assert(fired(rules, event_type, severity, after, t1) =~= Seq::<int>::empty());
    }
}

} // verus!
