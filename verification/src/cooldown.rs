//! Cooldowns: for each key, the instant at which it last fired. Instants
//! are nanoseconds on a monotonic clock.

use vstd::prelude::*;
use crate::keyed;
use crate::keyed::{
    distinct_keys, lemma_kept, lemma_pairs_map, lemma_push_pair, lemma_update_pair, pairs_map,
    restricted,
};
use crate::text::same_text;

verus! {

pub const NANOS_PER_SECOND: u64 = 1_000_000_000;

/// The time from `earlier` to `now`, zero where `earlier` is not in the past.
pub open spec fn elapsed_ns(earlier: u64, now: u64) -> nat {
    if now >= earlier {
        (now - earlier) as nat
    } else {
        0
    }
}

/// The whole seconds from `earlier` to `now`.
pub open spec fn elapsed_secs(earlier: u64, now: u64) -> nat {
    elapsed_ns(earlier, now) / (NANOS_PER_SECOND as nat)
}

pub fn elapsed_nanos(earlier: u64, now: u64) -> (r: u64)
    ensures
        r == elapsed_ns(earlier, now),
{
    if now >= earlier {
        now - earlier
    } else {
        0
    }
}

pub fn elapsed_seconds(earlier: u64, now: u64) -> (r: u64)
    ensures
        r == elapsed_secs(earlier, now),
{
    elapsed_nanos(earlier, now) / NANOS_PER_SECOND
}

/// Whether a key with the given last fire, if any, may fire at `now` under a
/// cooldown of `cooldown_seconds`.
pub open spec fn cooldown_open(
    last_fire: Map<Seq<char>, u64>,
    key: Seq<char>,
    cooldown_seconds: u64,
    now: u64,
) -> bool {
    last_fire.contains_key(key) ==> elapsed_secs(last_fire[key], now) >= cooldown_seconds
}

/// The entries of `last_fire` that are younger than `max_age_ns` at `now`.
pub open spec fn recent(last_fire: Map<Seq<char>, u64>, now: u64, max_age_ns: u64) -> Map<
    Seq<char>,
    u64,
> {
    restricted(last_fire, |t: u64| elapsed_ns(t, now) < max_age_ns)
}

/// The pairs that a vector of keys and instants holds.
pub open spec fn fires_of(entries: Seq<(String, u64)>) -> Seq<(Seq<char>, u64)> {
    Seq::new(entries.len(), |i: int| (entries[i].0@, entries[i].1))
}

/// The last fire of every key that has fired.
#[derive(Debug)]
pub struct Cooldowns {
    entries: Vec<(String, u64)>,
}

impl View for Cooldowns {
    type V = Map<Seq<char>, u64>;

    open spec fn view(&self) -> Map<Seq<char>, u64> {
        pairs_map(self.pairs())
    }
}

impl Cooldowns {
    pub closed spec fn pairs(&self) -> Seq<(Seq<char>, u64)> {
        fires_of(self.entries@)
    }

    #[verifier::type_invariant]
    spec fn well_formed(&self) -> bool {
        distinct_keys(self.pairs())
    }

    pub fn new() -> (r: Cooldowns)
        ensures
            r@ == Map::<Seq<char>, u64>::empty(),
    {
        Cooldowns { entries: Vec::new() }
    }

    fn position(&self, key: &str) -> (r: Option<usize>)
        ensures
            match r {
                Some(i) => i < self.pairs().len() && self.pairs()[i as int].0 == key@,
                None => forall|j: int| 0 <= j < self.pairs().len() ==> (#[trigger] self.pairs()[j]).0
                    != key@,
            },
    {
        let mut i: usize = 0;
        while i < self.entries.len()
            invariant
                i <= self.entries.len(),
                forall|j: int| 0 <= j < i ==> (#[trigger] self.pairs()[j]).0 != key@,
            decreases self.entries.len() - i,
        {
            if same_text(self.entries[i].0.as_str(), key) {
                return Some(i);
            }
            i += 1;
        }
        None
    }

    /// When `key` last fired, if it has.
    pub fn last_fire(&self, key: &str) -> (r: Option<u64>)
        ensures
            match r {
                Some(t) => self@.contains_key(key@) && self@[key@] == t,
                None => !self@.contains_key(key@),
            },
    {
        proof {
            use_type_invariant(self);
            lemma_pairs_map(self.pairs());
        }
        match self.position(key) {
            Some(i) => Some(self.entries[i].1),
            None => None,
        }
    }

    /// Notes that `key` fired at `now`.
    pub fn record(&mut self, key: &str, now: u64)
        ensures
            final(self)@ == old(self)@.insert(key@, now),
    {
        proof {
            use_type_invariant(&*self);
        }
        let ghost before = self.pairs();
        let found = self.position(key);
        let mut taken = Cooldowns::new();
        core::mem::swap(self, &mut taken);
        let mut entries = taken.entries;
        match found {
            Some(i) => {
                entries[i].1 = now;
                proof {
                    lemma_update_pair(before, i as int, now);
                    assert(fires_of(entries@) =~= before.update(i as int, (key@, now)));
                }
                *self = Cooldowns { entries };
            },
            None => {
                entries.push((key.to_owned(), now));
                proof {
                    lemma_push_pair(before, key@, now);
                    assert(fires_of(entries@) =~= before.push((key@, now)));
                }
                *self = Cooldowns { entries };
            },
        }
    }

    /// Forgets every key whose last fire is `max_age_ns` or more before `now`.
    pub fn retain_recent(&mut self, now: u64, max_age_ns: u64)
        ensures
            final(self)@ == recent(old(self)@, now, max_age_ns),
    {
        proof {
            use_type_invariant(&*self);
        }
        let ghost before = self.pairs();
        let mut taken = Cooldowns::new();
        core::mem::swap(self, &mut taken);
        let entries = taken.entries;
        let ghost young = |t: u64| elapsed_ns(t, now) < max_age_ns;
        let mut kept: Vec<(String, u64)> = Vec::new();
        let mut i: usize = 0;
        while i < entries.len()
            invariant
                i <= entries.len(),
                fires_of(entries@) == before,
                young == (|t: u64| elapsed_ns(t, now) < max_age_ns),
                fires_of(kept@) == keyed::kept(before.take(i as int), young),
            decreases entries.len() - i,
        {
            let last = entries[i].1;
            let ghost kept_before = fires_of(kept@);
            proof {
                assert(before.take(i + 1).drop_last() =~= before.take(i as int));
                assert(before.take(i + 1).last() == before[i as int]);
            }
            if elapsed_nanos(last, now) < max_age_ns {
                kept.push((entries[i].0.clone(), last));
                proof {
                    assert(fires_of(kept@) =~= kept_before.push(before[i as int]));
                }
            }
            i += 1;
        }
        proof {
            assert(before.take(i as int) =~= before);
            lemma_kept(before, young);
        }
        *self = Cooldowns { entries: kept };
    }
}

} // verus!
