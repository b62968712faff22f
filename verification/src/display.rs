//! The list of events that the interactive interface shows.

use vstd::prelude::*;

verus! {

/// How many events the list keeps.
pub const KEPT_EVENTS: usize = 1000;

/// The selection after a step down: the next entry, the first one after
/// the last, the first one where nothing was selected. An empty list keeps
/// its selection.
pub open spec fn next_selection(selected: Option<usize>, len: usize) -> Option<usize> {
    if len == 0 {
        selected
    } else {
        match selected {
            Some(i) => if i >= len - 1 {
                Some(0usize)
            } else {
                Some((i + 1) as usize)
            },
            None => Some(0usize),
        }
    }
}

/// The selection after a step up: the entry before, the last one before the
/// first, the first one where nothing was selected. An empty list keeps its
/// selection.
pub open spec fn previous_selection(selected: Option<usize>, len: usize) -> Option<usize> {
    if len == 0 {
        selected
    } else {
        match selected {
            Some(i) => if i == 0 {
                Some((len - 1) as usize)
            } else {
                Some((i - 1) as usize)
            },
            None => Some(0usize),
        }
    }
}

pub fn select_next(selected: Option<usize>, len: usize) -> (r: Option<usize>)
    ensures
        r == next_selection(selected, len),
{
    if len == 0 {
        selected
    } else {
        match selected {
            Some(i) => if i >= len - 1 {
                Some(0)
            } else {
                Some(i + 1)
            },
            None => Some(0),
        }
    }
}

pub fn select_previous(selected: Option<usize>, len: usize) -> (r: Option<usize>)
    ensures
        r == previous_selection(selected, len),
{
    if len == 0 {
        selected
    } else {
        match selected {
            Some(i) => if i == 0 {
                Some(len - 1)
            } else {
                Some(i - 1)
            },
            None => Some(0),
        }
    }
}

/// The selection after an event arrived in a list that then holds `len`
/// events: the newest event where nothing was selected.
pub fn select_on_arrival(selected: Option<usize>, len: usize) -> (r: Option<usize>)
    ensures
        r == if selected.is_none() && len > 0 {
            Some((len - 1) as usize)
        } else {
            selected
        },
{
    if selected.is_none() && len > 0 {
        Some(len - 1)
    } else {
        selected
    }
}

/// A list with one more entry, its oldest entry dropped where it would
/// hold more than `capacity` entries.
pub open spec fn with_latest<T>(list: Seq<T>, item: T, capacity: usize) -> Seq<T> {
    if list.len() + 1 > capacity {
        list.push(item).drop_first()
    } else {
        list.push(item)
    }
}

/// Adds an entry to a list that keeps the latest `capacity` entries.
pub fn keep_latest<T>(list: &mut Vec<T>, item: T, capacity: usize)
    requires
        old(list)@.len() < usize::MAX,
    ensures
        final(list)@ == with_latest(old(list)@, item, capacity),
{
    list.push(item);
    if list.len() > capacity {
        let _ = list.remove(0);
        proof {
            assert(list@ =~= old(list)@.push(item).drop_first());
        }
    }
}

} // verus!
