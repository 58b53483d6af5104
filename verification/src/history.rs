//! Ring buffers of recent samples for the history graphs. They are filled
//! on every tick, popup open or not, so that a graph shows real history
//! when the popup opens.

use std::collections::VecDeque;
use vstd::prelude::*;

use crate::format::HISTORY_LEN;

verus! {

/// The samples a history holds after `xs` were pushed in order into an
/// empty one: the last `HISTORY_LEN` of them (all of them while fewer).
pub open spec fn kept<T>(xs: Seq<T>) -> Seq<T> {
    if xs.len() <= HISTORY_LEN {
        xs
    } else {
        xs.subrange(xs.len() - HISTORY_LEN, xs.len() as int)
    }
}

/// One push: when full, the oldest sample leaves first.
pub open spec fn spec_push<T>(q: Seq<T>, v: T) -> Seq<T> {
    if q.len() == HISTORY_LEN {
        q.drop_first().push(v)
    } else {
        q.push(v)
    }
}

/// Appends a sample, dropping the oldest one when `HISTORY_LEN` are held.
pub fn push_sample<T>(q: &mut VecDeque<T>, v: T)
    ensures
        final(q)@ == spec_push(old(q)@, v),
{
    if q.len() == HISTORY_LEN {
        q.pop_front();
    }
    q.push_back(v);
}

/// Pushing one sample onto what a sequence of pushes left gives what the
/// longer sequence leaves: a history always holds the most recent
/// `HISTORY_LEN` samples, in order, and never more.
pub proof fn lemma_push_keeps_recent<T>(xs: Seq<T>, v: T)
    ensures
        spec_push(kept(xs), v) == kept(xs.push(v)),
        kept(xs).len() <= HISTORY_LEN,
{
    let k = kept(xs);
    if xs.len() < HISTORY_LEN {
        assert(spec_push(k, v) =~= kept(xs.push(v)));
    } else if xs.len() == HISTORY_LEN {
        assert(k.drop_first().push(v) =~= xs.push(v).subrange(1, xs.len() + 1 as int));
    } else {
        assert(k.drop_first().push(v) =~= xs.push(v).subrange(
            xs.len() + 1 - HISTORY_LEN as int,
            xs.len() + 1 as int,
        ));
    }
}

/// The value a gap in the readings leaves in the history: the last valid
/// one, so that a missing reading draws no dip.
pub fn carry_last<T: Copy>(last: T, new: Option<T>) -> (r: T)
    ensures
        r == match new {
            Some(v) => v,
            None => last,
        },
{
    match new {
        Some(v) => v,
        None => last,
    }
}

} // verus!
