//! The two-generation transposition table: bound results of earlier searches,
//! keyed by position identity and root flag.  Lookups read the old
//! generation; writes go to the new one; a rotation at the start of each
//! top-level search pass discards the old generation.

use std::collections::HashMap;
use vstd::prelude::*;

verus! {

broadcast use vstd::std_specs::hash::group_hash_axioms;

/// A verified lower bound: the true score of the position reaches `score`,
/// found at `depth`.  Never treated as exact.
#[derive(Debug, Clone, Copy, PartialEq, Eq, Structural)]
pub struct LowerEntry {
    pub depth: i64,
    pub score: i64,
    pub to_move: i64,
}

/// A verified upper bound: the true score of the position stays at or below
/// `score`, found at `depth`.
#[derive(Debug, Clone, Copy, PartialEq, Eq, Structural)]
pub struct UpperEntry {
    pub depth: i64,
    pub score: i64,
}

/// Position keys stay below this so that the table key fits in a u64 with
/// the root flag.
pub const KEY_LIMIT: u64 = 0x8000000000000000;

/// The table key: the position key with the root flag in the lowest bit.
pub open spec fn tt_key_spec(key: u64, root: bool) -> u64 {
    (2 * key + if root {
        1u64
    } else {
        0u64
    }) as u64
}

/// What a lookup returns from a lower map.
pub open spec fn lower_lookup_spec(m: Map<u64, LowerEntry>, key: u64, root: bool) -> Option<
    LowerEntry,
> {
    if m.contains_key(tt_key_spec(key, root)) {
        Some(m[tt_key_spec(key, root)])
    } else {
        None
    }
}

/// What a lookup returns from an upper map.
pub open spec fn upper_lookup_spec(m: Map<u64, UpperEntry>, key: u64, root: bool) -> Option<
    UpperEntry,
> {
    if m.contains_key(tt_key_spec(key, root)) {
        Some(m[tt_key_spec(key, root)])
    } else {
        None
    }
}

/// The test under which a lower entry short-circuits a bound search: the
/// entry is at least as deep as asked, and its score reaches the threshold.
pub open spec fn lower_cutoff_spec(e: LowerEntry, gamma: int, depth: int) -> bool {
    e.depth >= depth && e.score >= gamma
}

/// The test under which an upper entry short-circuits a bound search.
pub open spec fn upper_cutoff_spec(e: UpperEntry, gamma: int, depth: int) -> bool {
    e.depth >= depth && e.score <= gamma
}

/// The two generations of bound results.
pub struct TranspositionTable {
    old_lower: HashMap<u64, LowerEntry>,
    old_upper: HashMap<u64, UpperEntry>,
    new_lower: HashMap<u64, LowerEntry>,
    new_upper: HashMap<u64, UpperEntry>,
}

impl TranspositionTable {
    /// The old generation's lower map, as read by lookups.
    pub closed spec fn old_lower_view(self) -> Map<u64, LowerEntry> {
        self.old_lower@
    }

    /// The old generation's upper map, as read by lookups.
    pub closed spec fn old_upper_view(self) -> Map<u64, UpperEntry> {
        self.old_upper@
    }

    /// The new generation's lower map, as filled by the current pass.
    pub closed spec fn new_lower_view(self) -> Map<u64, LowerEntry> {
        self.new_lower@
    }

    /// The new generation's upper map, as filled by the current pass.
    pub closed spec fn new_upper_view(self) -> Map<u64, UpperEntry> {
        self.new_upper@
    }

    /// An empty table: both generations empty.
    pub fn new() -> (t: Self)
        ensures
            t.old_lower_view() == Map::<u64, LowerEntry>::empty(),
            t.old_upper_view() == Map::<u64, UpperEntry>::empty(),
            t.new_lower_view() == Map::<u64, LowerEntry>::empty(),
            t.new_upper_view() == Map::<u64, UpperEntry>::empty(),
    {
        TranspositionTable {
            old_lower: HashMap::new(),
            old_upper: HashMap::new(),
            new_lower: HashMap::new(),
            new_upper: HashMap::new(),
        }
    }

    /// Rotates the generations: the new generation becomes the old one, a
    /// fresh empty new generation is begun, and the former old generation is
    /// discarded.  Called exactly once per top-level search pass.
    pub fn rotate(&mut self)
        ensures
            final(self).old_lower_view() == old(self).new_lower_view(),
            final(self).old_upper_view() == old(self).new_upper_view(),
            final(self).new_lower_view() == Map::<u64, LowerEntry>::empty(),
            final(self).new_upper_view() == Map::<u64, UpperEntry>::empty(),
    {
        core::mem::swap(&mut self.old_lower, &mut self.new_lower);
        core::mem::swap(&mut self.old_upper, &mut self.new_upper);
        self.new_lower.clear();
        self.new_upper.clear();
    }

    /// Reads the bound entries recorded for `(key, root)` in the old
    /// generation.
    pub fn lookup(&self, key: u64, root: bool) -> (r: (Option<LowerEntry>, Option<UpperEntry>))
        requires
            key < KEY_LIMIT,
        ensures
            r.0 == lower_lookup_spec(self.old_lower_view(), key, root),
            r.1 == upper_lookup_spec(self.old_upper_view(), key, root),
    {
        let k = 2 * key + if root {
            1
        } else {
            0
        };
        let low = match self.old_lower.get(&k) {
            Some(e) => Some(*e),
            None => None,
        };
        let up = match self.old_upper.get(&k) {
            Some(e) => Some(*e),
            None => None,
        };
        (low, up)
    }

    /// Records a lower bound for `(key, root)` in the new generation,
    /// overwriting any entry already there: last write wins, whatever the
    /// depths.
    pub fn insert_lower(&mut self, key: u64, root: bool, e: LowerEntry)
        requires
            key < KEY_LIMIT,
        ensures
            final(self).new_lower_view() == old(self).new_lower_view().insert(
                tt_key_spec(key, root),
                e,
            ),
            final(self).new_upper_view() == old(self).new_upper_view(),
            final(self).old_lower_view() == old(self).old_lower_view(),
            final(self).old_upper_view() == old(self).old_upper_view(),
    {
        let k = 2 * key + if root {
            1
        } else {
            0
        };
        self.new_lower.insert(k, e);
    }

    /// Records an upper bound for `(key, root)` in the new generation,
    /// overwriting any entry already there.
    pub fn insert_upper(&mut self, key: u64, root: bool, e: UpperEntry)
        requires
            key < KEY_LIMIT,
        ensures
            final(self).new_upper_view() == old(self).new_upper_view().insert(
                tt_key_spec(key, root),
                e,
            ),
            final(self).new_lower_view() == old(self).new_lower_view(),
            final(self).old_lower_view() == old(self).old_lower_view(),
            final(self).old_upper_view() == old(self).old_upper_view(),
    {
        let k = 2 * key + if root {
            1
        } else {
            0
        };
        self.new_upper.insert(k, e);
    }
}

/// A lower entry written for a key comes back unchanged: inserting it into
/// the new generation and rotating makes the next lookup of the same key
/// return exactly the entry, and its score then passes the lower-bound
/// cutoff test for every threshold at or below it.
pub proof fn lemma_lower_entry_round_trip(
    newer: Map<u64, LowerEntry>,
    key: u64,
    root: bool,
    e: LowerEntry,
    gamma: int,
)
    requires
        gamma <= e.score,
    ensures
        lower_lookup_spec(newer.insert(tt_key_spec(key, root), e), key, root) == Some(e),
        forall|d: int| d <= e.depth ==> lower_cutoff_spec(e, gamma, d),
{
}


} // verus!
