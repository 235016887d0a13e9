//! The connections nothing uses, and the order in which they went unused.

use crate::ids::{ConnId, EndpointId, Generation};
use crate::options::{Duration, LONGEST};
use std::collections::{BTreeMap, BTreeSet};
use vstd::prelude::*;
use vstd::std_specs::cmp::OrdSpec;
use vstd::std_specs::iter::IteratorSpec;

verus! {

broadcast use {vstd::std_specs::btree::group_btree_axioms, vstd::laws_cmp::group_laws_cmp};

/// Whether `a` went unused before `b`. Of two that went unused at the same
/// instant, the one whose id comes first counts as the older.
pub open spec fn older(since: Map<ConnId, nat>, a: ConnId, b: ConnId) -> bool {
    since[a] < since[b] || (since[a] == since[b] && a.before(b))
}

/// Whether `conn_id` has been unused longest.
pub open spec fn is_oldest(since: Map<ConnId, nat>, conn_id: ConnId) -> bool {
    &&& since.contains_key(conn_id)
    &&& forall|other: ConnId| #[trigger]
        since.contains_key(other) && other != conn_id ==> older(since, conn_id, other)
}

/// The connection that has been unused longest, if there is one.
pub open spec fn oldest_of(since: Map<ConnId, nat>) -> Option<ConnId> {
    if exists|conn_id: ConnId| is_oldest(since, conn_id) {
        Some(choose|conn_id: ConnId| is_oldest(since, conn_id))
    } else {
        None
    }
}

/// Whether a connection that went unused at `since` has been unused for
/// `timeout` nanoseconds at `now`.
pub open spec fn expired(since: nat, now: nat, timeout: nat) -> bool {
    since + timeout <= now
}

/// Only one connection can have been unused longest.
pub proof fn lemma_oldest_is_unique(since: Map<ConnId, nat>, conn_id: ConnId)
    requires
        is_oldest(since, conn_id),
    ensures
        oldest_of(since) == Some(conn_id),
{
    let chosen = choose|c: ConnId| is_oldest(since, c);
    assert(chosen != conn_id ==> older(since, chosen, conn_id) && older(since, conn_id, chosen));
}

/// Among finitely many connections, one has been unused longest.
pub proof fn lemma_oldest_exists(since: Map<ConnId, nat>)
    requires
        since.dom().finite(),
        since != Map::<ConnId, nat>::empty(),
    ensures
        oldest_of(since) matches Some(conn_id) && is_oldest(since, conn_id),
    decreases since.dom().len(),
{
    assert(!(since.dom() =~= Set::empty())) by {
        if since.dom() =~= Set::empty() {
            assert(since =~= Map::empty());
        }
    }
    let some = since.dom().choose();
    let rest = since.remove(some);
    if rest == Map::<ConnId, nat>::empty() {
        assert forall|other: ConnId| #[trigger]
            since.contains_key(other) && other != some implies older(since, some, other) by {
            assert(rest.contains_key(other));
        }
        lemma_oldest_is_unique(since, some);
    } else {
        lemma_oldest_exists(rest);
        let first = oldest_of(rest)->0;
        let oldest = if older(since, some, first) {
            some
        } else {
            first
        };
        lemma_oldest_is_unique(since, oldest);
    }
}

/// The connections nothing uses, in the order they went unused.
///
/// The pool closes a connection once it has been unused for its idle timeout,
/// and evicts the one that has been unused longest to make room. Entries are
/// keyed both ways, so a connection's entry can be found and removed without a
/// scan.
pub struct UnusedSet {
    since: BTreeMap<(u128, u128, u64), u128>,
    order: BTreeSet<(u128, u128, u128, u64)>,
}

impl View for UnusedSet {
    type V = Map<ConnId, nat>;

    /// When each of the connections went unused, in nanoseconds.
    closed spec fn view(&self) -> Map<ConnId, nat> {
        Map::new(
            |conn_id: ConnId| self.since@.contains_key(conn_id.spec_key()),
            |conn_id: ConnId| self.since@[conn_id.spec_key()] as nat,
        )
    }
}

impl UnusedSet {
    /// Both collections hold the same entries, and every point in time leaves room
    /// for a span to be added.
    pub closed spec fn wf(self) -> bool {
        &&& forall|key: (u128, u128, u64)| #[trigger]
            self.since@.contains_key(key) ==> self.since@[key] <= LONGEST
        &&& forall|key: (u128, u128, u64)| #[trigger]
            self.since@.contains_key(key) ==> self.order@.contains(
                (self.since@[key], key.0, key.1, key.2),
            )
        &&& forall|entry: (u128, u128, u128, u64)| #[trigger]
            self.order@.contains(entry) ==> self.since@.contains_key((entry.1, entry.2, entry.3))
                && self.since@[(entry.1, entry.2, entry.3)] == entry.0
    }

    /// Returns a set without entries.
    pub fn new() -> (set: Self)
        ensures
            set.wf(),
            set@ == Map::<ConnId, nat>::empty(),
    {
        let set = UnusedSet { since: BTreeMap::new(), order: BTreeSet::new() };
        set
    }

    /// Records that the connection went unused at `now`.
    pub fn insert(&mut self, conn_id: ConnId, now: Duration)
        requires
            old(self).wf(),
        ensures
            final(self).wf(),
            final(self)@ == old(self)@.insert(conn_id, now@),
    {
        self.remove(conn_id);
        let key = conn_id.key();
        assert(!self@.contains_key(conn_id));
        let ghost cleared = *self;
        let since: u128 = now.as_nanos();
        self.since.insert(key, since);
        self.order.insert((since, key.0, key.1, key.2));
        proof {
            assert(self@ =~= cleared@.insert(conn_id, now@));
        }
    }

    /// Removes the connection's entry, if it has one.
    pub fn remove(&mut self, conn_id: ConnId)
        requires
            old(self).wf(),
        ensures
            final(self).wf(),
            final(self)@ == old(self)@.remove(conn_id),
    {
        let key = conn_id.key();
        if let Some(since) = self.since.remove(&key) {
            self.order.remove(&(since, key.0, key.1, key.2));
        }
    }

    /// Returns the entry that has been unused longest.
    fn first(&self) -> (entry: Option<(u128, ConnId)>)
        requires
            self.wf(),
        ensures
            match entry {
                Some((since, conn_id)) => is_oldest(self@, conn_id) && self@[conn_id] == since
                    && oldest_of(self@) == Some(conn_id) && since <= LONGEST,
                None => self@ == Map::<ConnId, nat>::empty() && oldest_of(self@) is None,
            },
    {
        let entries = self.order.iter();
        let ghost all = entries.remaining();
        match head(entries) {
            Some(entry) => {
                let conn_id = ConnId {
                    peer: EndpointId { hi: entry.1, lo: entry.2 },
                    generation: Generation(entry.3),
                };
                proof {
                    self.lemma_first_is_oldest(all, conn_id);
                }
                Some((entry.0, conn_id))
            },
            None => None,
        }
    }

    /// Returns when the connection that has been unused longest went unused, in
    /// nanoseconds.
    pub fn oldest(&self) -> (since: Option<u128>)
        requires
            self.wf(),
        ensures
            match since {
                Some(since) => since <= LONGEST && oldest_of(self@) is Some && since
                    == self@[oldest_of(self@)->0],
                None => oldest_of(self@) is None,
            },
            since is None <==> self@ == Map::<ConnId, nat>::empty(),
    {
        match self.first() {
            Some((since, _)) => Some(since),
            None => None,
        }
    }

    /// Removes and returns the connection that has been unused longest.
    pub fn pop_oldest(&mut self) -> (conn_id: Option<ConnId>)
        requires
            old(self).wf(),
        ensures
            final(self).wf(),
            conn_id == oldest_of(old(self)@),
            conn_id is None <==> old(self)@ == Map::<ConnId, nat>::empty(),
            match conn_id {
                Some(conn_id) => is_oldest(old(self)@, conn_id) && final(self)@ == old(
                    self,
                )@.remove(conn_id),
                None => final(self)@ == old(self)@,
            },
    {
        let (_, conn_id) = match self.first() {
            Some(first) => first,
            None => return None,
        };
        self.remove(conn_id);
        Some(conn_id)
    }

    /// Removes and returns a connection that has been unused for `timeout`.
    pub fn pop_expired(&mut self, now: Duration, timeout: Duration) -> (conn_id: Option<ConnId>)
        requires
            old(self).wf(),
        ensures
            final(self).wf(),
            conn_id == match oldest_of(old(self)@) {
                Some(oldest) if expired(old(self)@[oldest], now@, timeout@) => Some(oldest),
                _ => None,
            },
            conn_id is None <==> forall|other: ConnId| #[trigger]
                old(self)@.contains_key(other) ==> !expired(old(self)@[other], now@, timeout@),
            match conn_id {
                Some(conn_id) => is_oldest(old(self)@, conn_id) && final(self)@ == old(
                    self,
                )@.remove(conn_id),
                None => final(self)@ == old(self)@,
            },
    {
        let (since, conn_id) = match self.first() {
            Some(first) => first,
            None => return None,
        };
        if since + timeout.as_nanos() > now.as_nanos() {
            return None;
        }
        self.remove(conn_id);
        Some(conn_id)
    }

    /// The first of the ordered entries is the one that has been unused longest.
    proof fn lemma_first_is_oldest(
        self,
        all: Seq<&(u128, u128, u128, u64)>,
        conn_id: ConnId,
    )
        requires
            self.wf(),
            all.unref().to_set() == self.order@,
            vstd::std_specs::btree::increasing_seq(all),
            all.len() > 0,
            conn_id.spec_key() == (all[0].1, all[0].2, all[0].3),
        ensures
            is_oldest(self@, conn_id),
            self@[conn_id] == all[0].0,
            oldest_of(self@) == Some(conn_id),
    {
        let entries = all.unref();
        assert(self.order@.contains(entries[0]));
        assert forall|other: ConnId| #[trigger]
            self@.contains_key(other) && other != conn_id implies older(self@, conn_id, other) by {
            let key = other.spec_key();
            let entry = (self.since@[key], key.0, key.1, key.2);
            let i = choose|i: int| 0 <= i < entries.len() && entries[i] == entry;
            assert(OrdSpec::cmp_spec(&all[0], &all[i]) is Less);
        }
        lemma_oldest_is_unique(self@, conn_id);
    }
}

/// Returns the first of `items`.
fn head<I: Iterator>(items: I) -> (first: Option<I::Item>)
    requires
        items.obeys_prophetic_iter_laws(),
    ensures
        first == if items.remaining().len() > 0 {
            Some(items.remaining()[0])
        } else {
            None
        },
{
    let mut items = items;
    items.next()
}

} // verus!
