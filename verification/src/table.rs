//! The lock table: a mapping from lock name to the record of its current
//! holder, with try-acquire, release, presence checks, and the sweeper's
//! decrement-and-evict pass.

use vstd::prelude::*;

verus! {

/// One held lock: the client-chosen name, the owner token that a release must
/// present, and the number of sweep ticks left before forced eviction.
pub struct LockEntry {
    pub name: String,
    pub owner: u128,
    pub remaining_ticks: u64,
}

/// The outcome of a release attempt on the table.
#[derive(Clone, Copy, Debug, PartialEq, Eq, Structural)]
pub enum ReleaseOutcome {
    Released,
    NotFound,
    OwnerMismatch,
}

/// The abstract content of a lock table: each held name maps to the pair of
/// its owner token and its remaining ticks.
pub type TableModel = Map<Seq<char>, (u128, u64)>;

/// The mapping that a sequence of entries represents, later entries taking
/// precedence (the table keeps names unique, so precedence never matters).
pub closed spec fn entries_map(s: Seq<LockEntry>) -> TableModel
    decreases s.len(),
{
    if s.len() == 0 {
        Map::empty()
    } else {
        entries_map(s.drop_last()).insert(
            s.last().name@,
            (s.last().owner, s.last().remaining_ticks),
        )
    }
}

/// No two entries of the sequence carry the same name.
pub closed spec fn names_unique(s: Seq<LockEntry>) -> bool {
    forall|i: int, j: int| 0 <= i < j < s.len() ==> s[i].name@ != s[j].name@
}

/// The transition a try-acquire makes on the abstract table: whether it
/// succeeded, and the table it leaves behind.
pub open spec fn try_acquire_spec(
    m: TableModel,
    name: Seq<char>,
    owner: u128,
    lifetime: u64,
) -> (bool, TableModel) {
    if m.dom().contains(name) {
        (false, m)
    } else {
        (true, m.insert(name, (owner, lifetime)))
    }
}

/// The transition a release makes on the abstract table: the outcome, and the
/// table it leaves behind.
pub open spec fn release_spec(m: TableModel, name: Seq<char>, owner: u128) -> (
    ReleaseOutcome,
    TableModel,
) {
    if !m.dom().contains(name) {
        (ReleaseOutcome::NotFound, m)
    } else if m[name].0 != owner {
        (ReleaseOutcome::OwnerMismatch, m)
    } else {
        (ReleaseOutcome::Released, m.remove(name))
    }
}

/// The table after one sweep pass: every entry loses one tick, and entries
/// whose count would reach zero are evicted in the same pass.
pub open spec fn decrement_map(m: TableModel) -> TableModel {
    Map::new(
        |n: Seq<char>| m.dom().contains(n) && m[n].1 > 1,
        |n: Seq<char>| (m[n].0, (m[n].1 - 1) as u64),
    )
}

/// The in-memory table of currently held locks, plus the immutable lifetime
/// (in sweep ticks) that every fresh acquisition starts from.
pub struct LockTable {
    entries: Vec<LockEntry>,
    max_lifetime: u64,
}

impl View for LockTable {
    type V = TableModel;

    closed spec fn view(&self) -> TableModel {
        entries_map(self.entries@)
    }
}

impl LockTable {
    /// The configured lifetime, in sweep ticks, of a freshly acquired lock.
    pub closed spec fn lifetime(&self) -> u64 {
        self.max_lifetime
    }

    /// Well-formedness: names are unique, the lifetime is positive, and every
    /// entry's remaining ticks lie between one and the lifetime.
    pub closed spec fn wf(&self) -> bool {
        &&& self.max_lifetime >= 1
        &&& names_unique(self.entries@)
        &&& forall|i: int|
            0 <= i < self.entries@.len() ==> 1 <= (#[trigger] self.entries@[i]).remaining_ticks
                <= self.max_lifetime
    }

    /// Creates the table a process starts with: empty, with the configured
    /// maximum lock lifetime.
    pub fn new(max_lifetime: u64) -> (t: LockTable)
        requires
            max_lifetime >= 1,
        ensures
            t.wf(),
            t@ == Map::<Seq<char>, (u128, u64)>::empty(),
            t.lifetime() == max_lifetime,
    {
        LockTable { entries: Vec::new(), max_lifetime }
    }

    /// Where `name` sits in the entry vector, if it is held.
    fn find_index(&self, key: &String) -> (r: Option<usize>)
        ensures
            match r {
                Some(i) => i < self.entries@.len() && self.entries@[i as int].name@ == key@,
                None => forall|j: int|
                    0 <= j < self.entries@.len() ==> self.entries@[j].name@ != key@,
            },
    {
        let n = self.entries.len();
        let mut i: usize = 0;
        while i < n
            invariant
                i <= n,
                n == self.entries@.len(),
                forall|j: int| 0 <= j < i ==> self.entries@[j].name@ != key@,
            decreases n - i,
        {
            if self.entries[i].name == *key {
                return Some(i);
            }
            i += 1;
        }
        None
    }

    /// Whether `name` is currently held. A pure read: the table is untouched.
    pub fn is_locked(&self, name: &str) -> (r: bool)
        ensures
            r == self@.dom().contains(name@),
    {
        let key: String = name.to_owned();
        let r = self.find_index(&key);
        proof {
            lemma_entries_map_contains(self.entries@, name@);
        }
        r.is_some()
    }

    /// Tries to take `name` for `owner`: succeeds exactly when the name is
    /// free, in which case the entry starts with the full lifetime; a held
    /// name fails with no change at all, whoever holds it.
    pub fn try_acquire(&mut self, name: &str, owner: u128) -> (r: bool)
        requires
            old(self).wf(),
        ensures
            final(self).wf(),
            final(self).lifetime() == old(self).lifetime(),
            (r, final(self)@) == try_acquire_spec(
                old(self)@,
                name@,
                owner,
                old(self).lifetime(),
            ),
    {
        let key: String = name.to_owned();
        proof {
            lemma_entries_map_contains(self.entries@, name@);
        }
        match self.find_index(&key) {
            Some(_) => false,
            None => {
                let e = LockEntry { name: key, owner, remaining_ticks: self.max_lifetime };
                let ghost ge = e;
                let ghost pre = self.entries@;
                self.entries.push(e);
                proof {
                    assert(pre.push(ge).drop_last() =~= pre);
                    assert(self@ == old(self)@.insert(name@, (owner, old(self).lifetime())));
                }
                true
            },
        }
    }

    /// Releases `name` if it is held and `owner` is exactly the stored owner
    /// token; reports a missing name or a wrong token without any change.
    pub fn release(&mut self, name: &str, owner: u128) -> (r: ReleaseOutcome)
        requires
            old(self).wf(),
        ensures
            final(self).wf(),
            final(self).lifetime() == old(self).lifetime(),
            (r, final(self)@) == release_spec(old(self)@, name@, owner),
    {
        let key: String = name.to_owned();
        proof {
            lemma_entries_map_contains(self.entries@, name@);
        }
        match self.find_index(&key) {
            None => ReleaseOutcome::NotFound,
            Some(i) => {
                proof {
                    lemma_entries_map_value(self.entries@, i as int);
                }
                if self.entries[i].owner == owner {
                    proof {
                        lemma_entries_map_remove(self.entries@, i as int);
                        lemma_names_unique_remove(self.entries@, i as int);
                    }
                    self.entries.remove(i);
                    ReleaseOutcome::Released
                } else {
                    ReleaseOutcome::OwnerMismatch
                }
            },
        }
    }

    /// One sweep pass: ages every held lock by one tick and evicts, in the
    /// same pass, every lock whose count thereby reaches zero.
    pub fn decrement_all(&mut self)
        requires
            old(self).wf(),
        ensures
            final(self).wf(),
            final(self).lifetime() == old(self).lifetime(),
            final(self)@ == decrement_map(old(self)@),
    {
        let n = self.entries.len();
        let mut kept: Vec<LockEntry> = Vec::new();
        let mut i: usize = 0;
        while i < n
            invariant
                i <= n,
                n == self.entries@.len(),
                self == old(self),
                old(self).wf(),
                names_unique(kept@),
                entries_map(kept@) == decrement_map(entries_map(self.entries@.take(i as int))),
                forall|p: int|
                    0 <= p < kept@.len() ==> 1 <= (#[trigger] kept@[p]).remaining_ticks
                        <= self.max_lifetime,
                forall|p: int|
                    0 <= p < kept@.len() ==> exists|j: int|
                        0 <= j < i && (#[trigger] kept@[p]).name@ == self.entries@[j].name@,
            decreases n - i,
        {
            let ghost prefix = self.entries@.take(i as int);
            let ghost cur = self.entries@[i as int];
            proof {
                assert(self.entries@.take(i + 1).drop_last() =~= prefix);
                assert(entries_map(self.entries@.take(i + 1)) == entries_map(prefix).insert(
                    cur.name@,
                    (cur.owner, cur.remaining_ticks),
                ));
                lemma_decrement_map_insert(
                    entries_map(prefix),
                    cur.name@,
                    cur.owner,
                    cur.remaining_ticks,
                );
                assert forall|p: int| 0 <= p < kept@.len() implies (#[trigger] kept@[p]).name@
                    != cur.name@ by {
                    let j = choose|j: int|
                        0 <= j < i && kept@[p].name@ == self.entries@[j].name@;
                    assert(self.entries@[j].name@ != self.entries@[i as int].name@);
                }
            }
            if self.entries[i].remaining_ticks > 1 {
                let e = LockEntry {
                    name: self.entries[i].name.clone(),
                    owner: self.entries[i].owner,
                    remaining_ticks: self.entries[i].remaining_ticks - 1,
                };
                let ghost ge = e;
                let ghost pre = kept@;
                kept.push(e);
                proof {
                    assert(pre.push(ge).drop_last() =~= pre);
                    assert(entries_map(kept@) == entries_map(pre).insert(
                        cur.name@,
                        (cur.owner, (cur.remaining_ticks - 1) as u64),
                    ));
                }
            } else {
                proof {
                    lemma_entries_map_contains(kept@, cur.name@);
                    assert(entries_map(kept@).remove(cur.name@) =~= entries_map(kept@));
                }
            }
            i += 1;
        }
        proof {
            assert(self.entries@.take(n as int) =~= self.entries@);
        }
        self.entries = kept;
    }

    /// The documented shape of every held entry: its remaining ticks are
    /// positive (an entry never lingers at zero) and never above the
    /// configured lifetime.
    pub proof fn lemma_entry_ticks_bounded(&self)
        requires
            self.wf(),
        ensures
            forall|n: Seq<char>|
                #[trigger] self@.dom().contains(n) ==> 1 <= self@[n].1 <= self.lifetime(),
    {
        assert forall|n: Seq<char>| #[trigger] self@.dom().contains(n) implies 1 <= self@[n].1
            <= self.lifetime() by {
            lemma_entries_map_contains(self.entries@, n);
            let i = choose|i: int| 0 <= i < self.entries@.len() && self.entries@[i].name@ == n;
            lemma_entries_map_value(self.entries@, i);
        }
    }
}

/// A name is in the represented mapping exactly when some entry carries it.
proof fn lemma_entries_map_contains(s: Seq<LockEntry>, n: Seq<char>)
    ensures
        entries_map(s).dom().contains(n) <==> exists|i: int|
            0 <= i < s.len() && s[i].name@ == n,
    decreases s.len(),
{
    if s.len() > 0 {
        let sub = s.drop_last();
        lemma_entries_map_contains(sub, n);
        if entries_map(s).dom().contains(n) {
            if n == s.last().name@ {
                assert(s[s.len() - 1].name@ == n);
            } else {
                let i = choose|i: int| 0 <= i < sub.len() && sub[i].name@ == n;
                assert(s[i].name@ == n);
            }
        }
        if exists|i: int| 0 <= i < s.len() && s[i].name@ == n {
            let i = choose|i: int| 0 <= i < s.len() && s[i].name@ == n;
            if i < s.len() - 1 {
                assert(sub[i].name@ == n);
            }
        }
    }
}

/// With unique names, the entry at any index is what the mapping records for
/// that entry's name.
proof fn lemma_entries_map_value(s: Seq<LockEntry>, i: int)
    requires
        names_unique(s),
        0 <= i < s.len(),
    ensures
        entries_map(s).dom().contains(s[i].name@),
        entries_map(s)[s[i].name@] == (s[i].owner, s[i].remaining_ticks),
    decreases s.len(),
{
    if i < s.len() - 1 {
        let sub = s.drop_last();
        assert(names_unique(sub));
        lemma_entries_map_value(sub, i);
        assert(s[i].name@ != s.last().name@);
    }
}

/// Removing the entry at an index removes exactly that entry's name from the
/// represented mapping, provided names are unique.
proof fn lemma_entries_map_remove(s: Seq<LockEntry>, i: int)
    requires
        names_unique(s),
        0 <= i < s.len(),
    ensures
        entries_map(s.remove(i)) == entries_map(s).remove(s[i].name@),
    decreases s.len(),
{
    if i == s.len() - 1 {
        assert(s.remove(i) =~= s.drop_last());
        lemma_entries_map_contains(s.drop_last(), s[i].name@);
        assert forall|j: int| 0 <= j < s.drop_last().len() implies s.drop_last()[j].name@
            != s[i].name@ by {
            assert(s[j].name@ != s[i].name@);
        }
        assert(!entries_map(s.drop_last()).dom().contains(s[i].name@));
        assert(entries_map(s).remove(s[i].name@) =~= entries_map(s.drop_last()));
    } else {
        let t = s.remove(i);
        let sub = s.drop_last();
        assert(names_unique(sub));
        assert(t.last() == s.last());
        assert(t.drop_last() =~= sub.remove(i));
        lemma_entries_map_remove(sub, i);
        assert(s[i].name@ != s.last().name@);
        assert(entries_map(t) == entries_map(sub).remove(s[i].name@).insert(
            s.last().name@,
            (s.last().owner, s.last().remaining_ticks),
        ));
        assert(entries_map(sub).remove(s[i].name@).insert(
            s.last().name@,
            (s.last().owner, s.last().remaining_ticks),
        ) =~= entries_map(s).remove(s[i].name@));
    }
}

/// Removing an entry keeps the remaining names unique.
proof fn lemma_names_unique_remove(s: Seq<LockEntry>, i: int)
    requires
        names_unique(s),
        0 <= i < s.len(),
    ensures
        names_unique(s.remove(i)),
{
    assert forall|p: int, q: int| 0 <= p < q < s.remove(i).len() implies s.remove(i)[p].name@
        != s.remove(i)[q].name@ by {
        let sp = if p < i { p } else { p + 1 };
        let sq = if q < i { q } else { q + 1 };
        assert(s.remove(i)[p] == s[sp]);
        assert(s.remove(i)[q] == s[sq]);
        assert(s[sp].name@ != s[sq].name@);
    }
}

/// How one sweep step treats one more entry: a count above one survives with
/// one tick less, a count of one (or below) is evicted.
proof fn lemma_decrement_map_insert(m: TableModel, n: Seq<char>, o: u128, t: u64)
    ensures
        t > 1 ==> decrement_map(m.insert(n, (o, t))) == decrement_map(m).insert(
            n,
            (o, (t - 1) as u64),
        ),
        t <= 1 ==> decrement_map(m.insert(n, (o, t))) == decrement_map(m).remove(n),
{
    if t > 1 {
        assert(decrement_map(m.insert(n, (o, t))) =~= decrement_map(m).insert(
            n,
            (o, (t - 1) as u64),
        ));
    } else {
        assert(decrement_map(m.insert(n, (o, t))) =~= decrement_map(m).remove(n));
    }
}

} // verus!
