//! Tables of transaction hashes with a time each: the pending set (time first
//! seen) and the resolved set (time resolved).
use vstd::prelude::*;

verus! {

/// Whether an entry stamped `t` has reached `max_age` at `now`.
pub open spec fn is_stale(t: u64, now: u64, max_age: u64) -> bool {
    t <= now && now - t >= max_age
}

/// One entry: a transaction hash and its time.
#[derive(Clone, Debug)]
pub struct PendingEntry {
    pub tx_hash: String,
    pub first_seen_ms: u64,
}

/// Transaction hashes, each with a time in milliseconds; no hash occurs
/// twice and arrival order is kept. Holds the pending set and the resolved set.
pub struct TxTable {
    entries: Vec<PendingEntry>,
    model: Ghost<Map<Seq<char>, u64>>,
}

impl TxTable {
    /// Hash to time of every entry.
    pub closed spec fn view(&self) -> Map<Seq<char>, u64> {
        self.model@
    }

    /// The hashes in arrival order.
    pub closed spec fn order(&self) -> Seq<Seq<char>> {
        self.entries@.map_values(|e: PendingEntry| e.tx_hash@)
    }

    pub closed spec fn wf(&self) -> bool {
        &&& forall|i: int, j: int|
            0 <= i < j < self.entries@.len() ==> self.entries@[i].tx_hash@
                != self.entries@[j].tx_hash@
        &&& forall|i: int|
            0 <= i < self.entries@.len() ==> self.model@.contains_key(
                #[trigger] self.entries@[i].tx_hash@,
            ) && self.model@[self.entries@[i].tx_hash@] == self.entries@[i].first_seen_ms
        &&& forall|k: Seq<char>|
            #[trigger] self.model@.contains_key(k) ==> exists|i: int|
                0 <= i < self.entries@.len() && #[trigger] self.entries@[i].tx_hash@ == k
    }

    pub proof fn lemma_order(&self)
        requires
            self.wf(),
        ensures
            self.order().no_duplicates(),
            self.order().to_set() == self.view().dom(),
    {
        assert forall|k: Seq<char>| #[trigger] self.view().dom().contains(k) implies self.order().contains(k) by {
            let i = choose|i: int| 0 <= i < self.entries@.len() && #[trigger] self.entries@[i].tx_hash@ == k;
            assert(self.order()[i] == k);
        }
        assert forall|k: Seq<char>| #[trigger] self.order().contains(k) implies self.view().dom().contains(k) by {
            let i = choose|i: int| 0 <= i < self.order().len() && self.order()[i] == k;
            assert(self.entries@[i].tx_hash@ == k);
        }
        assert(self.order().to_set() =~= self.view().dom());
    }

    pub fn new() -> (r: TxTable)
        ensures
            r.wf(),
            r.view() == Map::<Seq<char>, u64>::empty(),
            r.order() == Seq::<Seq<char>>::empty(),
    {
        let r = TxTable { entries: Vec::new(), model: Ghost(Map::empty()) };
        assert(r.order() =~= Seq::<Seq<char>>::empty());
        r
    }

    pub fn len(&self) -> (r: usize)
        requires
            self.wf(),
        ensures
            r == self.view().len(),
    {
        proof {
            self.lemma_order();
            self.order().unique_seq_to_set();
        }
        self.entries.len()
    }

    fn find(&self, h: &str) -> (r: Option<usize>)
        requires
            self.wf(),
        ensures
            r is None <==> !self.view().contains_key(h@),
            r matches Some(i) ==> i < self.entries@.len() && self.entries@[i as int].tx_hash@
                == h@,
    {
        let mut i: usize = 0;
        while i < self.entries.len()
            invariant
                self.wf(),
                i <= self.entries@.len(),
                forall|j: int| 0 <= j < i ==> self.entries@[j].tx_hash@ != h@,
            decreases self.entries@.len() - i,
        {
            if same_text(&self.entries[i].tx_hash, h) {
                return Some(i);
            }
            i = i + 1;
        }
        None
    }

    /// Whether `h` is in the table.
    pub fn contains(&self, h: &str) -> (r: bool)
        requires
            self.wf(),
        ensures
            r == self.view().contains_key(h@),
    {
        self.find(h).is_some()
    }

    /// The time stored with `h`, if it is in the table.
    pub fn first_seen(&self, h: &str) -> (r: Option<u64>)
        requires
            self.wf(),
        ensures
            r == (if self.view().contains_key(h@) {
                Some(self.view()[h@])
            } else {
                None::<u64>
            }),
    {
        match self.find(h) {
            Some(i) => Some(self.entries[i].first_seen_ms),
            None => None,
        }
    }

    /// Adds a hash that is not in the table yet.
    pub fn insert(&mut self, h: String, now: u64)
        requires
            old(self).wf(),
            !old(self).view().contains_key(h@),
        ensures
            final(self).wf(),
            final(self).view() == old(self).view().insert(h@, now),
            final(self).order() == old(self).order().push(h@),
    {
        let ghost key = h@;
        self.entries.push(PendingEntry { tx_hash: h, first_seen_ms: now });
        self.model = Ghost(self.model@.insert(key, now));
        proof {
            let n = self.entries@.len() - 1;
            assert forall|k: Seq<char>| #[trigger] self.model@.contains_key(k) implies exists|i: int|
                0 <= i < self.entries@.len() && #[trigger] self.entries@[i].tx_hash@ == k by {
                if k == key {
                    assert(self.entries@[n].tx_hash@ == k);
                } else {
                    assert(old(self).model@.contains_key(k));
                    let i = choose|i: int| 0 <= i < old(self).entries@.len() && #[trigger] old(self).entries@[i].tx_hash@ == k;
                    assert(self.entries@[i].tx_hash@ == k);
                }
            }
            assert(self.order() =~= old(self).order().push(key));
        }
    }

    /// Removes `h`; nothing changes when it is absent.
    pub fn remove(&mut self, h: &str)
        requires
            old(self).wf(),
        ensures
            final(self).wf(),
            final(self).view() == old(self).view().remove(h@),
    {
        match self.find(h) {
            None => {
                assert(self.model@.remove(h@) =~= self.model@);
            },
            Some(i) => {
                let ghost old_entries = self.entries@;
                self.entries.remove(i);
                self.model = Ghost(self.model@.remove(h@));
                proof {
                    assert forall|a: int, b: int|
                        0 <= a < b < self.entries@.len() implies self.entries@[a].tx_hash@
                            != self.entries@[b].tx_hash@ by {
                        let oa = if a < i { a } else { a + 1 };
                        let ob = if b < i { b } else { b + 1 };
                        assert(self.entries@[a] == old_entries[oa]);
                        assert(self.entries@[b] == old_entries[ob]);
                    }
                    assert forall|a: int| 0 <= a < self.entries@.len() implies self.model@.contains_key(
                        #[trigger] self.entries@[a].tx_hash@,
                    ) && self.model@[self.entries@[a].tx_hash@] == self.entries@[a].first_seen_ms by {
                        let oa = if a < i { a } else { a + 1 };
                        assert(self.entries@[a] == old_entries[oa]);
                        assert(old_entries[oa].tx_hash@ != old_entries[i as int].tx_hash@);
                    }
                    assert forall|k: Seq<char>| #[trigger] self.model@.contains_key(k) implies exists|a: int|
                        0 <= a < self.entries@.len() && #[trigger] self.entries@[a].tx_hash@ == k by {
                        let oa = choose|oa: int| 0 <= oa < old_entries.len() && #[trigger] old_entries[oa].tx_hash@ == k;
                        assert(oa != i);
                        let a = if oa < i { oa } else { oa - 1 };
                        assert(self.entries@[a] == old_entries[oa]);
                    }
                }
            },
        }
    }

    /// The hashes in arrival order.
    pub fn hashes(&self) -> (r: Vec<String>)
        requires
            self.wf(),
        ensures
            r@.len() == self.order().len(),
            forall|k: int| 0 <= k < r@.len() ==> #[trigger] r@[k]@ == self.order()[k],
    {
        let mut r: Vec<String> = Vec::new();
        let mut i: usize = 0;
        while i < self.entries.len()
            invariant
                i <= self.entries@.len(),
                r@.len() == i,
                forall|k: int| 0 <= k < i ==> #[trigger] r@[k]@ == self.order()[k],
            decreases self.entries@.len() - i,
        {
            let h = self.entries[i].tx_hash.clone();
            assert(h@ == self.order()[i as int]);
            r.push(h);
            i = i + 1;
        }
        r
    }

    /// Removes every entry at least `max_age` older than `now`, and returns
    /// the removed hashes in arrival order.
    pub fn remove_stale(&mut self, now: u64, max_age: u64) -> (r: Vec<String>)
        requires
            old(self).wf(),
        ensures
            final(self).wf(),
            forall|k: Seq<char>|
                #[trigger] final(self).view().contains_key(k) <==> old(self).view().contains_key(k)
                    && !is_stale(old(self).view()[k], now, max_age),
            forall|k: Seq<char>|
                #[trigger] final(self).view().contains_key(k) ==> final(self).view()[k] == old(
                    self,
                ).view()[k],
            forall|m: int|
                0 <= m < r@.len() ==> old(self).view().contains_key(#[trigger] r@[m]@) && is_stale(
                    old(self).view()[r@[m]@],
                    now,
                    max_age,
                ),
            forall|k: Seq<char>|
                old(self).view().contains_key(k) && is_stale(old(self).view()[k], now, max_age)
                    ==> exists|m: int| 0 <= m < r@.len() && #[trigger] r@[m]@ == k,
    {
        let ghost before = self.view();
        let ghost order = self.order();
        proof {
            self.lemma_order();
        }
        let hs = self.hashes();
        let mut removed: Vec<String> = Vec::new();
        let mut i: usize = 0;
        while i < hs.len()
            invariant
                self.wf(),
                hs@.len() == order.len(),
                forall|k: int| 0 <= k < hs@.len() ==> #[trigger] hs@[k]@ == order[k],
                order.no_duplicates(),
                order.to_set() == before.dom(),
                i <= hs@.len(),
                forall|k: Seq<char>|
                    #[trigger] self.view().contains_key(k) ==> before.contains_key(k)
                        && self.view()[k] == before[k],
                forall|k: Seq<char>|
                    before.contains_key(k) && !is_stale(before[k], now, max_age)
                        ==> #[trigger] self.view().contains_key(k),
                forall|j: int|
                    0 <= j < i && is_stale(before[#[trigger] order[j]], now, max_age)
                        ==> !self.view().contains_key(order[j]) && exists|m: int|
                        0 <= m < removed@.len() && #[trigger] removed@[m]@ == order[j],
                forall|j: int| i <= j < hs@.len() ==> self.view().contains_key(#[trigger] order[j]),
                forall|m: int|
                    0 <= m < removed@.len() ==> before.contains_key(#[trigger] removed@[m]@)
                        && is_stale(before[removed@[m]@], now, max_age),
            decreases hs@.len() - i,
        {
            assert(order.to_set().contains(order[i as int]));
            let t = match self.first_seen(&hs[i]) {
                Some(t) => t,
                None => 0,
            };
            if now >= t && now - t >= max_age {
                self.remove(&hs[i]);
                let h = hs[i].clone();
                let ghost prev = removed@;
                removed.push(h);
                proof {
                    assert forall|j: int|
                        0 <= j < i && is_stale(before[#[trigger] order[j]], now, max_age) implies exists|m: int|
                        0 <= m < removed@.len() && #[trigger] removed@[m]@ == order[j] by {
                        let m = choose|m: int| 0 <= m < prev.len() && #[trigger] prev[m]@ == order[j];
                        assert(removed@[m] == prev[m]);
                    }
                    assert(removed@[removed@.len() - 1]@ == order[i as int]);
                    assert forall|j: int| i < j < hs@.len() implies self.view().contains_key(
                        #[trigger] order[j],
                    ) by {
                        assert(order[j] != order[i as int]);
                    }
                }
            }
            i = i + 1;
        }
        proof {
            assert forall|k: Seq<char>|
                before.contains_key(k) && is_stale(before[k], now, max_age) implies exists|m: int|
                0 <= m < removed@.len() && #[trigger] removed@[m]@ == k by {
                assert(order.to_set().contains(k));
                let j = choose|j: int| 0 <= j < order.len() && order[j] == k;
                assert(is_stale(before[order[j]], now, max_age));
            }
            assert forall|k: Seq<char>| #[trigger] self.view().contains_key(k) implies !is_stale(before[k], now, max_age) by {
                assert(order.to_set().contains(k));
                let j = choose|j: int| 0 <= j < order.len() && order[j] == k;
                if is_stale(before[order[j]], now, max_age) {
                    assert(!self.view().contains_key(order[j]));
                }
            }
        }
        removed
    }
}

/// Whether two strings hold the same characters.
pub fn same_text(a: &str, b: &str) -> (r: bool)
    ensures
        r == (a@ == b@),
{
    let n = a.unicode_len();
    if n != b.unicode_len() {
        return false;
    }
    let mut i: usize = 0;
    while i < n
        invariant
            i <= n,
            n == a@.len(),
            n == b@.len(),
            a@.subrange(0, i as int) == b@.subrange(0, i as int),
        decreases n - i,
    {
        if a.get_char(i) != b.get_char(i) {
            return false;
        }
        assert(a@.subrange(0, i + 1) =~= a@.subrange(0, i as int).push(a@[i as int]));
        assert(b@.subrange(0, i + 1) =~= b@.subrange(0, i as int).push(b@[i as int]));
        i = i + 1;
    }
    assert(a@.subrange(0, n as int) =~= a@);
    assert(b@.subrange(0, n as int) =~= b@);
    true
}

} // verus!
