use vstd::prelude::*;

verus! {

use vstd::set_lib::lemma_len_subset;

/// Request identifiers stay at or below this bound; allocation wraps here.
pub const REQUEST_ID_BOUND: u64 = 0x0fffffffffffffff;

/// The correlation map a sequence of entries stands for.
pub open spec fn entries_map<H>(s: Seq<(u64, H)>) -> Map<u64, H>
    decreases s.len(),
{
    if s.len() == 0 {
        Map::empty()
    } else {
        entries_map(s.drop_last()).insert(s.last().0, s.last().1)
    }
}

/// True when no two entries share a key.
pub open spec fn keys_distinct<H>(s: Seq<(u64, H)>) -> bool {
    forall|i: int, j: int| 0 <= i < j < s.len() ==> (#[trigger] s[i]).0 != (#[trigger] s[j]).0
}

/// True when some entry bears the key `k`.
pub open spec fn has_key<H>(s: Seq<(u64, H)>, k: u64) -> bool {
    exists|i: int| 0 <= i < s.len() && (#[trigger] s[i]).0 == k
}

proof fn lemma_entries_map_dom<H>(s: Seq<(u64, H)>)
    ensures
        entries_map(s).dom().finite(),
        forall|k: u64| #[trigger] entries_map(s).contains_key(k) <==> has_key(s, k),
    decreases s.len(),
{
    if s.len() == 0 {
    } else {
        lemma_entries_map_dom(s.drop_last());
        assert forall|k: u64| #[trigger] entries_map(s).contains_key(k) implies has_key(s, k) by {
            if k == s.last().0 {
                assert(s[s.len() - 1].0 == k);
            } else {
                let i = choose|i: int| 0 <= i < s.drop_last().len() && (#[trigger] s.drop_last()[i]).0
                    == k;
                assert(s[i].0 == k);
            }
        }
        assert forall|k: u64| has_key(s, k) implies #[trigger] entries_map(s).contains_key(k) by {
            let i = choose|i: int| 0 <= i < s.len() && (#[trigger] s[i]).0 == k;
            if i < s.len() - 1 {
                assert(s.drop_last()[i].0 == k);
            }
        }
    }
}

proof fn lemma_entries_map_values<H>(s: Seq<(u64, H)>)
    requires
        keys_distinct(s),
    ensures
        entries_map(s).dom().len() == s.len(),
        forall|i: int| 0 <= i < s.len() ==> entries_map(s).contains_key((#[trigger] s[i]).0)
            && entries_map(s)[s[i].0] == s[i].1,
    decreases s.len(),
{
    lemma_entries_map_dom(s);
    if s.len() > 0 {
        let dl = s.drop_last();
        lemma_entries_map_dom(dl);
        lemma_entries_map_values(dl);
        assert(!has_key(dl, s.last().0)) by {
            if has_key(dl, s.last().0) {
                let i = choose|i: int| 0 <= i < dl.len() && (#[trigger] dl[i]).0 == s.last().0;
                assert(s[i].0 == s[s.len() - 1].0);
            }
        }
        assert forall|i: int| 0 <= i < s.len() implies entries_map(s).contains_key(
            (#[trigger] s[i]).0,
        ) && entries_map(s)[s[i].0] == s[i].1 by {
            if i < s.len() - 1 {
                assert(dl[i] == s[i]);
                assert(s[i].0 != s.last().0);
            }
        }
    }
}

proof fn lemma_entries_map_remove<H>(s: Seq<(u64, H)>, idx: int)
    requires
        keys_distinct(s),
        0 <= idx < s.len(),
    ensures
        entries_map(s.remove(idx)) == entries_map(s).remove(s[idx].0),
    decreases s.len(),
{
    lemma_entries_map_dom(s.drop_last());
    lemma_entries_map_values(s);
    if idx == s.len() - 1 {
        assert(s.remove(idx) =~= s.drop_last());
        assert(!has_key(s.drop_last(), s.last().0)) by {
            if has_key(s.drop_last(), s.last().0) {
                let dl = s.drop_last();
                let i = choose|i: int| 0 <= i < dl.len() && (#[trigger] dl[i]).0 == s.last().0;
                assert(s[i].0 == s[s.len() - 1].0);
            }
        }
        assert(entries_map(s).remove(s[idx].0) =~= entries_map(s.drop_last()));
    } else {
        let dl = s.drop_last();
        assert(keys_distinct(dl)) by {
            assert(forall|i: int, j: int| 0 <= i < j < dl.len() ==> (#[trigger] dl[i]).0 != (
            #[trigger] dl[j]).0) by {
                assert(forall|i: int| 0 <= i < dl.len() ==> dl[i] == s[i]);
            }
        }
        lemma_entries_map_remove(dl, idx);
        assert(s.remove(idx).drop_last() =~= dl.remove(idx));
        assert(s.remove(idx).last() == s.last());
        assert(s[idx].0 != s.last().0);
        assert(entries_map(s.remove(idx)) == entries_map(dl.remove(idx)).insert(
            s.last().0,
            s.last().1,
        ));
        assert(entries_map(dl).remove(s[idx].0).insert(s.last().0, s.last().1) =~= entries_map(
            dl,
        ).insert(s.last().0, s.last().1).remove(s[idx].0));
    }
}

/// The identifiers below `c`.
spec fn ids_below(c: nat) -> Set<u64> {
    Set::new(|x: u64| (x as nat) < c)
}

proof fn lemma_ids_below_len(c: nat)
    requires
        c <= 0x10000000000000000,
    ensures
        ids_below(c).finite(),
        ids_below(c).len() == c,
    decreases c,
{
    if c == 0 {
        assert(ids_below(0) =~= Set::<u64>::empty());
    } else {
        lemma_ids_below_len((c - 1) as nat);
        assert(ids_below(c) =~= ids_below((c - 1) as nat).insert(((c - 1) as nat) as u64));
    }
}

/// The shared table correlating outstanding request identifiers with their
/// single-use completion handles. A request identifier is a key here if and
/// only if a command bearing it has been registered for transmission and no
/// matching reply has yet been observed.
pub struct PendingTable<H> {
    entries: Vec<(u64, H)>,
}

impl<H> View for PendingTable<H> {
    type V = Map<u64, H>;

    /// The correlation map: each outstanding identifier and its handle.
    closed spec fn view(&self) -> Map<u64, H> {
        entries_map(self.entries@)
    }
}

impl<H> PendingTable<H> {
    /// Well-formed: no key is doubled and every key respects the bound.
    pub closed spec fn wf(&self) -> bool {
        keys_distinct(self.entries@) && (forall|i: int|
            0 <= i < self.entries@.len() ==> (#[trigger] self.entries@[i]).0 <= REQUEST_ID_BOUND)
    }

    /// Creates an empty table.
    pub fn new() -> (r: Self)
        ensures
            r.wf(),
            r@ == Map::<u64, H>::empty(),
    {
        Self { entries: Vec::new() }
    }

    /// The number of outstanding requests.
    pub fn size(&self) -> (r: usize)
        requires
            self.wf(),
        ensures
            r == self@.dom().len(),
    {
        proof {
            lemma_entries_map_values(self.entries@);
        }
        self.entries.len()
    }

    /// Whether a request with identifier `id` is outstanding.
    pub fn contains(&self, id: u64) -> (r: bool)
        ensures
            r == self@.contains_key(id),
    {
        proof {
            lemma_entries_map_dom(self.entries@);
        }
        let mut i: usize = 0;
        while i < self.entries.len()
            invariant
                i <= self.entries@.len(),
                forall|m: int| 0 <= m < i ==> (#[trigger] self.entries@[m]).0 != id,
            decreases self.entries@.len() - i,
        {
            if self.entries[i].0 == id {
                proof {
                    lemma_entries_map_dom(self.entries@);
                    assert(has_key(self.entries@, id)) by {
                        assert((self.entries@[i as int]).0 == id);
                    }
                }
                return true;
            }
            i += 1;
        }
        proof {
            assert(!has_key(self.entries@, id));
        }
        false
    }

    /// Registers a completion handle under a fresh identifier and returns
    /// that identifier. The fresh identifier is one past the highest
    /// outstanding one; when that bound is exhausted, the lowest released
    /// identifier is reused. While any request is pending below the bound,
    /// the identifier handed out is therefore strictly greater than every
    /// outstanding one.
    pub fn register(&mut self, h: H) -> (id: u64)
        requires
            old(self).wf(),
            old(self)@.dom().len() <= REQUEST_ID_BOUND,
        ensures
            final(self).wf(),
            !old(self)@.contains_key(id),
            final(self)@ == old(self)@.insert(id, h),
            id <= REQUEST_ID_BOUND,
            (forall|k: u64| old(self)@.contains_key(k) ==> k < REQUEST_ID_BOUND) ==> (forall|k: u64|
                old(self)@.contains_key(k) ==> k < id),
    {
        proof {
            lemma_entries_map_dom(self.entries@);
            lemma_entries_map_values(self.entries@);
        }
        let ghost s0: Seq<(u64, H)> = self.entries@;
        let mut max: u64 = 0;
        let mut i: usize = 0;
        while i < self.entries.len()
            invariant
                i <= self.entries@.len(),
                self.entries@ == s0,
                max <= REQUEST_ID_BOUND || i == 0,
                max == 0 || has_key(s0, max),
                forall|m: int| 0 <= m < i ==> (#[trigger] s0[m]).0 <= max,
                self.wf(),
            decreases self.entries@.len() - i,
        {
            if self.entries[i].0 > max {
                max = self.entries[i].0;
                assert(s0[i as int].0 == max);
            }
            i += 1;
        }
        let id: u64 = if max < REQUEST_ID_BOUND {
            max + 1
        } else {
            // Every identifier up to the bound was handed out at some point;
            // reuse the lowest one that is no longer outstanding. One always
            // exists because fewer identifiers are outstanding than the id
            // space holds.
            let mut c: u64 = 0;
            let mut free: bool = !self.contains(0);
            while !free
                invariant
                    self.entries@ == s0,
                    self.wf(),
                    self@.dom().len() <= REQUEST_ID_BOUND,
                    free == !self@.contains_key(c),
                    forall|x: u64| x < c ==> self@.contains_key(x),
                    c <= REQUEST_ID_BOUND,
                decreases REQUEST_ID_BOUND - c,
            {
                proof {
                    lemma_entries_map_dom(self.entries@);
                    assert(ids_below(c as nat + 1).subset_of(self@.dom())) by {
                        assert forall|x: u64| ids_below(c as nat + 1).contains(x) implies self@.dom().contains(
                            x,
                        ) by {
                            if x < c {
                            } else {
                                assert(x == c);
                            }
                        }
                    }
                    lemma_ids_below_len(c as nat + 1);
                    lemma_len_subset(ids_below(c as nat + 1), self@.dom());
                    assert(c as nat + 1 <= REQUEST_ID_BOUND);
                }
                c += 1;
                free = !self.contains(c);
            }
            c
        };
        proof {
            if max < REQUEST_ID_BOUND {
                assert(!has_key(s0, id)) by {
                    if has_key(s0, id) {
                        let m = choose|m: int| 0 <= m < s0.len() && (#[trigger] s0[m]).0 == id;
                        assert(s0[m].0 <= max);
                    }
                }
            }
            assert(!self@.contains_key(id));
        }
        let ghost before: Map<u64, H> = self@;
        self.entries.push((id, h));
        proof {
            assert(self.entries@.drop_last() =~= s0);
            assert(self.entries@.last() == (id, h));
            lemma_entries_map_dom(s0);
            assert(self.wf()) by {
                assert(forall|m: int| 0 <= m < s0.len() ==> self.entries@[m] == s0[m]);
                assert(forall|m: int|
                    0 <= m < s0.len() ==> (#[trigger] self.entries@[m]).0 != id) by {
                    assert(!has_key(s0, id));
                    assert(forall|m: int| 0 <= m < s0.len() ==> (#[trigger] s0[m]).0 != id);
                }
            }
        }
        id
    }

    /// Takes the completion handle registered under `id`, removing the
    /// entry. Returns `None`, changing nothing, when no such request is
    /// outstanding — a reply for an unknown or expired identifier is
    /// dropped, not an error.
    pub fn fulfill(&mut self, id: u64) -> (r: Option<H>)
        requires
            old(self).wf(),
        ensures
            final(self).wf(),
            match r {
                Some(h) => old(self)@.contains_key(id) && h == old(self)@[id] && final(self)@
                    == old(self)@.remove(id),
                None => !old(self)@.contains_key(id) && final(self)@ == old(self)@,
            },
    {
        proof {
            lemma_entries_map_dom(self.entries@);
            lemma_entries_map_values(self.entries@);
        }
        let ghost s0: Seq<(u64, H)> = self.entries@;
        let mut i: usize = 0;
        while i < self.entries.len()
            invariant
                i <= self.entries@.len(),
                self.entries@ == s0,
                keys_distinct(s0),
                forall|m: int| 0 <= m < s0.len() ==> (#[trigger] s0[m]).0 <= REQUEST_ID_BOUND,
                old(self)@ == entries_map(s0),
                forall|m: int| 0 <= m < i ==> (#[trigger] s0[m]).0 != id,
            decreases self.entries@.len() - i,
        {
            if self.entries[i].0 == id {
                proof {
                    lemma_entries_map_dom(s0);
                    lemma_entries_map_values(s0);
                    lemma_entries_map_remove(s0, i as int);
                    assert(has_key(s0, id)) by {
                        assert((s0[i as int]).0 == id);
                    }
                }
                let entry = self.entries.remove(i);
                proof {
                    s0.remove_ensures(i as int);
                    assert forall|a: int, b: int|
                        0 <= a < b < self.entries@.len() implies (#[trigger] self.entries@[a]).0
                        != (#[trigger] self.entries@[b]).0 by {
                        if a < i {
                            assert(self.entries@[a] == s0[a]);
                        } else {
                            assert(self.entries@[a] == s0[a + 1]);
                        }
                        if b < i {
                            assert(self.entries@[b] == s0[b]);
                        } else {
                            assert(self.entries@[b] == s0[b + 1]);
                        }
                    }
                    assert forall|a: int| 0 <= a < self.entries@.len() implies (
                    #[trigger] self.entries@[a]).0 <= REQUEST_ID_BOUND by {
                        if a < i {
                            assert(self.entries@[a] == s0[a]);
                        } else {
                            assert(self.entries@[a] == s0[a + 1]);
                        }
                    }
                }
                return Some(entry.1);
            }
            i += 1;
        }
        None
    }
}

} // verus!
