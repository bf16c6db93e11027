use vstd::prelude::*;
use vstd::pervasive::VecAdditionalExecFns;

verus! {

/// An opaque participant identifier.
///
/// The library never implements address-format rules itself: whether a raw
/// string is a well-formed address is the host oracle's decision (see
/// `crate::contract::try_upsert_entry`). A value of this type either came out
/// of that oracle or was supplied by a caller that answers for it, the way
/// the host hands a transaction sender in already validated.
pub struct Addr {
    s: String,
}

impl View for Addr {
    type V = Seq<char>;

    closed spec fn view(&self) -> Seq<char> {
        self.s@
    }
}

impl Addr {
    /// Wraps a string as an address without consulting the oracle.
    pub fn unchecked(s: String) -> (r: Addr)
        ensures
            r@ == s@,
    {
        Addr { s }
    }

    pub fn as_str(&self) -> (r: &str)
        ensures
            r@ == self@,
    {
        self.s.as_str()
    }

    pub fn into_string(self) -> (r: String)
        ensures
            r@ == self@,
    {
        self.s
    }

    /// True exactly when the two addresses are the same identifier.
    pub fn same_as(&self, other: &Addr) -> (r: bool)
        ensures
            r == (self@ == other@),
    {
        self.s == other.s
    }
}

/// The transaction context the host hands to a call: the identity of the
/// sender, which the host has already validated.
pub struct MessageInfo {
    pub sender: Addr,
}

/// The singleton owner record, written once at initialization and only read
/// thereafter.
pub struct State {
    pub owner: Addr,
}

/// One ledger record: an address and how many times it has been entered.
pub struct Entry {
    pub addr: Addr,
    pub count: u8,
}

/// The count an upsert writes, given the count found under the key:
/// a first entry starts at 1, a later one increments, saturating at the
/// one-byte maximum of 255.
pub open spec fn spec_increment(num_entries: Option<u8>) -> u8 {
    match num_entries {
        Option::Some(n) => if n == 255 {
            255u8
        } else {
            (n + 1) as u8
        },
        Option::None => 1u8,
    }
}

/// The count stored under `k` after one upsert against ledger `m`.
pub open spec fn bumped_count(m: Map<Seq<char>, u8>, k: Seq<char>) -> u8 {
    spec_increment(if m.contains_key(k) {
        Option::Some(m[k])
    } else {
        Option::None
    })
}

/// The abstract ledger a sequence of records denotes.
pub open spec fn seq_to_map(s: Seq<Entry>) -> Map<Seq<char>, u8>
    decreases s.len(),
{
    if s.len() == 0 {
        Map::empty()
    } else {
        seq_to_map(s.drop_last()).insert(s.last().addr@, s.last().count)
    }
}

spec fn keys_unique(s: Seq<Entry>) -> bool {
    forall|i: int, j: int| 0 <= i < j < s.len() ==> s[i].addr@ != s[j].addr@
}

spec fn counts_positive(s: Seq<Entry>) -> bool {
    forall|i: int| 0 <= i < s.len() ==> (#[trigger] s[i]).count >= 1
}

proof fn lemma_map_domain(s: Seq<Entry>)
    ensures
        forall|k: Seq<char>|
            #[trigger] seq_to_map(s).contains_key(k) <==> exists|i: int|
                0 <= i < s.len() && (#[trigger] s[i]).addr@ == k,
    decreases s.len(),
{
    if s.len() > 0 {
        let dl = s.drop_last();
        lemma_map_domain(dl);
        assert(seq_to_map(s) == seq_to_map(dl).insert(s.last().addr@, s.last().count));
        assert forall|k: Seq<char>| #[trigger] seq_to_map(s).contains_key(k) implies exists|i: int|
            0 <= i < s.len() && (#[trigger] s[i]).addr@ == k by {
            if k == s.last().addr@ {
                assert(s[s.len() - 1].addr@ == k);
            } else {
                assert(seq_to_map(dl).contains_key(k));
                let i = choose|i: int| 0 <= i < dl.len() && (#[trigger] dl[i]).addr@ == k;
                assert(dl[i] == s[i]);
                assert(s[i].addr@ == k);
            }
        };
        assert forall|k: Seq<char>|
            (exists|i: int| 0 <= i < s.len() && (#[trigger] s[i]).addr@ == k)
            implies #[trigger] seq_to_map(s).contains_key(k) by {
            let i = choose|i: int| 0 <= i < s.len() && (#[trigger] s[i]).addr@ == k;
            if i < s.len() - 1 {
                assert(dl[i].addr@ == k);
                assert(seq_to_map(dl).contains_key(k));
            }
        };
    }
}

proof fn lemma_map_index(s: Seq<Entry>, i: int)
    requires
        keys_unique(s),
        0 <= i < s.len(),
    ensures
        seq_to_map(s).contains_key(s[i].addr@),
        seq_to_map(s)[s[i].addr@] == s[i].count,
    decreases s.len(),
{
    if i < s.len() - 1 {
        assert(keys_unique(s.drop_last())) by {
            assert(forall|p: int, q: int|
                0 <= p < q < s.drop_last().len() ==> s.drop_last()[p] == s[p]
                    && s.drop_last()[q] == s[q]);
        };
        assert(s.drop_last()[i] == s[i]);
        lemma_map_index(s.drop_last(), i);
        assert(s[i].addr@ != s.last().addr@);
    }
}

proof fn lemma_map_update(s: Seq<Entry>, i: int, e: Entry)
    requires
        keys_unique(s),
        0 <= i < s.len(),
        e.addr@ == s[i].addr@,
    ensures
        seq_to_map(s.update(i, e)) == seq_to_map(s).insert(e.addr@, e.count),
    decreases s.len(),
{
    let k = e.addr@;
    if i == s.len() - 1 {
        assert(s.update(i, e).drop_last() =~= s.drop_last());
        assert(s.update(i, e).last() == e);
        assert(seq_to_map(s.update(i, e)) =~= seq_to_map(s).insert(k, e.count));
    } else {
        assert(keys_unique(s.drop_last())) by {
            assert(forall|p: int, q: int|
                0 <= p < q < s.drop_last().len() ==> s.drop_last()[p] == s[p]
                    && s.drop_last()[q] == s[q]);
        };
        assert(s.drop_last()[i] == s[i]);
        lemma_map_update(s.drop_last(), i, e);
        assert(s.update(i, e).drop_last() =~= s.drop_last().update(i, e));
        assert(s.update(i, e).last() == s.last());
        assert(s.last().addr@ != k);
        assert(seq_to_map(s.update(i, e)) =~= seq_to_map(s).insert(k, e.count));
    }
}

/// The entry ledger: the persistent map from address to entry count, owned
/// by the contract instance and mutated only through `upsert`.
///
/// The records are held as a sequence with pairwise-distinct keys; the
/// ledger a value denotes is its view, a `Map` from address to count. An
/// address with no record is absent from the map ("never entered"), never
/// stored with count zero: every stored count is at least 1.
pub struct Entries {
    vec: Vec<Entry>,
}

impl View for Entries {
    type V = Map<Seq<char>, u8>;

    closed spec fn view(&self) -> Map<Seq<char>, u8> {
        seq_to_map(self.vec@)
    }
}

impl Entries {
    /// No key is recorded twice, and no recorded count is zero.
    pub closed spec fn wf(&self) -> bool {
        keys_unique(self.vec@) && counts_positive(self.vec@)
    }

    /// An empty ledger.
    pub fn new() -> (r: Entries)
        ensures
            r.wf(),
            r@ == Map::<Seq<char>, u8>::empty(),
    {
        let r = Entries { vec: Vec::new() };
        proof {
            assert(r@ =~= Map::<Seq<char>, u8>::empty());
        }
        r
    }

    fn position_of(&self, key: &Addr) -> (r: Option<usize>)
        ensures
            r matches Some(i) ==> i < self.vec@.len() && self.vec@[i as int].addr@ == key@,
            r is None ==> forall|j: int| 0 <= j < self.vec@.len()
                ==> (#[trigger] self.vec@[j]).addr@ != key@,
    {
        let n = self.vec.len();
        let mut i: usize = 0;
        while i < n
            invariant
                n == self.vec@.len(),
                i <= n,
                forall|j: int| 0 <= j < i ==> (#[trigger] self.vec@[j]).addr@ != key@,
            decreases n - i,
        {
            if self.vec[i].addr.same_as(key) {
                return Some(i);
            }
            i = i + 1;
        }
        None
    }

    /// Pure read of the ledger at `key`: the stored count, or `None` where
    /// the address has no record.
    pub fn get(&self, key: &Addr) -> (r: Option<u8>)
        requires
            self.wf(),
        ensures
            self@.contains_key(key@) ==> r == Some(self@[key@]),
            !self@.contains_key(key@) ==> r is None,
    {
        proof {
            lemma_map_domain(self.vec@);
        }
        match self.position_of(key) {
            Some(i) => {
                proof {
                    lemma_map_index(self.vec@, i as int);
                }
                Some(self.vec[i].count)
            }
            None => None,
        }
    }

    /// The atomic increment-or-initialize upsert: one indivisible
    /// read-modify-write that stores 1 under an absent key and otherwise
    /// replaces the stored count by its increment (saturating at 255).
    pub fn upsert(&mut self, key: Addr)
        requires
            old(self).wf(),
        ensures
            final(self).wf(),
            final(self)@ == old(self)@.insert(key@, bumped_count(old(self)@, key@)),
    {
        proof {
            lemma_map_domain(self.vec@);
        }
        match self.position_of(&key) {
            Some(i) => {
                proof {
                    lemma_map_index(self.vec@, i as int);
                }
                let current = self.vec[i].count;
                let updated = crate::contract::increment_entry(Some(current));
                self.vec.set(i, Entry { addr: key, count: updated });
                proof {
                    lemma_map_update(old(self).vec@, i as int, self.vec@[i as int]);
                    assert(final(self).wf()) by {
                        assert(forall|p: int| 0 <= p < self.vec@.len() && p != i
                            ==> self.vec@[p] == old(self).vec@[p]);
                        assert(self.vec@[i as int].addr@ == old(self).vec@[i as int].addr@);
                    };
                }
            }
            None => {
                let ghost k = key@;
                self.vec.push(Entry { addr: key, count: 1 });
                proof {
                    assert(!old(self)@.contains_key(k));
                    assert(self.vec@.drop_last() =~= old(self).vec@);
                    assert(self.vec@.last().addr@ == k);
                    assert(final(self)@ == old(self)@.insert(k, 1u8));
                    assert(final(self).wf()) by {
                        assert(forall|p: int| 0 <= p < old(self).vec@.len()
                            ==> self.vec@[p] == old(self).vec@[p]);
                    };
                }
            }
        }
    }

    /// Every address present in the ledger has been entered at least once:
    /// a stored count is never zero, so "absent" and "count 0" never blur.
    pub proof fn lemma_counts_at_least_one(&self)
        requires
            self.wf(),
        ensures
            forall|k: Seq<char>| #[trigger] self@.contains_key(k) ==> self@[k] >= 1,
    {
        lemma_map_domain(self.vec@);
        assert forall|k: Seq<char>| #[trigger] self@.contains_key(k) implies self@[k] >= 1 by {
            let i = choose|i: int| 0 <= i < self.vec@.len() && (#[trigger] self.vec@[i]).addr@ == k;
            lemma_map_index(self.vec@, i);
        };
    }
}

/// The whole persistent store of one contract instance: the owner record's
/// single slot and the entry ledger's partition.
pub struct Storage {
    pub state: Option<State>,
    pub entries: Entries,
}

impl Storage {
    pub open spec fn wf(&self) -> bool {
        self.entries.wf()
    }

    /// The store of a freshly deployed instance: no owner record yet, an
    /// empty ledger.
    pub fn new() -> (r: Storage)
        ensures
            r.wf(),
            r.state is None,
            r.entries@ == Map::<Seq<char>, u8>::empty(),
    {
        Storage { state: None, entries: Entries::new() }
    }
}

} // verus!
