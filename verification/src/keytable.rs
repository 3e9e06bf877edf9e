//! A small map from peer labels to key material, backed by an association
//! list with distinct keys.  Its view is a `Map<Seq<char>, Seq<u8>>`, so that
//! the engine's contracts can speak of lookups, insertions and removals in
//! the mathematical map.

use vstd::prelude::*;
use vstd::string::StringExecFns;

verus! {

/// The map denoted by an association list: later entries win, although with
/// distinct keys the order never matters.
spec fn assoc_map(s: Seq<(String, Vec<u8>)>) -> Map<Seq<char>, Seq<u8>>
    decreases s.len(),
{
    if s.len() == 0 {
        Map::empty()
    } else {
        assoc_map(s.drop_last()).insert(s.last().0@, s.last().1@)
    }
}

spec fn distinct_keys(s: Seq<(String, Vec<u8>)>) -> bool {
    forall|i: int, j: int| 0 <= i < j < s.len() ==> s[i].0@ != s[j].0@
}

proof fn lemma_assoc_contains(s: Seq<(String, Vec<u8>)>, k: Seq<char>)
    ensures
        assoc_map(s).contains_key(k) <==> exists|i: int|
            0 <= i < s.len() && #[trigger] s[i].0@ == k,
    decreases s.len(),
{
    if s.len() > 0 {
        let d = s.drop_last();
        lemma_assoc_contains(d, k);
        if s.last().0@ == k {
            assert(s[s.len() - 1].0@ == k);
        } else {
            if assoc_map(s).contains_key(k) {
                let i = choose|i: int| 0 <= i < d.len() && #[trigger] d[i].0@ == k;
                assert(s[i].0@ == k);
            }
            if exists|i: int| 0 <= i < s.len() && #[trigger] s[i].0@ == k {
                let i = choose|i: int| 0 <= i < s.len() && #[trigger] s[i].0@ == k;
                assert(i < s.len() - 1);
                assert(d[i].0@ == k);
            }
        }
    }
}

proof fn lemma_assoc_value(s: Seq<(String, Vec<u8>)>, i: int)
    requires
        distinct_keys(s),
        0 <= i < s.len(),
    ensures
        assoc_map(s).contains_key(s[i].0@),
        assoc_map(s)[s[i].0@] == s[i].1@,
    decreases s.len(),
{
    let d = s.drop_last();
    if i < s.len() - 1 {
        assert(distinct_keys(d)) by {
            assert(forall|x: int, y: int|
                0 <= x < y < d.len() ==> d[x].0@ == s[x].0@ && d[y].0@ == s[y].0@);
        }
        lemma_assoc_value(d, i);
        assert(s.last().0@ != s[i].0@);
    }
}

proof fn lemma_assoc_remove(s: Seq<(String, Vec<u8>)>, i: int)
    requires
        distinct_keys(s),
        0 <= i < s.len(),
    ensures
        distinct_keys(s.remove(i)),
        assoc_map(s.remove(i)) == assoc_map(s).remove(s[i].0@),
    decreases s.len(),
{
    let r = s.remove(i);
    assert(forall|x: int|
        0 <= x < r.len() ==> r[x] == (if x < i {
            s[x]
        } else {
            s[x + 1]
        }));
    assert(distinct_keys(r));
    if i == s.len() - 1 {
        assert(r =~= s.drop_last());
        lemma_assoc_contains(s.drop_last(), s[i].0@);
        assert(forall|j: int| 0 <= j < s.len() - 1 ==> s.drop_last()[j].0@ == s[j].0@);
        assert(!assoc_map(s.drop_last()).contains_key(s[i].0@));
        assert(assoc_map(s.remove(i)) =~= assoc_map(s).remove(s[i].0@));
    } else {
        let d = s.drop_last();
        assert(distinct_keys(d)) by {
            assert(forall|x: int, y: int|
                0 <= x < y < d.len() ==> d[x].0@ == s[x].0@ && d[y].0@ == s[y].0@);
        }
        lemma_assoc_remove(d, i);
        assert(r.drop_last() =~= d.remove(i));
        assert(r.last() == s.last());
        assert(assoc_map(r) == assoc_map(d.remove(i)).insert(s.last().0@, s.last().1@));
        assert(s.last().0@ != s[i].0@);
        assert(assoc_map(s.remove(i)) =~= assoc_map(s).remove(s[i].0@));
    }
}

/// A label-keyed table of byte-string values.
pub struct KeyTable {
    entries: Vec<(String, Vec<u8>)>,
}

impl View for KeyTable {
    type V = Map<Seq<char>, Seq<u8>>;

    closed spec fn view(&self) -> Map<Seq<char>, Seq<u8>> {
        assoc_map(self.entries@)
    }
}

impl KeyTable {
    #[verifier::type_invariant]
    spec fn inv(self) -> bool {
        distinct_keys(self.entries@)
    }

    /// An empty table.
    pub fn new() -> (r: KeyTable)
        ensures
            r@ == Map::<Seq<char>, Seq<u8>>::empty(),
    {
        KeyTable { entries: Vec::new() }
    }

    /// The index of the entry bound to `key`, if any.
    fn find_index(entries: &Vec<(String, Vec<u8>)>, key: &String) -> (r: Option<usize>)
        ensures
            match r {
                Some(i) => i < entries@.len() && entries@[i as int].0@ == key@,
                None => forall|j: int| 0 <= j < entries@.len() ==> entries@[j].0@ != key@,
            },
    {
        let n = entries.len();
        let mut i: usize = 0;
        while i < n
            invariant
                n == entries.len(),
                i <= n,
                forall|j: int| 0 <= j < i ==> entries@[j].0@ != key@,
            decreases n - i,
        {
            if entries[i].0 == *key {
                return Some(i);
            }
            i = i + 1;
        }
        None
    }

    /// Looks a label up.
    pub fn get(&self, label: &str) -> (r: Option<&Vec<u8>>)
        ensures
            match r {
                Some(v) => self@.contains_key(label@) && v@ == self@[label@],
                None => !self@.contains_key(label@),
            },
    {
        proof {
            use_type_invariant(&*self);
        }
        let key: String = <String as StringExecFns>::from_str(label);
        match Self::find_index(&self.entries, &key) {
            Some(i) => {
                proof {
                    lemma_assoc_value(self.entries@, i as int);
                }
                Some(&self.entries[i].1)
            },
            None => {
                proof {
                    lemma_assoc_contains(self.entries@, label@);
                }
                None
            },
        }
    }

    /// Removes a label, handing back its value if it was present.
    pub fn remove(&mut self, label: &str) -> (r: Option<Vec<u8>>)
        ensures
            final(self)@ == old(self)@.remove(label@),
            match r {
                Some(v) => old(self)@.contains_key(label@) && v@ == old(self)@[label@],
                None => !old(self)@.contains_key(label@),
            },
    {
        proof {
            use_type_invariant(&*self);
        }
        let key: String = <String as StringExecFns>::from_str(label);
        let found = Self::find_index(&self.entries, &key);
        let mut entries: Vec<(String, Vec<u8>)> = Vec::new();
        core::mem::swap(&mut entries, &mut self.entries);
        let ghost s0 = entries@;
        let r: Option<Vec<u8>>;
        match found {
            Some(i) => {
                proof {
                    lemma_assoc_value(s0, i as int);
                    lemma_assoc_remove(s0, i as int);
                }
                let e = entries.remove(i);
                r = Some(e.1);
            },
            None => {
                proof {
                    lemma_assoc_contains(s0, label@);
                    assert(!assoc_map(s0).contains_key(label@));
                    assert(assoc_map(s0) =~= assoc_map(s0).remove(label@));
                }
                r = None;
            },
        }
        core::mem::swap(&mut entries, &mut self.entries);
        r
    }

    /// Binds a label to a value, replacing any earlier binding.
    pub fn insert(&mut self, label: &str, value: Vec<u8>)
        ensures
            final(self)@ == old(self)@.insert(label@, value@),
    {
        let _ = self.remove(label);
        proof {
            use_type_invariant(&*self);
        }
        let key: String = <String as StringExecFns>::from_str(label);
        let mut entries: Vec<(String, Vec<u8>)> = Vec::new();
        core::mem::swap(&mut entries, &mut self.entries);
        let ghost s0 = entries@;
        proof {
            lemma_assoc_contains(s0, label@);
            assert(forall|j: int| 0 <= j < s0.len() ==> s0[j].0@ != label@);
        }
        entries.push((key, value));
        proof {
            assert(entries@.drop_last() =~= s0);
            assert(forall|x: int| 0 <= x < s0.len() ==> entries@[x] == s0[x]);
            assert(distinct_keys(entries@));
            assert(assoc_map(entries@) == assoc_map(s0).insert(label@, value@));
            assert(old(self)@.remove(label@).insert(label@, value@) =~= old(self)@.insert(
                label@,
                value@,
            ));
        }
        core::mem::swap(&mut entries, &mut self.entries);
    }
}

} // verus!
