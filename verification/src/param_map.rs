//! A mapping from names to values, as a request carries for its path
//! parameters and for its query.

use vstd::prelude::*;
use vstd::string::*;

verus! {

/// The mapping that a list of pairs stands for: a later pair replaces an
/// earlier one with the same key.
pub open spec fn pairs_to_map(pairs: Seq<(Seq<char>, Seq<char>)>) -> Map<Seq<char>, Seq<char>>
    decreases pairs.len(),
{
    if pairs.len() == 0 {
        Map::empty()
    } else {
        pairs_to_map(pairs.drop_last()).insert(pairs.last().0, pairs.last().1)
    }
}

/// The views of a list of pairs of strings.
pub open spec fn pair_views(v: Seq<(String, String)>) -> Seq<(Seq<char>, Seq<char>)> {
    Seq::new(v.len(), |i: int| (v[i].0@, v[i].1@))
}

/// Whether no key stands twice in a list of pairs.
pub open spec fn distinct_keys(pairs: Seq<(Seq<char>, Seq<char>)>) -> bool {
    forall|i: int, j: int| 0 <= i < j < pairs.len() ==> pairs[i].0 != pairs[j].0
}

/// The mapping of a list without repeated keys has one entry per pair: it
/// binds each pair's key to that pair's value, and binds no other key.
pub proof fn lemma_map_of_distinct_pairs(pairs: Seq<(Seq<char>, Seq<char>)>)
    requires
        distinct_keys(pairs),
    ensures
        pairs_to_map(pairs).dom().finite(),
        pairs_to_map(pairs).dom().len() == pairs.len(),
        forall|i: int|
            0 <= i < pairs.len() ==> pairs_to_map(pairs).contains_key((#[trigger] pairs[i]).0)
                && pairs_to_map(pairs)[pairs[i].0] == pairs[i].1,
        forall|key: Seq<char>|
            pairs_to_map(pairs).contains_key(key) ==> exists|i: int|
                0 <= i < pairs.len() && (#[trigger] pairs[i]).0 == key,
    decreases pairs.len(),
{
    if pairs.len() > 0 {
        let front = pairs.drop_last();
        let last = pairs.last();
        assert forall|i: int, j: int| 0 <= i < j < front.len() implies front[i].0
            != front[j].0 by {
            assert(front[i] == pairs[i] && front[j] == pairs[j]);
        }
        lemma_map_of_distinct_pairs(front);
        let before = pairs_to_map(front);
        if before.contains_key(last.0) {
            let i = choose|i: int| 0 <= i < front.len() && (#[trigger] front[i]).0 == last.0;
            assert(front[i] == pairs[i]);
            assert(false);
        }
        assert forall|i: int| 0 <= i < pairs.len() implies pairs_to_map(pairs).contains_key(
            (#[trigger] pairs[i]).0,
        ) && pairs_to_map(pairs)[pairs[i].0] == pairs[i].1 by {
            if i < front.len() {
                assert(front[i] == pairs[i]);
            }
        }
        assert forall|key: Seq<char>| pairs_to_map(pairs).contains_key(key) implies exists|i: int|
            0 <= i < pairs.len() && (#[trigger] pairs[i]).0 == key by {
            if key == last.0 {
                assert(pairs[pairs.len() - 1].0 == key);
            } else {
                let i = choose|i: int| 0 <= i < front.len() && (#[trigger] front[i]).0 == key;
                assert(pairs[i] == front[i]);
            }
        }
    }
}

/// In a list without repeated keys, giving a pair a new value is binding its
/// key anew.
pub proof fn lemma_new_value_for_key(
    pairs: Seq<(Seq<char>, Seq<char>)>,
    at: int,
    value: Seq<char>,
)
    requires
        distinct_keys(pairs),
        0 <= at < pairs.len(),
    ensures
        distinct_keys(pairs.update(at, (pairs[at].0, value))),
        pairs_to_map(pairs.update(at, (pairs[at].0, value))) == pairs_to_map(pairs).insert(
            pairs[at].0,
            value,
        ),
{
    let key = pairs[at].0;
    let changed = pairs.update(at, (key, value));
    lemma_map_of_distinct_pairs(pairs);
    lemma_map_of_distinct_pairs(changed);
    let left = pairs_to_map(changed);
    let right = pairs_to_map(pairs).insert(key, value);
    assert forall|k: Seq<char>| left.contains_key(k) == right.contains_key(k) by {
        if left.contains_key(k) {
            let i = choose|i: int| 0 <= i < changed.len() && (#[trigger] changed[i]).0 == k;
            assert(pairs[i].0 == k);
        }
        if right.contains_key(k) && k != key {
            let i = choose|i: int| 0 <= i < pairs.len() && (#[trigger] pairs[i]).0 == k;
            assert(changed[i].0 == k);
        }
        if k == key {
            assert(changed[at].0 == k);
        }
    }
    assert forall|k: Seq<char>| left.contains_key(k) implies left[k] == right[k] by {
        let i = choose|i: int| 0 <= i < changed.len() && (#[trigger] changed[i]).0 == k;
        assert(left[changed[i].0] == changed[i].1);
        if i != at {
            assert(pairs[i].0 == k);
            assert(pairs_to_map(pairs)[pairs[i].0] == pairs[i].1);
        }
    }
    assert(left =~= right);
}

/// A mapping from names to values. The bindings are held as a list of pairs
/// in which no name stands twice, so that each lookup and each insertion is
/// proved against the mapping that the list stands for.
pub struct ParamMap {
    entries: Vec<(String, String)>,
}

impl View for ParamMap {
    type V = Map<Seq<char>, Seq<char>>;

    closed spec fn view(&self) -> Map<Seq<char>, Seq<char>> {
        pairs_to_map(pair_views(self.entries@))
    }
}

impl ParamMap {
    #[verifier::type_invariant]
    spec fn keys_are_distinct(self) -> bool {
        distinct_keys(pair_views(self.entries@))
    }

    /// The empty mapping.
    pub fn new() -> (m: ParamMap)
        ensures
            m@ == Map::<Seq<char>, Seq<char>>::empty(),
    {
        ParamMap { entries: Vec::new() }
    }

    /// Where `key` stands among the entries; their number where it does not.
    fn position(&self, key: &str) -> (at: usize)
        ensures
            at <= self.entries@.len(),
            at < self.entries@.len() ==> self.entries@[at as int].0@ == key@,
            at == self.entries@.len() ==> forall|j: int|
                0 <= j < self.entries@.len() ==> (#[trigger] self.entries@[j]).0@ != key@,
    {
        let mut i: usize = 0;
        while i < self.entries.len()
            invariant
                i <= self.entries@.len(),
                forall|j: int| 0 <= j < i ==> (#[trigger] self.entries@[j]).0@ != key@,
            decreases self.entries@.len() - i,
        {
            if str_eq(self.entries[i].0.as_str(), key) {
                return i;
            }
            i += 1;
        }
        i
    }

    /// Binds `key` to `value`, replacing what `key` was bound to.
    pub fn insert(&mut self, key: String, value: String)
        ensures
            final(self)@ == old(self)@.insert(key@, value@),
    {
        proof {
            use_type_invariant(&*self);
        }
        let at = self.position(key.as_str());
        let ghost before = pair_views(self.entries@);
        let mut entries: Vec<(String, String)> = Vec::new();
        std::mem::swap(&mut entries, &mut self.entries);
        if at < entries.len() {
            entries.set(at, (key, value));
            proof {
                lemma_new_value_for_key(before, at as int, value@);
                assert(pair_views(entries@) =~= before.update(at as int, (before[at as int].0, value@)));
            }
        } else {
            entries.push((key, value));
            proof {
                let after = pair_views(entries@);
                assert(after.drop_last() =~= before);
                assert forall|i: int, j: int| 0 <= i < j < after.len() implies after[i].0
                    != after[j].0 by {
                    if j < before.len() {
                        assert(after[i] == before[i] && after[j] == before[j]);
                    } else {
                        assert(after[i].0 == old(self).entries@[i].0@);
                    }
                }
            }
        }
        self.entries = entries;
    }

    /// The value that `key` is bound to, if any.
    pub fn get(&self, key: &str) -> (r: Option<&String>)
        ensures
            r is Some <==> self@.contains_key(key@),
            r is Some ==> r->Some_0@ == self@[key@],
    {
        proof {
            use_type_invariant(self);
            lemma_map_of_distinct_pairs(pair_views(self.entries@));
        }
        let at = self.position(key);
        if at < self.entries.len() {
            proof {
                assert(pair_views(self.entries@)[at as int].0 == key@);
            }
            Some(&self.entries[at].1)
        } else {
            proof {
                if self@.contains_key(key@) {
                    let pairs = pair_views(self.entries@);
                    let i = choose|i: int| 0 <= i < pairs.len() && (#[trigger] pairs[i]).0 == key@;
                    assert(self.entries@[i].0@ == key@);
                }
            }
            None
        }
    }

    /// Whether `key` is bound.
    pub fn contains_key(&self, key: &str) -> (r: bool)
        ensures
            r == self@.contains_key(key@),
    {
        self.get(key).is_some()
    }

    /// How many names are bound.
    pub fn len(&self) -> (n: usize)
        ensures
            self@.dom().finite(),
            n == self@.dom().len(),
    {
        proof {
            use_type_invariant(self);
            lemma_map_of_distinct_pairs(pair_views(self.entries@));
        }
        self.entries.len()
    }

    /// Whether nothing is bound.
    pub fn is_empty(&self) -> (r: bool)
        ensures
            r == (self@ == Map::<Seq<char>, Seq<char>>::empty()),
    {
        proof {
            let all = pair_views(self.entries@);
            if all.len() > 0 {
                assert(self@.contains_key(all.last().0));
            }
        }
        self.entries.len() == 0
    }
}

/// Whether two strings hold the same characters.
pub fn str_eq(a: &str, b: &str) -> (r: bool)
    ensures
        r == (a@ == b@),
{
    let n: usize = a.unicode_len();
    if n != b.unicode_len() {
        return false;
    }
    let mut i: usize = 0;
    while i < n
        invariant
            n == a@.len(),
            n == b@.len(),
            i <= n,
            forall|j: int| 0 <= j < i ==> a@[j] == b@[j],
        decreases n - i,
    {
        if a.get_char(i) != b.get_char(i) {
            return false;
        }
        i += 1;
    }
    proof {
        assert(a@ =~= b@);
    }
    true
}

} // verus!
