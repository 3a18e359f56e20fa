//! An ordered map keyed by strings, kept as a sorted vector of entries.
//! It walks its keys in the same order as a `BTreeMap<String, V>`: by
//! character code, lexicographically.

use vstd::prelude::*;

use crate::text::chars_of;

verus! {

/// Strict lexicographic order of character sequences by code point.
pub open spec fn seq_lt(a: Seq<char>, b: Seq<char>) -> bool
    decreases a.len(),
{
    if a.len() == 0 {
        b.len() > 0
    } else if b.len() == 0 {
        false
    } else if a[0] != b[0] {
        (a[0] as u32) < (b[0] as u32)
    } else {
        seq_lt(a.drop_first(), b.drop_first())
    }
}

/// Distinct characters have distinct codes.
pub proof fn lemma_char_code_injective(x: char, y: char)
    requires
        x != y,
    ensures
        (x as u32) != (y as u32),
{
    assert((x as u32) as int == x as int);
    assert((y as u32) as int == y as int);
}

pub proof fn lemma_seq_lt_irreflexive(a: Seq<char>)
    ensures
        !seq_lt(a, a),
    decreases a.len(),
{
    if a.len() > 0 {
        lemma_seq_lt_irreflexive(a.drop_first());
    }
}

pub proof fn lemma_seq_lt_transitive(a: Seq<char>, b: Seq<char>, c: Seq<char>)
    requires
        seq_lt(a, b),
        seq_lt(b, c),
    ensures
        seq_lt(a, c),
    decreases a.len(),
{
    if a.len() > 0 && b.len() > 0 && c.len() > 0 && a[0] == b[0] && b[0] == c[0] {
        lemma_seq_lt_transitive(a.drop_first(), b.drop_first(), c.drop_first());
    }
}

pub proof fn lemma_seq_lt_total(a: Seq<char>, b: Seq<char>)
    ensures
        a == b || seq_lt(a, b) || seq_lt(b, a),
    decreases a.len(),
{
    if a.len() > 0 && b.len() > 0 && a[0] == b[0] {
        lemma_seq_lt_total(a.drop_first(), b.drop_first());
        if a.drop_first() == b.drop_first() {
            assert(a =~= b) by {
                assert forall|i: int| 0 <= i < a.len() implies a[i] == b[i] by {
                    if i > 0 {
                        assert(a[i] == a.drop_first()[i - 1]);
                        assert(b[i] == b.drop_first()[i - 1]);
                    }
                }
            }
        }
    } else if a.len() > 0 && b.len() > 0 {
        lemma_char_code_injective(a[0], b[0]);
    } else if a.len() == 0 && b.len() == 0 {
        assert(a =~= b);
    }
}

/// In a sequence without duplicates, the index of an element is its position.
pub proof fn lemma_index_of_unique<A>(s: Seq<A>, k: A, i: int)
    requires
        s.no_duplicates(),
        0 <= i < s.len(),
        s[i] == k,
    ensures
        s.index_of(k) == i,
{
    assert(s.contains(k));
}

/// Whether `a` sorts before `b`.
pub fn chars_lt(a: &Vec<char>, b: &Vec<char>) -> (r: bool)
    ensures
        r == seq_lt(a@, b@),
{
    let mut i: usize = 0;
    assert(a@.skip(0) =~= a@);
    assert(b@.skip(0) =~= b@);
    while i < a.len() && i < b.len() && a[i] == b[i]
        invariant
            i <= a.len(),
            i <= b.len(),
            seq_lt(a@, b@) == seq_lt(a@.skip(i as int), b@.skip(i as int)),
        decreases a.len() - i,
    {
        assert(a@.skip(i as int).drop_first() =~= a@.skip(i + 1));
        assert(b@.skip(i as int).drop_first() =~= b@.skip(i + 1));
        i = i + 1;
    }
    if i == a.len() {
        i < b.len()
    } else if i == b.len() {
        false
    } else {
        (a[i] as u32) < (b[i] as u32)
    }
}

/// Whether two character vectors are equal.
pub fn chars_eq(a: &Vec<char>, b: &Vec<char>) -> (r: bool)
    ensures
        r == (a@ == b@),
{
    if a.len() != b.len() {
        return false;
    }
    let mut i: usize = 0;
    while i < a.len()
        invariant
            i <= a.len() == b.len(),
            forall|k: int| 0 <= k < i ==> a@[k] == b@[k],
        decreases a.len() - i,
    {
        if a[i] != b[i] {
            return false;
        }
        i = i + 1;
    }
    assert(a@ =~= b@);
    true
}

/// Whether two strings are equal.
pub fn str_eq(a: &str, b: &str) -> (r: bool)
    ensures
        r == (a@ == b@),
{
    let x = chars_of(a);
    let y = chars_of(b);
    chars_eq(&x, &y)
}

/// A map from strings to values, ordered by key.
pub struct StrMap<V> {
    entries: Vec<(String, V)>,
}

/// The keys of a list of entries.
pub open spec fn entry_keys<V>(e: Seq<(String, V)>) -> Seq<Seq<char>> {
    e.map_values(|x: (String, V)| x.0@)
}

/// The keys are strictly increasing.
pub open spec fn sorted_keys(k: Seq<Seq<char>>) -> bool {
    forall|i: int, j: int| 0 <= i < j < k.len() ==> seq_lt(#[trigger] k[i], #[trigger] k[j])
}

impl<V> StrMap<V> {
    /// The keys, in order.
    pub closed spec fn keys(&self) -> Seq<Seq<char>> {
        entry_keys(self.entries@)
    }

    /// The values, in key order.
    pub closed spec fn values(&self) -> Seq<V> {
        self.entries@.map_values(|x: (String, V)| x.1)
    }

    /// The map from keys to values.
    pub open spec fn map(&self) -> Map<Seq<char>, V> {
        Map::new(
            |k: Seq<char>| self.keys().contains(k),
            |k: Seq<char>| self.values()[self.keys().index_of(k)],
        )
    }

    /// The keys are strictly increasing; every value of the type has this.
    #[verifier::type_invariant]
    pub closed spec fn wf(&self) -> bool {
        sorted_keys(self.keys())
    }

    pub proof fn lemma_sorted(&self)
        requires
            self.wf(),
        ensures
            sorted_keys(self.keys()),
            self.keys().len() == self.values().len(),
            self.keys().no_duplicates(),
    {
        assert forall|i: int, j: int| 0 <= i < self.keys().len() && 0 <= j < self.keys().len() && i != j implies self.keys()[i] != self.keys()[j] by {
            if i < j {
                assert(seq_lt(self.keys()[i], self.keys()[j]));
                lemma_seq_lt_irreflexive(self.keys()[i]);
            } else {
                assert(seq_lt(self.keys()[j], self.keys()[i]));
                lemma_seq_lt_irreflexive(self.keys()[j]);
            }
        }
    }

    pub fn new() -> (m: Self)
        ensures
            m.keys() == Seq::<Seq<char>>::empty(),
            m.values() == Seq::<V>::empty(),
    {
        let m = StrMap { entries: Vec::new() };
        assert(m.keys() =~= Seq::<Seq<char>>::empty());
        assert(m.values() =~= Seq::<V>::empty());
        m
    }

    pub fn len(&self) -> (r: usize)
        ensures
            r == self.keys().len(),
            r == self.values().len(),
    {
        self.entries.len()
    }

    pub fn is_empty(&self) -> (r: bool)
        ensures
            r == (self.keys().len() == 0),
    {
        self.entries.len() == 0
    }

    /// The key and value at position `i` in key order.
    pub fn entry_at(&self, i: usize) -> (r: (&String, &V))
        requires
            i < self.keys().len(),
        ensures
            r.0@ == self.keys()[i as int],
            *r.1 == self.values()[i as int],
    {
        let e = &self.entries[i];
        (&e.0, &e.1)
    }

    /// The position of `key`, if present.
    pub fn position(&self, key: &str) -> (r: Option<usize>)
        ensures
            match r {
                Some(i) => i < self.keys().len() && self.keys()[i as int] == key@,
                None => !self.keys().contains(key@),
            },
    {
        let k = chars_of(key);
        let mut i: usize = 0;
        while i < self.entries.len()
            invariant
                i <= self.entries.len(),
                k@ == key@,
                forall|j: int| 0 <= j < i ==> self.keys()[j] != key@,
            decreases self.entries.len() - i,
        {
            let ek = chars_of(self.entries[i].0.as_str());
            if chars_eq(&ek, &k) {
                return Some(i);
            }
            i = i + 1;
        }
        None
    }

    pub fn get(&self, key: &str) -> (r: Option<&V>)
        ensures
            match r {
                Some(v) => self.map().contains_key(key@) && self.map()[key@] == *v,
                None => !self.map().contains_key(key@),
            },
    {
        match self.position(key) {
            Some(i) => {
                proof {
                    use_type_invariant(self);
                    self.lemma_sorted();
                    lemma_index_of_unique(self.keys(), key@, i as int);
                }
                Some(&self.entries[i].1)
            },
            None => None,
        }
    }

    pub fn contains_key(&self, key: &str) -> (r: bool)
        ensures
            r == self.map().contains_key(key@),
    {
        self.position(key).is_some()
    }

    /// Alias of [`Self::contains_key`], for maps used as sets.
    pub fn contains(&self, key: &str) -> (r: bool)
        ensures
            r == self.map().contains_key(key@),
    {
        self.contains_key(key)
    }

    /// The keys in order.
    pub fn key_list(&self) -> (r: Vec<String>)
        ensures
            crate::text::views(r@) == self.keys(),
    {
        let mut r: Vec<String> = Vec::new();
        let mut i: usize = 0;
        while i < self.entries.len()
            invariant
                i <= self.entries.len(),
                r@.len() == i,
                crate::text::views(r@) == self.keys().take(i as int),
            decreases self.entries.len() - i,
        {
            let kc = self.entries[i].0.clone();
            assert(kc@ == self.keys()[i as int]);
            r.push(kc);
            assert(r@[i as int]@ == self.keys()[i as int]);
            i = i + 1;
            assert(crate::text::views(r@) =~= self.keys().take(i as int));
        }
        assert(self.keys().take(i as int) =~= self.keys());
        r
    }

    /// Inserts or replaces the value of `key`; returns the replaced value.
    pub fn insert(&mut self, key: String, value: V) -> (r: Option<V>)
        ensures
            final(self).map() == old(self).map().insert(key@, value),
            match r {
                Some(v) => old(self).map().contains_key(key@) && old(self).map()[key@] == v,
                None => !old(self).map().contains_key(key@),
            },
    {
        proof {
            use_type_invariant(&*self);
            self.lemma_sorted();
        }
        let k = chars_of(key.as_str());
        let mut i: usize = 0;
        while i < self.entries.len()
            invariant
                i <= self.entries.len(),
                k@ == key@,
                sorted_keys(self.keys()),
                forall|j: int| 0 <= j < i ==> seq_lt(#[trigger] self.keys()[j], key@),
            ensures
                i <= self.entries.len(),
                forall|j: int| 0 <= j < i ==> seq_lt(#[trigger] self.keys()[j], key@),
                i < self.entries.len() ==> !seq_lt(self.keys()[i as int], key@),
            decreases self.entries.len() - i,
        {
            let ek = chars_of(self.entries[i].0.as_str());
            if !chars_lt(&ek, &k) {
                break;
            }
            i = i + 1;
        }
        let ghost old_map = self.map();
        let ghost old_keys = self.keys();
        let ghost old_values = self.values();
        if i < self.entries.len() {
            let ek = chars_of(self.entries[i].0.as_str());
            if chars_eq(&ek, &k) {
                proof {
                    lemma_index_of_unique(old_keys, key@, i as int);
                }
                let mut entries: Vec<(String, V)> = Vec::new();
                std::mem::swap(&mut entries, &mut self.entries);
                let old_entry = entries.remove(i);
                entries.insert(i, (key, value));
                proof {
                    assert(entry_keys(entries@) =~= old_keys);
                }
                self.entries = entries;
                proof {
                    assert(self.keys() =~= old_keys);
                    assert(self.values() =~= old_values.update(i as int, value));
                    assert forall|q: Seq<char>| #[trigger] self.map().contains_key(q) == old_map.insert(key@, value).contains_key(q) by {}
                    assert forall|q: Seq<char>| self.map().contains_key(q) implies #[trigger] self.map()[q] == old_map.insert(key@, value)[q] by {
                        let qi = old_keys.index_of(q);
                        assert(old_keys.contains(q));
                        lemma_index_of_unique(old_keys, q, qi);
                    }
                    assert(self.map() =~= old_map.insert(key@, value));
                }
                return Some(old_entry.1);
            }
        }
        proof {
            // Every key from position `i` on sorts after `key`.
            assert forall|j: int| i <= j < old_keys.len() implies seq_lt(key@, #[trigger] old_keys[j]) by {
                lemma_seq_lt_total(old_keys[i as int], key@);
                if j > i {
                    lemma_seq_lt_transitive(key@, old_keys[i as int], old_keys[j]);
                }
            }
            assert(!old_keys.contains(key@)) by {
                if old_keys.contains(key@) {
                    let j = old_keys.index_of(key@);
                    lemma_seq_lt_irreflexive(key@);
                    if j < i {
                        assert(seq_lt(old_keys[j], key@));
                    } else {
                        assert(seq_lt(key@, old_keys[j]));
                    }
                }
            }
        }
        let mut entries: Vec<(String, V)> = Vec::new();
        std::mem::swap(&mut entries, &mut self.entries);
        entries.insert(i, (key, value));
        proof {
            let nk = entry_keys(entries@);
            assert(nk =~= old_keys.insert(i as int, key@));
            assert forall|a: int, b: int| 0 <= a < b < nk.len() implies seq_lt(#[trigger] nk[a], #[trigger] nk[b]) by {
                if b < i {
                } else if b == i {
                } else if a == i {
                } else if a < i {
                    lemma_seq_lt_transitive(old_keys[a], key@, old_keys[b - 1]);
                } else {
                }
            }
        }
        self.entries = entries;
        proof {
            assert(self.keys() =~= old_keys.insert(i as int, key@));
            assert(self.values() =~= old_values.insert(i as int, value));
            self.lemma_sorted();
            assert forall|q: Seq<char>| #[trigger] self.map().contains_key(q) == old_map.insert(key@, value).contains_key(q) by {
                if q != key@ && self.keys().contains(q) {
                    let qi = self.keys().index_of(q);
                    if qi < i {
                        assert(old_keys[qi] == q);
                    } else {
                        assert(old_keys[qi - 1] == q);
                    }
                }
                if q != key@ && old_keys.contains(q) {
                    let qi = old_keys.index_of(q);
                    if qi < i {
                        assert(self.keys()[qi] == q);
                    } else {
                        assert(self.keys()[qi + 1] == q);
                    }
                }
                if q == key@ {
                    assert(self.keys()[i as int] == q);
                }
            }
            assert forall|q: Seq<char>| self.map().contains_key(q) implies #[trigger] self.map()[q] == old_map.insert(key@, value)[q] by {
                let qi = self.keys().index_of(q);
                lemma_index_of_unique(self.keys(), q, qi);
                if q != key@ {
                    if qi < i {
                        lemma_index_of_unique(old_keys, q, qi);
                    } else {
                        assert(old_keys[qi - 1] == q);
                        lemma_index_of_unique(old_keys, q, qi - 1);
                    }
                } else {
                    lemma_index_of_unique(self.keys(), q, i as int);
                }
            }
            assert(self.map() =~= old_map.insert(key@, value));
        }
        None
    }

    /// Appends an entry whose key sorts after every key in the map.
    pub fn push_greatest(&mut self, key: String, value: V)
        requires
            old(self).keys().len() == 0 || seq_lt(old(self).keys().last(), key@),
        ensures
            final(self).keys() == old(self).keys().push(key@),
            final(self).values() == old(self).values().push(value),
    {
        proof {
            use_type_invariant(&*self);
        }
        let ghost old_keys = self.keys();
        let ghost old_values = self.values();
        let mut entries: Vec<(String, V)> = Vec::new();
        std::mem::swap(&mut entries, &mut self.entries);
        entries.push((key, value));
        proof {
            let nk = entry_keys(entries@);
            assert(nk =~= old_keys.push(key@));
            assert forall|a: int, b: int| 0 <= a < b < nk.len() implies seq_lt(#[trigger] nk[a], #[trigger] nk[b]) by {
                if b == nk.len() - 1 && a < b && a < old_keys.len() - 1 {
                    lemma_seq_lt_transitive(old_keys[a], old_keys.last(), key@);
                }
            }
        }
        self.entries = entries;
        proof {
            assert(self.keys() =~= old_keys.push(key@));
            assert(self.values() =~= old_values.push(value));
        }
    }

    /// The keys are strictly increasing (every value of the type has this).
    pub proof fn lemma_keys_sorted(&self)
        requires
            self.wf(),
        ensures
            sorted_keys(self.keys()),
            self.keys().no_duplicates(),
            self.keys().len() == self.values().len(),
    {
        self.lemma_sorted();
    }

    /// A copy of the map, each value cloned.
    pub fn clone_map(&self) -> (r: Self)
        where
            V: Clone,
        ensures
            r.keys() == self.keys(),
            r.values().len() == self.values().len(),
            forall|i: int| 0 <= i < self.values().len() ==> cloned::<V>(self.values()[i], #[trigger] r.values()[i]),
    {
        proof {
            use_type_invariant(self);
        }
        let mut entries: Vec<(String, V)> = Vec::new();
        let mut i: usize = 0;
        while i < self.entries.len()
            invariant
                i <= self.entries.len(),
                sorted_keys(self.keys()),
                entry_keys(entries@) == self.keys().take(i as int),
                entries@.len() == i,
                forall|j: int| 0 <= j < i ==> cloned::<V>(self.entries@[j].1, #[trigger] entries@[j].1),
            decreases self.entries.len() - i,
        {
            let k = self.entries[i].0.clone();
            let v = self.entries[i].1.clone();
            entries.push((k, v));
            i = i + 1;
            assert(entry_keys(entries@) =~= self.keys().take(i as int));
        }
        assert(self.keys().take(self.entries.len() as int) =~= self.keys());
        let r = StrMap { entries };
        proof {
            assert forall|i: int| 0 <= i < self.values().len() implies cloned::<V>(self.values()[i], #[trigger] r.values()[i]) by {
                assert(self.values()[i] == self.entries@[i].1);
                assert(r.values()[i] == r.entries@[i].1);
            }
        }
        r
    }
}

/// The map that inserting `pairs` in order into `m` gives.
pub open spec fn insert_all<V>(m: Map<Seq<char>, V>, pairs: Seq<(Seq<char>, V)>) -> Map<Seq<char>, V>
    decreases pairs.len(),
{
    if pairs.len() == 0 {
        m
    } else {
        insert_all(m, pairs.drop_last()).insert(pairs.last().0, pairs.last().1)
    }
}

/// Every entry of `a` is in `b` with an equal value.
pub open spec fn is_sub_map(a: Map<Seq<char>, String>, b: Map<Seq<char>, String>) -> bool {
    forall|k: Seq<char>| a.contains_key(k) ==> b.contains_key(k) && (#[trigger] b[k])@ == a[k]@
}

/// Two maps of strings hold the same keys with equal values.
pub open spec fn same_string_map(a: Map<Seq<char>, String>, b: Map<Seq<char>, String>) -> bool {
    is_sub_map(a, b) && is_sub_map(b, a)
}

/// Whether two maps of strings to strings are equal.
pub fn str_maps_equal(a: &StrMap<String>, b: &StrMap<String>) -> (r: bool)
    ensures
        r == same_string_map(a.map(), b.map()),
{
    let ga = sub_map_of(a, b);
    let gb = sub_map_of(b, a);
    ga && gb
}

/// Whether every entry of `a` is in `b` with an equal value.
fn sub_map_of(a: &StrMap<String>, b: &StrMap<String>) -> (r: bool)
    ensures
        r == is_sub_map(a.map(), b.map()),
{
    proof {
        use_type_invariant(a);
        a.lemma_sorted();
    }
    let n = a.len();
    let mut i: usize = 0;
    while i < n
        invariant
            n == a.keys().len(),
            i <= n,
            a.keys().no_duplicates(),
            a.keys().len() == a.values().len(),
            forall|j: int| 0 <= j < i ==> b.map().contains_key(#[trigger] a.keys()[j]) && b.map()[a.keys()[j]]@ == a.values()[j]@,
        decreases n - i,
    {
        let (k, v) = a.entry_at(i);
        proof {
            lemma_index_of_unique(a.keys(), k@, i as int);
            assert(a.map().contains_key(k@));
            assert(a.map()[k@] == *v);
        }
        match b.get(k.as_str()) {
            Some(w) => {
                if *w != *v {
                    proof {
                        if is_sub_map(a.map(), b.map()) {
                            assert(b.map()[k@]@ == a.map()[k@]@);
                        }
                    }
                    return false;
                }
            },
            None => {
                proof {
                    if is_sub_map(a.map(), b.map()) {
                        assert(b.map()[k@]@ == a.map()[k@]@);
                    }
                }
                return false;
            },
        }
        i = i + 1;
    }
    proof {
        assert forall|k: Seq<char>| a.map().contains_key(k) implies b.map().contains_key(k) && (#[trigger] b.map()[k])@ == a.map()[k]@ by {
            let j = a.keys().index_of(k);
            assert(a.keys().contains(k));
            lemma_index_of_unique(a.keys(), k, j);
            assert(b.map().contains_key(a.keys()[j]));
        }
    }
    true
}

/// The texts of a map of strings.
pub open spec fn string_view(m: Map<Seq<char>, String>) -> Map<Seq<char>, Seq<char>> {
    Map::new(|k: Seq<char>| m.contains_key(k), |k: Seq<char>| m[k]@)
}

/// A map of strings whose texts are those of `v` has `v` as its view.
pub proof fn lemma_string_view_of(m: Map<Seq<char>, String>, v: Map<Seq<char>, Seq<char>>)
    requires
        forall|k: Seq<char>| #[trigger] m.contains_key(k) <==> v.contains_key(k),
        forall|k: Seq<char>| m.contains_key(k) ==> (#[trigger] m[k])@ == v[k],
    ensures
        string_view(m) == v,
{
    assert(string_view(m) =~= v);
}

/// Two strictly increasing sequences with the same elements are equal.
pub proof fn lemma_sorted_unique(a: Seq<Seq<char>>, b: Seq<Seq<char>>)
    requires
        sorted_keys(a),
        sorted_keys(b),
        forall|k: Seq<char>| a.contains(k) <==> b.contains(k),
    ensures
        a == b,
    decreases a.len() + b.len(),
{
    if a.len() == 0 || b.len() == 0 {
        if a.len() > 0 {
            assert(a.contains(a[0]));
        }
        if b.len() > 0 {
            assert(b.contains(b[0]));
        }
        assert(a =~= b);
    } else {
        assert(a.contains(a[0]));
        assert(b.contains(b[0]));
        let i = choose|i: int| 0 <= i < b.len() && b[i] == a[0];
        let j = choose|j: int| 0 <= j < a.len() && a[j] == b[0];
        if i > 0 && j > 0 {
            lemma_seq_lt_transitive(b[0], a[0], b[0]);
            lemma_seq_lt_irreflexive(b[0]);
        }
        if i == 0 {
        } else {
            assert(j == 0);
        }
        assert(a[0] == b[0]);
        let a1 = a.drop_first();
        let b1 = b.drop_first();
        assert forall|k: Seq<char>| a1.contains(k) <==> b1.contains(k) by {
            if a1.contains(k) {
                let p = choose|p: int| 0 <= p < a1.len() && a1[p] == k;
                assert(a[p + 1] == k);
                assert(seq_lt(a[0], k));
                assert(b.contains(k));
                let q = choose|q: int| 0 <= q < b.len() && b[q] == k;
                if q == 0 {
                    lemma_seq_lt_irreflexive(k);
                }
                assert(b1[q - 1] == k);
            }
            if b1.contains(k) {
                let p = choose|p: int| 0 <= p < b1.len() && b1[p] == k;
                assert(b[p + 1] == k);
                assert(seq_lt(b[0], k));
                assert(a.contains(k));
                let q = choose|q: int| 0 <= q < a.len() && a[q] == k;
                if q == 0 {
                    lemma_seq_lt_irreflexive(k);
                }
                assert(a1[q - 1] == k);
            }
        }
        assert(sorted_keys(a1)) by {
            assert forall|x: int, y: int| 0 <= x < y < a1.len() implies seq_lt(#[trigger] a1[x], #[trigger] a1[y]) by {
                assert(a1[x] == a[x + 1] && a1[y] == a[y + 1]);
            }
        }
        assert(sorted_keys(b1)) by {
            assert forall|x: int, y: int| 0 <= x < y < b1.len() implies seq_lt(#[trigger] b1[x], #[trigger] b1[y]) by {
                assert(b1[x] == b[x + 1] && b1[y] == b[y + 1]);
            }
        }
        lemma_sorted_unique(a1, b1);
        assert(a =~= b) by {
            assert forall|x: int| 0 <= x < a.len() implies a[x] == b[x] by {
                if x > 0 {
                    assert(a[x] == a1[x - 1]);
                    assert(b[x] == b1[x - 1]);
                }
            }
        }
    }
}

/// The sorted sequence of the keys that satisfy `p` (given one exists).
pub open spec fn sorted_set(p: spec_fn(Seq<char>) -> bool) -> Seq<Seq<char>> {
    choose|ks: Seq<Seq<char>>| sorted_keys(ks) && forall|k: Seq<char>| #[trigger] ks.contains(k) <==> p(k)
}

impl StrMap<()> {
    /// The keys of a set, in order, are the sorted sequence of its members.
    pub proof fn lemma_is_sorted_set(&self, p: spec_fn(Seq<char>) -> bool)
        requires
            self.wf(),
            forall|k: Seq<char>| #[trigger] self.map().contains_key(k) <==> p(k),
        ensures
            self.keys() == sorted_set(p),
    {
        self.lemma_sorted();
        assert forall|k: Seq<char>| #[trigger] self.keys().contains(k) <==> p(k) by {
            assert(self.map().contains_key(k) == self.keys().contains(k));
        }
        let ks = sorted_set(p);
        lemma_sorted_unique(self.keys(), ks);
    }
}

} // verus!
