//! An ordered map keyed by strings: the entries kept in ascending key order,
//! each key once, as a `BTreeMap<String, T>` keeps them.
use vstd::prelude::*;
use crate::text::{seq_lt, str_eq, str_lt};

verus! {

/// Keys strictly ascending: sorted, and so each key at most once.
pub open spec fn ascending<T>(s: Seq<(Seq<char>, T)>) -> bool {
    forall|i: int, j: int| 0 <= i < j < s.len() ==> seq_lt(#[trigger] s[i].0, #[trigger] s[j].0)
}

/// The value of the first entry with key `k`.
pub open spec fn find<T>(s: Seq<(Seq<char>, T)>, k: Seq<char>) -> Option<T>
    decreases s.len(),
{
    if s.len() == 0 {
        None
    } else if s[0].0 == k {
        Some(s[0].1)
    } else {
        find(s.drop_first(), k)
    }
}

/// No string orders before itself.
pub proof fn lemma_lt_irreflexive(a: Seq<char>)
    ensures
        !seq_lt(a, a),
    decreases a.len(),
{
    if a.len() > 0 {
        lemma_lt_irreflexive(a.drop_first());
    }
}

/// The order of strings is transitive.
pub proof fn lemma_lt_transitive(a: Seq<char>, b: Seq<char>, c: Seq<char>)
    requires
        seq_lt(a, b),
        seq_lt(b, c),
    ensures
        seq_lt(a, c),
    decreases a.len(),
{
    if a.len() > 0 && b.len() > 0 && c.len() > 0 && a[0] == b[0] && b[0] == c[0] {
        lemma_lt_transitive(a.drop_first(), b.drop_first(), c.drop_first());
    }
}

/// Of two different strings, one orders before the other.
pub proof fn lemma_lt_total(a: Seq<char>, b: Seq<char>)
    requires
        a != b,
    ensures
        seq_lt(a, b) || seq_lt(b, a),
    decreases a.len(),
{
    if a.len() == 0 {
        if b.len() == 0 {
            assert(a =~= b);
        }
    } else if b.len() == 0 {
    } else if a[0] == b[0] {
        if a.drop_first() == b.drop_first() {
            assert(a =~= seq![a[0]] + a.drop_first());
            assert(b =~= seq![b[0]] + b.drop_first());
        }
        lemma_lt_total(a.drop_first(), b.drop_first());
    } else {
        if (a[0] as u32) == (b[0] as u32) {
            vstd::utf8::char_u32_cast(a[0], a[0] as u32);
            vstd::utf8::char_u32_cast(b[0], b[0] as u32);
        }
    }
}

/// Looking up in a concatenation looks in the first part first.
pub proof fn lemma_find_concat<T>(a: Seq<(Seq<char>, T)>, b: Seq<(Seq<char>, T)>, k: Seq<char>)
    ensures
        find(a + b, k) == (if find(a, k) is Some {
            find(a, k)
        } else {
            find(b, k)
        }),
    decreases a.len(),
{
    if a.len() == 0 {
        assert(a + b =~= b);
    } else {
        assert((a + b).drop_first() =~= a.drop_first() + b);
        lemma_find_concat(a.drop_first(), b, k);
    }
}

/// Looking up in a single entry.
pub proof fn lemma_find_single<T>(e: (Seq<char>, T), k: Seq<char>)
    ensures
        find(seq![e], k) == (if e.0 == k {
            Some(e.1)
        } else {
            None
        }),
{
    assert(seq![e].drop_first() =~= Seq::<(Seq<char>, T)>::empty());
    reveal_with_fuel(find, 2);
}

/// A key that no entry has is not found.
pub proof fn lemma_find_absent<T>(s: Seq<(Seq<char>, T)>, k: Seq<char>)
    requires
        forall|i: int| 0 <= i < s.len() ==> (#[trigger] s[i]).0 != k,
    ensures
        find(s, k) is None,
    decreases s.len(),
{
    if s.len() > 0 {
        assert(s[0].0 != k);
        assert forall|i: int| 0 <= i < s.drop_first().len() implies (
        #[trigger] s.drop_first()[i]).0 != k by {
            assert(s.drop_first()[i] == s[i + 1]);
        }
        lemma_find_absent(s.drop_first(), k);
    }
}

/// In ascending entries, the entry with a key is the one found.
pub proof fn lemma_find_present<T>(s: Seq<(Seq<char>, T)>, i: int)
    requires
        ascending(s),
        0 <= i < s.len(),
    ensures
        find(s, s[i].0) == Some(s[i].1),
    decreases i,
{
    if i > 0 {
        assert(seq_lt(s[0].0, s[i].0));
        lemma_lt_irreflexive(s[i].0);
        let t = s.drop_first();
        assert(t[i - 1] == s[i]);
        assert forall|x: int, y: int| 0 <= x < y < t.len() implies seq_lt(
            #[trigger] t[x].0,
            #[trigger] t[y].0,
        ) by {
            assert(t[x] == s[x + 1]);
            assert(t[y] == s[y + 1]);
        }
        lemma_find_present(t, i - 1);
    }
}

/// A map from strings to values, iterated in ascending key order.
#[derive(Debug, PartialEq, Eq)]
pub struct StrMap<T> {
    entries: Vec<(String, T)>,
}

/// The entries with their keys taken as text.
pub open spec fn entries_view<T>(e: Seq<(String, T)>) -> Seq<(Seq<char>, T)> {
    e.map_values(|x: (String, T)| (x.0@, x.1))
}

impl<T> View for StrMap<T> {
    type V = Seq<(Seq<char>, T)>;

    closed spec fn view(&self) -> Seq<(Seq<char>, T)> {
        entries_view(self.entries@)
    }
}

impl<T> StrMap<T> {
    /// Well formed: keys strictly ascending.  Every map has this property:
    /// it is the type's invariant.
    #[verifier::type_invariant]
    pub open spec fn wf(&self) -> bool {
        ascending(self@)
    }

    /// The value stored under `k`.
    pub open spec fn lookup(&self, k: Seq<char>) -> Option<T> {
        find(self@, k)
    }

    /// An empty map.
    pub fn new() -> (m: Self)
        ensures
            m@ == Seq::<(Seq<char>, T)>::empty(),
    {
        let m = StrMap { entries: Vec::new() };
        assert(m@ =~= Seq::<(Seq<char>, T)>::empty());
        m
    }

    /// The number of entries.
    pub fn len(&self) -> (n: usize)
        ensures
            n == self@.len(),
    {
        self.entries.len()
    }

    /// The key of the `i`-th entry in key order.
    pub fn key_at(&self, i: usize) -> (k: &String)
        requires
            i < self@.len(),
        ensures
            k@ == self@[i as int].0,
    {
        &self.entries[i].0
    }

    /// The value of the `i`-th entry in key order.
    pub fn value_at(&self, i: usize) -> (v: &T)
        requires
            i < self@.len(),
        ensures
            *v == self@[i as int].1,
    {
        &self.entries[i].1
    }

    /// The value stored under `key`, if any.
    pub fn get(&self, key: &str) -> (r: Option<&T>)
        ensures
            match r {
                Some(v) => self.lookup(key@) == Some(*v),
                None => self.lookup(key@) is None,
            },
    {
        let ghost s = self@;
        let mut i: usize = 0;
        assert(s.skip(0) =~= s);
        while i < self.entries.len()
            invariant
                s == self@,
                i <= s.len(),
                s.len() == self.entries@.len(),
                find(s, key@) == find(s.skip(i as int), key@),
            decreases s.len() - i,
        {
            assert(s[i as int].0 == self.entries@[i as int].0@);
            if str_eq(self.entries[i].0.as_str(), key) {
                assert(s.skip(i as int)[0] == s[i as int]);
                return Some(&self.entries[i].1);
            }
            assert(s.skip(i as int).drop_first() =~= s.skip(i + 1));
            i += 1;
        }
        None
    }

    /// Whether an entry has the key `key`.
    pub fn contains_key(&self, key: &str) -> (b: bool)
        ensures
            b == self.lookup(key@) is Some,
    {
        match self.get(key) {
            Some(_) => true,
            None => false,
        }
    }

    /// Stores `value` under `key`, as `BTreeMap::insert` does: the value
    /// stored before under `key` is returned, the other entries stay, and the
    /// keys stay in ascending order.
    pub fn insert(&mut self, key: String, value: T) -> (r: Option<T>)
        ensures
            r == old(self).lookup(key@),
            final(self).lookup(key@) == Some(value),
            forall|k: Seq<char>| k != key@ ==> #[trigger] final(self).lookup(k) == old(self).lookup(k),
            final(self)@.len() == old(self)@.len() + (if r is Some { 0int } else { 1int }),
    {
        proof {
            use_type_invariant(&*self);
        }
        let mut entries: Vec<(String, T)> = Vec::new();
        std::mem::swap(&mut entries, &mut self.entries);
        let ghost s = entries_view(entries@);
        assert(s == old(self)@);
        let ghost kv = key@;
        let mut i: usize = 0;
        while i < entries.len() && str_lt(entries[i].0.as_str(), key.as_str())
            invariant
                s == entries_view(entries@),
                kv == key@,
                i <= s.len(),
                s.len() == entries@.len(),
                forall|j: int| 0 <= j < i ==> seq_lt(#[trigger] s[j].0, kv),
            decreases s.len() - i,
        {
            i += 1;
        }
        proof {
            assert forall|j: int| 0 <= j < i implies (#[trigger] s.take(i as int)[j]).0 != kv by {
                assert(s.take(i as int)[j] == s[j]);
                lemma_lt_irreflexive(kv);
            }
            lemma_find_absent(s.take(i as int), kv);
        }
        if i < entries.len() && str_eq(entries[i].0.as_str(), key.as_str()) {
            let old_entry = entries.remove(i);
            entries.insert(i, (key, value));
            proof {
                let t = entries_view(entries@);
                assert(t =~= s.update(i as int, (kv, value)));
                assert(s =~= s.take(i as int) + seq![s[i as int]] + s.skip(i + 1));
                assert(t =~= s.take(i as int) + seq![(kv, value)] + s.skip(i + 1));
                assert(old_entry.0@ == s[i as int].0);
                lemma_find_concat(s.take(i as int) + seq![s[i as int]], s.skip(i + 1), kv);
                lemma_find_concat(s.take(i as int), seq![s[i as int]], kv);
                lemma_find_concat(s.take(i as int) + seq![(kv, value)], s.skip(i + 1), kv);
                lemma_find_concat(s.take(i as int), seq![(kv, value)], kv);
                assert forall|k: Seq<char>| k != kv implies #[trigger] find(t, k) == find(s, k) by {
                    lemma_find_concat(s.take(i as int) + seq![s[i as int]], s.skip(i + 1), k);
                    lemma_find_concat(s.take(i as int), seq![s[i as int]], k);
                    lemma_find_concat(s.take(i as int) + seq![(kv, value)], s.skip(i + 1), k);
                    lemma_find_concat(s.take(i as int), seq![(kv, value)], k);
                    lemma_find_single(s[i as int], k);
                    lemma_find_single((kv, value), k);
                }
                assert forall|x: int, y: int| 0 <= x < y < t.len() implies seq_lt(
                    #[trigger] t[x].0,
                    #[trigger] t[y].0,
                ) by {
                    assert(t[x].0 == s[x].0);
                    assert(t[y].0 == s[y].0);
                }
                assert(find(seq![s[i as int]], kv) == Some(old_entry.1));
            }
            self.entries = entries;
            Some(old_entry.1)
        } else {
            proof {
                if i < s.len() {
                    assert(s[i as int].0 == entries@[i as int].0@);
                    assert(!seq_lt(s[i as int].0, kv));
                    lemma_lt_total(s[i as int].0, kv);
                    assert(seq_lt(kv, s[i as int].0));
                }
            }
            entries.insert(i, (key, value));
            proof {
                let t = entries_view(entries@);
                assert(t =~= s.insert(i as int, (kv, value)));
                assert(s =~= s.take(i as int) + s.skip(i as int));
                assert(t =~= s.take(i as int) + seq![(kv, value)] + s.skip(i as int));
                lemma_find_concat(s.take(i as int) + seq![(kv, value)], s.skip(i as int), kv);
                lemma_find_concat(s.take(i as int), seq![(kv, value)], kv);
                assert forall|j: int| 0 <= j < s.skip(i as int).len() implies (#[trigger] s.skip(
                    i as int,
                )[j]).0 != kv by {
                    assert(s.skip(i as int)[j] == s[i + j]);
                    if j > 0 {
                        lemma_lt_transitive(kv, s[i as int].0, s[i + j].0);
                    }
                    lemma_lt_irreflexive(kv);
                }
                lemma_find_absent(s.skip(i as int), kv);
                lemma_find_concat(s.take(i as int), s.skip(i as int), kv);
                assert forall|k: Seq<char>| k != kv implies #[trigger] find(t, k) == find(s, k) by {
                    lemma_find_concat(s.take(i as int) + seq![(kv, value)], s.skip(i as int), k);
                    lemma_find_concat(s.take(i as int), seq![(kv, value)], k);
                    lemma_find_concat(s.take(i as int), s.skip(i as int), k);
                    lemma_find_single((kv, value), k);
                }
                assert forall|x: int, y: int| 0 <= x < y < t.len() implies seq_lt(
                    #[trigger] t[x].0,
                    #[trigger] t[y].0,
                ) by {
                    if y < i {
                        assert(t[x] == s[x] && t[y] == s[y]);
                    } else if y == i {
                        assert(t[x] == s[x]);
                    } else if x > i {
                        assert(t[x] == s[x - 1] && t[y] == s[y - 1]);
                    } else if x == i {
                        assert(t[y] == s[y - 1]);
                        if y - 1 > i {
                            lemma_lt_transitive(kv, s[i as int].0, s[y - 1].0);
                        }
                    } else {
                        assert(t[x] == s[x] && t[y] == s[y - 1]);
                        lemma_lt_transitive(s[x].0, kv, s[i as int].0);
                        if y - 1 > i {
                            lemma_lt_transitive(s[x].0, s[i as int].0, s[y - 1].0);
                        }
                    }
                }
            }
            self.entries = entries;
            None
        }
    }
}

impl<T: Clone> Clone for StrMap<T> {
    /// The same keys in the same order, each value cloned.
    fn clone(&self) -> (m: Self)
        ensures
            m@.len() == self@.len(),
            forall|i: int| 0 <= i < self@.len() ==> (#[trigger] m@[i]).0 == self@[i].0,
    {
        proof {
            use_type_invariant(self);
        }
        let mut entries: Vec<(String, T)> = Vec::new();
        let mut i: usize = 0;
        while i < self.entries.len()
            invariant
                i <= self.entries@.len(),
                entries@.len() == i,
                forall|k: int| 0 <= k < i ==> (#[trigger] entries@[k]).0@ == self.entries@[k].0@,
            decreases self.entries@.len() - i,
        {
            let key = self.entries[i].0.clone();
            let value = self.entries[i].1.clone();
            entries.push((key, value));
            i += 1;
        }
        let ghost mv = entries_view(entries@);
        assert forall|x: int, y: int| 0 <= x < y < mv.len() implies seq_lt(
            #[trigger] mv[x].0,
            #[trigger] mv[y].0,
        ) by {
            assert(mv[x].0 == self@[x].0);
            assert(mv[y].0 == self@[y].0);
        }
        StrMap { entries }
    }
}

impl<T> StrMap<T> {
    /// The same keys, in the same order, with the given values.
    pub fn with_values<U>(&self, values: Vec<U>) -> (m: StrMap<U>)
        requires
            values@.len() == self@.len(),
        ensures
            m@.len() == self@.len(),
            forall|i: int| 0 <= i < self@.len() ==> #[trigger] m@[i] == (self@[i].0, values@[i]),
    {
        proof {
            use_type_invariant(self);
        }
        let mut entries: Vec<(String, U)> = Vec::new();
        let mut values = values;
        let ghost vals = values@;
        let mut rest: Vec<U> = Vec::new();
        // Take the values from the back so that each is moved, then restore the order.
        while values.len() > 0
            invariant
                values@.len() <= vals.len(),
                values@ == vals.take(values@.len() as int),
                rest@.len() == vals.len() - values@.len(),
                forall|k: int| 0 <= k < rest@.len() ==> #[trigger] rest@[k] == vals[vals.len() - 1 - k],
            decreases values@.len(),
        {
            let ghost n = values@.len();
            let x = values.pop().unwrap();
            rest.push(x);
            proof {
                assert(values@ =~= vals.take(n - 1));
            }
        }
        let mut i: usize = 0;
        while i < self.entries.len()
            invariant
                self.entries@.len() == vals.len(),
                i <= vals.len(),
                rest@.len() == vals.len() - i,
                forall|k: int| 0 <= k < rest@.len() ==> #[trigger] rest@[k] == vals[vals.len() - 1 - k],
                entries@.len() == i,
                forall|k: int| 0 <= k < i ==> (#[trigger] entries@[k]).0@ == self@[k].0 && entries@[k].1 == vals[k],
            decreases vals.len() - i,
        {
            let x = rest.pop().unwrap();
            let key = self.entries[i].0.clone();
            assert(self@[i as int].0 == self.entries@[i as int].0@);
            entries.push((key, x));
            i += 1;
        }
        let ghost mv = entries_view(entries@);
        assert forall|k: int| 0 <= k < self@.len() implies #[trigger] mv[k] == (self@[k].0, vals[k]) by {
            assert(mv[k] == (entries@[k].0@, entries@[k].1));
        }
        assert forall|x: int, y: int| 0 <= x < y < mv.len() implies seq_lt(
            #[trigger] mv[x].0,
            #[trigger] mv[y].0,
        ) by {
            assert(mv[x].0 == self@[x].0);
            assert(mv[y].0 == self@[y].0);
        }
        let m = StrMap { entries };
        m
    }
}

} // verus!
