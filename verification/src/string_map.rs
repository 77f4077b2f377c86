//! A map from strings to values, walked in the order of its keys.

use crate::text::chars_of;
use vstd::prelude::*;

verus! {

/// `a` and `b` agree before position `k`, and there `a` has ended or has the
/// smaller character.
pub open spec fn less_from(a: Seq<char>, b: Seq<char>, k: int) -> bool {
    &&& 0 <= k <= a.len()
    &&& k < b.len()
    &&& forall|j: int| 0 <= j < k ==> a[j] == b[j]
    &&& k < a.len() ==> a[k] < b[k]
}

/// `a` comes before `b` in the lexicographic order of code points.
pub open spec fn text_less(a: Seq<char>, b: Seq<char>) -> bool {
    exists|k: int| less_from(a, b, k)
}

proof fn lemma_text_less_irreflexive(a: Seq<char>)
    ensures
        !text_less(a, a),
{
}

proof fn lemma_text_less_transitive(a: Seq<char>, b: Seq<char>, c: Seq<char>)
    requires
        text_less(a, b),
        text_less(b, c),
    ensures
        text_less(a, c),
{
    let k = choose|k: int| less_from(a, b, k);
    let m = choose|m: int| less_from(b, c, m);
    if k <= m {
        assert(less_from(a, c, k));
    } else {
        assert(less_from(a, c, m));
    }
}

/// How one text stands to another.
#[derive(Clone, Copy, PartialEq, Eq, Structural, Debug)]
pub enum TextOrder {
    Before,
    Same,
    Behind,
}

/// Compares two texts in the lexicographic order of code points.
pub fn text_order(a: &str, b: &str) -> (order: TextOrder)
    ensures
        match order {
            TextOrder::Before => text_less(a@, b@),
            TextOrder::Same => a@ == b@,
            TextOrder::Behind => text_less(b@, a@),
        },
{
    let x = chars_of(a);
    let y = chars_of(b);
    let mut i: usize = 0;
    while i < x.len() && i < y.len()
        invariant
            i <= x@.len(),
            i <= y@.len(),
            x@ == a@,
            y@ == b@,
            forall|j: int| 0 <= j < i ==> x@[j] == y@[j],
        decreases x@.len() - i,
    {
        if x[i] < y[i] {
            assert(less_from(a@, b@, i as int));
            return TextOrder::Before;
        }
        if y[i] < x[i] {
            assert(less_from(b@, a@, i as int));
            return TextOrder::Behind;
        }
        i += 1;
    }
    if i < y.len() {
        assert(less_from(a@, b@, i as int));
        TextOrder::Before
    } else if i < x.len() {
        assert(less_from(b@, a@, i as int));
        TextOrder::Behind
    } else {
        assert(a@ =~= b@);
        TextOrder::Same
    }
}

/// The keys of `entries` ascend, so that none comes twice.
pub open spec fn ascending<V>(entries: Seq<(String, V)>) -> bool {
    forall|i: int, j: int|
        0 <= i < j < entries.len() ==> text_less((#[trigger] entries[i]).0@, (
        #[trigger] entries[j]).0@)
}

/// Entry `i` stands under `key`.
pub open spec fn stands_under<V>(entries: Seq<(String, V)>, key: Seq<char>, i: int) -> bool {
    0 <= i < entries.len() && entries[i].0@ == key
}

/// The map that a list of entries spells out.
pub open spec fn entries_map<V: View>(entries: Seq<(String, V)>) -> Map<Seq<char>, V::V> {
    Map::new(
        |key: Seq<char>| exists|i: int| stands_under(entries, key, i),
        |key: Seq<char>| entries[choose|i: int| stands_under(entries, key, i)].1@,
    )
}

/// An entry of a list whose keys ascend stands in the map under its key.
pub proof fn lemma_entry_in_map<V: View>(entries: Seq<(String, V)>, i: int)
    requires
        ascending(entries),
        0 <= i < entries.len(),
    ensures
        entries_map(entries).contains_key(entries[i].0@),
        entries_map(entries)[entries[i].0@] == entries[i].1@,
{
    let key = entries[i].0@;
    assert(stands_under(entries, key, i));
    let j = choose|j: int| stands_under(entries, key, j);
    lemma_text_less_irreflexive(key);
    if j < i {
        assert(text_less(entries[j].0@, entries[i].0@));
    } else if i < j {
        assert(text_less(entries[i].0@, entries[j].0@));
    }
}

/// A map with strings as keys, in ascending order of its keys.
#[derive(Debug)]
pub struct StringMap<V> {
    entries: Vec<(String, V)>,
}

impl<V: View> View for StringMap<V> {
    type V = Map<Seq<char>, V::V>;

    closed spec fn view(&self) -> Map<Seq<char>, V::V> {
        entries_map(self.entries@)
    }
}

impl<V> StringMap<V> {
    /// The keys ascend.
    #[verifier::type_invariant]
    spec fn in_order(self) -> bool {
        ascending(self.entries@)
    }
}

impl<V: View> StringMap<V> {
    /// The empty map.
    pub fn new() -> (map: StringMap<V>)
        ensures
            map@ == Map::<Seq<char>, V::V>::empty(),
    {
        let map = StringMap { entries: Vec::new() };
        assert(map@ =~= Map::<Seq<char>, V::V>::empty());
        map
    }

    /// The map that a list of entries in ascending order of their keys spells
    /// out.
    pub fn from_entries(entries: Vec<(String, V)>) -> (map: StringMap<V>)
        requires
            ascending(entries@),
        ensures
            map@ == entries_map(entries@),
    {
        StringMap { entries }
    }

    /// Puts `value` under `key`, in place of what stood there.
    pub fn insert(&mut self, key: String, value: V)
        ensures
            final(self)@ == old(self)@.insert(key@, value@),
    {
        proof {
            use_type_invariant(&*self);
        }
        let mut entries: Vec<(String, V)> = Vec::new();
        std::mem::swap(&mut entries, &mut self.entries);
        put_entry(&mut entries, key, value);
        self.entries = entries;
    }

    /// The value under `key`.
    pub fn get(&self, key: &str) -> (value: Option<&V>)
        ensures
            match value {
                Some(v) => self@.contains_key(key@) && v@ == self@[key@],
                None => !self@.contains_key(key@),
            },
    {
        proof {
            use_type_invariant(self);
        }
        let n: usize = self.entries.len();
        let mut i: usize = 0;
        while i < n
            invariant
                i <= n,
                n == self.entries@.len(),
                ascending(self.entries@),
                forall|j: int| 0 <= j < i ==> (#[trigger] self.entries@[j]).0@ != key@,
            decreases n - i,
        {
            if let TextOrder::Same = text_order(self.entries[i].0.as_str(), key) {
                proof {
                    lemma_entry_in_map(self.entries@, i as int);
                }
                return Some(&self.entries[i].1);
            }
            assert(self.entries@[i as int].0@ != key@) by {
                lemma_text_less_irreflexive(key@);
            }
            i += 1;
        }
        proof {
            if self@.contains_key(key@) {
                let j = choose|j: int| stands_under(self.entries@, key@, j);
                assert(self.entries@[j].0@ != key@);
            }
        }
        None
    }

    /// The entries in ascending order of their keys.
    pub fn entries(&self) -> (entries: &Vec<(String, V)>)
        ensures
            ascending(entries@),
            self@ == entries_map(entries@),
    {
        proof {
            use_type_invariant(self);
        }
        &self.entries
    }
}

/// Puts `value` under `key` into a list of entries whose keys ascend.
fn put_entry<V: View>(entries: &mut Vec<(String, V)>, key: String, value: V)
    requires
        ascending(old(entries)@),
    ensures
        ascending(final(entries)@),
        entries_map(final(entries)@) == entries_map(old(entries)@).insert(key@, value@),
{
    let ghost before = entries@;
    let ghost k = key@;
    let n: usize = entries.len();
    let mut i: usize = 0;
    while i < n
        invariant
            i <= n,
            n == entries@.len(),
            entries@ == before,
            before == old(entries)@,
            k == key@,
            ascending(before),
            forall|j: int| 0 <= j < i ==> text_less((#[trigger] before[j]).0@, k),
        decreases n - i,
    {
        match text_order(entries[i].0.as_str(), key.as_str()) {
            TextOrder::Before => {
                i += 1;
            },
            TextOrder::Same => {
                entries.set(i, (key, value));
                proof {
                    lemma_replaced(before, entries@, i as int, k);
                }
                return ;
            },
            TextOrder::Behind => {
                entries.insert(i, (key, value));
                proof {
                    lemma_inserted(before, entries@, i as int, k);
                }
                return ;
            },
        }
    }
    entries.insert(i, (key, value));
    proof {
        lemma_inserted(before, entries@, i as int, k);
    }
}

/// A type whose values can be copied with all that their models tell.
pub trait Copied: View + Sized {
    /// A value with the same model.
    fn copied(&self) -> (copy: Self)
        ensures
            copy@ == self@,
    ;
}

impl<V: Copied> Clone for StringMap<V> {
    fn clone(&self) -> (copy: StringMap<V>)
        ensures
            copy@ == self@,
    {
        proof {
            use_type_invariant(self);
        }
        let mut entries: Vec<(String, V)> = Vec::new();
        let n: usize = self.entries.len();
        let mut i: usize = 0;
        while i < n
            invariant
                i <= n,
                n == self.entries@.len(),
                ascending(self.entries@),
                entries@.len() == i,
                forall|k: int|
                    0 <= k < i ==> (#[trigger] entries@[k]).0@ == self.entries@[k].0@
                        && entries@[k].1@ == self.entries@[k].1@,
            decreases n - i,
        {
            entries.push((self.entries[i].0.clone(), self.entries[i].1.copied()));
            i += 1;
        }
        proof {
            let same = |v: V::V| v;
            lemma_entries_mapped(self.entries@, entries@, same);
            assert(self@.map_values(same) =~= self@);
        }
        StringMap { entries }
    }
}

/// Entries with the keys of others and with values that are made of theirs
/// spell out the map with those values.
pub proof fn lemma_entries_mapped<V: View, W: View>(
    a: Seq<(String, V)>,
    b: Seq<(String, W)>,
    f: spec_fn(V::V) -> W::V,
)
    requires
        ascending(a),
        a.len() == b.len(),
        forall|k: int|
            0 <= k < a.len() ==> (#[trigger] b[k]).0@ == a[k].0@ && b[k].1@ == f(a[k].1@),
    ensures
        ascending(b),
        entries_map(b) == entries_map(a).map_values(f),
{
    assert forall|i: int, j: int| 0 <= i < j < b.len() implies text_less(
        (#[trigger] b[i]).0@,
        (#[trigger] b[j]).0@,
    ) by {
        assert(text_less(a[i].0@, a[j].0@));
    }
    let m = entries_map(b);
    let w = entries_map(a).map_values(f);
    assert forall|x: Seq<char>| m.contains_key(x) == w.contains_key(x) by {
        if m.contains_key(x) {
            let j = choose|j: int| stands_under(b, x, j);
            assert(stands_under(a, x, j));
        }
        if w.contains_key(x) {
            let j = choose|j: int| stands_under(a, x, j);
            assert(stands_under(b, x, j));
        }
    }
    assert forall|x: Seq<char>| m.contains_key(x) implies m[x] == w[x] by {
        let j = choose|j: int| stands_under(b, x, j);
        lemma_entry_in_map(a, j);
        lemma_entry_in_map(b, j);
    }
    assert(m =~= w);
}

proof fn lemma_replaced<V: View>(
    before: Seq<(String, V)>,
    after: Seq<(String, V)>,
    i: int,
    key: Seq<char>,
)
    requires
        ascending(before),
        0 <= i < before.len(),
        after.len() == before.len(),
        before[i].0@ == key,
        after[i].0@ == key,
        forall|j: int| 0 <= j < before.len() && j != i ==> after[j] == before[j],
    ensures
        ascending(after),
        entries_map(after) == entries_map(before).insert(key, after[i].1@),
{
    assert forall|a: int, b: int| 0 <= a < b < after.len() implies text_less(
        (#[trigger] after[a]).0@,
        (#[trigger] after[b]).0@,
    ) by {
        assert(text_less(before[a].0@, before[b].0@));
    }
    let m = entries_map(after);
    let w = entries_map(before).insert(key, after[i].1@);
    assert forall|x: Seq<char>| m.contains_key(x) == w.contains_key(x) by {
        if m.contains_key(x) {
            let j = choose|j: int| stands_under(after, x, j);
            assert(stands_under(before, x, j));
        }
        if w.contains_key(x) {
            if x == key {
                assert(stands_under(after, x, i));
            } else {
                let j = choose|j: int| stands_under(before, x, j);
                assert(stands_under(after, x, j));
            }
        }
    }
    assert forall|x: Seq<char>| m.contains_key(x) implies m[x] == w[x] by {
        let j = choose|j: int| stands_under(after, x, j);
        lemma_entry_in_map(after, j);
        if x == key {
            lemma_entry_in_map(after, i);
        } else {
            lemma_entry_in_map(before, j);
        }
    }
    assert(m =~= w);
}

proof fn lemma_inserted<V: View>(
    before: Seq<(String, V)>,
    after: Seq<(String, V)>,
    i: int,
    key: Seq<char>,
)
    requires
        ascending(before),
        0 <= i <= before.len(),
        after.len() == before.len() + 1,
        after == before.insert(i, after[i]),
        after[i].0@ == key,
        forall|j: int| 0 <= j < i ==> text_less((#[trigger] before[j]).0@, key),
        i < before.len() ==> text_less(key, before[i].0@),
    ensures
        ascending(after),
        entries_map(after) == entries_map(before).insert(key, after[i].1@),
{
    assert forall|j: int| i <= j < before.len() implies text_less(
        key,
        (#[trigger] before[j]).0@,
    ) by {
        if j > i {
            assert(text_less(before[i].0@, before[j].0@));
            lemma_text_less_transitive(key, before[i].0@, before[j].0@);
        }
    }
    assert(forall|j: int| 0 <= j < i ==> after[j] == before[j]);
    assert(forall|j: int| i < j < after.len() ==> after[j] == before[j - 1]);
    assert forall|a: int, b: int| 0 <= a < b < after.len() implies text_less(
        (#[trigger] after[a]).0@,
        (#[trigger] after[b]).0@,
    ) by {
        let x = if a < i {
            a
        } else {
            a - 1
        };
        let y = if b < i {
            b
        } else {
            b - 1
        };
        if a != i && b != i {
            assert(text_less(before[x].0@, before[y].0@));
        } else if a == i {
            assert(text_less(key, before[y].0@));
        } else {
            assert(text_less(before[x].0@, key));
        }
    }
    let m = entries_map(after);
    let w = entries_map(before).insert(key, after[i].1@);
    assert forall|x: Seq<char>| m.contains_key(x) == w.contains_key(x) by {
        if m.contains_key(x) {
            let j = choose|j: int| stands_under(after, x, j);
            if j != i {
                let o = if j < i {
                    j
                } else {
                    j - 1
                };
                assert(stands_under(before, x, o));
            }
        }
        if w.contains_key(x) {
            if x == key {
                assert(stands_under(after, x, i));
            } else {
                let j = choose|j: int| stands_under(before, x, j);
                let o = if j < i {
                    j
                } else {
                    j + 1
                };
                assert(stands_under(after, x, o));
            }
        }
    }
    assert forall|x: Seq<char>| m.contains_key(x) implies m[x] == w[x] by {
        let j = choose|j: int| stands_under(after, x, j);
        lemma_entry_in_map(after, j);
        if x == key {
            lemma_entry_in_map(after, i);
        } else {
            let o = if j < i {
                j
            } else {
                j - 1
            };
            assert(j != i);
            assert(stands_under(before, x, o));
            lemma_entry_in_map(before, o);
        }
    }
    assert(m =~= w);
}

/// Texts are ordered like words in a dictionary, by code points: by the first
/// character in which they differ, and a text before all that begin with it. No
/// text comes before itself.
pub proof fn law_text_order(a: Seq<char>, x: char, y: char, s: Seq<char>, t: Seq<char>)
    ensures
        x < y ==> text_less(a + seq![x] + s, a + seq![y] + t),
        x < y ==> !text_less(a + seq![y] + t, a + seq![x] + s),
        text_less(a, a + seq![x] + s),
        !text_less(a + seq![x] + s, a),
        !text_less(a, a),
{
    let p = a + seq![x] + s;
    let q = a + seq![y] + t;
    let n = a.len() as int;
    assert(less_from(a, p, n));
    lemma_text_less_irreflexive(a);
    if text_less(p, a) {
        lemma_text_less_transitive(a, p, a);
    }
    if x < y {
        assert(p[n] == x && q[n] == y);
        assert(less_from(p, q, n));
        lemma_text_less_irreflexive(p);
        if text_less(q, p) {
            lemma_text_less_transitive(p, q, p);
        }
    }
}

} // verus!
