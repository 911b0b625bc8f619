//! A small map from names to values, kept in the order of the names.
use vstd::prelude::*;

use crate::text::{chars_of, same_text};

verus! {

/// Whether one text stands before another in the dictionary.
pub open spec fn precedes(a: Seq<char>, b: Seq<char>) -> bool
    decreases a.len(),
{
    if b.len() == 0 {
        false
    } else if a.len() == 0 {
        true
    } else {
        a[0] < b[0] || (a[0] == b[0] && precedes(a.skip(1), b.skip(1)))
    }
}

pub proof fn lemma_precedes_self(a: Seq<char>)
    ensures
        !precedes(a, a),
    decreases a.len(),
{
    if a.len() > 0 {
        lemma_precedes_self(a.skip(1));
    }
}

pub proof fn lemma_precedes_transitive(a: Seq<char>, b: Seq<char>, c: Seq<char>)
    requires
        precedes(a, b),
        precedes(b, c),
    ensures
        precedes(a, c),
    decreases a.len(),
{
    if a.len() > 0 && a[0] == b[0] && b[0] == c[0] {
        lemma_precedes_transitive(a.skip(1), b.skip(1), c.skip(1));
    }
}

/// Of two different texts one stands before the other.
pub proof fn lemma_precedes_total(a: Seq<char>, b: Seq<char>)
    ensures
        precedes(a, b) || precedes(b, a) || a == b,
    decreases a.len(),
{
    if a.len() == 0 || b.len() == 0 {
        if a.len() == 0 && b.len() == 0 {
            assert(a =~= b);
        }
    } else if a[0] == b[0] {
        lemma_precedes_total(a.skip(1), b.skip(1));
        if a.skip(1) == b.skip(1) {
            assert forall|i: int| 0 <= i < a.len() implies a[i] == b[i] by {
                if i > 0 {
                    assert(a.skip(1)[i - 1] == b.skip(1)[i - 1]);
                }
            }
            assert(a.skip(1).len() == b.skip(1).len());
            assert(a =~= b);
        }
    }
}

/// Whether `a` stands before `b` in the dictionary.
pub fn text_precedes(a: &str, b: &str) -> (r: bool)
    ensures
        r == precedes(a@, b@),
{
    let x = chars_of(a);
    let y = chars_of(b);
    let mut i: usize = 0;
    assert(x@.skip(0) =~= x@);
    assert(y@.skip(0) =~= y@);
    while i < x.len() && i < y.len()
        invariant
            i <= x@.len(),
            i <= y@.len(),
            x@ == a@,
            y@ == b@,
            precedes(x@, y@) == precedes(x@.skip(i as int), y@.skip(i as int)),
        decreases x@.len() - i,
    {
        assert(x@.skip(i as int).skip(1) =~= x@.skip(i + 1));
        assert(y@.skip(i as int).skip(1) =~= y@.skip(i + 1));
        if x[i] < y[i] {
            return true;
        }
        if x[i] > y[i] {
            return false;
        }
        i += 1;
    }
    i < y.len()
}

/// Whether a name stands among entries.
pub open spec fn names<T>(entries: Seq<(Seq<char>, T)>, name: Seq<char>) -> bool {
    exists|i: int| 0 <= i < entries.len() && (#[trigger] entries[i]).0 == name
}

/// Where a name stands among entries.
pub open spec fn place<T>(entries: Seq<(Seq<char>, T)>, name: Seq<char>) -> int {
    choose|i: int| 0 <= i < entries.len() && (#[trigger] entries[i]).0 == name
}

/// Whether the names of entries follow each other in the dictionary, none
/// of them twice.
pub open spec fn ascending<T>(entries: Seq<(Seq<char>, T)>) -> bool {
    forall|i: int, j: int| #![trigger entries[i], entries[j]]
        0 <= i < j < entries.len() ==> precedes(entries[i].0, entries[j].0)
}

/// What entries map names to.
pub open spec fn mapping<T>(entries: Seq<(Seq<char>, T)>) -> Map<Seq<char>, T> {
    Map::new(|name: Seq<char>| names(entries, name), |name: Seq<char>| entries[place(entries, name)].1)
}

/// In ascending entries every name stands in one place.
pub proof fn lemma_place<T>(entries: Seq<(Seq<char>, T)>, i: int)
    requires
        ascending(entries),
        0 <= i < entries.len(),
    ensures
        names(entries, entries[i].0),
        place(entries, entries[i].0) == i,
        mapping(entries)[entries[i].0] == entries[i].1,
{
    let name = entries[i].0;
    let j = place(entries, name);
    assert(0 <= j < entries.len() && entries[j].0 == name);
    lemma_precedes_self(name);
    if j < i {
        assert(precedes(entries[j].0, entries[i].0));
    }
    if i < j {
        assert(precedes(entries[i].0, entries[j].0));
    }
}

/// Names with values. No name occurs twice, and they stand in order.
#[derive(Debug)]
pub struct NameMap<V> {
    pub entries: Vec<(String, V)>,
}

impl<V: DeepView> View for NameMap<V> {
    type V = Map<Seq<char>, V::V>;

    open spec fn view(&self) -> Map<Seq<char>, V::V> {
        mapping(self.entries.deep_view())
    }
}

impl<V: DeepView> NameMap<V> {
    pub open spec fn well_formed(self) -> bool {
        ascending(self.entries.deep_view())
    }

    pub fn new() -> (map: Self)
        ensures
            map.well_formed(),
            map.entries@.len() == 0,
            map@ == Map::<Seq<char>, V::V>::empty(),
    {
        let map = NameMap { entries: Vec::new() };
        assert(map@ =~= Map::<Seq<char>, V::V>::empty());
        map
    }

    pub fn len(&self) -> (n: usize)
        ensures
            n == self.entries@.len(),
    {
        self.entries.len()
    }

    /// The first place whose name does not stand before the given one.
    fn position(&self, name: &str) -> (p: usize)
        requires
            self.well_formed(),
        ensures
            p <= self.entries@.len(),
            forall|i: int|
                0 <= i < p ==> precedes(#[trigger] self.entries.deep_view()[i].0, name@),
            p < self.entries@.len() ==> !precedes(self.entries.deep_view()[p as int].0, name@),
    {
        let mut p: usize = 0;
        while p < self.entries.len()
            invariant
                p <= self.entries@.len(),
                forall|i: int|
                    0 <= i < p ==> precedes(#[trigger] self.entries.deep_view()[i].0, name@),
            decreases self.entries@.len() - p,
        {
            assert(self.entries.deep_view()[p as int].0 == self.entries@[p as int].0@);
            if !text_precedes(self.entries[p].0.as_str(), name) {
                return p;
            }
            p += 1;
        }
        p
    }

    pub fn contains_key(&self, name: &str) -> (r: bool)
        requires
            self.well_formed(),
        ensures
            r == self@.contains_key(name@),
    {
        let p = self.position(name);
        let ghost entries = self.entries.deep_view();
        if p < self.entries.len() {
            assert(entries[p as int].0 == self.entries@[p as int].0@);
            if same_text(self.entries[p].0.as_str(), name) {
                return true;
            }
        }
        proof {
            lemma_absent(entries, name@, p as int);
        }
        false
    }

    pub fn get(&self, name: &str) -> (r: Option<&V>)
        requires
            self.well_formed(),
        ensures
            match r {
                Some(value) => self@.contains_key(name@) && self@[name@] == value.deep_view(),
                None => !self@.contains_key(name@),
            },
    {
        let p = self.position(name);
        let ghost entries = self.entries.deep_view();
        if p < self.entries.len() {
            assert(entries[p as int].0 == self.entries@[p as int].0@);
            if same_text(self.entries[p].0.as_str(), name) {
                proof {
                    lemma_place(entries, p as int);
                }
                return Some(&self.entries[p].1);
            }
        }
        proof {
            lemma_absent(entries, name@, p as int);
        }
        None
    }

    /// Gives a name a value, in place of the one that it had.
    pub fn insert(&mut self, name: String, value: V)
        requires
            old(self).well_formed(),
        ensures
            final(self).well_formed(),
            final(self)@ == old(self)@.insert(name@, value.deep_view()),
            final(self).entries@.len() == old(self).entries@.len() + if old(self)@.contains_key(
                name@,
            ) {
                0int
            } else {
                1int
            },
    {
        let p = self.position(name.as_str());
        let ghost before = self.entries.deep_view();
        let ghost key = name@;
        let ghost item = value.deep_view();
        let found = if p < self.entries.len() {
            assert(before[p as int].0 == self.entries@[p as int].0@);
            same_text(self.entries[p].0.as_str(), name.as_str())
        } else {
            false
        };
        if found {
            self.entries.set(p, (name, value));
            proof {
                let after = self.entries.deep_view();
                assert(after =~= before.update(p as int, (key, item)));
                lemma_replaced(before, p as int, item);
            }
        } else {
            self.entries.insert(p, (name, value));
            proof {
                let after = self.entries.deep_view();
                assert(after =~= before.insert(p as int, (key, item)));
                lemma_absent(before, key, p as int);
                lemma_inserted(before, p as int, key, item);
            }
        }
    }

    /// Takes a name out of the map, with its value.
    pub fn remove(&mut self, name: &str)
        requires
            old(self).well_formed(),
        ensures
            final(self).well_formed(),
            final(self)@ == old(self)@.remove(name@),
    {
        let p = self.position(name);
        let ghost before = self.entries.deep_view();
        let found = if p < self.entries.len() {
            assert(before[p as int].0 == self.entries@[p as int].0@);
            same_text(self.entries[p].0.as_str(), name)
        } else {
            false
        };
        if found {
            let _ = self.entries.remove(p);
            proof {
                assert(self.entries.deep_view() =~= before.remove(p as int));
                lemma_removed(before, p as int);
            }
        } else {
            proof {
                lemma_absent(before, name@, p as int);
                assert(self@ =~= mapping(before).remove(name@));
            }
        }
    }
}

/// A name that would stand between two neighbours does not occur.
proof fn lemma_absent<T>(entries: Seq<(Seq<char>, T)>, name: Seq<char>, p: int)
    requires
        ascending(entries),
        0 <= p <= entries.len(),
        forall|i: int| 0 <= i < p ==> precedes(#[trigger] entries[i].0, name),
        p < entries.len() ==> !precedes(entries[p].0, name) && entries[p].0 != name,
    ensures
        !names(entries, name),
        forall|i: int| p <= i < entries.len() ==> precedes(name, #[trigger] entries[i].0),
{
    assert forall|i: int| p <= i < entries.len() implies precedes(name, #[trigger] entries[i].0) by {
        lemma_precedes_total(entries[p].0, name);
        if p < i {
            assert(precedes(entries[p].0, entries[i].0));
            lemma_precedes_transitive(name, entries[p].0, entries[i].0);
        }
    }
    lemma_precedes_self(name);
    if names(entries, name) {
        let i = place(entries, name);
        assert(entries[i].0 == name);
        if i < p {
            assert(precedes(entries[i].0, name));
        } else {
            assert(precedes(name, entries[i].0));
        }
    }
}

proof fn lemma_replaced<T>(entries: Seq<(Seq<char>, T)>, p: int, value: T)
    requires
        ascending(entries),
        0 <= p < entries.len(),
    ensures
        names(entries, entries[p].0),
        ascending(entries.update(p, (entries[p].0, value))),
        mapping(entries.update(p, (entries[p].0, value))) == mapping(entries).insert(
            entries[p].0,
            value,
        ),
{
    let name = entries[p].0;
    let after = entries.update(p, (name, value));
    assert forall|i: int, j: int| #![trigger after[i], after[j]]
        0 <= i < j < after.len() implies precedes(after[i].0, after[j].0) by {
        assert(precedes(entries[i].0, entries[j].0));
    }
    lemma_place(entries, p);
    lemma_place(after, p);
    assert forall|n: Seq<char>| names(after, n) == #[trigger] names(entries, n) by {
        if names(after, n) {
            let i = place(after, n);
            assert(entries[i].0 == n);
        }
        if names(entries, n) {
            let i = place(entries, n);
            assert(after[i].0 == n);
        }
    }
    assert forall|n: Seq<char>| names(entries, n) && n != name implies #[trigger] mapping(after)[n]
        == mapping(entries)[n] by {
        let i = place(entries, n);
        assert(entries[i].0 == n);
        assert(after[i] == entries[i]);
        lemma_place(entries, i);
        lemma_place(after, i);
    }
    assert(mapping(after) =~= mapping(entries).insert(name, value));
}

proof fn lemma_inserted<T>(entries: Seq<(Seq<char>, T)>, p: int, name: Seq<char>, value: T)
    requires
        ascending(entries),
        0 <= p <= entries.len(),
        !names(entries, name),
        forall|i: int| 0 <= i < p ==> precedes(#[trigger] entries[i].0, name),
        forall|i: int| p <= i < entries.len() ==> precedes(name, #[trigger] entries[i].0),
    ensures
        ascending(entries.insert(p, (name, value))),
        mapping(entries.insert(p, (name, value))) == mapping(entries).insert(name, value),
{
    let after = entries.insert(p, (name, value));
    assert forall|i: int, j: int| #![trigger after[i], after[j]]
        0 <= i < j < after.len() implies precedes(after[i].0, after[j].0) by {
        let a = if i < p {
            i
        } else {
            i - 1
        };
        let b = if j < p {
            j
        } else {
            j - 1
        };
        if i == p {
            assert(after[j] == entries[b]);
            assert(precedes(name, entries[b].0));
        } else if j == p {
            assert(after[i] == entries[a]);
            assert(precedes(entries[a].0, name));
        } else {
            assert(after[i] == entries[a]);
            assert(after[j] == entries[b]);
            assert(precedes(entries[a].0, entries[b].0));
        }
    }
    assert(after[p] == (name, value));
    lemma_place(after, p);
    assert forall|n: Seq<char>| #[trigger] names(after, n) == (names(entries, n) || n == name) by {
        if names(after, n) && n != name {
            let i = place(after, n);
            assert(after[i].0 == n);
            let a = if i < p {
                i
            } else {
                i - 1
            };
            assert(entries[a] == after[i]);
        }
        if names(entries, n) {
            let i = place(entries, n);
            let a = if i < p {
                i
            } else {
                i + 1
            };
            assert(after[a] == entries[i]);
        }
    }
    assert forall|n: Seq<char>| names(entries, n) implies #[trigger] mapping(after)[n] == mapping(
        entries,
    )[n] by {
        let i = place(entries, n);
        assert(entries[i].0 == n);
        let a = if i < p {
            i
        } else {
            i + 1
        };
        assert(after[a] == entries[i]);
        lemma_place(entries, i);
        lemma_place(after, a);
    }
    assert(mapping(after) =~= mapping(entries).insert(name, value));
}

proof fn lemma_removed<T>(entries: Seq<(Seq<char>, T)>, p: int)
    requires
        ascending(entries),
        0 <= p < entries.len(),
    ensures
        ascending(entries.remove(p)),
        mapping(entries.remove(p)) == mapping(entries).remove(entries[p].0),
{
    let name = entries[p].0;
    let after = entries.remove(p);
    assert forall|i: int, j: int| #![trigger after[i], after[j]]
        0 <= i < j < after.len() implies precedes(after[i].0, after[j].0) by {
        let a = if i < p {
            i
        } else {
            i + 1
        };
        let b = if j < p {
            j
        } else {
            j + 1
        };
        assert(after[i] == entries[a]);
        assert(after[j] == entries[b]);
        assert(precedes(entries[a].0, entries[b].0));
    }
    assert forall|n: Seq<char>| #[trigger] names(after, n) == (names(entries, n) && n != name) by {
        if names(after, n) {
            let i = place(after, n);
            let a = if i < p {
                i
            } else {
                i + 1
            };
            assert(after[i] == entries[a]);
            lemma_place(entries, a);
            lemma_place(entries, p);
        }
        if names(entries, n) && n != name {
            let i = place(entries, n);
            let a = if i < p {
                i
            } else {
                i - 1
            };
            assert(after[a] == entries[i]);
        }
    }
    assert forall|n: Seq<char>| names(after, n) implies #[trigger] mapping(after)[n] == mapping(
        entries,
    )[n] by {
        let i = place(after, n);
        let a = if i < p {
            i
        } else {
            i + 1
        };
        assert(after[i] == entries[a]);
        lemma_place(after, i);
        lemma_place(entries, a);
    }
    assert(mapping(after) =~= mapping(entries).remove(name));
}

} // verus!
