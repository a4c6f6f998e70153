//! A map from names to values that is walked in the order of the names.

use vstd::prelude::*;
use vstd::string::*;

use crate::text::{chars_of, same_text};

verus! {

/// `a` comes before `b`: character by character, by code point, and a prefix
/// before what it is a prefix of.
pub open spec fn precedes(a: Seq<char>, b: Seq<char>) -> bool
    decreases a.len(),
{
    if b.len() == 0 {
        false
    } else if a.len() == 0 {
        true
    } else if a[0] != b[0] {
        a[0] < b[0]
    } else {
        precedes(a.skip(1), b.skip(1))
    }
}

/// The order of names is strict and total.
pub proof fn lemma_precedes_total(a: Seq<char>, b: Seq<char>)
    ensures
        precedes(a, b) ==> a != b && !precedes(b, a),
        a != b ==> precedes(a, b) || precedes(b, a),
    decreases a.len(),
{
    if a.len() > 0 && b.len() > 0 && a[0] == b[0] {
        lemma_precedes_total(a.skip(1), b.skip(1));
        if a.skip(1) == b.skip(1) {
            assert(a =~= seq![a[0]] + a.skip(1));
            assert(b =~= seq![b[0]] + b.skip(1));
        }
    } else if a.len() == 0 && b.len() == 0 {
        assert(a =~= b);
    }
}

/// The order of names is transitive.
pub proof fn lemma_precedes_transitive(a: Seq<char>, b: Seq<char>, c: Seq<char>)
    requires
        precedes(a, b),
        precedes(b, c),
    ensures
        precedes(a, c),
    decreases a.len(),
{
    if a.len() > 0 && a[0] == b[0] && b[0] == c[0] {
        lemma_precedes_transitive(a.skip(1), b.skip(1), c.skip(1));
    }
}

/// Whether `a` comes before `b`.
fn text_precedes(a: &str, b: &str) -> (r: bool)
    ensures
        r == precedes(a@, b@),
{
    let x = chars_of(a);
    let y = chars_of(b);
    let mut i: usize = 0;
    assert(a@.skip(0) =~= a@);
    assert(b@.skip(0) =~= b@);
    while i < x.len() && i < y.len()
        invariant
            x@ == a@,
            y@ == b@,
            i <= x.len(),
            i <= y.len(),
            precedes(a@, b@) == precedes(a@.skip(i as int), b@.skip(i as int)),
        decreases x.len() - i,
    {
        if x[i] != y[i] {
            return x[i] < y[i];
        }
        assert(a@.skip(i as int).skip(1) =~= a@.skip(i + 1));
        assert(b@.skip(i as int).skip(1) =~= b@.skip(i + 1));
        i += 1;
    }
    i < y.len()
}

/// The value under a name.
pub open spec fn find<V>(entries: Seq<(Seq<char>, V)>, name: Seq<char>) -> Option<V>
    decreases entries.len(),
{
    if entries.len() == 0 {
        None
    } else if entries.last().0 == name {
        Some(entries.last().1)
    } else {
        find(entries.drop_last(), name)
    }
}

/// The names come in order, none of them twice.
pub open spec fn sorted<V>(entries: Seq<(Seq<char>, V)>) -> bool {
    forall|i: int, j: int| 0 <= i < j < entries.len() ==> precedes(entries[i].0, entries[j].0)
}

/// The map that a list of entries stands for.
pub open spec fn map_of<V>(entries: Seq<(Seq<char>, V)>) -> Map<Seq<char>, V> {
    Map::new(|k: Seq<char>| find(entries, k) is Some, |k: Seq<char>| find(entries, k)->0)
}

proof fn lemma_find<V>(entries: Seq<(Seq<char>, V)>, i: int)
    requires
        sorted(entries),
        0 <= i < entries.len(),
    ensures
        find(entries, entries[i].0) == Some(entries[i].1),
    decreases entries.len(),
{
    if i < entries.len() - 1 {
        lemma_precedes_total(entries[i].0, entries.last().0);
        assert(sorted(entries.drop_last()));
        lemma_find(entries.drop_last(), i);
    }
}

proof fn lemma_find_absent<V>(entries: Seq<(Seq<char>, V)>, name: Seq<char>)
    requires
        forall|i: int| 0 <= i < entries.len() ==> (#[trigger] entries[i]).0 != name,
    ensures
        find(entries, name) is None,
    decreases entries.len(),
{
    if entries.len() > 0 {
        assert(entries[entries.len() - 1].0 != name);
        assert forall|i: int| 0 <= i < entries.drop_last().len() implies (
        #[trigger] entries.drop_last()[i]).0 != name by {
            assert(entries.drop_last()[i] == entries[i]);
        }
        lemma_find_absent(entries.drop_last(), name);
    }
}

proof fn lemma_find_found<V>(entries: Seq<(Seq<char>, V)>, name: Seq<char>) -> (i: int)
    requires
        find(entries, name) is Some,
    ensures
        0 <= i < entries.len(),
        entries[i].0 == name,
        find(entries, name) == Some(entries[i].1),
    decreases entries.len(),
{
    if entries.last().0 == name {
        entries.len() - 1
    } else {
        let i = lemma_find_found(entries.drop_last(), name);
        assert(entries.drop_last()[i] == entries[i]);
        i
    }
}

/// Two sorted lists with the same entries, but for one name, stand for maps
/// that differ at that name alone.
proof fn lemma_inserted<V>(
    old_entries: Seq<(Seq<char>, V)>,
    new_entries: Seq<(Seq<char>, V)>,
    name: Seq<char>,
    value: V,
)
    requires
        sorted(old_entries),
        sorted(new_entries),
        exists|i: int| 0 <= i < new_entries.len() && #[trigger] new_entries[i] == (name, value),
        forall|i: int|
            0 <= i < old_entries.len() && (#[trigger] old_entries[i]).0 != name
                ==> new_entries.contains(old_entries[i]),
        forall|i: int|
            0 <= i < new_entries.len() && (#[trigger] new_entries[i]).0 != name
                ==> old_entries.contains(new_entries[i]),
    ensures
        map_of(new_entries) == map_of(old_entries).insert(name, value),
{
    let before = map_of(old_entries);
    let after = map_of(new_entries);
    let expected = before.insert(name, value);
    assert forall|k: Seq<char>|
        (#[trigger] after.dom().contains(k)) == expected.dom().contains(k) && (
        after.dom().contains(k) ==> after[k] == expected[k]) by {
        if k == name {
            let i = choose|i: int|
                0 <= i < new_entries.len() && #[trigger] new_entries[i] == (name, value);
            lemma_find(new_entries, i);
        } else {
            if find(new_entries, k) is Some {
                let i = lemma_find_found(new_entries, k);
                let j = choose|j: int|
                    0 <= j < old_entries.len() && old_entries[j] == new_entries[i];
                lemma_find(old_entries, j);
            }
            if find(old_entries, k) is Some {
                let i = lemma_find_found(old_entries, k);
                let j = choose|j: int|
                    0 <= j < new_entries.len() && new_entries[j] == old_entries[i];
                lemma_find(new_entries, j);
            }
        }
    }
    assert(after.dom() =~= expected.dom());
    assert(after =~= expected);
}

/// A map from names to values, walked in the order of the names.
#[derive(Debug)]
pub struct NameMap<V> {
    items: Vec<(String, V)>,
}

impl<V> NameMap<V> {
    /// The entries in the order of their names.
    pub closed spec fn entries(&self) -> Seq<(Seq<char>, V)> {
        Seq::new(self.items@.len(), |i: int| (self.items@[i].0@, self.items@[i].1))
    }

    /// The names come in order, none of them twice.
    pub open spec fn wf(&self) -> bool {
        sorted(self.entries())
    }

    pub open spec fn view(&self) -> Map<Seq<char>, V> {
        map_of(self.entries())
    }

    /// A map with nothing in it.
    pub fn new() -> (r: Self)
        ensures
            r.wf(),
            r.entries() == Seq::<(Seq<char>, V)>::empty(),
            r@ == Map::<Seq<char>, V>::empty(),
    {
        let r = NameMap { items: Vec::new() };
        assert(r.entries() =~= Seq::<(Seq<char>, V)>::empty());
        assert(r@ =~= Map::<Seq<char>, V>::empty());
        r
    }

    /// How many entries there are.
    pub fn len(&self) -> (r: usize)
        ensures
            r == self.entries().len(),
    {
        self.items.len()
    }

    /// The name at a position.
    pub fn name_at(&self, i: usize) -> (r: &str)
        requires
            i < self.entries().len(),
        ensures
            r@ == self.entries()[i as int].0,
    {
        self.items[i].0.as_str()
    }

    /// The value at a position.
    pub fn value_at(&self, i: usize) -> (r: &V)
        requires
            i < self.entries().len(),
        ensures
            *r == self.entries()[i as int].1,
    {
        &self.items[i].1
    }

    /// The value under a name.
    pub fn get(&self, name: &str) -> (r: Option<&V>)
        requires
            self.wf(),
        ensures
            match r {
                Some(v) => self@.dom().contains(name@) && self@[name@] == *v,
                None => !self@.dom().contains(name@),
            },
    {
        let ghost e = self.entries();
        let mut i: usize = 0;
        while i < self.items.len()
            invariant
                self.wf(),
                e == self.entries(),
                e.len() == self.items@.len(),
                i <= self.items.len(),
                forall|j: int| 0 <= j < i ==> (#[trigger] e[j]).0 != name@,
            decreases self.items.len() - i,
        {
            assert(e[i as int] == (self.items@[i as int].0@, self.items@[i as int].1));
            if same_text(self.items[i].0.as_str(), name) {
                proof {
                    lemma_find(e, i as int);
                }
                return Some(&self.items[i].1);
            }
            i += 1;
        }
        proof {
            lemma_find_absent(e, name@);
        }
        None
    }

    /// Set the value under a name; what was there before is replaced.
    pub fn insert(&mut self, name: String, value: V)
        requires
            old(self).wf(),
        ensures
            final(self).wf(),
            final(self)@ == old(self)@.insert(name@, value),
    {
        let ghost before = self.entries();
        let ghost items_before = self.items@;
        let mut i: usize = 0;
        while i < self.items.len() && text_precedes(self.items[i].0.as_str(), name.as_str())
            invariant
                self.items@ == items_before,
                before == self.entries(),
                before.len() == self.items@.len(),
                i <= self.items.len(),
                forall|j: int| 0 <= j < i ==> precedes((#[trigger] before[j]).0, name@),
            decreases self.items.len() - i,
        {
            assert(before[i as int].0 == self.items@[i as int].0@);
            i += 1;
        }
        if i < self.items.len() {
            assert(before[i as int].0 == self.items@[i as int].0@);
        }
        if i < self.items.len() && same_text(self.items[i].0.as_str(), name.as_str()) {
            self.items[i] = (name, value);
            proof {
                let after = self.entries();
                assert(after =~= before.update(i as int, (name@, value)));
                assert forall|a: int, b: int| 0 <= a < b < after.len() implies precedes(
                    after[a].0,
                    after[b].0,
                ) by {
                    assert(precedes(before[a].0, before[b].0));
                }
                assert(after[i as int] == (name@, value));
                assert forall|j: int|
                    0 <= j < before.len() && (#[trigger] before[j]).0
                        != name@ implies after.contains(before[j]) by {
                    assert(after[j] == before[j]);
                }
                assert forall|j: int|
                    0 <= j < after.len() && (#[trigger] after[j]).0
                        != name@ implies before.contains(after[j]) by {
                    assert(after[j] == before[j]);
                }
                lemma_inserted(before, after, name@, value);
            }
        } else {
            self.items.insert(i, (name, value));
            proof {
                let after = self.entries();
                assert(after =~= before.insert(i as int, (name@, value)));
                if i < before.len() {
                    lemma_precedes_total(before[i as int].0, name@);
                }
                assert forall|a: int, b: int| 0 <= a < b < after.len() implies precedes(
                    after[a].0,
                    after[b].0,
                ) by {
                    if a < i && b < i {
                        assert(precedes(before[a].0, before[b].0));
                    } else if a < i && b == i {
                        assert(precedes(before[a].0, name@));
                    } else if a < i {
                        assert(precedes(before[a].0, before[b - 1].0));
                    } else if a == i {
                        if b - 1 > i {
                            lemma_precedes_transitive(name@, before[i as int].0, before[b - 1].0);
                        }
                    } else {
                        assert(precedes(before[a - 1].0, before[b - 1].0));
                    }
                }
                assert(after[i as int] == (name@, value));
                assert forall|j: int|
                    0 <= j < before.len() && (#[trigger] before[j]).0
                        != name@ implies after.contains(before[j]) by {
                    if j < i {
                        assert(after[j] == before[j]);
                    } else {
                        assert(after[j + 1] == before[j]);
                    }
                }
                assert forall|j: int|
                    0 <= j < after.len() && (#[trigger] after[j]).0
                        != name@ implies before.contains(after[j]) by {
                    if j < i {
                        assert(after[j] == before[j]);
                    } else {
                        assert(after[j] == before[j - 1]);
                    }
                }
                lemma_inserted(before, after, name@, value);
            }
        }
    }
}

impl<V: Clone> Clone for NameMap<V> {
    fn clone(&self) -> (r: Self)
        ensures
            r.entries().len() == self.entries().len(),
            forall|i: int|
                0 <= i < self.entries().len() ==> (#[trigger] r.entries()[i]).0
                    == self.entries()[i].0 && cloned(self.entries()[i].1, r.entries()[i].1),
            self.wf() ==> r.wf(),
    {
        let mut items: Vec<(String, V)> = Vec::new();
        let mut i: usize = 0;
        while i < self.items.len()
            invariant
                i <= self.items.len(),
                items@.len() == i,
                forall|j: int|
                    0 <= j < i ==> (#[trigger] items@[j]).0@ == self.items@[j].0@ && cloned(
                        self.items@[j].1,
                        items@[j].1,
                    ),
            decreases self.items.len() - i,
        {
            let value = self.items[i].1.clone();
            items.push((self.items[i].0.clone(), value));
            i += 1;
        }
        let r = NameMap { items };
        assert forall|j: int| 0 <= j < self.entries().len() implies (#[trigger] r.entries()[j]).0
            == self.entries()[j].0 && cloned(self.entries()[j].1, r.entries()[j].1) by {
            assert(items@[j].0@ == self.items@[j].0@);
        }
        assert(self.wf() ==> r.wf()) by {
            if self.wf() {
                assert forall|a: int, b: int| 0 <= a < b < r.entries().len() implies precedes(
                    r.entries()[a].0,
                    r.entries()[b].0,
                ) by {
                    assert(precedes(self.entries()[a].0, self.entries()[b].0));
                }
            }
        }
        r
    }
}

} // verus!
