//! A table from names to values that holds each name once.

use vstd::prelude::*;

verus! {

/// One entry of a table.
pub struct Binding<V> {
    pub name: String,
    pub value: V,
}

/// The mapping that a sequence of entries stands for: a later entry
/// overrides an earlier one of the same name.
pub open spec fn bound<V>(entries: Seq<Binding<V>>) -> Map<Seq<char>, V>
    decreases entries.len(),
{
    if entries.len() == 0 {
        Map::empty()
    } else {
        bound(entries.drop_last()).insert(entries.last().name@, entries.last().value)
    }
}

/// Whether no name occurs twice among `entries`.
pub open spec fn distinct<V>(entries: Seq<Binding<V>>) -> bool {
    forall|i: int, j: int| 0 <= i < j < entries.len() ==> entries[i].name@ != entries[j].name@
}

/// Where no name occurs twice, the mapping binds just the names of the
/// entries, each to the value of its entry.
pub proof fn lemma_bound_is_the_entries<V>(entries: Seq<Binding<V>>)
    requires
        distinct(entries),
    ensures
        forall|n: Seq<char>| #[trigger]
            bound(entries).contains_key(n) <==> exists|i: int|
                0 <= i < entries.len() && #[trigger] entries[i].name@ == n,
        forall|i: int|
            0 <= i < entries.len() ==> bound(entries).contains_key(#[trigger] entries[i].name@)
                && bound(entries)[entries[i].name@] == entries[i].value,
    decreases entries.len(),
{
    if entries.len() > 0 {
        let front = entries.drop_last();
        assert(distinct(front)) by {
            assert forall|i: int, j: int| 0 <= i < j < front.len() implies front[i].name@
                != front[j].name@ by {
                assert(front[i] == entries[i] && front[j] == entries[j]);
            }
        }
        lemma_bound_is_the_entries(front);
        assert forall|n: Seq<char>| #[trigger] bound(entries).contains_key(n) implies exists|i: int|
            0 <= i < entries.len() && #[trigger] entries[i].name@ == n by {
            if n == entries.last().name@ {
                assert(entries[entries.len() - 1].name@ == n);
            } else {
                assert(bound(front).contains_key(n));
                let i = choose|i: int| 0 <= i < front.len() && #[trigger] front[i].name@ == n;
                assert(entries[i].name@ == n);
            }
        }
        assert forall|i: int| 0 <= i < entries.len() implies bound(entries).contains_key(
            #[trigger] entries[i].name@,
        ) && bound(entries)[entries[i].name@] == entries[i].value by {
            if i < entries.len() - 1 {
                assert(front[i] == entries[i]);
                assert(entries[i].name@ != entries[entries.len() - 1].name@);
            }
        }
    }
}

/// Where `name` is held among `entries`, if it is.
fn find<V>(entries: &Vec<Binding<V>>, name: &String) -> (r: Option<usize>)
    ensures
        match r {
            Some(i) => i < entries.len() && entries[i as int].name@ == name@,
            None => forall|k: int| 0 <= k < entries.len() ==> (#[trigger] entries[k]).name@ != name@,
        },
{
    let mut i: usize = 0;
    while i < entries.len()
        invariant
            i <= entries.len(),
            forall|k: int| 0 <= k < i ==> (#[trigger] entries[k]).name@ != name@,
        decreases entries.len() - i,
    {
        if entries[i].name == *name {
            return Some(i);
        }
        i = i + 1;
    }
    None
}

/// A table from names to values. A name is held once: a new binding for a
/// name that is already there takes the place of the old one.
pub struct Bindings<V> {
    entries: Vec<Binding<V>>,
}

impl<V: Copy> View for Bindings<V> {
    type V = Map<Seq<char>, V>;

    closed spec fn view(&self) -> Map<Seq<char>, V> {
        bound(self.entries@)
    }
}

impl<V> Bindings<V> {
    #[verifier::type_invariant]
    spec fn once(self) -> bool {
        distinct(self.entries@)
    }
}

impl<V: Copy> Bindings<V> {
    /// The empty table.
    pub fn new() -> (r: Self)
        ensures
            r@ == Map::<Seq<char>, V>::empty(),
    {
        Bindings { entries: Vec::new() }
    }

    /// Binds `name` to `value`, in place of any earlier binding of `name`.
    pub fn insert(&mut self, name: String, value: V)
        ensures
            final(self)@ == old(self)@.insert(name@, value),
    {
        proof {
            use_type_invariant(&*self);
        }
        let ghost before = self.entries@;
        let ghost key = name@;
        let mut entries: Vec<Binding<V>> = Vec::new();
        core::mem::swap(&mut entries, &mut self.entries);
        match find(&entries, &name) {
            Some(i) => {
                entries.set(i, Binding { name, value });
                proof {
                    let after = entries@;
                    assert(distinct(after)) by {
                        assert forall|a: int, b: int| 0 <= a < b < after.len() implies after[a].name@
                            != after[b].name@ by {
                            assert(after[a].name@ == before[a].name@);
                            assert(after[b].name@ == before[b].name@);
                        }
                    }
                    lemma_bound_is_the_entries(before);
                    lemma_bound_is_the_entries(after);
                    assert forall|n: Seq<char>| bound(after).contains_key(n) <==> bound(
                        before,
                    ).insert(key, value).contains_key(n) by {
                        if bound(after).contains_key(n) {
                            let k = choose|k: int| 0 <= k < after.len() && #[trigger] after[k].name@ == n;
                            assert(before[k].name@ == n);
                        }
                        if bound(before).contains_key(n) {
                            let k = choose|k: int|
                                0 <= k < before.len() && #[trigger] before[k].name@ == n;
                            assert(after[k].name@ == n);
                        }
                        if n == key {
                            assert(after[i as int].name@ == n);
                        }
                    }
                    assert forall|n: Seq<char>| bound(after).contains_key(n) implies bound(after)[n]
                        == bound(before).insert(key, value)[n] by {
                        let k = choose|k: int| 0 <= k < after.len() && #[trigger] after[k].name@ == n;
                        assert(before[k].name@ == n);
                        if k != i {
                            assert(after[k] == before[k]);
                        }
                    }
                    assert(bound(after) =~= bound(before).insert(key, value));
                }
            },
            None => {
                entries.push(Binding { name, value });
                proof {
                    let after = entries@;
                    assert(after.drop_last() == before);
                    assert(distinct(after)) by {
                        assert forall|a: int, b: int| 0 <= a < b < after.len() implies after[a].name@
                            != after[b].name@ by {
                            assert(after[a] == before[a]);
                            if b < before.len() {
                                assert(after[b] == before[b]);
                            }
                        }
                    }
                }
            },
        }
        core::mem::swap(&mut entries, &mut self.entries);
    }

    /// The value that `name` is bound to, if it is bound.
    pub fn get(&self, name: &String) -> (r: Option<V>)
        ensures
            r == (if self@.contains_key(name@) {
                Some(self@[name@])
            } else {
                None
            }),
    {
        proof {
            use_type_invariant(self);
            lemma_bound_is_the_entries(self.entries@);
        }
        match find(&self.entries, name) {
            Some(i) => Some(self.entries[i].value),
            None => None,
        }
    }
}

} // verus!
