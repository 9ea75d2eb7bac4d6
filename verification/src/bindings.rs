//! Named values handed to a template: flags, and texts. Each is a list of
//! pairs in the order in which they were bound; a name that is bound again
//! takes its latest value.

use crate::text::{owned, str_eq};
use vstd::prelude::*;

verus! {

/// The map that a list of pairs stands for: each name with the value of its
/// last pair.
pub open spec fn as_map<V>(pairs: Seq<(Seq<char>, V)>) -> Map<Seq<char>, V>
    decreases pairs.len(),
{
    if pairs.len() == 0 {
        Map::empty()
    } else {
        as_map(pairs.drop_last()).insert(pairs.last().0, pairs.last().1)
    }
}

/// The position of the last pair with the given name.
pub open spec fn last_bound<V>(pairs: Seq<(Seq<char>, V)>, name: Seq<char>) -> Option<int>
    decreases pairs.len(),
{
    if pairs.len() == 0 {
        None
    } else if pairs.last().0 == name {
        Some(pairs.len() - 1)
    } else {
        last_bound(pairs.drop_last(), name)
    }
}

/// The map binds a name exactly when some pair has it, and then to the
/// value of the last such pair.
pub proof fn lemma_as_map<V>(pairs: Seq<(Seq<char>, V)>, name: Seq<char>)
    ensures
        match last_bound(pairs, name) {
            Some(i) => 0 <= i < pairs.len() && pairs[i].0 == name && as_map(pairs).contains_key(
                name,
            ) && as_map(pairs)[name] == pairs[i].1,
            None => !as_map(pairs).contains_key(name),
        },
        as_map(pairs).contains_key(name) <==> exists|i: int|
            0 <= i < pairs.len() && (#[trigger] pairs[i]).0 == name,
    decreases pairs.len(),
{
    if pairs.len() > 0 {
        let init = pairs.drop_last();
        lemma_as_map(init, name);
        if pairs.last().0 != name {
            if as_map(pairs).contains_key(name) {
                let i = choose|i: int| 0 <= i < init.len() && (#[trigger] init[i]).0 == name;
                assert(pairs[i].0 == name);
            }
            if exists|i: int| 0 <= i < pairs.len() && (#[trigger] pairs[i]).0 == name {
                let i = choose|i: int| 0 <= i < pairs.len() && (#[trigger] pairs[i]).0 == name;
                assert(init[i].0 == name);
            }
        } else {
            assert(pairs[pairs.len() - 1].0 == name);
        }
    }
}

/// The last pair with a name has no pair of that name behind it.
pub proof fn lemma_last_bound_is_last<V>(pairs: Seq<(Seq<char>, V)>, name: Seq<char>)
    ensures
        match last_bound(pairs, name) {
            Some(k) => 0 <= k < pairs.len() && pairs[k].0 == name && forall|j: int|
                k < j < pairs.len() ==> (#[trigger] pairs[j]).0 != name,
            None => forall|j: int| 0 <= j < pairs.len() ==> (#[trigger] pairs[j]).0 != name,
        },
    decreases pairs.len(),
{
    if pairs.len() > 0 && pairs.last().0 != name {
        let init = pairs.drop_last();
        lemma_last_bound_is_last(init, name);
        match last_bound(init, name) {
            Some(k) => {
                assert forall|j: int| k < j < pairs.len() implies (#[trigger] pairs[j]).0
                    != name by {
                    if j < init.len() {
                        assert(init[j] == pairs[j]);
                    }
                }
            },
            None => {
                assert forall|j: int| 0 <= j < pairs.len() implies (#[trigger] pairs[j]).0
                    != name by {
                    if j < init.len() {
                        assert(init[j] == pairs[j]);
                    }
                }
            },
        }
    }
}

/// A pair with no pair of its name behind it is the last with that name.
pub proof fn lemma_last_bound<V>(pairs: Seq<(Seq<char>, V)>, name: Seq<char>, k: int)
    requires
        -1 <= k < pairs.len(),
        k >= 0 ==> pairs[k].0 == name,
        forall|j: int| k < j < pairs.len() ==> (#[trigger] pairs[j]).0 != name,
    ensures
        last_bound(pairs, name) == if k >= 0 {
            Some(k)
        } else {
            None
        },
    decreases pairs.len(),
{
    if pairs.len() > 0 && pairs.last().0 != name {
        let init = pairs.drop_last();
        assert forall|j: int| k < j < init.len() implies (#[trigger] init[j]).0 != name by {
            assert(init[j] == pairs[j]);
        }
        lemma_last_bound(init, name, k);
    }
}

/// No two pairs have the same name.
pub open spec fn unique_names<V>(pairs: Seq<(Seq<char>, V)>) -> bool {
    forall|i: int, j: int|
        0 <= i < pairs.len() && 0 <= j < pairs.len() && i != j ==> (#[trigger] pairs[i]).0 != (
        #[trigger] pairs[j]).0
}

/// Pairs with distinct names stand for a map of as many names.
pub proof fn lemma_as_map_len<V>(pairs: Seq<(Seq<char>, V)>)
    requires
        unique_names(pairs),
    ensures
        as_map(pairs).dom().finite(),
        as_map(pairs).len() == pairs.len(),
    decreases pairs.len(),
{
    if pairs.len() > 0 {
        let init = pairs.drop_last();
        assert forall|i: int, j: int|
            0 <= i < init.len() && 0 <= j < init.len() && i != j implies (#[trigger] init[i]).0
            != (#[trigger] init[j]).0 by {
            assert(init[i] == pairs[i] && init[j] == pairs[j]);
        }
        lemma_as_map_len(init);
        lemma_as_map(init, pairs.last().0);
        if as_map(init).contains_key(pairs.last().0) {
            let i = choose|i: int| 0 <= i < init.len() && (#[trigger] init[i]).0 == pairs.last().0;
            assert(pairs[i] == init[i]);
            assert(pairs[pairs.len() - 1].0 == pairs[i].0);
        }
        assert(as_map(pairs).dom() =~= as_map(init).dom().insert(pairs.last().0));
    }
}

/// To bind a name anew is to insert it into the map, whatever was bound
/// before.
pub proof fn lemma_as_map_push<V>(pairs: Seq<(Seq<char>, V)>, name: Seq<char>, value: V)
    ensures
        as_map(pairs.push((name, value))) == as_map(pairs).insert(name, value),
{
    assert(pairs.push((name, value)).drop_last() =~= pairs);
}

/// To give the last pair of a name another value is to insert the name
/// into the map.
pub proof fn lemma_as_map_rebind<V>(pairs: Seq<(Seq<char>, V)>, name: Seq<char>, value: V, i: int)
    requires
        last_bound(pairs, name) == Some(i),
    ensures
        0 <= i < pairs.len(),
        pairs[i].0 == name,
        as_map(pairs.update(i, (name, value))) == as_map(pairs).insert(name, value),
        unique_names(pairs) ==> unique_names(pairs.update(i, (name, value))),
    decreases pairs.len(),
{
    lemma_as_map(pairs, name);
    let after = pairs.update(i, (name, value));
    if pairs.last().0 == name {
        assert(after.drop_last() =~= pairs.drop_last());
        assert(as_map(after) =~= as_map(pairs).insert(name, value));
    } else {
        lemma_as_map_rebind(pairs.drop_last(), name, value, i);
        assert(after.drop_last() =~= pairs.drop_last().update(i, (name, value)));
        assert(after.last() == pairs.last());
        assert(as_map(after) =~= as_map(pairs).insert(name, value));
    }
    if unique_names(pairs) {
        assert forall|a: int, b: int|
            0 <= a < after.len() && 0 <= b < after.len() && a != b implies (#[trigger] after[a]).0
            != (#[trigger] after[b]).0 by {
            assert(after[a].0 == pairs[a].0 && after[b].0 == pairs[b].0);
        }
    }
}

/// Among pairs with distinct names, the map binds each name to the value
/// of its pair.
pub proof fn lemma_as_map_unique<V>(pairs: Seq<(Seq<char>, V)>, i: int)
    requires
        unique_names(pairs),
        0 <= i < pairs.len(),
    ensures
        as_map(pairs).contains_key(pairs[i].0),
        as_map(pairs)[pairs[i].0] == pairs[i].1,
{
    lemma_as_map(pairs, pairs[i].0);
}

/// Among pairs with distinct names, a new value for the pair at `i` is a
/// new value for its name in the map.
pub proof fn lemma_as_map_update<V>(pairs: Seq<(Seq<char>, V)>, i: int, value: V)
    requires
        unique_names(pairs),
        0 <= i < pairs.len(),
    ensures
        unique_names(pairs.update(i, (pairs[i].0, value))),
        as_map(pairs.update(i, (pairs[i].0, value))) == as_map(pairs).insert(pairs[i].0, value),
{
    let name = pairs[i].0;
    let now = pairs.update(i, (name, value));
    assert forall|a: int, b: int|
        0 <= a < now.len() && 0 <= b < now.len() && a != b implies (#[trigger] now[a]).0 != (
    #[trigger] now[b]).0 by {
        assert(now[a].0 == pairs[a].0);
        assert(now[b].0 == pairs[b].0);
    }
    assert forall|k: Seq<char>|
        (#[trigger] as_map(now).contains_key(k) <==> as_map(pairs).insert(name, value).contains_key(
            k,
        )) && (as_map(now).contains_key(k) ==> as_map(now)[k] == as_map(pairs).insert(
            name,
            value,
        )[k]) by {
        lemma_as_map(now, k);
        lemma_as_map(pairs, k);
        if k == name {
            assert(now[i].0 == name);
            let j = last_bound(now, k)->0;
            assert(pairs[j].0 == now[j].0);
            assert(j == i);
        } else {
            if as_map(pairs).contains_key(k) {
                let j = last_bound(pairs, k)->0;
                assert(now[j] == pairs[j]);
                let m = last_bound(now, k)->0;
                assert(pairs[m].0 == now[m].0);
                assert(m == j);
            }
            if as_map(now).contains_key(k) {
                let m = last_bound(now, k)->0;
                assert(pairs[m].0 == now[m].0);
            }
        }
    }
    assert(as_map(now) =~= as_map(pairs).insert(name, value));
}

/// A pair with a new name keeps the names distinct.
pub proof fn lemma_unique_push<V>(pairs: Seq<(Seq<char>, V)>, name: Seq<char>, value: V)
    requires
        unique_names(pairs),
        !as_map(pairs).contains_key(name),
    ensures
        unique_names(pairs.push((name, value))),
        as_map(pairs.push((name, value))) == as_map(pairs).insert(name, value),
{
    let now = pairs.push((name, value));
    lemma_as_map(pairs, name);
    assert(now.drop_last() =~= pairs);
    assert forall|a: int, b: int|
        0 <= a < now.len() && 0 <= b < now.len() && a != b implies (#[trigger] now[a]).0 != (
    #[trigger] now[b]).0 by {
        if a < pairs.len() && b < pairs.len() {
            assert(now[a] == pairs[a] && now[b] == pairs[b]);
        } else if a < pairs.len() {
            assert(now[a] == pairs[a]);
        } else {
            assert(now[b] == pairs[b]);
        }
    }
}

/// Flags by name: the context of the pass that expands conditions.
#[derive(Debug, Clone)]
pub struct Flags {
    pub entries: Vec<(String, bool)>,
}

impl Flags {
    /// The pairs, in the order in which they were bound.
    pub open spec fn pairs(&self) -> Seq<(Seq<char>, bool)> {
        self.entries@.map_values(|e: (String, bool)| (e.0@, e.1))
    }

    /// The flags as a map.
    pub open spec fn map(&self) -> Map<Seq<char>, bool> {
        as_map(self.pairs())
    }

    /// No flags.
    pub fn new() -> (r: Self)
        ensures
            r.pairs() == Seq::<(Seq<char>, bool)>::empty(),
            r.distinct(),
    {
        let r = Self { entries: Vec::new() };
        assert(r.pairs() =~= Seq::<(Seq<char>, bool)>::empty());
        r
    }

    /// No name is bound twice. A list that is built by `insert` alone
    /// keeps to this; `push` binds a name again without looking.
    pub open spec fn distinct(&self) -> bool {
        unique_names(self.pairs())
    }

    /// Binds `name` to `value`, in the place of what was bound to it
    /// before, if anything was.
    pub fn insert(&mut self, name: String, value: bool)
        ensures
            final(self).map() == old(self).map().insert(name@, value),
            old(self).distinct() ==> final(self).distinct(),
            match last_bound(old(self).pairs(), name@) {
                Some(i) => final(self).pairs() == old(self).pairs().update(i, (name@, value)),
                None => final(self).pairs() == old(self).pairs().push((name@, value)),
            },
    {
        let mut i: usize = self.entries.len();
        while i > 0
            invariant
                i <= self.entries@.len(),
                *self == *old(self),
                forall|j: int| i <= j < self.entries@.len() ==> (#[trigger] self.pairs()[j]).0
                    != name@,
            decreases i,
        {
            i -= 1;
            if str_eq(self.entries[i].0.as_str(), name.as_str()) {
                proof {
                    assert(self.pairs()[i as int].0 == name@);
                    lemma_last_bound(self.pairs(), name@, i as int);
                    lemma_as_map_rebind(self.pairs(), name@, value, i as int);
                }
                self.entries.push((name, value));
                self.entries.swap_remove(i);
                assert(self.pairs() =~= old(self).pairs().update(i as int, (name@, value)));
                return ;
            }
        }
        proof {
            lemma_last_bound(self.pairs(), name@, -1);
            lemma_as_map(self.pairs(), name@);
            lemma_as_map_push(self.pairs(), name@, value);
            if self.distinct() {
                lemma_unique_push(self.pairs(), name@, value);
            }
        }
        self.entries.push((name, value));
        assert(self.pairs() =~= old(self).pairs().push((name@, value)));
    }

    /// Binds `name` to `value`.
    pub fn push(&mut self, name: String, value: bool)
        ensures
            final(self).pairs() == old(self).pairs().push((name@, value)),
            final(self).map() == old(self).map().insert(name@, value),
    {
        proof {
            lemma_as_map_push(self.pairs(), name@, value);
        }
        self.entries.push((name, value));
        assert(self.pairs() =~= old(self).pairs().push((name@, value)));
    }

    /// The number of pairs; where no name is bound twice, the number of
    /// names.
    pub fn len(&self) -> (r: usize)
        ensures
            r == self.pairs().len(),
            self.distinct() ==> r == self.map().len(),
    {
        proof {
            if self.distinct() {
                lemma_as_map_len(self.pairs());
            }
        }
        self.entries.len()
    }

    /// The flag bound to `name`.
    pub fn get(&self, name: &str) -> (r: Option<bool>)
        ensures
            r is Some <==> self.map().contains_key(name@),
            r matches Some(v) ==> self.map()[name@] == v,
    {
        let mut i: usize = self.entries.len();
        while i > 0
            invariant
                i <= self.entries@.len(),
                forall|j: int| i <= j < self.entries@.len() ==> (#[trigger] self.pairs()[j]).0
                    != name@,
            decreases i,
        {
            i -= 1;
            if str_eq(self.entries[i].0.as_str(), name) {
                proof {
                    assert(self.pairs()[i as int].0 == name@);
                    lemma_last_bound(self.pairs(), name@, i as int);
                    lemma_as_map(self.pairs(), name@);
                }
                return Some(self.entries[i].1);
            }
        }
        proof {
            lemma_last_bound(self.pairs(), name@, -1);
            lemma_as_map(self.pairs(), name@);
        }
        None
    }
}

/// Texts by name: the placeholders of a query's variables, the context of a
/// test template, the queries read back from a combined file.
#[derive(Debug, Clone)]
pub struct Mapping {
    pub entries: Vec<(String, String)>,
}

impl Mapping {
    /// The pairs, in the order in which they were bound.
    pub open spec fn pairs(&self) -> Seq<(Seq<char>, Seq<char>)> {
        self.entries@.map_values(|e: (String, String)| (e.0@, e.1@))
    }

    /// The texts as a map.
    pub open spec fn map(&self) -> Map<Seq<char>, Seq<char>> {
        as_map(self.pairs())
    }

    /// No texts.
    pub fn new() -> (r: Self)
        ensures
            r.pairs() == Seq::<(Seq<char>, Seq<char>)>::empty(),
            r.distinct(),
    {
        let r = Self { entries: Vec::new() };
        assert(r.pairs() =~= Seq::<(Seq<char>, Seq<char>)>::empty());
        r
    }

    /// No name is bound twice. A list that is built by `insert` alone
    /// keeps to this; `push` binds a name again without looking.
    pub open spec fn distinct(&self) -> bool {
        unique_names(self.pairs())
    }

    /// Binds `name` to `value`, in the place of what was bound to it
    /// before, if anything was.
    pub fn insert(&mut self, name: String, value: String)
        ensures
            final(self).map() == old(self).map().insert(name@, value@),
            old(self).distinct() ==> final(self).distinct(),
            match last_bound(old(self).pairs(), name@) {
                Some(i) => final(self).pairs() == old(self).pairs().update(i, (name@, value@)),
                None => final(self).pairs() == old(self).pairs().push((name@, value@)),
            },
    {
        match self.position(name.as_str()) {
            Some(i) => {
                proof {
                    lemma_as_map_rebind(self.pairs(), name@, value@, i as int);
                }
                self.set_value(i, value);
            },
            None => {
                proof {
                    lemma_as_map(self.pairs(), name@);
                    lemma_as_map_push(self.pairs(), name@, value@);
                    if self.distinct() {
                        lemma_unique_push(self.pairs(), name@, value@);
                    }
                }
                self.push(name, value);
            },
        }
    }

    /// Binds `name` to `value`.
    pub fn push(&mut self, name: String, value: String)
        ensures
            final(self).pairs() == old(self).pairs().push((name@, value@)),
            final(self).map() == old(self).map().insert(name@, value@),
    {
        proof {
            lemma_as_map_push(self.pairs(), name@, value@);
        }
        self.entries.push((name, value));
        assert(self.pairs() =~= old(self).pairs().push((name@, value@)));
    }

    /// The number of pairs; where no name is bound twice, the number of
    /// names.
    pub fn len(&self) -> (r: usize)
        ensures
            r == self.pairs().len(),
            self.distinct() ==> r == self.map().len(),
    {
        proof {
            if self.distinct() {
                lemma_as_map_len(self.pairs());
            }
        }
        self.entries.len()
    }

    /// The position of the last pair that binds `name`.
    pub fn position(&self, name: &str) -> (r: Option<usize>)
        ensures
            match r {
                Some(i) => last_bound(self.pairs(), name@) == Some(i as int) && i
                    < self.entries@.len(),
                None => last_bound(self.pairs(), name@) is None,
            },
    {
        let mut i: usize = self.entries.len();
        while i > 0
            invariant
                i <= self.entries@.len(),
                forall|j: int| i <= j < self.entries@.len() ==> (#[trigger] self.pairs()[j]).0
                    != name@,
            decreases i,
        {
            i -= 1;
            if str_eq(self.entries[i].0.as_str(), name) {
                proof {
                    assert(self.pairs()[i as int].0 == name@);
                    lemma_last_bound(self.pairs(), name@, i as int);
                }
                return Some(i);
            }
        }
        proof {
            lemma_last_bound(self.pairs(), name@, -1);
        }
        None
    }

    /// Gives the pair at position `i` the value `value`.
    pub fn set_value(&mut self, i: usize, value: String)
        requires
            i < old(self).pairs().len(),
        ensures
            final(self).pairs() == old(self).pairs().update(
                i as int,
                (old(self).pairs()[i as int].0, value@),
            ),
    {
        let name = self.entries[i].0.clone();
        self.entries.push((name, value));
        self.entries.swap_remove(i);
        assert(self.pairs() =~= old(self).pairs().update(
            i as int,
            (old(self).pairs()[i as int].0, value@),
        ));
    }

    /// The text bound to `name`.
    pub fn get(&self, name: &str) -> (r: Option<&String>)
        ensures
            r is Some <==> self.map().contains_key(name@),
            r matches Some(v) ==> self.map()[name@] == v@,
    {
        proof {
            lemma_as_map(self.pairs(), name@);
        }
        match self.position(name) {
            Some(i) => {
                assert(self.pairs()[i as int].1 == self.entries@[i as int].1@);
                Some(&self.entries[i].1)
            },
            None => None,
        }
    }

    /// Whether `name` is bound.
    pub fn contains_key(&self, name: &str) -> (r: bool)
        ensures
            r == self.map().contains_key(name@),
    {
        self.get(name).is_some()
    }
}

/// A mapping with the single pair `name`, `value`.
pub fn single(name: &str, value: &str) -> (r: Mapping)
    ensures
        r.pairs() == seq![(name@, value@)],
        r.distinct(),
{
    let mut r = Mapping::new();
    r.push(owned(name), owned(value));
    r
}

} // verus!
