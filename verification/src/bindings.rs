//! A mapping from names to values, each name bound once.

use crate::text::{pairs_of, same_text};
use vstd::prelude::*;

verus! {

/// The mapping that a list of pairs stands for when it is read from first to
/// last: a later pair replaces an earlier one of the same name.
pub open spec fn pairs_map(ps: Seq<(Seq<char>, Seq<char>)>) -> Map<Seq<char>, Seq<char>>
    decreases ps.len(),
{
    if ps.len() == 0 {
        Map::empty()
    } else {
        pairs_map(ps.drop_last()).insert(ps.last().0, ps.last().1)
    }
}

/// No name stands in two pairs.
pub open spec fn distinct_names(ps: Seq<(Seq<char>, Seq<char>)>) -> bool {
    forall|i: int, j: int| 0 <= i < j < ps.len() ==> (#[trigger] ps[i]).0 != (#[trigger] ps[j]).0
}

/// Where no name stands twice, none stands twice among all pairs but the
/// last.
pub proof fn lemma_distinct_front(ps: Seq<(Seq<char>, Seq<char>)>)
    requires
        distinct_names(ps),
        ps.len() > 0,
    ensures
        distinct_names(ps.drop_last()),
{
    let front = ps.drop_last();
    assert forall|a: int, b: int| 0 <= a < b < front.len() implies (#[trigger] front[a]).0 != (
    #[trigger] front[b]).0 by {
        assert(front[a] == ps[a] && front[b] == ps[b]);
    }
}

/// A name is bound exactly if a pair holds it.
pub proof fn lemma_pairs_map_names(ps: Seq<(Seq<char>, Seq<char>)>, name: Seq<char>)
    ensures
        pairs_map(ps).contains_key(name) <==> exists|i: int|
            0 <= i < ps.len() && (#[trigger] ps[i]).0 == name,
    decreases ps.len(),
{
    if ps.len() > 0 {
        let front = ps.drop_last();
        lemma_pairs_map_names(front, name);
        if pairs_map(ps).contains_key(name) {
            if ps.last().0 != name {
                let i = choose|i: int| 0 <= i < front.len() && (#[trigger] front[i]).0 == name;
                assert(ps[i].0 == name);
            }
        } else {
            assert forall|i: int| 0 <= i < ps.len() implies (#[trigger] ps[i]).0 != name by {
                if i < front.len() {
                    assert(front[i].0 == ps[i].0);
                }
            }
        }
    }
}

/// Where no name stands twice, each pair gives the value of its name.
pub proof fn lemma_pairs_map_value(ps: Seq<(Seq<char>, Seq<char>)>, i: int)
    requires
        distinct_names(ps),
        0 <= i < ps.len(),
    ensures
        pairs_map(ps).contains_key(ps[i].0),
        pairs_map(ps)[ps[i].0] == ps[i].1,
    decreases ps.len(),
{
    if i < ps.len() - 1 {
        let front = ps.drop_last();
        lemma_distinct_front(ps);
        lemma_pairs_map_value(front, i);
    }
}

/// Where no name stands twice, a new value in the place of a pair is a new
/// value for its name.
pub proof fn lemma_pairs_map_update(ps: Seq<(Seq<char>, Seq<char>)>, i: int, value: Seq<char>)
    requires
        distinct_names(ps),
        0 <= i < ps.len(),
    ensures
        pairs_map(ps.update(i, (ps[i].0, value))) == pairs_map(ps).insert(ps[i].0, value),
        distinct_names(ps.update(i, (ps[i].0, value))),
    decreases ps.len(),
{
    let name = ps[i].0;
    let after = ps.update(i, (name, value));
    let front = ps.drop_last();
    assert forall|a: int, b: int| 0 <= a < b < after.len() implies (#[trigger] after[a]).0 != (
    #[trigger] after[b]).0 by {
        assert(after[a].0 == ps[a].0 && after[b].0 == ps[b].0);
    }
    if i == ps.len() - 1 {
        assert(after.drop_last() =~= front);
    } else {
        lemma_distinct_front(ps);
        lemma_pairs_map_update(front, i, value);
        assert(after.drop_last() =~= front.update(i, (name, value)));
    }
}

/// Where no name stands twice, as many names are bound as there are pairs.
pub proof fn lemma_pairs_map_len(ps: Seq<(Seq<char>, Seq<char>)>)
    requires
        distinct_names(ps),
    ensures
        pairs_map(ps).dom().finite(),
        pairs_map(ps).dom().len() == ps.len(),
    decreases ps.len(),
{
    if ps.len() > 0 {
        let front = ps.drop_last();
        lemma_distinct_front(ps);
        lemma_pairs_map_len(front);
        lemma_pairs_map_names(front, ps.last().0);
        if pairs_map(front).contains_key(ps.last().0) {
            let i = choose|i: int| 0 <= i < front.len() && (#[trigger] front[i]).0 == ps.last().0;
            assert(ps[i].0 == ps[ps.len() - 1].0);
        }
        assert(pairs_map(ps).dom() =~= pairs_map(front).dom().insert(ps.last().0));
    }
}

/// A finite mapping from names to values.
#[derive(Debug)]
pub struct Bindings {
    entries: Vec<(String, String)>,
}

impl View for Bindings {
    type V = Map<Seq<char>, Seq<char>>;

    closed spec fn view(&self) -> Map<Seq<char>, Seq<char>> {
        pairs_map(pairs_of(self.entries@))
    }
}

impl Bindings {
    #[verifier::type_invariant]
    closed spec fn each_name_once(self) -> bool {
        distinct_names(pairs_of(self.entries@))
    }

    /// The mapping that binds no name.
    pub fn new() -> (r: Bindings)
        ensures
            r@ == Map::<Seq<char>, Seq<char>>::empty(),
    {
        Bindings { entries: Vec::new() }
    }

    /// The number of names that are bound.
    pub fn len(&self) -> (r: usize)
        ensures
            r == self@.dom().len(),
            self@.dom().finite(),
    {
        proof {
            use_type_invariant(self);
            lemma_pairs_map_len(pairs_of(self.entries@));
        }
        self.entries.len()
    }

    /// Whether no name is bound.
    pub fn is_empty(&self) -> (r: bool)
        ensures
            r == (self@ == Map::<Seq<char>, Seq<char>>::empty()),
    {
        proof {
            let ps = pairs_of(self.entries@);
            if ps.len() > 0 {
                assert(pairs_map(ps).contains_key(ps.last().0));
            }
        }
        self.entries.len() == 0
    }

    /// The place of `name` among the entries.
    fn find(&self, name: &str) -> (r: Option<usize>)
        ensures
            match r {
                Some(i) => i < self.entries.len() && self.entries[i as int].0@ == name@,
                None => !self@.contains_key(name@),
            },
    {
        let mut i: usize = 0;
        while i < self.entries.len()
            invariant
                i <= self.entries.len(),
                forall|j: int| 0 <= j < i ==> (#[trigger] self.entries[j]).0@ != name@,
            decreases self.entries.len() - i,
        {
            if same_text(self.entries[i].0.as_str(), name) {
                return Some(i);
            }
            i += 1;
        }
        proof {
            let ps = pairs_of(self.entries@);
            lemma_pairs_map_names(ps, name@);
            assert forall|j: int| 0 <= j < ps.len() implies (#[trigger] ps[j]).0 != name@ by {
                assert(ps[j].0 == self.entries[j].0@);
            }
        }
        None
    }

    /// The value that `name` is bound to.
    pub fn get(&self, name: &str) -> (r: Option<&String>)
        ensures
            match r {
                Some(v) => self@.contains_key(name@) && self@[name@] == v@,
                None => !self@.contains_key(name@),
            },
    {
        match self.find(name) {
            Some(i) => {
                proof {
                    use_type_invariant(self);
                    lemma_pairs_map_value(pairs_of(self.entries@), i as int);
                }
                Some(&self.entries[i].1)
            },
            None => None,
        }
    }

    /// Whether `name` is bound.
    pub fn contains(&self, name: &str) -> (r: bool)
        ensures
            r == self@.contains_key(name@),
    {
        self.get(name).is_some()
    }

    /// Binds `name` to `value`, in place of what it was bound to.
    pub fn insert(&mut self, name: String, value: String)
        ensures
            final(self)@ == old(self)@.insert(name@, value@),
    {
        proof {
            use_type_invariant(&*self);
        }
        let ghost before = pairs_of(self.entries@);
        let found = self.find(name.as_str());
        let mut entries: Vec<(String, String)> = Vec::new();
        std::mem::swap(&mut entries, &mut self.entries);
        match found {
            Some(i) => {
                proof {
                    lemma_pairs_map_update(before, i as int, value@);
                }
                entries.set(i, (name, value));
                assert(pairs_of(entries@) =~= before.update(i as int, (name@, value@)));
            },
            None => {
                proof {
                    lemma_pairs_map_names(before, name@);
                }
                entries.push((name, value));
                proof {
                    let after = pairs_of(entries@);
                    assert(after =~= before.push((name@, value@)));
                    assert(after.drop_last() =~= before);
                    assert(distinct_names(after));
                }
            },
        }
        self.entries = entries;
    }

    /// The names with their values, each name once, in no order that means
    /// anything.
    pub fn entries(&self) -> (r: &Vec<(String, String)>)
        ensures
            distinct_names(pairs_of(r@)),
            pairs_map(pairs_of(r@)) == self@,
    {
        proof {
            use_type_invariant(self);
        }
        &self.entries
    }

    /// Binds every name of `other` as `other` binds it; the other names stay
    /// as they are.
    pub fn merge(&mut self, other: &Bindings)
        ensures
            final(self)@ == old(self)@.union_prefer_right(other@),
    {
        let ghost theirs = pairs_of(other.entries@);
        let mut i: usize = 0;
        while i < other.entries.len()
            invariant
                i <= other.entries.len(),
                theirs == pairs_of(other.entries@),
                self@ == old(self)@.union_prefer_right(pairs_map(theirs.take(i as int))),
            decreases other.entries.len() - i,
        {
            let name = other.entries[i].0.clone();
            let value = other.entries[i].1.clone();
            assert(theirs.take(i + 1).drop_last() =~= theirs.take(i as int));
            self.insert(name, value);
            i += 1;
        }
        assert(theirs.take(theirs.len() as int) =~= theirs);
    }

    /// The mapping that a list of pairs stands for when it is read from
    /// first to last.
    pub fn from_pairs(pairs: &Vec<(String, String)>) -> (r: Bindings)
        ensures
            r@ == pairs_map(pairs_of(pairs@)),
    {
        let ghost all = pairs_of(pairs@);
        let mut r = Bindings::new();
        let mut i: usize = 0;
        while i < pairs.len()
            invariant
                i <= pairs.len(),
                all == pairs_of(pairs@),
                r@ == pairs_map(all.take(i as int)),
            decreases pairs.len() - i,
        {
            let name = pairs[i].0.clone();
            let value = pairs[i].1.clone();
            assert(all.take(i + 1).drop_last() =~= all.take(i as int));
            r.insert(name, value);
            i += 1;
        }
        assert(all.take(all.len() as int) =~= all);
        r
    }
}

impl Clone for Bindings {
    /// The same mapping once more.
    fn clone(&self) -> (r: Bindings)
        ensures
            r@ == self@,
    {
        proof {
            use_type_invariant(self);
        }
        let mut entries: Vec<(String, String)> = Vec::new();
        let mut i: usize = 0;
        while i < self.entries.len()
            invariant
                i <= self.entries.len(),
                pairs_of(entries@) == pairs_of(self.entries@).take(i as int),
            decreases self.entries.len() - i,
        {
            let name = self.entries[i].0.clone();
            let value = self.entries[i].1.clone();
            let ghost copied = pairs_of(entries@);
            entries.push((name, value));
            assert(pairs_of(entries@) =~= copied.push((name@, value@)));
            i += 1;
        }
        assert(pairs_of(self.entries@).take(self.entries@.len() as int) =~= pairs_of(
            self.entries@,
        ));
        Bindings { entries }
    }
}

} // verus!
