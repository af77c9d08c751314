//! Sets and maps of identities.
use crate::content::{views, Content, Exact};
use crate::text::same_text;
use vstd::prelude::*;

verus! {

/// A set of identities.
#[derive(Debug)]
pub struct IdSet {
    ids: Vec<String>,
}

impl View for IdSet {
    type V = Set<Seq<char>>;

    closed spec fn view(&self) -> Set<Seq<char>> {
        views(self.ids@).to_set()
    }
}

impl PartialEq for IdSet {
    fn eq(&self, other: &Self) -> (equal: bool) {
        self.same(other)
    }
}

impl vstd::std_specs::cmp::PartialEqSpecImpl for IdSet {
    open spec fn obeys_eq_spec() -> bool {
        true
    }

    open spec fn eq_spec(&self, other: &Self) -> bool {
        self@ == other@
    }
}

impl IdSet {
    pub fn new() -> (set: Self)
        ensures
            set@ == Set::<Seq<char>>::empty(),
    {
        let set = IdSet { ids: Vec::new() };
        assert(set@ =~= Set::<Seq<char>>::empty());
        set
    }

    /// A set of identities is finite, and smaller than the address space.
    pub proof fn lemma_bounded(&self)
        ensures
            self@.finite(),
            self@.len() <= usize::MAX,
    {
        vstd::seq_lib::seq_to_set_is_finite(views(self.ids@));
        views(self.ids@).lemma_cardinality_of_set();
        assert(views(self.ids@).len() == self.ids.len());
    }

    pub fn contains(&self, id: &str) -> (found: bool)
        ensures
            found == self@.contains(id@),
    {
        let mut i: usize = 0;
        while i < self.ids.len()
            invariant
                i <= self.ids@.len(),
                forall|j: int| 0 <= j < i ==> (#[trigger] views(self.ids@)[j]) != id@,
            decreases self.ids@.len() - i,
        {
            if same_text(self.ids[i].as_str(), id) {
                assert(views(self.ids@)[i as int] == id@);
                return true;
            }
            i += 1;
        }
        false
    }

    /// Adds an identity, and says whether it was new.
    pub fn insert(&mut self, id: String) -> (fresh: bool)
        ensures
            fresh == !old(self)@.contains(id@),
            final(self)@ == old(self)@.insert(id@),
    {
        let ghost before = self@;
        let ghost list = views(self.ids@);
        if self.contains(id.as_str()) {
            assert(self@ =~= before.insert(id@));
            return false;
        }
        let ghost text = id@;
        self.ids.push(id);
        proof {
            assert(views(self.ids@) =~= list.push(text));
            assert forall|x: Seq<char>| self@.contains(x) == before.insert(text).contains(x) by {
                if before.contains(x) {
                    let j = choose|j: int| 0 <= j < list.len() && list[j] == x;
                    assert(views(self.ids@)[j] == x);
                }
                if x == text {
                    assert(views(self.ids@)[list.len() as int] == x);
                }
                if self@.contains(x) {
                    let j = choose|j: int|
                        0 <= j < views(self.ids@).len() && views(self.ids@)[j] == x;
                    if j < list.len() {
                        assert(list[j] == x);
                    }
                }
            }
            assert(self@ =~= before.insert(text));
        }
        true
    }

    pub fn clear(&mut self)
        ensures
            final(self)@ == Set::<Seq<char>>::empty(),
    {
        self.ids.clear();
        assert(self@ =~= Set::<Seq<char>>::empty());
    }

    pub fn is_empty(&self) -> (empty: bool)
        ensures
            empty == (self@ == Set::<Seq<char>>::empty()),
    {
        if self.ids.len() == 0 {
            assert(self@ =~= Set::<Seq<char>>::empty());
            true
        } else {
            assert(views(self.ids@)[0] == self.ids@[0]@);
            assert(self@.contains(self.ids@[0]@));
            false
        }
    }

    /// Adds every identity of another set.
    pub fn extend(&mut self, other: &IdSet)
        ensures
            final(self)@ == old(self)@.union(other@),
    {
        let ghost before = self@;
        let ghost list = views(other.ids@);
        let mut i: usize = 0;
        assert(list.take(0).to_set() =~= Set::empty());
        assert(self@ =~= before.union(list.take(0).to_set()));
        while i < other.ids.len()
            invariant
                i <= other.ids@.len(),
                list == views(other.ids@),
                self@ == before.union(list.take(i as int).to_set()),
            decreases other.ids@.len() - i,
        {
            let _ = self.insert(other.ids[i].clone());
            proof {
                assert(list.take(i + 1) =~= list.take(i as int).push(list[i as int]));
                list.take(i as int).lemma_push_to_set_commute(list[i as int]);
                assert(self@ =~= before.union(list.take(i + 1).to_set()));
            }
            i += 1;
        }
        assert(list.take(i as int) =~= list);
    }

    /// Whether every identity of this set is in another.
    fn within(&self, other: &IdSet) -> (inside: bool)
        ensures
            inside == self@.subset_of(other@),
    {
        let ghost list = views(self.ids@);
        let mut i: usize = 0;
        while i < self.ids.len()
            invariant
                i <= self.ids@.len(),
                list == views(self.ids@),
                forall|j: int| 0 <= j < i ==> other@.contains(#[trigger] list[j]),
            decreases self.ids@.len() - i,
        {
            if !other.contains(self.ids[i].as_str()) {
                assert(list[i as int] == self.ids@[i as int]@);
                assert(self@.contains(list[i as int]));
                return false;
            }
            i += 1;
        }
        assert(self@.subset_of(other@));
        true
    }
}

impl Clone for IdSet {
    fn clone(&self) -> (copy: Self)
        ensures
            copy@ == self@,
    {
        let copy = IdSet { ids: self.ids.clone() };
        assert(views(copy.ids@) =~= views(self.ids@));
        copy
    }
}

impl Exact for IdSet {
    fn same(&self, other: &Self) -> (equal: bool) {
        let equal = self.within(other) && other.within(self);
        assert(equal ==> self@ =~= other@);
        equal
    }
}

impl Content for IdSet {
    fn duplicate(&self) -> (copy: Self) {
        self.clone()
    }
}

/// A map from identities to identities.
pub struct IdMap {
    entries: Vec<(String, String)>,
}

/// The map that a list of entries makes, where a later entry replaces an earlier one.
pub closed spec fn entries_map(entries: Seq<(String, String)>) -> Map<Seq<char>, Seq<char>>
    decreases entries.len(),
{
    if entries.len() == 0 {
        Map::empty()
    } else {
        entries_map(entries.drop_last()).insert(entries.last().0@, entries.last().1@)
    }
}

impl View for IdMap {
    type V = Map<Seq<char>, Seq<char>>;

    closed spec fn view(&self) -> Map<Seq<char>, Seq<char>> {
        entries_map(self.entries@)
    }
}

impl IdMap {
    pub fn new() -> (map: Self)
        ensures
            map@ == Map::<Seq<char>, Seq<char>>::empty(),
    {
        IdMap { entries: Vec::new() }
    }

    pub fn insert(&mut self, from: String, to: String)
        ensures
            final(self)@ == old(self)@.insert(from@, to@),
    {
        let ghost before = self.entries@;
        self.entries.push((from, to));
        assert(self.entries@.drop_last() =~= before);
    }

    pub fn get(&self, from: &str) -> (to: Option<&String>)
        ensures
            match to {
                Some(id) => self@.contains_key(from@) && self@[from@] == id@,
                None => !self@.contains_key(from@),
            },
    {
        let mut i: usize = self.entries.len();
        assert(self.entries@.take(i as int) =~= self.entries@);
        while i > 0
            invariant
                i <= self.entries@.len(),
                self@.contains_key(from@) == entries_map(
                    self.entries@.take(i as int),
                ).contains_key(from@),
                self@.contains_key(from@) ==> self@[from@] == entries_map(
                    self.entries@.take(i as int),
                )[from@],
            decreases i,
        {
            proof {
                assert(self.entries@.take(i as int).drop_last() =~= self.entries@.take(i - 1));
            }
            if same_text(self.entries[i - 1].0.as_str(), from) {
                return Some(&self.entries[i - 1].1);
            }
            i -= 1;
        }
        None
    }
}

} // verus!
