//! Tables of values by identity.
use crate::content::views;
use crate::text::same_text;
use vstd::std_specs::cmp::PartialEqSpec;
use vstd::prelude::*;

verus! {

/// One value of a table.
#[derive(Debug)]
struct Row<V> {
    id: String,
    value: V,
}

/// Values by identity.
#[derive(Debug)]
pub struct TextTable<V> {
    rows: Vec<Row<V>>,
}

/// The values of a list of rows, of which a later one stands for an earlier one.
spec fn table<V>(rows: Seq<Row<V>>) -> Map<Seq<char>, V>
    decreases rows.len(),
{
    if rows.len() == 0 {
        Map::empty()
    } else {
        table(rows.drop_last()).insert(rows.last().id@, rows.last().value)
    }
}

proof fn lemma_table_ids<V>(rows: Seq<Row<V>>, id: Seq<char>)
    ensures
        table(rows).dom().contains(id) <==> exists|i: int|
            0 <= i < rows.len() && (#[trigger] rows[i]).id@ == id,
    decreases rows.len(),
{
    if rows.len() > 0 {
        lemma_table_ids(rows.drop_last(), id);
        assert forall|i: int| 0 <= i < rows.len() - 1 implies rows.drop_last()[i] == rows[i] by {}
        if exists|i: int| 0 <= i < rows.len() && (#[trigger] rows[i]).id@ == id {
            let i = choose|i: int| 0 <= i < rows.len() && (#[trigger] rows[i]).id@ == id;
            if i < rows.len() - 1 {
                assert(rows.drop_last()[i].id@ == id);
            }
        }
        if table(rows.drop_last()).dom().contains(id) {
            let i = choose|i: int|
                0 <= i < rows.len() - 1 && (#[trigger] rows.drop_last()[i]).id@ == id;
            assert(rows[i].id@ == id);
        }
        assert(rows[rows.len() - 1] == rows.last());
    }
}

impl<V> View for TextTable<V> {
    type V = Map<Seq<char>, V>;

    closed spec fn view(&self) -> Map<Seq<char>, V> {
        table(self.rows@)
    }
}

impl<V: Copy> Clone for TextTable<V> {
    fn clone(&self) -> (copy: Self)
        ensures
            copy@ == self@,
    {
        let ghost all = self.rows@;
        let mut rows: Vec<Row<V>> = Vec::new();
        let mut i: usize = 0;
        assert(rows@ =~= all.take(0));
        while i < self.rows.len()
            invariant
                all == self.rows@,
                i <= all.len(),
                rows@ == all.take(i as int),
            decreases all.len() - i,
        {
            rows.push(Row { id: self.rows[i].id.clone(), value: self.rows[i].value });
            i += 1;
            assert(rows@ =~= all.take(i as int));
        }
        assert(all.take(i as int) =~= all);
        TextTable { rows }
    }
}

impl<V: Copy> TextTable<V> {
    pub fn new() -> (table: Self)
        ensures
            table@ == Map::<Seq<char>, V>::empty(),
    {
        TextTable { rows: Vec::new() }
    }

    /// Sets the value of an identity.
    pub fn insert(&mut self, id: String, value: V)
        ensures
            final(self)@ == old(self)@.insert(id@, value),
    {
        self.remove(id.as_str());
        let ghost before = self.rows@;
        self.rows.push(Row { id, value });
        proof {
            assert(self.rows@.drop_last() =~= before);
            assert(self@ =~= old(self)@.insert(id@, value));
        }
    }

    /// Removes the value of an identity.
    pub fn remove(&mut self, id: &str)
        ensures
            final(self)@ == old(self)@.remove(id@),
    {
        let ghost all = self.rows@;
        let mut kept: Vec<Row<V>> = Vec::new();
        let mut i: usize = 0;
        assert(table(kept@) =~= table(all.take(0)).remove(id@));
        while i < self.rows.len()
            invariant
                self@ == old(self)@,
                all == self.rows@,
                i <= all.len(),
                table(kept@) == table(all.take(i as int)).remove(id@),
            decreases all.len() - i,
        {
            let row = &self.rows[i];
            let ghost before = kept@;
            proof {
                assert(all.take(i + 1).drop_last() =~= all.take(i as int));
                assert(all.take(i + 1).last() == *row);
            }
            if !same_text(row.id.as_str(), id) {
                kept.push(Row { id: row.id.clone(), value: row.value });
                assert(kept@.drop_last() =~= before);
            }
            i += 1;
            assert(table(kept@) =~= table(all.take(i as int)).remove(id@));
        }
        assert(all.take(i as int) =~= all);
        self.rows = kept;
    }

    /// The value of an identity.
    pub fn get(&self, id: &str) -> (value: Option<&V>)
        ensures
            match value {
                Some(value) => self@.dom().contains(id@) && self@[id@] == *value,
                None => !self@.dom().contains(id@),
            },
    {
        let ghost all = self.rows@;
        let mut i: usize = self.rows.len();
        assert(all.take(i as int) =~= all);
        while i > 0
            invariant
                all == self.rows@,
                i <= all.len(),
                self@.dom().contains(id@) == table(all.take(i as int)).dom().contains(id@),
                self@.dom().contains(id@) ==> self@[id@] == table(all.take(i as int))[id@],
            decreases i,
        {
            let row = &self.rows[i - 1];
            proof {
                assert(all.take(i as int).drop_last() =~= all.take(i - 1));
                assert(all.take(i as int).last() == *row);
            }
            if same_text(row.id.as_str(), id) {
                return Some(&row.value);
            }
            i -= 1;
        }
        assert(all.take(0) =~= Seq::empty());
        None
    }

    pub fn contains_key(&self, id: &str) -> (found: bool)
        ensures
            found == self@.dom().contains(id@),
    {
        self.get(id).is_some()
    }

    /// The identities that have values.
    pub fn ids(&self) -> (ids: Vec<String>)
        ensures
            forall|id: Seq<char>|
                self@.dom().contains(id) <==> #[trigger] views(ids@).contains(id),
    {
        let mut ids: Vec<String> = Vec::new();
        let mut i: usize = 0;
        while i < self.rows.len()
            invariant
                i <= self.rows@.len(),
                ids@.len() == i,
                forall|j: int| 0 <= j < i ==> (#[trigger] ids@[j])@ == self.rows@[j].id@,
            decreases self.rows@.len() - i,
        {
            ids.push(self.rows[i].id.clone());
            i += 1;
        }
        assert forall|id: Seq<char>|
            self@.dom().contains(id) <==> #[trigger] views(ids@).contains(id) by {
            lemma_table_ids(self.rows@, id);
            if self@.dom().contains(id) {
                let j = choose|j: int|
                    0 <= j < self.rows@.len() && (#[trigger] self.rows@[j]).id@ == id;
                assert(views(ids@)[j] == id);
            }
            if views(ids@).contains(id) {
                let j = choose|j: int| 0 <= j < views(ids@).len() && views(ids@)[j] == id;
                assert(self.rows@[j].id@ == id);
            }
        }
        ids
    }
}

/// Every value of the first table is in the second and equal there.
pub open spec fn table_within<V: PartialEq>(
    one: Map<Seq<char>, V>,
    other: Map<Seq<char>, V>,
) -> bool {
    forall|id: Seq<char>| #[trigger]
        one.dom().contains(id) ==> other.dom().contains(id) && one[id].eq_spec(&other[id])
}

impl<V: Copy + PartialEq> TextTable<V> {
    /// Whether every value of this table is in another and equal there.
    pub fn within(&self, other: &Self) -> (within: bool)
        ensures
            V::obeys_eq_spec() ==> within == table_within(self@, other@),
    {
        let ids = self.ids();
        let mut i: usize = 0;
        while i < ids.len()
            invariant
                i <= ids@.len(),
                forall|id: Seq<char>|
                    self@.dom().contains(id) <==> #[trigger] views(ids@).contains(id),
                V::obeys_eq_spec() ==> forall|j: int|
                    0 <= j < i ==> other@.dom().contains(#[trigger] views(ids@)[j])
                        && self@[views(ids@)[j]].eq_spec(&other@[views(ids@)[j]]),
            decreases ids@.len() - i,
        {
            let id = ids[i].as_str();
            proof {
                assert(views(ids@)[i as int] == id@);
                assert(views(ids@).contains(id@));
            }
            match (self.get(id), other.get(id)) {
                (Some(x), Some(y)) => {
                    if *x != *y {
                        return false;
                    }
                },
                _ => return false,
            }
            i += 1;
        }
        proof {
            if V::obeys_eq_spec() {
                assert forall|id: Seq<char>| #[trigger] self@.dom().contains(id) implies other@.dom().contains(id)
                    && self@[id].eq_spec(&other@[id]) by {
                    assert(views(ids@).contains(id));
                    let j = choose|j: int| 0 <= j < views(ids@).len() && views(ids@)[j] == id;
                    assert(other@.dom().contains(views(ids@)[j]));
                }
            }
        }
        true
    }
}

impl<V: Copy + PartialEq> PartialEq for TextTable<V> {
    fn eq(&self, other: &Self) -> (equal: bool) {
        self.within(other) && other.within(self)
    }
}

impl<V: Copy + PartialEq> vstd::std_specs::cmp::PartialEqSpecImpl for TextTable<V> {
    open spec fn obeys_eq_spec() -> bool {
        V::obeys_eq_spec()
    }

    open spec fn eq_spec(&self, other: &Self) -> bool {
        table_within(self@, other@) && table_within(other@, self@)
    }
}

} // verus!
