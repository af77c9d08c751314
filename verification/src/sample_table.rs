//! A table of captured samples by the block they were captured for.
use crate::content::{clone_list, views};
use crate::macro_engine::{NegativeCorpusSample, NegativeCorpusSampleView};
use crate::text::same_text;
use vstd::prelude::*;

verus! {

/// The samples that were captured for each block.
#[derive(Debug, PartialEq)]
pub struct SampleTable {
    entries: Vec<(String, Vec<NegativeCorpusSample>)>,
}

/// The samples that a list of entries holds for a block: those of the first entry that names it.
spec fn samples_of(entries: Seq<(String, Vec<NegativeCorpusSample>)>, id: Seq<char>) -> Seq<
    NegativeCorpusSampleView,
>
    decreases entries.len(),
{
    if entries.len() == 0 {
        Seq::empty()
    } else if entries[0].0@ == id {
        views(entries[0].1@)
    } else {
        samples_of(entries.drop_first(), id)
    }
}

impl View for SampleTable {
    type V = spec_fn(Seq<char>) -> Seq<NegativeCorpusSampleView>;

    closed spec fn view(&self) -> spec_fn(Seq<char>) -> Seq<NegativeCorpusSampleView> {
        |id: Seq<char>| samples_of(self.entries@, id)
    }
}

/// The table without any sample.
pub open spec fn no_samples() -> spec_fn(Seq<char>) -> Seq<NegativeCorpusSampleView> {
    |id: Seq<char>| Seq::empty()
}

/// A table with one more sample for a block.
pub open spec fn with_sample(
    table: spec_fn(Seq<char>) -> Seq<NegativeCorpusSampleView>,
    id: Seq<char>,
    sample: NegativeCorpusSampleView,
) -> spec_fn(Seq<char>) -> Seq<NegativeCorpusSampleView> {
    |other: Seq<char>|
        if other == id {
            table(other).push(sample)
        } else {
            table(other)
        }
}

proof fn lemma_samples_at(entries: Seq<(String, Vec<NegativeCorpusSample>)>, id: Seq<char>, at: int)
    requires
        0 <= at < entries.len(),
        entries[at].0@ == id,
        forall|j: int| 0 <= j < at ==> (#[trigger] entries[j]).0@ != id,
    ensures
        samples_of(entries, id) == views(entries[at].1@),
    decreases at,
{
    if at > 0 {
        assert(entries[0].0@ != id);
        let rest = entries.drop_first();
        assert forall|j: int| 0 <= j < at - 1 implies (#[trigger] rest[j]).0@ != id by {
            assert(rest[j] == entries[j + 1]);
        }
        lemma_samples_at(rest, id, at - 1);
    }
}

proof fn lemma_samples_none(entries: Seq<(String, Vec<NegativeCorpusSample>)>, id: Seq<char>)
    requires
        forall|j: int| 0 <= j < entries.len() ==> (#[trigger] entries[j]).0@ != id,
    ensures
        samples_of(entries, id) == Seq::<NegativeCorpusSampleView>::empty(),
    decreases entries.len(),
{
    if entries.len() > 0 {
        assert(entries[0].0@ != id);
        let rest = entries.drop_first();
        assert forall|j: int| 0 <= j < rest.len() implies (#[trigger] rest[j]).0@ != id by {
            assert(rest[j] == entries[j + 1]);
        }
        lemma_samples_none(rest, id);
    }
}

proof fn lemma_samples_updated(
    entries: Seq<(String, Vec<NegativeCorpusSample>)>,
    at: int,
    list: Vec<NegativeCorpusSample>,
    other: Seq<char>,
)
    requires
        0 <= at < entries.len(),
        entries[at].0@ != other,
    ensures
        samples_of(entries.update(at, (entries[at].0, list)), other) == samples_of(entries, other),
    decreases at,
{
    let changed = entries.update(at, (entries[at].0, list));
    if at > 0 {
        lemma_samples_updated(entries.drop_first(), at - 1, list, other);
        assert(changed.drop_first() =~= entries.drop_first().update(
            at - 1,
            (entries[at].0, list),
        ));
    } else {
        assert(changed.drop_first() =~= entries.drop_first());
    }
}

proof fn lemma_samples_pushed(
    entries: Seq<(String, Vec<NegativeCorpusSample>)>,
    entry: (String, Vec<NegativeCorpusSample>),
    other: Seq<char>,
)
    requires
        entry.0@ != other,
    ensures
        samples_of(entries.push(entry), other) == samples_of(entries, other),
    decreases entries.len(),
{
    if entries.len() == 0 {
        assert(entries.push(entry).drop_first() =~= Seq::empty());
        assert(samples_of(entries.push(entry).drop_first(), other) == Seq::<
            NegativeCorpusSampleView,
        >::empty());
    } else {
        lemma_samples_pushed(entries.drop_first(), entry, other);
        assert(entries.push(entry).drop_first() =~= entries.drop_first().push(entry));
    }
}

impl SampleTable {
    pub fn new() -> (table: Self)
        ensures
            table@ == no_samples(),
    {
        let table = SampleTable { entries: Vec::new() };
        proof {
            assert forall|id: Seq<char>| #[trigger] samples_of(table.entries@, id) == Seq::<
                NegativeCorpusSampleView,
            >::empty() by {}
            assert(table@ =~= no_samples());
        }
        table
    }

    /// The samples of a block.
    pub fn get(&self, id: &str) -> (samples: Vec<NegativeCorpusSample>)
        ensures
            views(samples@) == (self@)(id@),
    {
        let mut i: usize = 0;
        while i < self.entries.len()
            invariant
                i <= self.entries@.len(),
                forall|j: int| 0 <= j < i ==> (#[trigger] self.entries@[j]).0@ != id@,
            decreases self.entries@.len() - i,
        {
            if same_text(self.entries[i].0.as_str(), id) {
                proof {
                    lemma_samples_at(self.entries@, id@, i as int);
                }
                return clone_list(&self.entries[i].1);
            }
            i += 1;
        }
        proof {
            lemma_samples_none(self.entries@, id@);
        }
        let none: Vec<NegativeCorpusSample> = Vec::new();
        assert(views(none@) =~= Seq::empty());
        none
    }

    /// Adds a sample for a block.
    pub fn push(&mut self, id: String, sample: NegativeCorpusSample)
        ensures
            final(self)@ == with_sample(old(self)@, id@, sample@),
    {
        let ghost before = self.entries@;
        let mut i: usize = 0;
        while i < self.entries.len()
            invariant
                i <= self.entries@.len(),
                self.entries@ == before,
                old(self).entries@ == before,
                forall|j: int| 0 <= j < i ==> (#[trigger] before[j]).0@ != id@,
            decreases self.entries@.len() - i,
        {
            if same_text(self.entries[i].0.as_str(), id.as_str()) {
                let mut list = clone_list(&self.entries[i].1);
                let name = self.entries[i].0.clone();
                let ghost old_list = views(list@);
                list.push(sample);
                proof {
                    assert(views(list@) =~= old_list.push(sample@));
                }
                let ghost new_list = list;
                self.entries.set(i, (name, list));
                proof {
                    let after = self.entries@;
                    assert(after =~= before.update(i as int, (before[i as int].0, new_list)));
                    lemma_samples_at(before, id@, i as int);
                    assert forall|j: int| 0 <= j < i implies (#[trigger] after[j]).0@ != id@ by {
                        assert(after[j] == before[j]);
                    }
                    lemma_samples_at(after, id@, i as int);
                    assert forall|other: Seq<char>| #[trigger]
                        samples_of(after, other) == with_sample(
                            |x: Seq<char>| samples_of(before, x),
                            id@,
                            sample@,
                        )(other) by {
                        if other != id@ {
                            lemma_samples_updated(before, i as int, new_list, other);
                        }
                    }
                    assert(self@ =~= with_sample(old(self)@, id@, sample@));
                }
                return;
            }
            i += 1;
        }
        let mut list: Vec<NegativeCorpusSample> = Vec::new();
        list.push(sample);
        let ghost entry = (id, list);
        self.entries.push((id, list));
        proof {
            let after = self.entries@;
            assert(after =~= before.push(entry));
            lemma_samples_none(before, id@);
            assert forall|j: int| 0 <= j < before.len() implies (#[trigger] after[j]).0@ != id@ by {
                assert(after[j] == before[j]);
            }
            lemma_samples_at(after, id@, before.len() as int);
            assert(views(list@) =~= Seq::empty().push(sample@));
            assert forall|other: Seq<char>| #[trigger] samples_of(after, other) == with_sample(
                |x: Seq<char>| samples_of(before, x),
                id@,
                sample@,
            )(other) by {
                if other != id@ {
                    lemma_samples_pushed(before, entry, other);
                }
            }
            assert(self@ =~= with_sample(old(self)@, id@, sample@));
        }
    }
}

} // verus!
