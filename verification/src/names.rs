//! Association lists from names to texts, in which a later entry hides an
//! earlier one with the same name.
use vstd::prelude::*;
use crate::text::same;

verus! {

/// The text that the latest entry for `name` holds.
pub open spec fn found(entries: Seq<(Seq<char>, Seq<char>)>, name: Seq<char>) -> Option<Seq<char>>
    decreases entries.len(),
{
    if entries.len() == 0 {
        None
    } else if entries.last().0 == name {
        Some(entries.last().1)
    } else {
        found(entries.drop_last(), name)
    }
}

/// The model of an optional string.
pub open spec fn text_of(s: Option<String>) -> Option<Seq<char>> {
    match s {
        Some(t) => Some(t@),
        None => None,
    }
}

pub struct NameMap {
    entries: Vec<(String, String)>,
}

impl NameMap {
    /// The entries, the oldest first.
    pub closed spec fn model(self) -> Seq<(Seq<char>, Seq<char>)> {
        Seq::new(self.entries@.len(), |i: int| (self.entries@[i].0@, self.entries@[i].1@))
    }

    pub fn new() -> (r: Self)
        ensures
            r.model() == Seq::<(Seq<char>, Seq<char>)>::empty(),
    {
        let r = NameMap { entries: Vec::new() };
        assert(r.model() =~= Seq::empty());
        r
    }

    pub fn dup(&self) -> (r: Self)
        ensures
            r.model() == self.model(),
    {
        let mut entries: Vec<(String, String)> = Vec::new();
        let mut i: usize = 0;
        while i < self.entries.len()
            invariant
                i <= self.entries@.len(),
                entries@.len() == i,
                forall|j: int|
                    0 <= j < i ==> entries@[j].0@ == self.entries@[j].0@ && entries@[j].1@
                        == self.entries@[j].1@,
            decreases self.entries@.len() - i,
        {
            entries.push((self.entries[i].0.clone(), self.entries[i].1.clone()));
            i = i + 1;
        }
        let r = NameMap { entries };
        assert(r.model() =~= self.model());
        r
    }

    /// Adds an entry, which hides earlier ones with the same name.
    pub fn insert(&mut self, name: &str, value: &str)
        ensures
            final(self).model() == old(self).model().push((name@, value@)),
    {
        self.entries.push((name.to_owned(), value.to_owned()));
        assert(self.model() =~= old(self).model().push((name@, value@)));
    }

    /// The text of the latest entry for `name`.
    pub fn get(&self, name: &str) -> (r: Option<String>)
        ensures
            text_of(r) == found(self.model(), name@),
    {
        let ghost all = self.model();
        let mut i: usize = self.entries.len();
        assert(all.take(i as int) =~= all);
        while i > 0
            invariant
                i <= self.entries@.len(),
                all == self.model(),
                found(all, name@) == found(all.take(i as int), name@),
            decreases i,
        {
            i = i - 1;
            assert(all.take(i as int + 1).drop_last() =~= all.take(i as int));
            if same(self.entries[i].0.as_str(), name) {
                return Some(self.entries[i].1.clone());
            }
        }
        None
    }
}

} // verus!
