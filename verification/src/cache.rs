//! The unreachable cache: for each sidecar that is taken to be down, how often its
//! recovery has been found to fail.

use crate::text::same_text;
use vstd::prelude::*;

verus! {

/// A sidecar that is taken to be down.
#[derive(Debug, PartialEq, Eq)]
pub struct Suspect {
    /// The sidecar.
    pub id: String,
    /// How often it was found still down after its pod had been deleted.
    pub attempts: usize,
}

/// The model of a suspect.
pub struct SuspectView {
    pub id: Seq<char>,
    pub attempts: usize,
}

impl DeepView for Suspect {
    type V = SuspectView;

    open spec fn deep_view(&self) -> SuspectView {
        SuspectView { id: self.id@, attempts: self.attempts }
    }
}

impl Clone for Suspect {
    fn clone(&self) -> (res: Self)
        ensures
            res.deep_view() == self.deep_view(),
    {
        Suspect { id: self.id.clone(), attempts: self.attempts }
    }
}

/// `entries` holds an entry for `id`.
pub open spec fn has_entry(entries: Seq<SuspectView>, id: Seq<char>) -> bool {
    exists|i: int| 0 <= i < entries.len() && #[trigger] entries[i].id == id
}

/// Where the entry for `id` stands in `entries`, if there is one.
pub open spec fn entry_index(entries: Seq<SuspectView>, id: Seq<char>) -> int {
    choose|i: int| 0 <= i < entries.len() && #[trigger] entries[i].id == id
}

/// No sidecar has two entries.
pub open spec fn distinct_ids(entries: Seq<SuspectView>) -> bool {
    forall|i: int, j: int|
        0 <= i < j < entries.len() ==> #[trigger] entries[i].id != #[trigger] entries[j].id
}

/// The entries as a map from sidecar to attempts.
pub open spec fn as_map(entries: Seq<SuspectView>) -> Map<Seq<char>, nat> {
    Map::new(
        |id: Seq<char>| has_entry(entries, id),
        |id: Seq<char>| entries[entry_index(entries, id)].attempts as nat,
    )
}

pub proof fn lemma_entry(entries: Seq<SuspectView>, i: int)
    requires
        distinct_ids(entries),
        0 <= i < entries.len(),
    ensures
        has_entry(entries, entries[i].id),
        entry_index(entries, entries[i].id) == i,
        as_map(entries).contains_key(entries[i].id),
        as_map(entries)[entries[i].id] == entries[i].attempts,
{
    let id = entries[i].id;
    assert(has_entry(entries, id));
    let k = entry_index(entries, id);
    assert(0 <= k < entries.len() && entries[k].id == id);
    if k < i {
        assert(entries[k].id != entries[i].id);
    } else if i < k {
        assert(entries[i].id != entries[k].id);
    }
}

/// The unreachable cache. Its model is a map from sidecar to attempts.
#[derive(Debug)]
pub struct UnreachableCache {
    entries: Vec<Suspect>,
}

impl View for UnreachableCache {
    type V = Map<Seq<char>, nat>;

    closed spec fn view(&self) -> Map<Seq<char>, nat> {
        as_map(self.entries.deep_view())
    }
}

impl UnreachableCache {
    /// The cache is in order: no sidecar stands in it twice.
    pub closed spec fn wf(&self) -> bool {
        distinct_ids(self.entries.deep_view())
    }

    /// The entries, in the order in which they came. The cache's model is their map.
    pub closed spec fn entries(&self) -> Seq<SuspectView> {
        self.entries.deep_view()
    }

    /// An empty cache.
    pub fn new() -> (cache: Self)
        ensures
            cache.wf(),
            cache@ == Map::<Seq<char>, nat>::empty(),
    {
        let cache = UnreachableCache { entries: Vec::new() };
        assert(cache@ =~= Map::<Seq<char>, nat>::empty());
        cache
    }

    /// A cache is finite: it holds as many sidecars as it has entries.
    pub proof fn lemma_finite(&self)
        requires
            self.wf(),
        ensures
            self@.dom().finite(),
            self@.dom().len() == self.entries().len(),
    {
        lemma_dom_of(self.entries.deep_view());
    }

    fn position(&self, id: &str) -> (found: Option<usize>)
        ensures
            match found {
                Some(i) => i < self.entries.len() && self.entries.deep_view()[i as int].id == id@,
                None => !has_entry(self.entries.deep_view(), id@),
            },
    {
        let mut i: usize = 0;
        while i < self.entries.len()
            invariant
                i <= self.entries.len(),
                forall|j: int| 0 <= j < i ==> #[trigger] self.entries.deep_view()[j].id != id@,
            decreases self.entries.len() - i,
        {
            if same_text(self.entries[i].id.as_str(), id) {
                return Some(i);
            }
            i += 1;
        }
        None
    }

    /// How many sidecars the cache holds.
    pub fn len(&self) -> (n: usize)
        requires
            self.wf(),
        ensures
            n == self@.dom().len(),
    {
        proof {
            self.lemma_finite();
        }
        self.entries.len()
    }

    /// The attempts counted for `id`, if the cache holds it.
    pub fn get(&self, id: &str) -> (attempts: Option<usize>)
        requires
            self.wf(),
        ensures
            match attempts {
                Some(n) => self@.contains_key(id@) && self@[id@] == n,
                None => !self@.contains_key(id@),
            },
    {
        match self.position(id) {
            Some(i) => {
                proof {
                    lemma_entry(self.entries.deep_view(), i as int);
                }
                Some(self.entries[i].attempts)
            },
            None => None,
        }
    }

    /// Sets the attempts of `id`, which enters the cache if it was not in it.
    pub fn insert(&mut self, id: String, attempts: usize)
        requires
            old(self).wf(),
        ensures
            final(self).wf(),
            final(self)@ == old(self)@.insert(id@, attempts as nat),
    {
        let ghost before = self.entries.deep_view();
        let ghost key = id@;
        match self.position(id.as_str()) {
            Some(i) => {
                self.entries.set(i, Suspect { id, attempts });
                let ghost after = self.entries.deep_view();
                assert(after =~= before.update(i as int, SuspectView { id: key, attempts }));
                assert(distinct_ids(after)) by {
                    assert forall|a: int, b: int| 0 <= a < b < after.len() implies after[a].id
                        != after[b].id by {
                        assert(before[a].id != before[b].id);
                    }
                }
                assert(as_map(after) =~= as_map(before).insert(key, attempts as nat)) by {
                    assert forall|k: Seq<char>| has_entry(after, k) == (has_entry(before, k) || k
                        == key) by {
                        if has_entry(after, k) {
                            let j = entry_index(after, k);
                            assert(before[j].id == k);
                        }
                        if has_entry(before, k) {
                            let j = entry_index(before, k);
                            assert(after[j].id == k);
                        }
                        if k == key {
                            assert(after[i as int].id == k);
                        }
                    }
                    assert forall|k: Seq<char>| has_entry(after, k) implies as_map(after)[k] == if k
                        == key {
                        attempts as nat
                    } else {
                        as_map(before)[k]
                    } by {
                        let j = entry_index(after, k);
                        lemma_entry(after, j);
                        if k != key {
                            assert(before[j].id == k);
                            lemma_entry(before, j);
                        } else {
                            lemma_entry(after, i as int);
                        }
                    }
                }
            },
            None => {
                self.entries.push(Suspect { id, attempts });
                let ghost after = self.entries.deep_view();
                assert(after =~= before.push(SuspectView { id: key, attempts }));
                assert(distinct_ids(after)) by {
                    assert forall|a: int, b: int| 0 <= a < b < after.len() implies after[a].id
                        != after[b].id by {
                        if b < before.len() {
                            assert(before[a].id != before[b].id);
                        } else {
                            assert(before[a].id != key);
                        }
                    }
                }
                assert(as_map(after) =~= as_map(before).insert(key, attempts as nat)) by {
                    assert forall|k: Seq<char>| has_entry(after, k) == (has_entry(before, k) || k
                        == key) by {
                        if has_entry(after, k) {
                            let j = entry_index(after, k);
                            if j < before.len() {
                                assert(before[j].id == k);
                            }
                        }
                        if has_entry(before, k) {
                            let j = entry_index(before, k);
                            assert(after[j].id == k);
                        }
                        if k == key {
                            assert(after[before.len() as int].id == k);
                        }
                    }
                    assert forall|k: Seq<char>| has_entry(after, k) implies as_map(after)[k] == if k
                        == key {
                        attempts as nat
                    } else {
                        as_map(before)[k]
                    } by {
                        let j = entry_index(after, k);
                        lemma_entry(after, j);
                        if k != key {
                            assert(before[j].id == k);
                            lemma_entry(before, j);
                        } else {
                            lemma_entry(after, before.len() as int);
                        }
                    }
                }
            },
        }
    }

    /// Takes `id` out of the cache, and says whether it was in it.
    pub fn remove(&mut self, id: &str) -> (was_there: bool)
        requires
            old(self).wf(),
        ensures
            final(self).wf(),
            final(self)@ == old(self)@.remove(id@),
            was_there == old(self)@.contains_key(id@),
    {
        let ghost before = self.entries.deep_view();
        match self.position(id) {
            Some(i) => {
                let _ = self.entries.remove(i);
                let ghost after = self.entries.deep_view();
                assert(after =~= before.remove(i as int));
                assert(distinct_ids(after)) by {
                    assert forall|a: int, b: int| 0 <= a < b < after.len() implies after[a].id
                        != after[b].id by {
                        let a0 = if a < i { a } else { a + 1 };
                        let b0 = if b < i { b } else { b + 1 };
                        assert(before[a0].id != before[b0].id);
                    }
                }
                proof {
                    lemma_entry(before, i as int);
                }
                assert(as_map(after) =~= as_map(before).remove(id@)) by {
                    assert forall|k: Seq<char>| has_entry(after, k) == (has_entry(before, k) && k
                        != id@) by {
                        if has_entry(after, k) {
                            let j = entry_index(after, k);
                            let j0 = if j < i { j } else { j + 1 };
                            assert(before[j0].id == k);
                            if j0 < i {
                                assert(before[j0].id != before[i as int].id);
                            } else {
                                assert(before[i as int].id != before[j0].id);
                            }
                        }
                        if has_entry(before, k) && k != id@ {
                            let j = entry_index(before, k);
                            let j1 = if j < i { j } else { j - 1 };
                            assert(after[j1].id == k);
                        }
                    }
                    assert forall|k: Seq<char>| has_entry(after, k) implies as_map(after)[k]
                        == as_map(before)[k] by {
                        let j = entry_index(after, k);
                        lemma_entry(after, j);
                        let j0 = if j < i { j } else { j + 1 };
                        assert(before[j0].id == k);
                        lemma_entry(before, j0);
                    }
                }
                true
            },
            None => {
                assert(as_map(before) =~= as_map(before).remove(id@));
                false
            },
        }
    }

    /// The sidecars in the cache with their attempts, in the order in which they entered.
    pub fn to_vec(&self) -> (entries: Vec<Suspect>)
        requires
            self.wf(),
        ensures
            entries.deep_view() == self.entries(),
            distinct_ids(entries.deep_view()),
            as_map(entries.deep_view()) == self@,
    {
        let mut out: Vec<Suspect> = Vec::new();
        let mut i: usize = 0;
        while i < self.entries.len()
            invariant
                i <= self.entries.len(),
                out.deep_view() == self.entries.deep_view().take(i as int),
            decreases self.entries.len() - i,
        {
            let ghost so_far = out.deep_view();
            out.push(self.entries[i].clone());
            assert(out.deep_view() =~= so_far.push(self.entries[i as int].deep_view()));
            assert(self.entries.deep_view().take(i + 1) =~= self.entries.deep_view().take(
                i as int,
            ).push(self.entries[i as int].deep_view()));
            i += 1;
        }
        assert(self.entries.deep_view().take(i as int) =~= self.entries.deep_view());
        out
    }
}

proof fn lemma_dom_of(entries: Seq<SuspectView>)
    requires
        distinct_ids(entries),
    ensures
        as_map(entries).dom().finite(),
        as_map(entries).dom().len() == entries.len(),
    decreases entries.len(),
{
    if entries.len() == 0 {
        assert(as_map(entries).dom() =~= Set::<Seq<char>>::empty());
    } else {
        let rest = entries.drop_last();
        let last = entries.last();
        assert(distinct_ids(rest)) by {
            assert forall|a: int, b: int| 0 <= a < b < rest.len() implies rest[a].id
                != rest[b].id by {
                assert(entries[a].id != entries[b].id);
            }
        }
        lemma_dom_of(rest);
        assert(!has_entry(rest, last.id)) by {
            if has_entry(rest, last.id) {
                let j = entry_index(rest, last.id);
                assert(entries[j].id != entries[entries.len() - 1].id);
            }
        }
        assert(as_map(entries).dom() =~= as_map(rest).dom().insert(last.id)) by {
            assert forall|k: Seq<char>| has_entry(entries, k) == (has_entry(rest, k) || k
                == last.id) by {
                if has_entry(entries, k) {
                    let j = entry_index(entries, k);
                    if j < rest.len() {
                        assert(rest[j].id == k);
                    }
                }
                if has_entry(rest, k) {
                    let j = entry_index(rest, k);
                    assert(entries[j].id == k);
                }
                if k == last.id {
                    assert(entries[entries.len() - 1].id == k);
                }
            }
        }
    }
}

} // verus!
