//! Attribute maps: names to ordered lists of text values.
use vstd::prelude::*;

verus! {

/// The characters of each string in `v`, in order.
pub open spec fn texts(v: Seq<String>) -> Seq<Seq<char>> {
    v.map_values(|x: String| x@)
}

/// The map that a list of entries stands for; a later entry wins over an
/// earlier one with the same name.
pub open spec fn entries_map(e: Seq<(String, Vec<String>)>) -> Map<Seq<char>, Seq<Seq<char>>>
    decreases e.len(),
{
    if e.len() == 0 {
        Map::empty()
    } else {
        entries_map(e.drop_last()).insert(e.last().0@, texts(e.last().1@))
    }
}

/// No two entries have the same name.
pub open spec fn names_unique(e: Seq<(String, Vec<String>)>) -> bool {
    forall|i: int, j: int| 0 <= i < j < e.len() ==> e[i].0@ != e[j].0@
}

proof fn lemma_entries_map_lookup(e: Seq<(String, Vec<String>)>, i: int)
    requires
        names_unique(e),
        0 <= i < e.len(),
    ensures
        entries_map(e).contains_key(e[i].0@),
        entries_map(e)[e[i].0@] == texts(e[i].1@),
    decreases e.len(),
{
    if i < e.len() - 1 {
        lemma_entries_map_lookup(e.drop_last(), i);
    }
}

proof fn lemma_entries_map_absent(e: Seq<(String, Vec<String>)>, k: Seq<char>)
    requires
        forall|i: int| 0 <= i < e.len() ==> (#[trigger] e[i]).0@ != k,
    ensures
        !entries_map(e).contains_key(k),
    decreases e.len(),
{
    if e.len() > 0 {
        let d = e.drop_last();
        assert forall|i: int| 0 <= i < d.len() implies (#[trigger] d[i]).0@ != k by {
            assert(d[i] == e[i]);
        }
        lemma_entries_map_absent(d, k);
    }
}

proof fn lemma_entries_map_update(
    e: Seq<(String, Vec<String>)>,
    i: int,
    x: (String, Vec<String>),
)
    requires
        names_unique(e),
        0 <= i < e.len(),
        e[i].0@ == x.0@,
    ensures
        entries_map(e.update(i, x)) == entries_map(e).insert(x.0@, texts(x.1@)),
    decreases e.len(),
{
    let u = e.update(i, x);
    if i == e.len() - 1 {
        assert(u.drop_last() =~= e.drop_last());
        assert(entries_map(u) =~= entries_map(e).insert(x.0@, texts(x.1@)));
    } else {
        let d = e.drop_last();
        assert(u.drop_last() =~= d.update(i, x));
        lemma_entries_map_update(d, i, x);
        assert(e.last().0@ != x.0@);
        assert(entries_map(u) =~= entries_map(e).insert(x.0@, texts(x.1@)));
    }
}

/// A map from attribute names to ordered lists of values.
pub struct Attributes {
    entries: Vec<(String, Vec<String>)>,
}

impl View for Attributes {
    type V = Map<Seq<char>, Seq<Seq<char>>>;

    closed spec fn view(&self) -> Map<Seq<char>, Seq<Seq<char>>> {
        entries_map(self.entries@)
    }
}

impl Attributes {
    /// No two entries share a name.
    pub closed spec fn wf(&self) -> bool {
        names_unique(self.entries@)
    }

    /// A map with no attributes.
    pub fn new() -> (r: Self)
        ensures
            r.wf(),
            r@ == Map::<Seq<char>, Seq<Seq<char>>>::empty(),
    {
        Attributes { entries: Vec::new() }
    }

    /// The index of the entry named `k`, if there is one.
    fn find(&self, k: &String) -> (r: Option<usize>)
        ensures
            r matches Some(i) ==> i < self.entries@.len() && self.entries@[i as int].0@ == k@,
            r is None ==> forall|i: int|
                0 <= i < self.entries@.len() ==> (#[trigger] self.entries@[i]).0@ != k@,
    {
        let mut i: usize = 0;
        while i < self.entries.len()
            invariant
                i <= self.entries@.len(),
                forall|j: int| 0 <= j < i ==> (#[trigger] self.entries@[j]).0@ != k@,
            decreases self.entries@.len() - i,
        {
            if self.entries[i].0 == *k {
                return Some(i);
            }
            i = i + 1;
        }
        None
    }

    /// The values of attribute `k`, if it is set.
    pub fn get(&self, k: &String) -> (r: Option<&Vec<String>>)
        requires
            self.wf(),
        ensures
            r is Some <==> self@.contains_key(k@),
            r matches Some(v) ==> texts(v@) == self@[k@],
    {
        match self.find(k) {
            Some(i) => {
                proof {
                    lemma_entries_map_lookup(self.entries@, i as int);
                }
                Some(&self.entries[i].1)
            },
            None => {
                proof {
                    lemma_entries_map_absent(self.entries@, k@);
                }
                None
            },
        }
    }

    /// Sets attribute `k` to `v`, replacing any values it had.
    pub fn insert(&mut self, k: String, v: Vec<String>)
        requires
            old(self).wf(),
        ensures
            final(self).wf(),
            final(self)@ == old(self)@.insert(k@, texts(v@)),
    {
        match self.find(&k) {
            Some(i) => {
                proof {
                    lemma_entries_map_update(self.entries@, i as int, (k, v));
                }
                self.entries.set(i, (k, v));
            },
            None => {
                let ghost e = self.entries@;
                let ghost kv = k@;
                proof {
                    assert forall|a: int, b: int|
                        0 <= a < b < e.len() + 1 implies e.push((k, v))[a].0@ != e.push(
                        (k, v),
                    )[b].0@ by {
                        if b == e.len() {
                            assert(e.push((k, v))[a] == e[a]);
                        }
                    }
                    assert(e.push((k, v)).drop_last() =~= e);
                }
                self.entries.push((k, v));
            },
        }
    }
}

} // verus!
