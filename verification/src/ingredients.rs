use vstd::prelude::*;

verus! {

/// A mapping from ingredient name to a non-negative quantity, as a recipe's
/// requirements or a pantry's stock.
///
/// Stored as an association list of `(name, quantity)` pairs whose names are
/// pairwise distinct; the abstract value is the finite map from each name's
/// character sequence to its quantity.
pub struct IngredientMap {
    entries: Vec<(String, u64)>,
}

/// The map described by a sequence of `(name, quantity)` pairs; a later pair
/// with the same name overrides an earlier one.
pub open spec fn map_of_pairs(s: Seq<(String, u64)>) -> Map<Seq<char>, u64>
    decreases s.len(),
{
    if s.len() == 0 {
        Map::empty()
    } else {
        map_of_pairs(s.drop_last()).insert(s.last().0@, s.last().1)
    }
}

/// A key is in the map of a pair sequence exactly when some pair holds it.
pub proof fn lemma_map_of_pairs_contains(s: Seq<(String, u64)>, k: Seq<char>)
    ensures
        map_of_pairs(s).contains_key(k) <==> exists|i: int| 0 <= i < s.len() && s[i].0@ == k,
    decreases s.len(),
{
    if s.len() > 0 {
        lemma_map_of_pairs_contains(s.drop_last(), k);
        if s.last().0@ == k {
            assert(s[s.len() - 1].0@ == k);
        } else if map_of_pairs(s).contains_key(k) {
            let i = choose|i: int| 0 <= i < s.drop_last().len() && s.drop_last()[i].0@ == k;
            assert(s[i].0@ == k);
        } else if exists|i: int| 0 <= i < s.len() && s[i].0@ == k {
            let i = choose|i: int| 0 <= i < s.len() && s[i].0@ == k;
            assert(s.drop_last()[i].0@ == k);
        }
    }
}

/// Whether the names of a pair sequence are pairwise distinct.
pub open spec fn distinct_names(s: Seq<(String, u64)>) -> bool {
    forall|i: int, j: int| 0 <= i < j < s.len() ==> s[i].0@ != s[j].0@
}

/// Under distinct names, each pair's quantity is the map's value at its name.
pub proof fn lemma_map_of_pairs_at(s: Seq<(String, u64)>, i: int)
    requires
        distinct_names(s),
        0 <= i < s.len(),
    ensures
        map_of_pairs(s).contains_key(s[i].0@),
        map_of_pairs(s)[s[i].0@] == s[i].1,
    decreases s.len(),
{
    lemma_map_of_pairs_contains(s, s[i].0@);
    if i < s.len() - 1 {
        assert(s[i].0@ != s.last().0@);
        assert(s.drop_last()[i] == s[i]);
        lemma_map_of_pairs_at(s.drop_last(), i);
    }
}

impl View for IngredientMap {
    type V = Map<Seq<char>, u64>;

    closed spec fn view(&self) -> Map<Seq<char>, u64> {
        map_of_pairs(self.entries@)
    }
}

impl IngredientMap {
    /// The underlying `(name, quantity)` pairs, in order.
    pub closed spec fn pairs(&self) -> Seq<(String, u64)> {
        self.entries@
    }

    /// Well-formedness: no ingredient name occurs twice.
    pub open spec fn wf(&self) -> bool {
        distinct_names(self.pairs())
    }

    /// Each stored pair is reflected in the abstract map.
    pub proof fn lemma_pair_in_view(&self, i: int)
        requires
            self.wf(),
            0 <= i < self.pairs().len(),
        ensures
            self@.contains_key(self.pairs()[i].0@),
            self@[self.pairs()[i].0@] == self.pairs()[i].1,
    {
        lemma_map_of_pairs_at(self.pairs(), i);
    }

    /// Every key of the abstract map comes from some stored pair.
    pub proof fn lemma_view_key_has_pair(&self, k: Seq<char>)
        requires
            self@.contains_key(k),
        ensures
            exists|i: int| 0 <= i < self.pairs().len() && self.pairs()[i].0@ == k,
    {
        lemma_map_of_pairs_contains(self.pairs(), k);
    }

    /// An empty mapping.
    pub fn new() -> (r: Self)
        ensures
            r@ == Map::<Seq<char>, u64>::empty(),
            r.wf(),
            r.pairs().len() == 0,
    {
        IngredientMap { entries: Vec::new() }
    }

    /// How many ingredients the mapping holds.
    pub fn len(&self) -> (n: usize)
        ensures
            n == self.pairs().len(),
    {
        self.entries.len()
    }

    /// The pair at a position, for iteration.
    pub fn pair_at(&self, i: usize) -> (p: &(String, u64))
        requires
            i < self.pairs().len(),
        ensures
            *p == self.pairs()[i as int],
    {
        &self.entries[i]
    }

    /// The stocked quantity of an ingredient, if the name is present.
    pub fn get(&self, name: &String) -> (r: Option<u64>)
        requires
            self.wf(),
        ensures
            r is Some <==> self@.contains_key(name@),
            r is Some ==> r->0 == self@[name@],
    {
        let n = self.entries.len();
        let mut i: usize = 0;
        while i < n
            invariant
                0 <= i <= n,
                n == self.pairs().len(),
                self.wf(),
                forall|j: int| 0 <= j < i ==> self.pairs()[j].0@ != name@,
            decreases n - i,
        {
            if self.entries[i].0 == *name {
                proof {
                    self.lemma_pair_in_view(i as int);
                }
                return Some(self.entries[i].1);
            }
            i += 1;
        }
        proof {
            lemma_map_of_pairs_contains(self.pairs(), name@);
        }
        None
    }

    /// Sets the quantity of an ingredient, replacing an earlier entry of the
    /// same name.
    pub fn insert(&mut self, name: String, quantity: u64)
        requires
            old(self).wf(),
        ensures
            final(self).wf(),
            final(self)@ == old(self)@.insert(name@, quantity),
            final(self).pairs().len() <= old(self).pairs().len() + 1,
    {
        let n = self.entries.len();
        let mut i: usize = 0;
        while i < n
            invariant
                *self == *old(self),
                0 <= i <= n,
                n == self.pairs().len(),
                old(self).wf(),
                forall|j: int| 0 <= j < i ==> self.pairs()[j].0@ != name@,
            decreases n - i,
        {
            let found: bool = self.entries[i].0 == *(&name);
            if found {
                let ghost nm = name;
                proof {
                    lemma_map_of_pairs_update(self.entries@, i as int, nm, quantity);
                }
                self.entries[i] = (name, quantity);
                proof {
                    assert(self.entries@ =~= old(self).entries@.update(i as int, (nm, quantity)));
                }
                return ;
            }
            i += 1;
        }
        let ghost nm = name;
        self.entries.push((name, quantity));
        proof {
            assert(self.entries@.drop_last() =~= old(self).entries@);
            assert(map_of_pairs(self.entries@) == map_of_pairs(old(self).entries@).insert(
                nm@,
                quantity,
            ));
            assert forall|p: int, q: int|
                0 <= p < q < self.entries@.len() implies self.entries@[p].0@
                != self.entries@[q].0@ by {
                if q == self.entries@.len() - 1 {
                    assert(self.entries@[p] == old(self).entries@[p]);
                } else {
                    assert(self.entries@[p] == old(self).entries@[p]);
                    assert(self.entries@[q] == old(self).entries@[q]);
                }
            }
        }
    }
}

/// Replacing the pair at the unique position of a name, by a pair whose name
/// reads the same, re-points the map at that name alone.
proof fn lemma_map_of_pairs_update(s: Seq<(String, u64)>, i: int, nm: String, quantity: u64)
    requires
        distinct_names(s),
        0 <= i < s.len(),
        nm@ == s[i].0@,
    ensures
        distinct_names(s.update(i, (nm, quantity))),
        map_of_pairs(s.update(i, (nm, quantity))) == map_of_pairs(s).insert(s[i].0@, quantity),
    decreases s.len(),
{
    let t = s.update(i, (nm, quantity));
    assert forall|p: int, q: int| 0 <= p < q < t.len() implies t[p].0@ != t[q].0@ by {
        assert(t[p].0@ == s[p].0@ && t[q].0@ == s[q].0@);
    }
    if i == s.len() - 1 {
        assert(t.drop_last() =~= s.drop_last());
        assert(t.last() == (nm, quantity));
        assert(map_of_pairs(t) == map_of_pairs(s.drop_last()).insert(nm@, quantity));
        assert(map_of_pairs(t) =~= map_of_pairs(s).insert(s[i].0@, quantity));
    } else {
        lemma_map_of_pairs_update(s.drop_last(), i, nm, quantity);
        assert(t.drop_last() =~= s.drop_last().update(i, (nm, quantity)));
        assert(t.last() == s.last());
        assert(s[i].0@ != s.last().0@);
        assert(map_of_pairs(t) == map_of_pairs(t.drop_last()).insert(s.last().0@, s.last().1));
        assert(map_of_pairs(s.drop_last()).insert(s[i].0@, quantity).insert(
            s.last().0@,
            s.last().1,
        ) =~= map_of_pairs(s.drop_last()).insert(s.last().0@, s.last().1).insert(
            s[i].0@,
            quantity,
        ));
        assert(map_of_pairs(t) =~= map_of_pairs(s).insert(s[i].0@, quantity));
    }
}

} // verus!
