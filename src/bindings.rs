use vstd::prelude::*;

verus! {

/// The ordered bindings after binding `k` to `v`: in place where `k` is
/// bound, else at the end.
pub open spec fn order_insert<V>(o: Seq<(Seq<char>, V)>, k: Seq<char>, v: V) -> Seq<(Seq<char>, V)> {
    if exists|i: int| 0 <= i < o.len() && o[i].0 == k {
        o.map_values(|p: (Seq<char>, V)| if p.0 == k { (k, v) } else { p })
    } else {
        o.push((k, v))
    }
}

/// The value bound to `k` in ordered bindings with unique names.
pub open spec fn order_get<V>(o: Seq<(Seq<char>, V)>, k: Seq<char>) -> Option<V> {
    if exists|i: int| 0 <= i < o.len() && o[i].0 == k {
        Some(o[choose|i: int| 0 <= i < o.len() && o[i].0 == k].1)
    } else {
        None
    }
}

/// A finite map from names to values that remembers the order in which the
/// names were first bound. Rebinding a name keeps its position.
pub struct Bindings<V> {
    entries: Vec<(String, V)>,
    map: Ghost<Map<Seq<char>, V>>,
}

impl<V> View for Bindings<V> {
    type V = Map<Seq<char>, V>;

    closed spec fn view(&self) -> Map<Seq<char>, V> {
        self.map@
    }
}

impl<V> Bindings<V> {
    /// The bindings in the order in which their names were first bound.
    pub closed spec fn order(&self) -> Seq<(Seq<char>, V)> {
        self.entries@.map_values(|p: (String, V)| (p.0@, p.1))
    }

    pub open spec fn wf(&self) -> bool {
        &&& forall|i: int, j: int|
            0 <= i < j < self.order().len() ==> #[trigger] self.order()[i].0
                != #[trigger] self.order()[j].0
        &&& forall|i: int|
            0 <= i < self.order().len() ==> self@.contains_key(#[trigger] self.order()[i].0)
                && self@[self.order()[i].0] == self.order()[i].1
        &&& forall|k: Seq<char>|
            #[trigger] self@.contains_key(k) ==> exists|i: int|
                0 <= i < self.order().len() && #[trigger] self.order()[i].0 == k
    }

    pub proof fn lemma_order_get(&self, k: Seq<char>)
        requires
            self.wf(),
        ensures
            order_get(self.order(), k) == if self@.contains_key(k) {
                Some(self@[k])
            } else {
                None
            },
    {
        if exists|i: int| 0 <= i < self.order().len() && self.order()[i].0 == k {
            let i = choose|i: int| 0 <= i < self.order().len() && self.order()[i].0 == k;
            assert(self@.contains_key(self.order()[i].0));
        }
    }

    pub fn new() -> (r: Self)
        ensures
            r.wf(),
            r@ == Map::<Seq<char>, V>::empty(),
            r.order() == Seq::<(Seq<char>, V)>::empty(),
    {
        let r = Bindings { entries: Vec::new(), map: Ghost(Map::empty()) };
        assert(r.order() =~= Seq::<(Seq<char>, V)>::empty());
        r
    }

    pub fn len(&self) -> (r: usize)
        ensures
            r == self.order().len(),
    {
        self.entries.len()
    }

    pub fn name_at(&self, i: usize) -> (r: &String)
        requires
            i < self.order().len(),
        ensures
            r@ == self.order()[i as int].0,
    {
        &self.entries[i].0
    }

    pub fn value_at(&self, i: usize) -> (r: &V)
        requires
            i < self.order().len(),
        ensures
            *r == self.order()[i as int].1,
    {
        &self.entries[i].1
    }

    /// Position of `name` in the order, if it is bound.
    pub fn position(&self, name: &String) -> (r: Option<usize>)
        requires
            self.wf(),
        ensures
            r.is_some() == self@.contains_key(name@),
            r matches Some(i) ==> i < self.order().len() && self.order()[i as int].0 == name@,
    {
        let mut i: usize = 0;
        while i < self.entries.len()
            invariant
                self.wf(),
                i <= self.entries@.len(),
                forall|j: int| 0 <= j < i ==> self.order()[j].0 != name@,
            decreases self.entries@.len() - i,
        {
            if self.entries[i].0 == *name {
                assert(self.order()[i as int].0 == name@);
                return Some(i);
            }
            i = i + 1;
        }
        proof {
            if self@.contains_key(name@) {
                let j = choose|j: int| 0 <= j < self.order().len() && self.order()[j].0 == name@;
                assert(self.order()[j].0 == name@);
            }
        }
        None
    }

    pub fn get(&self, name: &String) -> (r: Option<&V>)
        requires
            self.wf(),
        ensures
            r.is_some() == self@.contains_key(name@),
            r matches Some(v) ==> *v == self@[name@],
    {
        match self.position(name) {
            Some(i) => Some(&self.entries[i].1),
            None => None,
        }
    }

    /// Binds `name` to `value`, replacing an earlier binding in place.
    pub fn insert(&mut self, name: String, value: V)
        requires
            old(self).wf(),
        ensures
            final(self).wf(),
            final(self)@ == old(self)@.insert(name@, value),
            final(self).order() == order_insert(old(self).order(), name@, value),
            old(self)@.contains_key(name@) ==> final(self).order().len() == old(self).order().len(),
            !old(self)@.contains_key(name@) ==> final(self).order() == old(self).order().push(
                (name@, value),
            ),
            forall|i: int|
                0 <= i < old(self).order().len() ==> #[trigger] final(self).order()[i] == if old(
                    self,
                ).order()[i].0 == name@ {
                    (name@, value)
                } else {
                    old(self).order()[i]
                },
    {
        let ghost key = name@;
        let ghost m = self.map@.insert(key, value);
        match self.position(&name) {
            Some(i) => {
                self.entries.set(i, (name, value));
                self.map = Ghost(m);
                assert forall|j: int| 0 <= j < old(self).order().len() implies #[trigger] self.order()[j]
                    == if old(self).order()[j].0 == key {
                    (key, value)
                } else {
                    old(self).order()[j]
                } by {
                    if j != i {
                        assert(old(self).order()[j].0 != old(self).order()[i as int].0);
                    }
                }
                assert forall|k: Seq<char>| #[trigger] self@.contains_key(k) implies exists|j: int|
                    0 <= j < self.order().len() && #[trigger] self.order()[j].0 == k by {
                    if k != key {
                        let j = choose|j: int|
                            0 <= j < old(self).order().len() && old(self).order()[j].0 == k;
                        assert(self.order()[j].0 == k);
                    } else {
                        assert(self.order()[i as int].0 == k);
                    }
                }
                assert(old(self).order()[i as int].0 == key);
                assert(self.order() =~= order_insert(old(self).order(), key, value));
            },
            None => {
                self.entries.push((name, value));
                self.map = Ghost(m);
                assert(self.order() =~= old(self).order().push((key, value)));
                assert(self.order() =~= order_insert(old(self).order(), key, value));
                assert forall|k: Seq<char>| #[trigger] self@.contains_key(k) implies exists|j: int|
                    0 <= j < self.order().len() && #[trigger] self.order()[j].0 == k by {
                    if k != key {
                        let j = choose|j: int|
                            0 <= j < old(self).order().len() && old(self).order()[j].0 == k;
                        assert(self.order()[j].0 == k);
                    } else {
                        assert(self.order()[old(self).order().len() as int].0 == k);
                    }
                }
            },
        }
    }

    /// Removes the binding of `name`, if there is one.
    pub fn remove(&mut self, name: &String)
        requires
            old(self).wf(),
        ensures
            final(self).wf(),
            final(self)@ == old(self)@.remove(name@),
    {
        match self.position(name) {
            Some(i) => {
                let ghost old_order = self.order();
                let _ = self.entries.remove(i);
                self.map = Ghost(self.map@.remove(name@));
                assert forall|j: int| 0 <= j < self.order().len() implies #[trigger] self.order()[j]
                    == if j < i {
                    old_order[j]
                } else {
                    old_order[j + 1]
                } by {}
                assert forall|k: Seq<char>| #[trigger] self@.contains_key(k) implies exists|j: int|
                    0 <= j < self.order().len() && #[trigger] self.order()[j].0 == k by {
                    let j = choose|j: int| 0 <= j < old_order.len() && old_order[j].0 == k;
                    if j < i {
                        assert(self.order()[j].0 == k);
                    } else {
                        assert(j != i);
                        assert(self.order()[j - 1].0 == k);
                    }
                }
                assert forall|a: int, b: int|
                    0 <= a < b < self.order().len() implies #[trigger] self.order()[a].0
                    != #[trigger] self.order()[b].0 by {
                    let a2 = if a < i { a } else { a + 1 };
                    let b2 = if b < i { b } else { b + 1 };
                    assert(old_order[a2].0 != old_order[b2].0);
                }
                assert forall|j: int| 0 <= j < self.order().len() implies self@.contains_key(
                    #[trigger] self.order()[j].0,
                ) && self@[self.order()[j].0] == self.order()[j].1 by {
                    let j2 = if j < i { j } else { j + 1 };
                    assert(old_order[j2].0 != old_order[i as int].0);
                }
            },
            None => {
                assert(self.map@.remove(name@) =~= self.map@);
            },
        }
    }
}

} // verus!
