use vstd::prelude::*;

use crate::symbol::{copy_string, strings_view};

verus! {

/// `a` depends directly on `b`: some edge of `g` is `(a, b)`.
pub open spec fn step(g: Seq<(Seq<char>, Seq<char>)>, a: Seq<char>, b: Seq<char>) -> bool {
    exists|i: int| 0 <= i < g.len() && #[trigger] g[i] == (a, b)
}

/// `a` reaches `b` along exactly `n` edges of `g`.
pub open spec fn reaches(g: Seq<(Seq<char>, Seq<char>)>, a: Seq<char>, b: Seq<char>, n: nat) -> bool
    decreases n,
{
    if n == 0 {
        a == b
    } else {
        exists|m: Seq<char>| reaches(g, a, m, (n - 1) as nat) && #[trigger] step(g, m, b)
    }
}

/// `a` depends on `b`, directly or through other names, or is `b`.
pub open spec fn depends(g: Seq<(Seq<char>, Seq<char>)>, a: Seq<char>, b: Seq<char>) -> bool {
    exists|n: nat| reaches(g, a, b, n)
}

/// No name depends on itself through one or more edges.
pub open spec fn acyclic(g: Seq<(Seq<char>, Seq<char>)>) -> bool {
    forall|x: Seq<char>, n: nat| n > 0 ==> !#[trigger] reaches(g, x, x, n)
}

/// A path of `g` is a path of `g` with one more edge.
proof fn lemma_reaches_grow(
    g: Seq<(Seq<char>, Seq<char>)>,
    e: (Seq<char>, Seq<char>),
    x: Seq<char>,
    y: Seq<char>,
    n: nat,
)
    requires
        reaches(g, x, y, n),
    ensures
        reaches(g.push(e), x, y, n),
    decreases n,
{
    if n > 0 {
        let m = choose|m: Seq<char>| reaches(g, x, m, (n - 1) as nat) && #[trigger] step(g, m, y);
        lemma_reaches_grow(g, e, x, m, (n - 1) as nat);
        let i = choose|i: int| 0 <= i < g.len() && #[trigger] g[i] == (m, y);
        assert(g.push(e)[i] == (m, y));
        assert(step(g.push(e), m, y));
    }
}

/// Dependence is transitive.
proof fn lemma_depends_trans(
    g: Seq<(Seq<char>, Seq<char>)>,
    a: Seq<char>,
    b: Seq<char>,
    c: Seq<char>,
    n: nat,
    m: nat,
)
    requires
        reaches(g, a, b, n),
        reaches(g, b, c, m),
    ensures
        reaches(g, a, c, n + m),
    decreases m,
{
    if m > 0 {
        let w = choose|w: Seq<char>| reaches(g, b, w, (m - 1) as nat) && #[trigger] step(g, w, c);
        lemma_depends_trans(g, a, b, w, n, (m - 1) as nat);
        assert(reaches(g, a, c, n + m));
    }
}

/// A path of `g` with the edge `(c, p)` added either is a path of `g`, or
/// passes through `c` and ends at a name that `p` depends on in `g`.
proof fn lemma_path_split(
    g: Seq<(Seq<char>, Seq<char>)>,
    c: Seq<char>,
    p: Seq<char>,
    x: Seq<char>,
    y: Seq<char>,
    n: nat,
)
    requires
        reaches(g.push((c, p)), x, y, n),
    ensures
        reaches(g, x, y, n) || (depends(g.push((c, p)), x, c) && depends(g, p, y)),
    decreases n,
{
    let h = g.push((c, p));
    if n > 0 {
        let m = choose|m: Seq<char>| reaches(h, x, m, (n - 1) as nat) && #[trigger] step(h, m, y);
        lemma_path_split(g, c, p, x, m, (n - 1) as nat);
        let i = choose|i: int| 0 <= i < h.len() && #[trigger] h[i] == (m, y);
        if i < g.len() {
            assert(g[i] == (m, y));
            assert(step(g, m, y));
            if reaches(g, x, m, (n - 1) as nat) {
                assert(reaches(g, x, y, n));
            } else {
                let k = choose|k: nat| reaches(g, p, m, k);
                assert(reaches(g, p, y, k + 1));
            }
        } else {
            assert(m == c && y == p);
            assert(reaches(g, p, y, 0));
            if reaches(g, x, m, (n - 1) as nat) {
                lemma_reaches_grow(g, (c, p), x, m, (n - 1) as nat);
            }
        }
    }
}

/// Adding an edge `(c, p)` where `p` does not depend on `c` keeps a graph
/// acyclic.
pub proof fn lemma_add_keeps_acyclic(g: Seq<(Seq<char>, Seq<char>)>, c: Seq<char>, p: Seq<char>)
    requires
        acyclic(g),
        !depends(g, p, c),
    ensures
        acyclic(g.push((c, p))),
{
    let h = g.push((c, p));
    assert forall|x: Seq<char>, n: nat| n > 0 implies !#[trigger] reaches(h, x, x, n) by {
        if reaches(h, x, x, n) {
            lemma_path_split(g, c, p, x, x, n);
            if !reaches(g, x, x, n) {
                let k = choose|k: nat| reaches(h, x, c, k);
                let j = choose|j: nat| reaches(g, p, x, j);
                lemma_path_split(g, c, p, x, c, k);
                if reaches(g, x, c, k) {
                    lemma_depends_trans(g, p, x, c, j, k);
                }
            }
        }
    }
}

/// Edges whose target is not yet in `seen`.
pub open spec fn unseen_targets(g: Seq<(Seq<char>, Seq<char>)>, seen: Set<Seq<char>>) -> nat
    decreases g.len(),
{
    if g.len() == 0 {
        0
    } else {
        unseen_targets(g.drop_last(), seen) + if seen.contains(g.last().1) {
            0nat
        } else {
            1nat
        }
    }
}

proof fn lemma_unseen_shrinks(g: Seq<(Seq<char>, Seq<char>)>, s: Set<Seq<char>>, t: Set<Seq<char>>)
    requires
        s.subset_of(t),
    ensures
        unseen_targets(g, t) <= unseen_targets(g, s),
        (exists|i: int| 0 <= i < g.len() && !s.contains(#[trigger] g[i].1) && t.contains(g[i].1))
            ==> unseen_targets(g, t) < unseen_targets(g, s),
    decreases g.len(),
{
    if g.len() > 0 {
        lemma_unseen_shrinks(g.drop_last(), s, t);
        if exists|i: int| 0 <= i < g.len() && !s.contains(#[trigger] g[i].1) && t.contains(g[i].1) {
            let i = choose|i: int| 0 <= i < g.len() && !s.contains(#[trigger] g[i].1) && t.contains(g[i].1);
            if i < g.len() - 1 {
                assert(g.drop_last()[i] == g[i]);
            }
        }
    }
}

/// Everything that a closed set holding `a` contains is reached from `a`.
proof fn lemma_closed_holds_all(
    g: Seq<(Seq<char>, Seq<char>)>,
    seen: Set<Seq<char>>,
    a: Seq<char>,
    b: Seq<char>,
    n: nat,
)
    requires
        seen.contains(a),
        forall|i: int| 0 <= i < g.len() && seen.contains(#[trigger] g[i].0) ==> seen.contains(g[i].1),
        reaches(g, a, b, n),
    ensures
        seen.contains(b),
    decreases n,
{
    if n > 0 {
        let m = choose|m: Seq<char>| reaches(g, a, m, (n - 1) as nat) && #[trigger] step(g, m, b);
        lemma_closed_holds_all(g, seen, a, m, (n - 1) as nat);
        let i = choose|i: int| 0 <= i < g.len() && #[trigger] g[i] == (m, b);
        assert(seen.contains(g[i].0));
    }
}

/// The alias graph: an edge `(child, parent)` records that `child` was bound
/// from `parent`.
pub struct DependencyGraph {
    edges: Vec<(String, String)>,
}

impl DependencyGraph {
    pub closed spec fn edges(&self) -> Seq<(Seq<char>, Seq<char>)> {
        self.edges@.map_values(|e: (String, String)| (e.0@, e.1@))
    }

    pub fn new() -> (r: DependencyGraph)
        ensures
            r.edges() == Seq::<(Seq<char>, Seq<char>)>::empty(),
            acyclic(r.edges()),
    {
        let r = DependencyGraph { edges: Vec::new() };
        assert(r.edges() =~= Seq::<(Seq<char>, Seq<char>)>::empty());
        r
    }

    fn contains(names: &Vec<String>, name: &String) -> (r: bool)
        ensures
            r == strings_view(names@).contains(name@),
    {
        let ghost v = strings_view(names@);
        let mut i: usize = 0;
        while i < names.len()
            invariant
                i <= names@.len(),
                v == strings_view(names@),
                forall|j: int| 0 <= j < i ==> v[j] != name@,
            decreases names@.len() - i,
        {
            if names[i] == *name {
                assert(v[i as int] == name@);
                return true;
            }
            i = i + 1;
        }
        false
    }

    /// Whether `from` depends on `to` in the current graph.
    pub fn depends_on(&self, from: &String, to: &String) -> (r: bool)
        ensures
            r == depends(self.edges(), from@, to@),
    {
        let ghost g = self.edges();
        let mut seen: Vec<String> = Vec::new();
        seen.push(copy_string(from));
        proof {
            assert(strings_view(seen@)[0] == from@);
            assert(reaches(g, from@, from@, 0));
        }
        let mut changed = true;
        while changed
            invariant
                g == self.edges(),
                strings_view(seen@).contains(from@),
                forall|x: Seq<char>|
                    #[trigger] strings_view(seen@).contains(x) ==> depends(
                        g,
                        from@,
                        x,
                    ),
                !changed ==> forall|i: int|
                    0 <= i < g.len() && strings_view(seen@).contains(#[trigger] g[i].0)
                        ==> strings_view(seen@).contains(g[i].1),
            decreases unseen_targets(g, strings_view(seen@).to_set()), if changed {
                1int
            } else {
                0int
            },
        {
            changed = false;
            let ghost start = strings_view(seen@).to_set();
            let mut i: usize = 0;
            while i < self.edges.len()
                invariant
                    g == self.edges(),
                    i <= g.len(),
                    start.subset_of(strings_view(seen@).to_set()),
                    strings_view(seen@).contains(from@),
                    forall|x: Seq<char>|
                        #[trigger] strings_view(seen@).contains(x) ==> depends(
                            g,
                            from@,
                            x,
                        ),
                    !changed ==> strings_view(seen@).to_set() == start,
                    !changed ==> forall|j: int|
                        0 <= j < i && strings_view(seen@).contains(#[trigger] g[j].0)
                            ==> strings_view(seen@).contains(g[j].1),
                    changed ==> exists|j: int|
                        0 <= j < g.len() && !start.contains(#[trigger] g[j].1)
                            && strings_view(seen@).contains(g[j].1),
                decreases g.len() - i,
            {
                let ghost before = strings_view(seen@);
                assert(g[i as int] == (self.edges@[i as int].0@, self.edges@[i as int].1@));
                if Self::contains(&seen, &self.edges[i].0) && !Self::contains(&seen, &self.edges[i].1) {
                    seen.push(copy_string(&self.edges[i].1));
                    proof {
                        let after = strings_view(seen@);
                        assert(after =~= before.push(g[i as int].1));
                        let a = g[i as int].0;
                        let b = g[i as int].1;
                        let n = choose|n: nat| reaches(g, from@, a, n);
                        assert(step(g, a, b));
                        assert(reaches(g, from@, b, n + 1));
                        assert forall|x: Seq<char>| #[trigger] after.contains(x) implies depends(
                            g,
                            from@,
                            x,
                        ) by {
                            if x != b {
                                let k = choose|k: int| 0 <= k < after.len() && after[k] == x;
                                assert(before[k] == x);
                                assert(before.contains(x));
                            } else {
                                assert(reaches(g, from@, x, (n + 1) as nat));
                            }
                        }
                        assert(after[after.len() - 1] == b);
                        assert(after.contains(from@)) by {
                            let k = choose|k: int| 0 <= k < before.len() && before[k] == from@;
                            assert(after[k] == from@);
                        }
                        assert(start.subset_of(after.to_set())) by {
                            assert forall|x: Seq<char>| start.contains(x) implies after.to_set().contains(
                                x,
                            ) by {
                                let k = choose|k: int| 0 <= k < before.len() && before[k] == x;
                                assert(after[k] == x);
                            }
                        }
                        if !changed {
                            assert(!start.contains(b));
                        } else {
                            let j = choose|j: int|
                                0 <= j < g.len() && !start.contains(#[trigger] g[j].1)
                                    && before.contains(g[j].1);
                            let k = choose|k: int| 0 <= k < before.len() && before[k] == g[j].1;
                            assert(after[k] == g[j].1);
                        }
                    }
                    changed = true;
                }
                i = i + 1;
            }
            proof {
                lemma_unseen_shrinks(g, start, strings_view(seen@).to_set());
            }
        }
        let found = Self::contains(&seen, to);
        proof {
            let v = strings_view(seen@);
            if depends(g, from@, to@) {
                let n = choose|n: nat| reaches(g, from@, to@, n);
                assert forall|i: int| 0 <= i < g.len() && v.to_set().contains(#[trigger] g[i].0) implies v.to_set().contains(
                    g[i].1,
                ) by {
                    assert(v.contains(g[i].0));
                }
                lemma_closed_holds_all(g, v.to_set(), from@, to@, n);
            }
        }
        found
    }

    /// Records that `child` was bound from `parent`, unless that would make
    /// `parent` depend on `child`, that is, close a cycle. On a cycle the
    /// graph is left as it was.
    pub fn add_alias(&mut self, child: &String, parent: &String) -> (r: bool)
        ensures
            r == !depends(old(self).edges(), parent@, child@),
            r ==> final(self).edges() == old(self).edges().push((child@, parent@)),
            !r ==> final(self).edges() == old(self).edges(),
            acyclic(old(self).edges()) ==> acyclic(final(self).edges()),
    {
        if self.depends_on(parent, child) {
            return false;
        }
        self.edges.push((copy_string(child), copy_string(parent)));
        assert(self.edges() =~= old(self).edges().push((child@, parent@)));
        proof {
            if acyclic(old(self).edges()) {
                lemma_add_keeps_acyclic(old(self).edges(), child@, parent@);
            }
        }
        true
    }
}

} // verus!
