use vstd::prelude::*;

verus! {

/// `c` walks the edges of `e` and closes on its first node: a directed cycle.
pub open spec fn is_cycle(e: Set<(u128, u128)>, c: Seq<u128>) -> bool {
    &&& c.len() > 0
    &&& forall|i: int| 0 <= i < c.len() - 1 ==> #[trigger] e.contains((c[i], c[i + 1]))
    &&& e.contains((c.last(), c[0]))
}

/// The edge set `e` holds at least one directed cycle.
pub open spec fn has_cycle(e: Set<(u128, u128)>) -> bool {
    exists|c: Seq<u128>| #[trigger] is_cycle(e, c)
}

/// A directed graph of wait edges between holders and resources, which share one id space.
///
/// Nodes are kept in the order in which they first appeared, and the edges of each node in the
/// order in which they were added, so that a search over the graph is reproducible.
pub struct WaitForGraph {
    /// Node ids, without duplicates.
    ids: Vec<u128>,
    /// `succ[i]` holds the positions in `ids` of the nodes that node `i` waits on.
    succ: Vec<Vec<usize>>,
}

/// The state of a depth-first search: each node is unvisited (0), on the current path (1) or
/// finished (2). `fin` numbers the finished nodes in the order in which they finished.
struct Search {
    color: Vec<u8>,
    path: Vec<usize>,
    fin: Ghost<Seq<int>>,
    tick: Ghost<int>,
}

/// Number of unvisited entries of `color`.
spec fn unvisited(color: Seq<u8>) -> nat
    decreases color.len(),
{
    if color.len() == 0 {
        0
    } else {
        unvisited(color.drop_last()) + if color.last() == 0 {
            1nat
        } else {
            0nat
        }
    }
}

proof fn lemma_unvisited_shrinks(a: Seq<u8>, b: Seq<u8>, k: int)
    requires
        a.len() == b.len(),
        forall|i: int| 0 <= i < b.len() && b[i] == 0 ==> a[i] == 0,
        0 <= k < a.len(),
    ensures
        unvisited(b) <= unvisited(a),
        a[k] == 0 && b[k] != 0 ==> unvisited(b) < unvisited(a),
    decreases a.len(),
{
    if a.len() > 0 {
        let n = a.len() - 1;
        assert forall|i: int| 0 <= i < b.drop_last().len() && b.drop_last()[i] == 0 implies a.drop_last()[i] == 0 by {
            assert(b[i] == 0);
        }
        if k < n {
            lemma_unvisited_shrinks(a.drop_last(), b.drop_last(), k);
        } else if n > 0 {
            lemma_unvisited_shrinks(a.drop_last(), b.drop_last(), 0);
        } else {
            assert(unvisited(a.drop_last()) == 0);
            assert(unvisited(b.drop_last()) == 0);
        }
    }
}

/// A ranking that every edge descends rules out every cycle.
proof fn lemma_rank_descends(e: Set<(u128, u128)>, rank: spec_fn(u128) -> int, c: Seq<u128>, i: int)
    requires
        forall|a: u128, b: u128| #[trigger] e.contains((a, b)) ==> rank(b) < rank(a),
        is_cycle(e, c),
        0 <= i < c.len(),
    ensures
        rank(c[i]) + i <= rank(c[0]),
    decreases i,
{
    if i > 0 {
        let j = i - 1;
        lemma_rank_descends(e, rank, c, j);
        assert(e.contains((c[j], c[j + 1])));
    }
}

proof fn lemma_ranked_acyclic(e: Set<(u128, u128)>, rank: spec_fn(u128) -> int)
    requires
        forall|a: u128, b: u128| #[trigger] e.contains((a, b)) ==> rank(b) < rank(a),
    ensures
        !has_cycle(e),
{
    assert forall|c: Seq<u128>| !is_cycle(e, c) by {
        if is_cycle(e, c) {
            lemma_rank_descends(e, rank, c, c.len() - 1);
            assert(e.contains((c.last(), c[0])));
        }
    }
}

/// A graph with no edges has no cycle.
pub proof fn law_empty_graph_acyclic()
    ensures
        !has_cycle(Set::<(u128, u128)>::empty()),
{
    assert forall|c: Seq<u128>| !is_cycle(Set::<(u128, u128)>::empty(), c) by {}
}

/// A cycle stays a cycle whatever other edges are added beside it.
pub proof fn law_cycle_survives_more_edges(e: Set<(u128, u128)>, more: Set<(u128, u128)>)
    requires
        has_cycle(e),
    ensures
        has_cycle(e.union(more)),
{
    let c = choose|c: Seq<u128>| is_cycle(e, c);
    assert forall|i: int| 0 <= i < c.len() - 1 implies #[trigger] e.union(more).contains((c[i], c[i + 1])) by {
        assert(e.contains((c[i], c[i + 1])));
    }
    assert(is_cycle(e.union(more), c));
}

/// Adding one wait edge twice gives the edge set that adding it once gives.
pub proof fn law_add_wait_idempotent(e: Set<(u128, u128)>, from: u128, to: u128)
    ensures
        e.insert((from, to)).insert((from, to)) == e.insert((from, to)),
{
    assert(e.insert((from, to)).insert((from, to)) =~= e.insert((from, to)));
}

impl WaitForGraph {
    /// The graph's structural invariant.
    pub closed spec fn well_formed(&self) -> bool {
        &&& self.ids@.len() == self.succ@.len()
        &&& self.succ@.len() <= usize::MAX
        &&& self.ids@.no_duplicates()
        &&& forall|i: int, k: int|
            0 <= i < self.succ@.len() && 0 <= k < self.succ@[i]@.len() ==> #[trigger] self.succ@[i]@[k]
                < self.succ@.len()
        &&& forall|i: int| 0 <= i < self.succ@.len() ==> (#[trigger] self.succ@[i])@.no_duplicates()
    }

    spec fn node_count(&self) -> int {
        self.ids@.len() as int
    }

    spec fn has_edge(&self, i: int, j: int) -> bool {
        0 <= i < self.succ@.len() && 0 <= j < self.succ@.len() && self.succ@[i]@.contains(j as usize)
    }

    /// `c` is a cycle of node positions that visits no node twice.
    spec fn index_cycle(&self, c: Seq<usize>) -> bool {
        &&& c.len() > 0
        &&& c.no_duplicates()
        &&& forall|i: int| 0 <= i < c.len() ==> #[trigger] c[i] < self.node_count()
        &&& forall|i: int| 0 <= i < c.len() - 1 ==> #[trigger] self.has_edge(c[i] as int, c[i + 1] as int)
        &&& self.has_edge(c.last() as int, c[0] as int)
    }

    /// The invariant of a depth-first search over this graph.
    #[verifier::opaque]
    spec fn search_ok(&self, s: Search) -> bool {
        let n = self.node_count();
        &&& s.color@.len() == n
        &&& s.fin@.len() == n
        &&& forall|v: int| 0 <= v < n ==> #[trigger] s.color@[v] <= 2
        &&& forall|i: int|
            0 <= i < s.path@.len() ==> (#[trigger] s.path@[i]) < n && s.color@[s.path@[i] as int] == 1
        &&& forall|v: int| 0 <= v < n && #[trigger] s.color@[v] == 1 ==> s.path@.contains(v as usize)
        &&& s.path@.no_duplicates()
        &&& forall|i: int|
            0 <= i < s.path@.len() - 1 ==> self.has_edge(#[trigger] s.path@[i] as int, s.path@[i + 1] as int)
        &&& forall|u: int, v: int|
            0 <= u < n && s.color@[u] == 2 && #[trigger] self.has_edge(u, v) ==> s.color@[v] == 2 && s.fin@[v]
                < s.fin@[u]
        &&& forall|u: int| 0 <= u < n && #[trigger] s.color@[u] == 2 ==> s.fin@[u] < s.tick@
    }

    /// The wait edges, as pairs of node ids.
    pub closed spec fn edges(&self) -> Set<(u128, u128)> {
        Set::new(
            |e: (u128, u128)|
                exists|i: int, j: int|
                    0 <= i < self.node_count() && 0 <= j < self.node_count() && #[trigger] self.has_edge(
                        i,
                        j,
                    ) && e == (self.ids@[i], self.ids@[j]),
        )
    }

    /// An empty graph.
    pub fn new() -> (r: WaitForGraph)
        ensures
            r.well_formed(),
            r.edges() == Set::<(u128, u128)>::empty(),
    {
        let r = WaitForGraph { ids: Vec::new(), succ: Vec::new() };
        assert(r.edges() =~= Set::<(u128, u128)>::empty());
        r
    }

    /// The position of `id` among the nodes.
    fn index_of(&self, id: u128) -> (r: Option<usize>)
        requires
            self.well_formed(),
        ensures
            match r {
                Some(i) => i < self.ids@.len() && self.ids@[i as int] == id,
                None => !self.ids@.contains(id),
            },
    {
        let mut i: usize = 0;
        while i < self.ids.len()
            invariant
                i <= self.ids@.len(),
                forall|k: int| 0 <= k < i ==> self.ids@[k] != id,
            decreases self.ids@.len() - i,
        {
            if self.ids[i] == id {
                return Some(i);
            }
            i = i + 1;
        }
        None
    }

    /// The position of `id` among the nodes, appending it without edges if it is new.
    fn index_or_insert(&mut self, id: u128) -> (r: usize)
        requires
            old(self).well_formed(),
        ensures
            final(self).well_formed(),
            r < final(self).ids@.len(),
            final(self).ids@[r as int] == id,
            final(self).edges() == old(self).edges(),
            old(self).ids@.contains(id) ==> *final(self) == *old(self),
            old(self).ids@.len() <= final(self).ids@.len(),
            forall|i: int| 0 <= i < old(self).ids@.len() ==> final(self).ids@[i] == old(self).ids@[i]
                && final(self).succ@[i] == old(self).succ@[i],
    {
        match self.index_of(id) {
            Some(i) => i,
            None => {
                let ghost before = *self;
                let n = self.ids.len();
                self.ids.push(id);
                self.succ.push(Vec::new());
                let _ = self.succ.len();
                assert(self.ids@ == before.ids@.push(id));
                assert forall|e: (u128, u128)| self.edges().contains(e) implies before.edges().contains(e) by {
                    let (i, j) = choose|i: int, j: int|
                        0 <= i < self.node_count() && 0 <= j < self.node_count() && #[trigger] self.has_edge(i, j)
                            && e == (self.ids@[i], self.ids@[j]);
                    assert(i < n);
                    assert(self.succ@[i]@.contains(j as usize));
                    let k = choose|k: int| 0 <= k < self.succ@[i]@.len() && self.succ@[i]@[k] == j as usize;
                    assert(self.succ@[i]@[k] < n);
                    assert(before.has_edge(i, j));
                }
                assert forall|e: (u128, u128)| before.edges().contains(e) implies self.edges().contains(e) by {
                    let (i, j) = choose|i: int, j: int|
                        0 <= i < before.node_count() && 0 <= j < before.node_count() && #[trigger] before.has_edge(i, j)
                            && e == (before.ids@[i], before.ids@[j]);
                    assert(self.has_edge(i, j));
                }
                assert(self.edges() =~= before.edges());
                n
            },
        }
    }

    /// The position of `j` in the edge list of node `i`.
    fn edge_position(&self, i: usize, j: usize) -> (r: Option<usize>)
        requires
            self.well_formed(),
            i < self.node_count(),
        ensures
            match r {
                Some(k) => k < self.succ@[i as int]@.len() && self.succ@[i as int]@[k as int] == j,
                None => !self.succ@[i as int]@.contains(j),
            },
    {
        let row = &self.succ[i];
        let mut k: usize = 0;
        while k < row.len()
            invariant
                row@ == self.succ@[i as int]@,
                k <= row@.len(),
                forall|q: int| 0 <= q < k ==> row@[q] != j,
            decreases row@.len() - k,
        {
            if row[k] == j {
                return Some(k);
            }
            k = k + 1;
        }
        None
    }

    /// Records that `from` waits on `to`. Adding an edge that is already there changes nothing.
    pub fn add_wait(&mut self, from: u128, to: u128)
        requires
            old(self).well_formed(),
        ensures
            final(self).well_formed(),
            final(self).edges() == old(self).edges().insert((from, to)),
            old(self).edges().contains((from, to)) ==> *final(self) == *old(self),
    {
        let ghost start = *self;
        proof {
            if start.edges().contains((from, to)) {
                let (a, b) = choose|a: int, b: int|
                    0 <= a < start.node_count() && 0 <= b < start.node_count() && #[trigger] start.has_edge(a, b)
                        && (from, to) == (start.ids@[a], start.ids@[b]);
                assert(start.ids@.contains(from) && start.ids@.contains(to));
            }
        }
        let i = self.index_or_insert(from);
        let j = self.index_or_insert(to);
        let ghost mid = *self;
        assert(mid.edges() == start.edges());
        match self.edge_position(i, j) {
            Some(_) => {
                assert(mid.has_edge(i as int, j as int));
                assert(mid.edges().contains((from, to)));
                assert(mid.edges().insert((from, to)) =~= mid.edges());
            },
            None => {
                let mut row = self.succ[i].clone();
                assert(row@ =~= mid.succ@[i as int]@);
                row.push(j);
                self.succ.set(i, row);
                assert(self.succ@[i as int]@ == mid.succ@[i as int]@.push(j));
                assert(self.succ@[i as int]@[mid.succ@[i as int]@.len() as int] == j);
                assert(self.has_edge(i as int, j as int));
                assert forall|e: (u128, u128)| self.edges().contains(e) implies mid.edges().insert(
                    (from, to),
                ).contains(e) by {
                    let (p, q) = choose|p: int, q: int|
                        0 <= p < self.node_count() && 0 <= q < self.node_count() && #[trigger] self.has_edge(p, q)
                            && e == (self.ids@[p], self.ids@[q]);
                    if p != i || q != j {
                        if p == i {
                            let k = choose|k: int| 0 <= k < self.succ@[p]@.len() && self.succ@[p]@[k] == q as usize;
                            if k == mid.succ@[p]@.len() {
                                assert(self.succ@[p]@[k] == j);
                                assert(q == j as int);
                            }
                            assert(mid.succ@[p]@[k] == q as usize);
                        } else {
                            assert(self.succ@[p] == mid.succ@[p]);
                        }
                        assert(mid.has_edge(p, q));
                    }
                }
                assert forall|e: (u128, u128)| mid.edges().insert((from, to)).contains(e) implies self.edges().contains(
                    e,
                ) by {
                    if e != (from, to) {
                        let (p, q) = choose|p: int, q: int|
                            0 <= p < mid.node_count() && 0 <= q < mid.node_count() && #[trigger] mid.has_edge(p, q)
                                && e == (mid.ids@[p], mid.ids@[q]);
                        if p == i {
                            let k = choose|k: int| 0 <= k < mid.succ@[p]@.len() && mid.succ@[p]@[k] == q as usize;
                            assert(self.succ@[p]@[k] == q as usize);
                        } else {
                            assert(self.succ@[p] == mid.succ@[p]);
                        }
                        assert(self.has_edge(p, q));
                    }
                }
                assert(self.edges() =~= mid.edges().insert((from, to)));
            },
        }
    }

    /// Removes the edge `from -> to` if it is there; changes nothing otherwise.
    pub fn remove_wait(&mut self, from: u128, to: u128)
        requires
            old(self).well_formed(),
        ensures
            final(self).well_formed(),
            final(self).edges() == old(self).edges().remove((from, to)),
            !old(self).edges().contains((from, to)) ==> *final(self) == *old(self),
    {
        let ghost start = *self;
        let oi = self.index_of(from);
        let oj = self.index_of(to);
        if oi.is_none() || oj.is_none() {
            proof {
                if start.edges().contains((from, to)) {
                    let (a, b) = choose|a: int, b: int|
                        0 <= a < start.node_count() && 0 <= b < start.node_count() && #[trigger] start.has_edge(a, b)
                            && (from, to) == (start.ids@[a], start.ids@[b]);
                    assert(start.ids@.contains(from) && start.ids@.contains(to));
                }
                assert(start.edges().remove((from, to)) =~= start.edges());
            }
            return;
        }
        let i = oi.unwrap();
        let j = oj.unwrap();
        match self.edge_position(i, j) {
            None => {
                proof {
                    if start.edges().contains((from, to)) {
                        let (a, b) = choose|a: int, b: int|
                            0 <= a < start.node_count() && 0 <= b < start.node_count() && #[trigger] start.has_edge(a, b)
                                && (from, to) == (start.ids@[a], start.ids@[b]);
                        assert(a == i as int && b == j as int);
                    }
                    assert(start.edges().remove((from, to)) =~= start.edges());
                }
            },
            Some(k) => {
                assert(start.has_edge(i as int, j as int));
                assert(start.edges().contains((from, to)));
                let mut row = self.succ[i].clone();
                assert(row@ =~= start.succ@[i as int]@);
                row.remove(k);
                self.succ.set(i, row);
                let ghost old_row = start.succ@[i as int]@;
                let ghost new_row = self.succ@[i as int]@;
                assert(new_row == old_row.remove(k as int));
                assert forall|x: usize| new_row.contains(x) <==> (old_row.contains(x) && x != j) by {
                    if new_row.contains(x) {
                        let q = choose|q: int| 0 <= q < new_row.len() && new_row[q] == x;
                        if q < k {
                            assert(old_row[q] == x);
                        } else {
                            assert(old_row[q + 1] == x);
                        }
                    }
                    if old_row.contains(x) && x != j {
                        let q = choose|q: int| 0 <= q < old_row.len() && old_row[q] == x;
                        if q < k {
                            assert(new_row[q] == x);
                        } else {
                            assert(q != k);
                            assert(new_row[q - 1] == x);
                        }
                    }
                }
                assert forall|a: int, b: int| 0 <= a < new_row.len() && 0 <= b < new_row.len() && a != b implies new_row[a] != new_row[b] by {
                    let a1 = if a < k { a } else { a + 1 };
                    let b1 = if b < k { b } else { b + 1 };
                    assert(new_row[a] == old_row[a1] && new_row[b] == old_row[b1]);
                }
                assert forall|q: int| 0 <= q < new_row.len() implies new_row[q] < self.succ@.len() by {
                    let q1 = if q < k { q } else { q + 1 };
                    assert(new_row[q] == old_row[q1]);
                }
                assert forall|e: (u128, u128)| self.edges().contains(e) implies start.edges().remove((from, to)).contains(e) by {
                    let (p, q) = choose|p: int, q: int|
                        0 <= p < self.node_count() && 0 <= q < self.node_count() && #[trigger] self.has_edge(p, q)
                            && e == (self.ids@[p], self.ids@[q]);
                    if p == i {
                        assert(new_row.contains(q as usize));
                        assert(q != j as int);
                    } else {
                        assert(self.succ@[p] == start.succ@[p]);
                    }
                    assert(start.has_edge(p, q));
                }
                assert forall|e: (u128, u128)| start.edges().remove((from, to)).contains(e) implies self.edges().contains(e) by {
                    let (p, q) = choose|p: int, q: int|
                        0 <= p < start.node_count() && 0 <= q < start.node_count() && #[trigger] start.has_edge(p, q)
                            && e == (start.ids@[p], start.ids@[q]);
                    if p == i {
                        assert(q != j as int);
                        assert(old_row.contains(q as usize));
                        assert(q as usize != j);
                        assert(new_row.contains(q as usize));
                    } else {
                        assert(self.succ@[p] == start.succ@[p]);
                    }
                    assert(self.has_edge(p, q));
                }
                assert(self.edges() =~= start.edges().remove((from, to)));
            },
        }
    }

    /// The cycle that closes when the search, standing on the last node of its path, meets `v`
    /// on that path: the path from `v` on.
    fn cycle_from(&self, s: &Search, v: usize) -> (c: Vec<usize>)
        requires
            self.well_formed(),
            self.search_ok(*s),
            v < self.node_count(),
            s.color@[v as int] == 1,
            s.path@.len() > 0,
            self.has_edge(s.path@.last() as int, v as int),
        ensures
            self.index_cycle(c@),
    {
        reveal(WaitForGraph::search_ok);
        assert(s.path@.contains(v));
        let mut p: usize = 0;
        while p < s.path.len() && s.path[p] != v
            invariant
                p <= s.path@.len(),
                s.path@.contains(v),
                forall|q: int| 0 <= q < p ==> s.path@[q] != v,
            decreases s.path@.len() - p,
        {
            p = p + 1;
        }
        let mut c: Vec<usize> = Vec::new();
        let mut q: usize = p;
        while q < s.path.len()
            invariant
                p <= q <= s.path@.len(),
                p < s.path@.len(),
                c@ == s.path@.subrange(p as int, q as int),
            decreases s.path@.len() - q,
        {
            c.push(s.path[q]);
            q = q + 1;
        }
        let ghost path = s.path@;
        assert(c@ == path.subrange(p as int, path.len() as int));
        assert forall|i: int| 0 <= i < c@.len() - 1 implies #[trigger] self.has_edge(c@[i] as int, c@[i + 1] as int) by {
            assert(c@[i] == path[p + i] && c@[i + 1] == path[p + i + 1]);
            assert(self.has_edge(path[p + i] as int, path[(p + i) + 1] as int));
        }
        assert forall|i: int, j: int| 0 <= i < c@.len() && 0 <= j < c@.len() && i != j implies c@[i] != c@[j] by {
            assert(c@[i] == path[p + i] && c@[j] == path[p + j]);
        }
        assert forall|i: int| 0 <= i < c@.len() implies #[trigger] c@[i] < self.node_count() by {
            assert(c@[i] == path[p + i]);
        }
        assert(c@.last() == path.last());
        c
    }

    /// Depth-first search from the unvisited node `u`. Returns a cycle if one is met; otherwise
    /// finishes `u` and everything reachable from it, and leaves the path as it was.
    fn visit(&self, u: usize, s: &mut Search) -> (r: Option<Vec<usize>>)
        requires
            self.well_formed(),
            self.search_ok(*old(s)),
            u < self.node_count(),
            old(s).color@[u as int] == 0,
            old(s).path@.len() > 0 ==> self.has_edge(old(s).path@.last() as int, u as int),
        ensures
            match r {
                Some(c) => self.index_cycle(c@),
                None => {
                    &&& self.search_ok(*final(s))
                    &&& final(s).color@.len() == self.node_count()
                    &&& forall|v: int| 0 <= v < self.node_count() ==> #[trigger] final(s).color@[v] <= 2
                    &&& final(s).color@[u as int] == 2
                    &&& final(s).path@ == old(s).path@
                    &&& forall|v: int|
                        0 <= v < self.node_count() && old(s).color@[v] != 0 ==> #[trigger] final(s).color@[v]
                            == old(s).color@[v]
                    &&& forall|v: int|
                        0 <= v < self.node_count() && old(s).color@[v] == 2 ==> #[trigger] final(s).fin@[v]
                            == old(s).fin@[v]
                },
            },
        decreases unvisited(old(s).color@),
    {
        let ghost s0 = *s;
        let n = self.ids.len();
        reveal(WaitForGraph::search_ok);
        s.color.set(u, 1);
        s.path.push(u);
        assert(!s0.path@.contains(u)) by {
            if s0.path@.contains(u) {
                let q = choose|q: int| 0 <= q < s0.path@.len() && s0.path@[q] == u;
                assert(s0.color@[s0.path@[q] as int] == 1);
            }
        }
        assert forall|v: int| 0 <= v < n && #[trigger] s.color@[v] == 1 implies s.path@.contains(v as usize) by {
            if v != u as int {
                assert(s0.color@[v] == 1);
                assert(s0.path@.contains(v as usize));
                let q = choose|q: int| 0 <= q < s0.path@.len() && s0.path@[q] == v as usize;
                assert(s.path@[q] == v as usize);
            } else {
                assert(s.path@[s0.path@.len() as int] == u);
            }
        }
        assert forall|i: int| 0 <= i < s.path@.len() - 1 implies self.has_edge(
            #[trigger] s.path@[i] as int,
            s.path@[i + 1] as int,
        ) by {
            if i < s0.path@.len() - 1 {
                assert(self.has_edge(s0.path@[i] as int, s0.path@[i + 1] as int));
            }
        }
        let mut k: usize = 0;
        while k < self.succ[u].len()
            invariant
                self.well_formed(),
                n == self.node_count(),
                u < n,
                self.search_ok(*s),
                s.color@.len() == n,
                forall|v: int| 0 <= v < n ==> #[trigger] s.color@[v] <= 2,
                s.path@ == s0.path@.push(u),
                *old(s) == s0,
                s.color@[u as int] == 1,
                s0.color@.len() == n,
                s0.color@[u as int] == 0,
                k <= self.succ@[u as int]@.len(),
                forall|j: int| 0 <= j < k ==> #[trigger] s.color@[self.succ@[u as int]@[j] as int] == 2,
                forall|v: int| 0 <= v < n && s0.color@[v] != 0 ==> #[trigger] s.color@[v] == s0.color@[v],
                forall|v: int| 0 <= v < n && #[trigger] s.color@[v] == 0 ==> s0.color@[v] == 0,
                forall|v: int| 0 <= v < n && s0.color@[v] == 2 ==> #[trigger] s.fin@[v] == s0.fin@[v],
            decreases self.succ@[u as int]@.len() - k,
        {
            let v = self.succ[u][k];
            assert(self.succ@[u as int]@.contains(v));
            assert(self.has_edge(u as int, v as int));
            if s.color[v] == 1 {
                return Some(self.cycle_from(s, v));
            } else if s.color[v] == 0 {
                proof {
                    lemma_unvisited_shrinks(s0.color@, s.color@, u as int);
                    assert(unvisited(s.color@) < unvisited(s0.color@));
                }

                let ghost before = *s;
                match self.visit(v, s) {
                    Some(c) => {
                        return Some(c);
                    },
                    None => {
                        assert forall|v2: int| 0 <= v2 < n && #[trigger] s.color@[v2] == 0 implies s0.color@[v2] == 0 by {
                            if before.color@[v2] != 0 {
                                assert(s.color@[v2] == before.color@[v2]);
                            }
                        }
                    },
                }
            }
            k = k + 1;
        }
        let ghost s2 = *s;
        reveal(WaitForGraph::search_ok);
        s.color.set(u, 2);
        s.fin = Ghost(s.fin@.update(u as int, s.tick@));
        s.tick = Ghost(s.tick@ + 1);
        s.path.pop();
        assert(s.path@ == s0.path@);
        assert forall|x: int, y: int|
            0 <= x < n && s.color@[x] == 2 && #[trigger] self.has_edge(x, y) implies s.color@[y] == 2 && s.fin@[y]
                < s.fin@[x] by {
            if x == u as int {
                let j = choose|j: int| 0 <= j < self.succ@[x]@.len() && self.succ@[x]@[j] == y as usize;
                assert(s2.color@[self.succ@[u as int]@[j] as int] == 2);
            } else {
                assert(s2.color@[x] == 2);
                assert(s2.color@[y] == 2);
            }
        }
        assert forall|v: int| 0 <= v < n && #[trigger] s.color@[v] == 1 implies s.path@.contains(v as usize) by {
            assert(s2.color@[v] == 1);
            assert(s2.path@.contains(v as usize));
            let q = choose|q: int| 0 <= q < s2.path@.len() && s2.path@[q] == v as usize;
            if q == s0.path@.len() {
                assert(v == u as int);
            } else {
                assert(s.path@[q] == v as usize);
            }
        }
        assert forall|i: int| 0 <= i < s.path@.len() implies (#[trigger] s.path@[i]) < n && s.color@[s.path@[i] as int] == 1 by {
            assert(s2.path@[i] == s.path@[i]);
            assert(s.path@[i] != u) by {
                assert(!s0.path@.contains(u)) by {
                    if s0.path@.contains(u) {
                        let q = choose|q: int| 0 <= q < s0.path@.len() && s0.path@[q] == u;
                        assert(s0.color@[s0.path@[q] as int] == 1);
                    }
                }
            }
        }
        None
    }

    /// The node ids at the positions `c`.
    fn ids_at(&self, c: &Vec<usize>) -> (r: Vec<u128>)
        requires
            self.well_formed(),
            forall|i: int| 0 <= i < c@.len() ==> #[trigger] c@[i] < self.node_count(),
        ensures
            r@.len() == c@.len(),
            forall|i: int| 0 <= i < c@.len() ==> #[trigger] r@[i] == self.ids@[c@[i] as int],
    {
        let mut r: Vec<u128> = Vec::new();
        let mut i: usize = 0;
        while i < c.len()
            invariant
                self.well_formed(),
                forall|q: int| 0 <= q < c@.len() ==> #[trigger] c@[q] < self.node_count(),
                i <= c@.len(),
                r@.len() == i,
                forall|q: int| 0 <= q < i ==> #[trigger] r@[q] == self.ids@[c@[q] as int],
            decreases c@.len() - i,
        {
            r.push(self.ids[c[i]]);
            i = i + 1;
        }
        r
    }

    /// A directed cycle of the graph, as node ids in the order of its edges, without repeated
    /// nodes; `None` iff the graph has no cycle. The search runs depth-first from each node in
    /// turn, in the order in which the nodes appeared.
    pub fn find_cycle_path(&self) -> (r: Option<Vec<u128>>)
        requires
            self.well_formed(),
        ensures
            match r {
                Some(c) => is_cycle(self.edges(), c@) && c@.no_duplicates(),
                None => !has_cycle(self.edges()),
            },
    {
        reveal(WaitForGraph::search_ok);
        let n = self.ids.len();
        let mut color: Vec<u8> = Vec::new();
        let mut i: usize = 0;
        while i < n
            invariant
                i <= n,
                color@.len() == i,
                forall|q: int| 0 <= q < i ==> #[trigger] color@[q] == 0,
            decreases n - i,
        {
            color.push(0);
            i = i + 1;
        }
        let mut s = Search {
            color,
            path: Vec::new(),
            fin: Ghost(Seq::new(n as nat, |q: int| 0int)),
            tick: Ghost(0int),
        };
        let mut i: usize = 0;
        while i < n
            invariant
                self.well_formed(),
                n == self.node_count(),
                i <= n,
                self.search_ok(s),
                s.color@.len() == n,
                s.path@.len() == 0,
                forall|q: int| 0 <= q < i ==> #[trigger] s.color@[q] == 2,
            decreases n - i,
        {
            if s.color[i] == 0 {
                let ghost before = s;
                match self.visit(i, &mut s) {
                    Some(c) => {
                        let ids = self.ids_at(&c);
                        proof {
                            let e = self.edges();
                            assert forall|q: int| 0 <= q < ids@.len() - 1 implies #[trigger] e.contains((ids@[q], ids@[q + 1])) by {
                                assert(self.has_edge(c@[q] as int, c@[q + 1] as int));
                            }
                            assert(self.has_edge(c@.last() as int, c@[0] as int));
                            assert(e.contains((ids@.last(), ids@[0])));
                            assert forall|a: int, b: int| 0 <= a < ids@.len() && 0 <= b < ids@.len() && a != b implies ids@[a] != ids@[b] by {
                                assert(c@[a] != c@[b]);
                            }
                        }
                        return Some(ids);
                    },
                    None => {
                        assert forall|q: int| 0 <= q < i implies #[trigger] s.color@[q] == 2 by {
                            assert(before.color@[q] == 2);
                        }
                    },
                }
            } else {
                assert(s.color@[i as int] == 2) by {
                    reveal(WaitForGraph::search_ok);
                    if s.color@[i as int] == 1 {
                        assert(s.path@.contains(i));
                    }
                }
            }
            i = i + 1;
        }
        proof {
            let fin = s.fin@;
            let ids = self.ids@;
            let rank = |x: u128| fin[choose|q: int| 0 <= q < ids.len() && ids[q] == x];
            let e = self.edges();
            assert forall|a: u128, b: u128| #[trigger] e.contains((a, b)) implies rank(b) < rank(a) by {
                let (p, q) = choose|p: int, q: int|
                    0 <= p < self.node_count() && 0 <= q < self.node_count() && #[trigger] self.has_edge(p, q)
                        && (a, b) == (self.ids@[p], self.ids@[q]);
                let p1 = choose|p1: int| 0 <= p1 < ids.len() && ids[p1] == a;
                let q1 = choose|q1: int| 0 <= q1 < ids.len() && ids[q1] == b;
                assert(p1 == p && q1 == q);
                assert(s.color@[p] == 2);
            }
            lemma_ranked_acyclic(e, rank);
        }
        None
    }

    /// Whether the graph holds a directed cycle, that is, a deadlock.
    pub fn detect_cycle(&self) -> (r: bool)
        requires
            self.well_formed(),
        ensures
            r == has_cycle(self.edges()),
    {
        match self.find_cycle_path() {
            Some(c) => {
                assert(is_cycle(self.edges(), c@));
                true
            },
            None => false,
        }
    }

    /// Whether `from` waits on `to`.
    pub fn has_wait(&self, from: u128, to: u128) -> (r: bool)
        requires
            self.well_formed(),
        ensures
            r == self.edges().contains((from, to)),
    {
        let oi = self.index_of(from);
        let oj = self.index_of(to);
        proof {
            if self.edges().contains((from, to)) {
                let (a, b) = choose|a: int, b: int|
                    0 <= a < self.node_count() && 0 <= b < self.node_count() && #[trigger] self.has_edge(a, b)
                        && (from, to) == (self.ids@[a], self.ids@[b]);
                assert(self.ids@.contains(from) && self.ids@.contains(to));
                if oi is Some && oj is Some {
                    assert(a == oi->Some_0 as int && b == oj->Some_0 as int);
                }
            }
        }
        match (oi, oj) {
            (Some(i), Some(j)) => match self.edge_position(i, j) {
                Some(_) => {
                    assert(self.has_edge(i as int, j as int));
                    true
                },
                None => false,
            },
            _ => false,
        }
    }
}

} // verus!
