//! The record-supersession graph and its cycle check.

use vstd::prelude::*;

use crate::claim::copy_strings;
use crate::order::views;
use crate::text::{str_order, Rank};

verus! {

/// A directed graph from record identifiers to the identifiers they supersede.
pub struct SupersessionGraph {
    entries: Vec<(String, Vec<String>)>,
}

/// The map that a list of distinct-key entries denotes.
pub open spec fn entries_map(es: Seq<(String, Vec<String>)>) -> Map<Seq<char>, Seq<Seq<char>>>
    decreases es.len(),
{
    if es.len() == 0 {
        Map::empty()
    } else {
        entries_map(es.drop_last()).insert(es.last().0@, views(es.last().1@))
    }
}

/// No two entries share a key.
pub open spec fn keys_distinct(es: Seq<(String, Vec<String>)>) -> bool {
    forall|i: int, j: int| 0 <= i < j < es.len() ==> es[i].0@ != es[j].0@
}

/// Every key and target that the entries mention, entry after entry.
pub open spec fn entry_nodes(es: Seq<(String, Vec<String>)>) -> Seq<Seq<char>>
    decreases es.len(),
{
    if es.len() == 0 {
        Seq::empty()
    } else {
        entry_nodes(es.drop_last()).push(es.last().0@) + views(es.last().1@)
    }
}

/// An edge from `a` to `b`.
pub open spec fn has_edge(g: Map<Seq<char>, Seq<Seq<char>>>, a: Seq<char>, b: Seq<char>) -> bool {
    g.dom().contains(a) && g[a].contains(b)
}

/// Consecutive nodes of `p` are joined by edges.
pub open spec fn is_walk(g: Map<Seq<char>, Seq<Seq<char>>>, p: Seq<Seq<char>>) -> bool {
    forall|i: int| 0 <= i < p.len() - 1 ==> has_edge(g, #[trigger] p[i], p[i + 1])
}

/// Some non-empty walk returns to where it started.
pub open spec fn has_cycle(g: Map<Seq<char>, Seq<Seq<char>>>) -> bool {
    exists|p: Seq<Seq<char>>| p.len() >= 2 && is_walk(g, p) && p[0] == p.last()
}

impl View for SupersessionGraph {
    type V = Map<Seq<char>, Seq<Seq<char>>>;

    closed spec fn view(&self) -> Map<Seq<char>, Seq<Seq<char>>> {
        entries_map(self.entries@)
    }
}

/// A distinct-key entry list maps each key to its own targets, and nothing else.
proof fn lemma_entries_map(es: Seq<(String, Vec<String>)>)
    requires
        keys_distinct(es),
    ensures
        forall|i: int|
            0 <= i < es.len() ==> #[trigger] entries_map(es).dom().contains(es[i].0@)
                && entries_map(es)[es[i].0@] == views(es[i].1@),
        forall|k: Seq<char>|
            #[trigger] entries_map(es).dom().contains(k) ==> exists|i: int|
                0 <= i < es.len() && es[i].0@ == k,
    decreases es.len(),
{
    if es.len() > 0 {
        let rest = es.drop_last();
        let n = es.len() - 1;
        assert(keys_distinct(rest)) by {
            assert forall|i: int, j: int| 0 <= i < j < rest.len() implies rest[i].0@ != rest[j].0@ by {
                assert(rest[i] == es[i]);
                assert(rest[j] == es[j]);
            }
        }
        lemma_entries_map(rest);
        let m = entries_map(es);
        assert(m == entries_map(rest).insert(es[n].0@, views(es[n].1@)));
        assert forall|i: int| 0 <= i < es.len() implies #[trigger] m.dom().contains(es[i].0@)
            && m[es[i].0@] == views(es[i].1@) by {
            if i < n {
                assert(rest[i] == es[i]);
                assert(entries_map(rest).dom().contains(rest[i].0@));
                assert(es[i].0@ != es[n].0@);
            }
        }
        assert forall|k: Seq<char>| #[trigger] m.dom().contains(k) implies exists|i: int|
            0 <= i < es.len() && es[i].0@ == k by {
            if k != es[n].0@ {
                assert(entries_map(rest).dom().contains(k));
                let i = choose|i: int| 0 <= i < rest.len() && rest[i].0@ == k;
                assert(rest[i] == es[i]);
                assert(0 <= i < es.len() && es[i].0@ == k);
            } else {
                assert(0 <= n < es.len() && es[n].0@ == k);
            }
        }
    }
}

/// Every key and target of the entries is among their nodes.
proof fn lemma_entry_nodes(es: Seq<(String, Vec<String>)>)
    ensures
        forall|i: int| 0 <= i < es.len() ==> #[trigger] entry_nodes(es).contains(es[i].0@),
        forall|i: int, j: int|
            0 <= i < es.len() && 0 <= j < es[i].1@.len() ==> #[trigger] entry_nodes(es).contains(
                es[i].1@[j]@,
            ),
    decreases es.len(),
{
    if es.len() > 0 {
        let rest = es.drop_last();
        lemma_entry_nodes(rest);
        let n = es.len() - 1;
        let front = entry_nodes(rest);
        let prefix = front.push(es[n].0@);
        let all = entry_nodes(es);
        assert(all == prefix + views(es[n].1@));
        assert forall|i: int| 0 <= i < es.len() implies #[trigger] all.contains(es[i].0@) by {
            if i < n {
                assert(rest[i] == es[i]);
                assert(front.contains(rest[i].0@));
                let k = choose|k: int| 0 <= k < front.len() && front[k] == es[i].0@;
                assert(all[k] == prefix[k]);
                assert(all[k] == es[i].0@);
            } else {
                assert(all[front.len() as int] == es[i].0@);
            }
        }
        assert forall|i: int, j: int| 0 <= i < es.len() && 0 <= j < es[i].1@.len() implies #[trigger] all.contains(
            es[i].1@[j]@,
        ) by {
            if i < n {
                assert(rest[i] == es[i]);
                assert(front.contains(rest[i].1@[j]@));
                let k = choose|k: int| 0 <= k < front.len() && front[k] == es[i].1@[j]@;
                assert(all[k] == prefix[k]);
                assert(all[k] == es[i].1@[j]@);
            } else {
                assert(all[prefix.len() + j] == views(es[n].1@)[j]);
            }
        }
    }
}

/// Removing the entry at `p` and appending one with the same key replaces
/// that key's targets.
proof fn lemma_replace_entry(before: Seq<(String, Vec<String>)>, p: int, es: Seq<(String, Vec<String>)>)
    requires
        keys_distinct(before),
        0 <= p < before.len(),
        es.len() == before.len(),
        es.drop_last() == before.remove(p),
        es.last().0@ == before[p].0@,
    ensures
        keys_distinct(es),
        entries_map(es) == entries_map(before).insert(es.last().0@, views(es.last().1@)),
{
    let key = before[p].0@;
    let n = es.len() - 1;
    assert forall|i: int| 0 <= i < n implies #[trigger] es[i] == before[if i < p { i } else { i + 1 }] by {
        assert(es[i] == es.drop_last()[i]);
    }
    assert(keys_distinct(es)) by {
        assert forall|a: int, b: int| 0 <= a < b < es.len() implies es[a].0@ != es[b].0@ by {
            let a0 = if a < p { a } else { a + 1 };
            assert(es[a] == before[a0]);
            if b < n {
                let b0 = if b < p { b } else { b + 1 };
                assert(es[b] == before[b0]);
            } else {
                assert(a0 != p);
            }
        }
    }
    lemma_entries_map(es);
    lemma_entries_map(before);
    let m = entries_map(es);
    let want = entries_map(before).insert(key, views(es.last().1@));
    assert forall|k: Seq<char>| #[trigger] m.dom().contains(k) <==> want.dom().contains(k) by {
        if m.dom().contains(k) {
            let i = choose|i: int| 0 <= i < es.len() && es[i].0@ == k;
            if i < n {
                let i0 = if i < p { i } else { i + 1 };
                assert(es[i] == before[i0]);
                assert(entries_map(before).dom().contains(before[i0].0@));
            }
        }
        if want.dom().contains(k) && k != key {
            assert(entries_map(before).dom().contains(k));
            let i = choose|i: int| 0 <= i < before.len() && before[i].0@ == k;
            assert(i != p);
            let i1 = if i < p { i } else { i - 1 };
            assert(es[i1] == before[i]);
            assert(m.dom().contains(es[i1].0@));
        }
        if k == key {
            assert(m.dom().contains(es[n].0@));
        }
    }
    assert forall|k: Seq<char>| #[trigger] m.dom().contains(k) implies m[k] == want[k] by {
        let i = choose|i: int| 0 <= i < es.len() && es[i].0@ == k;
        assert(m.dom().contains(es[i].0@));
        if i < n {
            let i0 = if i < p { i } else { i + 1 };
            assert(es[i] == before[i0]);
            assert(entries_map(before).dom().contains(before[i0].0@));
        }
    }
    assert(m =~= want);
}

/// The position of the entry keyed by `node`, if any.
fn find_key(entries: &Vec<(String, Vec<String>)>, node: &str) -> (r: Option<usize>)
    ensures
        match r {
            Some(i) => i < entries@.len() && entries@[i as int].0@ == node@,
            None => forall|i: int| 0 <= i < entries@.len() ==> entries@[i].0@ != node@,
        },
{
    let n = entries.len();
    let mut i: usize = 0;
    while i < n
        invariant
            n == entries@.len(),
            i <= n,
            forall|k: int| 0 <= k < i ==> entries@[k].0@ != node@,
        decreases n - i,
    {
        if str_order(entries[i].0.as_str(), node) == Rank::Same {
            return Some(i);
        }
        i += 1;
    }
    None
}


/// Nodes finished by the search: each has a rank below `next`, and every edge
/// out of a finished node leads to a finished node of smaller rank.
pub open spec fn finished_ok(
    g: Map<Seq<char>, Seq<Seq<char>>>,
    done: Seq<Seq<char>>,
    rank: Map<Seq<char>, nat>,
    next: nat,
) -> bool {
    &&& forall|u: Seq<char>| #[trigger] done.contains(u) ==> rank.dom().contains(u) && rank[u] < next
    &&& forall|u: Seq<char>, v: Seq<char>|
        #![trigger done.contains(u), has_edge(g, u, v)]
        done.contains(u) && has_edge(g, u, v) ==> done.contains(v) && rank[v] < rank[u]
}

/// Along a walk from a finished node, ranks strictly decrease.
proof fn lemma_rank_descends(
    g: Map<Seq<char>, Seq<Seq<char>>>,
    done: Seq<Seq<char>>,
    rank: Map<Seq<char>, nat>,
    next: nat,
    p: Seq<Seq<char>>,
    j: int,
)
    requires
        finished_ok(g, done, rank, next),
        is_walk(g, p),
        0 <= j < p.len(),
        done.contains(p[0]),
    ensures
        done.contains(p[j]),
        rank[p[j]] + j <= rank[p[0]],
    decreases j,
{
    if j > 0 {
        lemma_rank_descends(g, done, rank, next, p, j - 1);
        assert(has_edge(g, p[j - 1], p[j]));
    }
}

/// When every node with an edge out of it is finished, there is no cycle.
proof fn lemma_no_cycle(
    g: Map<Seq<char>, Seq<Seq<char>>>,
    done: Seq<Seq<char>>,
    rank: Map<Seq<char>, nat>,
    next: nat,
)
    requires
        finished_ok(g, done, rank, next),
        forall|k: Seq<char>| #[trigger] g.dom().contains(k) ==> done.contains(k),
    ensures
        !has_cycle(g),
{
    if has_cycle(g) {
        let p = choose|p: Seq<Seq<char>>| p.len() >= 2 && is_walk(g, p) && p[0] == p.last();
        assert(has_edge(g, p[0], p[1]));
        lemma_rank_descends(g, done, rank, next, p, p.len() - 1);
    }
}

/// Finishing a node whose successors are all finished keeps the ranking good.
proof fn lemma_finish(
    g: Map<Seq<char>, Seq<Seq<char>>>,
    done: Seq<Seq<char>>,
    rank: Map<Seq<char>, nat>,
    next: nat,
    node: Seq<char>,
)
    requires
        finished_ok(g, done, rank, next),
        !done.contains(node),
        forall|k: int|
            0 <= k < g[node].len() && g.dom().contains(node) ==> #[trigger] done.contains(g[node][k]),
    ensures
        finished_ok(g, done.push(node), rank.insert(node, next), next + 1),
{
    broadcast use vstd::seq_lib::lemma_seq_contains_after_push;

    let d2 = done.push(node);
    let r2 = rank.insert(node, next);
    assert forall|u: Seq<char>, v: Seq<char>|
        #![trigger d2.contains(u), has_edge(g, u, v)]
        d2.contains(u) && has_edge(g, u, v) implies d2.contains(v) && r2[v] < r2[u] by {
        if u == node {
            let k = choose|k: int| 0 <= k < g[node].len() && g[node][k] == v;
            assert(done.contains(g[node][k]));
        } else {
            assert(done.contains(u));
        }
    }
}

/// A no-duplicate sequence drawn from `t` is no longer than `t`.
proof fn lemma_distinct_bound(s: Seq<Seq<char>>, t: Seq<Seq<char>>)
    requires
        s.no_duplicates(),
        forall|i: int| 0 <= i < s.len() ==> t.contains(#[trigger] s[i]),
    ensures
        s.len() <= t.len(),
{
    s.unique_seq_to_set();
    t.lemma_cardinality_of_set();
    assert(s.to_set().subset_of(t.to_set())) by {
        assert forall|x: Seq<char>| s.to_set().contains(x) implies t.to_set().contains(x) by {
            let i = choose|i: int| 0 <= i < s.len() && s[i] == x;
        }
    }
    vstd::set_lib::lemma_len_subset(s.to_set(), t.to_set());
}

impl SupersessionGraph {
    #[verifier::type_invariant]
    spec fn distinct(self) -> bool {
        keys_distinct(self.entries@)
    }

    /// An empty graph.
    pub fn new() -> (g: SupersessionGraph)
        ensures
            g@ == Map::<Seq<char>, Seq<Seq<char>>>::empty(),
    {
        SupersessionGraph { entries: Vec::new() }
    }

    /// Map `node` to `targets`, replacing what it mapped to before.
    pub fn insert(&mut self, node: String, targets: Vec<String>)
        ensures
            final(self)@ == old(self)@.insert(node@, views(targets@)),
    {
        proof {
            use_type_invariant(&*self);
            lemma_entries_map(self.entries@);
        }
        let ghost old_map = self@;
        let ghost key = node@;
        let ghost val = views(targets@);
        let mut entries: Vec<(String, Vec<String>)> = Vec::new();
        std::mem::swap(&mut entries, &mut self.entries);
        let ghost before = entries@;
        assert(old_map == entries_map(before));
        match find_key(&entries, node.as_str()) {
            Some(p) => {
                entries.remove(p);
                let ghost removed = entries@;
                entries.push((node, targets));
                proof {
                    assert(entries@.drop_last() =~= removed);
                    lemma_replace_entry(before, p as int, entries@);
                }
            },
            None => {
                entries.push((node, targets));
                proof {
                    let es = entries@;
                    assert(es.drop_last() =~= before);
                    assert(keys_distinct(es)) by {
                        assert forall|a: int, b: int| 0 <= a < b < es.len() implies es[a].0@ != es[b].0@ by {
                            assert(es[a] == before[a]);
                            if b < es.len() - 1 {
                                assert(es[b] == before[b]);
                            }
                        }
                    }
                }
            },
        }
        self.entries = entries;
    }

    /// Remove every node.
    pub fn clear(&mut self)
        ensures
            final(self)@ == Map::<Seq<char>, Seq<Seq<char>>>::empty(),
    {
        self.entries = Vec::new();
    }

    /// The targets of `node`, if it is in the graph.
    pub fn targets(&self, node: &str) -> (r: Option<Vec<String>>)
        ensures
            match r {
                Some(t) => self@.dom().contains(node@) && views(t@) == self@[node@],
                None => !self@.dom().contains(node@),
            },
    {
        proof {
            use_type_invariant(self);
            lemma_entries_map(self.entries@);
        }
        match find_key(&self.entries, node) {
            Some(i) => {
                let t = copy_strings(&self.entries[i].1);
                proof {
                    assert(entries_map(self.entries@).dom().contains(self.entries@[i as int].0@));
                }
                Some(t)
            },
            None => {
                proof {
                    if self@.dom().contains(node@) {
                        let i = choose|i: int| 0 <= i < self.entries@.len() && self.entries@[i].0@ == node@;
                    }
                }
                None
            },
        }
    }

    /// The number of nodes with an entry.
    pub fn len(&self) -> (r: usize)
        ensures
            r == self@.dom().len(),
    {
        proof {
            use_type_invariant(self);
            lemma_entries_map_len(self.entries@);
        }
        self.entries.len()
    }
}

proof fn lemma_entries_map_len(es: Seq<(String, Vec<String>)>)
    requires
        keys_distinct(es),
    ensures
        entries_map(es).dom().finite(),
        entries_map(es).dom().len() == es.len(),
    decreases es.len(),
{
    if es.len() > 0 {
        let rest = es.drop_last();
        lemma_entries_map_len(rest);
        lemma_entries_map(rest);
        let n = es.len() - 1;
        if entries_map(rest).dom().contains(es[n].0@) {
            let i = choose|i: int| 0 <= i < rest.len() && rest[i].0@ == es[n].0@;
            assert(es[i] == rest[i]);
        }
    }
}

fn contains_node(list: &Vec<String>, node: &str) -> (r: bool)
    ensures
        r == views(list@).contains(node@),
{
    crate::claim::contains_str(list, node)
}

/// Depth-first search from `node`. `visiting` is the path from the search
/// root to `node`'s parent; `visited` holds the finished nodes, ranked so that
/// edges out of finished nodes lead down in rank.
fn visit(
    node: &String,
    graph: &SupersessionGraph,
    visiting: &mut Vec<String>,
    visited: &mut Vec<String>,
    Ghost(nodes): Ghost<Seq<Seq<char>>>,
    Ghost(rank): Ghost<Map<Seq<char>, nat>>,
    Ghost(next): Ghost<nat>,
) -> (r: (bool, Ghost<Map<Seq<char>, nat>>, Ghost<nat>))
    requires
        forall|k: Seq<char>| #[trigger] graph@.dom().contains(k) ==> nodes.contains(k),
        forall|k: Seq<char>, t: Seq<char>| #[trigger] has_edge(graph@, k, t) ==> nodes.contains(t),
        nodes.contains(node@),
        views(old(visiting)@).no_duplicates(),
        forall|i: int| 0 <= i < old(visiting)@.len() ==> nodes.contains(#[trigger] views(old(visiting)@)[i]),
        is_walk(graph@, views(old(visiting)@)),
        old(visiting)@.len() > 0 ==> has_edge(graph@, views(old(visiting)@).last(), node@),
        finished_ok(graph@, views(old(visited)@), rank, next),
    ensures
        r.0 ==> has_cycle(graph@),
        !r.0 ==> {
            &&& views(final(visiting)@) == views(old(visiting)@)
            &&& views(final(visited)@).contains(node@)
            &&& forall|x: Seq<char>| #[trigger] views(old(visited)@).contains(x) ==> views(final(visited)@).contains(x)
            &&& forall|x: Seq<char>| #[trigger] views(final(visited)@).contains(x) ==> views(old(visited)@).contains(x)
                || !views(old(visiting)@).contains(x)
            &&& finished_ok(graph@, views(final(visited)@), r.1@, r.2@)
        },
    decreases nodes.len() - old(visiting)@.len(),
{
    let ghost stack = views(visiting@);
    if contains_node(visiting, node.as_str()) {
        proof {
            let j = choose|j: int| 0 <= j < stack.len() && stack[j] == node@;
            let p = stack.subrange(j, stack.len() as int).push(node@);
            assert(p[0] == node@);
            assert(p.last() == node@);
            assert(p.len() >= 2);
            assert(is_walk(graph@, p)) by {
                assert forall|i: int| 0 <= i < p.len() - 1 implies has_edge(graph@, #[trigger] p[i], p[i + 1]) by {
                    if i < p.len() - 2 {
                        assert(p[i] == stack[j + i]);
                        assert(p[i + 1] == stack[j + i + 1]);
                    } else {
                        assert(p[i] == stack.last());
                    }
                }
            }
            assert(p.len() >= 2 && is_walk(graph@, p) && p[0] == p.last());
        }
        return (true, Ghost(rank), Ghost(next));
    }
    if contains_node(visited, node.as_str()) {
        return (false, Ghost(rank), Ghost(next));
    }
    proof {
        assert forall|i: int| 0 <= i < stack.push(node@).len() implies nodes.contains(#[trigger] stack.push(node@)[i]) by {
            if i < stack.len() {
                assert(stack.push(node@)[i] == stack[i]);
            }
        }
        lemma_distinct_bound(stack.push(node@), nodes);
    }
    visiting.push(node.clone());
    let ghost pushed = views(visiting@);
    proof {
        assert(pushed =~= stack.push(node@));
        assert(is_walk(graph@, pushed)) by {
            assert forall|i: int| 0 <= i < pushed.len() - 1 implies has_edge(graph@, #[trigger] pushed[i], pushed[i + 1]) by {
                if i < pushed.len() - 2 {
                    assert(pushed[i] == stack[i]);
                    assert(pushed[i + 1] == stack[i + 1]);
                }
            }
        }
        assert forall|k: int| 0 <= k < pushed.len() implies nodes.contains(#[trigger] pushed[k]) by {
            if k < stack.len() {
                assert(pushed[k] == stack[k]);
            }
        }
    }
    let mut rank_now = Ghost(rank);
    let mut next_now = Ghost(next);
    let ghost visited0 = views(visited@);
    let children = graph.targets(node.as_str());
    let targets: Vec<String> = match children {
        Some(t) => t,
        None => Vec::new(),
    };
    let n = targets.len();
    let mut i: usize = 0;
    while i < n
        invariant
            n == targets@.len(),
            children is Some ==> graph@.dom().contains(node@) && views(targets@) == graph@[node@],
            children is None ==> !graph@.dom().contains(node@) && targets@.len() == 0,
            i <= n,
            forall|k: Seq<char>| #[trigger] graph@.dom().contains(k) ==> nodes.contains(k),
            forall|k: Seq<char>, t: Seq<char>| #[trigger] has_edge(graph@, k, t) ==> nodes.contains(t),
            views(visiting@) == pushed,
            pushed == stack.push(node@),
            pushed.no_duplicates(),
            forall|k: int| 0 <= k < pushed.len() ==> nodes.contains(#[trigger] pushed[k]),
            pushed.len() <= nodes.len(),
            stack.len() == old(visiting)@.len(),
            stack == views(old(visiting)@),
            is_walk(graph@, pushed),
            finished_ok(graph@, views(visited@), rank_now@, next_now@),
            forall|k: int| 0 <= k < i ==> views(visited@).contains(#[trigger] views(targets@)[k]),
            forall|x: Seq<char>| #[trigger] visited0.contains(x) ==> views(visited@).contains(x),
            forall|x: Seq<char>| #[trigger] views(visited@).contains(x) ==> visited0.contains(x) || !pushed.contains(x),
            visited0 == views(old(visited)@),
            !visited0.contains(node@),
        decreases n - i,
    {
        let child = &targets[i];
        proof {
            assert(views(targets@)[i as int] == child@);
            assert(has_edge(graph@, node@, child@));
            assert(pushed.last() == node@);
        }
        let (found, r2, n2) = visit(
            child,
            graph,
            visiting,
            visited,
            Ghost(nodes),
            rank_now,
            next_now,
        );
        if found {
            return (true, r2, n2);
        }
        rank_now = r2;
        next_now = n2;
        i += 1;
    }
    proof {
        assert(pushed.contains(node@)) by {
            assert(pushed[pushed.len() - 1] == node@);
        }
    }
    let ghost done = views(visited@);
    let ghost new_rank = rank_now@.insert(node@, next_now@);
    let ghost new_next = next_now@ + 1;
    let ghost vb = visiting@;
    let ghost db = visited@;
    visited.push(node.clone());
    let _ = visiting.pop();
    proof {
        broadcast use vstd::seq_lib::lemma_seq_contains_after_push;

        let d2 = views(visited@);
        assert(vb.len() == pushed.len());
        assert(visiting@ == vb.subrange(0, vb.len() - 1));
        assert forall|k: int| 0 <= k < stack.len() implies views(visiting@)[k] == stack[k] by {
            assert(views(vb)[k] == vb[k]@);
            assert(pushed[k] == stack[k]);
        }
        assert(views(visiting@) =~= stack);
        assert(d2 =~= done.push(node@));
        assert(!done.contains(node@));
        assert forall|k: int| 0 <= k < graph@[node@].len() && graph@.dom().contains(node@)
            implies #[trigger] done.contains(graph@[node@][k]) by {
            assert(views(targets@)[k] == graph@[node@][k]);
        }
        lemma_finish(graph@, done, rank_now@, next_now@, node@);
        assert forall|x: Seq<char>| #[trigger] views(old(visited)@).contains(x) implies d2.contains(x) by {
            assert(done.contains(x));
        }
        assert forall|x: Seq<char>| #[trigger] d2.contains(x) implies views(old(visited)@).contains(x)
            || !views(old(visiting)@).contains(x) by {
            if x != node@ {
                assert(done.contains(x));
                if !visited0.contains(x) {
                    assert(!pushed.contains(x));
                    if stack.contains(x) {
                        let k = choose|k: int| 0 <= k < stack.len() && stack[k] == x;
                        assert(pushed[k] == x);
                    }
                }
            }
        }
    }
    (false, Ghost(new_rank), Ghost(new_next))
}

/// True when the supersession graph has a cycle.
pub fn has_supersession_cycle(graph: &SupersessionGraph) -> (r: bool)
    ensures
        r == has_cycle(graph@),
{
    proof {
        use_type_invariant(graph);
        lemma_entries_map(graph.entries@);
        lemma_entry_nodes(graph.entries@);
    }
    let ghost nodes = entry_nodes(graph.entries@);
    proof {
        assert forall|k: Seq<char>| #[trigger] graph@.dom().contains(k) implies nodes.contains(k) by {
            let i = choose|i: int| 0 <= i < graph.entries@.len() && graph.entries@[i].0@ == k;
        }
        assert forall|k: Seq<char>, t: Seq<char>| #[trigger] has_edge(graph@, k, t) implies nodes.contains(t) by {
            let i = choose|i: int| 0 <= i < graph.entries@.len() && graph.entries@[i].0@ == k;
            let j = choose|j: int| 0 <= j < graph@[k].len() && graph@[k][j] == t;
            assert(views(graph.entries@[i].1@)[j] == graph.entries@[i].1@[j]@);
        }
    }
    let mut visiting: Vec<String> = Vec::new();
    let mut visited: Vec<String> = Vec::new();
    let mut rank = Ghost(Map::<Seq<char>, nat>::empty());
    let mut next = Ghost(0nat);
    let n = graph.entries.len();
    let mut i: usize = 0;
    while i < n
        invariant
            n == graph.entries@.len(),
            keys_distinct(graph.entries@),
            i <= n,
            nodes == entry_nodes(graph.entries@),
            forall|k: Seq<char>| #[trigger] graph@.dom().contains(k) ==> nodes.contains(k),
            forall|k: Seq<char>, t: Seq<char>| #[trigger] has_edge(graph@, k, t) ==> nodes.contains(t),
            forall|j: int| 0 <= j < graph.entries@.len() ==> #[trigger] entry_nodes(graph.entries@).contains(graph.entries@[j].0@),
            visiting@.len() == 0,
            finished_ok(graph@, views(visited@), rank@, next@),
            forall|j: int| 0 <= j < i ==> views(visited@).contains(#[trigger] graph.entries@[j].0@),
        decreases n - i,
    {
        let key = &graph.entries[i].0;
        let (found, r2, n2) = visit(key, graph, &mut visiting, &mut visited, Ghost(nodes), rank, next);
        if found {
            return true;
        }
        rank = r2;
        next = n2;
        proof {
            assert(views(visiting@) =~= Seq::<Seq<char>>::empty());
        }
        i += 1;
    }
    proof {
        assert forall|k: Seq<char>| #[trigger] graph@.dom().contains(k) implies views(visited@).contains(k) by {
            let j = choose|j: int| 0 <= j < graph.entries@.len() && graph.entries@[j].0@ == k;
        }
        lemma_no_cycle(graph@, views(visited@), rank@, next@);
    }
    false
}

} // verus!
