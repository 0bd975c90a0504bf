//! Component registration: a composition graph (which component
//! definitions invoke which) is validated before any render. A cyclic or
//! undefined component reference is rejected with a composition error at
//! registration time, never discovered by infinite recursion at render
//! time; acceptance returns ranks that strictly decrease along every
//! edge, which precludes any cycle.

use vstd::prelude::*;
use vstd::pervasive::VecAdditionalExecFns;

verus! {

/// A cyclic or undefined component reference, detected at registration.
pub enum CompositionError {
    /// An edge points at a component index that is not defined.
    UndefinedReference { from: usize, to: usize },
    /// A set of components, each of which (in)directly invokes another
    /// member of the set, so none of them can ever be fully expanded.
    Cycle { members: Vec<usize> },
}

/// There is an edge from `u` to `v` in the adjacency list `g`.
pub open spec fn edge(g: Seq<Vec<usize>>, u: int, v: int) -> bool {
    &&& 0 <= u < g.len()
    &&& exists|j: int| 0 <= j < g[u]@.len() && g[u]@[j] == v
}

/// `p` is a closed walk in `g`: at least one step, ending where it
/// started, every step an edge.
pub open spec fn is_cycle(g: Seq<Vec<usize>>, p: Seq<usize>) -> bool {
    &&& p.len() >= 2
    &&& p[0] == p[p.len() - 1]
    &&& forall|i: int| 0 <= i < p.len() - 1 ==> edge(g, #[trigger] p[i] as int, p[i + 1] as int)
}

/// Ranks witness acyclicity: they strictly decrease along every edge.
pub open spec fn ranks_decrease(g: Seq<Vec<usize>>, ranks: Seq<usize>) -> bool {
    &&& ranks.len() == g.len()
    &&& forall|u: int, j: int|
        0 <= u < g.len() && 0 <= j < g[u]@.len() ==> (#[trigger] g[u]@[j]) < g.len()
            && ranks[g[u]@[j] as int] < ranks[u]
}

proof fn lemma_path_rank_drop(g: Seq<Vec<usize>>, ranks: Seq<usize>, p: Seq<usize>, i: int)
    requires
        ranks_decrease(g, ranks),
        0 <= i < p.len(),
        forall|k: int| 0 <= k < p.len() - 1 ==> edge(g, #[trigger] p[k] as int, p[k + 1] as int),
    ensures
        ranks[p[i] as int] + i <= ranks[p[0] as int],
    decreases i,
{
    if i > 0 {
        lemma_path_rank_drop(g, ranks, p, i - 1);
        assert(edge(g, p[i - 1] as int, p[i] as int));
        let u = p[i - 1] as int;
        let j = choose|j: int| 0 <= j < g[u]@.len() && g[u]@[j] == p[i] as int;
        assert(g[u]@[j] < g.len() && ranks[g[u]@[j] as int] < ranks[u]);
    }
}

/// No cycle can exist in a graph with edge-decreasing ranks: together
/// with the validator's acceptance contract, a composition graph in
/// which some component (in)directly invokes itself is always rejected.
pub proof fn lemma_acyclic_of_ranks(g: Seq<Vec<usize>>, ranks: Seq<usize>, p: Seq<usize>)
    requires
        ranks_decrease(g, ranks),
    ensures
        !is_cycle(g, p),
{
    if is_cycle(g, p) {
        let last = p.len() - 1;
        lemma_path_rank_drop(g, ranks, p, last);
        assert(edge(g, p[0] as int, p[1] as int));
        assert(ranks[p[last] as int] + last <= ranks[p[0] as int]);
    }
}

/// How many entries of a boolean sequence are set.
pub open spec fn count_true(s: Seq<bool>) -> nat
    decreases s,
{
    if s.len() == 0 {
        0
    } else {
        (if s[0] {
            1nat
        } else {
            0nat
        }) + count_true(s.drop_first())
    }
}

proof fn lemma_count_true_le(s: Seq<bool>)
    ensures
        count_true(s) <= s.len(),
    decreases s,
{
    if s.len() > 0 {
        lemma_count_true_le(s.drop_first());
    }
}

proof fn lemma_count_true_pos(s: Seq<bool>, i: int)
    requires
        0 <= i < s.len(),
        s[i],
    ensures
        count_true(s) >= 1,
    decreases s,
{
    if i > 0 {
        assert(s.drop_first()[i - 1] == s[i]);
        lemma_count_true_pos(s.drop_first(), i - 1);
    }
}

proof fn lemma_count_true_update(s: Seq<bool>, i: int)
    requires
        0 <= i < s.len(),
        !s[i],
    ensures
        count_true(s.update(i, true)) == count_true(s) + 1,
    decreases s,
{
    let t = s.update(i, true);
    if i == 0 {
        assert(t.drop_first() =~= s.drop_first());
    } else {
        assert(t.drop_first() =~= s.drop_first().update(i - 1, true));
        assert(s.drop_first()[i - 1] == s[i]);
        lemma_count_true_update(s.drop_first(), i - 1);
    }
}

/// Every edge of the graph points at a defined component.
pub open spec fn edges_ok(g: Seq<Vec<usize>>) -> bool {
    forall|u: int, j: int|
        0 <= u < g.len() && 0 <= j < g[u]@.len() ==> (#[trigger] g[u]@[j]) < g.len()
}

/// The ranking pass's state invariant: a ranked component has only
/// ranked invocees of strictly smaller rank, and every rank is below
/// the number of ranked components.
spec fn inv_ranked(g: Seq<Vec<usize>>, ranked: Seq<bool>, ranks: Seq<usize>) -> bool {
    &&& ranked.len() == g.len()
    &&& ranks.len() == g.len()
    &&& forall|u: int, j: int|
        0 <= u < g.len() && ranked[u] && 0 <= j < g[u]@.len() ==> ranked[
            #[trigger] g[u]@[j] as int
        ] && ranks[g[u]@[j] as int] < ranks[u]
    &&& forall|u: int|
        0 <= u < g.len() && #[trigger] ranked[u] ==> ranks[u] < count_true(ranked)
}

/// The pass reached a fixpoint: every unranked component still invokes
/// an unranked one.
spec fn stalled(g: Seq<Vec<usize>>, ranked: Seq<bool>) -> bool {
    forall|u: int|
        0 <= u < g.len() && !(#[trigger] ranked[u]) ==> exists|j: int|
            0 <= j < g[u]@.len() && !ranked[g[u]@[j] as int]
}

/// Tries to rank one unranked component: succeeds exactly when all its
/// invocees are already ranked, assigning a rank above theirs.
fn try_rank_node(adj: &Vec<Vec<usize>>, u: usize, ranked: &mut Vec<bool>, ranks: &mut Vec<usize>)
    -> (did: bool)
    requires
        edges_ok(adj@),
        u < adj@.len(),
        inv_ranked(adj@, old(ranked)@, old(ranks)@),
        !old(ranked)@[u as int],
    ensures
        inv_ranked(adj@, final(ranked)@, final(ranks)@),
        did ==> final(ranked)@ == old(ranked)@.update(u as int, true) && count_true(
            final(ranked)@,
        ) == count_true(old(ranked)@) + 1,
        !did ==> final(ranked)@ == old(ranked)@ && final(ranks)@ == old(ranks)@,
        !did ==> exists|j: int|
            0 <= j < adj@[u as int]@.len() && !old(ranked)@[adj@[u as int]@[j] as int],
{
    let n = adj.len();
    let deg = adj[u].len();
    let mut all_ranked = true;
    let mut maxr: usize = 0;
    let mut j: usize = 0;
    while j < deg
        invariant
            u < n,
            n == adj@.len(),
            edges_ok(adj@),
            inv_ranked(adj@, ranked@, ranks@),
            ranked@ == old(ranked)@,
            ranks@ == old(ranks)@,
            j <= deg,
            deg == adj@[u as int]@.len(),
            all_ranked ==> forall|jj: int|
                0 <= jj < j ==> ranked@[#[trigger] adj@[u as int]@[jj] as int] && ranks@[adj@[
                    u as int
                ]@[jj] as int] <= maxr,
            !all_ranked ==> exists|jj: int|
                0 <= jj < j && !ranked@[adj@[u as int]@[jj] as int],
            maxr == 0 || exists|v: int| 0 <= v < n && ranked@[v] && ranks@[v] == maxr,
        decreases deg - j,
    {
        let v = adj[u][j];
        if !ranked[v] {
            all_ranked = false;
        } else {
            if ranks[v] > maxr {
                maxr = ranks[v];
            }
        }
        j = j + 1;
    }
    if !all_ranked {
        return false;
    }
    proof {
        lemma_count_true_le(ranked@);
        if deg > 0 {
            assert(ranked@[adj@[u as int]@[0] as int]);
            lemma_count_true_pos(ranked@, adj@[u as int]@[0] as int);
            assert(maxr < count_true(ranked@));
        }
    }
    let newrank: usize = if deg == 0 {
        0
    } else {
        maxr + 1
    };
    let ghost old_ranked = ranked@;
    ranks.set(u, newrank);
    proof {
        lemma_count_true_update(ranked@, u as int);
    }
    ranked.set(u, true);
    proof {
        assert(count_true(ranked@) == count_true(old_ranked) + 1);
        assert forall|w: int, j2: int|
            0 <= w < n && ranked@[w] && 0 <= j2 < adj@[w]@.len() implies ranked@[
            #[trigger] adj@[w]@[j2] as int
        ] && ranks@[adj@[w]@[j2] as int] < ranks@[w] by {
            let t = adj@[w]@[j2] as int;
            if w == u as int {
                assert(ranked@[t] && ranks@[t] < ranks@[w]);
            } else {
                assert(old_ranked[w]);
                assert(old_ranked[t]);
                assert(t != u as int);
            }
        }
        assert forall|w: int| 0 <= w < n && #[trigger] ranked@[w] implies ranks@[w] < count_true(
            ranked@,
        ) by {
            if w != u as int {
                assert(old_ranked[w]);
            }
        }
        assert(inv_ranked(adj@, ranked@, ranks@));
    }
    true
}

/// One full ranking pass over the components; reports whether any
/// component got ranked, and on a fixpoint the graph is stalled.
fn ranking_pass(adj: &Vec<Vec<usize>>, ranked: &mut Vec<bool>, ranks: &mut Vec<usize>) -> (progress:
    bool)
    requires
        edges_ok(adj@),
        inv_ranked(adj@, old(ranked)@, old(ranks)@),
    ensures
        inv_ranked(adj@, final(ranked)@, final(ranks)@),
        !progress ==> final(ranked)@ == old(ranked)@ && stalled(adj@, final(ranked)@),
        progress ==> count_true(final(ranked)@) > count_true(old(ranked)@),
{
    let n = adj.len();
    let mut progress = false;
    let mut u: usize = 0;
    while u < n
        invariant
            u <= n,
            n == adj@.len(),
            edges_ok(adj@),
            inv_ranked(adj@, ranked@, ranks@),
            !progress ==> ranked@ == old(ranked)@ && ranks@ == old(ranks)@,
            progress ==> count_true(old(ranked)@) < count_true(ranked@),
            !progress ==> forall|a: int|
                0 <= a < u && !(#[trigger] ranked@[a]) ==> exists|j: int|
                    0 <= j < adj@[a]@.len() && !ranked@[adj@[a]@[j] as int],
        decreases n - u,
    {
        if !ranked[u] {
            let did = try_rank_node(adj, u, ranked, ranks);
            if did {
                progress = true;
            }
        }
        u = u + 1;
    }
    progress
}

/// Finds an edge that points outside the graph, if any.
fn find_undefined_edge(adj: &Vec<Vec<usize>>) -> (r: Option<(usize, usize)>)
    ensures
        r is None <==> edges_ok(adj@),
        r matches Some((from, to)) ==> edge(adj@, from as int, to as int) && to >= adj@.len(),
{
    let n = adj.len();
    let mut u: usize = 0;
    while u < n
        invariant
            u <= n,
            n == adj@.len(),
            forall|a: int, j: int|
                0 <= a < u && 0 <= j < adj@[a]@.len() ==> (#[trigger] adj@[a]@[j]) < n,
        decreases n - u,
    {
        let mut j: usize = 0;
        while j < adj[u].len()
            invariant
                u < n,
                n == adj@.len(),
                j <= adj@[u as int]@.len(),
                forall|jj: int| 0 <= jj < j ==> (#[trigger] adj@[u as int]@[jj]) < n,
            decreases adj@[u as int]@.len() - j,
        {
            let v = adj[u][j];
            if v >= n {
                proof {
                    assert(adj@[u as int]@[j as int] == v);
                    assert(!edges_ok(adj@));
                }
                return Some((u, v));
            }
            j = j + 1;
        }
        u = u + 1;
    }
    None
}

/// Collects the unranked components.
fn collect_unranked(ranked: &Vec<bool>) -> (members: Vec<usize>)
    ensures
        forall|i: int|
            0 <= i < members@.len() ==> (#[trigger] members@[i]) < ranked@.len() && !ranked@[
                members@[i] as int
            ],
        forall|x: int| 0 <= x < ranked@.len() && !(#[trigger] ranked@[x]) ==> members@.contains(
            x as usize,
        ),
        members@.len() == 0 ==> forall|x: int| 0 <= x < ranked@.len() ==> #[trigger] ranked@[x],
{
    let n = ranked.len();
    let mut members: Vec<usize> = Vec::new();
    let mut u: usize = 0;
    while u < n
        invariant
            u <= n,
            n == ranked@.len(),
            forall|i: int|
                0 <= i < members@.len() ==> (#[trigger] members@[i]) < u && !ranked@[members@[
                    i
                ] as int],
            forall|x: int| 0 <= x < u && !(#[trigger] ranked@[x]) ==> members@.contains(x as usize),
        decreases n - u,
    {
        if !ranked[u] {
            let ghost old_members = members@;
            members.push(u);
            proof {
                assert(members@[members@.len() - 1] == u);
                assert(members@.contains(u));
                assert forall|x: int|
                    0 <= x < u + 1 && !(#[trigger] ranked@[x]) implies members@.contains(
                    x as usize,
                ) by {
                    if x < u {
                        let k = choose|k: int|
                            0 <= k < old_members.len() && old_members[k] == x as usize;
                        assert(members@[k] == x as usize);
                    }
                }
            }
        }
        u = u + 1;
    }
    proof {
        if members@.len() == 0 {
            assert forall|x: int| 0 <= x < ranked@.len() implies #[trigger] ranked@[x] by {
                if !ranked@[x] {
                    assert(members@.contains(x as usize));
                }
            }
        }
    }
    members
}

/// One member of a rejection witness: a defined component that invokes
/// another member of the set.
pub open spec fn cycle_member_ok(g: Seq<Vec<usize>>, members: Seq<usize>, i: int) -> bool {
    &&& members[i] < g.len()
    &&& exists|j: int|
        0 <= j < g[members[i] as int]@.len() && members.contains(g[members[i] as int]@[j])
}

/// A valid rejection witness: a nonempty set of components, each of
/// which invokes another member of the set, so none of them can ever be
/// ranked or fully expanded.
pub open spec fn cycle_members_ok(g: Seq<Vec<usize>>, members: Seq<usize>) -> bool {
    &&& members.len() > 0
    &&& forall|i: int| 0 <= i < members.len() ==> #[trigger] cycle_member_ok(g, members, i)
}

/// Validates a composition graph, given as adjacency lists: `adj[u]`
/// lists the components that component `u`'s definition invokes.
/// Acceptance returns ranks that strictly decrease along every edge —
/// an acyclicity witness, see `lemma_acyclic_of_ranks` — so a graph in
/// which a component (in)directly invokes itself is always rejected:
/// with an undefined-reference error exactly when some edge leaves the
/// graph, and otherwise with a set of components each of which invokes
/// another member of the set.
#[verifier::rlimit(100)]
#[verifier::spinoff_prover]
pub fn validate_composition(adj: &Vec<Vec<usize>>) -> (r: Result<Vec<usize>, CompositionError>)
    ensures
        r is Ok ==> ranks_decrease(adj@, r->Ok_0@),
        r matches Err(CompositionError::UndefinedReference { from, to }) ==> edge(
            adj@,
            from as int,
            to as int,
        ) && to >= adj@.len(),
        (r matches Err(CompositionError::UndefinedReference { from: f, to: t })) <==> !edges_ok(
            adj@,
        ),
        r matches Err(CompositionError::Cycle { members }) ==> cycle_members_ok(adj@, members@),
{
    let n = adj.len();
    match find_undefined_edge(adj) {
        Some((from, to)) => {
            return Err(CompositionError::UndefinedReference { from, to });
        },
        None => {},
    }
    let mut ranked: Vec<bool> = Vec::new();
    let mut ranks: Vec<usize> = Vec::new();
    let mut i: usize = 0;
    while i < n
        invariant
            i <= n,
            ranked@.len() == i,
            ranks@.len() == i,
            forall|k: int| 0 <= k < i ==> !(#[trigger] ranked@[k]),
        decreases n - i,
    {
        ranked.push(false);
        ranks.push(0);
        i = i + 1;
    }
    proof {
        assert(inv_ranked(adj@, ranked@, ranks@));
    }
    let mut progress = true;
    while progress
        invariant
            n == adj@.len(),
            edges_ok(adj@),
            inv_ranked(adj@, ranked@, ranks@),
            !progress ==> stalled(adj@, ranked@),
        decreases
            n - count_true(ranked@),
            (if progress {
                1int
            } else {
                0int
            }),
    {
        progress = ranking_pass(adj, &mut ranked, &mut ranks);
        proof {
            lemma_count_true_le(ranked@);
        }
    }
    let members = collect_unranked(&ranked);
    if members.len() == 0 {
        proof {
            assert(ranks_decrease(adj@, ranks@));
        }
        Ok(ranks)
    } else {
        proof {
            assert(members@.len() > 0);
            assert forall|i2: int| 0 <= i2 < members@.len() implies #[trigger] cycle_member_ok(
                adj@,
                members@,
                i2,
            ) by {
                let m = members@[i2] as int;
                assert(!ranked@[m]);
                let j = choose|j: int| 0 <= j < adj@[m]@.len() && !ranked@[adj@[m]@[j] as int];
                assert(adj@[m]@[j] < n);
                assert(members@.contains(adj@[m]@[j]));
                assert(0 <= j < adj@[m]@.len() && members@.contains(adj@[m]@[j]));
            }
            assert(cycle_members_ok(adj@, members@));
        }
        Err(CompositionError::Cycle { members })
    }
}

} // verus!
