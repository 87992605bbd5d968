// Sorting a dependency graph into layers, and sorting jobs into groups that
// must not run at the same time.
use vstd::prelude::*;
use vstd::set_lib::{lemma_int_range, lemma_len_subset, set_int_range};

verus! {

/// The layers in which the nodes of a dependency graph can be built.
///
/// A graph is given as the list of its nodes' dependencies: the node `p`
/// depends on each node of `graph[p]`.
#[derive(Debug, PartialEq, Eq)]
pub struct Layering {
    /// The layers in the order in which they are built; each holds its nodes
    /// in ascending order.
    pub layers: Vec<Vec<usize>>,
    /// For each node its layer; none for a node that cannot be built.
    pub layer_of: Vec<Option<usize>>,
    /// The nodes that cannot be built, in ascending order.
    pub rest: Vec<usize>,
}

/// Whether the node `d` exists and has a layer before layer `k`.
pub open spec fn placed_before(rank: Seq<Option<usize>>, d: usize, k: int) -> bool {
    d < rank.len() && rank[d as int] is Some && rank[d as int]->0 < k
}

/// Whether every dependency of the node `p` has a layer before layer `k`.
pub open spec fn ready_at(
    graph: Seq<Seq<usize>>,
    rank: Seq<Option<usize>>,
    p: int,
    k: int,
) -> bool {
    forall|i: int| 0 <= i < graph[p].len() ==> placed_before(rank, #[trigger] graph[p][i], k)
}

/// Whether a dependency of the node `p` has no layer at all, or does not
/// exist.
pub open spec fn stuck(graph: Seq<Seq<usize>>, rank: Seq<Option<usize>>, p: int) -> bool {
    exists|i: int|
        0 <= i < graph[p].len() && (#[trigger] graph[p][i] >= rank.len() || rank[graph[p][i] as int]
            is None)
}

/// Whether `rank` gives each node of `graph` the layer in which it is built.
///
/// The layer of a node lies behind the layers of all its dependencies, and
/// is the first that does. A node has no layer if and only if one of its
/// dependencies has none or does not exist, which is the case exactly for
/// the nodes of a cycle and the nodes that depend on them.
pub open spec fn is_layer_assignment(graph: Seq<Seq<usize>>, rank: Seq<Option<usize>>) -> bool {
    &&& rank.len() == graph.len()
    &&& forall|p: int|
        0 <= p < graph.len() && (#[trigger] rank[p]) is Some ==> ready_at(
            graph,
            rank,
            p,
            rank[p]->0 as int,
        )
    &&& forall|p: int|
        0 <= p < graph.len() && (#[trigger] rank[p]) is Some && rank[p]->0 > 0 ==> !ready_at(
            graph,
            rank,
            p,
            rank[p]->0 - 1,
        )
    &&& forall|p: int| 0 <= p < graph.len() && (#[trigger] rank[p]) is None
        ==> stuck(graph, rank, p)
}

/// Whether `list` holds its nodes in ascending order, none of them twice.
pub open spec fn ascending(list: Seq<usize>) -> bool {
    forall|i: int, j: int| 0 <= i < j < list.len() ==> list[i] < list[j]
}

/// Whether `layers` lists, layer by layer, the nodes that `rank` gives a
/// layer: no layer is empty, and each holds exactly its nodes, in ascending
/// order.
pub open spec fn layers_list(layers: Seq<Seq<usize>>, rank: Seq<Option<usize>>) -> bool {
    &&& forall|p: int| 0 <= p < rank.len() && (#[trigger] rank[p]) is Some
        ==> rank[p]->0 < layers.len()
    &&& forall|k: int| 0 <= k < layers.len() ==> (#[trigger] layers[k]).len() > 0
        && ascending(layers[k])
    &&& forall|k: int, i: int|
        0 <= k < layers.len() && 0 <= i < layers[k].len() ==> (#[trigger] layers[k][i]) < rank.len()
            && rank[layers[k][i] as int] == Some(k as usize)
    &&& forall|p: int|
        0 <= p < rank.len() && (#[trigger] rank[p]) is Some ==> layers[rank[p]->0 as int].contains(
            p as usize,
        )
}

/// Whether `rest` lists the nodes that `rank` gives no layer, in ascending
/// order.
pub open spec fn rest_lists(rest: Seq<usize>, rank: Seq<Option<usize>>) -> bool {
    &&& ascending(rest)
    &&& forall|i: int|
        0 <= i < rest.len() ==> (#[trigger] rest[i]) < rank.len() && rank[rest[i] as int] is None
    &&& forall|p: int| 0 <= p < rank.len() && (#[trigger] rank[p]) is None
        ==> rest.contains(p as usize)
}

/// Whether `after` gives the layers that `before` gives, and the layer `k`
/// to some of the nodes that had none.
pub open spec fn extends_with(
    before: Seq<Option<usize>>,
    after: Seq<Option<usize>>,
    k: usize,
) -> bool {
    &&& after.len() == before.len()
    &&& forall|q: int|
        0 <= q < before.len() ==> #[trigger] after[q] == before[q] || (before[q] is None && after[q]
            == Some(k))
}

/// In a layer assignment, the layer of a node lies strictly behind the layer
/// of each of its dependencies, and so behind the last of them.
pub proof fn lemma_layer_behind_dependencies(
    graph: Seq<Seq<usize>>,
    rank: Seq<Option<usize>>,
    p: int,
    i: int,
)
    requires
        is_layer_assignment(graph, rank),
        0 <= p < graph.len(),
        rank[p] is Some,
        0 <= i < graph[p].len(),
    ensures
        graph[p][i] < graph.len(),
        rank[graph[p][i] as int] is Some,
        rank[graph[p][i] as int]->0 < rank[p]->0,
{
}

/// Where one layer assignment gives a node a layer, every other gives it
/// the same.
proof fn lemma_same_layer(
    graph: Seq<Seq<usize>>,
    a: Seq<Option<usize>>,
    b: Seq<Option<usize>>,
    p: int,
    k: nat,
)
    requires
        is_layer_assignment(graph, a),
        is_layer_assignment(graph, b),
        0 <= p < graph.len(),
        a[p] == Some(k as usize),
        k <= usize::MAX,
    ensures
        b[p] == a[p],
    decreases k,
{
    assert forall|i: int| 0 <= i < graph[p].len() implies graph[p][i] < graph.len()
        && a[graph[p][i] as int] is Some && a[graph[p][i] as int]->0 < k && b[graph[p][i] as int]
        == a[graph[p][i] as int] by {
        let d = graph[p][i];
        lemma_same_layer(graph, a, b, d as int, a[d as int]->0 as nat);
    }
}

/// A graph has one layer assignment only: what `is_layer_assignment` asks
/// for settles the layer of every node.
pub proof fn lemma_layer_assignment_unique(
    graph: Seq<Seq<usize>>,
    a: Seq<Option<usize>>,
    b: Seq<Option<usize>>,
)
    requires
        is_layer_assignment(graph, a),
        is_layer_assignment(graph, b),
    ensures
        a == b,
{
    assert forall|p: int| 0 <= p < graph.len() implies a[p] == b[p] by {
        if a[p] is Some {
            lemma_same_layer(graph, a, b, p, a[p]->0 as nat);
        } else if b[p] is Some {
            lemma_same_layer(graph, b, a, p, b[p]->0 as nat);
        }
    }
}

/// Whether every dependency of the node `p` has a layer before layer `k`.
fn is_ready(graph: &Vec<Vec<usize>>, layer_of: &Vec<Option<usize>>, p: usize, k: usize) -> (r: bool)
    requires
        p < graph.len(),
    ensures
        r == ready_at(graph.deep_view(), layer_of@, p as int, k as int),
{
    let dependencies = &graph[p];
    let ghost shown = graph.deep_view()[p as int];
    let mut i: usize = 0;
    while i < dependencies.len()
        invariant
            i <= dependencies.len(),
            shown == dependencies@,
            shown == graph.deep_view()[p as int],
            forall|j: int| 0 <= j < i ==> placed_before(layer_of@, #[trigger] shown[j], k as int),
        decreases dependencies.len() - i,
    {
        let d = dependencies[i];
        let placed = d < layer_of.len() && match layer_of[d] {
            Some(layer) => layer < k,
            None => false,
        };
        if !placed {
            return false;
        }
        i += 1;
    }
    true
}

/// Sorts the nodes of a dependency graph into layers: a node comes into the
/// first layer that lies behind the layers of all its dependencies. The
/// nodes of a cycle, the nodes that depend on them, and the nodes that
/// depend on a node that does not exist come into no layer.
pub fn layer_graph(graph: &Vec<Vec<usize>>) -> (r: Layering)
    ensures
        is_layer_assignment(graph.deep_view(), r.layer_of@),
        layers_list(r.layers.deep_view(), r.layer_of@),
        rest_lists(r.rest@, r.layer_of@),
{
    let n = graph.len();
    let ghost g = graph.deep_view();
    let mut layer_of: Vec<Option<usize>> = Vec::new();
    let mut i: usize = 0;
    while i < n
        invariant
            i <= n,
            layer_of.len() == i,
            forall|q: int| 0 <= q < i ==> #[trigger] layer_of@[q] is None,
        decreases n - i,
    {
        layer_of.push(None);
        i += 1;
    }
    let mut layers: Vec<Vec<usize>> = Vec::new();
    let mut count: usize = 0;
    let ghost mut placed: Set<int> = Set::empty();
    loop
        invariant
            n == graph.len(),
            g == graph.deep_view(),
            g.len() == n,
            layer_of.len() == n,
            placed.finite(),
            placed.len() == count,
            count <= n,
            forall|q: int| placed.contains(q) <==> 0 <= q < n && layer_of@[q] is Some,
            forall|p: int|
                0 <= p < n && (#[trigger] layer_of@[p]) is Some ==> ready_at(
                    g,
                    layer_of@,
                    p,
                    layer_of@[p]->0 as int,
                ),
            forall|p: int|
                0 <= p < n && (#[trigger] layer_of@[p]) is Some && layer_of@[p]->0 > 0
                    ==> !ready_at(
                    g,
                    layer_of@,
                    p,
                    layer_of@[p]->0 - 1,
                ),
            layers.len() > 0 ==> forall|p: int|
                0 <= p < n && (#[trigger] layer_of@[p]) is None ==> !ready_at(
                    g,
                    layer_of@,
                    p,
                    layers.len() - 1,
                ),
            layers_list(layers.deep_view(), layer_of@),
        ensures
            layer_of.len() == n,
            forall|p: int|
                0 <= p < n && (#[trigger] layer_of@[p]) is Some ==> ready_at(
                    g,
                    layer_of@,
                    p,
                    layer_of@[p]->0 as int,
                ),
            forall|p: int|
                0 <= p < n && (#[trigger] layer_of@[p]) is Some && layer_of@[p]->0 > 0
                    ==> !ready_at(
                    g,
                    layer_of@,
                    p,
                    layer_of@[p]->0 - 1,
                ),
            forall|p: int|
                0 <= p < n && (#[trigger] layer_of@[p]) is None ==> !ready_at(
                    g,
                    layer_of@,
                    p,
                    layers.len() as int,
                ),
            layers_list(layers.deep_view(), layer_of@),
        decreases n - count,
    {
        let k = layers.len();
        let ghost before = layer_of@;
        let ghost placed_before_round = placed;
        let mut ready: Vec<usize> = Vec::new();
        let mut p: usize = 0;
        while p < n
            invariant
                p <= n,
                n == graph.len(),
                g == graph.deep_view(),
                g.len() == n,
                k == layers.len(),
                layer_of.len() == n,
                before.len() == n,
                extends_with(before, layer_of@, k),
                forall|q: int| 0 <= q < n && (#[trigger] before[q]) is Some ==> before[q]->0 < k,
                forall|q: int|
                    0 <= q < n ==> #[trigger] layer_of@[q] == (if q < p && before[q] is None
                        && ready_at(g, before, q, k as int) {
                        Some(k)
                    } else {
                        before[q]
                    }),
                ascending(ready@),
                forall|i: int| 0 <= i < ready@.len() ==> (#[trigger] ready@[i]) < p
                    && layer_of@[ready@[i] as int] == Some(k),
                forall|q: int|
                    0 <= q < p && (#[trigger] layer_of@[q]) == Some(k)
                        ==> ready@.contains(q as usize),
                placed.finite(),
                placed.len() == count,
                count <= n,
                count == placed_before_round.len() + ready@.len(),
                forall|q: int| placed.contains(q) <==> 0 <= q < n && layer_of@[q] is Some,
            decreases n - p,
        {
            let unplaced = layer_of[p].is_none();
            if unplaced && is_ready(graph, &layer_of, p, k) {
                let ghost ready_now = ready@;
                layer_of.set(p, Some(k));
                ready.push(p);
                proof {
                    placed = placed.insert(p as int);
                    lemma_int_range(0, n as int);
                    lemma_len_subset(placed, set_int_range(0, n as int));
                    assert forall|q: int|
                        0 <= q < p + 1 && (#[trigger] layer_of@[q]) == Some(k)
                            implies ready@.contains(
                        q as usize,
                    ) by {
                        if q == p {
                            assert(ready@[ready_now.len() as int] == p);
                        } else {
                            let w = choose|w: int| 0 <= w < ready_now.len()
                                && ready_now[w] == q as usize;
                            assert(ready@[w] == q as usize);
                        }
                    }
                }
                count += 1;
            }
            p += 1;
        }
        if ready.len() == 0 {
            break ;
        }
        let ghost pushed = ready;
        let ghost layers_before = layers;
        layers.push(ready);
        proof {
            crate::text::lemma_deep_view_push(layers_before, layers, pushed);
            let shown = layers.deep_view();
            assert(pushed.deep_view() =~= pushed@);
        }
    }
    let mut rest: Vec<usize> = Vec::new();
    let mut p: usize = 0;
    while p < n
        invariant
            p <= n,
            layer_of.len() == n,
            ascending(rest@),
            forall|i: int|
                0 <= i < rest@.len() ==> (#[trigger] rest@[i]) < p
                    && layer_of@[rest@[i] as int] is None,
            forall|q: int| 0 <= q < p && (#[trigger] layer_of@[q]) is None
                ==> rest@.contains(q as usize),
        decreases n - p,
    {
        if layer_of[p].is_none() {
            let ghost rest_now = rest@;
            rest.push(p);
            proof {
                assert forall|q: int|
                    0 <= q < p + 1 && (#[trigger] layer_of@[q]) is None implies rest@.contains(
                    q as usize,
                ) by {
                    if q == p {
                        assert(rest@[rest_now.len() as int] == p);
                    } else {
                        let w = choose|w: int| 0 <= w < rest_now.len() && rest_now[w] == q as usize;
                        assert(rest@[w] == q as usize);
                    }
                }
            }
        }
        p += 1;
    }
    Layering { layers, layer_of, rest }
}

/// Whether one of `groups` holds the place `i`.
pub open spec fn holds_place(groups: Seq<Seq<usize>>, i: int) -> bool {
    exists|g: int, j: int|
        0 <= g < groups.len() && 0 <= j < groups[g].len() && #[trigger] groups[g][j] == i
}

/// Whether `groups` sorts the places of `keys` into groups of equal keys:
/// every place is in one group, at one position; two places are in the same
/// group if and only if their keys are equal; each group holds its places in
/// ascending order, and the groups come in the order of their first places.
pub open spec fn is_grouping(keys: Seq<Seq<char>>, groups: Seq<Seq<usize>>) -> bool {
    &&& forall|g: int| 0 <= g < groups.len() ==> ascending(#[trigger] groups[g])
    &&& forall|g: int| 0 <= g < groups.len() ==> (#[trigger] groups[g]).len() > 0
    &&& forall|g: int, h: int|
        0 <= g < h < groups.len() ==> (#[trigger] groups[g])[0] < (#[trigger] groups[h])[0]
    &&& forall|g: int, j: int|
        0 <= g < groups.len() && 0 <= j < groups[g].len() ==> (#[trigger] groups[g][j]) < keys.len()
    &&& forall|i: int| 0 <= i < keys.len() ==> #[trigger] holds_place(groups, i)
    &&& forall|g: int, j: int, h: int, k: int|
        0 <= g < groups.len() && 0 <= j < groups[g].len() && 0 <= h < groups.len() && 0 <= k
            < groups[h].len() ==> ((g == h) <==> keys[#[trigger] groups[g][j] as int]
            == keys[#[trigger] groups[h][k] as int])
}

/// Whether no key before place `i` equals the key at place `i`.
pub open spec fn is_first_of_key(keys: Seq<Seq<char>>, i: int) -> bool {
    forall|j: int| 0 <= j < i ==> #[trigger] keys[j] != keys[i]
}

/// Whether no key before place `i` equals the key at place `i`.
fn first_of_key(keys: &Vec<String>, i: usize) -> (r: bool)
    requires
        i < keys.len(),
    ensures
        r == is_first_of_key(keys.deep_view(), i as int),
{
    let ghost shown = keys.deep_view();
    let mut j: usize = 0;
    while j < i
        invariant
            j <= i,
            i < keys.len(),
            shown == keys.deep_view(),
            forall|q: int| 0 <= q < j ==> #[trigger] shown[q] != shown[i as int],
        decreases i - j,
    {
        assert(shown[j as int] == keys@[j as int]@ && shown[i as int] == keys@[i as int]@);
        if keys[j] == keys[i] {
            return false;
        }
        j += 1;
    }
    true
}

/// The places from `i` on whose key equals the key at place `i`.
fn places_of_key(keys: &Vec<String>, i: usize) -> (r: Vec<usize>)
    requires
        i < keys.len(),
    ensures
        ascending(r@),
        r@.len() > 0,
        r@[0] == i,
        forall|j: int|
            0 <= j < r@.len() ==> i <= (#[trigger] r@[j]) < keys.len()
                && keys.deep_view()[r@[j] as int]
                == keys.deep_view()[i as int],
        forall|q: int|
            i <= q < keys.len() && (#[trigger] keys.deep_view()[q]) == keys.deep_view()[i as int]
                ==> r@.contains(q as usize),
{
    let ghost shown = keys.deep_view();
    let mut places: Vec<usize> = Vec::new();
    places.push(i);
    assert(places@[0] == i);
    let mut q: usize = i + 1;
    while q < keys.len()
        invariant
            i < q <= keys.len(),
            shown == keys.deep_view(),
            ascending(places@),
            places@.len() > 0,
            places@[0] == i,
            forall|j: int|
                0 <= j < places@.len() ==> i <= (#[trigger] places@[j]) < q
                    && shown[places@[j] as int]
                    == shown[i as int],
            forall|w: int|
                i <= w < q && (#[trigger] shown[w]) == shown[i as int]
                    ==> places@.contains(w as usize),
        decreases keys.len() - q,
    {
        if keys[q] == keys[i] {
            let ghost before = places@;
            places.push(q);
            proof {
                assert forall|w: int|
                    i <= w < q + 1 && (#[trigger] shown[w]) == shown[i as int]
                        implies places@.contains(
                    w as usize,
                ) by {
                    if w == q {
                        assert(places@[before.len() as int] == q);
                    } else {
                        let z = choose|z: int| 0 <= z < before.len() && before[z] == w as usize;
                        assert(places@[z] == w as usize);
                    }
                }
            }
        }
        q += 1;
    }
    places
}

/// Sorts the places of `keys` into groups of equal keys. The groups come in
/// the order of their first places.
pub fn group_equal(keys: &Vec<String>) -> (r: Vec<Vec<usize>>)
    ensures
        is_grouping(keys.deep_view(), r.deep_view()),
{
    let ghost shown = keys.deep_view();
    let mut groups: Vec<Vec<usize>> = Vec::new();
    let mut i: usize = 0;
    while i < keys.len()
        invariant
            i <= keys.len(),
            shown == keys.deep_view(),
            forall|g: int| 0 <= g < groups.deep_view().len()
                ==> ascending(#[trigger] groups.deep_view()[g]),
            forall|g: int|
                0 <= g < groups.deep_view().len() ==> (#[trigger] groups.deep_view()[g]).len() > 0
                    && groups.deep_view()[g][0] < i && is_first_of_key(
                    shown,
                    groups.deep_view()[g][0] as int,
                ),
            forall|g: int, j: int|
                0 <= g < groups.deep_view().len() && 0 <= j < groups.deep_view()[g].len() ==> (
                #[trigger] groups.deep_view()[g][j]) < shown.len() && groups.deep_view()[g][0]
                    <= groups.deep_view()[g][j] && shown[groups.deep_view()[g][j] as int]
                    == shown[groups.deep_view()[g][0] as int],
            forall|g: int, q: int|
                0 <= g < groups.deep_view().len() && 0 <= q < shown.len() && shown[q]
                    == shown[(#[trigger] groups.deep_view()[g])[0] as int]
                    ==> #[trigger] groups.deep_view()[g].contains(q as usize),
            forall|q: int|
                0 <= q < i && is_first_of_key(shown, q) ==> exists|g: int|
                    0 <= g < groups.deep_view().len() && (#[trigger] groups.deep_view()[g])[0] == q,
            forall|g: int, h: int|
                0 <= g < h < groups.deep_view().len() ==> (#[trigger] groups.deep_view()[g])[0] < (
                #[trigger] groups.deep_view()[h])[0],
        decreases keys.len() - i,
    {
        if first_of_key(keys, i) {
            let places = places_of_key(keys, i);
            let ghost before = groups;
            let ghost old_shown = groups.deep_view();
            groups.push(places);
            proof {
                crate::text::lemma_deep_view_push(before, groups, places);
                let now = groups.deep_view();
                let last = old_shown.len() as int;
                assert(now[last] == places@);
                assert forall|q: int| 0 <= q < i + 1 && is_first_of_key(shown, q)
                    implies exists|g: int|
                    0 <= g < now.len() && (#[trigger] now[g])[0] == q by {
                    if q < i {
                        let g = choose|g: int| 0 <= g < old_shown.len()
                            && (#[trigger] old_shown[g])[0] == q;
                        assert(now[g] == old_shown[g]);
                    }
                }
            }
        }
        i += 1;
    }
    proof {
        let now = groups.deep_view();
        assert forall|q: int| 0 <= q < shown.len() implies #[trigger] holds_place(now, q) by {
            lemma_first_of_key_exists(shown, q);
            let f = choose|f: int| 0 <= f <= q && is_first_of_key(shown, f) && shown[f] == shown[q];
            let g = choose|g: int| 0 <= g < now.len() && (#[trigger] now[g])[0] == f;
            assert(now[g].contains(q as usize));
            let j = choose|j: int| 0 <= j < now[g].len() && now[g][j] == q as usize;
        }
    }
    groups
}

/// Every key has a first place.
proof fn lemma_first_of_key_exists(keys: Seq<Seq<char>>, q: int)
    requires
        0 <= q < keys.len(),
    ensures
        exists|f: int| 0 <= f <= q && is_first_of_key(keys, f) && keys[f] == keys[q],
    decreases q,
{
    if is_first_of_key(keys, q) {
    } else {
        let j = choose|j: int| 0 <= j < q && #[trigger] keys[j] == keys[q];
        lemma_first_of_key_exists(keys, j);
    }
}

} // verus!
