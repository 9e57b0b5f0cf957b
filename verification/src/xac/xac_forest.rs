//! The parents of the nodes of a hierarchy: whether each exists, whether the
//! nodes form a forest, and what follows for the ancestors of a node.

use crate::model::views;
use crate::xac::xac_structs::{XacActorNode, XacActorNodeView};
use vstd::prelude::*;
use vstd::set_lib::{lemma_int_range, lemma_len_subset, set_int_range};

verus! {

/// Node `i` names a parent that exists: -1 for none, or the index of a node.
pub open spec fn parent_in_range(nodes: Seq<XacActorNodeView>, i: int) -> bool {
    nodes[i].parent_node_id == -1 || 0 <= nodes[i].parent_node_id < nodes.len()
}

/// Following the parents from node `i` arrives at a root after at most
/// `steps` steps.
pub open spec fn reaches_root(nodes: Seq<XacActorNodeView>, i: int, steps: nat) -> bool
    decreases steps,
{
    nodes[i].parent_node_id == -1 || (steps > 0 && 0 <= nodes[i].parent_node_id < nodes.len()
        && reaches_root(nodes, nodes[i].parent_node_id as int, (steps - 1) as nat))
}

/// Following the parents from node `i` arrives at a root within as many steps
/// as there are nodes.
pub open spec fn rooted(nodes: Seq<XacActorNodeView>, i: int) -> bool {
    reaches_root(nodes, i, nodes.len())
}

/// The least index from `from` on of a node whose parent does not exist; the
/// number of nodes if there is none.
pub open spec fn first_stray(nodes: Seq<XacActorNodeView>, from: int) -> int
    decreases nodes.len() - from,
{
    if from < 0 || from >= nodes.len() {
        nodes.len() as int
    } else if !parent_in_range(nodes, from) {
        from
    } else {
        first_stray(nodes, from + 1)
    }
}

/// The least index from `from` on of a node from which no root is reached;
/// the number of nodes if there is none.
pub open spec fn first_unrooted(nodes: Seq<XacActorNodeView>, from: int) -> int
    decreases nodes.len() - from,
{
    if from < 0 || from >= nodes.len() {
        nodes.len() as int
    } else if !rooted(nodes, from) {
        from
    } else {
        first_unrooted(nodes, from + 1)
    }
}

/// The nodes form a forest: every parent exists, and from every node a root
/// is reached.
pub open spec fn is_forest(nodes: Seq<XacActorNodeView>) -> bool {
    forall|i: int|
        0 <= i < nodes.len() ==> parent_in_range(nodes, i) && #[trigger] rooted(nodes, i)
}

/// Every node names a parent that exists.
pub open spec fn parents_exist(nodes: Seq<XacActorNodeView>) -> bool {
    forall|i: int| 0 <= i < nodes.len() ==> parent_in_range(nodes, i)
}

/// No node from `from` on is stray exactly if the search from `from` runs to
/// the end; and what it finds is stray, with none before it.
pub proof fn lemma_first_stray(nodes: Seq<XacActorNodeView>, from: int)
    requires
        0 <= from <= nodes.len(),
    ensures
        from <= first_stray(nodes, from) <= nodes.len(),
        first_stray(nodes, from) < nodes.len() ==> !parent_in_range(
            nodes,
            first_stray(nodes, from),
        ),
        forall|i: int| from <= i < first_stray(nodes, from) ==> parent_in_range(nodes, i),
    decreases nodes.len() - from,
{
    if from < nodes.len() && parent_in_range(nodes, from) {
        lemma_first_stray(nodes, from + 1);
    }
}

/// The same for the search for a node from which no root is reached.
pub proof fn lemma_first_unrooted(nodes: Seq<XacActorNodeView>, from: int)
    requires
        0 <= from <= nodes.len(),
    ensures
        from <= first_unrooted(nodes, from) <= nodes.len(),
        first_unrooted(nodes, from) < nodes.len() ==> !rooted(nodes, first_unrooted(nodes, from)),
        forall|i: int| from <= i < first_unrooted(nodes, from) ==> rooted(nodes, i),
    decreases nodes.len() - from,
{
    if from < nodes.len() && rooted(nodes, from) {
        lemma_first_unrooted(nodes, from + 1);
    }
}

/// Every parent exists exactly if the search for a stray one finds none; and
/// the nodes are a forest exactly if, beyond that, the search for a node
/// from which no root is reached finds none.
pub proof fn lemma_searches_decide(nodes: Seq<XacActorNodeView>)
    ensures
        parents_exist(nodes) <==> first_stray(nodes, 0) == nodes.len(),
        is_forest(nodes) <==> first_stray(nodes, 0) == nodes.len() && first_unrooted(nodes, 0)
            == nodes.len(),
{
    lemma_first_stray(nodes, 0);
    lemma_first_unrooted(nodes, 0);
    if is_forest(nodes) {
        if first_stray(nodes, 0) < nodes.len() {
            assert(rooted(nodes, first_stray(nodes, 0)));
        }
        if first_unrooted(nodes, 0) < nodes.len() {
            assert(rooted(nodes, first_unrooted(nodes, 0)));
        }
    }
}

/// Finds the first node whose parent is neither -1 nor the index of a node.
pub fn find_stray_parent(nodes: &Vec<XacActorNode>) -> (at: usize)
    ensures
        at == first_stray(views(nodes@), 0),
        at <= nodes@.len(),
{
    let n = nodes.len();
    let mut i: usize = 0;
    while i < n
        invariant
            i <= n,
            n == nodes@.len(),
            first_stray(views(nodes@), 0) == first_stray(views(nodes@), i as int),
        decreases n - i,
    {
        let parent = nodes[i].parent_node_id;
        if parent < -1 || (parent >= 0 && parent as usize >= n) {
            return i;
        }
        i = i + 1;
    }
    i
}

/// The node that `k` steps from node `i` to the parent lead to; -1 once the
/// steps have led past a root.
pub open spec fn ancestor(nodes: Seq<XacActorNodeView>, i: int, k: nat) -> int
    decreases k,
{
    if k == 0 {
        i
    } else {
        let a = ancestor(nodes, i, (k - 1) as nat);
        if 0 <= a < nodes.len() {
            nodes[a].parent_node_id as int
        } else {
            -1
        }
    }
}

/// Steps to the parent add up.
pub proof fn lemma_ancestor_add(nodes: Seq<XacActorNodeView>, i: int, a: nat, b: nat)
    ensures
        ancestor(nodes, i, a + b) == ancestor(nodes, ancestor(nodes, i, a), b),
    decreases b,
{
    if b > 0 {
        lemma_ancestor_add(nodes, i, a, (b - 1) as nat);
        assert(a + b - 1 == a + (b - 1));
    }
}

/// Steps that have led past a root stay there.
pub proof fn lemma_past_root_stays(nodes: Seq<XacActorNodeView>, i: int, d: nat, more: nat)
    requires
        d <= more,
        ancestor(nodes, i, d) == -1,
    ensures
        ancestor(nodes, i, more) == -1,
    decreases more,
{
    if d < more {
        lemma_past_root_stays(nodes, i, d, (more - 1) as nat);
    }
}

/// From a node from which a root is reached, some number of steps leads past
/// the root: the number that this function returns.
pub proof fn lemma_root_distance(nodes: Seq<XacActorNodeView>, i: int, steps: nat) -> (d: nat)
    requires
        0 <= i < nodes.len(),
        reaches_root(nodes, i, steps),
    ensures
        d >= 1,
        ancestor(nodes, i, d) == -1,
    decreases steps,
{
    assert(ancestor(nodes, i, 1) == nodes[i].parent_node_id) by {
        assert(ancestor(nodes, i, 0) == i);
    }
    if nodes[i].parent_node_id == -1 {
        1
    } else {
        let parent = nodes[i].parent_node_id as int;
        let rest = lemma_root_distance(nodes, parent, (steps - 1) as nat);
        lemma_ancestor_add(nodes, i, 1, rest);
        1 + rest
    }
}

/// A node that is its own ancestor after `k` steps is so again after some
/// number of steps that is at least `d`: the number that this function
/// returns.
pub proof fn lemma_cycle_goes_on(nodes: Seq<XacActorNodeView>, i: int, k: nat, d: nat) -> (j: nat)
    requires
        k >= 1,
        ancestor(nodes, i, k) == i,
    ensures
        j >= d,
        ancestor(nodes, i, j) == i,
    decreases d,
{
    if d == 0 {
        0
    } else {
        let before = lemma_cycle_goes_on(nodes, i, k, (d - 1) as nat);
        lemma_ancestor_add(nodes, i, before, k);
        before + k
    }
}

/// In a forest no node is its own ancestor: no number of steps to the
/// parent, one or more, leads from a node back to itself.
pub proof fn lemma_no_node_is_its_own_ancestor(nodes: Seq<XacActorNodeView>, i: int, k: nat)
    requires
        is_forest(nodes),
        0 <= i < nodes.len(),
        k >= 1,
    ensures
        ancestor(nodes, i, k) != i,
{
    if ancestor(nodes, i, k) == i {
        assert(rooted(nodes, i));
        let d = lemma_root_distance(nodes, i, nodes.len());
        let j = lemma_cycle_goes_on(nodes, i, k, d);
        lemma_past_root_stays(nodes, i, d, j);
    }
}

/// In a forest every step to the parent leads to a node of the list or past
/// a root.
pub proof fn lemma_ancestor_in_range(nodes: Seq<XacActorNodeView>, i: int, k: nat)
    requires
        is_forest(nodes),
        0 <= i < nodes.len(),
    ensures
        -1 <= ancestor(nodes, i, k) < nodes.len(),
    decreases k,
{
    if k > 0 {
        lemma_ancestor_in_range(nodes, i, (k - 1) as nat);
        let a = ancestor(nodes, i, (k - 1) as nat);
        if 0 <= a < nodes.len() {
            assert(rooted(nodes, a));
            assert(parent_in_range(nodes, a));
        }
    }
}

/// More steps reach what fewer steps reach.
pub proof fn lemma_more_steps_reach(nodes: Seq<XacActorNodeView>, i: int, steps: nat, more: nat)
    requires
        reaches_root(nodes, i, steps),
        steps <= more,
    ensures
        reaches_root(nodes, i, more),
    decreases steps,
{
    if nodes[i].parent_node_id != -1 {
        lemma_more_steps_reach(
            nodes,
            nodes[i].parent_node_id as int,
            (steps - 1) as nat,
            (more - 1) as nat,
        );
    }
}

/// A root that is reached from an ancestor is reached from the node, in as
/// many steps more as lead to the ancestor.
pub proof fn lemma_reach_through_ancestor(
    nodes: Seq<XacActorNodeView>,
    i: int,
    a: nat,
    steps: nat,
)
    requires
        0 <= ancestor(nodes, i, a) < nodes.len(),
        reaches_root(nodes, ancestor(nodes, i, a), steps),
    ensures
        reaches_root(nodes, i, a + steps),
    decreases a,
{
    if a > 0 {
        let before = ancestor(nodes, i, (a - 1) as nat);
        assert(0 <= before < nodes.len());
        assert(reaches_root(nodes, before, steps + 1));
        lemma_reach_through_ancestor(nodes, i, (a - 1) as nat, steps + 1);
    }
}

/// On the way from a node to a root that it reaches in `steps` steps, the
/// ancestor after `j` steps is a node from which the root is reached in the
/// steps that are left; or the way has led past the root before.
pub proof fn lemma_walk_towards_root(nodes: Seq<XacActorNodeView>, i: int, steps: nat, j: nat)
    requires
        0 <= i < nodes.len(),
        reaches_root(nodes, i, steps),
        j <= steps,
    ensures
        ancestor(nodes, i, j) == -1 ==> j >= 1 && reaches_root(nodes, i, (j - 1) as nat),
        ancestor(nodes, i, j) != -1 ==> 0 <= ancestor(nodes, i, j) < nodes.len() && reaches_root(
            nodes,
            ancestor(nodes, i, j),
            (steps - j) as nat,
        ),
    decreases j,
{
    if j > 0 {
        lemma_walk_towards_root(nodes, i, steps, (j - 1) as nat);
        let before = ancestor(nodes, i, (j - 1) as nat);
        if before == -1 {
            lemma_more_steps_reach(nodes, i, (j - 2) as nat, (j - 1) as nat);
        } else if nodes[before].parent_node_id == -1 {
            assert(reaches_root(nodes, before, 0));
            lemma_reach_through_ancestor(nodes, i, (j - 1) as nat, 0);
        }
    }
}

/// Among more than `n` numbers below `n`, two are the same: those at the
/// places that this function returns.
pub proof fn lemma_two_are_the_same(s: Seq<int>, n: nat) -> (r: (int, int))
    requires
        s.len() > n,
        forall|j: int| 0 <= j < s.len() ==> 0 <= #[trigger] s[j] < n,
    ensures
        0 <= r.0 < r.1 < s.len(),
        s[r.0] == s[r.1],
{
    if s.no_duplicates() {
        s.unique_seq_to_set();
        lemma_int_range(0, n as int);
        assert forall|x: int| s.to_set().contains(x) implies set_int_range(0, n as int).contains(
            x,
        ) by {
            let j = choose|j: int| 0 <= j < s.len() && s[j] == x;
            assert(0 <= s[j] < n);
        }
        lemma_len_subset(s.to_set(), set_int_range(0, n as int));
    }
    let (a, b) = choose|a: int, b: int|
        0 <= a < s.len() && 0 <= b < s.len() && a != b && s[a] == s[b];
    if a < b {
        (a, b)
    } else {
        (b, a)
    }
}

/// A root that is reached at all is reached within as many steps as there
/// are nodes: a longer way passes some node twice and can be cut short.
pub proof fn lemma_root_is_near(nodes: Seq<XacActorNodeView>, i: int, steps: nat)
    requires
        0 <= i < nodes.len(),
        reaches_root(nodes, i, steps),
    ensures
        rooted(nodes, i),
    decreases steps,
{
    let n = nodes.len();
    if steps <= n {
        lemma_more_steps_reach(nodes, i, steps, n);
    } else if !reaches_root(nodes, i, n) {
        let way = Seq::new(n + 1, |j: int| ancestor(nodes, i, j as nat));
        assert forall|j: int| 0 <= j < way.len() implies 0 <= #[trigger] way[j] < n by {
            lemma_walk_towards_root(nodes, i, steps, j as nat);
            if ancestor(nodes, i, j as nat) == -1 {
                lemma_more_steps_reach(nodes, i, (j - 1) as nat, n);
            }
        }
        let (a, b) = lemma_two_are_the_same(way, n);
        lemma_walk_towards_root(nodes, i, steps, b as nat);
        assert(way[b] == ancestor(nodes, i, b as nat));
        assert(way[a] == ancestor(nodes, i, a as nat));
        lemma_reach_through_ancestor(nodes, i, a as nat, (steps - b) as nat);
        lemma_root_is_near(nodes, i, (a + steps - b) as nat);
    }
}

/// From a node that is not rooted no root is reached, in however many
/// steps.
pub proof fn lemma_unrooted_never_arrives(nodes: Seq<XacActorNodeView>, i: int, steps: nat)
    requires
        0 <= i < nodes.len(),
        !rooted(nodes, i),
    ensures
        !reaches_root(nodes, i, steps),
{
    if reaches_root(nodes, i, steps) {
        lemma_root_is_near(nodes, i, steps);
    }
}

/// Where every parent exists, the way up from a node that is not rooted
/// stays among the nodes.
pub proof fn lemma_unrooted_stays_inside(nodes: Seq<XacActorNodeView>, i: int, j: nat)
    requires
        forall|x: int| 0 <= x < nodes.len() ==> parent_in_range(nodes, x),
        0 <= i < nodes.len(),
        !rooted(nodes, i),
    ensures
        0 <= ancestor(nodes, i, j) < nodes.len(),
    decreases j,
{
    if j > 0 {
        lemma_unrooted_stays_inside(nodes, i, (j - 1) as nat);
        let before = ancestor(nodes, i, (j - 1) as nat);
        assert(parent_in_range(nodes, before));
        if nodes[before].parent_node_id == -1 {
            assert(reaches_root(nodes, before, 0));
            lemma_reach_through_ancestor(nodes, i, (j - 1) as nat, 0);
            lemma_root_is_near(nodes, i, (j - 1) as nat);
        }
    }
}

/// Where every parent exists, a node that is not rooted leads to a node
/// that is its own ancestor: the node that this function returns, with the
/// number of steps that lead from it back to itself.
pub proof fn lemma_unrooted_leads_to_a_circle(nodes: Seq<XacActorNodeView>, i: int) -> (r: (
    int,
    nat,
))
    requires
        forall|x: int| 0 <= x < nodes.len() ==> parent_in_range(nodes, x),
        0 <= i < nodes.len(),
        !rooted(nodes, i),
    ensures
        0 <= r.0 < nodes.len(),
        r.1 >= 1,
        ancestor(nodes, r.0, r.1) == r.0,
{
    let n = nodes.len();
    let way = Seq::new(n + 1, |j: int| ancestor(nodes, i, j as nat));
    assert forall|j: int| 0 <= j < way.len() implies 0 <= #[trigger] way[j] < n by {
        lemma_unrooted_stays_inside(nodes, i, j as nat);
    }
    let (a, b) = lemma_two_are_the_same(way, n);
    assert(way[a] == ancestor(nodes, i, a as nat));
    assert(way[b] == ancestor(nodes, i, b as nat));
    lemma_ancestor_add(nodes, i, a as nat, (b - a) as nat);
    assert(a + (b - a) == b);
    (way[a], (b - a) as nat)
}

/// A list of nodes is a forest exactly if every parent exists and no node
/// is its own ancestor.
pub proof fn lemma_forest_means_no_circle(nodes: Seq<XacActorNodeView>)
    ensures
        is_forest(nodes) <==> (forall|x: int| 0 <= x < nodes.len() ==> parent_in_range(nodes, x))
            && (forall|x: int, k: nat|
            0 <= x < nodes.len() && k >= 1 ==> #[trigger] ancestor(nodes, x, k) != x),
{
    if is_forest(nodes) {
        assert forall|x: int| 0 <= x < nodes.len() implies parent_in_range(nodes, x) by {
            assert(rooted(nodes, x));
        }
        assert forall|x: int, k: nat| 0 <= x < nodes.len() && k >= 1 implies #[trigger] ancestor(
            nodes,
            x,
            k,
        ) != x by {
            lemma_no_node_is_its_own_ancestor(nodes, x, k);
        }
    }
    if (forall|x: int| 0 <= x < nodes.len() ==> parent_in_range(nodes, x)) && (forall|
        x: int,
        k: nat,
    |
        0 <= x < nodes.len() && k >= 1 ==> #[trigger] ancestor(nodes, x, k) != x) {
        assert forall|i: int| 0 <= i < nodes.len() implies parent_in_range(nodes, i)
            && #[trigger] rooted(nodes, i) by {
            if !rooted(nodes, i) {
                let (x, k) = lemma_unrooted_leads_to_a_circle(nodes, i);
                assert(ancestor(nodes, x, k) != x);
            }
        }
    }
}

/// A node whose parent is a node from which a root is reached reaches that
/// root itself; and a node without parent is a root.
pub proof fn lemma_rooted_by_parent(nodes: Seq<XacActorNodeView>, i: int)
    requires
        0 <= i < nodes.len(),
        nodes[i].parent_node_id == -1 || (0 <= nodes[i].parent_node_id < nodes.len() && rooted(
            nodes,
            nodes[i].parent_node_id as int,
        )),
    ensures
        rooted(nodes, i),
{
    if nodes[i].parent_node_id != -1 {
        assert(reaches_root(nodes, i, nodes.len() + 1));
        lemma_root_is_near(nodes, i, nodes.len() + 1);
    }
}

/// Different numbers below `n` are at most `n`.
pub proof fn lemma_distinct_are_few(s: Seq<int>, n: nat)
    requires
        s.no_duplicates(),
        forall|j: int| 0 <= j < s.len() ==> 0 <= #[trigger] s[j] < n,
    ensures
        s.len() <= n,
{
    if s.len() > n {
        let (a, b) = lemma_two_are_the_same(s, n);
    }
}

/// `way` is a way upwards: each of its nodes is the parent of the one before.
pub open spec fn leads_up(nodes: Seq<XacActorNodeView>, way: Seq<int>) -> bool {
    &&& forall|j: int| 0 <= j < way.len() ==> 0 <= #[trigger] way[j] < nodes.len()
    &&& forall|j: int|
        0 <= j < way.len() - 1 ==> nodes[#[trigger] way[j]].parent_node_id == way[j + 1]
}

/// From every node of a way upwards whose last node is a root, or has a
/// parent from which a root is reached, a root is reached.
pub proof fn lemma_way_to_root(nodes: Seq<XacActorNodeView>, way: Seq<int>, j: int)
    requires
        leads_up(nodes, way),
        0 <= j < way.len(),
        nodes[way.last()].parent_node_id == -1 || (0 <= nodes[way.last()].parent_node_id
            < nodes.len() && rooted(nodes, nodes[way.last()].parent_node_id as int)),
    ensures
        rooted(nodes, way[j]),
    decreases way.len() - j,
{
    if j < way.len() - 1 {
        lemma_way_to_root(nodes, way, j + 1);
        assert(nodes[way[j]].parent_node_id == way[j + 1]);
    }
    lemma_rooted_by_parent(nodes, way[j]);
}

/// From no node of a way upwards whose last node has a parent on the way
/// is a root reached, in however many steps.
pub proof fn lemma_way_in_a_circle(
    nodes: Seq<XacActorNodeView>,
    way: Seq<int>,
    back: int,
    j: int,
    steps: nat,
)
    requires
        leads_up(nodes, way),
        0 <= back < way.len(),
        nodes[way.last()].parent_node_id == way[back],
        0 <= j < way.len(),
    ensures
        !reaches_root(nodes, way[j], steps),
    decreases steps,
{
    if j < way.len() - 1 {
        assert(nodes[way[j]].parent_node_id == way[j + 1]);
        if steps > 0 {
            lemma_way_in_a_circle(nodes, way, back, j + 1, (steps - 1) as nat);
        }
    } else {
        if steps > 0 {
            lemma_way_in_a_circle(nodes, way, back, back, (steps - 1) as nat);
        }
    }
}

/// What holds of the marks between two climbs, `done` climbs having been
/// made: a node is marked by the number of the climb that passed it, and
/// from every marked node a root is reached.
pub open spec fn marks_hold(nodes: Seq<XacActorNodeView>, seen: Seq<usize>, done: int) -> bool {
    &&& seen.len() == nodes.len()
    &&& forall|x: int|
        0 <= x < nodes.len() ==> (#[trigger] seen[x]) <= done && (seen[x] != 0 ==> rooted(
            nodes,
            x,
        ))
}

/// Follows the parents from node `i`, marking each node passed, until it
/// meets a root or a node marked by an earlier climb, from which a root is
/// reached, or a node that it has marked itself, which closes a circle. Says
/// whether a root is reached from node `i`.
fn climb(nodes: &Vec<XacActorNode>, seen: &mut Vec<usize>, i: usize) -> (up: bool)
    requires
        i < nodes@.len(),
        first_stray(views(nodes@), 0) == nodes@.len(),
        marks_hold(views(nodes@), old(seen)@, i as int),
    ensures
        up == rooted(views(nodes@), i as int),
        up ==> marks_hold(views(nodes@), final(seen)@, i + 1),
{
    let n = nodes.len();
    let stamp: usize = i + 1;
    let mut cur: usize = i;
    let ghost v = views(nodes@);
    let ghost mut way: Seq<int> = Seq::empty();
    proof {
        lemma_first_stray(v, 0);
    }
    loop
        invariant
            cur < n,
            n == nodes@.len(),
            seen@.len() == n,
            stamp == i + 1,
            i < n,
            v == views(nodes@),
            forall|k: int| 0 <= k < n ==> parent_in_range(v, k),
            leads_up(v, way),
            way.no_duplicates(),
            forall|j: int| 0 <= j < way.len() ==> seen@[#[trigger] way[j]] == stamp,
            forall|x: int| 0 <= x < n && #[trigger] seen@[x] == stamp ==> way.contains(x),
            forall|x: int|
                0 <= x < n && #[trigger] seen@[x] != stamp ==> seen@[x] <= i && (seen@[x] != 0
                    ==> rooted(v, x)),
            way.len() == 0 ==> cur == i,
            way.len() > 0 ==> way[0] == i && v[way.last()].parent_node_id == cur,
        decreases n - way.len(),
    {
        let mark = seen[cur];
        if mark == stamp {
            proof {
                assert(way.contains(cur as int));
                let back = choose|back: int| 0 <= back < way.len() && way[back] == cur as int;
                lemma_way_in_a_circle(v, way, back, 0, n as nat);
            }
            return false;
        }
        if mark != 0 {
            proof {
                assert(rooted(v, cur as int));
                assert forall|x: int| 0 <= x < n implies (#[trigger] seen@[x]) <= i + 1 && (seen@[x]
                    != 0 ==> rooted(v, x)) by {
                    if seen@[x] == stamp {
                        let j = choose|j: int| 0 <= j < way.len() && way[j] == x;
                        lemma_way_to_root(v, way, j);
                    }
                }
                if way.len() > 0 {
                    lemma_way_to_root(v, way, 0);
                }
            }
            return true;
        }
        proof {
            let longer = way.push(cur as int);
            assert(longer.no_duplicates()) by {
                assert forall|a: int, b: int|
                    0 <= a < longer.len() && 0 <= b < longer.len() && a != b implies longer[a]
                    != longer[b] by {
                    if a < way.len() {
                        assert(seen@[way[a]] == stamp);
                    }
                    if b < way.len() {
                        assert(seen@[way[b]] == stamp);
                    }
                }
            }
            assert forall|j: int| 0 <= j < longer.len() implies 0 <= #[trigger] longer[j] < n by {
                if j < way.len() {
                    assert(longer[j] == way[j]);
                }
            }
            lemma_distinct_are_few(longer, n as nat);
        }
        let ghost before = seen@;
        seen.set(cur, stamp);
        proof {
            let longer = way.push(cur as int);
            assert(leads_up(v, longer)) by {
                assert forall|j: int| 0 <= j < longer.len() - 1 implies v[#[trigger] longer[j]]
                    .parent_node_id == longer[j + 1] by {
                    if j < way.len() - 1 {
                        assert(longer[j] == way[j]);
                        assert(v[way[j]].parent_node_id == way[j + 1]);
                    }
                }
                assert forall|j: int| 0 <= j < longer.len() implies 0 <= #[trigger] longer[j]
                    < v.len() by {
                    if j < way.len() {
                        assert(longer[j] == way[j]);
                    }
                }
            }
            assert forall|j: int| 0 <= j < longer.len() implies seen@[#[trigger] longer[j]]
                == stamp by {
                if j < way.len() {
                    assert(longer[j] == way[j]);
                    assert(before[way[j]] == stamp);
                }
            }
            assert forall|x: int| 0 <= x < n && #[trigger] seen@[x] == stamp implies longer
                .contains(x) by {
                if x == cur {
                    assert(longer[way.len() as int] == x);
                } else {
                    assert(before[x] == stamp);
                    let j = choose|j: int| 0 <= j < way.len() && way[j] == x;
                    assert(longer[j] == x);
                }
            }
            way = longer;
        }
        let parent = nodes[cur].parent_node_id;
        assert(parent_in_range(v, cur as int));
        if parent == -1 {
            proof {
                assert forall|x: int| 0 <= x < n implies (#[trigger] seen@[x]) <= i + 1 && (seen@[x]
                    != 0 ==> rooted(v, x)) by {
                    if seen@[x] == stamp {
                        let j = choose|j: int| 0 <= j < way.len() && way[j] == x;
                        lemma_way_to_root(v, way, j);
                    } else {
                        assert(before[x] == seen@[x]);
                    }
                }
                lemma_way_to_root(v, way, 0);
            }
            return true;
        }
        cur = parent as usize;
    }
}

/// Finds the first node from which following the parents does not arrive at
/// a root. Each node is passed once or twice, however deep the hierarchy.
pub(crate) fn find_unrooted(nodes: &Vec<XacActorNode>) -> (at: usize)
    requires
        first_stray(views(nodes@), 0) == nodes@.len(),
    ensures
        at == first_unrooted(views(nodes@), 0),
        at <= nodes@.len(),
{
    let n = nodes.len();
    let mut seen: Vec<usize> = vec![0; n];
    let mut i: usize = 0;
    while i < n
        invariant
            i <= n,
            n == nodes@.len(),
            first_stray(views(nodes@), 0) == nodes@.len(),
            first_unrooted(views(nodes@), 0) == first_unrooted(views(nodes@), i as int),
            marks_hold(views(nodes@), seen@, i as int),
        decreases n - i,
    {
        if !climb(nodes, &mut seen, i) {
            return i;
        }
        i = i + 1;
    }
    i
}

/// Says whether the nodes form a forest: whether every parent exists and
/// from every node a root is reached, so that no node is its own ancestor.
pub fn forms_forest(nodes: &Vec<XacActorNode>) -> (yes: bool)
    ensures
        yes == is_forest(views(nodes@)),
{
    proof {
        lemma_searches_decide(views(nodes@));
    }
    if find_stray_parent(nodes) < nodes.len() {
        return false;
    }
    find_unrooted(nodes) == nodes.len()
}

/// Number of roots among the nodes: those whose parent is -1.
pub open spec fn root_count(nodes: Seq<XacActorNodeView>) -> nat
    decreases nodes.len(),
{
    if nodes.len() == 0 {
        0
    } else if nodes.last().parent_node_id == -1 {
        root_count(nodes.drop_last()) + 1
    } else {
        root_count(nodes.drop_last())
    }
}

/// Counts the roots among the nodes, to hold against the number that a
/// hierarchy declares.
pub fn count_roots(nodes: &Vec<XacActorNode>) -> (roots: usize)
    ensures
        roots == root_count(views(nodes@)),
{
    let n = nodes.len();
    let mut roots: usize = 0;
    let mut i: usize = 0;
    proof {
        assert(views(nodes@).take(0).len() == 0);
    }
    while i < n
        invariant
            i <= n,
            n == nodes@.len(),
            roots <= i,
            roots == root_count(views(nodes@).take(i as int)),
        decreases n - i,
    {
        proof {
            assert(views(nodes@).take(i + 1).drop_last() =~= views(nodes@).take(i as int));
        }
        if nodes[i].parent_node_id == -1 {
            roots = roots + 1;
        }
        i = i + 1;
    }
    proof {
        assert(views(nodes@).take(n as int) =~= views(nodes@));
    }
    roots
}

/// A list of nodes with a root among them counts at least one root.
pub proof fn lemma_root_is_counted(nodes: Seq<XacActorNodeView>, i: int)
    requires
        0 <= i < nodes.len(),
        nodes[i].parent_node_id == -1,
    ensures
        root_count(nodes) >= 1,
    decreases nodes.len(),
{
    if i < nodes.len() - 1 {
        assert(nodes.drop_last()[i] == nodes[i]);
        lemma_root_is_counted(nodes.drop_last(), i);
    }
}

/// A forest that is not empty has a root.
pub proof fn lemma_forest_has_a_root(nodes: Seq<XacActorNodeView>)
    requires
        is_forest(nodes),
        nodes.len() > 0,
    ensures
        root_count(nodes) >= 1,
{
    assert(rooted(nodes, 0));
    let d = lemma_root_distance(nodes, 0, nodes.len());
    lemma_first_root_on_the_way(nodes, 0, d);
}

/// If the way up from a node of a forest has led past a root after `d`
/// steps, a root is counted.
proof fn lemma_first_root_on_the_way(nodes: Seq<XacActorNodeView>, i: int, d: nat)
    requires
        is_forest(nodes),
        0 <= i < nodes.len(),
        ancestor(nodes, i, d) == -1,
    ensures
        root_count(nodes) >= 1,
    decreases d,
{
    if d > 0 {
        lemma_ancestor_in_range(nodes, i, (d - 1) as nat);
        let before = ancestor(nodes, i, (d - 1) as nat);
        if before == -1 {
            lemma_first_root_on_the_way(nodes, i, (d - 1) as nat);
        } else {
            lemma_root_is_counted(nodes, before);
        }
    }
}

} // verus!
