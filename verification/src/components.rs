//! Breadth-first discovery of the wired components of the power grid.

use vstd::prelude::*;
use vstd::set_lib::{set_int_range, lemma_int_range};

verus! {

/// Step `i` of walk `w` follows a wire.
pub open spec fn wired_step(nb: Seq<Vec<usize>>, w: Seq<usize>, i: int) -> bool {
    nb[w[i] as int]@.contains(w[i + 1])
}

/// A non-empty sequence of blocks, each wired to the next.
pub open spec fn is_walk(nb: Seq<Vec<usize>>, w: Seq<usize>) -> bool {
    &&& w.len() >= 1
    &&& forall|i: int| 0 <= i < w.len() ==> #[trigger] w[i] < nb.len()
    &&& forall|i: int| 0 <= i < w.len() - 1 ==> #[trigger] wired_step(nb, w, i)
}

/// Block `t` can be reached from block `s` along wires.
pub open spec fn reachable(nb: Seq<Vec<usize>>, s: usize, t: usize) -> bool {
    exists|w: Seq<usize>| #[trigger] is_walk(nb, w) && w[0] == s && w.last() == t
}

/// The plain view of a list of components.
pub open spec fn comp_views(comps: Seq<Vec<usize>>) -> Seq<Seq<usize>> {
    comps.map_values(|c: Vec<usize>| c@)
}

/// `comp_of` and `pos_of` locate every assigned block in `cs`, and every entry of `cs` is located.
#[verifier::opaque]
spec fn located(cs: Seq<Seq<usize>>, comp_of: Map<int, int>, pos_of: Map<int, int>, n: int) -> bool {
    &&& forall|x: int| #[trigger] comp_of.contains_key(x) ==> {
        &&& 0 <= x < n
        &&& pos_of.contains_key(x)
        &&& 0 <= comp_of[x] < cs.len()
        &&& 0 <= pos_of[x] < cs[comp_of[x]].len()
        &&& cs[comp_of[x]][pos_of[x]] == x
    }
    &&& forall|k: int, p: int| 0 <= k < cs.len() && 0 <= p < cs[k].len() ==> {
        &&& comp_of.contains_key(#[trigger] cs[k][p] as int)
        &&& comp_of[cs[k][p] as int] == k
        &&& pos_of[cs[k][p] as int] == p
    }
}

/// Every block of a component before `k`, and of component `k` before position `h`,
/// has all its wired neighbours assigned to its own component or an earlier one.
#[verifier::opaque]
spec fn closed_before(nb: Seq<Vec<usize>>, comp_of: Map<int, int>, pos_of: Map<int, int>, k: int, h: int) -> bool {
    forall|x: int, j: int|
        #![trigger comp_of[x], nb[x]@[j]]
        comp_of.contains_key(x) && (comp_of[x] < k || (comp_of[x] == k && pos_of[x] < h))
            && 0 <= j < nb[x]@.len() ==> {
            &&& comp_of.contains_key(nb[x]@[j] as int)
            &&& comp_of[nb[x]@[j] as int] <= comp_of[x]
        }
}

/// Every assigned block is reachable from the first block of its component.
#[verifier::opaque]
spec fn sound(nb: Seq<Vec<usize>>, cs: Seq<Seq<usize>>, comp_of: Map<int, int>) -> bool {
    forall|x: int| #[trigger] comp_of.contains_key(x) ==> reachable(nb, cs[comp_of[x]][0], x as usize)
}

/// Each component starts at the first block not in an earlier component.
#[verifier::opaque]
spec fn starts_first(cs: Seq<Seq<usize>>, comp_of: Map<int, int>) -> bool {
    forall|k: int, j: int| 0 <= k < cs.len() && 0 <= j < cs[k][0] ==> #[trigger] assigned_before(comp_of, j, k)
}

/// Block `j` is assigned to a component before `k`.
spec fn assigned_before(comp_of: Map<int, int>, j: int, k: int) -> bool {
    comp_of.contains_key(j) && comp_of[j] < k
}

/// Block `b` lies in one of the components before `k` (in any, for `k == comps.len()`).
pub open spec fn in_earlier(comps: Seq<Vec<usize>>, k: int, b: int) -> bool {
    exists|k2: int, p2: int| 0 <= k2 < k && k2 < comps.len() && 0 <= p2 < comps[k2]@.len() && #[trigger] comps[k2]@[p2] == b
}

proof fn lemma_walk_extend(nb: Seq<Vec<usize>>, w: Seq<usize>, y: usize)
    requires
        is_walk(nb, w),
        y < nb.len(),
        nb[w.last() as int]@.contains(y),
    ensures
        is_walk(nb, w.push(y)),
        w.push(y)[0] == w[0],
        w.push(y).last() == y,
{
    let w2 = w.push(y);
    assert forall|i: int| 0 <= i < w2.len() - 1 implies #[trigger] wired_step(nb, w2, i) by {
        if i < w.len() - 1 {
            assert(wired_step(nb, w, i));
        }
    }
    assert forall|i: int| 0 <= i < w2.len() implies #[trigger] w2[i] < nb.len() by {
        if i < w.len() {
            assert(w2[i] == w[i]);
        }
    }
}

/// Opening a new component `k` with the unassigned block `s`.
proof fn lemma_start(nb: Seq<Vec<usize>>, cs: Seq<Seq<usize>>, comp_of: Map<int, int>, pos_of: Map<int, int>, n: int, s: usize)
    requires
        located(cs, comp_of, pos_of, n),
        closed_before(nb, comp_of, pos_of, cs.len() as int, 0),
        sound(nb, cs, comp_of),
        starts_first(cs, comp_of),
        0 <= s < n,
        n == nb.len(),
        !comp_of.contains_key(s as int),
    ensures
        located(cs.push(seq![s]), comp_of.insert(s as int, cs.len() as int), pos_of.insert(s as int, 0), n),
        closed_before(nb, comp_of.insert(s as int, cs.len() as int), pos_of.insert(s as int, 0), cs.len() as int, 0),
        sound(nb, cs.push(seq![s]), comp_of.insert(s as int, cs.len() as int)),
        starts_first(cs, comp_of.insert(s as int, cs.len() as int)),
{
    reveal(located);
    reveal(closed_before);
    reveal(sound);
    reveal(starts_first);
    let k = cs.len() as int;
    let cs2 = cs.push(seq![s]);
    let co2 = comp_of.insert(s as int, k);
    let po2 = pos_of.insert(s as int, 0);
    assert forall|x: int| #[trigger] co2.contains_key(x) implies {
        &&& 0 <= x < n
        &&& po2.contains_key(x)
        &&& 0 <= co2[x] < cs2.len()
        &&& 0 <= po2[x] < cs2[co2[x]].len()
        &&& cs2[co2[x]][po2[x]] == x
    } by {
        if x != s as int {
            assert(comp_of.contains_key(x));
        }
    }
    assert forall|kk: int, p: int| 0 <= kk < cs2.len() && 0 <= p < cs2[kk].len() implies {
        &&& co2.contains_key(#[trigger] cs2[kk][p] as int)
        &&& co2[cs2[kk][p] as int] == kk
        &&& po2[cs2[kk][p] as int] == p
    } by {
        if kk < k {
            assert(cs2[kk] == cs[kk]);
            assert(comp_of.contains_key(cs[kk][p] as int));
        }
    }
    assert forall|kk: int, j: int| 0 <= kk < cs.len() && 0 <= j < cs[kk][0] implies #[trigger] assigned_before(co2, j, kk) by {
        assert(assigned_before(comp_of, j, kk));
    }
    assert forall|x: int| #[trigger] co2.contains_key(x) implies reachable(nb, cs2[co2[x]][0], x as usize) by {
        if x == s as int {
            assert(seq![s][0] == s);
            assert(is_walk(nb, seq![s]));
            assert(seq![s][0] == s && seq![s].last() == s);
        } else {
            assert(comp_of.contains_key(x));
            assert(cs2[co2[x]] == cs[comp_of[x]]);
        }
    }
}

/// Assigning the unassigned neighbour `y` of the block `x` being expanded to
/// component `k`, at the end of its queue.
proof fn lemma_visit(
    nb: Seq<Vec<usize>>,
    cs0: Seq<Seq<usize>>,
    q: Seq<usize>,
    comp_of: Map<int, int>,
    pos_of: Map<int, int>,
    n: int,
    h: int,
    x: usize,
    y: usize,
)
    requires
        located(cs0.push(q), comp_of, pos_of, n),
        closed_before(nb, comp_of, pos_of, cs0.len() as int, h),
        sound(nb, cs0.push(q), comp_of),
        starts_first(cs0, comp_of),
        0 <= h < q.len(),
        q[h] == x,
        0 <= y < n,
        n == nb.len(),
        !comp_of.contains_key(y as int),
        nb[x as int]@.contains(y),
    ensures
        located(cs0.push(q.push(y)), comp_of.insert(y as int, cs0.len() as int), pos_of.insert(y as int, q.len() as int), n),
        closed_before(nb, comp_of.insert(y as int, cs0.len() as int), pos_of.insert(y as int, q.len() as int), cs0.len() as int, h),
        sound(nb, cs0.push(q.push(y)), comp_of.insert(y as int, cs0.len() as int)),
        starts_first(cs0, comp_of.insert(y as int, cs0.len() as int)),
{
    reveal(located);
    reveal(closed_before);
    reveal(sound);
    reveal(starts_first);
    let k = cs0.len() as int;
    let cs1 = cs0.push(q);
    let cs2 = cs0.push(q.push(y));
    let co2 = comp_of.insert(y as int, k);
    let po2 = pos_of.insert(y as int, q.len() as int);
    assert(cs1[k] == q);
    assert(comp_of.contains_key(cs1[k][h] as int));
    assert forall|z: int| #[trigger] co2.contains_key(z) implies {
        &&& 0 <= z < n
        &&& po2.contains_key(z)
        &&& 0 <= co2[z] < cs2.len()
        &&& 0 <= po2[z] < cs2[co2[z]].len()
        &&& cs2[co2[z]][po2[z]] == z
    } by {
        if z != y as int {
            assert(comp_of.contains_key(z));
            if comp_of[z] < k {
                assert(cs2[comp_of[z]] == cs1[comp_of[z]]);
            } else {
                assert(cs2[k] == q.push(y));
            }
        }
    }
    assert forall|kk: int, p: int| 0 <= kk < cs2.len() && 0 <= p < cs2[kk].len() implies {
        &&& co2.contains_key(#[trigger] cs2[kk][p] as int)
        &&& co2[cs2[kk][p] as int] == kk
        &&& po2[cs2[kk][p] as int] == p
    } by {
        if kk < k {
            assert(cs2[kk] == cs1[kk]);
            assert(comp_of.contains_key(cs1[kk][p] as int));
        } else if p < q.len() {
            assert(cs2[kk][p] == cs1[kk][p]);
            assert(comp_of.contains_key(cs1[kk][p] as int));
        }
    }
    assert forall|z: int, j: int|
        #![trigger co2[z], nb[z]@[j]]
        co2.contains_key(z) && (co2[z] < k || (co2[z] == k && po2[z] < h))
            && 0 <= j < nb[z]@.len() implies {
            &&& co2.contains_key(nb[z]@[j] as int)
            &&& co2[nb[z]@[j] as int] <= co2[z]
        } by {
        if z != y as int {
            assert(comp_of[z] == co2[z]);
            assert(nb[z]@[j] == nb[z]@[j]);
        }
    }
    assert forall|z: int| #[trigger] co2.contains_key(z) implies reachable(nb, cs2[co2[z]][0], z as usize) by {
        if z == y as int {
            assert(comp_of.contains_key(x as int));
            let w = choose|w: Seq<usize>| #[trigger] is_walk(nb, w) && w[0] == cs1[k][0] && w.last() == x;
            lemma_walk_extend(nb, w, y);
            assert(cs2[k][0] == cs1[k][0]);
        } else {
            assert(comp_of.contains_key(z));
            if comp_of[z] < k {
                assert(cs2[comp_of[z]] == cs1[comp_of[z]]);
            } else {
                assert(cs2[k][0] == cs1[k][0]);
            }
        }
    }
    assert forall|kk: int, j: int| 0 <= kk < cs0.len() && 0 <= j < cs0[kk][0] implies #[trigger] assigned_before(co2, j, kk) by {
        assert(assigned_before(comp_of, j, kk));
    }
}

/// Once every neighbour of the block at position `h` of component `k` is
/// assigned to a component up to `k`, the first `h + 1` blocks are closed.
proof fn lemma_expanded(nb: Seq<Vec<usize>>, comp_of: Map<int, int>, pos_of: Map<int, int>, k: int, h: int, x: usize)
    requires
        closed_before(nb, comp_of, pos_of, k, h),
        comp_of.contains_key(x as int),
        comp_of[x as int] == k,
        pos_of[x as int] == h,
        forall|z: int| comp_of.contains_key(z) && comp_of[z] == k && pos_of[z] == h ==> z == x as int,
        forall|j: int| 0 <= j < nb[x as int]@.len() ==> comp_of.contains_key(#[trigger] nb[x as int]@[j] as int)
            && comp_of[nb[x as int]@[j] as int] <= k,
    ensures
        closed_before(nb, comp_of, pos_of, k, h + 1),
{
    reveal(closed_before);
    assert forall|z: int, j: int|
        #![trigger comp_of[z], nb[z]@[j]]
        comp_of.contains_key(z) && (comp_of[z] < k || (comp_of[z] == k && pos_of[z] < h + 1))
            && 0 <= j < nb[z]@.len() implies {
            &&& comp_of.contains_key(nb[z]@[j] as int)
            &&& comp_of[nb[z]@[j] as int] <= comp_of[z]
        } by {
        if comp_of[z] == k && pos_of[z] == h {
            assert(z == x as int);
            assert(nb[x as int]@[j] == nb[x as int]@[j]);
        }
    }
}

/// Closing component `k` once its whole queue is expanded.
proof fn lemma_close(nb: Seq<Vec<usize>>, cs0: Seq<Seq<usize>>, q: Seq<usize>, comp_of: Map<int, int>, pos_of: Map<int, int>, n: int, s: usize)
    requires
        located(cs0.push(q), comp_of, pos_of, n),
        closed_before(nb, comp_of, pos_of, cs0.len() as int, q.len() as int),
        starts_first(cs0, comp_of),
        q.len() >= 1,
        q[0] == s,
        forall|t: int| 0 <= t < s ==> #[trigger] assigned_before(comp_of, t, cs0.len() as int),
    ensures
        closed_before(nb, comp_of, pos_of, cs0.len() as int + 1, 0),
        starts_first(cs0.push(q), comp_of),
{
    reveal(located);
    reveal(closed_before);
    reveal(starts_first);
    let k = cs0.len() as int;
    assert forall|z: int, j: int|
        #![trigger comp_of[z], nb[z]@[j]]
        comp_of.contains_key(z) && (comp_of[z] < k + 1 || (comp_of[z] == k + 1 && pos_of[z] < 0))
            && 0 <= j < nb[z]@.len() implies {
            &&& comp_of.contains_key(nb[z]@[j] as int)
            &&& comp_of[nb[z]@[j] as int] <= comp_of[z]
        } by {
        if comp_of[z] == k {
            assert(cs0.push(q)[k] == q);
        }
    }
    let cs2 = cs0.push(q);
    assert forall|kk: int, j: int| 0 <= kk < cs2.len() && 0 <= j < cs2[kk][0] implies #[trigger] assigned_before(comp_of, j, kk) by {
        if kk < k {
            assert(cs2[kk] == cs0[kk]);
            assert(assigned_before(comp_of, j, kk));
        } else {
            assert(cs2[kk] == q);
            assert(kk == k);
            assert(j < s);
            assert(assigned_before(comp_of, j, cs0.len() as int));
        }
    }
}

proof fn lemma_views_push(comps: Seq<Vec<usize>>, q: Vec<usize>)
    ensures
        comp_views(comps.push(q)) == comp_views(comps).push(q@),
{
    assert(comp_views(comps.push(q)) =~= comp_views(comps).push(q@));
}

/// `comps` splits the blocks reachable from blocks `0..starts` of the wiring
/// `nb` into breadth-first components, in the order their searches started.
pub open spec fn is_component_split(nb: Seq<Vec<usize>>, starts: int, comps: Seq<Vec<usize>>) -> bool {
    // every component is non-empty and starts at a starting block
    &&& forall|k: int| #![trigger comps[k]] 0 <= k < comps.len() ==> comps[k]@.len() > 0 && comps[k]@[0] < starts
    // every block appears at most once over all components
    &&& forall|k1: int, p1: int, k2: int, p2: int|
        0 <= k1 < comps.len() && 0 <= p1 < comps[k1]@.len() && 0 <= k2 < comps.len() && 0 <= p2 < comps[k2]@.len()
        && #[trigger] comps[k1]@[p1] == #[trigger] comps[k2]@[p2] ==> k1 == k2 && p1 == p2
    // every starting block is in some component
    &&& forall|b: int| 0 <= b < starts ==> #[trigger] in_earlier(comps, comps.len() as int, b)
    // every block of a component is reachable from its starting block
    &&& forall|k: int, p: int| 0 <= k < comps.len() && 0 <= p < comps[k]@.len()
        ==> reachable(nb, comps[k]@[0], #[trigger] comps[k]@[p])
    // a block's wired neighbours lie in its component or an earlier one
    &&& forall|k: int, p: int, j: int| 0 <= k < comps.len() && 0 <= p < comps[k]@.len()
        && 0 <= j < nb[comps[k]@[p] as int]@.len()
        ==> in_earlier(comps, k + 1, #[trigger] nb[comps[k]@[p] as int]@[j] as int)
    // each component starts at the first starting block not in an earlier component
    &&& forall|k: int, b: int| 0 <= k < comps.len() && 0 <= b < comps[k]@[0] ==> #[trigger] in_earlier(comps, k, b)
}

/// Wiring that runs both ways.
pub open spec fn symmetric(nb: Seq<Vec<usize>>) -> bool {
    forall|a: int, b: usize| 0 <= a < nb.len() && #[trigger] nb[a]@.contains(b) ==> b < nb.len() && nb[b as int]@.contains(a as usize)
}

proof fn lemma_walk_reverse(nb: Seq<Vec<usize>>, w: Seq<usize>)
    requires
        symmetric(nb),
        is_walk(nb, w),
    ensures
        is_walk(nb, w.reverse()),
        w.reverse()[0] == w.last(),
        w.reverse().last() == w[0],
{
    let r = w.reverse();
    assert forall|i: int| 0 <= i < r.len() - 1 implies #[trigger] wired_step(nb, r, i) by {
        let a = w.len() - 2 - i;
        assert(wired_step(nb, w, a));
        assert(r[i] == w[a + 1]);
        assert(r[i + 1] == w[a]);
        assert(nb[w[a] as int]@.contains(w[a + 1]));
        assert(w[a] < nb.len());
    }
    assert forall|i: int| 0 <= i < r.len() implies #[trigger] r[i] < nb.len() by {
        assert(r[i] == w[w.len() - 1 - i]);
    }
}

proof fn lemma_walk_concat(nb: Seq<Vec<usize>>, w1: Seq<usize>, w2: Seq<usize>)
    requires
        is_walk(nb, w1),
        is_walk(nb, w2),
        w1.last() == w2[0],
    ensures
        is_walk(nb, w1 + w2.drop_first()),
        (w1 + w2.drop_first())[0] == w1[0],
        (w1 + w2.drop_first()).last() == w2.last(),
{
    let c = w1 + w2.drop_first();
    assert forall|i: int| 0 <= i < c.len() - 1 implies #[trigger] wired_step(nb, c, i) by {
        if i < w1.len() - 1 {
            assert(wired_step(nb, w1, i));
        } else {
            let t = i - (w1.len() - 1);
            assert(wired_step(nb, w2, t));
            if t == 0 {
                assert(c[i] == w1.last());
            } else {
                assert(c[i] == w2[t]);
            }
            assert(c[i + 1] == w2[t + 1]);
        }
    }
    assert forall|i: int| 0 <= i < c.len() implies #[trigger] c[i] < nb.len() by {
        if i < w1.len() {
            assert(c[i] == w1[i]);
        } else {
            assert(c[i] == w2[i - w1.len() + 1]);
        }
    }
}

/// Along any walk out of the first `kk + 1` components the walk never leaves them.
proof fn lemma_walk_stays(nb: Seq<Vec<usize>>, starts: int, comps: Seq<Vec<usize>>, w: Seq<usize>, kk: int)
    requires
        is_component_split(nb, starts, comps),
        is_walk(nb, w),
        in_earlier(comps, kk + 1, w[0] as int),
    ensures
        in_earlier(comps, kk + 1, w.last() as int),
    decreases w.len(),
{
    if w.len() > 1 {
        let v = w.drop_last();
        assert forall|i: int| 0 <= i < v.len() - 1 implies #[trigger] wired_step(nb, v, i) by {
            assert(wired_step(nb, w, i));
        }
        assert forall|i: int| 0 <= i < v.len() implies #[trigger] v[i] < nb.len() by {
            assert(v[i] == w[i]);
        }
        lemma_walk_stays(nb, starts, comps, v, kk);
        let z = v.last();
        let (k2, p2) = choose|k2: int, p2: int| 0 <= k2 < kk + 1 && 0 <= p2 < comps[k2]@.len() && #[trigger] comps[k2]@[p2] == z as int;
        assert(wired_step(nb, w, w.len() - 2));
        let j = choose|j: int| 0 <= j < nb[z as int]@.len() && nb[z as int]@[j] == w.last();
        assert(in_earlier(comps, k2 + 1, nb[comps[k2]@[p2] as int]@[j] as int));
        let (k3, p3) = choose|k3: int, p3: int| 0 <= k3 < k2 + 1 && 0 <= p3 < comps[k3]@.len() && #[trigger] comps[k3]@[p3] == w.last() as int;
        assert(in_earlier(comps, kk + 1, w.last() as int));
    }
}

/// With wiring that runs both ways, two blocks share a component exactly when
/// one can be reached from the other: the components are the connected pieces
/// of the grid.
pub proof fn law_components_are_connected_pieces(
    nb: Seq<Vec<usize>>,
    starts: int,
    comps: Seq<Vec<usize>>,
    k1: int,
    p1: int,
    k2: int,
    p2: int,
)
    requires
        symmetric(nb),
        forall|b: int, j: int| 0 <= b < nb.len() && 0 <= j < nb[b]@.len() ==> #[trigger] nb[b]@[j] < nb.len(),
        is_component_split(nb, starts, comps),
        forall|k: int, p: int| 0 <= k < comps.len() && 0 <= p < comps[k]@.len() ==> #[trigger] comps[k]@[p] < nb.len(),
        0 <= k1 < comps.len(),
        0 <= p1 < comps[k1]@.len(),
        0 <= k2 < comps.len(),
        0 <= p2 < comps[k2]@.len(),
    ensures
        k1 == k2 <==> reachable(nb, comps[k1]@[p1], comps[k2]@[p2]),
{
    let x = comps[k1]@[p1];
    let y = comps[k2]@[p2];
    if k1 == k2 {
        let s = comps[k1]@[0];
        assert(reachable(nb, s, x));
        assert(reachable(nb, s, y));
        let wx = choose|w: Seq<usize>| #[trigger] is_walk(nb, w) && w[0] == s && w.last() == x;
        let wy = choose|w: Seq<usize>| #[trigger] is_walk(nb, w) && w[0] == s && w.last() == y;
        lemma_walk_reverse(nb, wx);
        lemma_walk_concat(nb, wx.reverse(), wy);
        assert(is_walk(nb, wx.reverse() + wy.drop_first()));
    } else {
        if reachable(nb, x, y) {
            let w = choose|w: Seq<usize>| #[trigger] is_walk(nb, w) && w[0] == x && w.last() == y;
            assert(in_earlier(comps, k1 + 1, x as int));
            lemma_walk_stays(nb, starts, comps, w, k1);
            let (ka, pa) = choose|ka: int, pa: int| 0 <= ka < k1 + 1 && 0 <= pa < comps[ka]@.len() && #[trigger] comps[ka]@[pa] == y as int;
            assert(ka == k2);
            lemma_walk_reverse(nb, w);
            assert(in_earlier(comps, k2 + 1, y as int));
            lemma_walk_stays(nb, starts, comps, w.reverse(), k2);
            let (kb, pb) = choose|kb: int, pb: int| 0 <= kb < k2 + 1 && 0 <= pb < comps[kb]@.len() && #[trigger] comps[kb]@[pb] == x as int;
            assert(kb == k1);
        }
    }
}

/// Splits the power blocks `0..neighbours.len()` into wired components by
/// breadth-first search. `neighbours[b]` lists the blocks wired to block `b`;
/// blocks `0..starts` are the ones a search may start from. Components come
/// in the order of their starting block, and each lists its blocks in
/// visiting order, its starting block first.
pub fn power_components(neighbours: &Vec<Vec<usize>>, starts: usize) -> (comps: Vec<Vec<usize>>)
    requires
        starts <= neighbours@.len(),
        forall|b: int, j: int| 0 <= b < neighbours@.len() && 0 <= j < neighbours@[b]@.len()
            ==> #[trigger] neighbours@[b]@[j] < neighbours@.len(),
    ensures
        is_component_split(neighbours@, starts as int, comps@),
{
    let n = neighbours.len();
    let ghost nb = neighbours@;
    let mut visited: Vec<bool> = Vec::new();
    let mut i: usize = 0;
    while i < n
        invariant
            i <= n,
            visited@.len() == i,
            forall|t: int| 0 <= t < i ==> !visited@[t],
        decreases n - i,
    {
        visited.push(false);
        i = i + 1;
    }
    let mut comps: Vec<Vec<usize>> = Vec::new();
    let ghost mut comp_of: Map<int, int> = Map::empty();
    let ghost mut pos_of: Map<int, int> = Map::empty();
    let ghost mut unseen: Set<int> = set_int_range(0, n as int);
    proof {
        lemma_int_range(0, n as int);
        reveal(located);
        reveal(closed_before);
        reveal(sound);
        reveal(starts_first);
        assert(comp_views(comps@) =~= Seq::<Seq<usize>>::empty());
    }
    let mut s: usize = 0;
    while s < starts
        invariant
            n == nb.len(),
            nb == neighbours@,
            starts <= n,
            s <= starts,
            visited@.len() == n,
            forall|b: int, j: int| 0 <= b < nb.len() && 0 <= j < nb[b]@.len() ==> #[trigger] nb[b]@[j] < nb.len(),
            forall|t: int| 0 <= t < n ==> (visited@[t] <==> comp_of.contains_key(t)),
            unseen.finite(),
            forall|t: int| #[trigger] unseen.contains(t) <==> (0 <= t < n && !comp_of.contains_key(t)),
            located(comp_views(comps@), comp_of, pos_of, n as int),
            closed_before(nb, comp_of, pos_of, comps@.len() as int, 0),
            sound(nb, comp_views(comps@), comp_of),
            starts_first(comp_views(comps@), comp_of),
            forall|k: int| #![trigger comps@[k]] 0 <= k < comps@.len() ==> comps@[k]@.len() > 0 && comps@[k]@[0] < s,
            forall|t: int| 0 <= t < s ==> comp_of.contains_key(t),
        decreases starts - s,
    {
        if !visited[s] {
            let ghost k = comps@.len() as int;
            let ghost cs0 = comp_views(comps@);
            let ghost co0 = comp_of;
            let mut q: Vec<usize> = Vec::new();
            q.push(s);
            visited[s] = true;
            proof {
                reveal(located);
                assert forall|t: int| 0 <= t < s implies comp_of.contains_key(t) && comp_of[t] < k by {
                    assert(comp_of.contains_key(t));
                }
                lemma_start(nb, cs0, comp_of, pos_of, n as int, s);
                comp_of = comp_of.insert(s as int, k);
                pos_of = pos_of.insert(s as int, 0);
                unseen = unseen.remove(s as int);
                assert(q@ =~= seq![s]);
                assert forall|t: int| 0 <= t < s implies #[trigger] assigned_before(comp_of, t, k) by {
                    assert(co0.contains_key(t));
                }
                assert forall|kk: int| #![trigger cs0[kk]] 0 <= kk < cs0.len() implies cs0[kk].len() > 0 && cs0[kk][0] < s by {
                    assert(cs0[kk] == comps@[kk]@);
                }
            }
            let mut h: usize = 0;
            while h < q.len()
                invariant
                    n == nb.len(),
                    nb == neighbours@,
                    visited@.len() == n,
                    k == comps@.len(),
                    cs0 == comp_views(comps@),
                    k == cs0.len(),
                    s < n,
                    forall|b: int, j: int| 0 <= b < nb.len() && 0 <= j < nb[b]@.len() ==> #[trigger] nb[b]@[j] < nb.len(),
                    forall|t: int| 0 <= t < n ==> (visited@[t] <==> comp_of.contains_key(t)),
                    unseen.finite(),
                    forall|t: int| #[trigger] unseen.contains(t) <==> (0 <= t < n && !comp_of.contains_key(t)),
                    q@.len() >= 1,
                    q@[0] == s,
                    h <= q@.len(),
                    located(cs0.push(q@), comp_of, pos_of, n as int),
                    closed_before(nb, comp_of, pos_of, k, h as int),
                    sound(nb, cs0.push(q@), comp_of),
                    starts_first(cs0, comp_of),
                    forall|t: int| 0 <= t < s ==> #[trigger] assigned_before(comp_of, t, k),
                    comp_of.contains_key(s as int),
                    forall|kk: int| #![trigger cs0[kk]] 0 <= kk < cs0.len() ==> cs0[kk].len() > 0 && cs0[kk][0] < s,
                decreases unseen.len() + q@.len() - h,
            {
                let x = q[h];
                let ghost budget = unseen.len() + q@.len();
                proof {
                    reveal(located);
                    assert(cs0.push(q@)[k] == q@);
                    assert(comp_of.contains_key(cs0.push(q@)[k][h as int] as int));
                }
                let nbx = &neighbours[x];
                let mut j: usize = 0;
                while j < nbx.len()
                    invariant
                        n == nb.len(),
                        nb == neighbours@,
                        visited@.len() == n,
                        k == comps@.len(),
                        cs0 == comp_views(comps@),
                        x < n,
                        nbx@ == nb[x as int]@,
                        forall|b: int, j2: int| 0 <= b < nb.len() && 0 <= j2 < nb[b]@.len() ==> #[trigger] nb[b]@[j2] < nb.len(),
                        forall|t: int| 0 <= t < n ==> (visited@[t] <==> comp_of.contains_key(t)),
                        unseen.finite(),
                        forall|t: int| #[trigger] unseen.contains(t) <==> (0 <= t < n && !comp_of.contains_key(t)),
                        unseen.len() + q@.len() == budget,
                        q@.len() >= 1,
                        q@[0] == s,
                        h < q@.len(),
                        q@[h as int] == x,
                        comp_of.contains_key(x as int),
                        comp_of[x as int] == k,
                        pos_of[x as int] == h,
                        j <= nbx@.len(),
                        located(cs0.push(q@), comp_of, pos_of, n as int),
                        closed_before(nb, comp_of, pos_of, k, h as int),
                        forall|j2: int| 0 <= j2 < j ==> comp_of.contains_key(#[trigger] nbx@[j2] as int)
                            && comp_of[nbx@[j2] as int] <= k,
                        sound(nb, cs0.push(q@), comp_of),
                        starts_first(cs0, comp_of),
                        forall|t: int| 0 <= t < s ==> #[trigger] assigned_before(comp_of, t, k),
                        comp_of.contains_key(s as int),
                        forall|kk: int| #![trigger cs0[kk]] 0 <= kk < cs0.len() ==> cs0[kk].len() > 0 && cs0[kk][0] < s,
                    decreases nbx@.len() - j,
                {
                    let y = nbx[j];
                    assert(nb[x as int]@[j as int] == y);
                    let ghost co_before = comp_of;
                    if !visited[y] {
                        visited[y] = true;
                        proof {
                            assert(nb[x as int]@.contains(y));
                            lemma_visit(nb, cs0, q@, comp_of, pos_of, n as int, h as int, x, y);
                            comp_of = comp_of.insert(y as int, k);
                            pos_of = pos_of.insert(y as int, q@.len() as int);
                            assert(unseen.contains(y as int));
                            unseen = unseen.remove(y as int);
                        }
                        q.push(y);
                    }
                    proof {
                        reveal(located);
                        assert(comp_of.contains_key(y as int));
                        assert(comp_of[y as int] <= k);
                        assert forall|j2: int| 0 <= j2 < j + 1 implies comp_of.contains_key(#[trigger] nbx@[j2] as int)
                            && comp_of[nbx@[j2] as int] <= k by {
                            if j2 < j {
                                assert(co_before.contains_key(nbx@[j2] as int));
                            }
                        }
                        assert forall|t: int| 0 <= t < s implies #[trigger] assigned_before(comp_of, t, k) by {
                            assert(assigned_before(co_before, t, k));
                        }
                    }
                    j = j + 1;
                }
                proof {
                    reveal(located);
                    assert forall|z: int| comp_of.contains_key(z) && comp_of[z] == k && pos_of[z] == h implies z == x as int by {
                        assert(cs0.push(q@)[k] == q@);
                    }
                    lemma_expanded(nb, comp_of, pos_of, k, h as int, x);
                }
                h = h + 1;
            }
            proof {
                assert forall|t: int| 0 <= t < s implies #[trigger] assigned_before(comp_of, t, cs0.len() as int) by {
                    assert(assigned_before(comp_of, t, k));
                }
                lemma_close(nb, cs0, q@, comp_of, pos_of, n as int, s);
                lemma_views_push(comps@, q);
            }
            proof {
                assert forall|t: int| 0 <= t < s implies comp_of.contains_key(t) by {
                    assert(assigned_before(comp_of, t, k));
                }
            }
            let ghost comps_before = comps@;
            comps.push(q);
            proof {
                reveal(located);
                assert(comps@[k]@ == q@);
                assert forall|kk: int| #![trigger comps@[kk]] 0 <= kk < comps@.len() implies comps@[kk]@.len() > 0 && comps@[kk]@[0] < s + 1 by {
                    if kk < k {
                        assert(comps@[kk] == comps_before[kk]);
                        assert(cs0[kk] == comps_before[kk]@);
                    }
                }
            }
        }
        proof {
            assert(comp_of.contains_key(s as int));
        }
        s = s + 1;
    }
    proof {
        reveal(located);
        reveal(closed_before);
        reveal(sound);
        reveal(starts_first);
        let cs = comp_views(comps@);
        assert forall|k: int| 0 <= k < comps@.len() implies #[trigger] cs[k] == comps@[k]@ by {}
        assert forall|b: int| 0 <= b < starts implies #[trigger] in_earlier(comps@, comps@.len() as int, b) by {
            assert(comp_of.contains_key(b));
            assert(cs[comp_of[b]] == comps@[comp_of[b]]@);
        }
        assert forall|k: int, p: int| 0 <= k < comps@.len() && 0 <= p < comps@[k]@.len()
            implies reachable(neighbours@, comps@[k]@[0], #[trigger] comps@[k]@[p]) by {
            assert(cs[k] == comps@[k]@);
            assert(comp_of.contains_key(cs[k][p] as int));
        }
        assert forall|k: int, p: int, j: int| 0 <= k < comps@.len() && 0 <= p < comps@[k]@.len()
            && 0 <= j < neighbours@[comps@[k]@[p] as int]@.len()
            implies in_earlier(comps@, k + 1, #[trigger] neighbours@[comps@[k]@[p] as int]@[j] as int) by {
            assert(cs[k] == comps@[k]@);
            let x = cs[k][p] as int;
            assert(comp_of.contains_key(x));
            assert(comp_of[x] == k);
            let y = nb[x]@[j] as int;
            assert(comp_of.contains_key(y));
            assert(cs[comp_of[y]] == comps@[comp_of[y]]@);
        }
        assert forall|k: int, b: int| 0 <= k < comps@.len() && 0 <= b < comps@[k]@[0] implies #[trigger] in_earlier(comps@, k, b) by {
            assert(cs[k] == comps@[k]@);
            assert(assigned_before(comp_of, b, k));
            assert(comp_of.contains_key(b));
            assert(cs[comp_of[b]] == comps@[comp_of[b]]@);
            assert(comps@[comp_of[b]]@[pos_of[b]] == b);
        }
        assert forall|k1: int, p1: int, k2: int, p2: int|
            0 <= k1 < comps@.len() && 0 <= p1 < comps@[k1]@.len() && 0 <= k2 < comps@.len() && 0 <= p2 < comps@[k2]@.len()
            && #[trigger] comps@[k1]@[p1] == #[trigger] comps@[k2]@[p2] implies k1 == k2 && p1 == p2 by {
            assert(cs[k1] == comps@[k1]@);
            assert(cs[k2] == comps@[k2]@);
        }
    }
    comps
}

} // verus!
