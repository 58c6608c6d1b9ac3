//! The wiring graph of the power grid: which blocks a search walks between.

use vstd::prelude::*;
use crate::tool::Tool;
use crate::power::{power_linked, power_linked_spec};
use crate::components::{is_component_split, in_earlier};

verus! {

/// A candidate block of the power grid: where it stands, what it is, and
/// whether it is finished and unbroken (only such blocks can be wired to).
#[derive(Clone, Copy, Debug)]
pub struct GridBlock {
    pub pos: (i32, i32),
    pub tool: Tool,
    pub live: bool,
}

/// Block `i`, one a search may start from, wires to block `j`: `j` is live
/// and `power_linked` holds from `i`'s building to `j`'s at their offset.
pub open spec fn wires_to(blocks: Seq<GridBlock>, starts: int, i: int, j: int) -> bool {
    &&& 0 <= i < starts
    &&& i < blocks.len()
    &&& 0 <= j < blocks.len()
    &&& blocks[j].live
    &&& power_linked_spec(
        blocks[i].tool,
        blocks[j].tool,
        blocks[j].pos.0 - blocks[i].pos.0,
        blocks[j].pos.1 - blocks[i].pos.1,
    )
}

/// Blocks `a` and `b` are joined by a wire found from either end.
pub open spec fn wired(blocks: Seq<GridBlock>, starts: int, a: int, b: int) -> bool {
    wires_to(blocks, starts, a, b) || wires_to(blocks, starts, b, a)
}

/// `nb` lists, for each block, exactly the blocks wired to it.
pub open spec fn is_power_graph(blocks: Seq<GridBlock>, starts: int, nb: Seq<Vec<usize>>) -> bool {
    &&& nb.len() == blocks.len()
    &&& nb.len() <= usize::MAX
    &&& forall|a: int, j: int| 0 <= a < nb.len() && 0 <= j < nb[a]@.len() ==> #[trigger] nb[a]@[j] < nb.len()
    &&& forall|a: int, b: int| 0 <= a < nb.len() && 0 <= b < nb.len()
        ==> (#[trigger] nb[a]@.contains(b as usize) <==> wired(blocks, starts, a, b))
}

fn links(blocks: &Vec<GridBlock>, starts: usize, i: usize, j: usize) -> (r: bool)
    requires
        i < blocks@.len(),
        j < blocks@.len(),
    ensures
        r == wires_to(blocks@, starts as int, i as int, j as int),
{
    if i >= starts {
        return false;
    }
    let bi = blocks[i];
    let bj = blocks[j];
    if !bj.live {
        return false;
    }
    let dx: i64 = bj.pos.0 as i64 - bi.pos.0 as i64;
    let dy: i64 = bj.pos.1 as i64 - bi.pos.1 as i64;
    if dx < -3 || dx > 3 || dy < -3 || dy > 3 {
        return false;
    }
    power_linked(bi.tool, bj.tool, dx as i32, dy as i32)
}

/// The wiring graph over `blocks`, of which the first `starts` are the ones
/// the grid is searched from (the registered buildings); each block's list
/// names, in increasing order, the blocks wired to it from either end.
pub fn power_graph(blocks: &Vec<GridBlock>, starts: usize) -> (nb: Vec<Vec<usize>>)
    ensures
        is_power_graph(blocks@, starts as int, nb@),
{
    let n = blocks.len();
    let mut nb: Vec<Vec<usize>> = Vec::new();
    let mut a: usize = 0;
    while a < n
        invariant
            n == blocks@.len(),
            a <= n,
            nb@.len() == a,
            forall|x: int, j: int| 0 <= x < a && 0 <= j < nb@[x]@.len() ==> #[trigger] nb@[x]@[j] < n,
            forall|x: int, b: int| 0 <= x < a && 0 <= b < n
                ==> (#[trigger] nb@[x]@.contains(b as usize) <==> wired(blocks@, starts as int, x, b)),
        decreases n - a,
    {
        let mut row: Vec<usize> = Vec::new();
        let mut b: usize = 0;
        while b < n
            invariant
                n == blocks@.len(),
                a < n,
                b <= n,
                forall|j: int| 0 <= j < row@.len() ==> #[trigger] row@[j] < b,
                forall|c: int| 0 <= c < b ==> (#[trigger] row@.contains(c as usize) <==> wired(blocks@, starts as int, a as int, c)),
            decreases n - b,
        {
            let ghost before = row@;
            if links(blocks, starts, a, b) || links(blocks, starts, b, a) {
                row.push(b);
                proof {
                    assert(row@.last() == b);
                    assert forall|c: int| 0 <= c < b + 1 implies (#[trigger] row@.contains(c as usize)
                        <==> wired(blocks@, starts as int, a as int, c)) by {
                        if c < b {
                            if before.contains(c as usize) {
                                let w = choose|w: int| 0 <= w < before.len() && before[w] == c as usize;
                                assert(row@[w] == c as usize);
                            }
                            if row@.contains(c as usize) {
                                let w = choose|w: int| 0 <= w < row@.len() && row@[w] == c as usize;
                                if w < before.len() {
                                    assert(before[w] == c as usize);
                                }
                            }
                        } else {
                            assert(row@[before.len() as int] == b);
                        }
                    }
                }
            } else {
                proof {
                    assert forall|c: int| 0 <= c < b + 1 implies (#[trigger] row@.contains(c as usize)
                        <==> wired(blocks@, starts as int, a as int, c)) by {
                        if c == b && row@.contains(c as usize) {
                            let w = choose|w: int| 0 <= w < row@.len() && row@[w] == c as usize;
                            assert(row@[w] < b);
                        }
                    }
                }
            }
            b = b + 1;
        }
        let ghost rows = nb@;
        nb.push(row);
        proof {
            assert forall|x: int, b2: int| 0 <= x < a + 1 && 0 <= b2 < n
                implies (#[trigger] nb@[x]@.contains(b2 as usize) <==> wired(blocks@, starts as int, x, b2)) by {
                if x < a {
                    assert(nb@[x] == rows[x]);
                }
            }
            assert forall|x: int, j: int| 0 <= x < a + 1 && 0 <= j < nb@[x]@.len() implies #[trigger] nb@[x]@[j] < n by {
                if x < a {
                    assert(nb@[x] == rows[x]);
                }
            }
        }
        a = a + 1;
    }
    nb
}

/// Two blocks joined by a wire end up in the same component when the grid's
/// components are split along the wiring graph (see `power_components`).
pub proof fn law_wired_blocks_share_a_component(
    blocks: Seq<GridBlock>,
    starts: int,
    nb: Seq<Vec<usize>>,
    comps: Seq<Vec<usize>>,
    a: int,
    b: int,
)
    requires
        is_power_graph(blocks, starts, nb),
        is_component_split(nb, starts, comps),
        wired(blocks, starts, a, b),
    ensures
        exists|k: int| 0 <= k < comps.len() && #[trigger] comps[k]@.contains(a as usize) && comps[k]@.contains(b as usize),
{
    // one of the two ends is a starting block, so it lies in some component
    let s = if wires_to(blocks, starts, a, b) { a } else { b };
    let t = if s == a { b } else { a };
    assert(wired(blocks, starts, s, t) && wired(blocks, starts, t, s));
    assert(0 <= s < nb.len() && 0 <= t < nb.len());
    assert((s as usize) as int == s && (t as usize) as int == t);
    assert(nb[s]@.contains(t as usize));
    assert(nb[t]@.contains(s as usize));
    assert(in_earlier(comps, comps.len() as int, s));
    let (ks, ps) = choose|k2: int, p2: int| 0 <= k2 < comps.len() && k2 < comps.len() && 0 <= p2 < comps[k2]@.len()
        && #[trigger] comps[k2]@[p2] == s;
    let jt = choose|j: int| 0 <= j < nb[s]@.len() && nb[s]@[j] == t as usize;
    assert(nb[comps[ks]@[ps] as int]@[jt] == t as usize);
    assert(in_earlier(comps, ks + 1, nb[comps[ks]@[ps] as int]@[jt] as int));
    let (kt, pt) = choose|k2: int, p2: int| 0 <= k2 < ks + 1 && k2 < comps.len() && 0 <= p2 < comps[k2]@.len()
        && #[trigger] comps[k2]@[p2] == t;
    assert(comps[kt]@[pt] == t);
    assert(0 <= t < nb.len());
    if kt < ks {
        // then `s`, a neighbour of `t`, would lie in a component no later than `kt`
        let js = choose|j: int| 0 <= j < nb[t]@.len() && nb[t]@[j] == s as usize;
        assert(0 <= js < nb[t]@.len() && nb[t]@[js] == s as usize);
        assert(nb[comps[kt]@[pt] as int]@[js] == s as usize);
        assert(in_earlier(comps, kt + 1, nb[comps[kt]@[pt] as int]@[js] as int));
        let (k3, p3) = choose|k2: int, p2: int| 0 <= k2 < kt + 1 && k2 < comps.len() && 0 <= p2 < comps[k2]@.len()
            && #[trigger] comps[k2]@[p2] == s;
        assert(comps[k3]@[p3] == comps[ks]@[ps]);
        assert(false);
    }
    assert(kt == ks);
    assert(comps[ks]@[ps] == s as usize);
    assert(comps[ks]@[pt] == t as usize);
    assert(comps[ks]@.contains(s as usize));
    assert(comps[ks]@.contains(t as usize));
}

} // verus!
