//! The power grid's connectivity: a union-find over grid positions with union
//! by rank and path compression, which also tracks whether a component holds a
//! generator.

use std::collections::HashMap;
use vstd::prelude::*;
use vstd::arithmetic::power2::{pow2, lemma_pow2_unfold, lemma_pow2_strictly_increases, lemma2_to64};
use vstd::set_lib::{lemma_len_subset, lemma_set_disjoint_lens, lemma_map_size};
use crate::grid_key::{pos_key, key_pos, encode_pos, decode_key, lemma_pos_key_bijection};
use crate::tool::{Tool, tool_power_gen, tool_power_cons};

verus! {

broadcast use vstd::std_specs::hash::group_hash_axioms;

/// A wire between two powered positions.
#[derive(Clone, Copy, Debug, PartialEq, Eq, Hash)]
pub struct PowerLink {
    pub u: (i32, i32),
    pub v: (i32, i32),
}

/// Disjoint-set union over grid positions. Each member belongs to exactly one
/// component, named by its representative; a component is powered when one of
/// its members was registered as a generator.
pub struct PowerDSU {
    parent: HashMap<u64, u64>,
    rank: HashMap<u64, u8>,
    has_gen: HashMap<u64, bool>,
    /// The representative of each member.
    rep: Ghost<Map<u64, u64>>,
    /// Whether each member was registered as a generator.
    gen: Ghost<Map<u64, bool>>,
}

impl PowerDSU {
    // ---- abstract state, over positions ----

    pub closed spec fn is_member(&self, p: (i32, i32)) -> bool {
        self.rep@.contains_key(pos_key(p))
    }

    /// The representative of `p`'s component.
    pub closed spec fn rep_of(&self, p: (i32, i32)) -> (i32, i32) {
        key_pos(self.rep@[pos_key(p)])
    }

    /// The rank of `p`; it decides which root survives a union.
    pub closed spec fn rank_of(&self, p: (i32, i32)) -> u8 {
        self.rank@[pos_key(p)]
    }

    /// The position that `p`'s parent link points at.
    pub closed spec fn parent_of(&self, p: (i32, i32)) -> (i32, i32) {
        key_pos(self.parent@[pos_key(p)])
    }

    /// Whether `p` was registered as a generator when it was added.
    pub closed spec fn generates(&self, p: (i32, i32)) -> bool {
        self.gen@[pos_key(p)]
    }

    pub open spec fn same_component(&self, a: (i32, i32), b: (i32, i32)) -> bool {
        self.is_member(a) && self.is_member(b) && self.rep_of(a) == self.rep_of(b)
    }

    /// The members of `p`'s component.
    pub open spec fn component_members(&self, p: (i32, i32)) -> Set<(i32, i32)> {
        Set::new(|q: (i32, i32)| self.same_component(p, q))
    }

    /// `p` is a member and some member of its component generates power.
    pub open spec fn component_powered(&self, p: (i32, i32)) -> bool {
        self.is_member(p) && exists|q: (i32, i32)| self.same_component(p, q) && #[trigger] self.generates(q)
    }

    /// Two states agree on members, components, ranks and generator flags.
    pub open spec fn same_view(&self, other: &PowerDSU) -> bool {
        &&& forall|p: (i32, i32)| #[trigger] self.is_member(p) == other.is_member(p)
        &&& forall|p: (i32, i32)| self.is_member(p) ==> {
            &&& #[trigger] self.rep_of(p) == other.rep_of(p)
            &&& self.rank_of(p) == other.rank_of(p)
            &&& self.generates(p) == other.generates(p)
        }
    }

    /// The state after `make(pos, generates)` applied to `before`.
    pub open spec fn make_outcome(before: &PowerDSU, after: &PowerDSU, pos: (i32, i32), generates: bool) -> bool {
        if before.is_member(pos) {
            &&& after.same_view(before)
            &&& forall|p: (i32, i32)| #[trigger] before.is_member(p) ==> after.parent_of(p) == before.parent_of(p)
        } else {
            &&& forall|p: (i32, i32)| #[trigger] after.is_member(p) == (before.is_member(p) || p == pos)
            &&& after.rep_of(pos) == pos
            &&& after.parent_of(pos) == pos
            &&& after.rank_of(pos) == 0
            &&& after.generates(pos) == generates
            &&& forall|p: (i32, i32)| #[trigger] before.is_member(p) ==> {
                &&& after.rep_of(p) == before.rep_of(p)
                &&& after.parent_of(p) == before.parent_of(p)
                &&& after.rank_of(p) == before.rank_of(p)
                &&& after.generates(p) == before.generates(p)
            }
        }
    }

    /// The state after `union(a, b)` applied to `before`.
    pub open spec fn union_outcome(before: &PowerDSU, after: &PowerDSU, a: (i32, i32), b: (i32, i32)) -> bool {
        let ra = before.rep_of(a);
        let rb = before.rep_of(b);
        let keep_a = before.rank_of(ra) >= before.rank_of(rb);
        let new_root = if keep_a { ra } else { rb };
        let old_root = if keep_a { rb } else { ra };
        if ra == rb {
            after.same_view(before)
        } else {
            &&& forall|p: (i32, i32)| #[trigger] after.is_member(p) == before.is_member(p)
            &&& forall|p: (i32, i32)| before.is_member(p) ==> {
                &&& #[trigger] after.rep_of(p) == (if before.rep_of(p) == old_root { new_root } else { before.rep_of(p) })
                &&& after.generates(p) == before.generates(p)
                &&& after.rank_of(p) == (if p == new_root && before.rank_of(ra) == before.rank_of(rb) {
                    (before.rank_of(p) + 1) as u8
                } else {
                    before.rank_of(p)
                })
            }
        }
    }

    // ---- internal invariant, over keys ----

    pub closed spec fn wf(&self) -> bool {
        &&& doms_ok(self.parent@, self.rank@, self.has_gen@, self.rep@, self.gen@)
        &&& reps_ok(self.rep@)
        &&& parents_ok(self.parent@, self.rank@, self.rep@)
        &&& roots_ok(self.rep@, self.rank@, self.has_gen@, self.gen@)
    }

    /// Every key is the key of exactly one position.
    proof fn lemma_keys(&self)
        ensures
            forall|p: (i32, i32)| #[trigger] key_pos(pos_key(p)) == p,
            forall|k: u64| #[trigger] pos_key(key_pos(k)) == k,
    {
        assert forall|p: (i32, i32)| #[trigger] key_pos(pos_key(p)) == p by {
            lemma_pos_key_bijection(p, 0);
        }
        assert forall|k: u64| #[trigger] pos_key(key_pos(k)) == k by {
            lemma_pos_key_bijection((0, 0), k);
        }
    }

    /// Adds `pos` as a component of its own, remembering whether it generates;
    /// a position that is already a member is left as it is.
    pub fn make(&mut self, pos: (i32, i32), generates: bool)
        requires
            old(self).wf(),
        ensures
            final(self).wf(),
            PowerDSU::make_outcome(old(self), final(self), pos, generates),
    {
        proof { self.lemma_keys(); }
        let k = encode_pos(pos);
        if !self.parent.contains_key(&k) {
            let ghost old_rep = self.rep@;
            let ghost old_gen = self.gen@;
            let ghost old_parent = self.parent@;
            let ghost old_rank = self.rank@;
            let ghost old_has_gen = self.has_gen@;
            self.parent.insert(k, k);
            self.rank.insert(k, 0);
            self.has_gen.insert(k, generates);
            self.rep = Ghost(self.rep@.insert(k, k));
            self.gen = Ghost(self.gen@.insert(k, generates));
            proof {
                lemma_add_singleton(old_parent, old_rank, old_has_gen, old_rep, old_gen, k, generates);
            }
        }
    }

    /// The representative of `pos`'s component; the components are left as they were.
    pub fn find(&mut self, pos: (i32, i32)) -> (r: (i32, i32))
        requires
            old(self).wf(),
            old(self).is_member(pos),
        ensures
            final(self).wf(),
            final(self).same_view(old(self)),
            r == old(self).rep_of(pos),
            // path compression: afterwards `pos` points straight at its representative
            final(self).parent_of(pos) == r,
            final(self).parent_of(r) == r,
    {
        proof { self.lemma_keys(); }
        let k = encode_pos(pos);
        let rk = self.find_key(k);
        decode_key(rk)
    }

    /// Merges the components of `a` and `b`: the root of higher rank (the first
    /// one on a tie, whose rank then grows by one) becomes the root of both, and
    /// the merged component generates if either part did.
    #[verifier::spinoff_prover]
    pub fn union(&mut self, a: (i32, i32), b: (i32, i32))
        requires
            old(self).wf(),
            old(self).is_member(a),
            old(self).is_member(b),
        ensures
            final(self).wf(),
            PowerDSU::union_outcome(old(self), final(self), a, b),
    {
        proof { self.lemma_keys(); }
        let ka = encode_pos(a);
        let kb = encode_pos(b);
        let ra = self.find_key(ka);
        let rb = self.find_key(kb);
        if ra == rb {
            return;
        }
        let rank_a: u8 = match self.rank.get(&ra) {
            Some(v) => *v,
            None => 0,
        };
        let rank_b: u8 = match self.rank.get(&rb) {
            Some(v) => *v,
            None => 0,
        };
        let gen_a: bool = match self.has_gen.get(&ra) {
            Some(v) => *v,
            None => false,
        };
        let gen_b: bool = match self.has_gen.get(&rb) {
            Some(v) => *v,
            None => false,
        };
        let (new_root, old_root) = if rank_a >= rank_b { (ra, rb) } else { (rb, ra) };
        let n = self.parent.len();
        let ghost old_rep = self.rep@;
        let ghost old_parent = self.parent@;
        let ghost old_rank = self.rank@;
        let ghost old_has_gen = self.has_gen@;
        proof {
            reveal(reps_ok);
            assert(old_rep[ka] == old_rep[ka]);
            assert(old_rep[kb] == old_rep[kb]);
            assert(is_root_key(old_rep, ra));
            assert(is_root_key(old_rep, rb));
            lemma_rank_bound(old_rep, old_rank, old_has_gen, self.gen@, ra, rb, n as nat);
        }
        self.parent.insert(old_root, new_root);
        let new_rank: u8 = if rank_a == rank_b { rank_a + 1 } else if rank_a >= rank_b { rank_a } else { rank_b };
        if rank_a == rank_b {
            self.rank.insert(new_root, new_rank);
        }
        self.has_gen.insert(new_root, gen_a || gen_b);
        self.rep = Ghost(relink(old_rep, old_root, new_root));
        proof {
            if rank_a != rank_b {
                assert(self.rank@ == old_rank.insert(new_root, new_rank));
            }
            lemma_link(old_parent, old_rank, old_has_gen, old_rep, self.gen@, new_root, old_root, new_rank, gen_a || gen_b);
            let ghost pa = key_pos(ra);
            let ghost pb = key_pos(rb);
            assert(pos_key(pa) == ra);
            assert(pos_key(pb) == rb);
            assert forall|p: (i32, i32)| #[trigger] old(self).is_member(p) implies
                self.rep_of(p) == (if old(self).rep_of(p) == key_pos(old_root) { key_pos(new_root) } else { old(self).rep_of(p) })
            by {
                let q = pos_key(p);
                assert(old_rep[q] == old_rep[q]);
                lemma_pos_key_bijection((0, 0), old_rep[q]);
                lemma_pos_key_bijection((0, 0), old_root);
            }
        }
    }

    /// Whether `pos` is a member whose component generates power.
    pub fn component_has_gen(&mut self, pos: (i32, i32)) -> (r: bool)
        requires
            old(self).wf(),
        ensures
            final(self).wf(),
            final(self).same_view(old(self)),
            r == old(self).component_powered(pos),
    {
        proof { self.lemma_keys(); }
        let k = encode_pos(pos);
        if !self.parent.contains_key(&k) {
            return false;
        }
        let root = self.find_key(k);
        let r = match self.has_gen.get(&root) {
            Some(g) => *g,
            None => false,
        };
        proof {
            reveal(roots_ok);
            reveal(reps_ok);
            let rep = self.rep@;
            assert(rep[k] == rep[k]);
            assert(is_root_key(rep, root));
            assert(r == comp_generates(rep, self.gen@, root));
            if r {
                let q = choose|q: u64| #[trigger] comp_of(rep, root).contains(q) && self.gen@[q];
                let pq = key_pos(q);
                assert(pos_key(pq) == q);
                assert(self.same_component(pos, pq) && self.generates(pq));
            }
            if self.component_powered(pos) {
                let pq = choose|pq: (i32, i32)| self.same_component(pos, pq) && #[trigger] self.generates(pq);
                let q = pos_key(pq);
                lemma_pos_key_bijection((0, 0), rep[k]);
                lemma_pos_key_bijection((0, 0), rep[q]);
                assert(rep[q] == rep[k]);
                assert(comp_of(rep, root).contains(q));
                assert(comp_generates(rep, self.gen@, root));
            }
            assert(r == self.component_powered(pos));
            if old(self).component_powered(pos) {
                let pq = choose|pq: (i32, i32)| old(self).same_component(pos, pq) && #[trigger] old(self).generates(pq);
                assert(self.same_component(pos, pq) && self.generates(pq));
            }
            if self.component_powered(pos) {
                let pq = choose|pq: (i32, i32)| self.same_component(pos, pq) && #[trigger] self.generates(pq);
                assert(old(self).same_component(pos, pq) && old(self).generates(pq));
            }
        }
        r
    }

    /// Forgets every member.
    pub fn clear(&mut self)
        ensures
            final(self).wf(),
            forall|p: (i32, i32)| !#[trigger] final(self).is_member(p),
    {
        self.parent.clear();
        self.rank.clear();
        self.has_gen.clear();
        self.rep = Ghost(Map::empty());
        self.gen = Ghost(Map::empty());
        proof {
            reveal(reps_ok);
            reveal(parents_ok);
            reveal(roots_ok);
        }
    }

    /// Follows parents to the root of `k`, pointing `k` straight at it on the way back.
    fn find_key(&mut self, k: u64) -> (r: u64)
        requires
            old(self).wf(),
            old(self).rep@.contains_key(k),
        ensures
            final(self).wf(),
            r == old(self).rep@[k],
            final(self).rep@ == old(self).rep@,
            final(self).gen@ == old(self).gen@,
            final(self).rank@ == old(self).rank@,
            final(self).has_gen@ == old(self).has_gen@,
            final(self).parent@.dom() == old(self).parent@.dom(),
            final(self).parent@[k] == r,
            final(self).parent@[r] == r,
            old(self).parent@[k] != k ==> final(self).rank@[k] < final(self).rank@[r],
        decreases 256 - old(self).rank@[k],
    {
        proof {
            reveal(parents_ok);
            reveal(reps_ok);
            assert(self.parent@[k] == self.parent@[k]);
            assert(self.rep@[k] == self.rep@[k]);
        }
        let p = match self.parent.get(&k) {
            Some(v) => *v,
            None => k,
        };
        if p == k {
            return k;
        }
        let r = self.find_key(p);
        let ghost mid_parent = self.parent@;
        self.parent.insert(k, r);
        proof {
            assert(self.parent@.dom() =~= mid_parent.dom());
            lemma_compress(mid_parent, self.rank@, self.rep@, k, r);
        }
        r
    }
}

impl Default for PowerDSU {
    fn default() -> (r: Self)
        ensures
            r.wf(),
            forall|p: (i32, i32)| !#[trigger] r.is_member(p),
    {
        let r = PowerDSU {
            parent: HashMap::new(),
            rank: HashMap::new(),
            has_gen: HashMap::new(),
            rep: Ghost(Map::empty()),
            gen: Ghost(Map::empty()),
        };
        proof {
            reveal(reps_ok);
            reveal(parents_ok);
            reveal(roots_ok);
        }
        r
    }
}

/// Union joins exactly the two components: afterwards `a` and `b` are connected,
/// every connection that held before still holds, and two positions are
/// connected only if they were before or each was connected to `a` or `b`.
pub proof fn law_union_connects(before: PowerDSU, after: PowerDSU, a: (i32, i32), b: (i32, i32))
    requires
        before.is_member(a),
        before.is_member(b),
        PowerDSU::union_outcome(&before, &after, a, b),
    ensures
        after.same_component(a, b),
        forall|x: (i32, i32), y: (i32, i32)| #[trigger] after.same_component(x, y) <==> {
            ||| before.same_component(x, y)
            ||| (before.same_component(x, a) || before.same_component(x, b))
                && (before.same_component(y, a) || before.same_component(y, b))
        },
{
}

/// After a union the merged component generates power exactly when one of the
/// two parts did, and every other component keeps its answer.
pub proof fn law_union_power(before: PowerDSU, after: PowerDSU, a: (i32, i32), b: (i32, i32), x: (i32, i32))
    requires
        before.is_member(a),
        before.is_member(b),
        PowerDSU::union_outcome(&before, &after, a, b),
    ensures
        after.component_powered(a) == (before.component_powered(a) || before.component_powered(b)),
        !before.same_component(x, a) && !before.same_component(x, b) ==> after.component_powered(x) == before.component_powered(x),
{
    law_union_connects(before, after, a, b);
    if after.component_powered(a) {
        let q = choose|q: (i32, i32)| after.same_component(a, q) && #[trigger] after.generates(q);
        assert(before.generates(q));
        if before.same_component(q, a) {
            assert(before.same_component(a, q));
        } else {
            assert(before.same_component(b, q));
        }
    }
    if before.component_powered(a) {
        let q = choose|q: (i32, i32)| before.same_component(a, q) && #[trigger] before.generates(q);
        assert(after.same_component(q, a));
        assert(after.same_component(a, q) && after.generates(q));
    }
    if before.component_powered(b) {
        let q = choose|q: (i32, i32)| before.same_component(b, q) && #[trigger] before.generates(q);
        assert(after.same_component(q, a));
        assert(after.same_component(a, q) && after.generates(q));
    }
    if !before.same_component(x, a) && !before.same_component(x, b) {
        if after.component_powered(x) {
            let q = choose|q: (i32, i32)| after.same_component(x, q) && #[trigger] after.generates(q);
            assert(before.same_component(x, q) && before.generates(q));
        }
        if before.component_powered(x) {
            let q = choose|q: (i32, i32)| before.same_component(x, q) && #[trigger] before.generates(q);
            assert(after.same_component(x, q) && after.generates(q));
        }
    }
}

/// Being in the same component is an equivalence relation on the members.
pub proof fn law_same_component_equivalence(d: PowerDSU, x: (i32, i32), y: (i32, i32), z: (i32, i32))
    ensures
        d.is_member(x) ==> d.same_component(x, x),
        d.same_component(x, y) ==> d.same_component(y, x),
        d.same_component(x, y) && d.same_component(y, z) ==> d.same_component(x, z),
{
}

/// States with the same view give the same answers, so `find` and
/// `component_has_gen` (which only compress paths) never change what later
/// queries return.
pub proof fn law_same_view_same_answers(d1: PowerDSU, d2: PowerDSU, x: (i32, i32), y: (i32, i32))
    requires
        d2.same_view(&d1),
    ensures
        d2.same_component(x, y) == d1.same_component(x, y),
        d2.component_powered(x) == d1.component_powered(x),
{
    assert(d2.is_member(x) == d1.is_member(x));
    assert(d2.is_member(y) == d1.is_member(y));
    if d2.is_member(x) && d2.is_member(y) {
        assert(d2.rep_of(x) == d1.rep_of(x) && d2.rep_of(y) == d1.rep_of(y));
    }
    if d2.component_powered(x) {
        let q = choose|q: (i32, i32)| d2.same_component(x, q) && #[trigger] d2.generates(q);
        assert(d1.same_component(x, q) && d1.generates(q));
    }
    if d1.component_powered(x) {
        let q = choose|q: (i32, i32)| d1.same_component(x, q) && #[trigger] d1.generates(q);
        assert(d2.is_member(q) && d2.is_member(x));
        assert(d2.rep_of(q) == d1.rep_of(q) && d2.rep_of(x) == d1.rep_of(x));
        assert(d2.same_component(x, q) && d2.generates(q));
    }
}

/// A member's parent link points at itself exactly when the member is its
/// component's representative; every other member points at a member of its
/// own component.
pub proof fn law_parent_links(d: PowerDSU, p: (i32, i32))
    requires
        d.wf(),
        d.is_member(p),
    ensures
        d.parent_of(p) == p <==> d.rep_of(p) == p,
        d.is_member(d.parent_of(p)),
        d.same_component(p, d.parent_of(p)),
{
    reveal(parents_ok);
    let k = pos_key(p);
    lemma_pos_key_bijection(p, d.parent@[k]);
    lemma_pos_key_bijection(p, d.rep@[k]);
    assert(d.parent@[k] == d.parent@[k]);
    let pk = d.parent@[k];
    lemma_pos_key_bijection(key_pos(pk), pk);
    assert(d.rep@[pk] == d.rep@[k]);
}

/// Union by rank keeps every component at least two to the power of its
/// representative's rank in size, so ranks, and with them the longest chain
/// of parent links, stay logarithmic in the number of members.
pub proof fn law_rank_bounds_component_size(d: PowerDSU, p: (i32, i32))
    requires
        d.wf(),
        d.is_member(p),
    ensures
        d.component_members(p).finite(),
        pow2(d.rank_of(d.rep_of(p)) as nat) <= d.component_members(p).len(),
{
    reveal(reps_ok);
    reveal(roots_ok);
    d.lemma_keys();
    let rep = d.rep@;
    let k = pos_key(p);
    let r = rep[k];
    assert(is_root_key(rep, r));
    lemma_len_subset(comp_of(rep, r), rep.dom());
    let f = |x: u64| key_pos(x);
    assert forall|x: u64, y: u64| comp_of(rep, r).contains(x) && comp_of(rep, r).contains(y) && #[trigger] f(x) == #[trigger] f(y)
        implies x == y by {
        assert(pos_key(key_pos(x)) == x);
        assert(pos_key(key_pos(y)) == y);
    }
    assert forall|q: (i32, i32)| #[trigger] d.component_members(p).contains(q) <==> comp_of(rep, r).map(f).contains(q) by {
        let kq = pos_key(q);
        if d.component_members(p).contains(q) {
            assert(key_pos(rep[kq]) == key_pos(r));
            assert(pos_key(key_pos(rep[kq])) == rep[kq]);
            assert(pos_key(key_pos(r)) == r);
            assert(comp_of(rep, r).contains(kq));
            assert(f(kq) == q);
        }
        if comp_of(rep, r).map(f).contains(q) {
            let x = choose|x: u64| comp_of(rep, r).contains(x) && f(x) == q;
            assert(pos_key(key_pos(x)) == x);
            assert(pos_key(q) == x);
            assert(rep[rep[k]] == rep[k]);
        }
    }
    assert(d.component_members(p) =~= comp_of(rep, r).map(f));
    lemma_map_size(comp_of(rep, r), d.component_members(p), f);
    assert(pos_key(key_pos(r)) == r);
}

/// A freshly made position is a component of its own, powered exactly when it generates.
pub proof fn law_make_isolated(before: PowerDSU, after: PowerDSU, pos: (i32, i32), generates: bool, q: (i32, i32))
    requires
        before.wf(),
        !before.is_member(pos),
        PowerDSU::make_outcome(&before, &after, pos, generates),
    ensures
        after.component_powered(pos) == generates,
        after.same_component(pos, q) ==> q == pos,
{
    reveal(reps_ok);
    assert forall|p: (i32, i32)| before.is_member(p) implies #[trigger] after.rep_of(p) != pos by {
        let k = pos_key(p);
        assert(before.rep@[k] == before.rep@[k]);
        lemma_pos_key_bijection(pos, before.rep@[k]);
    }
    if after.component_powered(pos) {
        let w = choose|w: (i32, i32)| after.same_component(pos, w) && #[trigger] after.generates(w);
        if w != pos {
            assert(before.is_member(w));
        }
    }
    if generates {
        assert(after.same_component(pos, pos) && after.generates(pos));
    }
    if after.same_component(pos, q) && q != pos {
        assert(before.is_member(q));
    }
}

/// Structures that take part in the power grid: generators, consumers, poles and batteries.
pub open spec fn power_block_spec(t: Tool) -> bool {
    tool_power_gen(t) > 0 || tool_power_cons(t) > 0 || t == Tool::Node || t == Tool::Battery
}

pub fn is_power_block(t: Tool) -> (r: bool)
    ensures
        r == power_block_spec(t),
{
    t.power_gen() > 0 || t.power_cons() > 0 || t == Tool::Node || t == Tool::Battery
}

pub open spec fn abs_spec(x: int) -> int {
    if x < 0 { -x } else { x }
}

/// Whether the power block `u` wires to the power block `v` sitting `(dx, dy)`
/// away: a pole reaches 3 cells in every direction (diagonals included), other
/// blocks only their four orthogonal neighbours, or any pole within their
/// 1-cell ring.
pub open spec fn power_linked_spec(u: Tool, v: Tool, dx: int, dy: int) -> bool {
    let radius = if u == Tool::Node { 3int } else { 1int };
    let dist = if abs_spec(dx) >= abs_spec(dy) { abs_spec(dx) } else { abs_spec(dy) };
    &&& !(dx == 0 && dy == 0)
    &&& abs_spec(dx) <= radius && abs_spec(dy) <= radius
    &&& power_block_spec(v)
    &&& ((dist == 1 && (dx == 0 || dy == 0)) || (dist <= 3 && (u == Tool::Node || v == Tool::Node)))
}

pub fn power_linked(u: Tool, v: Tool, dx: i32, dy: i32) -> (r: bool)
    requires
        -3 <= dx <= 3,
        -3 <= dy <= 3,
    ensures
        r == power_linked_spec(u, v, dx as int, dy as int),
{
    let radius: i32 = if u == Tool::Node { 3 } else { 1 };
    if dx == 0 && dy == 0 {
        return false;
    }
    let adx: i32 = if dx < 0 { -dx } else { dx };
    let ady: i32 = if dy < 0 { -dy } else { dy };
    if adx > radius || ady > radius {
        return false;
    }
    if !is_power_block(v) {
        return false;
    }
    let dist = if adx >= ady { adx } else { ady };
    (dist == 1 && (dx == 0 || dy == 0)) || (dist <= 3 && (u == Tool::Node || v == Tool::Node))
}

/// Sunlight on solar panels, in two-hundredths of full sun, at time of day
/// `t` (hundredths of an hour, 0 to 2400): none before 6:00 or after 18:00,
/// rising from 6:00 to 8:00, full from 8:00 to 16:00, falling until 18:00.
pub open spec fn sunlight_spec(t: int) -> int {
    if t < 600 || t > 1800 {
        0
    } else if t < 800 {
        t - 600
    } else if t > 1600 {
        1800 - t
    } else {
        200
    }
}

pub fn sunlight(time_of_day: u32) -> (s: u32)
    ensures
        s == sunlight_spec(time_of_day as int),
        s <= 200,
{
    if time_of_day < 600 || time_of_day > 1800 {
        0
    } else if time_of_day < 800 {
        time_of_day - 600
    } else if time_of_day > 1600 {
        1800 - time_of_day
    } else {
        200
    }
}

/// The sun rises and sets symmetrically about noon: dark before 6:00 and
/// after 18:00, full from 8:00 to 16:00, never more than full, and never
/// dimming during the morning.
pub proof fn law_sunlight_symmetric_about_noon(t: int, u: int, d: int)
    ensures
        0 <= sunlight_spec(t) <= 200,
        t < 600 || t > 1800 ==> sunlight_spec(t) == 0,
        800 <= t <= 1600 ==> sunlight_spec(t) == 200,
        sunlight_spec(1200 - d) == sunlight_spec(1200 + d),
        t <= u <= 1200 ==> sunlight_spec(t) <= sunlight_spec(u),
{
}

/// Lexicographic order on positions: by column, then by row.
pub open spec fn pos_before(a: (i32, i32), b: (i32, i32)) -> bool {
    a.0 < b.0 || (a.0 == b.0 && a.1 < b.1)
}

/// The wire between `a` and `b`, stored with its lexicographically smaller end first.
pub fn ordered_link(a: (i32, i32), b: (i32, i32)) -> (r: PowerLink)
    ensures
        r == (if pos_before(a, b) { PowerLink { u: a, v: b } } else { PowerLink { u: b, v: a } }),
{
    if a.0 < b.0 || (a.0 == b.0 && a.1 < b.1) {
        PowerLink { u: a, v: b }
    } else {
        PowerLink { u: b, v: a }
    }
}

/// A wire is recorded the same way whichever end it was found from, so each wire is kept once.
pub proof fn law_link_orientation_free(a: (i32, i32), b: (i32, i32))
    ensures
        (if pos_before(a, b) { PowerLink { u: a, v: b } } else { PowerLink { u: b, v: a } })
            == (if pos_before(b, a) { PowerLink { u: b, v: a } } else { PowerLink { u: a, v: b } }),
{
}

/// Apart from poles, a power block only wires to its four orthogonal neighbours.
pub proof fn law_plain_blocks_link_orthogonally(u: Tool, v: Tool, dx: int, dy: int)
    requires
        u != Tool::Node,
        v != Tool::Node,
        power_linked_spec(u, v, dx, dy),
    ensures
        (dx == 0 && abs_spec(dy) == 1) || (dy == 0 && abs_spec(dx) == 1),
{
}

/// Every block wires to a power block on each of its four orthogonal
/// neighbours: above, below, left and right alike.
pub proof fn law_orthogonal_neighbours_wire(u: Tool, v: Tool, dx: int, dy: int)
    requires
        power_block_spec(v),
        (dx == 0 && (dy == 1 || dy == -1)) || (dy == 0 && (dx == 1 || dx == -1)),
    ensures
        power_linked_spec(u, v, dx, dy),
{
}

/// Wiring has no preferred axis or direction: swapping the two axes of the
/// offset, or mirroring either of them, wires the same blocks.
pub proof fn law_wiring_ignores_axis_and_direction(u: Tool, v: Tool, dx: int, dy: int)
    ensures
        power_linked_spec(u, v, dx, dy) == power_linked_spec(u, v, dy, dx),
        power_linked_spec(u, v, dx, dy) == power_linked_spec(u, v, -dx, dy),
        power_linked_spec(u, v, dx, dy) == power_linked_spec(u, v, dx, -dy),
{
}

/// Every internal map covers exactly the members.
spec fn doms_ok(
    parent: Map<u64, u64>,
    rank: Map<u64, u8>,
    has_gen: Map<u64, bool>,
    rep: Map<u64, u64>,
    gen: Map<u64, bool>,
) -> bool {
    &&& parent.dom() == rep.dom()
    &&& rank.dom() == rep.dom()
    &&& has_gen.dom() == rep.dom()
    &&& gen.dom() == rep.dom()
}

/// The representative of a member is a member that represents itself.
#[verifier::opaque]
spec fn reps_ok(rep: Map<u64, u64>) -> bool {
    forall|k: u64| #![trigger rep[k]] rep.contains_key(k) ==> rep.contains_key(rep[k]) && rep[rep[k]] == rep[k]
}

/// Parent links stay inside a component, point at themselves exactly at the
/// representative, and strictly raise the rank otherwise.
#[verifier::opaque]
spec fn parents_ok(parent: Map<u64, u64>, rank: Map<u64, u8>, rep: Map<u64, u64>) -> bool {
    forall|k: u64| #![trigger parent[k]] rep.contains_key(k) ==> {
        &&& rep.contains_key(parent[k])
        &&& rep[parent[k]] == rep[k]
        &&& (parent[k] == k <==> rep[k] == k)
        &&& (parent[k] != k ==> rank[k] < rank[parent[k]])
    }
}

spec fn is_root_key(rep: Map<u64, u64>, k: u64) -> bool {
    rep.contains_key(k) && rep[k] == k
}

/// The members whose representative is `r`.
spec fn comp_of(rep: Map<u64, u64>, r: u64) -> Set<u64> {
    rep.dom().filter(|q: u64| rep[q] == r)
}

spec fn comp_generates(rep: Map<u64, u64>, gen: Map<u64, bool>, r: u64) -> bool {
    exists|q: u64| #[trigger] comp_of(rep, r).contains(q) && gen[q]
}

/// Each root knows whether its component generates, and holds at least 2^rank members.
#[verifier::opaque]
spec fn roots_ok(rep: Map<u64, u64>, rank: Map<u64, u8>, has_gen: Map<u64, bool>, gen: Map<u64, bool>) -> bool {
    forall|k: u64| #[trigger] is_root_key(rep, k) ==> {
        &&& has_gen[k] == comp_generates(rep, gen, k)
        &&& comp_of(rep, k).len() >= pow2(rank[k] as nat)
    }
}

/// Pointing a non-root member straight at its representative keeps the parent invariant.
proof fn lemma_compress(parent: Map<u64, u64>, rank: Map<u64, u8>, rep: Map<u64, u64>, k: u64, r: u64)
    requires
        parents_ok(parent, rank, rep),
        rep.contains_key(k),
        rep[k] == r,
        r != k,
        rep.contains_key(r),
        rep[r] == r,
        rank[k] < rank[r],
    ensures
        parents_ok(parent.insert(k, r), rank, rep),
{
    reveal(parents_ok);
    let np = parent.insert(k, r);
    assert forall|q: u64| #![trigger np[q]] rep.contains_key(q) implies {
        &&& rep.contains_key(np[q])
        &&& rep[np[q]] == rep[q]
        &&& (np[q] == q <==> rep[q] == q)
        &&& (np[q] != q ==> rank[q] < rank[np[q]])
    } by {
        if q != k {
            assert(parent[q] == parent[q]);
        }
    }
}

/// `rep` with the component of `old_root` moved under `new_root`.
spec fn relink(rep: Map<u64, u64>, old_root: u64, new_root: u64) -> Map<u64, u64> {
    Map::new(|q: u64| rep.contains_key(q), |q: u64| if rep[q] == old_root { new_root } else { rep[q] })
}

/// Adding a fresh key as its own singleton component keeps every invariant.
proof fn lemma_add_singleton(
    parent: Map<u64, u64>,
    rank: Map<u64, u8>,
    has_gen: Map<u64, bool>,
    rep: Map<u64, u64>,
    gen: Map<u64, bool>,
    k: u64,
    g: bool,
)
    requires
        doms_ok(parent, rank, has_gen, rep, gen),
        reps_ok(rep),
        parents_ok(parent, rank, rep),
        roots_ok(rep, rank, has_gen, gen),
        !rep.contains_key(k),
    ensures
        doms_ok(parent.insert(k, k), rank.insert(k, 0), has_gen.insert(k, g), rep.insert(k, k), gen.insert(k, g)),
        reps_ok(rep.insert(k, k)),
        parents_ok(parent.insert(k, k), rank.insert(k, 0), rep.insert(k, k)),
        roots_ok(rep.insert(k, k), rank.insert(k, 0), has_gen.insert(k, g), gen.insert(k, g)),
{
    reveal(reps_ok);
    reveal(parents_ok);
    reveal(roots_ok);
    let rep2 = rep.insert(k, k);
    let gen2 = gen.insert(k, g);
    let rank2 = rank.insert(k, 0);
    let hg2 = has_gen.insert(k, g);
    let par2 = parent.insert(k, k);
    assert(par2.dom() =~= rep2.dom());
    assert(rank2.dom() =~= rep2.dom());
    assert(hg2.dom() =~= rep2.dom());
    assert(gen2.dom() =~= rep2.dom());
    assert forall|q: u64| #![trigger rep2[q]] rep2.contains_key(q) implies rep2.contains_key(rep2[q]) && rep2[rep2[q]] == rep2[q] by {
        if q != k {
            assert(rep[q] == rep[q]);
        }
    }
    assert forall|q: u64| #![trigger par2[q]] rep2.contains_key(q) implies {
        &&& rep2.contains_key(par2[q])
        &&& rep2[par2[q]] == rep2[q]
        &&& (par2[q] == q <==> rep2[q] == q)
        &&& (par2[q] != q ==> rank2[q] < rank2[par2[q]])
    } by {
        if q != k {
            assert(parent[q] == parent[q]);
            assert(rep[q] == rep[q]);
        }
    }
    assert forall|r: u64| #[trigger] is_root_key(rep2, r) implies {
        &&& hg2[r] == comp_generates(rep2, gen2, r)
        &&& comp_of(rep2, r).len() >= pow2(rank2[r] as nat)
    } by {
        if r == k {
            assert(comp_of(rep2, k) =~= set![k]);
            assert(comp_of(rep2, k).contains(k));
            lemma2_to64();
        } else {
            assert(is_root_key(rep, r));
            assert(comp_of(rep2, r) =~= comp_of(rep, r));
            if comp_generates(rep, gen, r) {
                let q = choose|q: u64| #[trigger] comp_of(rep, r).contains(q) && gen[q];
                assert(comp_of(rep2, r).contains(q) && gen2[q]);
            }
            if comp_generates(rep2, gen2, r) {
                let q = choose|q: u64| #[trigger] comp_of(rep2, r).contains(q) && gen2[q];
                assert(comp_of(rep, r).contains(q) && gen[q]);
            }
        }
    }
}

/// Two distinct roots have disjoint components, both inside the member set.
proof fn lemma_two_comps(rep: Map<u64, u64>, a: u64, b: u64)
    requires
        rep.dom().finite(),
        a != b,
    ensures
        comp_of(rep, a).finite(),
        comp_of(rep, b).finite(),
        comp_of(rep, a).disjoint(comp_of(rep, b)),
        (comp_of(rep, a) + comp_of(rep, b)).len() == comp_of(rep, a).len() + comp_of(rep, b).len(),
        (comp_of(rep, a) + comp_of(rep, b)).len() <= rep.dom().len(),
{
    lemma_len_subset(comp_of(rep, a), rep.dom());
    lemma_len_subset(comp_of(rep, b), rep.dom());
    lemma_set_disjoint_lens(comp_of(rep, a), comp_of(rep, b));
    lemma_len_subset(comp_of(rep, a) + comp_of(rep, b), rep.dom());
}

/// Two distinct roots of a map with fewer than 2^64 members both have rank below 64.
proof fn lemma_rank_bound(rep: Map<u64, u64>, rank: Map<u64, u8>, has_gen: Map<u64, bool>, gen: Map<u64, bool>, a: u64, b: u64, n: nat)
    requires
        roots_ok(rep, rank, has_gen, gen),
        rep.dom().finite(),
        rep.dom().len() == n,
        n <= 18446744073709551615,
        is_root_key(rep, a),
        is_root_key(rep, b),
        a != b,
    ensures
        rank[a] < 64,
        rank[b] < 64,
{
    reveal(roots_ok);
    lemma_two_comps(rep, a, b);
    lemma2_to64();
    if rank[a] >= 64 {
        if rank[a] > 64 {
            lemma_pow2_strictly_increases(64, rank[a] as nat);
        }
    }
    if rank[b] >= 64 {
        if rank[b] > 64 {
            lemma_pow2_strictly_increases(64, rank[b] as nat);
        }
    }
}

/// Hanging the root `old_root` under the root `new_root` keeps every invariant,
/// given a rank for the new root that exceeds the old root's and still bounds
/// the merged size, and the merged generator flag.
#[verifier::spinoff_prover]
proof fn lemma_link(
    parent: Map<u64, u64>,
    rank: Map<u64, u8>,
    has_gen: Map<u64, bool>,
    rep: Map<u64, u64>,
    gen: Map<u64, bool>,
    new_root: u64,
    old_root: u64,
    new_rank: u8,
    new_gen: bool,
)
    requires
        doms_ok(parent, rank, has_gen, rep, gen),
        rep.dom().finite(),
        reps_ok(rep),
        parents_ok(parent, rank, rep),
        roots_ok(rep, rank, has_gen, gen),
        is_root_key(rep, new_root),
        is_root_key(rep, old_root),
        new_root != old_root,
        rank[old_root] < new_rank,
        new_rank == rank[new_root] || (new_rank == rank[new_root] + 1 && rank[new_root] == rank[old_root]),
        new_gen == (has_gen[new_root] || has_gen[old_root]),
    ensures
        doms_ok(parent.insert(old_root, new_root), rank.insert(new_root, new_rank),
            has_gen.insert(new_root, new_gen), relink(rep, old_root, new_root), gen),
        reps_ok(relink(rep, old_root, new_root)),
        parents_ok(parent.insert(old_root, new_root), rank.insert(new_root, new_rank), relink(rep, old_root, new_root)),
        roots_ok(relink(rep, old_root, new_root), rank.insert(new_root, new_rank), has_gen.insert(new_root, new_gen), gen),
{
    reveal(reps_ok);
    reveal(parents_ok);
    reveal(roots_ok);
    let rep2 = relink(rep, old_root, new_root);
    let par2 = parent.insert(old_root, new_root);
    let rank2 = rank.insert(new_root, new_rank);
    let hg2 = has_gen.insert(new_root, new_gen);
    assert(rep2.dom() =~= rep.dom());
    assert(par2.dom() =~= rep.dom());
    assert(rank2.dom() =~= rep.dom());
    assert(hg2.dom() =~= rep.dom());
    assert(rep[new_root] == rep[new_root]);
    assert(rep[old_root] == rep[old_root]);
    assert forall|q: u64| #![trigger rep2[q]] rep2.contains_key(q) implies rep2.contains_key(rep2[q]) && rep2[rep2[q]] == rep2[q] by {
        assert(rep[q] == rep[q]);
        assert(rep[rep[q]] == rep[rep[q]]);
    }
    assert forall|q: u64| #![trigger par2[q]] rep2.contains_key(q) implies {
        &&& rep2.contains_key(par2[q])
        &&& rep2[par2[q]] == rep2[q]
        &&& (par2[q] == q <==> rep2[q] == q)
        &&& (par2[q] != q ==> rank2[q] < rank2[par2[q]])
    } by {
        assert(rep[q] == rep[q]);
        if q != old_root {
            assert(parent[q] == parent[q]);
            assert(rep[parent[q]] == rep[parent[q]]);
        }
    }
    lemma_two_comps(rep, new_root, old_root);
    assert forall|r: u64| #[trigger] is_root_key(rep2, r) implies {
        &&& hg2[r] == comp_generates(rep2, gen, r)
        &&& comp_of(rep2, r).len() >= pow2(rank2[r] as nat)
    } by {
        assert(rep[r] == rep[r]);
        assert(is_root_key(rep, r));
        if r == new_root {
            let merged = comp_of(rep, new_root) + comp_of(rep, old_root);
            assert(comp_of(rep2, r) =~= merged);
            if comp_generates(rep2, gen, r) {
                let q = choose|q: u64| #[trigger] comp_of(rep2, r).contains(q) && gen[q];
                if comp_of(rep, new_root).contains(q) {
                    assert(comp_generates(rep, gen, new_root));
                } else {
                    assert(comp_generates(rep, gen, old_root));
                }
            }
            if has_gen[new_root] {
                let q = choose|q: u64| #[trigger] comp_of(rep, new_root).contains(q) && gen[q];
                assert(comp_of(rep2, r).contains(q));
            }
            if has_gen[old_root] {
                let q = choose|q: u64| #[trigger] comp_of(rep, old_root).contains(q) && gen[q];
                assert(comp_of(rep2, r).contains(q));
            }
            if new_rank != rank[new_root] {
                lemma_pow2_unfold(new_rank as nat);
            }
        } else {
            assert(comp_of(rep2, r) =~= comp_of(rep, r));
            if comp_generates(rep, gen, r) {
                let q = choose|q: u64| #[trigger] comp_of(rep, r).contains(q) && gen[q];
                assert(comp_of(rep2, r).contains(q));
            }
            if comp_generates(rep2, gen, r) {
                let q = choose|q: u64| #[trigger] comp_of(rep2, r).contains(q) && gen[q];
                assert(comp_of(rep, r).contains(q));
            }
        }
    }
}

} // verus!
