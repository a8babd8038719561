//! The order in which the live particles of a frame are drawn: the farthest
//! first, so that what is nearer is blended over what is farther.

use vstd::multiset::Multiset;
use vstd::prelude::*;
use vstd::seq_lib::lemma_multiset_commutative;
use vstd::seq_lib::to_multiset_build;

verus! {

/// A live particle as the draw order sees it.
#[derive(Clone, Copy, Debug, PartialEq, Eq)]
pub struct Living {
    /// The particle's slot.
    pub slot: usize,
    /// A number that grows with the particle's distance from the viewer; the
    /// bits of a floating-point distance that is not negative are one.
    pub cam_dist: u32,
}

/// Whether `a` is drawn no later than `b`: the farther first, and of two that
/// are as far, the lower slot.
pub open spec fn draws_before(a: Living, b: Living) -> bool {
    a.cam_dist > b.cam_dist || (a.cam_dist == b.cam_dist && a.slot <= b.slot)
}

/// Whether `s` is in drawing order.
pub open spec fn back_to_front(s: Seq<Living>) -> bool {
    forall|i: int, j: int| 0 <= i < j < s.len() ==> draws_before(s[i], s[j])
}

/// Two particles that may each be drawn before the other are the same.
pub proof fn lemma_draw_order_total(a: Living, b: Living)
    ensures
        draws_before(a, b) || draws_before(b, a),
        draws_before(a, b) && draws_before(b, a) ==> a == b,
{
}

/// There is one drawing order: two sequences in drawing order that hold the
/// same particles, each as often, are the same.
pub proof fn lemma_draw_order_unique(s: Seq<Living>, t: Seq<Living>)
    requires
        back_to_front(s),
        back_to_front(t),
        s.to_multiset() == t.to_multiset(),
    ensures
        s == t,
    decreases s.len(),
{
    broadcast use vstd::seq_lib::group_to_multiset_ensures;

    s.to_multiset_ensures();
    t.to_multiset_ensures();
    assert(s.len() == t.len());
    if s.len() > 0 {
        let a = s[0];
        let b = t[0];
        assert(s.contains(a));
        assert(t.to_multiset().count(a) > 0);
        assert(t.contains(a));
        let j = choose|j: int| 0 <= j < t.len() && t[j] == a;
        assert(t.contains(b));
        assert(s.to_multiset().count(b) > 0);
        assert(s.contains(b));
        let i = choose|i: int| 0 <= i < s.len() && s[i] == b;
        assert(draws_before(a, b));
        assert(draws_before(b, a));
        assert(a == b);
        let s1 = s.remove(0);
        let t1 = t.remove(0);
        assert(s1.to_multiset() == t1.to_multiset());
        assert forall|x: int, y: int| 0 <= x < y < s1.len() implies draws_before(s1[x], s1[y]) by {
            assert(s1[x] == s[x + 1]);
            assert(s1[y] == s[y + 1]);
        }
        assert forall|x: int, y: int| 0 <= x < y < t1.len() implies draws_before(t1[x], t1[y]) by {
            assert(t1[x] == t[x + 1]);
            assert(t1[y] == t[y + 1]);
        }
        lemma_draw_order_unique(s1, t1);
        assert(s =~= seq![a] + s1);
        assert(t =~= seq![b] + t1);
    }
}

/// Whether `a` is drawn no later than `b`.
fn is_before(a: &Living, b: &Living) -> (r: bool)
    ensures
        r == draws_before(*a, *b),
{
    a.cam_dist > b.cam_dist || (a.cam_dist == b.cam_dist && a.slot <= b.slot)
}

/// Merges two sequences that are in drawing order into one.
fn merge(a: &Vec<Living>, b: &Vec<Living>) -> (out: Vec<Living>)
    requires
        back_to_front(a@),
        back_to_front(b@),
    ensures
        back_to_front(out@),
        out@.to_multiset() == a@.to_multiset().add(b@.to_multiset()),
{
    let mut out: Vec<Living> = Vec::new();
    let mut i: usize = 0;
    let mut j: usize = 0;
    proof {
        assert(out@ =~= Seq::<Living>::empty());
        assert(a@.take(0) =~= Seq::<Living>::empty());
        assert(b@.take(0) =~= Seq::<Living>::empty());
        assert(Seq::<Living>::empty().to_multiset() =~= Multiset::<Living>::empty()) by {
            Seq::<Living>::empty().to_multiset_ensures();
            vstd::multiset::lemma_multiset_empty_len(Seq::<Living>::empty().to_multiset());
        }
        assert(out@.to_multiset() =~= a@.take(0).to_multiset().add(b@.take(0).to_multiset()));
    }
    while i < a.len() || j < b.len()
        invariant
            i <= a.len(),
            j <= b.len(),
            back_to_front(a@),
            back_to_front(b@),
            back_to_front(out@),
            out@.to_multiset() == a@.take(i as int).to_multiset().add(b@.take(j as int).to_multiset()),
            forall|k: int| 0 <= k < out.len() && i < a.len() ==> draws_before(out@[k], a@[i as int]),
            forall|k: int| 0 <= k < out.len() && j < b.len() ==> draws_before(out@[k], b@[j as int]),
        decreases a.len() - i + b.len() - j,
    {
        let from_a: bool = if i == a.len() {
            false
        } else if j == b.len() {
            true
        } else {
            is_before(&a[i], &b[j])
        };
        let ghost before = out@;
        if from_a {
            let x: Living = a[i];
            out.push(x);
            proof {
                assert(a@.take(i + 1) =~= a@.take(i as int).push(x));
                to_multiset_build(a@.take(i as int), x);
                to_multiset_build(before, x);
                assert(out@.to_multiset() =~= a@.take(i + 1).to_multiset().add(
                    b@.take(j as int).to_multiset(),
                ));
                assert forall|k: int| 0 <= k < out.len() && i + 1 < a.len() implies draws_before(
                    out@[k],
                    a@[i + 1],
                ) by {
                    assert(draws_before(a@[i as int], a@[i + 1]));
                }
            }
            i += 1;
        } else {
            let x: Living = b[j];
            out.push(x);
            proof {
                assert(b@.take(j + 1) =~= b@.take(j as int).push(x));
                to_multiset_build(b@.take(j as int), x);
                to_multiset_build(before, x);
                assert(out@.to_multiset() =~= a@.take(i as int).to_multiset().add(
                    b@.take(j + 1).to_multiset(),
                ));
                assert forall|k: int| 0 <= k < out.len() && j + 1 < b.len() implies draws_before(
                    out@[k],
                    b@[j + 1],
                ) by {
                    assert(draws_before(b@[j as int], b@[j + 1]));
                }
            }
            j += 1;
        }
    }
    proof {
        assert(a@.take(i as int) =~= a@);
        assert(b@.take(j as int) =~= b@);
    }
    out
}

/// The particles `living[lo .. hi]` in drawing order.
fn sorted(living: &Vec<Living>, lo: usize, hi: usize) -> (out: Vec<Living>)
    requires
        lo <= hi <= living.len(),
    ensures
        back_to_front(out@),
        out@.to_multiset() == living@.subrange(lo as int, hi as int).to_multiset(),
    decreases hi - lo,
{
    if hi - lo <= 1 {
        let mut out: Vec<Living> = Vec::new();
        if hi - lo == 1 {
            out.push(living[lo]);
        }
        proof {
            assert(out@ =~= living@.subrange(lo as int, hi as int));
        }
        out
    } else {
        let mid: usize = lo + (hi - lo) / 2;
        let front: Vec<Living> = sorted(living, lo, mid);
        let back: Vec<Living> = sorted(living, mid, hi);
        proof {
            lemma_multiset_commutative(
                living@.subrange(lo as int, mid as int),
                living@.subrange(mid as int, hi as int),
            );
            assert(living@.subrange(lo as int, mid as int) + living@.subrange(mid as int, hi as int)
                =~= living@.subrange(lo as int, hi as int));
        }
        merge(&front, &back)
    }
}

/// The live particles of a frame in drawing order: the farthest first, and
/// of two that are as far, the lower slot first.  They are the same
/// particles, each as often as in `living`.
pub fn drawing_order(living: &Vec<Living>) -> (order: Vec<Living>)
    ensures
        back_to_front(order@),
        order@.to_multiset() == living@.to_multiset(),
{
    let order: Vec<Living> = sorted(living, 0, living.len());
    proof {
        assert(living@.subrange(0, living.len() as int) =~= living@);
    }
    order
}

/// Puts the live particles of a frame in drawing order: the farthest first,
/// and of two that are as far, the lower slot first.  The same particles
/// are left, each as often as before.
pub fn sort_living(living: &mut Vec<Living>)
    ensures
        back_to_front(final(living)@),
        final(living)@.to_multiset() == old(living)@.to_multiset(),
{
    let out: Vec<Living> = drawing_order(living);
    *living = out;
}

} // verus!
