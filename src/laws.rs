//! The algebraic laws of the multiset hash: adding and removing undo each
//! other, the order of additions does not matter, multiplicities add, and
//! union and difference of hashes follow union and difference of multisets.
use vstd::prelude::*;
use vstd::seq_lib::{to_multiset_contains, to_multiset_len, to_multiset_remove};
use crate::field::{inverse, inverts, modulus, mul_mod, pow_mod, valid_elem};
use crate::field::{
    lemma_inverse, lemma_inverse_mul, lemma_inverse_pow, lemma_inverse_unique,
    lemma_mul_mod_assoc, lemma_mul_mod_comm, lemma_mul_mod_one, lemma_mul_valid,
    lemma_pow_mod_add, lemma_pow_mod_distrib, lemma_pow_mod_of_one, lemma_pow_valid,
};
use crate::hash::{added, differed, removed, united};

verus! {

/// The hash `h` after each `(element, count)` pair of `s` is added in turn.
pub open spec fn replay(h: nat, s: Seq<(nat, nat)>) -> nat
    decreases s.len(),
{
    if s.len() == 0 {
        h
    } else {
        replay(added(h, s[0].0, s[0].1), s.drop_first())
    }
}

/// The hash `h` after each `(element, count)` pair of `s` is removed in turn.
pub open spec fn unreplay(h: nat, s: Seq<(nat, nat)>) -> nat
    decreases s.len(),
{
    if s.len() == 0 {
        h
    } else {
        unreplay(removed(h, s[0].0, s[0].1), s.drop_first())
    }
}

/// Every element of `s` is a valid field element.
pub open spec fn all_valid(s: Seq<(nat, nat)>) -> bool {
    forall|i: int| 0 <= i < s.len() ==> valid_elem(#[trigger] s[i].0)
}

/// Every element of `s` is a valid, nonzero field element.
pub open spec fn all_removable(s: Seq<(nat, nat)>) -> bool {
    forall|i: int| 0 <= i < s.len() ==> valid_elem(#[trigger] s[i].0) && s[i].0 != 0
}

/// The factor that one `(element, count)` pair contributes to a hash.
pub open spec fn term(p: (nat, nat)) -> nat {
    pow_mod(p.0, p.1)
}

/// The product of the factors of all pairs of `s`.
pub open spec fn product(s: Seq<(nat, nat)>) -> nat
    decreases s.len(),
{
    if s.len() == 0 {
        1
    } else {
        mul_mod(term(s[0]), product(s.drop_first()))
    }
}

/// The product of the inverse factors of all pairs of `s`.
pub open spec fn inv_product(s: Seq<(nat, nat)>) -> nat
    decreases s.len(),
{
    if s.len() == 0 {
        1
    } else {
        mul_mod(pow_mod(inverse(s[0].0), s[0].1), inv_product(s.drop_first()))
    }
}

proof fn lemma_product_bound(s: Seq<(nat, nat)>)
    ensures
        product(s) < modulus(),
{
}

proof fn lemma_replay_product(h: nat, s: Seq<(nat, nat)>)
    requires
        h < modulus(),
    ensures
        replay(h, s) == mul_mod(h, product(s)),
    decreases s.len(),
{
    if s.len() == 0 {
        lemma_mul_mod_one(h);
    } else {
        let h1 = added(h, s[0].0, s[0].1);
        lemma_replay_product(h1, s.drop_first());
        lemma_mul_mod_assoc(h, term(s[0]), product(s.drop_first()));
    }
}

proof fn lemma_unreplay_product(h: nat, s: Seq<(nat, nat)>)
    requires
        h < modulus(),
    ensures
        unreplay(h, s) == mul_mod(h, inv_product(s)),
    decreases s.len(),
{
    if s.len() == 0 {
        lemma_mul_mod_one(h);
    } else {
        let h1 = removed(h, s[0].0, s[0].1);
        lemma_unreplay_product(h1, s.drop_first());
        lemma_mul_mod_assoc(
            h,
            pow_mod(inverse(s[0].0), s[0].1),
            inv_product(s.drop_first()),
        );
    }
}

/// Taking out the pair at `j` leaves the product with that pair's factor
/// divided out.
proof fn lemma_product_remove(s: Seq<(nat, nat)>, j: int)
    requires
        0 <= j < s.len(),
    ensures
        product(s) == mul_mod(term(s[j]), product(s.remove(j))),
    decreases j,
{
    if j == 0 {
        assert(s.remove(0) =~= s.drop_first());
    } else {
        let r = s.drop_first();
        lemma_product_remove(r, j - 1);
        assert(r.remove(j - 1) =~= s.remove(j).drop_first());
        assert(s.remove(j)[0] == s[0]);
        let t0 = term(s[0]);
        let tj = term(s[j]);
        let rest = product(s.remove(j).drop_first());
        lemma_mul_mod_assoc(t0, tj, rest);
        lemma_mul_mod_comm(t0, tj);
        lemma_mul_mod_assoc(tj, t0, rest);
    }
}

proof fn lemma_product_perm(s: Seq<(nat, nat)>, t: Seq<(nat, nat)>)
    requires
        s.to_multiset() == t.to_multiset(),
    ensures
        product(s) == product(t),
    decreases s.len(),
{
    to_multiset_len(s);
    to_multiset_len(t);
    if s.len() > 0 {
        let x = s[0];
        to_multiset_contains(s, x);
        assert(s.contains(x)) by {
            assert(s[0] == x);
        }
        to_multiset_contains(t, x);
        let j = choose|j: int| 0 <= j < t.len() && t[j] == x;
        lemma_product_remove(t, j);
        to_multiset_remove(s, 0);
        to_multiset_remove(t, j);
        assert(s.remove(0) =~= s.drop_first());
        lemma_product_perm(s.drop_first(), t.remove(j));
    }
}

proof fn lemma_product_concat(s: Seq<(nat, nat)>, t: Seq<(nat, nat)>)
    ensures
        product(s + t) == mul_mod(product(s), product(t)),
    decreases s.len(),
{
    if s.len() == 0 {
        assert(s + t =~= t);
        lemma_product_bound(t);
        lemma_mul_mod_one(product(t));
    } else {
        lemma_product_concat(s.drop_first(), t);
        assert((s + t).drop_first() =~= s.drop_first() + t);
        lemma_mul_mod_assoc(term(s[0]), product(s.drop_first()), product(t));
    }
}

/// For removable pairs the product is a nonzero valid element whose inverse
/// is the product of the inverse factors.
proof fn lemma_inv_product(s: Seq<(nat, nat)>)
    requires
        all_removable(s),
    ensures
        valid_elem(product(s)),
        product(s) != 0,
        inverse(product(s)) == inv_product(s),
    decreases s.len(),
{
    if s.len() == 0 {
        lemma_mul_mod_one(1);
        assert(inverts(1, 1));
        lemma_inverse_unique(1, 1);
    } else {
        let e = s[0].0;
        let k = s[0].1;
        let r = s.drop_first();
        assert(all_removable(r)) by {
            assert forall|i: int| 0 <= i < r.len() implies valid_elem(#[trigger] r[i].0)
                && r[i].0 != 0 by {
                assert(r[i] == s[i + 1]);
            }
        }
        assert(valid_elem(e) && e != 0) by {
            assert(s[0].0 == e);
        }
        lemma_inv_product(r);
        lemma_pow_valid(e, k);
        lemma_inverse_pow(e, k);
        lemma_mul_valid(term(s[0]), product(r));
        lemma_inverse_mul(term(s[0]), product(r));
    }
}

/// Adding `k` copies of a nonzero element and then removing them again
/// gives back the hash one started from; from `new()` this is `new()` again.
pub proof fn law_add_then_remove(h: nat, e: nat, k: nat)
    requires
        valid_elem(h),
        valid_elem(e),
        e != 0,
    ensures
        removed(added(h, e, k), e, k) == h,
{
    let i = inverse(e);
    lemma_inverse(e);
    lemma_mul_mod_assoc(h, pow_mod(e, k), pow_mod(i, k));
    lemma_pow_mod_distrib(e, i, k);
    lemma_pow_mod_of_one(k);
    lemma_mul_mod_one(h);
}

/// Adding the same `(element, count)` pairs in any order gives the same hash.
pub proof fn law_add_order(h: nat, s: Seq<(nat, nat)>, t: Seq<(nat, nat)>)
    requires
        valid_elem(h),
        s.to_multiset() == t.to_multiset(),
    ensures
        replay(h, s) == replay(h, t),
{
    lemma_replay_product(h, s);
    lemma_replay_product(h, t);
    lemma_product_perm(s, t);
}

/// Adding `a` copies of `e` and then `b` copies is adding `a + b` copies.
pub proof fn law_add_counts(h: nat, e: nat, a: nat, b: nat)
    ensures
        added(added(h, e, a), e, b) == added(h, e, a + b),
{
    lemma_mul_mod_assoc(h, pow_mod(e, a), pow_mod(e, b));
    lemma_pow_mod_add(e, a, b);
}

/// The union of the hashes of two sequences of additions is the hash of
/// both sequences replayed one after the other.
pub proof fn law_union(s: Seq<(nat, nat)>, t: Seq<(nat, nat)>)
    ensures
        united(replay(1, s), replay(1, t)) == replay(1, s + t),
{
    lemma_replay_product(1, s);
    lemma_replay_product(1, t);
    lemma_replay_product(1, s + t);
    lemma_product_bound(s);
    lemma_product_bound(t);
    lemma_product_bound(s + t);
    lemma_mul_mod_one(product(s));
    lemma_mul_mod_one(product(t));
    lemma_mul_mod_one(product(s + t));
    lemma_product_concat(s, t);
}

/// The difference of the hashes of two sequences of additions is the hash
/// built by adding the first sequence and removing the second. The hash of
/// the second is never zero, so the difference is always defined.
pub proof fn law_difference(s: Seq<(nat, nat)>, t: Seq<(nat, nat)>)
    requires
        all_removable(t),
    ensures
        replay(1, t) != 0,
        differed(replay(1, s), replay(1, t)) == unreplay(replay(1, s), t),
{
    lemma_replay_product(1, s);
    lemma_replay_product(1, t);
    lemma_product_bound(s);
    lemma_product_bound(t);
    lemma_mul_mod_one(product(s));
    lemma_mul_mod_one(product(t));
    lemma_inv_product(t);
    lemma_unreplay_product(product(s), t);
}

} // verus!
