//! The multiset hash: one field element `prod_e e^(m_e)` standing for a
//! multiset whose element `e` has the signed multiplicity `m_e`.
//!
//! Hashes are values: every operation returns a new hash. There is no
//! intersection: the least of two multiplicities is not a group operation,
//! so it cannot be computed from two hashes alone.
use vstd::prelude::*;
use crate::field::{inverse, mul_mod, pow_mod, valid_elem, Fe};

verus! {

/// The hash `h` after `k` more copies of `e` are added.
pub open spec fn added(h: nat, e: nat, k: nat) -> nat {
    mul_mod(h, pow_mod(e, k))
}

/// The hash `h` after `k` copies of `e` are removed.
pub open spec fn removed(h: nat, e: nat, k: nat) -> nat {
    mul_mod(h, pow_mod(inverse(e), k))
}

/// The hash of the sum of the multisets hashed by `a` and `b`.
pub open spec fn united(a: nat, b: nat) -> nat {
    mul_mod(a, b)
}

/// The hash of the multiset hashed by `a` less the one hashed by `b`.
pub open spec fn differed(a: nat, b: nat) -> nat {
    mul_mod(a, inverse(b))
}

/// Why an operation on a hash failed.
#[derive(Clone, Copy, Debug, PartialEq, Eq)]
pub enum HashError {
    /// The element has no multiplicative inverse: it is zero.
    InvalidElement,
}

/// Maps a value of some domain to a field element.
///
/// The mapping must be deterministic; it should never give zero, which
/// cannot be removed from a hash.
pub trait HashToField {
    /// The field element that `self` maps to.
    spec fn to_field(&self) -> Fe;

    fn hash_to_field(&self) -> (r: Fe)
        ensures
            r == self.to_field(),
            r.wf(),
    ;
}

/// A multiset hash. Multiplicities may be negative: removing an element that
/// was never added is allowed.
#[derive(Clone, Copy, Debug, PartialEq, Eq)]
pub struct MultisetHash {
    elem: Fe,
}

impl View for MultisetHash {
    type V = nat;

    closed spec fn view(&self) -> nat {
        self.elem@
    }
}

impl MultisetHash {
    /// The hash is a canonical element of the field.
    pub open spec fn wf(&self) -> bool {
        valid_elem(self@)
    }

    /// The hash of the empty multiset: the field's multiplicative identity.
    pub fn new() -> (r: MultisetHash)
        ensures
            r@ == 1,
            r.wf(),
    {
        MultisetHash { elem: Fe::one() }
    }

    /// The field element that this hash is.
    pub fn element(&self) -> (r: Fe)
        ensures
            r@ == self@,
    {
        self.elem
    }

    /// The hash after adding `count` copies of `elem`: `self * elem^count`.
    pub fn add(&self, elem: Fe, count: u64) -> (r: MultisetHash)
        requires
            self.wf(),
            elem.wf(),
        ensures
            r@ == added(self@, elem@, count as nat),
            r.wf(),
    {
        let term = elem.pow(count);
        MultisetHash { elem: self.elem.mul(&term) }
    }

    /// As `add`, for a value that is first mapped to the field.
    pub fn add_elem<T: HashToField>(&self, elem: T, count: u64) -> (r: MultisetHash)
        requires
            self.wf(),
        ensures
            r@ == added(self@, elem.to_field()@, count as nat),
            r.wf(),
    {
        let e = elem.hash_to_field();
        self.add(e, count)
    }

    /// The hash after removing `count` copies of `elem`:
    /// `self * (elem^-1)^count`. Fails when `elem` is zero.
    pub fn remove(&self, elem: Fe, count: u64) -> (r: Result<MultisetHash, HashError>)
        requires
            self.wf(),
            elem.wf(),
        ensures
            r is Err <==> elem@ == 0,
            r matches Err(e) ==> e == HashError::InvalidElement,
            r matches Ok(h) ==> h@ == removed(self@, elem@, count as nat) && h.wf(),
    {
        match elem.invert() {
            None => Err(HashError::InvalidElement),
            Some(inv) => {
                let term = inv.pow(count);
                Ok(MultisetHash { elem: self.elem.mul(&term) })
            },
        }
    }

    /// As `remove`, for a value that is first mapped to the field.
    pub fn remove_elem<T: HashToField>(&self, elem: T, count: u64) -> (r: Result<
        MultisetHash,
        HashError,
    >)
        requires
            self.wf(),
        ensures
            r is Err <==> elem.to_field()@ == 0,
            r matches Err(e) ==> e == HashError::InvalidElement,
            r matches Ok(h) ==> h@ == removed(self@, elem.to_field()@, count as nat) && h.wf(),
    {
        let e = elem.hash_to_field();
        self.remove(e, count)
    }

    /// The hash of the multiset union, where multiplicities add:
    /// `self * other`.
    pub fn multiset_union(&self, other: &MultisetHash) -> (r: MultisetHash)
        requires
            self.wf(),
            other.wf(),
        ensures
            r@ == united(self@, other@),
            r.wf(),
    {
        MultisetHash { elem: self.elem.mul(&other.elem) }
    }

    /// The hash of the multiset difference, where multiplicities subtract
    /// and may become negative: `self * other^-1`. Fails when `other` is
    /// zero, which no hash built from valid elements is.
    pub fn multiset_difference(&self, other: &MultisetHash) -> (r: Result<
        MultisetHash,
        HashError,
    >)
        requires
            self.wf(),
            other.wf(),
        ensures
            r is Err <==> other@ == 0,
            r matches Err(e) ==> e == HashError::InvalidElement,
            r matches Ok(h) ==> h@ == differed(self@, other@) && h.wf(),
    {
        match other.elem.invert() {
            None => Err(HashError::InvalidElement),
            Some(inv) => Ok(MultisetHash { elem: self.elem.mul(&inv) }),
        }
    }
}

} // verus!
