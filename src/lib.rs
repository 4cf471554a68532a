//! A multiset homomorphic hash over the scalar field of BLS12-381.
//!
//! A multiset with signed multiplicities `m_e` is committed to as the single
//! field element `prod_e e^(m_e)`. Union and difference of multisets become
//! multiplication and division of their hashes.
pub mod field;
pub mod hash;
pub mod laws;

pub use field::Fe;
pub use hash::{HashError, HashToField, MultisetHash};
