use multiset_hash::{Fe, HashError, HashToField, MultisetHash};

fn fe(n: u64) -> Fe {
    Fe::from_u64(n)
}

fn hash_of(pairs: &[(u64, u64)]) -> MultisetHash {
    let mut h = MultisetHash::new();
    for &(elem, count) in pairs.iter() {
        h = h.add(fe(elem), count);
    }
    h
}

struct Word(u64);

impl HashToField for Word {
    fn to_field(&self) -> Fe {
        Fe::from_u64(self.0.wrapping_mul(31).wrapping_add(7))
    }

    fn hash_to_field(&self) -> Fe {
        self.to_field()
    }
}

struct Zero;

impl HashToField for Zero {
    fn to_field(&self) -> Fe {
        Fe::from_u64(0)
    }

    fn hash_to_field(&self) -> Fe {
        self.to_field()
    }
}

#[test]
fn test_single_ops() {
    let mut mh = MultisetHash::new();
    assert_eq!(mh.element(), Fe::one());

    mh = mh.add(fe(2), 1);
    mh = mh.remove(fe(2), 1).unwrap();
    assert_eq!(mh.element(), Fe::one());

    mh = mh.add(fe(5), 4);
    for _ in 0..4 {
        mh = mh.remove(fe(5), 1).unwrap();
    }
    assert_eq!(mh.element(), Fe::one());

    for _ in 0..27 {
        mh = mh.add(fe(3), 1);
    }
    mh = mh.remove(fe(3), 27).unwrap();
    assert_eq!(mh.element(), Fe::one());
}

#[test]
fn test_union() {
    let a: Vec<(u64, u64)> = vec![(2, 1), (10, 4), (4, 1), (7, 3), (3, 7)];
    let b: Vec<(u64, u64)> = vec![(2, 4), (6, 1), (4, 1), (7, 7), (3, 7)];
    let left = hash_of(&a);
    let right = hash_of(&b);

    let u = left.multiset_union(&right);
    let mut check = MultisetHash::new();
    for &(elem, count) in a.iter() {
        check = check.add(fe(elem), count);
    }
    for &(elem, count) in b.iter() {
        check = check.add(fe(elem), count);
    }
    assert_eq!(u.element(), check.element());
}

#[test]
fn test_difference() {
    let a: Vec<(u64, u64)> = vec![(50, 1), (10, 4), (4, 1), (7, 3), (3, 7)];
    let b: Vec<(u64, u64)> = vec![(2, 4), (6, 1), (4, 1), (7, 7), (3, 7)];
    let left = hash_of(&a);
    let right = hash_of(&b);

    let intersection = left.multiset_difference(&right).unwrap();
    let mut check = MultisetHash::new();
    check = check.add(fe(50), 1);
    check = check.add(fe(10), 4);
    check = check.remove(fe(7), 4).unwrap();
    check = check.remove(fe(2), 4).unwrap();
    check = check.remove(fe(6), 1).unwrap();
    assert_eq!(intersection.element(), check.element());
}

#[test]
fn new_is_one() {
    assert_eq!(MultisetHash::new().element(), fe(1));
    assert_ne!(MultisetHash::new().element(), fe(0));
}

#[test]
fn add_computes_power_product() {
    // 1 * 3^4 = 81, then 81 * 2^3 = 648
    let h = MultisetHash::new().add(fe(3), 4).add(fe(2), 3);
    assert_eq!(h.element(), fe(648));
}

#[test]
fn add_zero_count_keeps_hash() {
    let h = MultisetHash::new().add(fe(9), 2);
    assert_eq!(h.add(fe(5), 0), h);
    assert_eq!(h.add(fe(0), 0), h);
}

#[test]
fn add_then_remove_restores_hash() {
    let h = hash_of(&[(11, 2), (13, 5)]);
    for &(e, k) in [(2u64, 1u64), (17, 9), (u64::MAX, 3), (5, 0)].iter() {
        assert_eq!(h.add(fe(e), k).remove(fe(e), k), Ok(h));
    }
    let empty = MultisetHash::new();
    assert_eq!(empty.add(fe(8), 6).remove(fe(8), 6), Ok(empty));
}

#[test]
fn add_order_does_not_matter() {
    let forward = hash_of(&[(2, 1), (10, 4), (4, 1), (7, 3)]);
    let backward = hash_of(&[(7, 3), (4, 1), (10, 4), (2, 1)]);
    let shuffled = hash_of(&[(4, 1), (2, 1), (7, 3), (10, 4)]);
    assert_eq!(forward, backward);
    assert_eq!(forward, shuffled);
}

#[test]
fn counts_add_up() {
    let h = hash_of(&[(19, 2)]);
    assert_eq!(h.add(fe(6), 3).add(fe(6), 5), h.add(fe(6), 8));
    assert_eq!(h.add(fe(6), u64::MAX - 1).add(fe(6), 1), h.add(fe(6), u64::MAX));
}

#[test]
fn remove_computes_inverse_power() {
    // 648 / 2^3 = 81
    let h = MultisetHash::new().add(fe(3), 4).add(fe(2), 3);
    assert_eq!(h.remove(fe(2), 3).unwrap().element(), fe(81));
    // 81 / 3^4 = 1
    assert_eq!(h.remove(fe(2), 3).unwrap().remove(fe(3), 4).unwrap().element(), fe(1));
}

#[test]
fn remove_allows_negative_multiplicity() {
    let h = MultisetHash::new().remove(fe(5), 2).unwrap();
    assert_ne!(h, MultisetHash::new());
    assert_eq!(h.add(fe(5), 2), MultisetHash::new());
    assert_eq!(h.add(fe(25), 1), MultisetHash::new());
}

#[test]
fn remove_zero_is_invalid() {
    let h = hash_of(&[(3, 2)]);
    assert_eq!(h.remove(fe(0), 1), Err(HashError::InvalidElement));
    assert_eq!(h.remove(fe(0), 0), Err(HashError::InvalidElement));
}

#[test]
fn difference_with_zero_hash_is_invalid() {
    let zero = MultisetHash::new().add(fe(0), 1);
    assert_eq!(zero.element(), fe(0));
    let h = hash_of(&[(3, 2)]);
    assert_eq!(h.multiset_difference(&zero), Err(HashError::InvalidElement));
}

#[test]
fn union_multiplies_hashes() {
    let a = hash_of(&[(3, 2)]);
    let b = hash_of(&[(5, 1)]);
    assert_eq!(a.multiset_union(&b).element(), fe(45));
    assert_eq!(a.multiset_union(&MultisetHash::new()), a);
}

#[test]
fn difference_divides_hashes() {
    let a = hash_of(&[(3, 2), (5, 1)]);
    let b = hash_of(&[(5, 1)]);
    assert_eq!(a.multiset_difference(&b).unwrap().element(), fe(9));
    assert_eq!(a.multiset_difference(&a).unwrap(), MultisetHash::new());
    let neg = b.multiset_difference(&a).unwrap();
    assert_eq!(neg, MultisetHash::new().remove(fe(3), 2).unwrap());
}

#[test]
fn difference_matches_add_then_remove() {
    let a: [(u64, u64); 3] = [(8, 2), (9, 1), (12, 5)];
    let b: [(u64, u64); 2] = [(9, 1), (14, 3)];
    let mut check = hash_of(&a);
    for &(e, k) in b.iter() {
        check = check.remove(fe(e), k).unwrap();
    }
    assert_eq!(hash_of(&a).multiset_difference(&hash_of(&b)), Ok(check));
}

#[test]
fn elem_forms_match_field_forms() {
    let h = hash_of(&[(3, 2)]);
    let w = Word(4);
    let e = w.hash_to_field();
    assert_eq!(h.add_elem(Word(4), 3), h.add(e, 3));
    assert_eq!(h.remove_elem(Word(4), 3), h.remove(e, 3));
    assert_eq!(h.add_elem(Word(4), 3).remove_elem(Word(4), 3), Ok(h));
}

#[test]
fn remove_elem_mapping_to_zero_is_invalid() {
    let h = hash_of(&[(3, 2)]);
    assert_eq!(h.remove_elem(Zero, 1), Err(HashError::InvalidElement));
}

#[test]
fn field_operations() {
    assert_eq!(fe(6).mul(&fe(7)), fe(42));
    assert_eq!(fe(2).pow(10), fe(1024));
    assert_eq!(fe(2).pow(0), fe(1));
    assert_eq!(fe(0).pow(3), fe(0));
    let half = fe(2).invert().unwrap();
    assert_ne!(half, fe(2));
    assert_eq!(half.mul(&fe(2)), fe(1));
    assert_eq!(fe(1).invert(), Some(fe(1)));
    assert_eq!(fe(0).invert(), None);
    assert_ne!(fe(3), fe(4));
}

#[test]
fn field_wraps_at_modulus() {
    // 2^255 exceeds the modulus, so the product is reduced; dividing by two
    // still gives back 2^254.
    let big = fe(2).pow(254);
    let wrapped = big.mul(&fe(2));
    assert_eq!(wrapped, fe(2).pow(255));
    assert_ne!(wrapped, fe(0));
    assert_eq!(wrapped.mul(&fe(2).invert().unwrap()), big);
}
