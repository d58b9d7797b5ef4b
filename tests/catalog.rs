use attractor_search::catalog::{coeff_hash, entry_file_name, CoeffBits, NCOEFFS};
use std::collections::hash_map::DefaultHasher;
use std::hash::{Hash, Hasher};

fn bits_of(c: &[f64; NCOEFFS]) -> CoeffBits {
    let mut b = [0u64; NCOEFFS];
    for i in 0..NCOEFFS {
        b[i] = c[i].to_bits();
    }
    b
}

#[test]
fn hash_is_idempotent() {
    let b = bits_of(&[0.5; NCOEFFS]);
    assert_eq!(coeff_hash(&b), coeff_hash(&b));
}

#[test]
fn hash_changes_with_any_coefficient() {
    let base = [0.5; NCOEFFS];
    let h = coeff_hash(&bits_of(&base));
    for i in 0..NCOEFFS {
        let mut c = base;
        c[i] = 0.25;
        assert_ne!(coeff_hash(&bits_of(&c)), h, "coefficient {i}");
    }
}

#[test]
fn hash_is_order_sensitive() {
    let mut a = [0.0; NCOEFFS];
    let mut b = [0.0; NCOEFFS];
    a[0] = 1.0;
    b[1] = 1.0;
    assert_ne!(coeff_hash(&bits_of(&a)), coeff_hash(&bits_of(&b)));
}

#[test]
fn hash_matches_hashing_each_bit_pattern() {
    let mut c = [0.0; NCOEFFS];
    for i in 0..NCOEFFS {
        c[i] = i as f64 * 0.125 - 1.5;
    }
    let mut h = DefaultHasher::new();
    for v in c.iter() {
        v.to_bits().hash(&mut h);
    }
    assert_eq!(coeff_hash(&bits_of(&c)), h.finish());
}

#[test]
fn file_name_is_padded_hex() {
    assert_eq!(entry_file_name(255), "00000000000000ff.json");
    assert_eq!(entry_file_name(0), "0000000000000000.json");
    assert_eq!(entry_file_name(u64::MAX), "ffffffffffffffff.json");
    assert_eq!(entry_file_name(0x0123456789abcdef), "0123456789abcdef.json");
}

#[test]
fn file_name_matches_hash_format() {
    let id = coeff_hash(&bits_of(&[0.5; NCOEFFS]));
    assert_eq!(entry_file_name(id), format!("{:016x}.json", id));
}
