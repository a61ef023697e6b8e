use rust_unity_bridge::{hash, Int3, X_PRIME, Y_PRIME, Z_PRIME};

#[test]
fn hash_of_origin_is_zero() {
    assert_eq!(hash(&Int3 { x: 0, y: 0, z: 0 }), 0);
}

#[test]
fn hash_exact_values() {
    assert_eq!(hash(&Int3 { x: 1, y: 2, z: 3 }), 147163718);
    assert_eq!(hash(&Int3 { x: 1, y: 1, z: 1 }), 28855157);
    assert_eq!(hash(&Int3 { x: -1, y: 0, z: 0 }), -73856093);
}

#[test]
fn hash_single_axis_is_its_prime() {
    assert_eq!(hash(&Int3 { x: 1, y: 0, z: 0 }), X_PRIME);
    assert_eq!(hash(&Int3 { x: 0, y: 1, z: 0 }), Y_PRIME);
    assert_eq!(hash(&Int3 { x: 0, y: 0, z: 1 }), Z_PRIME);
}

#[test]
fn hash_wraps_on_overflow() {
    // 30 * 73856093 = 2215682790, which exceeds i32::MAX and wraps.
    assert_eq!(hash(&Int3 { x: 30, y: 0, z: 0 }), -2079284506);
    assert_eq!(
        hash(&Int3 { x: i32::MAX, y: i32::MIN, z: 5 }),
        -478612176
    );
}

#[test]
fn hash_is_deterministic() {
    let c = Int3 { x: 123456, y: -98765, z: 4242 };
    let d = Int3 { x: 123456, y: -98765, z: 4242 };
    assert_eq!(hash(&c), hash(&c));
    assert_eq!(hash(&c), hash(&d));
}
