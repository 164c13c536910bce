use tunesmith::utils::{clamp, create_rng};

#[test]
fn test_clamp() {
    assert_eq!(clamp(5, 0, 10), 5);
    assert_eq!(clamp(-1, 0, 10), 0);
    assert_eq!(clamp(15, 0, 10), 10);
}

#[test]
fn test_create_rng() {
    let rng1 = create_rng(Some(42));
    let rng2 = create_rng(Some(42));
    assert_eq!(format!("{:?}", rng1), format!("{:?}", rng2));
}
