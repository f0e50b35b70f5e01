use atoi_unsigned::{crust_clzl, leading_zeros};

#[test]
fn test_crust_clzl() {
    assert_eq!(crust_clzl(1), 63);
    assert_eq!(crust_clzl(2), 62);
    assert_eq!(crust_clzl(8), 60);
    assert_eq!(crust_clzl(u64::MAX), 0);
    assert_eq!(crust_clzl(0), 64);
}

#[test]
fn test_leading_zeros_matches_bit_length() {
    assert_eq!(leading_zeros(1), 63);
    assert_eq!(leading_zeros(2), 62);
    assert_eq!(leading_zeros(3), 62);
    assert_eq!(leading_zeros(8), 60);
    assert_eq!(leading_zeros(255), 56);
    assert_eq!(leading_zeros(256), 55);
    assert_eq!(leading_zeros(u64::MAX), 0);
    assert_eq!(leading_zeros(1u64 << 63), 0);
    assert_eq!(leading_zeros((1u64 << 63) - 1), 1);
}

#[test]
fn test_leading_zeros_of_zero_is_sixty_four() {
    assert_eq!(leading_zeros(0), 64);
    assert_eq!(crust_clzl(0), 64);
}
