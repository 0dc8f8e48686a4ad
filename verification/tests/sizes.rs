use fft_convolution::padding::{checked_next_power_of_two, next_power_of_two};

#[test]
fn next_power_of_two_of_small_numbers() {
    let expected = [1usize, 1, 2, 4, 4, 8, 8, 8, 8, 16];
    for (n, p) in expected.iter().enumerate() {
        assert_eq!(next_power_of_two(n), *p);
        assert_eq!(next_power_of_two(n), n.next_power_of_two());
    }
}

#[test]
fn next_power_of_two_at_the_powers() {
    for e in 0..(usize::BITS - 1) {
        let p = 1usize << e;
        assert_eq!(next_power_of_two(p), p);
        assert_eq!(next_power_of_two(p + 1), if e == 0 { 2 } else { 2 * p });
    }
    let top = 1usize << (usize::BITS - 1);
    assert_eq!(next_power_of_two(top), top);
    assert_eq!(next_power_of_two(top - 1), top);
}

#[test]
fn checked_next_power_of_two_stops_at_the_top() {
    let top = 1usize << (usize::BITS - 1);
    assert_eq!(checked_next_power_of_two(0), Some(1));
    assert_eq!(checked_next_power_of_two(5), Some(8));
    assert_eq!(checked_next_power_of_two(top), Some(top));
    assert_eq!(checked_next_power_of_two(top + 1), None);
    assert_eq!(checked_next_power_of_two(usize::MAX), None);
}
