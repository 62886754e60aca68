use rticx_riscv::decimal::push_decimal;

fn render(n: u32) -> String {
    let mut s = String::from("x");
    push_decimal(&mut s, n);
    s
}

#[test]
fn decimal_of_zero_is_a_single_digit() {
    assert_eq!(render(0), "x0");
}

#[test]
fn decimal_of_small_numbers() {
    assert_eq!(render(7), "x7");
    assert_eq!(render(10), "x10");
    assert_eq!(render(16), "x16");
    assert_eq!(render(255), "x255");
}

#[test]
fn decimal_of_largest_u32() {
    assert_eq!(render(u32::MAX), "x4294967295");
}

#[test]
fn decimal_round_trips_through_parse() {
    for n in [0u32, 1, 9, 10, 99, 100, 1234, 65535, 1_000_000, u32::MAX] {
        let s = render(n);
        assert_eq!(s[1..].parse::<u32>().unwrap(), n);
        assert!(s.len() == 2 || !s[1..].starts_with('0'));
    }
}
