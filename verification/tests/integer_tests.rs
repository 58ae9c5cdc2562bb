use num_bigint::BigInt;
use yarer::integer::Integer;
use yarer::integer::Order;

fn big(text: &str) -> Integer {
    Integer::parse(text).unwrap()
}

#[test]
fn parse_reads_decimal_literals() {
    assert_eq!(big("0"), Integer::zero());
    assert_eq!(big("42"), Integer::from_i64(42));
    assert_eq!(big("-42"), Integer::from_i64(-42));
    assert_eq!(big("+42"), Integer::from_i64(42));
    assert_eq!(big("-0"), Integer::zero());
    assert_eq!(big("007"), Integer::from_i64(7));
    assert_eq!(big("1_000_000"), Integer::from_i64(1_000_000));
    assert_eq!(big("5_"), Integer::from_i64(5));
    assert_eq!(
        big("9223372036854775808").to_text(),
        "9223372036854775808"
    );
}

#[test]
fn parse_rejects_what_is_no_literal() {
    for text in [
        "", "-", "+", "_5", "-_5", "+-5", "-+5", "++5", "--5", "5a", "a5", "0x10", "1.0", "1e3",
        " 1", "1 ", "\u{663}",
    ] {
        assert_eq!(Integer::parse(text), None, "{:?}", text);
    }
}

#[test]
fn to_text_is_the_decimal_form() {
    assert_eq!(Integer::zero().to_text(), "0");
    assert_eq!(Integer::from_i64(7).to_text(), "7");
    assert_eq!(Integer::from_i64(-7).to_text(), "-7");
    assert_eq!(Integer::from_i64(1200).to_text(), "1200");
    assert_eq!(
        Integer::from_i64(i64::MIN).to_text(),
        "-9223372036854775808"
    );
    assert_eq!(
        big("-123456789012345678901234567890").to_text(),
        "-123456789012345678901234567890"
    );
}

#[test]
fn from_i64_has_the_value() {
    assert_eq!(Integer::from_i64(0).to_i64(), Some(0));
    assert_eq!(Integer::from_i64(-1).to_i64(), Some(-1));
    assert_eq!(Integer::from_i64(i64::MAX).to_i64(), Some(i64::MAX));
    assert_eq!(Integer::from_i64(i64::MIN).to_i64(), Some(i64::MIN));
}

#[test]
fn bytes_are_little_endian_twos_complement() {
    assert_eq!(Integer::from_signed_bytes_le(vec![]), Integer::zero());
    assert_eq!(Integer::from_signed_bytes_le(vec![0]), Integer::zero());
    assert_eq!(
        Integer::from_signed_bytes_le(vec![0xff]),
        Integer::from_i64(-1)
    );
    assert_eq!(
        Integer::from_signed_bytes_le(vec![0x80]),
        Integer::from_i64(-128)
    );
    assert_eq!(
        Integer::from_signed_bytes_le(vec![0x7f]),
        Integer::from_i64(127)
    );
    assert_eq!(
        Integer::from_signed_bytes_le(vec![0x80, 0x00]),
        Integer::from_i64(128)
    );
    assert_eq!(
        Integer::from_signed_bytes_le(vec![0x00, 0x80]),
        Integer::from_i64(-32768)
    );
    assert_eq!(
        Integer::from_signed_bytes_le(vec![0x34, 0x12]),
        Integer::from_i64(0x1234)
    );
    // More bytes than the value needs stand for the same value.
    assert_eq!(
        Integer::from_signed_bytes_le(vec![0xff, 0xff, 0xff]),
        Integer::from_i64(-1)
    );
    assert_eq!(
        Integer::from_signed_bytes_le(vec![5, 0, 0]),
        Integer::from_i64(5)
    );
}

#[test]
fn bytes_go_to_and_from_the_outside_integer() {
    for v in [0i64, 1, -1, 127, 128, -128, -129, 255, 256, 65535, -65536, i64::MAX, i64::MIN] {
        let bytes = Integer::from_i64(v).to_signed_bytes_le();
        assert_eq!(BigInt::from_signed_bytes_le(&bytes), BigInt::from(v));
        let back = Integer::from_signed_bytes_le(BigInt::from(v).to_signed_bytes_le());
        assert_eq!(back, Integer::from_i64(v));
    }
    assert_eq!(
        BigInt::from_signed_bytes_le(&Integer::zero().to_signed_bytes_le()),
        BigInt::from(0)
    );
}

#[test]
fn plus_minus_times() {
    let a = big("99999999999999999999");
    let one = Integer::from_i64(1);
    assert_eq!(a.plus(&one), big("100000000000000000000"));
    assert_eq!(a.minus(&one), big("99999999999999999998"));
    assert_eq!(one.minus(&a), big("-99999999999999999998"));
    assert_eq!(a.times(&a), big("9999999999999999999800000000000000000001"));
    assert_eq!(a.times(&Integer::zero()), Integer::zero());
    assert_eq!(
        Integer::from_i64(-3).times(&Integer::from_i64(4)),
        Integer::from_i64(-12)
    );
    assert_eq!(
        Integer::from_i64(2).plus(&Integer::from_i64(3)),
        Integer::from_i64(5)
    );
    assert_eq!(
        Integer::from_i64(2).minus(&Integer::from_i64(3)),
        Integer::from_i64(-1)
    );
}

#[test]
fn checked_div_rounds_towards_zero() {
    let d = |a: i64, b: i64| Integer::from_i64(a).checked_div(&Integer::from_i64(b));
    assert_eq!(d(7, 2), Some(Integer::from_i64(3)));
    assert_eq!(d(-7, 2), Some(Integer::from_i64(-3)));
    assert_eq!(d(7, -2), Some(Integer::from_i64(-3)));
    assert_eq!(d(-7, -2), Some(Integer::from_i64(3)));
    assert_eq!(d(6, 3), Some(Integer::from_i64(2)));
    assert_eq!(d(0, 3), Some(Integer::zero()));
    assert_eq!(d(1, 3), Some(Integer::zero()));
    assert_eq!(d(-1, 3), Some(Integer::zero()));
    assert_eq!(d(7, 0), None);
    assert_eq!(d(0, 0), None);
    assert_eq!(
        big("100000000000000000000").checked_div(&big("10000000000")),
        Some(big("10000000000"))
    );
}

#[test]
fn checked_pow_wants_an_exponent_that_is_an_index() {
    let p = |a: i64, b: i64| Integer::from_i64(a).checked_pow(&Integer::from_i64(b));
    assert_eq!(p(2, 10), Some(Integer::from_i64(1024)));
    assert_eq!(p(-2, 3), Some(Integer::from_i64(-8)));
    assert_eq!(p(-2, 4), Some(Integer::from_i64(16)));
    assert_eq!(p(5, 0), Some(Integer::from_i64(1)));
    assert_eq!(p(0, 0), Some(Integer::from_i64(1)));
    assert_eq!(p(0, 5), Some(Integer::zero()));
    assert_eq!(p(5, 1), Some(Integer::from_i64(5)));
    assert_eq!(p(2, -1), None);
    assert_eq!(
        Integer::from_i64(1).checked_pow(&big("340282366920938463463374607431768211456")),
        None
    );
    assert_eq!(
        Integer::from_i64(10).checked_pow(&Integer::from_i64(30)),
        Some(big("1000000000000000000000000000000"))
    );
}

#[test]
fn compare_orders_by_value() {
    let c = |a: i64, b: i64| Integer::from_i64(a).compare(&Integer::from_i64(b));
    assert_eq!(c(1, 2), Order::Less);
    assert_eq!(c(2, 1), Order::Greater);
    assert_eq!(c(2, 2), Order::Equal);
    assert_eq!(c(-2, 1), Order::Less);
    assert_eq!(c(-2, -3), Order::Greater);
    assert_eq!(
        big("99999999999999999999").compare(&big("100000000000000000000")),
        Order::Less
    );
    assert_eq!(
        Integer::from_signed_bytes_le(vec![1, 0, 0]).compare(&Integer::from_i64(1)),
        Order::Equal
    );
}

#[test]
fn equality_is_by_value() {
    assert_eq!(Integer::from_signed_bytes_le(vec![1, 0]), Integer::from_i64(1));
    assert_ne!(Integer::from_i64(1), Integer::from_i64(-1));
    assert_eq!(Integer::from_i64(3).clone(), Integer::from_i64(3));
}

#[test]
fn narrowing_gives_the_value_if_it_fits() {
    assert_eq!(Integer::from_i64(5).to_i32(), Some(5));
    assert_eq!(Integer::from_i64(-5).to_i32(), Some(-5));
    assert_eq!(Integer::from_i64(i32::MAX as i64).to_i32(), Some(i32::MAX));
    assert_eq!(Integer::from_i64(i32::MIN as i64).to_i32(), Some(i32::MIN));
    assert_eq!(Integer::from_i64(i32::MAX as i64 + 1).to_i32(), None);
    assert_eq!(Integer::from_i64(i32::MIN as i64 - 1).to_i32(), None);
    assert_eq!(big("9223372036854775807").to_i64(), Some(i64::MAX));
    assert_eq!(big("-9223372036854775808").to_i64(), Some(i64::MIN));
    assert_eq!(big("9223372036854775808").to_i64(), None);
    assert_eq!(big("-9223372036854775809").to_i64(), None);
    assert_eq!(
        big("170141183460469231731687303715884105727").to_i128(),
        Some(i128::MAX)
    );
    assert_eq!(
        big("-170141183460469231731687303715884105728").to_i128(),
        Some(i128::MIN)
    );
    assert_eq!(big("170141183460469231731687303715884105728").to_i128(), None);
    assert_eq!(big("9223372036854775808").to_i128(), Some(1i128 << 63));
}
