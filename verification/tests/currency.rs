use dnd_simp::gold::{AsGoldCurrency, GoldAmount};

fn recombine(t: (i64, i64, i64)) -> i64 {
    t.0 * 100 + t.1 * 10 + t.2
}

fn total_copper(a: GoldAmount) -> i64 {
    recombine(a.as_tuple())
}

#[test]
fn gold_and_silver_decompose_and_format() {
    let amount = GoldAmount::from_gold(5).add(GoldAmount::from_silver(3));
    assert_eq!(amount.as_tuple(), (5, 3, 0));
    assert_eq!(amount.display_string(), "5 gp 3 sp");
}

#[test]
fn decompose_recombine_round_trip() {
    let cases: Vec<(i64, i64, i64)> = vec![
        (0, 0, 0),
        (5, 3, 0),
        (1, 2, 3),
        (-4, 0, 7),
        (-4, -2, -9),
        (123456, 9, 9),
        (0, 0, -1),
    ];
    for (g, s, c) in cases {
        let amount = GoldAmount::from_gold(g)
            .add(GoldAmount::from_silver(s))
            .add(GoldAmount::from_copper(c));
        let expected = g * 100 + s * 10 + c;
        assert_eq!(total_copper(amount), expected);
    }
}

#[test]
fn adding_the_negation_yields_zero() {
    let values: Vec<i64> = vec![0, 1, -1, 250, -99999, 123456789];
    for v in values {
        let x = GoldAmount::from_copper(v);
        let sum = x.add(x.neg());
        assert_eq!(total_copper(sum), 0);
        assert_eq!(sum.display_string(), "0 gp");
    }
}

#[test]
fn subtraction_is_addition_of_negation() {
    let pairs: Vec<(i64, i64)> = vec![(0, 0), (100, 37), (-55, 1000), (42, -42)];
    for (a, b) in pairs {
        let x = GoldAmount::from_copper(a);
        let y = GoldAmount::from_copper(b);
        assert_eq!(x.sub(y).as_tuple(), x.add(y.neg()).as_tuple());
        assert_eq!(total_copper(x.sub(y)), a - b);
    }
}

#[test]
fn denomination_conversions() {
    assert_eq!(total_copper(GoldAmount::from_gold(2)), 200);
    assert_eq!(total_copper(GoldAmount::from_electrum(2)), 100);
    assert_eq!(total_copper(GoldAmount::from_silver(2)), 20);
    assert_eq!(total_copper(GoldAmount::from_copper(2)), 2);
    assert_eq!(total_copper(3i64.gold()), 300);
    assert_eq!(total_copper(3i64.silver()), 30);
    assert_eq!(total_copper(3i64.copper()), 3);
}

#[test]
fn scalar_multiplication_scales_the_copper_count() {
    let x = GoldAmount::from_silver(3);
    assert_eq!(total_copper(x.mul(4)), 120);
    assert_eq!(total_copper(x.mul(-1)), -30);
}

#[test]
fn saturating_arithmetic_never_wraps() {
    let max = GoldAmount::from_copper(i64::MAX);
    let more = max.add(GoldAmount::from_copper(1));
    assert_eq!(total_copper(more), total_copper(max));
    let huge = GoldAmount::from_gold(i64::MAX);
    assert_eq!(total_copper(huge), i64::MAX);
}

#[test]
fn negative_amounts_format_sign_preserving() {
    let debt = GoldAmount::from_copper(-123);
    assert_eq!(debt.as_tuple(), (-1, -2, -3));
    assert_eq!(debt.display_string(), "-1 gp, -2 sp -3 cp");
    assert_eq!(GoldAmount::from_copper(-7).display_string(), "-7 cp");
    assert_eq!(GoldAmount::from_silver(-4).display_string(), "-4 sp");
}

#[test]
fn zero_denominations_are_suppressed() {
    assert_eq!(GoldAmount::from_copper(205).display_string(), "2 gp 5 cp");
    assert_eq!(GoldAmount::from_copper(250).display_string(), "2 gp 5 sp");
    assert_eq!(GoldAmount::from_copper(55).display_string(), "5 sp 5 cp");
    assert_eq!(GoldAmount::from_copper(255).display_string(), "2 gp, 5 sp 5 cp");
}

#[test]
fn zero_formats_as_zero_gold() {
    assert_eq!(GoldAmount::from_copper(0).display_string(), "0 gp");
    assert_eq!(GoldAmount::from_copper(0).gold_str(), "0 gp");
}

#[test]
fn denomination_strings() {
    let a = GoldAmount::from_copper(271);
    assert_eq!(a.gold_str(), "2 gp");
    assert_eq!(a.silver_str(), "7 sp");
    assert_eq!(a.copper_str(), "1 cp");
}
