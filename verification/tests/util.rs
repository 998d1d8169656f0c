use paddock::util::{as_double, is_above_half, nine_tenths, percent};

const SIZES: [u64; 14] = [
    1,
    2,
    3,
    7,
    115,
    200,
    6_144,
    10_240,
    1_000_003,
    (1 << 53) - 1,
    (1 << 53) + 1,
    17_179_869_184,
    9_007_199_254_740_993_123,
    u64::MAX,
];

#[test]
fn a_share_in_percent_is_what_doubles_print() {
    assert_eq!(percent(115, 200), "57", "the double falls just short of the half");
    assert_eq!(percent(1, 8), "12", "a half goes to the even number");
    assert_eq!(percent(3, 8), "38");
    assert_eq!(percent(0, 9), "0");
    assert_eq!(percent(9, 0), "0");
    assert_eq!(percent(u64::MAX, 1), format!("{:.0}", u64::MAX as f64 * 100.0));
    for part in SIZES {
        for whole in SIZES {
            let share = part as f64 / whole as f64;
            assert_eq!(percent(part, whole), format!("{:.0}", share * 100.0), "{part} of {whole}");
        }
    }
    for whole in 1..300u64 {
        for part in 0..=whole {
            let share = part as f64 / whole as f64;
            assert_eq!(percent(part, whole), format!("{:.0}", share * 100.0), "{part} of {whole}");
        }
    }
}

#[test]
fn above_half_is_what_doubles_say() {
    assert!(!is_above_half(1, 2));
    assert!(is_above_half(2, 3));
    assert!(!is_above_half(5, 0));
    // Above the half by less than a double can tell.
    let whole: u64 = 1 << 60;
    assert!(!is_above_half((1 << 59) + 1, whole));
    for part in SIZES {
        for whole in SIZES {
            let share = part as f64 / whole as f64;
            assert_eq!(is_above_half(part, whole), share > 0.5, "{part} of {whole}");
        }
    }
}

#[test]
fn whole_numbers_round_as_doubles_do() {
    for n in SIZES {
        assert_eq!(as_double(n as u128), n as f64 as u128);
        assert_eq!(nine_tenths(n), (n as f64 * 0.9) as u64);
    }
}
