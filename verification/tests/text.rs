use agri_assist::text::{
    decimal_len, decimal_string, incident_id_string, push_decimal, push_zero_padded, str_eq,
    ID_DIGITS,
};

#[test]
fn decimal_string_renders_single_digits() {
    assert_eq!(decimal_string(0), "0");
    assert_eq!(decimal_string(7), "7");
    assert_eq!(decimal_string(9), "9");
}

#[test]
fn decimal_string_renders_every_digit() {
    assert_eq!(decimal_string(1234567890), "1234567890");
    assert_eq!(decimal_string(9876543210), "9876543210");
}

#[test]
fn decimal_string_renders_round_numbers() {
    assert_eq!(decimal_string(10), "10");
    assert_eq!(decimal_string(100), "100");
    assert_eq!(decimal_string(1_000_000), "1000000");
}

#[test]
fn decimal_string_renders_the_largest_number() {
    assert_eq!(decimal_string(u64::MAX), "18446744073709551615");
}

#[test]
fn decimal_string_agrees_with_std_formatting() {
    for n in [0u64, 1, 9, 10, 11, 99, 100, 101, 65535, 999_999, 1_000_000, 1 << 40, u64::MAX - 1] {
        assert_eq!(decimal_string(n), format!("{}", n));
    }
}

#[test]
fn decimal_len_counts_digits() {
    assert_eq!(decimal_len(0), 1);
    assert_eq!(decimal_len(9), 1);
    assert_eq!(decimal_len(10), 2);
    assert_eq!(decimal_len(999_999), 6);
    assert_eq!(decimal_len(1_000_000), 7);
    assert_eq!(decimal_len(u64::MAX), 20);
}

#[test]
fn push_decimal_appends_to_what_is_there() {
    let mut out = String::from("n=");
    push_decimal(&mut out, 405);
    assert_eq!(out, "n=405");
    push_decimal(&mut out, 0);
    assert_eq!(out, "n=4050");
}

#[test]
fn push_zero_padded_fills_up_to_the_width() {
    let mut out = String::new();
    push_zero_padded(&mut out, 42, 6);
    assert_eq!(out, "000042");
}

#[test]
fn push_zero_padded_keeps_a_numeral_of_exactly_the_width() {
    let mut out = String::new();
    push_zero_padded(&mut out, 123456, 6);
    assert_eq!(out, "123456");
}

#[test]
fn push_zero_padded_leaves_a_longer_numeral_whole() {
    let mut out = String::new();
    push_zero_padded(&mut out, 1234567, 6);
    assert_eq!(out, "1234567");
}

#[test]
fn push_zero_padded_with_width_zero_writes_the_numeral() {
    let mut out = String::from("x");
    push_zero_padded(&mut out, 0, 0);
    assert_eq!(out, "x0");
}

#[test]
fn push_zero_padded_agrees_with_std_formatting() {
    for n in [0u64, 5, 10, 99_999, 100_000, 999_999, 1_000_000, u64::MAX] {
        let mut out = String::new();
        push_zero_padded(&mut out, n, 6);
        assert_eq!(out, format!("{:06}", n));
        let mut wide = String::new();
        push_zero_padded(&mut wide, n, 25);
        assert_eq!(wide, format!("{:025}", n));
    }
}

#[test]
fn incident_id_string_of_the_first_counters() {
    assert_eq!(incident_id_string(1), "inc-000001");
    assert_eq!(incident_id_string(2), "inc-000002");
    assert_eq!(incident_id_string(42), "inc-000042");
}

#[test]
fn incident_id_string_of_counter_zero() {
    assert_eq!(incident_id_string(0), "inc-000000");
}

#[test]
fn incident_id_string_at_the_six_digit_boundary() {
    assert_eq!(incident_id_string(999_999), "inc-999999");
    assert_eq!(incident_id_string(1_000_000), "inc-1000000");
}

#[test]
fn incident_id_string_of_the_largest_counter() {
    assert_eq!(incident_id_string(u64::MAX), "inc-18446744073709551615");
}

#[test]
fn incident_id_string_differs_for_different_counters() {
    let mut seen: Vec<String> = Vec::new();
    for n in 0u64..300 {
        let id = incident_id_string(n);
        assert_eq!(id.len(), 4 + ID_DIGITS);
        assert!(!seen.contains(&id));
        assert_eq!(id[4..].parse::<u64>().unwrap(), n);
        seen.push(id);
    }
}

#[test]
fn str_eq_accepts_equal_strings() {
    assert!(str_eq("", ""));
    assert!(str_eq("Kano", "Kano"));
    assert!(str_eq("inc-000001", &String::from("inc-000001")));
}

#[test]
fn str_eq_refuses_different_strings() {
    assert!(!str_eq("Kano", "Kanu"));
    assert!(!str_eq("Kano", "kano"));
    assert!(!str_eq("Kano", "Kan"));
    assert!(!str_eq("Kan", "Kano"));
    assert!(!str_eq("", "x"));
    assert!(!str_eq("x", ""));
}

#[test]
fn str_eq_compares_beyond_ascii() {
    assert!(str_eq("Ìbàdàn", "Ìbàdàn"));
    assert!(!str_eq("Ìbàdàn", "Ibadan"));
    assert!(!str_eq("é", "e"));
    assert!(!str_eq("é", "è"));
}

#[test]
fn incident_ids_sort_by_counter_below_one_million() {
    let counters = [0u64, 1, 2, 9, 10, 11, 99, 100, 4_999, 5_000, 99_999, 100_000, 999_998, 999_999];
    for pair in counters.windows(2) {
        assert!(incident_id_string(pair[0]) < incident_id_string(pair[1]));
    }
}

#[test]
fn incident_ids_stop_sorting_by_counter_at_one_million() {
    assert!(incident_id_string(1_000_000) < incident_id_string(999_999));
    assert_eq!(incident_id_string(1_000_000)[4..].parse::<u64>().unwrap(), 1_000_000);
}
