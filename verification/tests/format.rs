use kyuri::text::bytes_to_human;
use kyuri::text::chars_of;
use kyuri::text::duration_to_human;
use kyuri::text::push_bytes;
use kyuri::text::push_decimal;

#[test]
fn chars_of_gives_the_characters_in_order() {
    assert_eq!(chars_of(""), Vec::<char>::new());
    assert_eq!(chars_of("abc"), vec!['a', 'b', 'c']);
    assert_eq!(chars_of("a\u{301}é✅"), vec!['a', '\u{301}', 'é', '✅']);
}

#[test]
fn decimal_notation_has_no_leading_zeros() {
    let mut out = String::from(">");
    push_decimal(&mut out, 0);
    assert_eq!(out, ">0");
    push_decimal(&mut out, 7);
    push_decimal(&mut out, 10);
    push_decimal(&mut out, 1_000_000);
    assert_eq!(out, ">07101000000");
    let mut out = String::new();
    push_decimal(&mut out, u64::MAX);
    assert_eq!(out, "18446744073709551615");
}

#[test]
fn push_bytes_appends() {
    let mut out = String::from("at ");
    push_bytes(&mut out, 2048);
    assert_eq!(out, "at 2.00 KiB");
}

#[test]
fn bytes_below_one_kibibyte_are_plain() {
    assert_eq!(bytes_to_human(0), "0 B");
    assert_eq!(bytes_to_human(10), "10 B");
    assert_eq!(bytes_to_human(1023), "1023 B");
}

#[test]
fn bytes_scale_by_powers_of_1024() {
    assert_eq!(bytes_to_human(1024), "1.00 KiB");
    assert_eq!(bytes_to_human(1536), "1.50 KiB");
    assert_eq!(bytes_to_human(1_048_576), "1.00 MiB");
    assert_eq!(bytes_to_human(1_073_741_824), "1.00 GiB");
    assert_eq!(bytes_to_human(1_099_511_627_776), "1.00 TiB");
    assert_eq!(bytes_to_human(u64::MAX), "16777216.00 TiB");
}

#[test]
fn bytes_round_to_the_nearest_hundredth() {
    // 1.0009765625 KiB
    assert_eq!(bytes_to_human(1025), "1.00 KiB");
    // 1.005859375 KiB
    assert_eq!(bytes_to_human(1030), "1.01 KiB");
    // 1023.9990234375 KiB
    assert_eq!(bytes_to_human(1_048_575), "1024.00 KiB");
}

#[test]
fn bytes_halfway_between_hundredths_go_to_the_even_one() {
    // 1.125 KiB
    assert_eq!(bytes_to_human(1152), "1.12 KiB");
    // 1.375 KiB
    assert_eq!(bytes_to_human(1408), "1.38 KiB");
}

#[test]
fn durations_are_hours_minutes_seconds() {
    assert_eq!(duration_to_human(0), "0:00:00");
    assert_eq!(duration_to_human(59), "0:00:59");
    assert_eq!(duration_to_human(60), "0:01:00");
    assert_eq!(duration_to_human(3599), "0:59:59");
    assert_eq!(duration_to_human(3600), "1:00:00");
    assert_eq!(duration_to_human(86_399), "23:59:59");
    assert_eq!(duration_to_human(360_000), "100:00:00");
    assert_eq!(duration_to_human(u64::MAX), "5124095576030431:00:15");
}
