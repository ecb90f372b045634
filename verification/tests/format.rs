use ticket_layout::format::{
    decimal_chars, decimal_string, format_clp, format_datetime, spanish_date, translate_month,
    try_format_datetime,
};

#[test]
fn decimal_writes_a_number_as_its_digits() {
    assert_eq!(decimal_string(0), "0");
    assert_eq!(decimal_string(9), "9");
    assert_eq!(decimal_string(10), "10");
    assert_eq!(decimal_string(1234567890), "1234567890");
    assert_eq!(decimal_string(-1), "-1");
    assert_eq!(decimal_string(-907), "-907");
    assert_eq!(decimal_string(i64::MAX), "9223372036854775807");
    assert_eq!(decimal_string(i64::MIN), "-9223372036854775808");
    assert_eq!(decimal_chars(-45), vec!['-', '4', '5']);
    assert_eq!(decimal_chars(100), vec!['1', '0', '0']);
    for n in [-1000i64, -999, -11, -10, -9, 0, 1, 99, 100, 101, 65535, 4294967296] {
        assert_eq!(decimal_string(n), n.to_string());
    }
}

#[test]
fn clp_agrees_with_grouping_the_decimal_string_from_the_right() {
    for amount in [0, 5, 42, 100, 999, 1000, 99999, 100000, 7654321, -7, -70, -700, -7000, -70000] {
        let digits: Vec<char> = amount.to_string().chars().rev().collect();
        let mut grouped = String::new();
        for (count, ch) in digits.iter().enumerate() {
            if count > 0 && count % 3 == 0 {
                grouped.push('.');
            }
            grouped.push(*ch);
        }
        let expected: String = "$".to_string() + &grouped.chars().rev().collect::<String>();
        assert_eq!(format_clp(amount), expected);
    }
}

#[test]
fn clp_groups_the_digits_in_threes() {
    assert_eq!(format_clp(0), "$0");
    assert_eq!(format_clp(7), "$7");
    assert_eq!(format_clp(999), "$999");
    assert_eq!(format_clp(1000), "$1.000");
    assert_eq!(format_clp(5000), "$5.000");
    assert_eq!(format_clp(12345), "$12.345");
    assert_eq!(format_clp(123456), "$123.456");
    assert_eq!(format_clp(1234567), "$1.234.567");
    assert_eq!(format_clp(i32::MAX), "$2.147.483.647");
}

#[test]
fn clp_counts_the_sign_as_a_character() {
    assert_eq!(format_clp(-1), "$-1");
    assert_eq!(format_clp(-12), "$-12");
    assert_eq!(format_clp(-123), "$-.123");
    assert_eq!(format_clp(-1234), "$-1.234");
    assert_eq!(format_clp(-123456), "$-.123.456");
    assert_eq!(format_clp(i32::MIN), "$-2.147.483.648");
}

#[test]
fn month_names_are_put_into_spanish() {
    let pairs = [
        ("Jan", "Ene"),
        ("Feb", "Feb"),
        ("Mar", "Mar"),
        ("Apr", "Abr"),
        ("May", "May"),
        ("Jun", "Jun"),
        ("Jul", "Jul"),
        ("Aug", "Ago"),
        ("Sep", "Sep"),
        ("Oct", "Oct"),
        ("Nov", "Nov"),
        ("Dec", "Dic"),
        ("05", "05"),
        ("Janu", "Janu"),
        ("jan", "jan"),
        ("", ""),
    ];
    for (english, spanish) in pairs {
        let got: String = translate_month(english.chars().collect()).into_iter().collect();
        assert_eq!(got, spanish);
    }
}

#[test]
fn spanish_date_translates_word_by_word() {
    assert_eq!(spanish_date("05 Jan"), "05 Ene");
    assert_eq!(spanish_date("31 Dec"), "31 Dic");
    assert_eq!(spanish_date("  14   Aug "), "14 Ago");
    assert_eq!(spanish_date("01 Mar"), "01 Mar");
    assert_eq!(spanish_date(""), "");
    assert_eq!(spanish_date("Apr Apr x"), "Abr Abr x");
}

#[test]
fn datetime_gives_day_month_and_time_of_day() {
    assert_eq!(
        format_datetime("2024-01-05T14:07:09-03:00"),
        ("05 Ene".to_string(), "14:07".to_string())
    );
    assert_eq!(
        format_datetime("2023-12-31T23:59:59Z"),
        ("31 Dic".to_string(), "23:59".to_string())
    );
    assert_eq!(
        format_datetime("2025-08-09T00:00:00+05:30"),
        ("09 Ago".to_string(), "00:00".to_string())
    );
    assert_eq!(
        format_datetime("2025-04-30T08:05:00.123456-04:00"),
        ("30 Abr".to_string(), "08:05".to_string())
    );
    assert_eq!(
        format_datetime("2025-06-15T12:30:00-04:00"),
        ("15 Jun".to_string(), "12:30".to_string())
    );
}

#[test]
fn datetime_is_shown_in_the_offset_of_the_timestamp() {
    assert_eq!(
        format_datetime("2024-03-01T01:30:00+02:00"),
        ("01 Mar".to_string(), "01:30".to_string())
    );
    assert_eq!(
        format_datetime("2024-02-29T23:30:00Z"),
        ("29 Feb".to_string(), "23:30".to_string())
    );
}

#[test]
fn try_format_datetime_turns_down_what_is_no_timestamp() {
    assert_eq!(try_format_datetime(""), None);
    assert_eq!(try_format_datetime("ayer"), None);
    assert_eq!(try_format_datetime("2024-01-05"), None);
    assert_eq!(try_format_datetime("2024-13-05T14:07:09-03:00"), None);
    assert_eq!(try_format_datetime("2024-01-05T14:07:09"), None);
    assert_eq!(
        try_format_datetime("2024-01-05T14:07:09-03:00"),
        Some(("05 Ene".to_string(), "14:07".to_string()))
    );
}
