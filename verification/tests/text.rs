use feishu_bot::text::{bool_text, i32_to_decimal, id_text, meaningful, parse_i32, parse_usize, u64_to_decimal};

#[test]
fn numbers_are_written_in_decimal() {
    assert_eq!(u64_to_decimal(0), "0");
    assert_eq!(u64_to_decimal(u64::MAX), u64::MAX.to_string());
    assert_eq!(i32_to_decimal(i32::MIN), i32::MIN.to_string());
    assert_eq!(i32_to_decimal(-7), "-7");
    assert_eq!(bool_text(true), "true");
}

#[test]
fn ids_are_written_as_hyphenated_uuids() {
    let id = 0x67e55044_10b1_426f_9247_bb680e5fe0c8u128;
    assert_eq!(id_text(id), uuid::Uuid::from_u128(id).to_string());
    assert_eq!(id_text(0), "00000000-0000-0000-0000-000000000000");
}

#[test]
fn parsing_follows_the_standard_library() {
    for s in ["0", "+12", "007", "18446744073709551615", "18446744073709551616", "-1", "", "+", "1a", " 1"] {
        assert_eq!(parse_usize(s), s.parse::<usize>().ok(), "usize {s:?}");
    }
    for s in ["0", "-0", "+5", "-2147483648", "2147483647", "2147483648", "-2147483649", "-", "--1", "x"] {
        assert_eq!(parse_i32(s), s.parse::<i32>().ok(), "i32 {s:?}");
    }
}

#[test]
fn meaningful_texts_are_trimmed_and_not_blank() {
    assert_eq!(meaningful(Some("  a b ")), Some("a b"));
    assert_eq!(meaningful(Some(" \n\t")), None);
    assert_eq!(meaningful(None), None);
}
