use asset_balance::correlate::read_timestamp;
use asset_balance::errors::ZkErrorCode;
use asset_balance::order::{chars_le, join_texts, sort_texts};
use asset_balance::text::{
    chars_of, find_chars, parse_u128, same_text, starts_with, to_upper, trim_char, unquote,
};

fn strings(items: &[&str]) -> Vec<String> {
    items.iter().map(|s| s.to_string()).collect()
}

#[test]
fn unquote_strips_quotes_at_both_ends() {
    assert_eq!(unquote("\"BTC\""), "BTC");
    assert_eq!(unquote("BTC"), "BTC");
    assert_eq!(unquote("\"\"\"a\"b\"\""), "a\"b");
    assert_eq!(unquote("\"half"), "half");
    assert_eq!(unquote("half\""), "half");
}

#[test]
fn unquote_of_quotes_alone_is_empty() {
    assert_eq!(unquote(""), "");
    assert_eq!(unquote("\""), "");
    assert_eq!(unquote("\"\"\"\""), "");
}

#[test]
fn trim_char_matches_std() {
    for s in ["", "x", "xx", "xax", "axa", "xxabxxcdxx", "ab", "é x", "xéx"] {
        assert_eq!(trim_char(s, 'x'), s.trim_matches('x'));
    }
}

#[test]
fn to_upper_touches_ascii_letters_only() {
    assert_eq!(to_upper("btc"), "BTC");
    assert_eq!(to_upper("Usd1"), "USD1");
    assert_eq!(to_upper("a-z_{`é"), "A-Z_{`é");
    for s in ["", "abcxyz", "AZ az", "straße", "1e-5"] {
        assert_eq!(to_upper(s), s.to_ascii_uppercase());
    }
}

#[test]
fn starts_with_is_a_prefix_test() {
    assert!(starts_with("https://a/b?x=1", "https://a/b"));
    assert!(starts_with("abc", ""));
    assert!(starts_with("abc", "abc"));
    assert!(!starts_with("ab", "abc"));
    assert!(!starts_with("xabc", "abc"));
}

#[test]
fn same_text_compares_characters() {
    assert!(same_text("", ""));
    assert!(same_text("USDT", "USDT"));
    assert!(!same_text("USDT", "USDC"));
    assert!(!same_text("USD", "USDT"));
}

#[test]
fn find_chars_gives_the_first_occurrence() {
    let hay = chars_of("a&b&c");
    assert_eq!(find_chars(&hay, &chars_of("&")), Some(1));
    assert_eq!(find_chars(&hay, &chars_of("&c")), Some(3));
    assert_eq!(find_chars(&hay, &chars_of("a&b&c")), Some(0));
    assert_eq!(find_chars(&hay, &chars_of("a&b&cd")), None);
    assert_eq!(find_chars(&hay, &chars_of("x")), None);
    assert_eq!(find_chars(&hay, &chars_of("")), Some(0));
    assert_eq!(find_chars(&chars_of(""), &chars_of("")), Some(0));
}

#[test]
fn parse_u128_reads_decimal_numbers() {
    assert_eq!(parse_u128(&chars_of("0")), Some(0));
    assert_eq!(parse_u128(&chars_of("007")), Some(7));
    assert_eq!(parse_u128(&chars_of("+15")), Some(15));
    assert_eq!(parse_u128(&chars_of("1700000000000")), Some(1_700_000_000_000));
    assert_eq!(
        parse_u128(&chars_of("340282366920938463463374607431768211455")),
        Some(u128::MAX)
    );
}

#[test]
fn parse_u128_refuses_what_is_no_number() {
    for s in [
        "",
        "+",
        "-1",
        "++1",
        "1+",
        " 1",
        "1 ",
        "12a",
        "1.5",
        "1e3",
        "٣",
        "340282366920938463463374607431768211456",
        "3402823669209384634633746074317682114550",
    ] {
        assert_eq!(parse_u128(&chars_of(s)), None, "{:?}", s);
    }
}

#[test]
fn parse_u128_agrees_with_std() {
    for s in [
        "0", "1", "+1", "42", "0000", "99999999999999999999999999999999999999",
        "340282366920938463463374607431768211455", "340282366920938463463374607431768211456",
        "", "+", "-", "-0", "+-1", "1_000", "12x", "x12",
    ] {
        assert_eq!(parse_u128(&chars_of(s)), s.parse::<u128>().ok(), "{:?}", s);
    }
}

#[test]
fn timestamp_is_read_up_to_the_next_ampersand() {
    assert_eq!(read_timestamp("https://h/p?timestamp=1000&x=1").ok(), Some(1000));
    assert_eq!(read_timestamp("https://h/p?a=b&timestamp=500").ok(), Some(500));
    assert_eq!(read_timestamp("timestamp=7").ok(), Some(7));
    assert_eq!(read_timestamp("https://h/p?timestamp=12&timestamp=99").ok(), Some(12));
}

#[test]
fn url_without_timestamp_fails_with_cannot_found_timestamp() {
    for url in ["https://h/p", "https://h/p?time=5", "", "https://h/p?timestamp=", "https://h/p?timestamp=&x=1"] {
        let e = read_timestamp(url).err().unwrap();
        assert_eq!(e.code(), ZkErrorCode::CannotFoundTimestamp, "{:?}", url);
        assert_eq!(e.icode(), 1007);
        assert_eq!(e.msg(), "ZkErrorCode::CannotFoundTimestamp");
    }
}

#[test]
fn non_numeric_timestamp_fails_with_parse_timestamp_failed() {
    for url in [
        "https://h/p?timestamp=abc",
        "https://h/p?timestamp=12x&y=1",
        "https://h/p?timestamp=-5",
        "https://h/p?timestamp=1.5",
        "https://h/p?timestamp=340282366920938463463374607431768211456",
    ] {
        let e = read_timestamp(url).err().unwrap();
        assert_eq!(e.code(), ZkErrorCode::ParseTimestampFailed, "{:?}", url);
        assert_eq!(e.icode(), 1008);
    }
}

#[test]
fn chars_le_orders_like_strings() {
    let samples = ["", "A", "AB", "B", "a", "BTC:1", "BTC:10", "BTC", "é", "z"];
    for a in samples {
        for b in samples {
            assert_eq!(chars_le(&chars_of(a), &chars_of(b)), a <= b, "{:?} {:?}", a, b);
        }
    }
}

#[test]
fn sort_texts_sorts_like_std() {
    let items = strings(&["ETH:2", "BTC:1", "", "btc", "BTC:1", "ADA:0.5", "BTC"]);
    let mut expected = items.clone();
    expected.sort();
    assert_eq!(sort_texts(&items), expected);
    assert_eq!(sort_texts(&Vec::new()), Vec::<String>::new());
}

#[test]
fn join_texts_puts_the_separator_between() {
    assert_eq!(join_texts(&strings(&[]), ','), "");
    assert_eq!(join_texts(&strings(&["a"]), ','), "a");
    assert_eq!(join_texts(&strings(&["a", "b", "c"]), ','), "a,b,c");
    assert_eq!(join_texts(&strings(&["", ""]), ','), ",");
}
