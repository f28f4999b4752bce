use colledor::auth::{issue_claims, password_hash, verify_token, Claims, TOKEN_LIFETIME_SECS};
use colledor::misc::{current_time_string, gen_rnd_str, MAX_CLOCK, NAME_ALPHABET_LEN};
use colledor::text::{ascii_string, hex_lower_string, parse_i32, parse_i64};

#[test]
fn parse_i64_accepts_signed_decimals() {
    assert_eq!(parse_i64("42"), Some(42));
    assert_eq!(parse_i64("-42"), Some(-42));
    assert_eq!(parse_i64("+7"), Some(7));
    assert_eq!(parse_i64("0"), Some(0));
    assert_eq!(parse_i64("-0"), Some(0));
    assert_eq!(parse_i64("007"), Some(7));
    assert_eq!(parse_i64("1600000000"), Some(1600000000));
}

#[test]
fn parse_i64_rejects_what_str_parse_rejects() {
    for s in ["", "+", "-", " 1", "1 ", "12a", "a12", "1_000", "--1", "+-1", "\u{0661}"] {
        assert_eq!(parse_i64(s), None, "input {:?}", s);
        assert_eq!(parse_i64(s), s.parse::<i64>().ok(), "input {:?}", s);
    }
}

#[test]
fn parse_i64_bounds() {
    assert_eq!(parse_i64("9223372036854775807"), Some(i64::MAX));
    assert_eq!(parse_i64("9223372036854775808"), None);
    assert_eq!(parse_i64("-9223372036854775808"), Some(i64::MIN));
    assert_eq!(parse_i64("-9223372036854775809"), None);
    assert_eq!(parse_i64("99999999999999999999999"), None);
    assert_eq!(parse_i64("99999999999999999999999x"), None);
}

#[test]
fn parse_i32_bounds() {
    assert_eq!(parse_i32("2147483647"), Some(i32::MAX));
    assert_eq!(parse_i32("2147483648"), None);
    assert_eq!(parse_i32("-2147483648"), Some(i32::MIN));
    assert_eq!(parse_i32("-2147483649"), None);
    assert_eq!(parse_i32("15"), Some(15));
    assert_eq!(parse_i32("x"), None);
}

#[test]
fn parse_agrees_with_std() {
    for s in ["1", "-1", "+1", "2147483647", "2147483648", "-2147483648", "-2147483649", "", "+", "12 ", "٣", "9223372036854775807", "9223372036854775808"] {
        assert_eq!(parse_i64(s), s.parse::<i64>().ok(), "i64 {:?}", s);
        assert_eq!(parse_i32(s), s.parse::<i32>().ok(), "i32 {:?}", s);
    }
}

#[test]
fn hex_is_lower_case_two_digits_per_byte() {
    assert_eq!(hex_lower_string(&[0x00, 0xff, 0x1a, 0x09]), "00ff1a09");
    assert_eq!(hex_lower_string(&[]), "");
}

#[test]
fn ascii_bytes_become_the_same_characters() {
    assert_eq!(ascii_string(b"Ab9".to_vec()), "Ab9");
}

#[test]
fn password_hash_is_md5_hex() {
    assert_eq!(password_hash("password"), "5f4dcc3b5aa765d61d8327deb882cf99");
    assert_eq!(password_hash(""), "d41d8cd98f00b204e9800998ecf8427e");
    assert_eq!(password_hash("pässword").len(), 32);
    assert_ne!(password_hash("a"), password_hash("b"));
}

#[test]
fn time_text_is_japan_standard_time() {
    assert_eq!(current_time_string(0), "1970/01/01 09:00:00");
    assert_eq!(current_time_string(1600000000), "2020/09/13 21:26:40");
    assert_eq!(current_time_string(MAX_CLOCK), "9999/12/31 23:59:59");
}

#[test]
fn random_names_are_distinct_alphanumerics() {
    for size in [0usize, 1, 8, 61, 62, 63, 100] {
        let s = gen_rnd_str(size);
        let expected = size.min(NAME_ALPHABET_LEN);
        assert_eq!(s.chars().count(), expected);
        assert!(s.chars().all(|c| c.is_ascii_alphanumeric()));
        let mut seen: Vec<char> = s.chars().collect();
        seen.sort();
        seen.dedup();
        assert_eq!(seen.len(), expected);
    }
}

#[test]
fn random_names_differ() {
    let a = gen_rnd_str(8);
    let b = gen_rnd_str(8);
    let c = gen_rnd_str(8);
    assert!(a != b || b != c);
}

#[test]
fn verify_token_gives_the_id_or_error() {
    let c = Claims { id: "alice".to_string(), exp: 5 };
    assert_eq!(verify_token(Some(c)), Ok("alice".to_string()));
    assert_eq!(verify_token(None), Err("ERROR".to_string()));
}

#[test]
fn issued_claims_last_one_hundred_days() {
    let c = issue_claims("bob".to_string(), 1000);
    assert_eq!(c.id, "bob");
    assert_eq!(c.exp, 1000 + 8640000);
    assert_eq!(TOKEN_LIFETIME_SECS, 8640000);
}
