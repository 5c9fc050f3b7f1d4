use coop_core::config::ConfigError;
use coop_core::hexutil::{decode_public_key, to_hex_string, HexError};
use coop_core::jwt::{issue_token_claims, refresh_decision, verify_decision, Claims, RefreshAction};
use coop_core::listing::{
    format_direntry_row, pad_left, pad_right, symlink_display_name, to_file_type_char,
    to_human_readable_size, to_permission_expression,
};
use coop_core::primes::{is_prime, sum_primes, sum_primes_checked};
use coop_core::strings::{remove_spaces, MyString};

#[test]
fn primality_by_trial_division() {
    assert!(!is_prime(0));
    assert!(!is_prime(1));
    assert!(is_prime(2));
    assert!(is_prime(3));
    assert!(!is_prime(4));
    assert!(is_prime(17));
    assert!(!is_prime(25));
    assert!(is_prime(7919));
    assert!(!is_prime(7917));
}

#[test]
fn prime_sums() {
    assert_eq!(sum_primes(0), 0);
    assert_eq!(sum_primes(1), 0);
    assert_eq!(sum_primes(2), 2);
    assert_eq!(sum_primes(10), 17);
    assert_eq!(sum_primes(100), 1060);
}

#[test]
fn prime_sums_checked() {
    assert_eq!(sum_primes_checked(0), Some(0));
    assert_eq!(sum_primes_checked(1), Some(0));
    assert_eq!(sum_primes_checked(10), Some(17));
    assert_eq!(sum_primes_checked(1000), Some(76127));
}

#[test]
fn permission_expression() {
    assert_eq!(to_permission_expression(0o755), "rwxr-xr-x");
    assert_eq!(to_permission_expression(0o644), "rw-r--r--");
    assert_eq!(to_permission_expression(0o000), "---------");
    assert_eq!(to_permission_expression(0o777), "rwxrwxrwx");
    assert_eq!(to_permission_expression(0o100644), "rw-r--r--");
}

#[test]
fn file_type_tags() {
    assert_eq!(to_file_type_char(true, false), 'd');
    assert_eq!(to_file_type_char(true, true), 'd');
    assert_eq!(to_file_type_char(false, true), 'l');
    assert_eq!(to_file_type_char(false, false), '-');
}

#[test]
fn human_readable_sizes() {
    assert_eq!(to_human_readable_size(0), "   0B");
    assert_eq!(to_human_readable_size(5), "   5B");
    assert_eq!(to_human_readable_size(1023), "1023B");
    assert_eq!(to_human_readable_size(1024), " 1.0K");
    assert_eq!(to_human_readable_size(1536), " 1.5K");
    assert_eq!(to_human_readable_size(10 * 1024), "10.0K");
    assert_eq!(to_human_readable_size(1024 * 1024), " 1.0M");
    assert_eq!(to_human_readable_size(3 * 1024 * 1024 * 1024), " 3.0G");
    // Exact ties keep the even digit, as one-decimal float rendering does:
    // 1280 scales to 1.25 (digit 2 stays), 1792 to 1.75 (rounds up to 8).
    assert_eq!(to_human_readable_size(1280), " 1.2K");
    assert_eq!(to_human_readable_size(1792), " 1.8K");
}

#[test]
fn human_readable_size_matches_float_rendering() {
    for size in [1024u64, 1280, 1536, 1792, 2048, 9999, 123456, 987654321, 5 << 40] {
        let mut size_f = size as f64;
        let units = ["B", "K", "M", "G", "T", "P"];
        let mut unit_index = 0;
        while size_f >= 1024.0 && unit_index < units.len() - 1 {
            size_f /= 1024.0;
            unit_index += 1;
        }
        let expected = format!("{:>4.1}{}", size_f, units[unit_index]);
        assert_eq!(to_human_readable_size(size), expected);
    }
}

#[test]
fn padding() {
    assert_eq!(pad_left("7", 4), "   7");
    assert_eq!(pad_left("12345", 4), "12345");
    assert_eq!(pad_right("me", 8), "me      ");
    assert_eq!(pad_right("very long name", 8), "very long name");
}

#[test]
fn direntry_row_layout() {
    let row = format_direntry_row(
        false,
        false,
        0o644,
        1,
        "museop",
        "staff",
        1234,
        "10월 04 12:30",
        "notes.txt",
    );
    assert_eq!(row, "-rw-r--r--    1 museop   staff     1.2K 10월 04 12:30 notes.txt");
}

#[test]
fn direntry_row_symlink() {
    let name = symlink_display_name("link", "/tmp/target");
    let row = format_direntry_row(
        false,
        true,
        0o777,
        1,
        "root",
        "root",
        11,
        "1월 01 00:00",
        &name,
    );
    assert_eq!(
        row,
        "lrwxrwxrwx    1 root     root       11B 1월 01 00:00 link -> /tmp/target"
    );
}

#[test]
fn spaces_are_removed() {
    assert_eq!(remove_spaces("Hello World"), "HelloWorld");
    assert_eq!(remove_spaces("Hello_World"), "Hello_World");
    assert_eq!(remove_spaces("  a b  c "), "abc");
    assert_eq!(remove_spaces(""), "");
    assert_eq!(remove_spaces("한 글 두 글"), "한글두글");
}

#[test]
fn my_string_accepts_both_string_kinds() {
    let owned = MyString::new(String::from("hello"));
    assert_eq!(owned.as_str(), "hello");
    let borrowed = MyString::new("world");
    assert_eq!(borrowed.as_str(), "world");
}

#[test]
fn my_string_concrete_constructors() {
    let moved = MyString::from_owned(String::from("hello"));
    assert_eq!(moved.as_str(), "hello");
    let copied = MyString::from_text("world");
    assert_eq!(copied.as_str(), "world");
}

#[test]
fn issued_token_pair() {
    let (access, refresh) = issue_token_claims("user-1", 1_700_000_000);
    assert_eq!(access.sub, "user-1");
    assert_eq!(access.iat, 1_700_000_000);
    assert_eq!(access.exp, 1_700_000_060);
    assert_eq!(access.token_type, "access");
    assert_eq!(refresh.sub, "user-1");
    assert_eq!(refresh.iat, 1_700_000_000);
    assert_eq!(refresh.exp, 1_700_003_600);
    assert_eq!(refresh.token_type, "refresh");
}

fn claims(token_type: &str) -> Claims {
    Claims {
        sub: "user-9".to_string(),
        exp: 2_000_000_000,
        iat: 1_999_999_000,
        token_type: token_type.to_string(),
    }
}

#[test]
fn verify_accepts_only_access_tokens() {
    let (valid, reported) = verify_decision(Some(claims("access")));
    assert!(valid);
    assert_eq!(reported.unwrap().token_type, "access");
    let (valid, reported) = verify_decision(Some(claims("refresh")));
    assert!(!valid);
    assert!(reported.is_none());
    let (valid, reported) = verify_decision(None);
    assert!(!valid);
    assert!(reported.is_none());
}

#[test]
fn refresh_issues_new_access_token() {
    match refresh_decision(Some(claims("refresh")), 2_000_000_100) {
        RefreshAction::IssueAccess(access) => {
            assert_eq!(access.sub, "user-9");
            assert_eq!(access.iat, 2_000_000_100);
            assert_eq!(access.exp, 2_000_000_160);
            assert_eq!(access.token_type, "access");
        },
        RefreshAction::Unauthorized => panic!("refresh token must be accepted"),
    }
    assert_eq!(
        refresh_decision(Some(claims("access")), 2_000_000_100),
        RefreshAction::Unauthorized
    );
    assert_eq!(refresh_decision(None, 2_000_000_100), RefreshAction::Unauthorized);
}

#[test]
fn hex_encoding_of_key_material() {
    assert_eq!(to_hex_string(&vec![]), "");
    assert_eq!(to_hex_string(&vec![0x01, 0x02, 0xf0]), "0102f0");
    assert_eq!(to_hex_string(&vec![0xde, 0xad, 0xbe, 0xef]), "deadbeef");
}

#[test]
fn hex_decoding_of_key_material() {
    assert_eq!(decode_public_key("0102f0"), Ok(vec![0x01, 0x02, 0xf0]));
    assert_eq!(decode_public_key("DEADbeef"), Ok(vec![0xde, 0xad, 0xbe, 0xef]));
    assert_eq!(decode_public_key(""), Ok(vec![]));
    assert_eq!(decode_public_key("abc"), Err(HexError::OddLength));
    assert_eq!(
        decode_public_key("abcg"),
        Err(HexError::InvalidChar { c: 'g', index: 3 })
    );
}

#[test]
fn config_error_messages() {
    assert_eq!(
        ConfigError::FileRead("config.txt".to_string()).describe(),
        "Failed to read file: config.txt"
    );
    assert_eq!(ConfigError::Io("broken pipe".to_string()).describe(), "I/O error occurred: broken pipe");
    assert_eq!(
        ConfigError::Json("expected value at line 1".to_string()).describe(),
        "JSON parsing error: expected value at line 1"
    );
}
