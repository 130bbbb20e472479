use owlengine::chess::{RawBoard, UciMove};
use owlengine::numbers::{fmt_i64, fmt_u64, parse_i64, parse_u32, parse_u64};
use owlengine::str::{OptComboVar, OptName, RegisterName, StrError, UciString};
use owlengine::token::{tokenize, Token, TokenError};
use owlengine::types::Permille;

#[test]
fn tokenize_splits_on_whitespace() {
    let toks = tokenize("  go \t wtime\u{a0}300 \n");
    let texts: Vec<&str> = toks.iter().map(|t| t.as_str()).collect();
    assert_eq!(texts, vec!["go", "wtime", "300"]);
    for t in &toks {
        assert!(!t.as_str().is_empty());
        assert!(!t.as_str().chars().any(|c| c.is_whitespace()));
    }
    assert!(tokenize("").is_empty());
    assert!(tokenize(" \t\r\n ").is_empty());
}

#[test]
fn token_validation() {
    assert_eq!(Token::new("").unwrap_err(), TokenError::Empty);
    assert_eq!(Token::new("a b").unwrap_err(), TokenError::Whitespace);
    assert_eq!(Token::new("e2e4").unwrap().as_str(), "e2e4");
}

#[test]
fn uci_string_normalizes() {
    let s = UciString::from_str("  hello   world ");
    assert_eq!(s.as_str(), "hello world");
    assert_eq!(UciString::new().as_str(), "");
}

#[test]
fn reserved_tokens_rejected() {
    assert_eq!(
        OptName::from_str("weird type here").unwrap_err(),
        StrError::BadToken("type".to_owned())
    );
    assert_eq!(
        OptName::from_str("set the value now").unwrap_err(),
        StrError::BadToken("value".to_owned())
    );
    assert_eq!(
        OptComboVar::from_str("a var b").unwrap_err(),
        StrError::BadToken("var".to_owned())
    );
    assert_eq!(
        RegisterName::from_str("secret code").unwrap_err(),
        StrError::BadToken("code".to_owned())
    );
    // the reserved words of the other kinds are fine
    assert!(OptName::from_str("var code").is_ok());
    assert!(RegisterName::from_str("type value var").is_ok());
}

#[test]
fn option_names_compare_case_insensitively() {
    let a = OptName::from_str("Hash Size").unwrap();
    let b = OptName::from_str("hash size").unwrap();
    let c = OptName::from_str("hash sizes").unwrap();
    assert_eq!(a, b);
    assert_ne!(a, c);
    // the original case is preserved
    assert_eq!(a.as_str(), "Hash Size");
    let x = OptComboVar::from_str("NORMAL").unwrap();
    let y = OptComboVar::from_str("normal").unwrap();
    assert_eq!(x, y);
}

#[test]
fn permille_saturates() {
    assert_eq!(Permille::new_truncated(0).amount(), 0);
    assert_eq!(Permille::new_truncated(999).amount(), 999);
    assert_eq!(Permille::new_truncated(1000).amount(), 1000);
    assert_eq!(Permille::new_truncated(1001).amount(), 1000);
    assert_eq!(Permille::new_truncated(u64::MAX).amount(), 1000);
    assert_eq!(Permille::new(123).amount(), 123);
}

#[test]
fn decimal_reading_and_writing() {
    assert_eq!(fmt_u64(0), "0");
    assert_eq!(fmt_u64(18446744073709551615), "18446744073709551615");
    assert_eq!(fmt_i64(-9223372036854775808), "-9223372036854775808");
    assert_eq!(fmt_i64(42), "42");
    assert_eq!(parse_u64("42"), Some(42));
    assert_eq!(parse_u64("+42"), Some(42));
    assert_eq!(parse_u64("-42"), None);
    assert_eq!(parse_u64(""), None);
    assert_eq!(parse_u64("4 2"), None);
    assert_eq!(parse_u64("18446744073709551615"), Some(u64::MAX));
    assert_eq!(parse_u64("18446744073709551616"), None);
    assert_eq!(parse_i64("-9223372036854775808"), Some(i64::MIN));
    assert_eq!(parse_i64("-9223372036854775809"), None);
    assert_eq!(parse_i64("9223372036854775807"), Some(i64::MAX));
    assert_eq!(parse_u32("4294967295"), Some(u32::MAX));
    assert_eq!(parse_u32("4294967296"), None);
}

#[test]
fn moves_validated_by_chess_library() {
    assert_eq!(UciMove::new("e2e4").unwrap().as_str(), "e2e4");
    assert_eq!(UciMove::new("e7e8q").unwrap().as_str(), "e7e8q");
    assert!(UciMove::new("e9e9").is_none());
    assert!(UciMove::new("i1i2").is_none());
    assert!(UciMove::new("e2e4x").is_none());
    assert!(UciMove::new("castle").is_none());
    // non-ASCII tokens are rejected up front, never handed to the chess library
    assert!(UciMove::new("a\u{20ac}").is_none());
    assert!(UciMove::new("e2\u{20ac}").is_none());
    assert!(UciMove::new("\u{e9}2e4").is_none());
    assert!(UciMove::new("0000").is_some());
    assert_eq!(UciMove::null().as_str(), "0000");
    assert!(UciMove::null().is_null());
    assert!(!UciMove::new("e2e4").unwrap().is_null());
}

#[test]
fn boards_canonicalized_by_chess_library() {
    let initial = RawBoard::initial();
    assert_eq!(
        initial.as_fen(),
        "rnbqkbnr/pppppppp/8/8/8/8/PPPPPPPP/RNBQKBNR w KQkq - 0 1"
    );
    assert!(initial.is_initial());
    // optional counters are filled in by canonicalization
    let b = RawBoard::from_fen("8/8/8/8/8/8/8/8 w - -").unwrap();
    assert_eq!(b.as_fen(), "8/8/8/8/8/8/8/8 w - - 0 1");
    assert!(!b.is_initial());
    assert!(RawBoard::from_fen("not a position").is_none());
}
