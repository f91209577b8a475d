use liquidity_check::{is_float_literal, split, validate, CurrencyIndex};

fn pair(a: &str, b: &str) -> Option<(String, String)> {
    Some((a.to_string(), b.to_string()))
}

fn chars(s: &str) -> Vec<char> {
    s.chars().collect()
}

#[test]
fn split_symbol_first() {
    assert_eq!(split("$50"), pair("$", "50"));
    assert_eq!(split("$ 50"), pair("$", "50"));
    assert_eq!(split("USD50"), pair("USD", "50"));
    assert_eq!(split("USD 50"), pair("USD", "50"));
}

#[test]
fn split_value_first() {
    assert_eq!(split("50$"), pair("50", "$"));
    assert_eq!(split("50 $"), pair("50", "$"));
    assert_eq!(split("50USD"), pair("50", "USD"));
    assert_eq!(split("50 USD"), pair("50", "USD"));
    assert_eq!(split("50.0 $"), pair("50.0", "$"));
}

#[test]
fn split_without_currency_fails() {
    assert_eq!(split("50"), None);
    assert_eq!(split("USD"), None);
    assert_eq!(split(""), None);
    assert_eq!(split("   \t "), None);
}

#[test]
fn split_absorbs_digit_separator() {
    assert_eq!(split("50,000 PAB"), pair("50,000", "PAB"));
}

#[test]
fn split_parts_cover_the_whole_text() {
    assert_eq!(split("50$50"), None);
    assert_eq!(split("$50$"), None);
    assert_eq!(split("5 0 $ 5"), None);
    assert!(!validate("50$50"));
    assert!(!validate("$50$"));
    for s in ["$50", "50 USD", " 50,000 PAB ", "€ 5 0"] {
        let (a, b) = split(s).unwrap();
        let joined: String = s.split_whitespace().collect();
        assert_eq!(format!("{}{}", a, b), joined);
    }
}

#[test]
fn split_ignores_whitespace() {
    assert_eq!(split("5 0 , 0 0 0  P A B"), split("50,000PAB"));
    assert_eq!(split(" 50\tUSD\n"), pair("50", "USD"));
    assert_eq!(split("50\u{a0}USD"), pair("50", "USD"));
}

#[test]
fn validate_accepts_amounts() {
    assert!(validate("$50"));
    assert!(validate("50$"));
    assert!(validate("50 USD"));
    assert!(validate("€ 50"));
    assert!(validate("50 EUR"));
    assert!(validate("50.0 ¥"));
    assert!(validate("50,000 PAB"));
    assert!(validate("B/. 50"));
}

#[test]
fn validate_rejects_non_amounts() {
    assert!(!validate("50"));
    assert!(!validate("50 ER"));
    assert!(!validate("50_$"));
    assert!(!validate(""));
    assert!(!validate("USD"));
}

#[test]
fn validate_rejects_text_without_digit() {
    assert!(!validate("USD EUR"));
    assert!(!validate("$$"));
    assert!(!validate("no money here"));
}

#[test]
fn validate_rejects_unknown_token() {
    assert!(!validate("50 XYZ"));
    assert!(!validate("1,000 usd"));
    assert!(!validate("QQ 7"));
}

#[test]
fn repeated_calls_agree() {
    for s in ["$50", "50 ER", "50,000 PAB", "50", ""] {
        assert_eq!(split(s), split(s));
        assert_eq!(validate(s), validate(s));
    }
    let index = CurrencyIndex::new();
    assert_eq!(index.split("50 USD"), index.split("50 USD"));
    assert_eq!(index.validate("50 USD"), index.validate("50 USD"));
    assert_eq!(index.validate("50 USD"), validate("50 USD"));
}

#[test]
fn index_holds_separators_and_tokens() {
    let index = CurrencyIndex::new();
    assert!(index.is_separator(','));
    assert!(index.is_separator('.'));
    assert!(index.is_separator(' '));
    assert!(!index.is_separator('_'));
    assert!(!index.is_separator('5'));
    assert!(index.is_token(&chars("USD")));
    assert!(index.is_token(&chars("$")));
    assert!(index.is_token(&chars("€")));
    assert!(index.is_token(&chars("B/.")));
    assert!(!index.is_token(&chars("ER")));
    assert!(!index.is_token(&chars("usd")));
    assert!(index.is_exponent_separator('.'));
    assert!(index.is_exponent_separator(','));
    assert!(!index.is_exponent_separator(' '));
}

#[test]
fn index_removes_separators() {
    let index = CurrencyIndex::new();
    assert_eq!(index.remove_separators(&chars("1,234.5")), chars("12345"));
    assert_eq!(index.remove_separators(&chars("B/.")), chars("B/"));
}

#[test]
fn float_literals_accepted() {
    for s in ["50", "50.0", "5.", ".5", "+1", "-2.5", "1e5", "1E-5", "2.5e+10", "inf", "-Infinity", "NaN"] {
        assert!(is_float_literal(&chars(s)), "{}", s);
    }
}

#[test]
fn float_literals_rejected() {
    for s in ["", ".", "+", "e5", "1e", "1e+", "1.2.3", "$", "50$", "1_000", "infinit", "0x10", " 1"] {
        assert!(!is_float_literal(&chars(s)), "{}", s);
    }
}

#[test]
fn float_literals_match_std() {
    for s in ["50", "5.", ".5", "1e5", "1e", ".", "inf", "nan", "1.2.3", "-0", "B/", "USD", "12345"] {
        assert_eq!(is_float_literal(&chars(s)), s.parse::<f64>().is_ok(), "{}", s);
    }
}

#[test]
fn every_listed_currency_is_known() {
    let index = CurrencyIndex::new();
    let codes = liquidity_check::currency_codes();
    assert_eq!(codes.len(), 173);
    for code in codes {
        assert!(index.is_token(&chars(code)), "{}", code);
        assert!(validate(&format!("12 {}", code)), "{}", code);
    }
}
