use euphoria::auth::{ExchangeCode, RefreshCode};
use euphoria::decay::Decay;
use euphoria::pattern::FlirtPattern;
use euphoria::settings::{FlirtingUser, PowerSettings, FLIRT_WINDOW_MS};

#[test]
fn words_pattern_joins_with_bars() {
    let p = FlirtPattern::Words(vec!["good girl".to_string(), "treat".to_string(), "praise".to_string()]);
    assert_eq!(p.source_text(), "good girl|treat|praise");
    let re = p.to_regex().expect("valid");
    assert!(re.is_match("such a good girl"));
    assert!(re.is_match("a treat"));
    assert!(!re.is_match("nothing here"));
}

#[test]
fn regex_pattern_compiles_as_written() {
    let p = FlirtPattern::Regex("(?i)good (?:girl|kitt(?:y|en))".to_string());
    assert_eq!(p.source_text(), "(?i)good (?:girl|kitt(?:y|en))");
    let re = p.to_regex().expect("valid");
    assert!(re.is_match("GOOD KITTEN"));
    assert!(!re.is_match("good dog"));
}

#[test]
fn invalid_pattern_is_an_error() {
    assert!(FlirtPattern::Regex("(unclosed".to_string()).to_regex().is_err());
    assert!(FlirtPattern::Words(vec!["a(".to_string()]).to_regex().is_err());
}

#[test]
fn empty_words_pattern() {
    let p = FlirtPattern::Words(vec![]);
    assert_eq!(p.source_text(), "");
    assert!(p.to_regex().is_ok());
}

#[test]
fn exchange_form() {
    let f = ExchangeCode::new("id", "SECRET-REDACTED", "abc", "https://example.org/cb");
    assert_eq!(f.grant_type, "authorization_code");
    assert_eq!(f.code, "abc");
    assert_eq!(f.client_id, "id");
    assert_eq!(f.redirect_uri, "https://example.org/cb");
}

#[test]
fn refresh_form() {
    let f = RefreshCode::new("id", "SECRET-REDACTED", "tok");
    assert_eq!(f.grant_type, "refresh_token");
    assert_eq!(f.refresh_token, "tok");
}

#[test]
fn default_settings() {
    let s = PowerSettings::default();
    assert_eq!(s.decay, Decay::HalfLife(1000));
    assert_eq!(s.praise_hit, 300_000_000);
    assert_eq!(s.reaction_hit, 300_000_000);
}

#[test]
fn praise_magnitude_scales_and_saturates() {
    let s = PowerSettings::default();
    assert_eq!(s.praise_magnitude(3), 900_000_000);
    assert_eq!(s.praise_magnitude(0), 0);
    assert_eq!(s.praise_magnitude(u64::MAX), u64::MAX);
}

#[test]
fn flirt_window() {
    let u = FlirtingUser::new(1000, vec![7]);
    assert!(u.is_valid_flirt(500));
    assert!(u.is_valid_flirt(1000 + FLIRT_WINDOW_MS - 1));
    assert!(!u.is_valid_flirt(1000 + FLIRT_WINDOW_MS));
    assert_eq!(u.flirting_with, vec![7]);
}
