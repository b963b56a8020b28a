use waper::errors::ConfigError;
use waper::orchestrator::Filter;

#[test]
fn filter_whitelist_and_blacklist() {
    let f = Filter::new(&vec!["a.*".to_string()], &vec!["ab.*".to_string()]).unwrap();
    assert!(f.is_match("axxx"));
    // On overlap the blacklist wins.
    assert!(!f.is_match("abxx"));
    // Not whitelisted at all.
    assert!(!f.is_match("zzz"));
}

#[test]
fn filter_empty_blacklist_blocks_nothing() {
    let f = Filter::new(&vec![".*".to_string()], &vec![]).unwrap();
    assert!(f.is_match("https://example.com/"));
}

#[test]
fn filter_empty_whitelist_matches_nothing() {
    let f = Filter::new(&vec![], &vec![]).unwrap();
    assert!(!f.is_match("anything"));
}

#[test]
fn filter_invalid_whitelist_pattern() {
    let e = Filter::new(&vec!["(".to_string()], &vec![]).unwrap_err();
    assert!(matches!(e, ConfigError::InvalidWhitelist { .. }));
}

#[test]
fn filter_invalid_blacklist_pattern() {
    let e = Filter::new(&vec![".*".to_string()], &vec!["[".to_string()]).unwrap_err();
    assert!(matches!(e, ConfigError::InvalidBlacklist { .. }));
}

#[test]
fn config_error_describe() {
    let e = ConfigError::InvalidWhitelist { message: "oops".to_string() };
    assert_eq!(e.describe(), "invalid whitelist regex");
    let e = ConfigError::InvalidBlacklist { message: "oops".to_string() };
    assert_eq!(e.describe(), "invalid blacklist regex");
    let e = ConfigError::InvalidSeedUrl { url: "nope".to_string() };
    assert_eq!(e.describe(), "invalid seed url");
}
