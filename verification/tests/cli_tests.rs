use waper::cli::{apply_repl_command, build_runtime_config, parse_seed_urls, ReplCommand, ScrapeArgs};
use waper::config::create_config;
use waper::errors::ConfigError;

fn args_with(whitelist: Vec<String>, blacklist: Vec<String>, limit: u64) -> ScrapeArgs {
    ScrapeArgs {
        whitelist,
        blacklist,
        seed_links: vec!["https://example.com/".to_string()],
        output_file: "waper_out.sqlite".to_string(),
        max_parallel_requests: limit,
        include_db_links: false,
        verbose: false,
    }
}

#[test]
fn build_config_from_args() {
    let args = args_with(vec![".*".to_string()], Vec::new(), 3);
    let c = build_runtime_config(&args).unwrap();
    assert_eq!(c.rate_limit.max_parallel_requests, 3);
    assert!(c.filter.is_match("https://example.com/"));
}

#[test]
fn build_config_rejects_bad_pattern() {
    let args = args_with(vec!["(".to_string()], Vec::new(), 3);
    let e = build_runtime_config(&args).unwrap_err();
    assert!(matches!(e, ConfigError::InvalidWhitelist { .. }));
}

#[test]
fn parse_seeds_normalizes() {
    let v = parse_seed_urls(&vec!["https://example.com/x#f".to_string()]).unwrap();
    assert_eq!(v, vec!["https://example.com/x".to_string()]);
}

#[test]
fn parse_seeds_rejects_invalid() {
    let seeds = vec!["https://example.com/".to_string(), "nonsense".to_string()];
    let e = parse_seed_urls(&seeds).unwrap_err();
    assert!(matches!(e, ConfigError::InvalidSeedUrl { .. }));
}

#[test]
fn repl_exit_keeps_config() {
    let c = build_runtime_config(&args_with(vec![".*".to_string()], Vec::new(), 3)).unwrap();
    let c2 = apply_repl_command(&ReplCommand::Exit, c).unwrap();
    assert!(c2.filter.is_match("https://example.com/"));
    assert_eq!(c2.rate_limit.max_parallel_requests, 3);
}

#[test]
fn repl_blacklist_all_blocks_everything() {
    let c = build_runtime_config(&args_with(vec![".*".to_string()], Vec::new(), 3)).unwrap();
    assert!(c.filter.is_match("https://example.com/"));
    let c2 = apply_repl_command(&ReplCommand::BlacklistAll, c).unwrap();
    assert!(!c2.filter.is_match("https://example.com/"));
    assert!(!c2.filter.is_match("anything at all"));
    assert_eq!(c2.rate_limit.max_parallel_requests, 3);
}

#[test]
fn config_channel_returns_latest_snapshot() {
    let c0 = build_runtime_config(&args_with(vec![".*".to_string()], Vec::new(), 1)).unwrap();
    let (mut tx, rx) = create_config(c0);
    assert_eq!(rx.get_current().rate_limit.max_parallel_requests, 1);
    assert!(rx.get_current().filter.is_match("https://example.com/"));

    let c1 = build_runtime_config(&args_with(vec![".*".to_string()], Vec::new(), 9)).unwrap();
    tx.send(c1);
    assert_eq!(rx.get_current().rate_limit.max_parallel_requests, 9);

    // A second sender handle reaches the same slot.
    let c2 = build_runtime_config(&args_with(vec![".*".to_string()], Vec::new(), 4)).unwrap();
    let mut tx2 = tx.duplicate();
    tx2.send(c2);
    assert_eq!(rx.get_current().rate_limit.max_parallel_requests, 4);
}
