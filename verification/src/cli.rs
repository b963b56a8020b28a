//! What the operator hands the crawl: the scrape arguments, and the commands
//! of the interactive control shell. The line editing, parsing of the
//! command line and of shell input stay with the driver; the decisions they
//! lead to are made here.

use vstd::prelude::*;

use crate::errors::ConfigError;
use crate::orchestrator::{regex_compiles, regex_set_new, Filter, RateLimit, RuntimeConfig};
use crate::urls::{fragment_free, parse_url, parsed_url};

verus! {

/// The arguments of one scrape run.
#[derive(Debug)]
pub struct ScrapeArgs {
    /// Whitelist regexes: beyond the seeds, only matching URLs are scanned.
    pub whitelist: Vec<String>,
    /// Blacklist regexes: matching URLs are never scanned.
    pub blacklist: Vec<String>,
    /// Links to start with.
    pub seed_links: Vec<String>,
    /// Where the persistence collaborator writes its records.
    pub output_file: String,
    /// How many fetches may be in flight at once.
    pub max_parallel_requests: u64,
    /// Also include unprocessed links found in the output of a prior,
    /// unfinished session.
    pub include_db_links: bool,
    /// Verbose output.
    pub verbose: bool,
}

/// A command of the interactive control shell.
#[derive(Debug, PartialEq, Eq, Structural)]
pub enum ReplCommand {
    /// Leave the shell and continue scraping.
    Exit,
    /// Blacklist every future URL: only currently known URLs finish scanning.
    BlacklistAll,
}

/// Builds the initial runtime configuration from the arguments: the filter
/// compiled from the two pattern lists, and the concurrency cap. An invalid
/// pattern is fatal here, before any task runs.
pub fn build_runtime_config(args: &ScrapeArgs) -> (r: Result<RuntimeConfig, ConfigError>)
    ensures
        r is Ok <==> (regex_compiles(args.whitelist@.map_values(|p: String| p@))
            && regex_compiles(args.blacklist@.map_values(|p: String| p@))),
        r matches Ok(c) ==> {
            &&& c.filter.whitelist() == args.whitelist@.map_values(|p: String| p@)
            &&& c.filter.blacklist() == args.blacklist@.map_values(|p: String| p@)
            &&& c.rate_limit == RateLimit { max_parallel_requests: args.max_parallel_requests }
        },
        r matches Err(e) ==> ((e matches ConfigError::InvalidWhitelist { .. })
            <==> !regex_compiles(args.whitelist@.map_values(|p: String| p@))),
        r matches Err(e) ==> ((e matches ConfigError::InvalidBlacklist { .. })
            <==> (regex_compiles(args.whitelist@.map_values(|p: String| p@))
            && !regex_compiles(args.blacklist@.map_values(|p: String| p@)))),
{
    let filter = match Filter::new(&args.whitelist, &args.blacklist) {
        Ok(f) => f,
        Err(e) => {
            return Err(e);
        }
    };
    Ok(RuntimeConfig { rate_limit: RateLimit::from(args.max_parallel_requests), filter })
}

/// Parses and normalizes the seed links: each must be an absolute URL; its
/// canonical, fragment-stripped form is what the crawl schedules. The first
/// seed that does not parse is returned as the error; a list whose seeds all
/// parse is always accepted.
pub fn parse_seed_urls(seeds: &Vec<String>) -> (r: Result<Vec<String>, ConfigError>)
    ensures
        r matches Ok(v) ==> {
            &&& v@.len() == seeds@.len()
            &&& forall|i: int|
                0 <= i < seeds@.len() ==> parsed_url(#[trigger] seeds@[i]@) == Some(v@[i]@)
            &&& forall|i: int| 0 <= i < v@.len() ==> fragment_free((#[trigger] v@[i])@)
        },
        r matches Err(e) ==> {
            &&& e matches ConfigError::InvalidSeedUrl { url } && (exists|i: int|
                0 <= i < seeds@.len() && #[trigger] seeds@[i]@ == url@ && parsed_url(url@) is None)
        },
        (forall|i: int| 0 <= i < seeds@.len() ==> (#[trigger] parsed_url(seeds@[i]@)) is Some)
            ==> r is Ok,
{
    let mut out: Vec<String> = Vec::new();
    let mut i: usize = 0;
    while i < seeds.len()
        invariant
            i <= seeds.len(),
            out@.len() == i,
            forall|k: int| 0 <= k < i ==> parsed_url(#[trigger] seeds@[k]@) == Some(out@[k]@),
            forall|k: int| 0 <= k < out@.len() ==> fragment_free((#[trigger] out@[k])@),
        decreases seeds.len() - i,
    {
        match parse_url(seeds[i].as_str()) {
            Some(u) => {
                out.push(u);
            }
            None => {
                return Err(ConfigError::InvalidSeedUrl { url: seeds[i].clone() });
            }
        }
        i = i + 1;
    }
    Ok(out)
}

/// The decision behind one shell command: Exit leaves the configuration as
/// it is; BlacklistAll replaces the blacklist with a match-everything
/// pattern, as one whole new snapshot, leaving the whitelist and the
/// concurrency cap untouched.
pub fn apply_repl_command(cmd: &ReplCommand, config: RuntimeConfig) -> (r: Result<
    RuntimeConfig,
    ConfigError,
>)
    ensures
        (cmd matches ReplCommand::Exit) ==> r == Ok::<RuntimeConfig, ConfigError>(config),
        (cmd matches ReplCommand::BlacklistAll) ==> (r is Ok <==> regex_compiles(seq![".*"@])),
        (cmd matches ReplCommand::BlacklistAll) ==> (r matches Ok(c) ==> {
            &&& c.rate_limit == config.rate_limit
            &&& c.filter.whitelist_re == config.filter.whitelist_re
            &&& c.filter.blacklist() == seq![".*"@]
        }),
        r matches Err(e) ==> (cmd matches ReplCommand::BlacklistAll) && (e
            matches ConfigError::InvalidBlacklist { .. }) && !regex_compiles(seq![".*"@]),
{
    match cmd {
        ReplCommand::Exit => Ok(config),
        ReplCommand::BlacklistAll => {
            let mut patterns: Vec<String> = Vec::new();
            patterns.push(String::from_str(".*"));
            proof {
                assert(patterns@.map_values(|p: String| p@) =~= seq![".*"@]);
            }
            let blacklist_re = match regex_set_new(&patterns) {
                Ok(rs) => rs,
                Err(message) => {
                    return Err(ConfigError::InvalidBlacklist { message });
                }
            };
            Ok(
                RuntimeConfig {
                    rate_limit: config.rate_limit,
                    filter: Filter {
                        whitelist_re: config.filter.whitelist_re,
                        blacklist_re,
                    },
                },
            )
        }
    }
}

} // verus!
