//! The configuration of the relay: the port to listen on and the ordered
//! list of sink descriptors.

use crate::text::{optional_view, pair_views};
use vstd::prelude::*;
use vstd::string::*;

verus! {

/// One configured sink: a kind tag and what that kind needs.
#[derive(Debug, Clone)]
pub struct StrategyConfig {
    pub strategy_type: String,
    pub api_key: Option<String>,
    pub api_url: Option<String>,
    pub from_address: Option<String>,
    pub extra_headers: Option<Vec<(String, String)>>,
}

/// What a `StrategyConfig` holds, as plain values.
pub struct StrategyConfigView {
    pub strategy_type: Seq<char>,
    pub api_key: Option<Seq<char>>,
    pub api_url: Option<Seq<char>>,
    pub from_address: Option<Seq<char>>,
    pub extra_headers: Option<Seq<(Seq<char>, Seq<char>)>>,
}

impl View for StrategyConfig {
    type V = StrategyConfigView;

    open spec fn view(&self) -> StrategyConfigView {
        StrategyConfigView {
            strategy_type: self.strategy_type@,
            api_key: optional_view(self.api_key),
            api_url: optional_view(self.api_url),
            from_address: optional_view(self.from_address),
            extra_headers: match self.extra_headers {
                Some(h) => Some(pair_views(h@)),
                None => None,
            },
        }
    }
}

/// The sink that is configured where nothing else is: a webhook on the
/// local machine.
pub open spec fn default_strategy() -> StrategyConfigView {
    StrategyConfigView {
        strategy_type: "webhook"@,
        api_key: None,
        api_url: Some("http://localhost:3000/email"@),
        from_address: None,
        extra_headers: None,
    }
}

impl Default for StrategyConfig {
    fn default() -> (r: Self)
        ensures
            r@ == default_strategy(),
    {
        StrategyConfig {
            strategy_type: "webhook".to_owned(),
            api_key: None,
            api_url: Some("http://localhost:3000/email".to_owned()),
            from_address: None,
            extra_headers: None,
        }
    }
}

/// The views of the sink descriptors in `v`.
pub open spec fn config_views(v: Seq<StrategyConfig>) -> Seq<StrategyConfigView> {
    Seq::new(v.len(), |i: int| v[i]@)
}

/// The configuration of the relay.
#[derive(Debug, Clone)]
pub struct Config {
    pub smtp_port: u16,
    pub strategies: Vec<StrategyConfig>,
}

/// What a `Config` holds, as plain values.
pub struct ConfigView {
    pub smtp_port: u16,
    pub strategies: Seq<StrategyConfigView>,
}

impl View for Config {
    type V = ConfigView;

    open spec fn view(&self) -> ConfigView {
        ConfigView {
            smtp_port: self.smtp_port,
            strategies: config_views(self.strategies@),
        }
    }
}

/// The port to listen on where the configuration names none.
pub fn default_smtp_port() -> (port: u16)
    ensures
        port == 2525,
{
    2525
}

/// The configuration that is used where no file is found: port 2525 and
/// the default sink alone.
pub open spec fn default_config() -> ConfigView {
    ConfigView { smtp_port: 2525, strategies: seq![default_strategy()] }
}

impl Default for Config {
    fn default() -> (r: Self)
        ensures
            r@ == default_config(),
    {
        let mut strategies: Vec<StrategyConfig> = Vec::new();
        strategies.push(StrategyConfig::default());
        let r = Config { smtp_port: default_smtp_port(), strategies };
        assert(r@.strategies =~= seq![default_strategy()]);
        r
    }
}

/// Where the configuration comes from.
#[derive(Debug)]
pub enum ConfigSource {
    /// The file at this path is to be read.
    File(String),
    /// No file is there: these defaults hold.
    Defaults(Config),
}

/// The places where a configuration file is looked for, in order.
pub open spec fn search_paths() -> Seq<Seq<char>> {
    seq!["config.json"@, "smtp-relay.json"@, "/etc/smtp-relay/config.json"@]
}

/// The index of the first place at or after `i` where a file is present.
pub open spec fn first_present(present: Seq<bool>, i: int) -> Option<int>
    decreases present.len() - i,
{
    if i < 0 || i >= present.len() || i >= search_paths().len() {
        None
    } else if present[i] {
        Some(i)
    } else {
        first_present(present, i + 1)
    }
}

impl Config {
    /// The places where a configuration file is looked for, in order.
    pub fn paths() -> (r: Vec<String>)
        ensures
            r@.len() == search_paths().len(),
            forall|i: int| 0 <= i < r@.len() ==> (#[trigger] r@[i])@ == search_paths()[i],
    {
        let mut r: Vec<String> = Vec::new();
        r.push("config.json".to_owned());
        r.push("smtp-relay.json".to_owned());
        r.push("/etc/smtp-relay/config.json".to_owned());
        r
    }

    /// Chooses the source of the configuration, given for each place of
    /// `paths()` whether a file is present there: the first place that has
    /// one, else the defaults.
    pub fn load(present: &Vec<bool>) -> (r: ConfigSource)
        ensures
            match first_present(present@, 0) {
                Some(k) => r matches ConfigSource::File(path) && path@ == search_paths()[k],
                None => r matches ConfigSource::Defaults(config) && config@ == default_config(),
            },
    {
        let paths = Config::paths();
        let mut i: usize = 0;
        while i < present.len() && i < paths.len()
            invariant
                paths@.len() == search_paths().len(),
                forall|j: int| 0 <= j < paths@.len() ==> (#[trigger] paths@[j])@ == search_paths()[j],
                first_present(present@, 0) == first_present(present@, i as int),
            decreases present.len() - i,
        {
            if present[i] {
                return ConfigSource::File(paths[i].clone());
            }
            i += 1;
        }
        ConfigSource::Defaults(Config::default())
    }
}

} // verus!
