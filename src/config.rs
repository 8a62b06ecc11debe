//! What the daemon is configured with: its schedule and the records it keeps
//! in sync.
use vstd::prelude::*;

verus! {

/// Where the address of an entry is taken from.
#[derive(Clone, Copy, Debug, PartialEq, Eq, Structural)]
pub enum IpSource {
    /// The public address, as seen from outside.
    External,
    /// The primary address of a local network interface.
    Internal,
}

impl IpSource {
    /// The lower-case name of the source, as written in the configuration.
    pub open spec fn name_spec(self) -> Seq<char> {
        match self {
            IpSource::External => "external"@,
            IpSource::Internal => "internal"@,
        }
    }

    pub fn as_str(&self) -> (r: &'static str)
        ensures
            r@ == self.name_spec(),
    {
        match self {
            IpSource::External => "external",
            IpSource::Internal => "internal",
        }
    }
}

/// One DNS record to keep pointed at an address of this host.
#[derive(Clone, Debug)]
pub struct DnsEntry {
    pub provider: String,
    pub domain: String,
    pub record_name: String,
    pub record_type: String,
    pub ip_source: IpSource,
    pub ttl: Option<u32>,
}

/// How often the daemon runs a pass, and how much it logs.
#[derive(Clone, Debug)]
pub struct DaemonConfig {
    pub interval_seconds: u64,
    pub log_level: String,
}

/// The whole configuration.
#[derive(Clone, Debug)]
pub struct Settings {
    pub daemon: DaemonConfig,
    pub dns_entries: Vec<DnsEntry>,
}

/// The pass interval when none is configured: five minutes.
pub const DEFAULT_INTERVAL_SECONDS: u64 = 300;

pub fn default_interval() -> (r: u64)
    ensures
        r == DEFAULT_INTERVAL_SECONDS,
{
    DEFAULT_INTERVAL_SECONDS
}

pub fn default_log_level() -> (r: String)
    ensures
        r@ == "info"@,
{
    String::from_str("info")
}

impl Default for DaemonConfig {
    fn default() -> (r: DaemonConfig)
        ensures
            r.interval_seconds == DEFAULT_INTERVAL_SECONDS,
            r.log_level@ == "info"@,
    {
        DaemonConfig { interval_seconds: default_interval(), log_level: default_log_level() }
    }
}

/// The directory that holds the configuration and the stored credentials.
pub open spec fn config_dir_spec() -> Seq<char> {
    "/etc/ipdnsd"@
}

impl Settings {
    pub fn config_dir() -> (r: String)
        ensures
            r@ == config_dir_spec(),
    {
        String::from_str("/etc/ipdnsd")
    }

    pub fn config_path() -> (r: String)
        ensures
            r@ == config_dir_spec() + "/config.toml"@,
    {
        let dir = Self::config_dir();
        dir.concat("/config.toml")
    }
}

} // verus!
