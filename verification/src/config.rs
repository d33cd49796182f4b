//! The configuration of the balancer, and its validation.

use vstd::prelude::*;
use vstd::string::StringExecFns;

verus! {

/// Why a configuration was refused.
#[derive(Debug, Clone, PartialEq)]
pub enum ConfigError {
    /// Something that has to be there is missing.
    MissingField(String),
    /// Something is there and cannot be used.
    InvalidValue(String),
}

impl ConfigError {
    /// The error as a line of text.
    pub fn message(&self) -> (text: String)
        ensures
            text@ == match *self {
                ConfigError::MissingField(m) => "Missing configuration: "@ + m@,
                ConfigError::InvalidValue(m) => "Invalid configuration: "@ + m@,
            },
    {
        match self {
            ConfigError::MissingField(m) => String::from_str("Missing configuration: ").concat(
                m.as_str(),
            ),
            ConfigError::InvalidValue(m) => String::from_str("Invalid configuration: ").concat(
                m.as_str(),
            ),
        }
    }
}

/// A backend of a rule: an address alone, or an address with its drain state.
#[derive(Debug, Clone, PartialEq)]
pub enum BackendConfig {
    Simple(String),
    Detailed { addr: String, drain: bool },
}

impl BackendConfig {
    /// The address of the backend.
    pub open spec fn spec_addr(self) -> Seq<char> {
        match self {
            BackendConfig::Simple(a) => a@,
            BackendConfig::Detailed { addr, .. } => addr@,
        }
    }

    /// Whether the backend is configured as draining; an address alone is not.
    pub open spec fn spec_drain(self) -> bool {
        match self {
            BackendConfig::Simple(_) => false,
            BackendConfig::Detailed { drain, .. } => drain,
        }
    }

    pub fn addr(&self) -> (addr: &String)
        ensures
            addr@ == self.spec_addr(),
    {
        match self {
            BackendConfig::Simple(a) => a,
            BackendConfig::Detailed { addr, .. } => addr,
        }
    }

    pub fn drain(&self) -> (drain: bool)
        ensures
            drain == self.spec_drain(),
    {
        match self {
            BackendConfig::Simple(_) => false,
            BackendConfig::Detailed { drain, .. } => *drain,
        }
    }
}

#[derive(Debug, Clone, PartialEq)]
pub struct Config {
    /// The load-balancing rules, one per listener.
    pub rules: Vec<LBRule>,
    pub cluster: Option<ClusterConfig>,
    pub log: Option<LogConfig>,
}

#[derive(Debug, Clone, PartialEq)]
pub struct LogConfig {
    pub level: String,
}

#[derive(Debug, Clone, PartialEq)]
pub struct ClusterConfig {
    pub enabled: bool,
    /// Address of the gossip socket.
    pub bind_addr: String,
    /// Seed peers.
    pub peers: Vec<String>,
}

#[derive(Debug, Clone, PartialEq)]
pub struct LBRule {
    pub name: String,
    /// Listen address, as `IP:port`.
    pub listen: String,
    pub backends: Vec<BackendConfig>,
    /// `tcp` where absent.
    pub protocol: Option<String>,
    pub tls: Option<TlsConfig>,
    pub backend_tls: Option<BackendTlsConfig>,
    pub rate_limit: Option<RateLimitConfig>,
    pub bandwidth_limit: Option<BandwidthLimitConfig>,
    pub backend_connection_limit: Option<usize>,
    pub health_check: Option<HealthCheckConfig>,
}

#[derive(Debug, Clone, PartialEq)]
pub struct HealthCheckConfig {
    pub enabled: bool,
    pub interval_ms: u64,
    pub timeout_ms: u64,
    /// `tcp` or `http`.
    pub protocol: String,
    /// Path of the HTTP probe.
    pub path: Option<String>,
}

#[derive(Debug, Clone, PartialEq)]
pub struct TlsConfig {
    pub enabled: bool,
    pub cert: String,
    pub key: String,
}

#[derive(Debug, Clone, Copy, PartialEq)]
pub struct RateLimitConfig {
    pub enabled: bool,
    pub requests_per_second: u32,
    pub burst: u32,
}

#[derive(Debug, Clone, Copy, PartialEq)]
pub struct BandwidthLimitConfig {
    pub enabled: bool,
    pub client: Option<ClientBandwidthConfig>,
    pub backend: Option<BackendBandwidthConfig>,
}

/// Bytes per second allowed to one client address.
#[derive(Debug, Clone, Copy, PartialEq)]
pub struct ClientBandwidthConfig {
    pub upload_per_sec: u32,
    pub download_per_sec: u32,
}

/// Bytes per second allowed to one backend key.
#[derive(Debug, Clone, Copy, PartialEq)]
pub struct BackendBandwidthConfig {
    pub upload_per_sec: u32,
    pub download_per_sec: u32,
}

#[derive(Debug, Clone, Copy, PartialEq)]
pub struct BackendTlsConfig {
    pub enabled: bool,
    pub ignore_verify: bool,
}

/// The decimal digit `d`.
pub open spec fn digit(d: nat) -> char {
    if d == 0 {
        '0'
    } else if d == 1 {
        '1'
    } else if d == 2 {
        '2'
    } else if d == 3 {
        '3'
    } else if d == 4 {
        '4'
    } else if d == 5 {
        '5'
    } else if d == 6 {
        '6'
    } else if d == 7 {
        '7'
    } else if d == 8 {
        '8'
    } else {
        '9'
    }
}

/// `n` in decimal, without leading zeros.
pub open spec fn decimal(n: nat) -> Seq<char>
    decreases n,
{
    if n < 10 {
        seq![digit(n)]
    } else {
        decimal(n / 10) + seq![digit(n % 10)]
    }
}

fn digit_str(d: usize) -> (s: &'static str)
    requires
        d < 10,
    ensures
        s@ == seq![digit(d as nat)],
{
    proof {
        reveal_strlit("0");
        reveal_strlit("1");
        reveal_strlit("2");
        reveal_strlit("3");
        reveal_strlit("4");
        reveal_strlit("5");
        reveal_strlit("6");
        reveal_strlit("7");
        reveal_strlit("8");
        reveal_strlit("9");
    }
    let s = if d == 0 {
        "0"
    } else if d == 1 {
        "1"
    } else if d == 2 {
        "2"
    } else if d == 3 {
        "3"
    } else if d == 4 {
        "4"
    } else if d == 5 {
        "5"
    } else if d == 6 {
        "6"
    } else if d == 7 {
        "7"
    } else if d == 8 {
        "8"
    } else {
        "9"
    };
    assert(s@ =~= seq![digit(d as nat)]);
    s
}

/// Appends `n` in decimal to `text`.
pub fn append_decimal(text: &mut String, n: usize)
    ensures
        final(text)@ == old(text)@ + decimal(n as nat),
    decreases n,
{
    if n >= 10 {
        append_decimal(text, n / 10);
    }
    text.append(digit_str(n % 10));
    assert(final(text)@ =~= old(text)@ + decimal(n as nat));
}

/// The complaint about a rule without backends.
pub open spec fn no_backends_message(name: Seq<char>, index: nat) -> Seq<char> {
    "Rule '"@ + name + "' (index "@ + decimal(index) + ") has no backends"@
}

/// The complaint about a rule without a listen address.
pub open spec fn no_listen_message(name: Seq<char>) -> Seq<char> {
    "Rule '"@ + name + "' has no listen address"@
}

impl LBRule {
    /// What is wrong with this rule, standing at place `index`, if anything:
    /// it has no backends, or else it has no listen address.
    pub open spec fn fault(self, index: nat) -> Option<Seq<char>> {
        if self.backends@.len() == 0 {
            Some(no_backends_message(self.name@, index))
        } else if self.listen@.len() == 0 {
            Some(no_listen_message(self.name@))
        } else {
            None
        }
    }
}

impl Config {
    /// Whether the first `n` rules are without fault.
    pub open spec fn sound_up_to(self, n: int) -> bool {
        forall|j: int| 0 <= j < n ==> (#[trigger] self.rules@[j]).fault(j as nat) is None
    }

    /// Accepts a configuration that has at least one rule and in which every
    /// rule has a backend and a listen address; otherwise reports the first
    /// thing that is wrong.
    pub fn validate(&self) -> (res: Result<(), ConfigError>)
        ensures
            match res {
                Ok(()) => self.rules@.len() > 0 && self.sound_up_to(self.rules@.len() as int),
                Err(ConfigError::MissingField(m)) => self.rules@.len() == 0 && m@
                    == "rules are empty"@,
                Err(ConfigError::InvalidValue(m)) => exists|i: int|
                    0 <= i < self.rules@.len() && self.sound_up_to(i) && (
                    #[trigger] self.rules@[i]).fault(i as nat) == Some(m@),
            },
    {
        if self.rules.len() == 0 {
            return Err(ConfigError::MissingField(String::from_str("rules are empty")));
        }
        let mut i: usize = 0;
        while i < self.rules.len()
            invariant
                i <= self.rules@.len(),
                self.sound_up_to(i as int),
            decreases self.rules@.len() - i,
        {
            let rule = &self.rules[i];
            if rule.backends.len() == 0 {
                let mut m = String::from_str("Rule '");
                m.append(rule.name.as_str());
                m.append("' (index ");
                append_decimal(&mut m, i);
                m.append(") has no backends");
                assert(self.rules@[i as int].fault(i as nat) == Some(m@));
                return Err(ConfigError::InvalidValue(m));
            }
            if rule.listen.as_str().is_empty() {
                let mut m = String::from_str("Rule '");
                m.append(rule.name.as_str());
                m.append("' has no listen address");
                assert(self.rules@[i as int].fault(i as nat) == Some(m@));
                return Err(ConfigError::InvalidValue(m));
            }
            i = i + 1;
        }
        Ok(())
    }
}

} // verus!
