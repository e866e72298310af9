//! Per-instance configuration: listen and destination endpoints, protocol
//! selection, timeouts, log verbosity and the optional IP access filter,
//! together with the validation rules and the admission predicate.

use vstd::prelude::*;
use crate::addr::IpAddress;

verus! {

/// Which transport protocols an instance forwards.
#[derive(Clone, Copy, PartialEq, Eq, Structural, Debug)]
pub enum Protocol {
    Tcp,
    Udp,
    Both,
}

/// Log verbosity selector.
#[derive(Clone, Copy, PartialEq, Eq, Structural, Debug)]
pub enum LogLevel {
    Error,
    Warn,
    Info,
    Debug,
    Trace,
}

/// Access filter: at most one of the two lists may be present in a valid
/// configuration, and a present list must be non-empty and duplicate-free.
#[derive(Debug)]
pub struct IpFilterConfig {
    pub allow_list: Option<Vec<IpAddress>>,
    pub deny_list: Option<Vec<IpAddress>>,
}

/// Core forwarding settings of one instance.
#[derive(Debug)]
pub struct ProxyConfig {
    pub listen_ip: IpAddress,
    pub listen_port: u16,
    pub dst_ip: IpAddress,
    pub dst_port: u16,
    pub protocol: Protocol,
    pub connect_timeout_secs: u64,
    pub idle_timeout_secs: u64,
    pub log_level: String,
}

/// Full configuration of one instance.
#[derive(Debug)]
pub struct Config {
    pub proxy: ProxyConfig,
    pub ip_filter: Option<IpFilterConfig>,
}

/// Mathematical image of an access filter.
pub struct IpFilterConfigView {
    pub allow_list: Option<Seq<IpAddress>>,
    pub deny_list: Option<Seq<IpAddress>>,
}

/// Mathematical image of the core forwarding settings.
pub struct ProxyConfigView {
    pub listen_ip: IpAddress,
    pub listen_port: u16,
    pub dst_ip: IpAddress,
    pub dst_port: u16,
    pub protocol: Protocol,
    pub connect_timeout_secs: u64,
    pub idle_timeout_secs: u64,
    pub log_level: Seq<char>,
}

/// Mathematical image of a full configuration.
pub struct ConfigView {
    pub proxy: ProxyConfigView,
    pub ip_filter: Option<IpFilterConfigView>,
}

/// The image of an optional address list.
pub open spec fn ip_list_view(l: Option<Vec<IpAddress>>) -> Option<Seq<IpAddress>> {
    match l {
        Some(v) => Some(v@),
        None => None,
    }
}

impl View for IpFilterConfig {
    type V = IpFilterConfigView;

    open spec fn view(&self) -> IpFilterConfigView {
        IpFilterConfigView {
            allow_list: ip_list_view(self.allow_list),
            deny_list: ip_list_view(self.deny_list),
        }
    }
}

impl View for ProxyConfig {
    type V = ProxyConfigView;

    open spec fn view(&self) -> ProxyConfigView {
        ProxyConfigView {
            listen_ip: self.listen_ip,
            listen_port: self.listen_port,
            dst_ip: self.dst_ip,
            dst_port: self.dst_port,
            protocol: self.protocol,
            connect_timeout_secs: self.connect_timeout_secs,
            idle_timeout_secs: self.idle_timeout_secs,
            log_level: self.log_level@,
        }
    }
}

impl View for Config {
    type V = ConfigView;

    open spec fn view(&self) -> ConfigView {
        ConfigView {
            proxy: self.proxy@,
            ip_filter: match self.ip_filter {
                Some(f) => Some(f@),
                None => None,
            },
        }
    }
}

/// Why a configuration was rejected.
#[derive(Clone, Copy, PartialEq, Eq, Structural, Debug)]
pub enum ValidationError {
    ListenPortZero,
    DestinationPortZero,
    ConnectTimeoutZero,
    IdleTimeoutZero,
    ConnectTimeoutTooLarge,
    IdleTimeoutTooLarge,
    InvalidLogLevel,
    SameListenAndDestination,
    EmptyAllowList,
    DuplicateAllowIp,
    EmptyDenyList,
    DuplicateDenyIp,
    BothAllowAndDeny,
}

impl ValidationError {
    /// The human-readable message for each rejection.
    pub open spec fn spec_message(self) -> Seq<char> {
        match self {
            ValidationError::ListenPortZero => "Listen port cannot be 0"@,
            ValidationError::DestinationPortZero => "Destination port cannot be 0"@,
            ValidationError::ConnectTimeoutZero => "Connect timeout must be greater than 0"@,
            ValidationError::IdleTimeoutZero => "Idle timeout must be greater than 0"@,
            ValidationError::ConnectTimeoutTooLarge => "Connect timeout cannot exceed 300 seconds"@,
            ValidationError::IdleTimeoutTooLarge => "Idle timeout cannot exceed 3600 seconds"@,
            ValidationError::InvalidLogLevel => "Invalid log level"@,
            ValidationError::SameListenAndDestination => "Listen and destination cannot be the same address and port"@,
            ValidationError::EmptyAllowList => "Allow list cannot be empty"@,
            ValidationError::DuplicateAllowIp => "Duplicate IP address in allow list"@,
            ValidationError::EmptyDenyList => "Deny list cannot be empty"@,
            ValidationError::DuplicateDenyIp => "Duplicate IP address in deny list"@,
            ValidationError::BothAllowAndDeny => "Cannot specify both allow_list and deny_list"@,
        }
    }

    /// The human-readable message for each rejection.
    pub fn message(&self) -> (r: String)
        ensures
            r@ == self.spec_message(),
    {
        match self {
            ValidationError::ListenPortZero => "Listen port cannot be 0".to_owned(),
            ValidationError::DestinationPortZero => "Destination port cannot be 0".to_owned(),
            ValidationError::ConnectTimeoutZero => "Connect timeout must be greater than 0".to_owned(),
            ValidationError::IdleTimeoutZero => "Idle timeout must be greater than 0".to_owned(),
            ValidationError::ConnectTimeoutTooLarge => "Connect timeout cannot exceed 300 seconds".to_owned(),
            ValidationError::IdleTimeoutTooLarge => "Idle timeout cannot exceed 3600 seconds".to_owned(),
            ValidationError::InvalidLogLevel => "Invalid log level".to_owned(),
            ValidationError::SameListenAndDestination => "Listen and destination cannot be the same address and port".to_owned(),
            ValidationError::EmptyAllowList => "Allow list cannot be empty".to_owned(),
            ValidationError::DuplicateAllowIp => "Duplicate IP address in allow list".to_owned(),
            ValidationError::EmptyDenyList => "Deny list cannot be empty".to_owned(),
            ValidationError::DuplicateDenyIp => "Duplicate IP address in deny list".to_owned(),
            ValidationError::BothAllowAndDeny => "Cannot specify both allow_list and deny_list".to_owned(),
        }
    }
}

/// Whether a sequence holds the same address twice.
pub open spec fn has_duplicate(s: Seq<IpAddress>) -> bool {
    exists|i: int, j: int| 0 <= i < j < s.len() && s[i] == s[j]
}

/// The recognised log verbosity names.
pub open spec fn valid_log_level_name(s: Seq<char>) -> bool {
    ||| s == "error"@
    ||| s == "warn"@
    ||| s == "info"@
    ||| s == "debug"@
    ||| s == "trace"@
}

impl ConfigView {
    /// The validation rules, applied in order; the first failing rule names
    /// the error.
    pub open spec fn spec_validate(self) -> Result<(), ValidationError> {
        if self.proxy.listen_port == 0 {
            Err(ValidationError::ListenPortZero)
        } else if self.proxy.dst_port == 0 {
            Err(ValidationError::DestinationPortZero)
        } else if self.proxy.connect_timeout_secs == 0 {
            Err(ValidationError::ConnectTimeoutZero)
        } else if self.proxy.idle_timeout_secs == 0 {
            Err(ValidationError::IdleTimeoutZero)
        } else if self.proxy.connect_timeout_secs > 300 {
            Err(ValidationError::ConnectTimeoutTooLarge)
        } else if self.proxy.idle_timeout_secs > 3600 {
            Err(ValidationError::IdleTimeoutTooLarge)
        } else if !valid_log_level_name(self.proxy.log_level) {
            Err(ValidationError::InvalidLogLevel)
        } else if self.proxy.listen_port == self.proxy.dst_port && self.proxy.listen_ip == self.proxy.dst_ip {
            Err(ValidationError::SameListenAndDestination)
        } else {
            match self.ip_filter {
                Some(filter) => {
                    if filter.allow_list is Some && filter.allow_list->0.len() == 0 {
                        Err(ValidationError::EmptyAllowList)
                    } else if filter.allow_list is Some && has_duplicate(filter.allow_list->0) {
                        Err(ValidationError::DuplicateAllowIp)
                    } else if filter.deny_list is Some && filter.deny_list->0.len() == 0 {
                        Err(ValidationError::EmptyDenyList)
                    } else if filter.deny_list is Some && has_duplicate(filter.deny_list->0) {
                        Err(ValidationError::DuplicateDenyIp)
                    } else if filter.allow_list is Some && filter.deny_list is Some {
                        Err(ValidationError::BothAllowAndDeny)
                    } else {
                        Ok(())
                    }
                },
                None => Ok(()),
            }
        }
    }

    /// A configuration is valid when no rule rejects it.
    pub open spec fn is_valid(self) -> bool {
        self.spec_validate() is Ok
    }

    /// The admission decision for a peer address: with an allow list only its
    /// members are admitted; with a deny list exactly its members are
    /// rejected; with no filter everyone is admitted.
    pub open spec fn spec_is_ip_allowed(self, ip: IpAddress) -> bool {
        match self.ip_filter {
            Some(filter) => {
                if filter.allow_list is Some {
                    filter.allow_list->0.contains(ip)
                } else if filter.deny_list is Some {
                    !filter.deny_list->0.contains(ip)
                } else {
                    true
                }
            },
            None => true,
        }
    }
}

impl Config {
    /// Check the configuration against the validation rules.
    pub fn validate(&self) -> (r: Result<(), ValidationError>)
        ensures
            r == self@.spec_validate(),
    {
        if self.proxy.listen_port == 0 {
            return Err(ValidationError::ListenPortZero);
        }
        if self.proxy.dst_port == 0 {
            return Err(ValidationError::DestinationPortZero);
        }
        if self.proxy.connect_timeout_secs == 0 {
            return Err(ValidationError::ConnectTimeoutZero);
        }
        if self.proxy.idle_timeout_secs == 0 {
            return Err(ValidationError::IdleTimeoutZero);
        }
        if self.proxy.connect_timeout_secs > 300 {
            return Err(ValidationError::ConnectTimeoutTooLarge);
        }
        if self.proxy.idle_timeout_secs > 3600 {
            return Err(ValidationError::IdleTimeoutTooLarge);
        }
        if !is_valid_log_level(&self.proxy.log_level) {
            return Err(ValidationError::InvalidLogLevel);
        }
        if self.proxy.listen_port == self.proxy.dst_port && self.proxy.listen_ip == self.proxy.dst_ip {
            return Err(ValidationError::SameListenAndDestination);
        }
        match &self.ip_filter {
            Some(filter) => {
                if let Some(allow) = &filter.allow_list {
                    if allow.len() == 0 {
                        return Err(ValidationError::EmptyAllowList);
                    }
                    if contains_duplicate(allow) {
                        return Err(ValidationError::DuplicateAllowIp);
                    }
                }
                if let Some(deny) = &filter.deny_list {
                    if deny.len() == 0 {
                        return Err(ValidationError::EmptyDenyList);
                    }
                    if contains_duplicate(deny) {
                        return Err(ValidationError::DuplicateDenyIp);
                    }
                }
                if filter.allow_list.is_some() && filter.deny_list.is_some() {
                    return Err(ValidationError::BothAllowAndDeny);
                }
                Ok(())
            },
            None => Ok(()),
        }
    }

    /// Decide whether a peer address is admitted by the instance's filter.
    pub fn is_ip_allowed(&self, ip: &IpAddress) -> (r: bool)
        ensures
            r == self@.spec_is_ip_allowed(*ip),
    {
        match &self.ip_filter {
            Some(filter) => {
                if let Some(allow) = &filter.allow_list {
                    list_contains(allow, ip)
                } else if let Some(deny) = &filter.deny_list {
                    !list_contains(deny, ip)
                } else {
                    true
                }
            },
            None => true,
        }
    }

    /// An exact copy of the configuration.
    pub fn duplicate(&self) -> (r: Config)
        ensures
            r@ == self@,
    {
        Config {
            proxy: ProxyConfig {
                listen_ip: self.proxy.listen_ip,
                listen_port: self.proxy.listen_port,
                dst_ip: self.proxy.dst_ip,
                dst_port: self.proxy.dst_port,
                protocol: self.proxy.protocol,
                connect_timeout_secs: self.proxy.connect_timeout_secs,
                idle_timeout_secs: self.proxy.idle_timeout_secs,
                log_level: self.proxy.log_level.clone(),
            },
            ip_filter: match &self.ip_filter {
                Some(filter) => Some(IpFilterConfig {
                    allow_list: copy_ip_list(&filter.allow_list),
                    deny_list: copy_ip_list(&filter.deny_list),
                }),
                None => None,
            },
        }
    }
}

/// A valid configuration never carries both an allow list and a deny list.
pub proof fn lemma_valid_filter_exclusive(c: ConfigView)
    requires
        c.is_valid(),
    ensures
        c.ip_filter matches Some(f) ==> !(f.allow_list is Some && f.deny_list is Some),
{
}

/// Whether a vector of addresses contains the given one.
pub fn list_contains(list: &Vec<IpAddress>, ip: &IpAddress) -> (r: bool)
    ensures
        r == list@.contains(*ip),
{
    let n = list.len();
    let mut i: usize = 0;
    while i < n
        invariant
            n == list@.len(),
            0 <= i <= n,
            forall|k: int| 0 <= k < i ==> list@[k] != *ip,
        decreases n - i,
    {
        if list[i] == *ip {
            return true;
        }
        i = i + 1;
    }
    false
}

/// Whether a vector of addresses holds the same address twice.
pub fn contains_duplicate(list: &Vec<IpAddress>) -> (r: bool)
    ensures
        r == has_duplicate(list@),
{
    let n = list.len();
    let mut i: usize = 0;
    while i < n
        invariant
            n == list@.len(),
            0 <= i <= n,
            forall|a: int, b: int| 0 <= a < b < n && a < i ==> list@[a] != list@[b],
        decreases n - i,
    {
        let mut j: usize = i + 1;
        while j < n
            invariant
                n == list@.len(),
                0 <= i < j <= n,
                forall|b: int| i < b < j ==> list@[i as int] != list@[b],
            decreases n - j,
        {
            if list[i] == list[j] {
                return true;
            }
            j = j + 1;
        }
        i = i + 1;
    }
    false
}

/// An element-wise copy of an address list.
pub fn copy_ips(list: &Vec<IpAddress>) -> (r: Vec<IpAddress>)
    ensures
        r@ == list@,
{
    let n = list.len();
    let mut r: Vec<IpAddress> = Vec::new();
    let mut i: usize = 0;
    while i < n
        invariant
            n == list@.len(),
            0 <= i <= n,
            r@ == list@.take(i as int),
        decreases n - i,
    {
        r.push(list[i]);
        proof {
            assert(r@ =~= list@.take(i + 1));
        }
        i = i + 1;
    }
    proof {
        assert(r@ =~= list@);
    }
    r
}

/// An element-wise copy of an optional address list.
pub fn copy_ip_list(list: &Option<Vec<IpAddress>>) -> (r: Option<Vec<IpAddress>>)
    ensures
        ip_list_view(r) == ip_list_view(*list),
{
    match list {
        Some(v) => Some(copy_ips(v)),
        None => None,
    }
}

/// Whether the string is one of the recognised log verbosity names.
pub fn is_valid_log_level(s: &String) -> (r: bool)
    ensures
        r == valid_log_level_name(s@),
{
    string_eq_literal(s, "error") || string_eq_literal(s, "warn") || string_eq_literal(s, "info")
        || string_eq_literal(s, "debug") || string_eq_literal(s, "trace")
}

/// Compare a string against a literal.
pub fn string_eq_literal(s: &String, lit: &str) -> (r: bool)
    ensures
        r == (s@ == lit@),
{
    let other: String = lit.to_owned();
    s.eq(&other)
}

} // verus!
