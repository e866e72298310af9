//! Proxy instances: the definition record, its lifecycle state machine, and
//! the request shapes used to create and update instances.

use vstd::prelude::*;
use crate::addr::IpAddress;
use crate::config::Config;
use crate::config::ConfigView;
use crate::config::IpFilterConfig;
use crate::config::IpFilterConfigView;
use crate::config::LogLevel;
use crate::config::Protocol;
use crate::config::ProxyConfig;
use crate::config::ProxyConfigView;
use crate::config::copy_ip_list;
use crate::config::ip_list_view;
use crate::metrics::InstanceMetrics;

verus! {

/// Lifecycle state of an instance. Only the supervisor changes it.
#[derive(Clone, Copy, PartialEq, Eq, Structural, Debug)]
pub enum InstanceStatus {
    Stopped,
    Running,
    Error,
    Starting,
    Stopping,
}

/// The edges of the lifecycle diagram: starting an instance passes through
/// Starting, stopping through Stopping, a failed start lands in Error, and a
/// reset brings Error back to Stopped. There is no one-step path between
/// Stopped and Running.
pub open spec fn status_step_allowed(from: InstanceStatus, to: InstanceStatus) -> bool {
    ||| (from == InstanceStatus::Stopped && to == InstanceStatus::Starting)
    ||| (from == InstanceStatus::Starting && to == InstanceStatus::Running)
    ||| (from == InstanceStatus::Running && to == InstanceStatus::Stopping)
    ||| (from == InstanceStatus::Stopping && to == InstanceStatus::Stopped)
    ||| (from == InstanceStatus::Starting && to == InstanceStatus::Error)
    ||| (from == InstanceStatus::Error && to == InstanceStatus::Stopped)
}

/// The lifecycle diagram has no direct Stopped-to-Running edge and no direct
/// Running-to-Stopped edge: every start passes through Starting and every
/// stop through Stopping.
pub proof fn lemma_no_status_shortcut()
    ensures
        !status_step_allowed(InstanceStatus::Stopped, InstanceStatus::Running),
        !status_step_allowed(InstanceStatus::Running, InstanceStatus::Stopped),
{
}

/// Relies on uuid::Uuid::new_v4 and uuid::Uuid::as_u128: a freshly generated
/// random UUID as its 128-bit value. The value is random, so nothing is
/// promised of it.
#[verifier::external_body]
pub(crate) fn fresh_uuid_value() -> u128 {
    uuid::Uuid::new_v4().as_u128()
}

/// Relies on chrono::Utc::now and chrono::DateTime::timestamp: the current
/// wall-clock time as seconds since the Unix epoch. The value depends on the
/// clock, so nothing is promised of it.
#[verifier::external_body]
pub(crate) fn unix_now_seconds() -> i64 {
    chrono::Utc::now().timestamp()
}

/// A configured instance: identity, profile, lifecycle state and counters.
#[derive(Debug)]
pub struct ProxyInstance {
    pub id: u128,
    pub name: String,
    pub config: Config,
    pub status: InstanceStatus,
    pub created_at: i64,
    pub started_at: Option<i64>,
    pub auto_start: bool,
    pub metrics: InstanceMetrics,
}

/// Mathematical image of an instance.
pub struct ProxyInstanceView {
    pub id: u128,
    pub name: Seq<char>,
    pub config: ConfigView,
    pub status: InstanceStatus,
    pub created_at: i64,
    pub started_at: Option<i64>,
    pub auto_start: bool,
    pub metrics: InstanceMetrics,
}

impl View for ProxyInstance {
    type V = ProxyInstanceView;

    open spec fn view(&self) -> ProxyInstanceView {
        ProxyInstanceView {
            id: self.id,
            name: self.name@,
            config: self.config@,
            status: self.status,
            created_at: self.created_at,
            started_at: self.started_at,
            auto_start: self.auto_start,
            metrics: self.metrics,
        }
    }
}

impl ProxyInstance {
    /// A new instance around the given configuration: fresh identity, created
    /// now, stopped, with zeroed counters.
    pub fn new(name: String, config: Config, auto_start: bool) -> (r: ProxyInstance)
        ensures
            r@.name == name@,
            r@.config == config@,
            r@.status == InstanceStatus::Stopped,
            r@.started_at is None,
            r@.auto_start == auto_start,
            r@.metrics == InstanceMetrics::spec_zero(),
    {
        ProxyInstance {
            id: fresh_uuid_value(),
            name,
            config,
            status: InstanceStatus::Stopped,
            created_at: unix_now_seconds(),
            started_at: None,
            auto_start,
            metrics: InstanceMetrics::new(),
        }
    }

    /// Begin starting: Stopped becomes Starting and the start time is
    /// recorded.
    pub fn start(&mut self)
        requires
            old(self)@.status == InstanceStatus::Stopped,
        ensures
            final(self)@.started_at is Some,
            final(self)@ == (ProxyInstanceView {
                status: InstanceStatus::Starting,
                started_at: final(self)@.started_at,
                ..old(self)@
            }),
            status_step_allowed(old(self)@.status, final(self)@.status),
    {
        self.status = InstanceStatus::Starting;
        self.started_at = Some(unix_now_seconds());
    }

    /// Complete a start: Starting becomes Running.
    pub fn set_running(&mut self)
        requires
            old(self)@.status == InstanceStatus::Starting,
        ensures
            final(self)@ == (ProxyInstanceView { status: InstanceStatus::Running, ..old(self)@ }),
            status_step_allowed(old(self)@.status, final(self)@.status),
    {
        self.status = InstanceStatus::Running;
    }

    /// Record a failed start: Starting becomes Error.
    pub fn set_error(&mut self)
        requires
            old(self)@.status == InstanceStatus::Starting,
        ensures
            final(self)@ == (ProxyInstanceView { status: InstanceStatus::Error, ..old(self)@ }),
            status_step_allowed(old(self)@.status, final(self)@.status),
    {
        self.status = InstanceStatus::Error;
    }

    /// Begin stopping: Running becomes Stopping and the start time is
    /// cleared.
    pub fn stop(&mut self)
        requires
            old(self)@.status == InstanceStatus::Running,
        ensures
            final(self)@ == (ProxyInstanceView {
                status: InstanceStatus::Stopping,
                started_at: None,
                ..old(self)@
            }),
            status_step_allowed(old(self)@.status, final(self)@.status),
    {
        self.status = InstanceStatus::Stopping;
        self.started_at = None;
    }

    /// Complete a stop, or reset a failed instance: Stopping or Error becomes
    /// Stopped.
    pub fn set_stopped(&mut self)
        requires
            old(self)@.status == InstanceStatus::Stopping || old(self)@.status == InstanceStatus::Error,
        ensures
            final(self)@ == (ProxyInstanceView { status: InstanceStatus::Stopped, ..old(self)@ }),
            status_step_allowed(old(self)@.status, final(self)@.status),
    {
        self.status = InstanceStatus::Stopped;
    }

    /// An exact copy of the instance record.
    pub fn duplicate(&self) -> (r: ProxyInstance)
        ensures
            r@ == self@,
    {
        ProxyInstance {
            id: self.id,
            name: self.name.clone(),
            config: self.config.duplicate(),
            status: self.status,
            created_at: self.created_at,
            started_at: self.started_at,
            auto_start: self.auto_start,
            metrics: self.metrics,
        }
    }
}

/// Request to create an instance, with addresses already in their numeric
/// form.
#[derive(Debug)]
pub struct CreateInstanceRequest {
    pub name: String,
    pub listen_ip: IpAddress,
    pub listen_port: u16,
    pub dst_ip: IpAddress,
    pub dst_port: u16,
    pub protocol: Protocol,
    pub auto_start: bool,
    pub allow_list: Option<Vec<IpAddress>>,
    pub deny_list: Option<Vec<IpAddress>>,
    pub connect_timeout_secs: u64,
    pub idle_timeout_secs: u64,
    pub log_level: LogLevel,
}

/// Mathematical image of a creation request.
pub struct CreateInstanceRequestView {
    pub name: Seq<char>,
    pub listen_ip: IpAddress,
    pub listen_port: u16,
    pub dst_ip: IpAddress,
    pub dst_port: u16,
    pub protocol: Protocol,
    pub auto_start: bool,
    pub allow_list: Option<Seq<IpAddress>>,
    pub deny_list: Option<Seq<IpAddress>>,
    pub connect_timeout_secs: u64,
    pub idle_timeout_secs: u64,
    pub log_level: LogLevel,
}

impl View for CreateInstanceRequest {
    type V = CreateInstanceRequestView;

    open spec fn view(&self) -> CreateInstanceRequestView {
        CreateInstanceRequestView {
            name: self.name@,
            listen_ip: self.listen_ip,
            listen_port: self.listen_port,
            dst_ip: self.dst_ip,
            dst_port: self.dst_port,
            protocol: self.protocol,
            auto_start: self.auto_start,
            allow_list: ip_list_view(self.allow_list),
            deny_list: ip_list_view(self.deny_list),
            connect_timeout_secs: self.connect_timeout_secs,
            idle_timeout_secs: self.idle_timeout_secs,
            log_level: self.log_level,
        }
    }
}

/// The display name of a log verbosity level.
pub open spec fn spec_log_level_name(l: LogLevel) -> Seq<char> {
    match l {
        LogLevel::Error => "error"@,
        LogLevel::Warn => "warn"@,
        LogLevel::Info => "info"@,
        LogLevel::Debug => "debug"@,
        LogLevel::Trace => "trace"@,
    }
}

/// The display name of a log verbosity level.
pub fn log_level_name(l: LogLevel) -> (r: String)
    ensures
        r@ == spec_log_level_name(l),
{
    match l {
        LogLevel::Error => "error".to_owned(),
        LogLevel::Warn => "warn".to_owned(),
        LogLevel::Info => "info".to_owned(),
        LogLevel::Debug => "debug".to_owned(),
        LogLevel::Trace => "trace".to_owned(),
    }
}

impl CreateInstanceRequestView {
    /// The configuration a creation request denotes: the filter is present
    /// exactly when one of the lists is given.
    pub open spec fn spec_to_config(self) -> ConfigView {
        ConfigView {
            proxy: ProxyConfigView {
                listen_ip: self.listen_ip,
                listen_port: self.listen_port,
                dst_ip: self.dst_ip,
                dst_port: self.dst_port,
                protocol: self.protocol,
                connect_timeout_secs: self.connect_timeout_secs,
                idle_timeout_secs: self.idle_timeout_secs,
                log_level: spec_log_level_name(self.log_level),
            },
            ip_filter: if self.allow_list is Some || self.deny_list is Some {
                Some(IpFilterConfigView { allow_list: self.allow_list, deny_list: self.deny_list })
            } else {
                None
            },
        }
    }
}

impl CreateInstanceRequest {
    /// Build the configuration the request denotes.
    pub fn to_config(&self) -> (r: Config)
        ensures
            r@ == self@.spec_to_config(),
    {
        Config {
            proxy: ProxyConfig {
                listen_ip: self.listen_ip,
                listen_port: self.listen_port,
                dst_ip: self.dst_ip,
                dst_port: self.dst_port,
                protocol: self.protocol,
                connect_timeout_secs: self.connect_timeout_secs,
                idle_timeout_secs: self.idle_timeout_secs,
                log_level: log_level_name(self.log_level),
            },
            ip_filter: if self.allow_list.is_some() || self.deny_list.is_some() {
                Some(IpFilterConfig {
                    allow_list: copy_ip_list(&self.allow_list),
                    deny_list: copy_ip_list(&self.deny_list),
                })
            } else {
                None
            },
        }
    }
}

/// Partial update of an instance: only the given fields change.
#[derive(Debug)]
pub struct UpdateInstanceRequest {
    pub name: Option<String>,
    pub listen_ip: Option<IpAddress>,
    pub listen_port: Option<u16>,
    pub dst_ip: Option<IpAddress>,
    pub dst_port: Option<u16>,
    pub protocol: Option<Protocol>,
    pub auto_start: Option<bool>,
    pub allow_list: Option<Vec<IpAddress>>,
    pub deny_list: Option<Vec<IpAddress>>,
    pub connect_timeout_secs: Option<u64>,
    pub idle_timeout_secs: Option<u64>,
    pub log_level: Option<LogLevel>,
}

/// Mathematical image of a partial update.
pub struct UpdateInstanceRequestView {
    pub name: Option<Seq<char>>,
    pub listen_ip: Option<IpAddress>,
    pub listen_port: Option<u16>,
    pub dst_ip: Option<IpAddress>,
    pub dst_port: Option<u16>,
    pub protocol: Option<Protocol>,
    pub auto_start: Option<bool>,
    pub allow_list: Option<Seq<IpAddress>>,
    pub deny_list: Option<Seq<IpAddress>>,
    pub connect_timeout_secs: Option<u64>,
    pub idle_timeout_secs: Option<u64>,
    pub log_level: Option<LogLevel>,
}

impl View for UpdateInstanceRequest {
    type V = UpdateInstanceRequestView;

    open spec fn view(&self) -> UpdateInstanceRequestView {
        UpdateInstanceRequestView {
            name: match self.name {
                Some(n) => Some(n@),
                None => None,
            },
            listen_ip: self.listen_ip,
            listen_port: self.listen_port,
            dst_ip: self.dst_ip,
            dst_port: self.dst_port,
            protocol: self.protocol,
            auto_start: self.auto_start,
            allow_list: ip_list_view(self.allow_list),
            deny_list: ip_list_view(self.deny_list),
            connect_timeout_secs: self.connect_timeout_secs,
            idle_timeout_secs: self.idle_timeout_secs,
            log_level: self.log_level,
        }
    }
}

impl UpdateInstanceRequestView {
    /// The instance after the patch: each given field replaces the old value;
    /// giving either address list replaces the whole filter; identity, state
    /// and counters stay.
    pub open spec fn spec_apply(self, i: ProxyInstanceView) -> ProxyInstanceView {
        ProxyInstanceView {
            name: if self.name is Some {
                self.name->0
            } else {
                i.name
            },
            config: ConfigView {
                proxy: ProxyConfigView {
                    listen_ip: if self.listen_ip is Some {
                        self.listen_ip->0
                    } else {
                        i.config.proxy.listen_ip
                    },
                    listen_port: if self.listen_port is Some {
                        self.listen_port->0
                    } else {
                        i.config.proxy.listen_port
                    },
                    dst_ip: if self.dst_ip is Some {
                        self.dst_ip->0
                    } else {
                        i.config.proxy.dst_ip
                    },
                    dst_port: if self.dst_port is Some {
                        self.dst_port->0
                    } else {
                        i.config.proxy.dst_port
                    },
                    protocol: if self.protocol is Some {
                        self.protocol->0
                    } else {
                        i.config.proxy.protocol
                    },
                    connect_timeout_secs: if self.connect_timeout_secs is Some {
                        self.connect_timeout_secs->0
                    } else {
                        i.config.proxy.connect_timeout_secs
                    },
                    idle_timeout_secs: if self.idle_timeout_secs is Some {
                        self.idle_timeout_secs->0
                    } else {
                        i.config.proxy.idle_timeout_secs
                    },
                    log_level: if self.log_level is Some {
                        spec_log_level_name(self.log_level->0)
                    } else {
                        i.config.proxy.log_level
                    },
                },
                ip_filter: if self.allow_list is Some || self.deny_list is Some {
                    Some(IpFilterConfigView { allow_list: self.allow_list, deny_list: self.deny_list })
                } else {
                    i.config.ip_filter
                },
            },
            auto_start: if self.auto_start is Some {
                self.auto_start->0
            } else {
                i.auto_start
            },
            ..i
        }
    }
}

impl UpdateInstanceRequest {
    /// Apply the patch to an instance in place.
    #[verifier::rlimit(50)]
    pub fn apply_to(&self, instance: &mut ProxyInstance)
        ensures
            final(instance)@ == self@.spec_apply(old(instance)@),
    {
        if let Some(name) = &self.name {
            instance.name = name.clone();
        }
        if let Some(listen_ip) = self.listen_ip {
            instance.config.proxy.listen_ip = listen_ip;
        }
        if let Some(listen_port) = self.listen_port {
            instance.config.proxy.listen_port = listen_port;
        }
        if let Some(dst_ip) = self.dst_ip {
            instance.config.proxy.dst_ip = dst_ip;
        }
        if let Some(dst_port) = self.dst_port {
            instance.config.proxy.dst_port = dst_port;
        }
        if let Some(protocol) = self.protocol {
            instance.config.proxy.protocol = protocol;
        }
        if let Some(auto_start) = self.auto_start {
            instance.auto_start = auto_start;
        }
        if self.allow_list.is_some() || self.deny_list.is_some() {
            instance.config.ip_filter = Some(IpFilterConfig {
                allow_list: copy_ip_list(&self.allow_list),
                deny_list: copy_ip_list(&self.deny_list),
            });
        }
        if let Some(connect_timeout_secs) = self.connect_timeout_secs {
            instance.config.proxy.connect_timeout_secs = connect_timeout_secs;
        }
        if let Some(idle_timeout_secs) = self.idle_timeout_secs {
            instance.config.proxy.idle_timeout_secs = idle_timeout_secs;
        }
        if let Some(log_level) = self.log_level {
            instance.config.proxy.log_level = log_level_name(log_level);
        }
    }
}

/// Request to create an instance as the control surface receives it, with
/// addresses still in text.
#[derive(Debug)]
pub struct CreateInstanceRequestStrings {
    pub name: String,
    pub listen_ip: String,
    pub listen_port: u16,
    pub dst_ip: String,
    pub dst_port: u16,
    pub protocol: Protocol,
    pub auto_start: bool,
    pub allow_list: Option<Vec<String>>,
    pub deny_list: Option<Vec<String>>,
    pub connect_timeout_secs: u64,
    pub idle_timeout_secs: u64,
    pub log_level: String,
}

/// Mathematical image of a textual creation request.
pub struct CreateInstanceRequestStringsView {
    pub name: Seq<char>,
    pub listen_ip: Seq<char>,
    pub listen_port: u16,
    pub dst_ip: Seq<char>,
    pub dst_port: u16,
    pub protocol: Protocol,
    pub auto_start: bool,
    pub allow_list: Option<Seq<Seq<char>>>,
    pub deny_list: Option<Seq<Seq<char>>>,
    pub connect_timeout_secs: u64,
    pub idle_timeout_secs: u64,
    pub log_level: Seq<char>,
}

/// The image of an optional list of strings.
pub open spec fn string_list_view(l: Option<Vec<String>>) -> Option<Seq<Seq<char>>> {
    match l {
        Some(v) => Some(v@.map_values(|s: String| s@)),
        None => None,
    }
}

impl View for CreateInstanceRequestStrings {
    type V = CreateInstanceRequestStringsView;

    open spec fn view(&self) -> CreateInstanceRequestStringsView {
        CreateInstanceRequestStringsView {
            name: self.name@,
            listen_ip: self.listen_ip@,
            listen_port: self.listen_port,
            dst_ip: self.dst_ip@,
            dst_port: self.dst_port,
            protocol: self.protocol,
            auto_start: self.auto_start,
            allow_list: string_list_view(self.allow_list),
            deny_list: string_list_view(self.deny_list),
            connect_timeout_secs: self.connect_timeout_secs,
            idle_timeout_secs: self.idle_timeout_secs,
            log_level: self.log_level@,
        }
    }
}

/// Whether a request character spells the expected lowercase letter, read
/// without regard to ASCII case.
pub open spec fn spec_char_folds_to(a: char, b: char) -> bool {
    a == b || (65 <= a as u32 <= 90 && a as u32 + 32 == b as u32)
}

/// Whether the text spells the name, read without regard to ASCII case.
pub open spec fn spec_level_eq(s: Seq<char>, name: Seq<char>) -> bool {
    s.len() == name.len() && forall|i: int| 0 <= i < s.len() ==> spec_char_folds_to(
        #[trigger] s[i],
        name[i],
    )
}

/// The log verbosity a string names, read without regard to ASCII case.
pub open spec fn spec_parse_log_level(s: Seq<char>) -> Option<LogLevel> {
    if spec_level_eq(s, "error"@) {
        Some(LogLevel::Error)
    } else if spec_level_eq(s, "warn"@) {
        Some(LogLevel::Warn)
    } else if spec_level_eq(s, "info"@) {
        Some(LogLevel::Info)
    } else if spec_level_eq(s, "debug"@) {
        Some(LogLevel::Debug)
    } else if spec_level_eq(s, "trace"@) {
        Some(LogLevel::Trace)
    } else {
        None
    }
}

/// The addresses of a list of strings; one string that is no address rejects
/// the whole list.
pub open spec fn spec_parse_ip_list(l: Seq<Seq<char>>) -> Option<Seq<IpAddress>> {
    if forall|k: int| 0 <= k < l.len() ==> crate::ip_parse::spec_parse_ip(#[trigger] l[k]) is Some {
        Some(l.map_values(|s: Seq<char>| crate::ip_parse::spec_parse_ip(s)->0))
    } else {
        None
    }
}

impl CreateInstanceRequestStringsView {
    /// The typed request the text denotes, or the first failing field: the
    /// listen address, the destination address, each filter list and the log
    /// level are read in that order.
    pub open spec fn spec_to_typed(self) -> Result<CreateInstanceRequestView, Seq<char>> {
        if crate::ip_parse::spec_parse_ip(self.listen_ip) is None {
            Err("Invalid listen IP"@)
        } else if crate::ip_parse::spec_parse_ip(self.dst_ip) is None {
            Err("Invalid destination IP"@)
        } else if self.allow_list matches Some(l) && spec_parse_ip_list(l) is None {
            Err("Invalid allow list"@)
        } else if self.deny_list matches Some(l) && spec_parse_ip_list(l) is None {
            Err("Invalid deny list"@)
        } else if spec_parse_log_level(self.log_level) is None {
            Err("Invalid log level"@)
        } else {
            Ok(CreateInstanceRequestView {
                name: self.name,
                listen_ip: crate::ip_parse::spec_parse_ip(self.listen_ip)->0,
                listen_port: self.listen_port,
                dst_ip: crate::ip_parse::spec_parse_ip(self.dst_ip)->0,
                dst_port: self.dst_port,
                protocol: self.protocol,
                auto_start: self.auto_start,
                allow_list: match self.allow_list {
                    Some(l) => Some(spec_parse_ip_list(l)->0),
                    None => None,
                },
                deny_list: match self.deny_list {
                    Some(l) => Some(spec_parse_ip_list(l)->0),
                    None => None,
                },
                connect_timeout_secs: self.connect_timeout_secs,
                idle_timeout_secs: self.idle_timeout_secs,
                log_level: spec_parse_log_level(self.log_level)->0,
            })
        }
    }
}

/// Whether the string spells the name, read without regard to ASCII case.
fn level_eq(s: &String, name: &str) -> (r: bool)
    ensures
        r == spec_level_eq(s@, name@),
{
    let sv = crate::ip_parse::chars_of(s.as_str());
    let nv = crate::ip_parse::chars_of(name);
    let n = sv.len();
    if n != nv.len() {
        return false;
    }
    let mut i: usize = 0;
    while i < n
        invariant
            n == sv@.len(),
            n == nv@.len(),
            sv@ == s@,
            nv@ == name@,
            0 <= i <= n,
            forall|k: int| 0 <= k < i ==> spec_char_folds_to(#[trigger] sv@[k], nv@[k]),
        decreases n - i,
    {
        let a = sv[i];
        let b = nv[i];
        let au = a as u32;
        let folds = a == b || (65 <= au && au <= 90 && au + 32 == b as u32);
        if !folds {
            return false;
        }
        i = i + 1;
    }
    true
}

/// The log verbosity a string names, read without regard to ASCII case.
pub fn parse_log_level(s: &String) -> (r: Option<LogLevel>)
    ensures
        r == spec_parse_log_level(s@),
{
    if level_eq(s, "error") {
        Some(LogLevel::Error)
    } else if level_eq(s, "warn") {
        Some(LogLevel::Warn)
    } else if level_eq(s, "info") {
        Some(LogLevel::Info)
    } else if level_eq(s, "debug") {
        Some(LogLevel::Debug)
    } else if level_eq(s, "trace") {
        Some(LogLevel::Trace)
    } else {
        None
    }
}

/// The addresses of a list of strings; one string that is no address rejects
/// the whole list.
fn parse_ip_list(l: &Vec<String>) -> (r: Option<Vec<IpAddress>>)
    ensures
        match spec_parse_ip_list(l@.map_values(|s: String| s@)) {
            Some(a) => r matches Some(v) && v@ == a,
            None => r is None,
        },
{
    let ghost views = l@.map_values(|s: String| s@);
    let n = l.len();
    let mut out: Vec<IpAddress> = Vec::new();
    let mut i: usize = 0;
    while i < n
        invariant
            n == l@.len(),
            n == views.len(),
            views == l@.map_values(|s: String| s@),
            0 <= i <= n,
            out@.len() == i,
            forall|k: int| 0 <= k < i
                ==> crate::ip_parse::spec_parse_ip(#[trigger] views[k]) is Some,
            forall|k: int| 0 <= k < i
                ==> out@[k] == crate::ip_parse::spec_parse_ip(#[trigger] views[k])->0,
        decreases n - i,
    {
        proof {
            assert(views[i as int] == l@[i as int]@);
        }
        match crate::ip_parse::parse_ip(l[i].as_str()) {
            Some(ip) => {
                out.push(ip);
            },
            None => {
                proof {
                    assert(crate::ip_parse::spec_parse_ip(views[i as int]) is None);
                }
                return None;
            },
        }
        i = i + 1;
    }
    proof {
        assert(out@ =~= views.map_values(|s: Seq<char>| crate::ip_parse::spec_parse_ip(s)->0));
    }
    Some(out)
}

impl CreateInstanceRequestStrings {
    /// Read the textual request into its typed form, or name the first
    /// failing field.
    pub fn to_typed(&self) -> (r: Result<CreateInstanceRequest, String>)
        ensures
            match self@.spec_to_typed() {
                Ok(v) => r matches Ok(q) && q@ == v,
                Err(m) => r matches Err(e) && e@ == m,
            },
    {
        let listen_ip = match crate::ip_parse::parse_ip(self.listen_ip.as_str()) {
            Some(ip) => ip,
            None => {
                return Err("Invalid listen IP".to_owned());
            },
        };
        let dst_ip = match crate::ip_parse::parse_ip(self.dst_ip.as_str()) {
            Some(ip) => ip,
            None => {
                return Err("Invalid destination IP".to_owned());
            },
        };
        let allow_list: Option<Vec<IpAddress>> = match &self.allow_list {
            Some(l) => match parse_ip_list(l) {
                Some(a) => Some(a),
                None => {
                    return Err("Invalid allow list".to_owned());
                },
            },
            None => None,
        };
        let deny_list: Option<Vec<IpAddress>> = match &self.deny_list {
            Some(l) => match parse_ip_list(l) {
                Some(a) => Some(a),
                None => {
                    return Err("Invalid deny list".to_owned());
                },
            },
            None => None,
        };
        let log_level = match parse_log_level(&self.log_level) {
            Some(v) => v,
            None => {
                return Err("Invalid log level".to_owned());
            },
        };
        Ok(CreateInstanceRequest {
            name: self.name.clone(),
            listen_ip,
            listen_port: self.listen_port,
            dst_ip,
            dst_port: self.dst_port,
            protocol: self.protocol,
            auto_start: self.auto_start,
            allow_list,
            deny_list,
            connect_timeout_secs: self.connect_timeout_secs,
            idle_timeout_secs: self.idle_timeout_secs,
            log_level,
        })
    }
}

} // verus!
