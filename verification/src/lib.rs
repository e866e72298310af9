pub mod addr;
pub mod buffer_pool;
pub mod config;
pub mod instance;
pub mod instance_manager;
pub mod ip_cache;
pub mod ip_parse;
pub mod metrics;
pub mod pump;
pub mod session;
pub mod storage;
pub mod tcp_proxy;
pub mod udp_proxy;
pub mod web;

pub use addr::IpAddress;
pub use addr::Endpoint;
pub use config::Config;
pub use config::ProxyConfig;
pub use config::Protocol;
pub use config::LogLevel;
pub use config::IpFilterConfig;
pub use config::ValidationError;
