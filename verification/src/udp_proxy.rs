//! The UDP forwarder's decision state: the configuration snapshot, the
//! session table, the buffer pool and the access cache. The sockets are owned
//! by the caller: it binds the listen endpoint this module names, asks it
//! whether a peer is admitted, registers sessions through the table, and
//! carries datagrams exactly as the forwarding functions hand them back.
//! Datagrams are forwarded to the destination through the per-session
//! upstream socket, and responses return to the client byte-exact.

use vstd::prelude::*;
use crate::addr::Endpoint;
use crate::addr::IpAddress;
use crate::buffer_pool::BufferPool;
use crate::config::Config;
use crate::config::ConfigView;
use crate::ip_cache::IpCache;
use crate::ip_cache::spec_ip_key;
use crate::ip_cache::spec_fresh;
use crate::metrics::SessionMetrics;
use crate::session::UdpSessionManager;

verus! {

/// The inactivity bound of a UDP session, in milliseconds.
pub const UDP_SESSION_TIMEOUT_MILLIS: u64 = 300_000;

/// The reaping period of the session table, in milliseconds.
pub const UDP_CLEANUP_INTERVAL_MILLIS: u64 = 60_000;

/// One UDP forwarder.
pub struct UdpProxy {
    pub config: Config,
    pub instance_id: u128,
    pub session_manager: UdpSessionManager,
    pub buffer_pool: BufferPool,
    pub ip_cache: IpCache,
}

impl UdpProxy {
    /// The configuration snapshot the forwarder runs on.
    pub closed spec fn spec_config(self) -> ConfigView {
        self.config@
    }

    /// The instance the forwarder belongs to.
    pub closed spec fn spec_instance_id(self) -> u128 {
        self.instance_id
    }

    /// The cached admission decisions.
    pub closed spec fn cache_entries(self) -> Map<(u8, u128), (bool, u64)> {
        self.ip_cache.entries()
    }

    /// The time-to-live of a cached admission decision, in milliseconds.
    pub closed spec fn spec_cache_ttl(self) -> u64 {
        self.ip_cache.spec_ttl()
    }

    /// The bound on the number of cached admission decisions.
    pub closed spec fn spec_cache_capacity(self) -> nat {
        self.ip_cache.spec_capacity()
    }

    /// The forwarder is well formed when its buffer pool, session table and
    /// access cache are.
    pub closed spec fn wf(self) -> bool {
        self.buffer_pool.wf() && self.session_manager.wf() && self.ip_cache.wf()
    }

    /// A forwarder around a configuration snapshot: an empty session table
    /// with the standard timing bounds, an empty buffer pool and an empty
    /// access cache of ten thousand entries with a five-minute time-to-live.
    pub fn new(config: Config, instance_id: u128) -> (r: UdpProxy)
        ensures
            r.wf(),
            r.spec_config() == config@,
            r.spec_instance_id() == instance_id,
            r.session_manager.spec_count() == 0,
            r.session_manager.spec_session_timeout() == UDP_SESSION_TIMEOUT_MILLIS,
            r.session_manager.spec_cleanup_interval() == UDP_CLEANUP_INTERVAL_MILLIS,
            r.cache_entries() == crate::ip_cache::no_entries(),
            r.spec_cache_capacity() == 10_000,
            r.spec_cache_ttl() == UDP_SESSION_TIMEOUT_MILLIS,
    {
        UdpProxy {
            config,
            instance_id,
            session_manager: UdpSessionManager::new(
                UDP_SESSION_TIMEOUT_MILLIS,
                UDP_CLEANUP_INTERVAL_MILLIS,
            ),
            buffer_pool: BufferPool::new(1000, 1000),
            ip_cache: IpCache::new(10_000, UDP_SESSION_TIMEOUT_MILLIS),
        }
    }

    /// The session-tracking figures of this forwarder, in seconds.
    pub fn get_session_metrics(&self) -> (r: SessionMetrics)
        ensures
            r.session_timeout_seconds == self.session_manager.spec_session_timeout() / 1000,
            r.cleanup_interval_seconds == self.session_manager.spec_cleanup_interval() / 1000,
            r.active_sessions == self.session_manager.spec_count(),
    {
        SessionMetrics {
            session_timeout_seconds: self.session_manager.session_timeout() / 1000,
            cleanup_interval_seconds: self.session_manager.cleanup_interval() / 1000,
            active_sessions: self.session_manager.active_session_count(),
        }
    }

    /// The endpoint the caller binds the listen socket to: exactly the
    /// configured listen address and port.
    pub fn listen_endpoint(&self) -> (r: Endpoint)
        ensures
            r == (Endpoint { ip: self.spec_config().proxy.listen_ip, port: self.spec_config().proxy.listen_port }),
    {
        Endpoint { ip: self.config.proxy.listen_ip, port: self.config.proxy.listen_port }
    }

    /// The endpoint datagrams are forwarded to: exactly the configured
    /// destination.
    pub fn destination_endpoint(&self) -> (r: Endpoint)
        ensures
            r == (Endpoint { ip: self.spec_config().proxy.dst_ip, port: self.spec_config().proxy.dst_port }),
    {
        Endpoint { ip: self.config.proxy.dst_ip, port: self.config.proxy.dst_port }
    }

    /// Decide whether a sending peer is admitted: a fresh cached decision is
    /// reused untouched; otherwise the configuration's filter decides and the
    /// decision is cached with the present time.
    pub fn admit_peer(&mut self, peer_ip: &IpAddress, now: u64) -> (allowed: bool)
        requires
            old(self).wf(),
        ensures
            ({
                let k = spec_ip_key(*peer_ip);
                let entries = old(self).cache_entries();
                &&& (entries.contains_key(k) && spec_fresh(entries[k].1, now, old(self).spec_cache_ttl())
                    ==> allowed == entries[k].0 && final(self).cache_entries() == entries)
                &&& (!(entries.contains_key(k) && spec_fresh(entries[k].1, now, old(self).spec_cache_ttl()))
                    ==> allowed == old(self).spec_config().spec_is_ip_allowed(*peer_ip)
                        && final(self).cache_entries().contains_pair(k, (allowed, now)))
            }),
            final(self).spec_config() == old(self).spec_config(),
            final(self).spec_instance_id() == old(self).spec_instance_id(),
            final(self).spec_cache_ttl() == old(self).spec_cache_ttl(),
            final(self).spec_cache_capacity() == old(self).spec_cache_capacity(),
            final(self).session_manager == old(self).session_manager,
            final(self).wf(),
    {
        self.ip_cache.check_ip(peer_ip, &self.config, now)
    }

    /// The upstream leg of a datagram: the bytes to send and where to. The
    /// payload is exactly the received datagram and the target is exactly the
    /// configured destination.
    pub fn datagram_to_destination(&self, data: Vec<u8>) -> (r: (Vec<u8>, Endpoint))
        ensures
            r.0@ == data@,
            r.1 == (Endpoint { ip: self.spec_config().proxy.dst_ip, port: self.spec_config().proxy.dst_port }),
    {
        let dst = self.destination_endpoint();
        (data, dst)
    }
}

/// The downstream leg of a response: the bytes to send back and where to.
/// The payload is exactly the datagram the destination answered with and the
/// target is exactly the client address of the session.
pub fn response_to_client(data: Vec<u8>, peer: Endpoint) -> (r: (Vec<u8>, Endpoint))
    ensures
        r.0@ == data@,
        r.1 == peer,
{
    (data, peer)
}

} // verus!
