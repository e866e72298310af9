//! The TCP forwarder's decision state: the configuration snapshot taken at
//! start, the shared buffer pool and the per-peer access cache. The listener,
//! the connection sockets and the timers are owned by the caller; it binds the
//! endpoint this module names, asks it whether a peer is admitted, and drives
//! each connection's two pumps through `pump::PumpState`.

use vstd::prelude::*;
use crate::addr::Endpoint;
use crate::addr::IpAddress;
use crate::buffer_pool::BufferPool;
use crate::config::Config;
use crate::config::ConfigView;
use crate::ip_cache::IpCache;
use crate::ip_cache::spec_ip_key;
use crate::ip_cache::spec_fresh;

verus! {

/// Seconds as milliseconds, clamped at the maximum.
pub open spec fn spec_secs_to_millis(secs: u64) -> u64 {
    if secs * 1000 > u64::MAX {
        u64::MAX
    } else {
        (secs * 1000) as u64
    }
}

/// Seconds as milliseconds, clamped at the maximum.
pub fn secs_to_millis(secs: u64) -> (r: u64)
    ensures
        r == spec_secs_to_millis(secs),
{
    match secs.checked_mul(1000) {
        Some(v) => v,
        None => u64::MAX,
    }
}

/// One TCP forwarder.
pub struct TcpProxy {
    config: Config,
    instance_id: u128,
    buffer_pool: BufferPool,
    ip_cache: IpCache,
}

impl TcpProxy {
    /// The configuration snapshot the forwarder runs on.
    pub closed spec fn spec_config(self) -> ConfigView {
        self.config@
    }

    /// The instance the forwarder belongs to.
    pub closed spec fn spec_instance_id(self) -> u128 {
        self.instance_id
    }

    /// The cached admission decisions.
    pub closed spec fn cache_entries(self) -> Map<(u8, u128), (bool, u64)> {
        self.ip_cache.entries()
    }

    /// The time-to-live of a cached admission decision, in milliseconds.
    pub closed spec fn spec_cache_ttl(self) -> u64 {
        self.ip_cache.spec_ttl()
    }

    /// The bound on the number of cached admission decisions.
    pub closed spec fn spec_cache_capacity(self) -> nat {
        self.ip_cache.spec_capacity()
    }

    /// The forwarder is well formed when its buffer pool and access cache
    /// are.
    pub closed spec fn wf(self) -> bool {
        self.buffer_pool.wf() && self.ip_cache.wf()
    }

    /// A forwarder around a configuration snapshot: an empty buffer pool and
    /// an empty access cache of ten thousand entries whose time-to-live is
    /// the configured idle timeout.
    pub fn new(config: Config, instance_id: u128) -> (r: TcpProxy)
        ensures
            r.wf(),
            r.spec_config() == config@,
            r.spec_instance_id() == instance_id,
            r.cache_entries() == crate::ip_cache::no_entries(),
            r.spec_cache_capacity() == 10_000,
            r.spec_cache_ttl() == spec_secs_to_millis(config@.proxy.idle_timeout_secs),
    {
        let ip_cache_ttl = secs_to_millis(config.proxy.idle_timeout_secs);
        TcpProxy {
            config,
            instance_id,
            buffer_pool: BufferPool::new(1000, 1000),
            ip_cache: IpCache::new(10_000, ip_cache_ttl),
        }
    }

    /// The endpoint the caller binds the listener to: exactly the configured
    /// listen address and port.
    pub fn listen_endpoint(&self) -> (r: Endpoint)
        ensures
            r == (Endpoint { ip: self.spec_config().proxy.listen_ip, port: self.spec_config().proxy.listen_port }),
    {
        Endpoint { ip: self.config.proxy.listen_ip, port: self.config.proxy.listen_port }
    }

    /// The endpoint each accepted connection is forwarded to: exactly the
    /// configured destination.
    pub fn destination_endpoint(&self) -> (r: Endpoint)
        ensures
            r == (Endpoint { ip: self.spec_config().proxy.dst_ip, port: self.spec_config().proxy.dst_port }),
    {
        Endpoint { ip: self.config.proxy.dst_ip, port: self.config.proxy.dst_port }
    }

    /// The bound on destination connect attempts, in seconds.
    pub fn connect_timeout_secs(&self) -> (r: u64)
        ensures
            r == self.spec_config().proxy.connect_timeout_secs,
    {
        self.config.proxy.connect_timeout_secs
    }

    /// The bound on per-read inactivity of a pump, in seconds.
    pub fn idle_timeout_secs(&self) -> (r: u64)
        ensures
            r == self.spec_config().proxy.idle_timeout_secs,
    {
        self.config.proxy.idle_timeout_secs
    }

    /// Decide whether a connecting peer is admitted: a fresh cached decision
    /// is reused untouched; otherwise the configuration's filter decides and
    /// the decision is cached with the present time.
    pub fn admit_peer(&mut self, peer_ip: &IpAddress, now: u64) -> (allowed: bool)
        requires
            old(self).wf(),
        ensures
            ({
                let k = spec_ip_key(*peer_ip);
                let entries = old(self).cache_entries();
                &&& (entries.contains_key(k) && spec_fresh(entries[k].1, now, old(self).spec_cache_ttl())
                    ==> allowed == entries[k].0 && final(self).cache_entries() == entries)
                &&& (!(entries.contains_key(k) && spec_fresh(entries[k].1, now, old(self).spec_cache_ttl()))
                    ==> allowed == old(self).spec_config().spec_is_ip_allowed(*peer_ip)
                        && final(self).cache_entries().contains_pair(k, (allowed, now)))
            }),
            final(self).spec_config() == old(self).spec_config(),
            final(self).spec_instance_id() == old(self).spec_instance_id(),
            final(self).spec_cache_ttl() == old(self).spec_cache_ttl(),
            final(self).spec_cache_capacity() == old(self).spec_cache_capacity(),
            final(self).wf(),
    {
        self.ip_cache.check_ip(peer_ip, &self.config, now)
    }

    /// Borrow a pump buffer from the forwarder's pool.
    pub fn acquire_buffer(&mut self, size: usize) -> (r: crate::buffer_pool::PooledBuffer)
        requires
            old(self).wf(),
        ensures
            final(self).wf(),
            crate::buffer_pool::bytes_content(r.buffer).len() == 0,
            r.size_hint == size,
            final(self).spec_config() == old(self).spec_config(),
            final(self).spec_instance_id() == old(self).spec_instance_id(),
            final(self).cache_entries() == old(self).cache_entries(),
            final(self).spec_cache_ttl() == old(self).spec_cache_ttl(),
            final(self).spec_cache_capacity() == old(self).spec_cache_capacity(),
    {
        self.buffer_pool.acquire(size)
    }

    /// Return a pump buffer to the forwarder's pool.
    pub fn release_buffer(&mut self, buffer: crate::buffer_pool::PooledBuffer)
        requires
            old(self).wf(),
        ensures
            final(self).wf(),
            final(self).spec_config() == old(self).spec_config(),
            final(self).spec_instance_id() == old(self).spec_instance_id(),
            final(self).cache_entries() == old(self).cache_entries(),
            final(self).spec_cache_ttl() == old(self).spec_cache_ttl(),
            final(self).spec_cache_capacity() == old(self).spec_cache_capacity(),
    {
        self.buffer_pool.release(buffer)
    }
}

} // verus!
