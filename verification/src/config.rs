//! Session configuration.

use crate::codec::valid_shards;
use crate::error::ConfigError;
use crate::fec::FEC_HEADER_SIZE_PLUS_SIZE;
use crate::link::{
    clamped_interval, link, set_mtu, set_nodelay, set_wndsize, undisturbed, LinkState, UdpOutput,
    KCP_MIN_RCV_WND,
};
use crate::utils::duration_nanos;
use kcp::Kcp;
use std::time::Duration;
use vstd::prelude::*;

pub mod laws;

verus! {

/// The smallest packet size that KCP works with.
pub const MIN_KCP_MTU: usize = 50;

/// How eagerly KCP sends and resends.
#[derive(Debug, Clone, Copy)]
pub struct KcpNoDelayConfig {
    /// Enable nodelay
    pub nodelay: bool,
    /// Internal update interval (ms)
    pub interval: i32,
    /// ACK number to enable fast resend
    pub resend: i32,
    /// Disable congestion control
    pub nc: bool,
}

impl Default for KcpNoDelayConfig {
    fn default() -> (config: KcpNoDelayConfig)
        ensures
            config == (KcpNoDelayConfig { nodelay: false, interval: 100, resend: 0, nc: false }),
    {
        KcpNoDelayConfig { nodelay: false, interval: 100, resend: 0, nc: false }
    }
}

impl KcpNoDelayConfig {
    /// The fastest configuration: nodelay, a tick every 10ms, resend after 2
    /// overtaking ACKs, no congestion control.
    pub fn fastest() -> (config: KcpNoDelayConfig)
        ensures
            config == (KcpNoDelayConfig { nodelay: true, interval: 10, resend: 2, nc: true }),
    {
        KcpNoDelayConfig { nodelay: true, interval: 10, resend: 2, nc: true }
    }

    /// A normal configuration: no nodelay, a tick every 40ms, no fast resend,
    /// congestion control.
    pub fn normal() -> (config: KcpNoDelayConfig)
        ensures
            config == (KcpNoDelayConfig { nodelay: false, interval: 40, resend: 0, nc: false }),
    {
        KcpNoDelayConfig { nodelay: false, interval: 40, resend: 0, nc: false }
    }
}

/// Shard counts of forward error correction, compatible with kcp-go.
#[derive(Debug, Clone, Copy)]
pub struct KcpFecConfig {
    /// Number of data shards. `0` disables FEC.
    pub data_shards: usize,
    /// Number of parity shards. `0` disables FEC.
    pub parity_shards: usize,
}

impl Default for KcpFecConfig {
    fn default() -> (config: KcpFecConfig)
        ensures
            config == (KcpFecConfig { data_shards: 0, parity_shards: 0 }),
    {
        KcpFecConfig { data_shards: 0, parity_shards: 0 }
    }
}

impl KcpFecConfig {
    /// FEC with these shard counts.
    pub fn new(data_shards: usize, parity_shards: usize) -> (config: KcpFecConfig)
        ensures
            config == (KcpFecConfig { data_shards, parity_shards }),
    {
        KcpFecConfig { data_shards, parity_shards }
    }

    /// No FEC.
    pub fn disabled() -> (config: KcpFecConfig)
        ensures
            config == (KcpFecConfig { data_shards: 0, parity_shards: 0 }),
    {
        KcpFecConfig { data_shards: 0, parity_shards: 0 }
    }

    /// Both shard counts are there.
    pub open spec fn spec_enabled(&self) -> bool {
        self.data_shards > 0 && self.parity_shards > 0
    }

    /// Is FEC on?
    pub fn enabled(&self) -> (enabled: bool)
        ensures
            enabled == self.spec_enabled(),
    {
        self.data_shards > 0 && self.parity_shards > 0
    }

    /// FEC is off on both counts, or the shard counts make a block.
    pub open spec fn valid(&self) -> bool {
        ||| self.data_shards == 0 && self.parity_shards == 0
        ||| valid_shards(self.data_shards as int, self.parity_shards as int)
    }

    /// Rejects shard counts that make no block.
    pub fn validate(&self) -> (res: Result<(), ConfigError>)
        ensures
            res is Ok <==> self.valid(),
            res is Err ==> res->Err_0 is InvalidShards,
    {
        if self.data_shards == 0 && self.parity_shards == 0 {
            return Ok(());
        }
        if self.data_shards == 0 || self.parity_shards == 0 || self.data_shards > 256
            || self.parity_shards > 256 - self.data_shards {
            return Err(ConfigError::InvalidShards);
        }
        Ok(())
    }
}

/// The configuration of a session.
#[derive(Debug, Clone, Copy)]
pub struct KcpConfig {
    /// Max Transmission Unit
    pub mtu: usize,
    /// nodelay
    pub nodelay: KcpNoDelayConfig,
    /// Send window size
    pub wnd_size: (u16, u16),
    /// Session expire duration, default is 90 seconds
    pub session_expire: Option<Duration>,
    /// Flush KCP state immediately after write
    pub flush_write: bool,
    /// Flush ACKs immediately after input
    pub flush_acks_input: bool,
    /// Stream mode
    pub stream: bool,
    /// Allow recv 0 byte packet. KCP Segments with 0 byte data are skipped by default.
    pub allow_recv_empty_packet: bool,
    /// kcp-go compatible FEC config. Disabled by default.
    pub fec: KcpFecConfig,
}

impl Default for KcpConfig {
    fn default() -> (config: KcpConfig)
        ensures
            config.mtu == 1400,
            config.nodelay == (KcpNoDelayConfig {
                nodelay: false,
                interval: 40,
                resend: 0,
                nc: false,
            }),
            config.wnd_size == (256u16, 256u16),
            config.session_expire is Some,
            duration_nanos(config.session_expire->0) == 90_000_000_000,
            !config.flush_write,
            !config.flush_acks_input,
            !config.stream,
            !config.allow_recv_empty_packet,
            config.fec == (KcpFecConfig { data_shards: 0, parity_shards: 0 }),
    {
        KcpConfig {
            mtu: 1400,
            nodelay: KcpNoDelayConfig::normal(),
            wnd_size: (256, 256),
            session_expire: Some(Duration::from_secs(90)),
            flush_write: false,
            flush_acks_input: false,
            stream: false,
            allow_recv_empty_packet: false,
            fec: KcpFecConfig::disabled(),
        }
    }
}

impl KcpConfig {
    /// The same configuration with FEC of these shard counts.
    pub fn with_fec(self, data_shards: usize, parity_shards: usize) -> (config: KcpConfig)
        ensures
            config == (KcpConfig { fec: KcpFecConfig { data_shards, parity_shards }, ..self }),
    {
        let mut config = self;
        config.fec = KcpFecConfig::new(data_shards, parity_shards);
        config
    }

    /// The bytes of a packet that are left for KCP; negative if FEC needs more than
    /// there are.
    pub open spec fn kcp_mtu(&self) -> int {
        if self.fec.spec_enabled() {
            self.mtu - FEC_HEADER_SIZE_PLUS_SIZE
        } else {
            self.mtu as int
        }
    }

    /// What is wrong with the configuration, if anything.
    pub open spec fn fault(&self) -> Option<ConfigError> {
        if !self.fec.valid() {
            Some(ConfigError::InvalidShards)
        } else if self.kcp_mtu() < 0 {
            Some(ConfigError::MtuTooSmallForFec)
        } else if self.kcp_mtu() < MIN_KCP_MTU {
            Some(ConfigError::InvalidMtu)
        } else {
            None
        }
    }

    /// Rejects configurations that no session can run with.
    pub fn validate(&self) -> (res: Result<(), ConfigError>)
        ensures
            match res {
                Ok(()) => self.fault() is None,
                Err(err) => self.fault() == Some(err),
            },
    {
        if let Err(err) = self.fec.validate() {
            return Err(err);
        }
        let mtu: usize = if self.fec.enabled() {
            match self.mtu.checked_sub(FEC_HEADER_SIZE_PLUS_SIZE) {
                Some(mtu) => mtu,
                None => return Err(ConfigError::MtuTooSmallForFec),
            }
        } else {
            self.mtu
        };
        if mtu < MIN_KCP_MTU {
            return Err(ConfigError::InvalidMtu);
        }
        Ok(())
    }

    /// A machine can set aside buffers for the packet size.
    pub open spec fn fits_memory(&self) -> bool {
        (self.kcp_mtu() + 24) * 3 <= isize::MAX
    }

    /// The state of a machine with this configuration.
    pub open spec fn configured(&self, state: LinkState) -> LinkState {
        LinkState {
            mss: (self.kcp_mtu() - 24) as nat,
            nodelay: self.nodelay.nodelay,
            interval: clamped_interval(self.nodelay.interval as int),
            fast_resend: if self.nodelay.resend >= 0 {
                self.nodelay.resend as nat
            } else {
                state.fast_resend
            },
            nocwnd: self.nodelay.nc,
            snd_wnd: if self.wnd_size.0 > 0 {
                self.wnd_size.0
            } else {
                state.snd_wnd
            },
            rcv_wnd: if self.wnd_size.1 == 0 {
                state.rcv_wnd
            } else if self.wnd_size.1 > KCP_MIN_RCV_WND {
                self.wnd_size.1
            } else {
                KCP_MIN_RCV_WND
            },
            ..state
        }
    }

    /// Applies the configuration to a machine.
    pub fn apply_config(&self, k: &mut Kcp<UdpOutput>)
        requires
            self.fault() is None,
            self.fits_memory(),
        ensures
            link(*final(k)) == self.configured(link(*old(k))),
            undisturbed(*old(k), *final(k)),
    {
        let mtu: usize = if self.fec.enabled() {
            self.mtu - FEC_HEADER_SIZE_PLUS_SIZE
        } else {
            self.mtu
        };
        let _ = set_mtu(k, mtu);
        set_nodelay(
            k,
            self.nodelay.nodelay,
            self.nodelay.interval,
            self.nodelay.resend,
            self.nodelay.nc,
        );
        set_wndsize(k, self.wnd_size.0, self.wnd_size.1);
    }
}

} // verus!
