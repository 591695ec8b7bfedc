//! KCP settings.
use crate::text;
use crate::time::Duration;
use vstd::prelude::*;
use vstd::string::*;

verus! {

/// Settings that trade bandwidth for delay.
#[derive(Debug, Clone, Copy, PartialEq, Eq, Structural)]
pub struct KcpNoDelayConfig {
    /// Whether the no-delay mode is on.
    pub nodelay: bool,
    /// Update interval in milliseconds.
    pub interval: i32,
    /// Number of acknowledgments that lead to a fast resend.
    pub resend: i32,
    /// Whether congestion control is off.
    pub nc: bool,
}

/// Settings of a KCP link.
#[derive(Debug, Clone, Copy, PartialEq, Eq)]
pub struct KcpConfig {
    /// Maximum transmission unit.
    pub mtu: usize,
    /// Delay settings.
    pub nodelay: KcpNoDelayConfig,
    /// Send and receive window.
    pub wnd_size: (u16, u16),
    /// After how much time a session expires.
    pub session_expire: Duration,
    /// Whether writing flushes.
    pub flush_write: bool,
    /// Whether input flushes acknowledgments.
    pub flush_acks_input: bool,
    /// Whether messages may be merged.
    pub stream: bool,
    /// Whether empty packets are received.
    pub allow_recv_empty_packet: bool,
}

/// Delay settings for minimal latency.
pub open spec fn fastest() -> KcpNoDelayConfig {
    KcpNoDelayConfig { nodelay: true, interval: 10, resend: 2, nc: true }
}

/// Delay settings for normal use.
pub open spec fn normal() -> KcpNoDelayConfig {
    KcpNoDelayConfig { nodelay: false, interval: 40, resend: 0, nc: false }
}

/// Delay settings if nothing is set.
pub open spec fn relaxed() -> KcpNoDelayConfig {
    KcpNoDelayConfig { nodelay: false, interval: 100, resend: 0, nc: false }
}

/// Returns the delay settings for minimal latency.
///
/// Calls `tokio_kcp::KcpNoDelayConfig::fastest`. Assumed: no-delay mode, an
/// interval of 10, fast resend after 2, and no congestion control.
#[verifier::external_body]
pub(crate) fn nodelay_fastest() -> (c: KcpNoDelayConfig)
    ensures
        c == fastest(),
{
    let c = tokio_kcp::KcpNoDelayConfig::fastest();
    KcpNoDelayConfig { nodelay: c.nodelay, interval: c.interval, resend: c.resend, nc: c.nc }
}

/// Returns the delay settings for normal use.
///
/// Calls `tokio_kcp::KcpNoDelayConfig::normal`. Assumed: an interval of 40, no
/// fast resend, congestion control, and no no-delay mode.
#[verifier::external_body]
pub(crate) fn nodelay_normal() -> (c: KcpNoDelayConfig)
    ensures
        c == normal(),
{
    let c = tokio_kcp::KcpNoDelayConfig::normal();
    KcpNoDelayConfig { nodelay: c.nodelay, interval: c.interval, resend: c.resend, nc: c.nc }
}

/// Returns the delay settings if nothing is set.
///
/// Calls `tokio_kcp::KcpNoDelayConfig::default`. Assumed: an interval of 100, no
/// fast resend, congestion control, and no no-delay mode.
#[verifier::external_body]
pub(crate) fn nodelay_default() -> (c: KcpNoDelayConfig)
    ensures
        c == relaxed(),
{
    let c = tokio_kcp::KcpNoDelayConfig::default();
    KcpNoDelayConfig { nodelay: c.nodelay, interval: c.interval, resend: c.resend, nc: c.nc }
}

/// Returns the settings of a KCP link if nothing is set.
///
/// Calls `tokio_kcp::KcpConfig::default`. Assumed: an MTU of 1400, delay
/// settings for normal use, windows of 256, expiry after 90 seconds, and no
/// option switched on.
#[verifier::external_body]
pub(crate) fn default_config() -> (c: KcpConfig)
    ensures
        c.mtu == 1400,
        c.nodelay == normal(),
        c.wnd_size == (256u16, 256u16),
        c.session_expire.nanos == 90_000_000_000,
        !c.flush_write && !c.flush_acks_input && !c.stream && !c.allow_recv_empty_packet,
{
    let c = tokio_kcp::KcpConfig::default();
    let n = c.nodelay;
    KcpConfig {
        mtu: c.mtu,
        nodelay: KcpNoDelayConfig { nodelay: n.nodelay, interval: n.interval, resend: n.resend, nc: n.nc },
        wnd_size: c.wnd_size,
        session_expire: Duration { nanos: c.session_expire.as_nanos() },
        flush_write: c.flush_write,
        flush_acks_input: c.flush_acks_input,
        stream: c.stream,
        allow_recv_empty_packet: c.allow_recv_empty_packet,
    }
}

/// What the environment says of the settings: the values of `KCP_MTU`,
/// `KCP_SEND_WND`, `KCP_RECV_WND` and `KCP_NODELAY`.
#[derive(Debug, Clone)]
pub struct KcpEnv {
    /// Maximum transmission unit.
    pub mtu: Option<String>,
    /// Send window.
    pub send_wnd: Option<String>,
    /// Receive window.
    pub recv_wnd: Option<String>,
    /// Delay settings.
    pub nodelay: Option<String>,
}

/// Something worth telling about the settings.
#[derive(Debug, Clone, Copy, PartialEq, Eq, Structural)]
pub enum ConfigNote {
    /// The MTU comes from the environment.
    Mtu(u64),
    /// The MTU in the environment is not acceptable.
    InvalidMtu(u64),
    /// The send window comes from the environment.
    SendWindow(u16),
    /// The receive window comes from the environment.
    RecvWindow(u16),
    /// The delay settings in the environment are unknown.
    InvalidNodelay,
    /// The delay settings come from the environment.
    Nodelay,
}

/// The MTU that a value in the environment stands for, if it is a number.
pub open spec fn env_mtu(value: Option<String>) -> Option<nat> {
    match value {
        Some(v) => text::unsigned_value(v@, usize::MAX as nat),
        None => None,
    }
}

/// The MTU: the value in the environment if it lies between 50 and 9000, else
/// 1350.
pub open spec fn chosen_mtu(value: Option<String>) -> nat {
    match env_mtu(value) {
        Some(n) => if 50 <= n <= 9000 {
            n
        } else {
            1350
        },
        None => 1350,
    }
}

/// The window: the value in the environment if it is a positive 16-bit number,
/// else 512.
pub open spec fn chosen_window(value: Option<String>) -> nat {
    match value {
        Some(v) => match text::unsigned_value(v@, 0xFFFF) {
            Some(n) => if n > 0 {
                n
            } else {
                512
            },
            None => 512,
        },
        None => 512,
    }
}

/// The delay settings that a name in lower case stands for.
pub open spec fn nodelay_named(name: Seq<char>) -> Option<KcpNoDelayConfig> {
    if name == "fastest"@ {
        Some(fastest())
    } else if name == "normal"@ {
        Some(normal())
    } else if name == "default"@ {
        Some(relaxed())
    } else {
        None
    }
}

/// The delay settings: what the value in the environment names, else those for
/// minimal latency.
pub open spec fn chosen_nodelay(value: Option<String>) -> KcpNoDelayConfig {
    match value {
        Some(v) => match nodelay_named(text::lowercase_of(v@)) {
            Some(c) => c,
            None => fastest(),
        },
        None => fastest(),
    }
}

/// Returns the delay settings that a name in lower case stands for.
pub fn nodelay_by_name(name: &str) -> (c: Option<KcpNoDelayConfig>)
    ensures
        c == nodelay_named(name@),
{
    if text::same(name, "fastest") {
        Some(nodelay_fastest())
    } else if text::same(name, "normal") {
        Some(nodelay_normal())
    } else if text::same(name, "default") {
        Some(nodelay_default())
    } else {
        None
    }
}

/// What is told about the MTU.
pub open spec fn mtu_notes(value: Option<String>) -> Seq<ConfigNote> {
    match env_mtu(value) {
        Some(n) => if 50 <= n <= 9000 {
            seq![ConfigNote::Mtu(n as u64)]
        } else {
            seq![ConfigNote::InvalidMtu(n as u64)]
        },
        None => Seq::empty(),
    }
}

/// The positive 16-bit number that a value in the environment stands for.
pub open spec fn env_window(value: Option<String>) -> Option<u16> {
    match value {
        Some(v) => match text::unsigned_value(v@, 0xFFFF) {
            Some(n) => if n > 0 {
                Some(n as u16)
            } else {
                None
            },
            None => None,
        },
        None => None,
    }
}

/// What is told about the delay settings.
pub open spec fn nodelay_notes(value: Option<String>) -> Seq<ConfigNote> {
    match value {
        Some(v) => if nodelay_named(text::lowercase_of(v@)) is None {
            seq![ConfigNote::InvalidNodelay, ConfigNote::Nodelay]
        } else {
            seq![ConfigNote::Nodelay]
        },
        None => Seq::empty(),
    }
}

/// All that is told about the settings.
pub open spec fn all_notes(env: KcpEnv) -> Seq<ConfigNote> {
    mtu_notes(env.mtu) + (match env_window(env.send_wnd) {
        Some(n) => seq![ConfigNote::SendWindow(n)],
        None => Seq::empty(),
    }) + (match env_window(env.recv_wnd) {
        Some(n) => seq![ConfigNote::RecvWindow(n)],
        None => Seq::empty(),
    }) + nodelay_notes(env.nodelay)
}

fn window_from(value: &Option<String>) -> (w: Option<u16>)
    ensures
        w == env_window(*value),
{
    match value {
        Some(v) => match text::parse_unsigned(v.as_str(), 0xFFFF) {
            Some(n) => if n > 0 {
                Some(n as u16)
            } else {
                None
            },
            None => None,
        },
        None => None,
    }
}

/// Creates settings for tunneling: minimal latency, windows of 512 and an MTU
/// of 1350, each of which the environment may override.
pub fn create_optimized_kcp_config(env: &KcpEnv) -> (r: (KcpConfig, Vec<ConfigNote>))
    ensures
        r.0.mtu == chosen_mtu(env.mtu),
        r.0.wnd_size.0 == chosen_window(env.send_wnd),
        r.0.wnd_size.1 == chosen_window(env.recv_wnd),
        r.0.nodelay == chosen_nodelay(env.nodelay),
        r.0.session_expire.nanos == 90_000_000_000,
        !r.0.flush_write && !r.0.flush_acks_input && !r.0.stream && !r.0.allow_recv_empty_packet,
        r.1@ == all_notes(*env),
{
    let mut config = default_config();
    config.nodelay = nodelay_fastest();
    config.wnd_size = (512, 512);
    config.mtu = 1350;
    let mut notes: Vec<ConfigNote> = Vec::new();
    if let Some(v) = &env.mtu {
        if let Some(mtu) = text::parse_unsigned(v.as_str(), usize::MAX as u64) {
            if mtu >= 50 && mtu <= 9000 {
                config.mtu = mtu as usize;
                notes.push(ConfigNote::Mtu(mtu));
            } else {
                notes.push(ConfigNote::InvalidMtu(mtu));
            }
        }
    }
    assert(notes@ =~= mtu_notes(env.mtu));
    if let Some(n) = window_from(&env.send_wnd) {
        config.wnd_size = (n, config.wnd_size.1);
        notes.push(ConfigNote::SendWindow(n));
    }
    if let Some(n) = window_from(&env.recv_wnd) {
        config.wnd_size = (config.wnd_size.0, n);
        notes.push(ConfigNote::RecvWindow(n));
    }
    if let Some(v) = &env.nodelay {
        config.nodelay = match nodelay_by_name(text::lowercase(v.as_str()).as_str()) {
            Some(c) => c,
            None => {
                notes.push(ConfigNote::InvalidNodelay);
                nodelay_fastest()
            },
        };
        notes.push(ConfigNote::Nodelay);
    }
    assert(notes@ =~= all_notes(*env));
    (config, notes)
}

/// Whatever the environment says, the MTU lies between 50 and 9000 and no
/// window is empty.
pub proof fn chosen_settings_are_sound(mtu: Option<String>, window: Option<String>)
    ensures
        50 <= chosen_mtu(mtu) <= 9000,
        1 <= chosen_window(window) <= 0xFFFF,
{
}

/// What a check of the settings found.
#[derive(Debug, Clone, Copy, PartialEq, Eq, Structural)]
pub struct ConfigCheck {
    /// Whether the delay settings are those for minimal latency.
    pub nodelay_fastest: bool,
    /// Whether the windows are the standard ones, and not overridden.
    pub windows_standard: bool,
    /// Whether the MTU is the standard one, and not overridden.
    pub mtu_standard: bool,
}

/// Checks settings against the standard ones.
pub fn test_kcp_config(config: &KcpConfig, env: &KcpEnv) -> (check: ConfigCheck)
    ensures
        check.nodelay_fastest == (config.nodelay == fastest()),
        check.windows_standard == (config.wnd_size == (512u16, 512u16) && env.send_wnd is None
            && env.recv_wnd is None),
        check.mtu_standard == (config.mtu == 1350 && env.mtu is None),
{
    let n = config.nodelay;
    ConfigCheck {
        nodelay_fastest: n.nodelay && n.interval == 10 && n.resend == 2 && n.nc,
        windows_standard: config.wnd_size.0 == 512 && config.wnd_size.1 == 512
            && env.send_wnd.is_none() && env.recv_wnd.is_none(),
        mtu_standard: config.mtu == 1350 && env.mtu.is_none(),
    }
}

} // verus!
