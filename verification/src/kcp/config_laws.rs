//! What the environment decides of the KCP settings.
use crate::kcp::config;
use crate::kcp::config::{ConfigCheck, ConfigNote, KcpConfig, KcpEnv, KcpNoDelayConfig};
use crate::text;
use vstd::prelude::*;

verus! {

/// The MTU in the environment counts if it reads as a number from 50 to 9000; else the MTU
/// is 1350.
pub proof fn mtu_is_read(
    env: KcpEnv,
    r: (KcpConfig, Vec<ConfigNote>),
    s: &str,
    read: Option<u64>,
)
    requires
        call_ensures(config::create_optimized_kcp_config, (&env,), r),
        env.mtu matches Some(v) ==> v@ == s@ && call_ensures(
            text::parse_unsigned,
            (s, usize::MAX as u64),
            read,
        ),
    ensures
        r.0.mtu == (match (env.mtu, read) {
            (Some(_), Some(n)) => if 50 <= n && n <= 9000 {
                n as int
            } else {
                1350
            },
            _ => 1350,
        }),
        50 <= r.0.mtu <= 9000,
{
}

/// A window in the environment counts if it reads as a positive 16-bit number; else the
/// window is 512. One window does not depend on what is said of the other.
pub proof fn windows_are_read(
    env: KcpEnv,
    r: (KcpConfig, Vec<ConfigNote>),
    s: &str,
    t: &str,
    sent: Option<u64>,
    received: Option<u64>,
)
    requires
        call_ensures(config::create_optimized_kcp_config, (&env,), r),
        env.send_wnd matches Some(v) ==> v@ == s@ && call_ensures(
            text::parse_unsigned,
            (s, 0xFFFF),
            sent,
        ),
        env.recv_wnd matches Some(v) ==> v@ == t@ && call_ensures(
            text::parse_unsigned,
            (t, 0xFFFF),
            received,
        ),
    ensures
        r.0.wnd_size.0 == (match (env.send_wnd, sent) {
            (Some(_), Some(n)) => if n > 0 {
                n as int
            } else {
                512
            },
            _ => 512,
        }),
        r.0.wnd_size.1 == (match (env.recv_wnd, received) {
            (Some(_), Some(n)) => if n > 0 {
                n as int
            } else {
                512
            },
            _ => 512,
        }),
        r.0.wnd_size.0 > 0 && r.0.wnd_size.1 > 0,
{
}

/// The delay settings are those that the environment names, in large or small letters, and
/// the fastest ones if it names none.
pub proof fn delay_is_read(
    env: KcpEnv,
    r: (KcpConfig, Vec<ConfigNote>),
    small: &str,
    named: Option<KcpNoDelayConfig>,
)
    requires
        call_ensures(config::create_optimized_kcp_config, (&env,), r),
        call_ensures(config::nodelay_by_name, (small,), named),
    ensures
        ({
            let fastest = KcpNoDelayConfig { nodelay: true, interval: 10, resend: 2, nc: true };
            match env.nodelay {
                None => r.0.nodelay == fastest,
                Some(v) => small@ == text::lowercase_of(v@) ==> r.0.nodelay == (match named {
                    Some(c) => c,
                    None => fastest,
                }),
            }
        }),
{
}

/// Three names stand for delay settings: the faster they are, the shorter the interval.
pub proof fn delay_settings_are_named(name: &str, c: Option<KcpNoDelayConfig>)
    requires
        call_ensures(config::nodelay_by_name, (name,), c),
    ensures
        c is Some <==> name@ == "fastest"@ || name@ == "normal"@ || name@ == "default"@,
        name@ == "fastest"@ ==> c->0.interval == 10 && c->0.nodelay && c->0.nc && c->0.resend == 2,
        name@ == "normal"@ ==> c->0.interval == 40 && !c->0.nodelay && !c->0.nc && c->0.resend == 0,
        name@ == "default"@ ==> c->0.interval == 100 && !c->0.nodelay && !c->0.nc && c->0.resend
            == 0,
{
    reveal_strlit("fastest");
    reveal_strlit("normal");
    reveal_strlit("default");
    assert("fastest"@[0] == 'f' && "normal"@[0] == 'n' && "default"@[0] == 'd');
}

/// Settings that were made without anything in the environment pass the check, and nothing
/// is told about them.
pub proof fn untouched_settings_are_standard(
    env: KcpEnv,
    r: (KcpConfig, Vec<ConfigNote>),
    check: ConfigCheck,
)
    requires
        call_ensures(config::create_optimized_kcp_config, (&env,), r),
        call_ensures(config::test_kcp_config, (&r.0, &env), check),
    ensures
        env.mtu is None && env.send_wnd is None && env.recv_wnd is None && env.nodelay is None ==> {
            &&& check.nodelay_fastest
            &&& check.windows_standard
            &&& check.mtu_standard
            &&& r.1@.len() == 0
        },
        check.mtu_standard <==> env.mtu is None,
        check.windows_standard <==> env.send_wnd is None && env.recv_wnd is None,
        env.nodelay is None ==> check.nodelay_fastest,
        !r.0.stream && !r.0.flush_write && !r.0.flush_acks_input && !r.0.allow_recv_empty_packet,
        r.0.session_expire.nanos == 90_000_000_000,
{
}

/// What is told about the settings: each value of the environment that counts, and each
/// that is refused, in order.
pub proof fn notes_tell_what_counts(
    env: KcpEnv,
    r: (KcpConfig, Vec<ConfigNote>),
    n: ConfigNote,
)
    requires
        call_ensures(config::create_optimized_kcp_config, (&env,), r),
        r.1@.contains(n),
    ensures
        match n {
            ConfigNote::Mtu(v) => env.mtu is Some && r.0.mtu == v && 50 <= v <= 9000,
            ConfigNote::InvalidMtu(v) => env.mtu is Some && r.0.mtu == 1350 && (v < 50 || v > 9000),
            ConfigNote::SendWindow(v) => env.send_wnd is Some && r.0.wnd_size.0 == v,
            ConfigNote::RecvWindow(v) => env.recv_wnd is Some && r.0.wnd_size.1 == v,
            ConfigNote::InvalidNodelay => env.nodelay is Some && r.0.nodelay
                == (KcpNoDelayConfig { nodelay: true, interval: 10, resend: 2, nc: true }),
            ConfigNote::Nodelay => env.nodelay is Some,
        },
{
    let i = choose|i: int| 0 <= i < r.1@.len() && r.1@[i] == n;
    if let Some(m) = config::env_mtu(env.mtu) {
        assert(m as u64 == m);
    }
}

/// Every value of the environment that reads as a number is told about, and so is every
/// value for the delay settings.
pub proof fn values_are_told(
    env: KcpEnv,
    r: (KcpConfig, Vec<ConfigNote>),
    s: &str,
    t: &str,
    u: &str,
    mtu: Option<u64>,
    sent: Option<u64>,
    received: Option<u64>,
    small: &str,
    named: Option<KcpNoDelayConfig>,
)
    requires
        call_ensures(config::create_optimized_kcp_config, (&env,), r),
        env.mtu matches Some(v) ==> v@ == s@,
        call_ensures(text::parse_unsigned, (s, usize::MAX as u64), mtu),
        env.send_wnd matches Some(v) ==> v@ == t@,
        call_ensures(text::parse_unsigned, (t, 0xFFFF), sent),
        env.recv_wnd matches Some(v) ==> v@ == u@,
        call_ensures(text::parse_unsigned, (u, 0xFFFF), received),
        call_ensures(config::nodelay_by_name, (small,), named),
    ensures
        env.mtu is Some ==> (mtu matches Some(n) ==> r.1@.contains(
            if 50 <= n && n <= 9000 {
                ConfigNote::Mtu(n)
            } else {
                ConfigNote::InvalidMtu(n)
            },
        )),
        env.send_wnd is Some ==> (sent matches Some(n) ==> (n > 0 ==> r.1@.contains(
            ConfigNote::SendWindow(n as u16),
        ))),
        env.recv_wnd is Some ==> (received matches Some(n) ==> (n > 0 ==> r.1@.contains(
            ConfigNote::RecvWindow(n as u16),
        ))),
        env.nodelay is Some ==> r.1@.contains(ConfigNote::Nodelay),
        env.nodelay matches Some(v) ==> (small@ == text::lowercase_of(v@) && named is None
            ==> r.1@.contains(ConfigNote::InvalidNodelay)),
{
    let a = config::mtu_notes(env.mtu);
    let b = match config::env_window(env.send_wnd) {
        Some(n) => seq![ConfigNote::SendWindow(n)],
        None => Seq::empty(),
    };
    let c = match config::env_window(env.recv_wnd) {
        Some(n) => seq![ConfigNote::RecvWindow(n)],
        None => Seq::empty(),
    };
    let d = config::nodelay_notes(env.nodelay);
    let all = r.1@;
    assert(all =~= a + b + c + d);
    if a.len() > 0 {
        assert(all[0] == a[0]);
    }
    if b.len() > 0 {
        assert(all[a.len() as int] == b[0]);
    }
    if c.len() > 0 {
        assert(all[a.len() as int + b.len()] == c[0]);
    }
    if d.len() > 0 {
        let n = a.len() as int + b.len() + c.len();
        assert(all[n] == d[0]);
        assert(all[n + d.len() - 1] == d[d.len() - 1]);
    }
}

} // verus!
