//! What reading gives of a message that is cut short.
use crate::addr::{SocketAddr, SocketAddrV6};
use crate::msg_laws;
use crate::time::Duration;
use crate::unordered_cfg;
use crate::unordered_cfg::CfgModel;
use crate::unordered_msg;
use crate::unordered_msg::MsgModel;
use crate::wire;
use crate::wire::MsgError;
use vstd::prelude::*;

verus! {

/// What reading gives of the first `k` bytes of `s`, where `full` is what it gives
/// of all of them: the input ends too early if they end within what was read, and
/// nothing changes but the rest if they end behind it.
pub open spec fn cut<T>(s: Seq<u8>, full: Result<(T, Seq<u8>), MsgError>, k: int) -> Result<
    (T, Seq<u8>),
    MsgError,
> {
    match full {
        Err(e) => Err(e),
        Ok((value, rest)) => if k < s.len() - rest.len() {
            Err(MsgError::UnexpectedEof)
        } else {
            Ok((value, rest.take(k - (s.len() - rest.len()))))
        },
    }
}

proof fn bytes_cut(s: Seq<u8>, n: nat, k: int)
    requires
        wire::take_bytes(s, n) is Ok,
        k <= s.len(),
    ensures
        0 <= k ==> wire::take_bytes(s.take(k), n) == cut(s, wire::take_bytes(s, n), k),
        wire::take_bytes(s, n)->Ok_0.1.len() == s.len() - n,
{
    if n <= k {
        assert(s.take(k).subrange(0, n as int) =~= s.subrange(0, n as int));
        assert(s.take(k).subrange(n as int, k) =~= s.subrange(n as int, s.len() as int).take(
            k - n,
        ));
    }
}

proof fn int_cut(s: Seq<u8>, n: nat, k: int)
    requires
        wire::take_int(s, n) is Ok,
        k <= s.len(),
    ensures
        0 <= k ==> wire::take_int(s.take(k), n) == cut(s, wire::take_int(s, n), k),
        wire::take_int(s, n)->Ok_0.1.len() == s.len() - n,
{
    bytes_cut(s, n, k);
}

proof fn intervals_cut(s: Seq<u8>, count: nat, k: int)
    requires
        unordered_msg::read_intervals(s, count) is Ok,
        k <= s.len(),
    ensures
        0 <= k ==> unordered_msg::read_intervals(s.take(k), count) == cut(
            s,
            unordered_msg::read_intervals(s, count),
            k,
        ),
        unordered_msg::read_intervals(s, count)->Ok_0.1.len() == s.len() - 8 * count,
    decreases count,
{
    if count > 0 {
        int_cut(s, 8, k);
        let s1 = wire::take_int(s, 8)->Ok_0.1;
        intervals_cut(s1, (count - 1) as nat, k - 8);
    } else if 0 <= k {
        assert(s.take(k) =~= s.take(k - 0));
    }
}

proof fn timing_cut(
    s: Seq<u8>,
    send_queue: nat,
    recv_queue: nat,
    load_balance: unordered_cfg::LoadBalanceStrategy,
    k: int,
)
    requires
        unordered_msg::read_cfg_timing(s, send_queue, recv_queue, load_balance) is Ok,
        k <= s.len(),
    ensures
        0 <= k ==> unordered_msg::read_cfg_timing(
            s.take(k),
            send_queue,
            recv_queue,
            load_balance,
        ) == cut(
            s,
            unordered_msg::read_cfg_timing(s, send_queue, recv_queue, load_balance),
            k,
        ),
        unordered_msg::read_cfg_timing(
            s,
            send_queue,
            recv_queue,
            load_balance,
        )->Ok_0.1.len() <= s.len(),
{
    int_cut(s, 8, k);
    let s1 = wire::take_int(s, 8)->Ok_0.1;
    int_cut(s1, 8, k - 8);
    let s2 = wire::take_int(s1, 8)->Ok_0.1;
    int_cut(s2, 4, k - 16);
    let s3 = wire::take_int(s2, 4)->Ok_0.1;
    int_cut(s3, 4, k - 20);
    let s4 = wire::take_int(s3, 4)->Ok_0.1;
    int_cut(s4, 1, k - 24);
    let (count, s5) = wire::take_int(s4, 1)->Ok_0;
    intervals_cut(s5, count, k - 25);
    let s6 = unordered_msg::read_intervals(s5, count)->Ok_0.1;
    int_cut(s6, 1, k - 25 - 8 * count);
}

/// A configuration that can be read is refused as too short if it is cut anywhere.
pub proof fn cfg_cut(s: Seq<u8>, k: int)
    requires
        unordered_msg::read_cfg(s) is Ok,
        k <= s.len(),
    ensures
        0 <= k ==> unordered_msg::read_cfg(s.take(k)) == cut(s, unordered_msg::read_cfg(s), k),
        unordered_msg::read_cfg(s)->Ok_0.1.len() <= s.len(),
{
    reveal(unordered_msg::read_cfg);
    int_cut(s, 4, k);
    let (send_queue, s1) = wire::take_int(s, 4)->Ok_0;
    int_cut(s1, 4, k - 4);
    let (recv_queue, s2) = wire::take_int(s1, 4)->Ok_0;
    int_cut(s2, 1, k - 8);
    let (code, s3) = wire::take_int(s2, 1)->Ok_0;
    timing_cut(s3, send_queue, recv_queue, unordered_msg::strategy_of(code)->0, k - 9);
}

proof fn preamble_cut(s: Seq<u8>, k: int)
    requires
        unordered_msg::read_preamble(s) is Ok,
        k <= s.len(),
    ensures
        unordered_msg::read_preamble(s)->Ok_0.len() == s.len() - 6,
        0 <= k < 6 ==> unordered_msg::read_preamble(s.take(k)) == Err::<Seq<u8>, MsgError>(
            MsgError::UnexpectedEof,
        ),
        6 <= k ==> unordered_msg::read_preamble(s.take(k)) == Ok::<Seq<u8>, MsgError>(
            unordered_msg::read_preamble(s)->Ok_0.take(k - 6),
        ),
{
    reveal(unordered_msg::read_preamble);
    bytes_cut(s, 5, k);
    let s1 = wire::take_bytes(s, 5)->Ok_0.1;
    int_cut(s1, 1, k - 5);
}

proof fn counted_cut(s: Seq<u8>, n: nat, k: int)
    requires
        unordered_msg::read_counted(s, n) is Ok,
        k <= s.len(),
    ensures
        0 <= k ==> unordered_msg::read_counted(s.take(k), n) == cut(
            s,
            unordered_msg::read_counted(s, n),
            k,
        ),
        unordered_msg::read_counted(s, n)->Ok_0.1.len() <= s.len(),
{
    int_cut(s, n, k);
    let (len, s1) = wire::take_int(s, n)->Ok_0;
    bytes_cut(s1, len, k - n);
}

proof fn client_cut(s: Seq<u8>, k: int)
    requires
        unordered_msg::read_client(s) is Ok,
        k <= s.len(),
    ensures
        0 <= k ==> unordered_msg::read_client(s.take(k)) == cut(
            s,
            unordered_msg::read_client(s),
            k,
        ),
        unordered_msg::read_client(s)->Ok_0.1.len() <= s.len(),
{
    reveal(unordered_msg::read_client);
    int_cut(s, 1, k);
    let (present, s1) = wire::take_int(s, 1)->Ok_0;
    if present != 0 {
        int_cut(s1, 1, k - 1);
        let (kind, s2) = wire::take_int(s1, 1)->Ok_0;
        let width: nat = if kind == 4 {
            4
        } else {
            16
        };
        int_cut(s2, width, k - 2);
        let s3 = wire::take_int(s2, width)->Ok_0.1;
        int_cut(s3, 2, k - 2 - width);
    }
}

proof fn body_cut(kind: nat, s: Seq<u8>, k: int)
    requires
        unordered_msg::read_msg_body(kind, s) is Ok,
        k <= s.len(),
    ensures
        0 <= k ==> unordered_msg::read_msg_body(kind, s.take(k)) == cut(
            s,
            unordered_msg::read_msg_body(kind, s),
            k,
        ),
        unordered_msg::read_msg_body(kind, s)->Ok_0.1.len() <= s.len(),
{
    if kind == 1 {
        preamble_cut(s, k);
        let s1 = unordered_msg::read_preamble(s)->Ok_0;
        int_cut(s1, 16, k - 6);
        cfg_cut(wire::take_int(s1, 16)->Ok_0.1, k - 22);
    } else if kind == 2 {
        preamble_cut(s, k);
        let s1 = unordered_msg::read_preamble(s)->Ok_0;
        int_cut(s1, 8, k - 6);
        let s2 = wire::take_int(s1, 8)->Ok_0.1;
        counted_cut(s2, 2, k - 14);
        let s3 = unordered_msg::read_counted(s2, 2)->Ok_0.1;
        cfg_cut(s3, k - 14 - (s2.len() - s3.len()));
    } else if kind == 3 {
        int_cut(s, 16, k);
        cfg_cut(wire::take_int(s, 16)->Ok_0.1, k - 16);
    } else if kind == 4 {
        int_cut(s, 1, k);
    } else if kind == 5 || kind == 6 {
        int_cut(s, 8, k);
    } else if kind == 7 {
        int_cut(s, 16, k);
        let s1 = wire::take_int(s, 16)->Ok_0.1;
        int_cut(s1, 8, k - 16);
        let s2 = wire::take_int(s1, 8)->Ok_0.1;
        client_cut(s2, k - 24);
        let s3 = unordered_msg::read_client(s2)->Ok_0.1;
        counted_cut(s3, 4, k - 24 - (s2.len() - s3.len()));
    } else if kind == 8 {
        int_cut(s, 16, k);
        int_cut(wire::take_int(s, 16)->Ok_0.1, 1, k - 16);
    } else {
        counted_cut(s, 2, k);
    }
}

/// A message that can be read is refused as too short if it is cut anywhere, and
/// is read all the same if only what follows it is cut.
pub proof fn msg_cut(s: Seq<u8>, k: int)
    requires
        unordered_msg::read_msg(s) is Ok,
        0 <= k <= s.len(),
    ensures
        unordered_msg::read_msg(s.take(k)) == cut(s, unordered_msg::read_msg(s), k),
        unordered_msg::read_msg(s)->Ok_0.1.len() <= s.len(),
{
    int_cut(s, 1, k);
    let (kind, s1) = wire::take_int(s, 1)->Ok_0;
    body_cut(kind, s1, k - 1);
}

/// The span that is read back where `d` was written.
pub open spec fn sent_span(d: Duration) -> Duration {
    unordered_cfg::millis(d.millis() % 0x1_0000_0000_0000_0000)
}

/// The configuration that is read back where `cfg` was written.
pub open spec fn sent_cfg(cfg: CfgModel) -> CfgModel {
    CfgModel {
        send_queue: cfg.send_queue % 0x1_0000_0000,
        recv_queue: cfg.recv_queue % 0x1_0000_0000,
        heartbeat_interval: sent_span(cfg.heartbeat_interval),
        link_timeout: sent_span(cfg.link_timeout),
        max_packet_size: cfg.max_packet_size % 0x1_0000_0000,
        connect_queue: cfg.connect_queue % 0x1_0000_0000,
        stats_intervals: Seq::new(
            cfg.stats_intervals.len(),
            |i: int| sent_span(cfg.stats_intervals[i]),
        ),
        ..cfg
    }
}

/// The original client address that is read back where `client` was written.
pub open spec fn sent_client(client: Option<SocketAddr>) -> Option<SocketAddr> {
    match client {
        Some(SocketAddr::V6(a)) => Some(
            SocketAddr::V6(SocketAddrV6 { flowinfo: 0, scope_id: 0, ..a }),
        ),
        _ => client,
    }
}

/// The message that is read back where `msg` was written.
pub open spec fn sent(msg: MsgModel) -> MsgModel {
    match msg {
        MsgModel::Welcome { cfg, link_id } => MsgModel::Welcome { cfg: sent_cfg(cfg), link_id },
        MsgModel::Connect { group_id, user_data, cfg } => MsgModel::Connect {
            group_id,
            user_data,
            cfg: sent_cfg(cfg),
        },
        MsgModel::Accepted { link_id, cfg } => MsgModel::Accepted { link_id, cfg: sent_cfg(cfg) },
        MsgModel::Data { link_id, session_id, original_client, payload } => MsgModel::Data {
            link_id,
            session_id,
            original_client: sent_client(original_client),
            payload,
        },
        _ => msg,
    }
}

/// The queues of a configuration are not empty after their lengths were cut to four
/// bytes, and the intervals can be counted in one byte.
pub open spec fn cfg_readable(cfg: CfgModel) -> bool {
    &&& cfg.send_queue % 0x1_0000_0000 != 0
    &&& cfg.recv_queue % 0x1_0000_0000 != 0
    &&& cfg.connect_queue % 0x1_0000_0000 != 0
    &&& cfg.stats_intervals.len() < 0x100
}

/// A message that can be encoded, with a configuration that can be read back if it
/// has one.
pub open spec fn msg_readable(msg: MsgModel) -> bool {
    &&& unordered_msg::msg_error(msg) is None
    &&& match msg {
        MsgModel::Welcome { cfg, .. } => cfg_readable(cfg),
        MsgModel::Connect { cfg, .. } => cfg_readable(cfg),
        MsgModel::Accepted { cfg, .. } => cfg_readable(cfg),
        _ => true,
    }
}

proof fn span_sent(d: Duration)
    ensures
        msg_laws::span_fits(sent_span(d)),
        sent_span(d).millis() == d.millis() % 0x1_0000_0000_0000_0000,
        wire::be_bytes(sent_span(d).millis(), 8) == wire::be_bytes(d.millis(), 8),
{
    wire::pow256_values();
    wire::be_bytes_low(d.millis(), 8);
    let ms = d.millis() % 0x1_0000_0000_0000_0000;
    assert(sent_span(d).nanos == ms * 1_000_000);
}

proof fn intervals_sent(spans: Seq<Duration>)
    ensures
        unordered_msg::intervals_bytes(Seq::new(spans.len(), |i: int| sent_span(spans[i])))
            == unordered_msg::intervals_bytes(spans),
    decreases spans.len(),
{
    if spans.len() > 0 {
        let rest = spans.drop_first();
        let all = Seq::new(spans.len(), |i: int| sent_span(spans[i]));
        span_sent(spans[0]);
        intervals_sent(rest);
        assert(all.drop_first() =~= Seq::new(rest.len(), |i: int| sent_span(rest[i])));
    }
}

proof fn cfg_sent(cfg: CfgModel)
    requires
        cfg_readable(cfg),
    ensures
        msg_laws::cfg_fits(sent_cfg(cfg)),
        unordered_msg::cfg_bytes(sent_cfg(cfg)) == unordered_msg::cfg_bytes(cfg),
{
    reveal(unordered_msg::cfg_bytes);
    wire::pow256_values();
    wire::be_bytes_low(cfg.send_queue, 4);
    wire::be_bytes_low(cfg.recv_queue, 4);
    wire::be_bytes_low(cfg.max_packet_size, 4);
    wire::be_bytes_low(cfg.connect_queue, 4);
    span_sent(cfg.heartbeat_interval);
    span_sent(cfg.link_timeout);
    intervals_sent(cfg.stats_intervals);
    let spans = sent_cfg(cfg).stats_intervals;
    assert forall|i: int| 0 <= i < spans.len() implies msg_laws::span_fits(
        #[trigger] spans[i],
    ) by {
        span_sent(cfg.stats_intervals[i]);
    }
}

/// What is read where a message was written: all of it but what has no place on the
/// wire. Spans lose what is below a millisecond, addresses their flow and scope, and
/// numbers what does not fit their field.
pub proof fn sent_is_read(msg: MsgModel, tail: Seq<u8>)
    requires
        msg_readable(msg),
    ensures
        unordered_msg::msg_bytes(sent(msg)) == unordered_msg::msg_bytes(msg),
        unordered_msg::read_msg(unordered_msg::msg_bytes(msg) + tail) == Ok::<
            (MsgModel, Seq<u8>),
            MsgError,
        >((sent(msg), tail)),
{
    match msg {
        MsgModel::Welcome { cfg, .. } => cfg_sent(cfg),
        MsgModel::Connect { cfg, .. } => cfg_sent(cfg),
        MsgModel::Accepted { cfg, .. } => cfg_sent(cfg),
        _ => {},
    }
    msg_laws::msg_round_trip(sent(msg), tail);
}

/// Every proper beginning of a written message is refused as too short.
pub proof fn beginnings_are_refused(msg: MsgModel, k: int)
    requires
        msg_readable(msg),
        0 <= k < unordered_msg::msg_bytes(msg).len(),
    ensures
        unordered_msg::read_msg(unordered_msg::msg_bytes(msg).take(k)) == Err::<
            (MsgModel, Seq<u8>),
            MsgError,
        >(MsgError::UnexpectedEof),
{
    let bytes = unordered_msg::msg_bytes(msg);
    sent_is_read(msg, Seq::empty());
    assert(bytes + Seq::<u8>::empty() =~= bytes);
    msg_cut(bytes, k);
}

} // verus!
