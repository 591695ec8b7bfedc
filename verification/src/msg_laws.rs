//! What reading gives back of what was written.
use crate::addr::SocketAddr;
use crate::time::Duration;
use crate::unordered_cfg;
use crate::unordered_cfg::CfgModel;
use crate::unordered_msg;
use crate::unordered_msg::MsgModel;
use crate::wire;
use crate::wire::MsgError;
use vstd::prelude::*;
use vstd::utf8;

verus! {

/// A span that survives being sent as milliseconds in eight bytes.
pub open spec fn span_fits(d: Duration) -> bool {
    d.nanos % 1_000_000 == 0 && d.millis() < 0x1_0000_0000_0000_0000
}

/// A configuration every field of which fits its place on the wire.
pub open spec fn cfg_fits(cfg: CfgModel) -> bool {
    &&& 0 < cfg.send_queue < 0x1_0000_0000
    &&& 0 < cfg.recv_queue < 0x1_0000_0000
    &&& span_fits(cfg.heartbeat_interval)
    &&& span_fits(cfg.link_timeout)
    &&& cfg.max_packet_size < 0x1_0000_0000
    &&& 0 < cfg.connect_queue < 0x1_0000_0000
    &&& cfg.stats_intervals.len() < 0x100
    &&& forall|i: int|
        0 <= i < cfg.stats_intervals.len() ==> span_fits(#[trigger] cfg.stats_intervals[i])
}

/// An original client address without anything that is not sent.
pub open spec fn client_fits(client: Option<SocketAddr>) -> bool {
    client matches Some(SocketAddr::V6(a)) ==> a.flowinfo == 0 && a.scope_id == 0
}

/// A message every field of which fits its place on the wire.
pub open spec fn msg_fits(msg: MsgModel) -> bool {
    match msg {
        MsgModel::Welcome { cfg, .. } => cfg_fits(cfg),
        MsgModel::Connect { user_data, cfg, .. } => user_data.len() < 0x1_0000 && cfg_fits(cfg),
        MsgModel::Accepted { cfg, .. } => cfg_fits(cfg),
        MsgModel::Data { original_client, payload, .. } => client_fits(original_client)
            && payload.len() < 0x1_0000_0000,
        MsgModel::Goodbye { reason } => utf8::encode_utf8(reason).len() < 0x1_0000,
        _ => true,
    }
}

proof fn assoc(a: Seq<u8>, b: Seq<u8>, c: Seq<u8>)
    ensures
        (a + b) + c == a + (b + c),
{
    assert((a + b) + c =~= a + (b + c));
}

proof fn take_after(v: nat, n: nat, more: Seq<u8>, tail: Seq<u8>)
    requires
        v < wire::pow256(n),
    ensures
        wire::take_int((wire::be_bytes(v, n) + more) + tail, n) == Ok::<
            (nat, Seq<u8>),
            MsgError,
        >((v, more + tail)),
{
    assoc(wire::be_bytes(v, n), more, tail);
    wire::take_int_of_concat(v, n, more + tail);
}

proof fn span_round_trip(d: Duration)
    requires
        span_fits(d),
    ensures
        unordered_cfg::millis(d.millis()) == d,
{
    assert(d.millis() * 1_000_000 == d.nanos);
}

proof fn intervals_round_trip(spans: Seq<Duration>, tail: Seq<u8>)
    requires
        forall|i: int| 0 <= i < spans.len() ==> span_fits(#[trigger] spans[i]),
    ensures
        unordered_msg::read_intervals(
            unordered_msg::intervals_bytes(spans) + tail,
            spans.len(),
        ) == Ok::<(Seq<Duration>, Seq<u8>), MsgError>((spans, tail)),
    decreases spans.len(),
{
    if spans.len() == 0 {
        assert(Seq::<u8>::empty() + tail =~= tail);
        assert(spans =~= Seq::empty());
    } else {
        let rest = spans.drop_first();
        assert forall|i: int| 0 <= i < rest.len() implies span_fits(#[trigger] rest[i]) by {
            assert(rest[i] == spans[i + 1]);
        }
        intervals_round_trip(rest, tail);
        wire::pow256_values();
        take_after(spans[0].millis(), 8, unordered_msg::intervals_bytes(rest), tail);
        span_round_trip(spans[0]);
        assert(seq![spans[0]] + rest =~= spans);
    }
}

/// Reading a written configuration gives the configuration back, and leaves
/// what follows it.
pub proof fn cfg_round_trip(cfg: CfgModel, tail: Seq<u8>)
    requires
        cfg_fits(cfg),
    ensures
        unordered_msg::read_cfg(unordered_msg::cfg_bytes(cfg) + tail) == Ok::<
            (CfgModel, Seq<u8>),
            MsgError,
        >((cfg, tail)),
{
    reveal(unordered_msg::cfg_bytes);
    reveal(unordered_msg::read_cfg);
    wire::pow256_values();
    let s9 = wire::be_bytes(unordered_msg::role_code(cfg.node_role), 1);
    let s8 = unordered_msg::intervals_bytes(cfg.stats_intervals) + s9;
    let s7 = wire::be_bytes(cfg.stats_intervals.len(), 1) + s8;
    let s6 = wire::be_bytes(cfg.connect_queue, 4) + s7;
    let s5 = wire::be_bytes(cfg.max_packet_size, 4) + s6;
    let s4 = wire::be_bytes(cfg.link_timeout.millis(), 8) + s5;
    let s3 = wire::be_bytes(cfg.heartbeat_interval.millis(), 8) + s4;
    let s2 = wire::be_bytes(unordered_msg::strategy_code(cfg.load_balance), 1) + s3;
    let s1 = wire::be_bytes(cfg.recv_queue, 4) + s2;
    take_after(cfg.send_queue, 4, s1, tail);
    take_after(cfg.recv_queue, 4, s2, tail);
    take_after(unordered_msg::strategy_code(cfg.load_balance), 1, s3, tail);
    take_after(cfg.heartbeat_interval.millis(), 8, s4, tail);
    take_after(cfg.link_timeout.millis(), 8, s5, tail);
    take_after(cfg.max_packet_size, 4, s6, tail);
    take_after(cfg.connect_queue, 4, s7, tail);
    take_after(cfg.stats_intervals.len(), 1, s8, tail);
    assoc(unordered_msg::intervals_bytes(cfg.stats_intervals), s9, tail);
    intervals_round_trip(cfg.stats_intervals, s9 + tail);
    wire::take_int_of_concat(unordered_msg::role_code(cfg.node_role), 1, tail);
    span_round_trip(cfg.heartbeat_interval);
    span_round_trip(cfg.link_timeout);
}

proof fn preamble_round_trip(more: Seq<u8>, tail: Seq<u8>)
    ensures
        unordered_msg::read_preamble(
            (unordered_msg::magic() + (wire::be_bytes(2, 1) + more)) + tail,
        ) == Ok::<Seq<u8>, MsgError>(more + tail),
{
    reveal(unordered_msg::read_preamble);
    wire::pow256_values();
    let rest = wire::be_bytes(2, 1) + more;
    assoc(unordered_msg::magic(), rest, tail);
    wire::take_bytes_of_concat(unordered_msg::magic(), rest + tail);
    take_after(2, 1, more, tail);
}

proof fn counted_round_trip(n: nat, bytes: Seq<u8>, tail: Seq<u8>)
    requires
        bytes.len() < wire::pow256(n),
    ensures
        unordered_msg::read_counted(unordered_msg::counted(n, bytes) + tail, n) == Ok::<
            (Seq<u8>, Seq<u8>),
            MsgError,
        >((bytes, tail)),
{
    take_after(bytes.len(), n, bytes, tail);
    wire::take_bytes_of_concat(bytes, tail);
}

proof fn client_round_trip(client: Option<SocketAddr>, tail: Seq<u8>)
    requires
        client_fits(client),
    ensures
        unordered_msg::read_client(unordered_msg::client_bytes(client) + tail) == Ok::<
            (Option<SocketAddr>, Seq<u8>),
            MsgError,
        >((client, tail)),
{
    reveal(unordered_msg::read_client);
    wire::pow256_values();
    match client {
        None => {
            wire::take_int_of_concat(0, 1, tail);
        },
        Some(SocketAddr::V4(a)) => {
            let s3 = wire::be_bytes(a.port as nat, 2);
            let s2 = wire::be_bytes(a.ip.bits as nat, 4) + s3;
            let s1 = wire::be_bytes(4, 1) + s2;
            take_after(1, 1, s1, tail);
            take_after(4, 1, s2, tail);
            take_after(a.ip.bits as nat, 4, s3, tail);
            wire::take_int_of_concat(a.port as nat, 2, tail);
        },
        Some(SocketAddr::V6(a)) => {
            let s3 = wire::be_bytes(a.port as nat, 2);
            let s2 = wire::be_bytes(a.ip.bits as nat, 16) + s3;
            let s1 = wire::be_bytes(6, 1) + s2;
            take_after(1, 1, s1, tail);
            take_after(6, 1, s2, tail);
            take_after(a.ip.bits as nat, 16, s3, tail);
            wire::take_int_of_concat(a.port as nat, 2, tail);
        },
    }
}

/// Reading a written message gives the message back, and leaves what follows
/// it.
pub proof fn msg_round_trip(msg: MsgModel, tail: Seq<u8>)
    requires
        msg_fits(msg),
    ensures
        unordered_msg::msg_error(msg) is None,
        unordered_msg::read_msg(unordered_msg::msg_bytes(msg) + tail) == Ok::<
            (MsgModel, Seq<u8>),
            MsgError,
        >((msg, tail)),
{
    wire::pow256_values();
    match msg {
        MsgModel::Welcome { cfg, link_id } => {
            let c = unordered_msg::cfg_bytes(cfg);
            let s2 = wire::be_bytes(link_id.0 as nat, 16) + c;
            let s1 = unordered_msg::magic() + (wire::be_bytes(2, 1) + s2);
            take_after(1, 1, s1, tail);
            preamble_round_trip(s2, tail);
            take_after(link_id.0 as nat, 16, c, tail);
            cfg_round_trip(cfg, tail);
        },
        MsgModel::Connect { group_id, user_data, cfg } => {
            let c = unordered_msg::cfg_bytes(cfg);
            let d = unordered_msg::counted(2, user_data);
            let s2 = wire::be_bytes(group_id as nat, 8) + (d + c);
            let s1 = unordered_msg::magic() + (wire::be_bytes(2, 1) + s2);
            take_after(2, 1, s1, tail);
            preamble_round_trip(s2, tail);
            take_after(group_id as nat, 8, d + c, tail);
            assoc(d, c, tail);
            counted_round_trip(2, user_data, c + tail);
            cfg_round_trip(cfg, tail);
        },
        MsgModel::Accepted { link_id, cfg } => {
            let c = unordered_msg::cfg_bytes(cfg);
            take_after(3, 1, wire::be_bytes(link_id.0 as nat, 16) + c, tail);
            take_after(link_id.0 as nat, 16, c, tail);
            cfg_round_trip(cfg, tail);
        },
        MsgModel::Refused { reason } => {
            let code = unordered_msg::reason_code(reason);
            take_after(4, 1, wire::be_bytes(code, 1), tail);
            wire::take_int_of_concat(code, 1, tail);
        },
        MsgModel::Ping { timestamp } => {
            take_after(5, 1, wire::be_bytes(timestamp as nat, 8), tail);
            wire::take_int_of_concat(timestamp as nat, 8, tail);
        },
        MsgModel::Pong { timestamp } => {
            take_after(6, 1, wire::be_bytes(timestamp as nat, 8), tail);
            wire::take_int_of_concat(timestamp as nat, 8, tail);
        },
        MsgModel::Data { link_id, session_id, original_client, payload } => {
            let p = unordered_msg::counted(4, payload);
            let c = unordered_msg::client_bytes(original_client);
            let s2 = wire::be_bytes(session_id as nat, 8) + (c + p);
            let s1 = wire::be_bytes(link_id.0 as nat, 16) + s2;
            take_after(7, 1, s1, tail);
            take_after(link_id.0 as nat, 16, s2, tail);
            take_after(session_id as nat, 8, c + p, tail);
            assoc(c, p, tail);
            client_round_trip(original_client, p + tail);
            counted_round_trip(4, payload, tail);
        },
        MsgModel::LinkStatus { link_id, status } => {
            let code = unordered_msg::status_code(status);
            let s2 = wire::be_bytes(code, 1);
            take_after(8, 1, wire::be_bytes(link_id.0 as nat, 16) + s2, tail);
            take_after(link_id.0 as nat, 16, s2, tail);
            wire::take_int_of_concat(code, 1, tail);
        },
        MsgModel::Goodbye { reason } => {
            let text = utf8::encode_utf8(reason);
            take_after(9, 1, unordered_msg::counted(2, text), tail);
            counted_round_trip(2, text, tail);
            utf8::encode_utf8_valid_utf8(reason);
            utf8::encode_utf8_decode_utf8(reason);
        },
    }
}

proof fn intervals_inverse(s: Seq<u8>, count: nat)
    requires
        unordered_msg::read_intervals(s, count) is Ok,
    ensures
        ({
            let (spans, rest) = unordered_msg::read_intervals(s, count)->Ok_0;
            &&& s == unordered_msg::intervals_bytes(spans) + rest
            &&& spans.len() == count
            &&& forall|i: int| 0 <= i < spans.len() ==> span_fits(#[trigger] spans[i])
        }),
    decreases count,
{
    if count == 0 {
        assert(Seq::<u8>::empty() + s =~= s);
    } else {
        wire::pow256_values();
        wire::take_int_inverse(s, 8);
        let (ms, s1) = wire::take_int(s, 8)->Ok_0;
        intervals_inverse(s1, (count - 1) as nat);
        let (tail, rest) = unordered_msg::read_intervals(s1, (count - 1) as nat)->Ok_0;
        let first = unordered_cfg::millis(ms);
        let spans = seq![first] + tail;
        assert(first.millis() == ms);
        assert(spans.drop_first() =~= tail);
        assoc(wire::be_bytes(ms, 8), unordered_msg::intervals_bytes(tail), rest);
        assert forall|i: int| 0 <= i < spans.len() implies span_fits(#[trigger] spans[i]) by {
            if i > 0 {
                assert(spans[i] == tail[i - 1]);
            }
        }
    }
}

/// A configuration that was read fits the wire, and writing it again gives the
/// bytes that were read.
pub proof fn cfg_read_inverse(s: Seq<u8>)
    requires
        unordered_msg::read_cfg(s) is Ok,
    ensures
        cfg_fits(unordered_msg::read_cfg(s)->Ok_0.0),
        s == unordered_msg::cfg_bytes(unordered_msg::read_cfg(s)->Ok_0.0)
            + unordered_msg::read_cfg(s)->Ok_0.1,
{
    reveal(unordered_msg::cfg_bytes);
    reveal(unordered_msg::read_cfg);
    wire::pow256_values();
    let (cfg, rest) = unordered_msg::read_cfg(s)->Ok_0;
    wire::take_int_inverse(s, 4);
    let t1 = wire::take_int(s, 4)->Ok_0.1;
    wire::take_int_inverse(t1, 4);
    let t2 = wire::take_int(t1, 4)->Ok_0.1;
    wire::take_int_inverse(t2, 1);
    let t3 = wire::take_int(t2, 1)->Ok_0.1;
    wire::take_int_inverse(t3, 8);
    let t4 = wire::take_int(t3, 8)->Ok_0.1;
    wire::take_int_inverse(t4, 8);
    let t5 = wire::take_int(t4, 8)->Ok_0.1;
    wire::take_int_inverse(t5, 4);
    let t6 = wire::take_int(t5, 4)->Ok_0.1;
    wire::take_int_inverse(t6, 4);
    let t7 = wire::take_int(t6, 4)->Ok_0.1;
    wire::take_int_inverse(t7, 1);
    let (count, t8) = wire::take_int(t7, 1)->Ok_0;
    intervals_inverse(t8, count);
    let t9 = unordered_msg::read_intervals(t8, count)->Ok_0.1;
    wire::take_int_inverse(t9, 1);
    let s9 = wire::be_bytes(unordered_msg::role_code(cfg.node_role), 1);
    let s8 = unordered_msg::intervals_bytes(cfg.stats_intervals) + s9;
    let s7 = wire::be_bytes(cfg.stats_intervals.len(), 1) + s8;
    let s6 = wire::be_bytes(cfg.connect_queue, 4) + s7;
    let s5 = wire::be_bytes(cfg.max_packet_size, 4) + s6;
    let s4 = wire::be_bytes(cfg.link_timeout.millis(), 8) + s5;
    let s3 = wire::be_bytes(cfg.heartbeat_interval.millis(), 8) + s4;
    let s2 = wire::be_bytes(unordered_msg::strategy_code(cfg.load_balance), 1) + s3;
    let s1 = wire::be_bytes(cfg.recv_queue, 4) + s2;
    assoc(unordered_msg::intervals_bytes(cfg.stats_intervals), s9, rest);
    assoc(wire::be_bytes(cfg.stats_intervals.len(), 1), s8, rest);
    assoc(wire::be_bytes(cfg.connect_queue, 4), s7, rest);
    assoc(wire::be_bytes(cfg.max_packet_size, 4), s6, rest);
    assoc(wire::be_bytes(cfg.link_timeout.millis(), 8), s5, rest);
    assoc(wire::be_bytes(cfg.heartbeat_interval.millis(), 8), s4, rest);
    assoc(wire::be_bytes(unordered_msg::strategy_code(cfg.load_balance), 1), s3, rest);
    assoc(wire::be_bytes(cfg.recv_queue, 4), s2, rest);
    assoc(wire::be_bytes(cfg.send_queue, 4), s1, rest);
}

proof fn preamble_inverse(s: Seq<u8>)
    requires
        unordered_msg::read_preamble(s) is Ok,
    ensures
        s == unordered_msg::magic() + (wire::be_bytes(2, 1)
            + unordered_msg::read_preamble(s)->Ok_0),
{
    reveal(unordered_msg::read_preamble);
    let (front, s1) = wire::take_bytes(s, 5)->Ok_0;
    assert(s =~= front + s1);
    wire::take_int_inverse(s1, 1);
}

proof fn counted_inverse(s: Seq<u8>, n: nat)
    requires
        unordered_msg::read_counted(s, n) is Ok,
    ensures
        unordered_msg::read_counted(s, n)->Ok_0.0.len() < wire::pow256(n),
        s == unordered_msg::counted(n, unordered_msg::read_counted(s, n)->Ok_0.0)
            + unordered_msg::read_counted(s, n)->Ok_0.1,
{
    wire::take_int_inverse(s, n);
    let (len, s1) = wire::take_int(s, n)->Ok_0;
    let (bytes, rest) = wire::take_bytes(s1, len)->Ok_0;
    assert(s1 =~= bytes + rest);
    assoc(wire::be_bytes(len, n), bytes, rest);
}

proof fn client_inverse(s: Seq<u8>)
    requires
        unordered_msg::read_client(s) is Ok,
        s[0] <= 1,
    ensures
        client_fits(unordered_msg::read_client(s)->Ok_0.0),
        s == unordered_msg::client_bytes(unordered_msg::read_client(s)->Ok_0.0)
            + unordered_msg::read_client(s)->Ok_0.1,
{
    reveal(unordered_msg::read_client);
    wire::pow256_values();
    let (client, rest) = unordered_msg::read_client(s)->Ok_0;
    wire::take_int_inverse(s, 1);
    let (present, s1) = wire::take_int(s, 1)->Ok_0;
    wire::be_bytes_one(present);
    assert(present == s[0]) by {
        wire::be_bytes_one(s[0] as nat);
        wire::be_round_trip(s[0] as nat, 1);
        assert(s.subrange(0, 1) =~= wire::be_bytes(s[0] as nat, 1));
    }
    if present != 0 {
        wire::take_int_inverse(s1, 1);
        let (kind, s2) = wire::take_int(s1, 1)->Ok_0;
        let width: nat = if kind == 4 {
            4
        } else {
            16
        };
        wire::take_int_inverse(s2, width);
        let (bits, s3) = wire::take_int(s2, width)->Ok_0;
        wire::take_int_inverse(s3, 2);
        let port = wire::take_int(s3, 2)->Ok_0.0;
        let p = wire::be_bytes(port, 2);
        let b = wire::be_bytes(bits, width);
        assoc(b, p, rest);
        assoc(wire::be_bytes(kind, 1), b + p, rest);
        assoc(wire::be_bytes(1, 1), wire::be_bytes(kind, 1) + (b + p), rest);
    }
}

/// A data message whose address flag is neither zero nor one is accepted, and
/// is written back with one. Every other message has one form only.
pub open spec fn canonical(s: Seq<u8>) -> bool {
    s.len() > 25 && s[0] == 7 ==> s[25] <= 1
}

proof fn first_byte(s: Seq<u8>)
    requires
        s.len() >= 1,
    ensures
        wire::take_int(s, 1) == Ok::<(nat, Seq<u8>), MsgError>(
            (s[0] as nat, s.subrange(1, s.len() as int)),
        ),
{
    wire::be_bytes_one(s[0] as nat);
    wire::pow256_values();
    wire::be_round_trip(s[0] as nat, 1);
    assert(s.subrange(0, 1) =~= wire::be_bytes(s[0] as nat, 1));
}

/// A message that was read fits the wire, and writing it again gives the bytes
/// that were read.
pub proof fn msg_read_inverse(s: Seq<u8>)
    requires
        unordered_msg::read_msg(s) is Ok,
        canonical(s),
    ensures
        msg_fits(unordered_msg::read_msg(s)->Ok_0.0),
        s == unordered_msg::msg_bytes(unordered_msg::read_msg(s)->Ok_0.0)
            + unordered_msg::read_msg(s)->Ok_0.1,
{
    wire::pow256_values();
    let (msg, rest) = unordered_msg::read_msg(s)->Ok_0;
    wire::take_int_inverse(s, 1);
    first_byte(s);
    let (kind, s1) = wire::take_int(s, 1)->Ok_0;
    match msg {
        MsgModel::Welcome { cfg, link_id } => {
            preamble_inverse(s1);
            let s2 = unordered_msg::read_preamble(s1)->Ok_0;
            wire::take_int_inverse(s2, 16);
            let s3 = wire::take_int(s2, 16)->Ok_0.1;
            cfg_read_inverse(s3);
            let c = unordered_msg::cfg_bytes(cfg);
            let l = wire::be_bytes(link_id.0 as nat, 16);
            assoc(l, c, rest);
            assoc(wire::be_bytes(2, 1), l + c, rest);
            assoc(unordered_msg::magic(), wire::be_bytes(2, 1) + (l + c), rest);
            assoc(
                wire::be_bytes(1, 1),
                unordered_msg::magic() + (wire::be_bytes(2, 1) + (l + c)),
                rest,
            );
        },
        MsgModel::Connect { group_id, user_data, cfg } => {
            preamble_inverse(s1);
            let s2 = unordered_msg::read_preamble(s1)->Ok_0;
            wire::take_int_inverse(s2, 8);
            let s3 = wire::take_int(s2, 8)->Ok_0.1;
            counted_inverse(s3, 2);
            let s4 = unordered_msg::read_counted(s3, 2)->Ok_0.1;
            cfg_read_inverse(s4);
            let c = unordered_msg::cfg_bytes(cfg);
            let d = unordered_msg::counted(2, user_data);
            let g = wire::be_bytes(group_id as nat, 8);
            assoc(d, c, rest);
            assoc(g, d + c, rest);
            assoc(wire::be_bytes(2, 1), g + (d + c), rest);
            assoc(unordered_msg::magic(), wire::be_bytes(2, 1) + (g + (d + c)), rest);
            assoc(
                wire::be_bytes(2, 1),
                unordered_msg::magic() + (wire::be_bytes(2, 1) + (g + (d + c))),
                rest,
            );
        },
        MsgModel::Accepted { link_id, cfg } => {
            wire::take_int_inverse(s1, 16);
            let s2 = wire::take_int(s1, 16)->Ok_0.1;
            cfg_read_inverse(s2);
            let c = unordered_msg::cfg_bytes(cfg);
            let l = wire::be_bytes(link_id.0 as nat, 16);
            assoc(l, c, rest);
            assoc(wire::be_bytes(3, 1), l + c, rest);
        },
        MsgModel::Refused { reason } => {
            wire::take_int_inverse(s1, 1);
            assoc(
                wire::be_bytes(4, 1),
                wire::be_bytes(unordered_msg::reason_code(reason), 1),
                rest,
            );
        },
        MsgModel::Ping { timestamp } => {
            wire::take_int_inverse(s1, 8);
            assoc(wire::be_bytes(5, 1), wire::be_bytes(timestamp as nat, 8), rest);
        },
        MsgModel::Pong { timestamp } => {
            wire::take_int_inverse(s1, 8);
            assoc(wire::be_bytes(6, 1), wire::be_bytes(timestamp as nat, 8), rest);
        },
        MsgModel::Data { link_id, session_id, original_client, payload } => {
            wire::take_int_inverse(s1, 16);
            let s2 = wire::take_int(s1, 16)->Ok_0.1;
            wire::take_int_inverse(s2, 8);
            let s3 = wire::take_int(s2, 8)->Ok_0.1;
            reveal(unordered_msg::read_client);
            assert(s3.len() > 0);
            assert(s3[0] == s[25]);
            client_inverse(s3);
            let s4 = unordered_msg::read_client(s3)->Ok_0.1;
            counted_inverse(s4, 4);
            let p = unordered_msg::counted(4, payload);
            let c = unordered_msg::client_bytes(original_client);
            let i = wire::be_bytes(session_id as nat, 8);
            let l = wire::be_bytes(link_id.0 as nat, 16);
            assoc(c, p, rest);
            assoc(i, c + p, rest);
            assoc(l, i + (c + p), rest);
            assoc(wire::be_bytes(7, 1), l + (i + (c + p)), rest);
        },
        MsgModel::LinkStatus { link_id, status } => {
            wire::take_int_inverse(s1, 16);
            let s2 = wire::take_int(s1, 16)->Ok_0.1;
            wire::take_int_inverse(s2, 1);
            let c = wire::be_bytes(unordered_msg::status_code(status), 1);
            let l = wire::be_bytes(link_id.0 as nat, 16);
            assoc(l, c, rest);
            assoc(wire::be_bytes(8, 1), l + c, rest);
        },
        MsgModel::Goodbye { reason } => {
            counted_inverse(s1, 2);
            let bytes = unordered_msg::read_counted(s1, 2)->Ok_0.0;
            utf8::decode_utf8_encode_utf8(bytes);
            assoc(wire::be_bytes(9, 1), unordered_msg::counted(2, bytes), rest);
        },
    }
}

/// Two messages that fit the wire and have the same bytes are the same.
pub proof fn msg_bytes_injective(a: MsgModel, b: MsgModel)
    requires
        msg_fits(a),
        msg_fits(b),
        unordered_msg::msg_bytes(a) == unordered_msg::msg_bytes(b),
    ensures
        a == b,
{
    msg_round_trip(a, Seq::empty());
    msg_round_trip(b, Seq::empty());
}

/// Every preset configuration fits the wire.
pub proof fn presets_fit()
    ensures
        cfg_fits(CfgModel::typical()),
        cfg_fits(CfgModel::low_latency()),
        cfg_fits(CfgModel::high_throughput()),
        cfg_fits(CfgModel::unreliable_network()),
{
}

} // verus!
