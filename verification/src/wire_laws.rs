//! What peers can rely on of the bytes that are sent.
use crate::msg_laws;
use crate::unordered_cfg::{LoadBalanceStrategy, NodeRole, UnorderedCfg};
use crate::unordered_msg;
use crate::unordered_msg::{LinkStatus, RefusedReason, UnorderedLinkMsg};
use crate::wire;
use crate::wire::{Cursor, MsgError, MsgErrorKind};
use vstd::prelude::*;
use vstd::utf8;

verus! {

/// A written message is read back, whatever follows it, and reading stops behind it.
pub proof fn written_messages_are_read(
    msg: UnorderedLinkMsg,
    writer: &mut Vec<u8>,
    tail: Seq<u8>,
    written: Result<(), MsgError>,
    reader: &mut Cursor<'_>,
    read: Result<UnorderedLinkMsg, MsgError>,
)
    requires
        msg_laws::msg_fits(msg@),
        old(writer)@.len() == 0,
        call_ensures(UnorderedLinkMsg::write, (&msg, writer), written),
        old(reader).rest() == final(writer)@ + tail,
        call_ensures(UnorderedLinkMsg::read, (reader,), read),
    ensures
        written is Ok,
        read matches Ok(back) && back@ == msg@,
        final(reader).rest() == tail,
{
    msg_laws::msg_round_trip(msg@, tail);
    assert(Seq::<u8>::empty() + unordered_msg::msg_bytes(msg@) =~= unordered_msg::msg_bytes(msg@));
    assert(old(writer)@ =~= Seq::<u8>::empty());
}

/// A written configuration is read back, whatever follows it.
pub proof fn written_configurations_are_read(
    cfg: UnorderedCfg,
    writer: &mut Vec<u8>,
    tail: Seq<u8>,
    written: Result<(), MsgError>,
    reader: &mut Cursor<'_>,
    read: Result<UnorderedCfg, MsgError>,
)
    requires
        msg_laws::cfg_fits(cfg@),
        old(writer)@.len() == 0,
        call_ensures(UnorderedCfg::write, (&cfg, writer), written),
        old(reader).rest() == final(writer)@ + tail,
        call_ensures(UnorderedCfg::read, (reader,), read),
    ensures
        written is Ok,
        read matches Ok(back) && back@ == cfg@,
        final(reader).rest() == tail,
{
    msg_laws::cfg_round_trip(cfg@, tail);
    assert(old(writer)@ =~= Seq::<u8>::empty());
    assert(Seq::<u8>::empty() + unordered_msg::cfg_bytes(cfg@) =~= unordered_msg::cfg_bytes(cfg@));
}

/// A message begins with the byte that tells its kind. A handshake goes on with the letters
/// `UAGG`, a zero byte and the version of the protocol.
pub proof fn messages_begin_with_their_kind(
    msg: UnorderedLinkMsg,
    writer: &mut Vec<u8>,
    written: Result<(), MsgError>,
)
    requires
        call_ensures(UnorderedLinkMsg::write, (&msg, writer), written),
    ensures
        ({
            let added = final(writer)@.skip(old(writer)@.len() as int);
            &&& final(writer)@ == old(writer)@ + added
            &&& added.len() > 0
            &&& added[0] == (match msg {
                UnorderedLinkMsg::Welcome { .. } => 1u8,
                UnorderedLinkMsg::Connect { .. } => 2,
                UnorderedLinkMsg::Accepted { .. } => 3,
                UnorderedLinkMsg::Refused { .. } => 4,
                UnorderedLinkMsg::Ping { .. } => 5,
                UnorderedLinkMsg::Pong { .. } => 6,
                UnorderedLinkMsg::Data { .. } => 7,
                UnorderedLinkMsg::LinkStatus { .. } => 8,
                UnorderedLinkMsg::Goodbye { .. } => 9,
            })
            &&& msg is Welcome || msg is Connect ==> added.len() >= 7 && added.subrange(1, 7)
                == seq![0x55u8, 0x41, 0x47, 0x47, 0, 2]
        }),
{
    let bytes = unordered_msg::msg_bytes(msg@);
    let added = final(writer)@.skip(old(writer)@.len() as int);
    assert(added =~= bytes);
    assert(final(writer)@ =~= old(writer)@ + added);
    wire::be_bytes_one(1);
    wire::be_bytes_one(2);
    wire::be_bytes_one(3);
    wire::be_bytes_one(4);
    wire::be_bytes_one(5);
    wire::be_bytes_one(6);
    wire::be_bytes_one(7);
    wire::be_bytes_one(8);
    wire::be_bytes_one(9);
    if msg is Welcome || msg is Connect {
        assert(added.subrange(1, 7) =~= seq![0x55u8, 0x41, 0x47, 0x47, 0, 2]);
    }
}

/// Heartbeats carry their timestamp in eight bytes, the most significant first; data
/// carries link, session and length of the payload in the same way, and a zero byte where
/// there is no original client.
pub proof fn messages_are_laid_out(
    msg: UnorderedLinkMsg,
    writer: &mut Vec<u8>,
    written: Result<(), MsgError>,
)
    requires
        call_ensures(UnorderedLinkMsg::write, (&msg, writer), written),
        written is Ok,
    ensures
        ({
            let added = final(writer)@.skip(old(writer)@.len() as int);
            match msg {
                UnorderedLinkMsg::Ping { timestamp } => added.len() == 9 && wire::be_value(
                    added.subrange(1, 9),
                ) == timestamp,
                UnorderedLinkMsg::Pong { timestamp } => added.len() == 9 && wire::be_value(
                    added.subrange(1, 9),
                ) == timestamp,
                UnorderedLinkMsg::Data { link_id, session_id, original_client, payload } => {
                    &&& added.len() >= 30 + payload@.len()
                    &&& wire::be_value(added.subrange(1, 17)) == link_id.0
                    &&& wire::be_value(added.subrange(17, 25)) == session_id
                    &&& added[25] == (if original_client is Some {
                        1u8
                    } else {
                        0
                    })
                    &&& original_client is None ==> added.len() == 30 + payload@.len()
                        && wire::be_value(added.subrange(26, 30)) == payload@.len()
                    &&& added.subrange(added.len() - payload@.len(), added.len() as int) == payload@
                },
                UnorderedLinkMsg::LinkStatus { link_id, .. } => added.len() == 18
                    && wire::be_value(added.subrange(1, 17)) == link_id.0,
                UnorderedLinkMsg::Refused { .. } => added.len() == 2,
                _ => true,
            }
        }),
{
    let bytes = unordered_msg::msg_bytes(msg@);
    let added = final(writer)@.skip(old(writer)@.len() as int);
    assert(added =~= bytes);
    wire::pow256_values();
    match msg {
        UnorderedLinkMsg::Ping { timestamp } => {
            wire::be_bytes_len(5, 1);
            wire::be_bytes_len(timestamp as nat, 8);
            number_at(added, timestamp as nat, 8, 1);
        },
        UnorderedLinkMsg::Pong { timestamp } => {
            wire::be_bytes_len(6, 1);
            wire::be_bytes_len(timestamp as nat, 8);
            number_at(added, timestamp as nat, 8, 1);
        },
        UnorderedLinkMsg::Data { link_id, session_id, original_client, payload } => {
            wire::be_bytes_len(7, 1);
            wire::be_bytes_len(link_id.0 as nat, 16);
            wire::be_bytes_len(session_id as nat, 8);
            wire::be_bytes_one(0);
            wire::be_bytes_one(1);
            wire::be_bytes_len(payload@.len(), 4);
            client_len(original_client);
            number_at(added, link_id.0 as nat, 16, 1);
            number_at(added, session_id as nat, 8, 17);
            if original_client is None {
                number_at(added, payload@.len(), 4, 26);
            }
            assert(added.subrange(added.len() - payload@.len(), added.len() as int) =~= payload@);
        },
        UnorderedLinkMsg::LinkStatus { link_id, status } => {
            wire::be_bytes_len(8, 1);
            wire::be_bytes_len(link_id.0 as nat, 16);
            wire::be_bytes_len(unordered_msg::status_code(status), 1);
            number_at(added, link_id.0 as nat, 16, 1);
        },
        UnorderedLinkMsg::Refused { reason } => {
            wire::be_bytes_len(4, 1);
            wire::be_bytes_len(unordered_msg::reason_code(reason), 1);
        },
        _ => {},
    }
}

proof fn client_len(client: Option<crate::addr::SocketAddr>)
    ensures
        unordered_msg::client_bytes(client).len() >= 1,
        client is None ==> unordered_msg::client_bytes(client).len() == 1,
        unordered_msg::client_bytes(client)[0] == (if client is Some {
            1u8
        } else {
            0
        }),
{
    wire::be_bytes_one(0);
    wire::be_bytes_one(1);
}

proof fn number_at(bytes: Seq<u8>, v: nat, n: nat, at: int)
    requires
        v < wire::pow256(n),
        0 <= at,
        wire::be_bytes(v, n).len() == n ==> at + n <= bytes.len() && bytes.subrange(at, at + n)
            =~= wire::be_bytes(v, n),
    ensures
        wire::be_value(bytes.subrange(at, at + n)) == v,
{
    wire::be_bytes_len(v, n);
    wire::be_round_trip(v, n);
}

/// A reason is sent as one byte, and a byte is read as the reason that it was sent for;
/// other bytes are refused.
pub proof fn reasons_have_codes(
    reason: RefusedReason,
    writer: &mut Vec<u8>,
    written: Result<(), MsgError>,
    reader: &mut Cursor<'_>,
    read: Result<RefusedReason, MsgError>,
)
    requires
        call_ensures(RefusedReason::write, (&reason, writer), written),
        call_ensures(RefusedReason::read, (reader,), read),
        old(reader).rest().len() > 0,
    ensures
        final(writer)@ == old(writer)@.push(
            match reason {
                RefusedReason::GroupNotFound => 1u8,
                RefusedReason::GroupFull => 2,
                RefusedReason::IncompatibleConfig => 3,
                RefusedReason::ServerShutdown => 4,
                RefusedReason::AuthFailed => 5,
                RefusedReason::RateLimited => 6,
            },
        ),
        match read {
            Ok(back) => back == reason <==> old(reader).rest()[0] == final(writer)@.last(),
            Err(e) => e is UnknownRefusedReason && (old(reader).rest()[0] == 0 || old(
                reader,
            ).rest()[0] > 6),
        },
{
    let code = unordered_msg::reason_code(reason);
    wire::be_bytes_one(code);
    assert(old(writer)@ + wire::be_bytes(code, 1) =~= old(writer)@.push(code as u8));
    first_byte_is_read(old(reader).rest());
}

/// A status is sent as one byte, and a byte is read as the status that it was sent for;
/// other bytes are refused.
pub proof fn statuses_have_codes(
    status: LinkStatus,
    writer: &mut Vec<u8>,
    written: Result<(), MsgError>,
    reader: &mut Cursor<'_>,
    read: Result<LinkStatus, MsgError>,
)
    requires
        call_ensures(LinkStatus::write, (&status, writer), written),
        call_ensures(LinkStatus::read, (reader,), read),
        old(reader).rest().len() > 0,
    ensures
        final(writer)@ == old(writer)@.push(
            match status {
                LinkStatus::Active => 1u8,
                LinkStatus::Blocked => 2,
                LinkStatus::Slow => 3,
                LinkStatus::Disconnecting => 4,
            },
        ),
        match read {
            Ok(back) => back == status <==> old(reader).rest()[0] == final(writer)@.last(),
            Err(e) => e is UnknownLinkStatus && (old(reader).rest()[0] == 0 || old(reader).rest()[0]
                > 4),
        },
{
    let code = unordered_msg::status_code(status);
    wire::be_bytes_one(code);
    assert(old(writer)@ + wire::be_bytes(code, 1) =~= old(writer)@.push(code as u8));
    first_byte_is_read(old(reader).rest());
}

proof fn first_byte_is_read(s: Seq<u8>)
    requires
        s.len() > 0,
    ensures
        wire::take_int(s, 1) == Ok::<(nat, Seq<u8>), MsgError>(
            (s[0] as nat, s.subrange(1, s.len() as int)),
        ),
{
    wire::be_bytes_one(s[0] as nat);
    wire::pow256_values();
    wire::be_round_trip(s[0] as nat, 1);
    assert(s.subrange(0, 1) =~= wire::be_bytes(s[0] as nat, 1));
}

/// A configuration holds its queue lengths in four bytes each, then the byte of its
/// strategy, and ends with the byte of its role.
pub proof fn configurations_are_laid_out(
    cfg: UnorderedCfg,
    writer: &mut Vec<u8>,
    written: Result<(), MsgError>,
)
    requires
        call_ensures(UnorderedCfg::write, (&cfg, writer), written),
        cfg@.send_queue < 0x1_0000_0000,
        cfg@.recv_queue < 0x1_0000_0000,
    ensures
        ({
            let added = final(writer)@.skip(old(writer)@.len() as int);
            &&& added.len() == 35 + 8 * cfg@.stats_intervals.len()
            &&& wire::be_value(added.subrange(0, 4)) == cfg@.send_queue
            &&& wire::be_value(added.subrange(4, 8)) == cfg@.recv_queue
            &&& added[8] == (match cfg@.load_balance {
                LoadBalanceStrategy::PacketRoundRobin => 1u8,
                LoadBalanceStrategy::WeightedByBandwidth => 2,
                LoadBalanceStrategy::FastestFirst => 3,
                LoadBalanceStrategy::WeightedByPacketLoss => 4,
                LoadBalanceStrategy::DynamicAdaptive => 5,
            })
            &&& added.last() == (match cfg@.node_role {
                NodeRole::Client => 1u8,
                NodeRole::Server => 2,
                NodeRole::Balanced => 3,
            })
        }),
{
    reveal(unordered_msg::cfg_bytes);
    let c = cfg@;
    let added = final(writer)@.skip(old(writer)@.len() as int);
    assert(added =~= unordered_msg::cfg_bytes(c));
    wire::pow256_values();
    wire::be_bytes_len(c.send_queue, 4);
    wire::be_bytes_len(c.recv_queue, 4);
    wire::be_bytes_one(unordered_msg::strategy_code(c.load_balance));
    wire::be_bytes_len(c.heartbeat_interval.millis(), 8);
    wire::be_bytes_len(c.link_timeout.millis(), 8);
    wire::be_bytes_len(c.max_packet_size, 4);
    wire::be_bytes_len(c.connect_queue, 4);
    wire::be_bytes_len(c.stats_intervals.len(), 1);
    intervals_len(c.stats_intervals);
    wire::be_bytes_one(unordered_msg::role_code(c.node_role));
    number_at(added, c.send_queue, 4, 0);
    number_at(added, c.recv_queue, 4, 4);
}

proof fn intervals_len(spans: Seq<crate::time::Duration>)
    ensures
        unordered_msg::intervals_bytes(spans).len() == 8 * spans.len(),
    decreases spans.len(),
{
    if spans.len() > 0 {
        wire::be_bytes_len(spans[0].millis(), 8);
        intervals_len(spans.drop_first());
    }
}

/// Numbers are read most significant byte first, and only if all their bytes are there.
pub proof fn numbers_are_read_in_order(
    c1: &mut Cursor<'_>,
    c2: &mut Cursor<'_>,
    c4: &mut Cursor<'_>,
    r1: Result<u8, MsgError>,
    r2: Result<u16, MsgError>,
    r4: Result<u32, MsgError>,
)
    requires
        call_ensures(Cursor::read_u8, (c1,), r1),
        call_ensures(Cursor::read_u16, (c2,), r2),
        call_ensures(Cursor::read_u32, (c4,), r4),
    ensures
        match r1 {
            Ok(v) => old(c1).rest().len() >= 1 && v == old(c1).rest()[0] && final(c1).rest() == old(
                c1,
            ).rest().skip(1),
            Err(e) => e is UnexpectedEof && old(c1).rest().len() < 1,
        },
        match r2 {
            Ok(v) => old(c2).rest().len() >= 2 && v == 256 * old(c2).rest()[0] + old(
                c2,
            ).rest()[1] && final(c2).rest() == old(c2).rest().skip(2),
            Err(e) => e is UnexpectedEof && old(c2).rest().len() < 2,
        },
        match r4 {
            Ok(v) => old(c4).rest().len() >= 4 && v == 0x100_0000 * old(c4).rest()[0] + 0x1_0000
                * old(c4).rest()[1] + 0x100 * old(c4).rest()[2] + old(c4).rest()[3] && final(c4).rest()
                == old(c4).rest().skip(4),
            Err(e) => e is UnexpectedEof && old(c4).rest().len() < 4,
        },
{
    let s1 = old(c1).rest();
    let s2 = old(c2).rest();
    let s4 = old(c4).rest();
    if s1.len() >= 1 {
        first_byte_is_read(s1);
        assert(s1.subrange(1, s1.len() as int) =~= s1.skip(1));
    }
    if s2.len() >= 2 {
        value_of_four(s2.subrange(0, 2));
        assert(s2.subrange(2, s2.len() as int) =~= s2.skip(2));
    }
    if s4.len() >= 4 {
        value_of_four(s4.subrange(0, 4));
        assert(s4.subrange(4, s4.len() as int) =~= s4.skip(4));
    }
}

proof fn value_of_four(s: Seq<u8>)
    ensures
        s.len() == 2 ==> wire::be_value(s) == 256 * s[0] + s[1],
        s.len() == 4 ==> wire::be_value(s) == 0x100_0000 * s[0] + 0x1_0000 * s[1] + 0x100 * s[2]
            + s[3],
{
    reveal_with_fuel(wire::be_value, 5);
    if s.len() == 2 || s.len() == 4 {
        let a = s.drop_last();
        let b = a.drop_last();
        assert(s.last() == s[s.len() - 1] && a.last() == s[s.len() - 2]);
        if s.len() == 4 {
            let c = b.drop_last();
            assert(b.last() == s[1] && c.last() == s[0]);
            assert(c.drop_last().len() == 0);
        } else {
            assert(b.len() == 0);
        }
    }
}

/// Bytes least significant first: each is what is left of the number after as many
/// divisions by 256.
pub proof fn little_end_comes_first(v: u64, n: usize, bytes: Vec<u8>, i: int)
    requires
        call_ensures(wire::to_le_bytes, (v, n), bytes),
        0 <= i < n,
    ensures
        bytes@.len() == n,
        bytes@[i] == (v as nat / wire::pow256(i as nat)) % 256,
{
    le_byte(v as nat, n as nat, i);
}

proof fn le_byte(v: nat, n: nat, i: int)
    requires
        0 <= i < n,
    ensures
        wire::le_bytes(v, n).len() == n,
        wire::le_bytes(v, n)[i] == (v / wire::pow256(i as nat)) % 256,
    decreases n,
{
    le_len(v, n);
    if i > 0 {
        let p = wire::pow256((i - 1) as nat);
        le_byte(v / 256, (n - 1) as nat, i - 1);
        wire_power_is_positive((i - 1) as nat);
        vstd::arithmetic::div_mod::lemma_div_denominator(v as int, 256, p as int);
    } else {
        assert(wire::pow256(0) == 1);
        assert(v / 1 == v);
    }
}

proof fn le_len(v: nat, n: nat)
    ensures
        wire::le_bytes(v, n).len() == n,
    decreases n,
{
    if n > 0 {
        le_len(v / 256, (n - 1) as nat);
    }
}

proof fn wire_power_is_positive(n: nat)
    ensures
        wire::pow256(n) > 0,
    decreases n,
{
    if n > 0 {
        wire_power_is_positive((n - 1) as nat);
    }
}

/// Only the end of the data is told apart from data that makes no sense.
pub proof fn errors_have_kinds(e: MsgError, kind: MsgErrorKind)
    requires
        call_ensures(MsgError::kind, (&e,), kind),
    ensures
        kind is UnexpectedEof <==> e is UnexpectedEof,
{
}

/// Exactly as many bytes are read as were asked for, from where reading stopped, and the
/// position tells how many were read.
pub proof fn bytes_are_read_in_order(
    data: &[u8],
    created: Cursor<'_>,
    c1: &mut Cursor<'_>,
    c2: &mut Cursor<'_>,
    n: usize,
    m: usize,
    r1: Result<Vec<u8>, MsgError>,
    r2: Result<Vec<u8>, MsgError>,
    at: usize,
)
    requires
        call_ensures(Cursor::new, (data,), created),
        *old(c1) == created,
        call_ensures(Cursor::read_exact, (c1, n), r1),
        *old(c2) == *final(c1),
        call_ensures(Cursor::read_exact, (c2, m), r2),
        call_ensures(Cursor::position, (&*final(c2),), at),
        n + m <= data@.len(),
    ensures
        r1 matches Ok(a) && a@ == data@.subrange(0, n as int),
        r2 matches Ok(b) && b@ == data@.subrange(n as int, n + m),
        at == n + m,
        final(c2).rest() == data@.skip(n + m),
{
    let rest = data@.subrange(n as int, data@.len() as int);
    assert(rest.subrange(0, m as int) =~= data@.subrange(n as int, n + m));
    assert(final(c2).rest() =~= data@.skip(n + m));
}

/// Too few bytes are an error, and nothing is read.
pub proof fn short_data_is_refused(
    c1: &mut Cursor<'_>,
    c2: &mut Cursor<'_>,
    c3: &mut Cursor<'_>,
    n: usize,
    r1: Result<Vec<u8>, MsgError>,
    r2: Result<u64, MsgError>,
    r3: Result<u128, MsgError>,
)
    requires
        call_ensures(Cursor::read_exact, (c1, n), r1),
        call_ensures(Cursor::read_u64, (c2,), r2),
        call_ensures(Cursor::read_u128, (c3,), r3),
    ensures
        r1 is Err <==> old(c1).rest().len() < n,
        r2 is Err <==> old(c2).rest().len() < 8,
        r3 is Err <==> old(c3).rest().len() < 16,
        r1 is Err ==> final(c1).rest() == old(c1).rest(),
        r2 matches Ok(v) ==> wire::be_bytes(v as nat, 8) + final(c2).rest() == old(c2).rest(),
        r3 matches Ok(v) ==> wire::be_bytes(v as nat, 16) + final(c3).rest() == old(c3).rest(),
{
    if r2 is Ok {
        wire::take_int_inverse(old(c2).rest(), 8);
    }
    if r3 is Ok {
        wire::take_int_inverse(old(c3).rest(), 16);
    }
}

/// Bytes that are no message are refused with the reason: no bytes, an unknown kind, a
/// handshake without the marker or with another version, an original client of unknown
/// kind, or a goodbye that is no text.
pub proof fn faulty_messages_are_refused(
    reader: &mut Cursor<'_>,
    r: Result<UnorderedLinkMsg, MsgError>,
)
    requires
        call_ensures(UnorderedLinkMsg::read, (reader,), r),
    ensures
        ({
            let s = old(reader).rest();
            let handshake = s.len() > 0 && (s[0] == 1 || s[0] == 2);
            let marked = s.len() >= 6 && s.subrange(1, 6) == seq![0x55u8, 0x41, 0x47, 0x47, 0];
            &&& s.len() == 0 ==> (r matches Err(e) && e is UnexpectedEof)
            &&& s.len() > 0 && (s[0] == 0 || s[0] > 9) ==> (r matches Err(e)
                && e is UnknownMessageType)
            &&& handshake && s.len() >= 6 && !marked ==> (r matches Err(e) && e is InvalidMagic)
            &&& handshake && s.len() < 6 ==> (r matches Err(e) && e is UnexpectedEof)
            &&& handshake && marked && s.len() == 6 ==> (r matches Err(e) && e is UnexpectedEof)
            &&& handshake && marked && s.len() > 6 && s[6] != 2 ==> (r matches Err(e)
                && e is UnsupportedVersion)
            &&& s.len() > 26 && s[0] == 7 && s[25] != 0 && s[26] != 4 && s[26] != 6 ==> (
            r matches Err(e) && e is UnknownAddressType)
            &&& s.len() >= 3 && s[0] == 9 && s.len() >= 3 + 256 * s[1] + s[2] && !utf8::valid_utf8(
                s.subrange(3, 3 + 256 * s[1] + s[2]),
            ) ==> (r matches Err(e) && e is InvalidUtf8)
        }),
{
    let s = old(reader).rest();
    if s.len() > 0 {
        first_byte_is_read(s);
        let t = s.subrange(1, s.len() as int);
        if s[0] == 1 || s[0] == 2 {
            reveal(unordered_msg::read_preamble);
            if t.len() >= 5 {
                assert(t.subrange(0, 5) =~= s.subrange(1, 6));
                let u = t.subrange(5, t.len() as int);
                if u.len() > 0 {
                    first_byte_is_read(u);
                    assert(u[0] == s[6]);
                }
                assert(unordered_msg::magic() =~= seq![0x55u8, 0x41, 0x47, 0x47, 0]);
            }
        }
        if s.len() >= 3 && s[0] == 9 && s.len() >= 3 + 256 * s[1] + s[2] {
            let n = 256 * s[1] + s[2];
            value_of_four(t.subrange(0, 2));
            let u = t.subrange(2, t.len() as int);
            assert(u.subrange(0, n) =~= s.subrange(3, 3 + n));
        }
        if s.len() > 26 && s[0] == 7 {
            reveal(unordered_msg::read_client);
            let u = t.subrange(16, t.len() as int);
            let v = u.subrange(8, u.len() as int);
            let w = v.subrange(1, v.len() as int);
            first_byte_is_read(v);
            first_byte_is_read(w);
            assert(v[0] == s[25] && w[0] == s[26]);
        }
    }
}

/// A configuration with an empty queue, an unknown strategy or an unknown role is refused
/// with the reason.
pub proof fn faulty_configurations_are_refused(
    reader: &mut Cursor<'_>,
    r: Result<UnorderedCfg, MsgError>,
)
    requires
        call_ensures(UnorderedCfg::read, (reader,), r),
        old(reader).rest().len() >= 34,
    ensures
        ({
            let s = old(reader).rest();
            let send = wire::be_value(s.subrange(0, 4));
            let recv = wire::be_value(s.subrange(4, 8));
            let connect = wire::be_value(s.subrange(29, 33));
            let last = 34 + 8 * s[33];
            &&& send == 0 ==> (r matches Err(e) && e is InvalidSendQueue)
            &&& send > 0 && recv == 0 ==> (r matches Err(e) && e is InvalidRecvQueue)
            &&& send > 0 && recv > 0 && (s[8] == 0 || s[8] > 5) ==> (r matches Err(e)
                && e is UnknownStrategy)
            &&& send > 0 && recv > 0 && 1 <= s[8] <= 5 && connect == 0 ==> (r matches Err(e)
                && e is InvalidConnectQueue)
            &&& send > 0 && recv > 0 && 1 <= s[8] <= 5 && connect > 0 && s.len() > last && (
            s[last] == 0 || s[last] > 3) ==> (r matches Err(e) && e is InvalidNodeRole)
        }),
{
    reveal(unordered_msg::read_cfg);
    let s = old(reader).rest();
    let s1 = s.subrange(4, s.len() as int);
    let s2 = s1.subrange(4, s1.len() as int);
    assert(s1.subrange(0, 4) =~= s.subrange(4, 8));
    first_byte_is_read(s2);
    assert(s2[0] == s[8]);
    let s3 = s2.subrange(1, s2.len() as int);
    let s4 = s3.subrange(8, s3.len() as int);
    let s5 = s4.subrange(8, s4.len() as int);
    let s6 = s5.subrange(4, s5.len() as int);
    assert(s6.subrange(0, 4) =~= s.subrange(29, 33));
    let s7 = s6.subrange(4, s6.len() as int);
    first_byte_is_read(s7);
    assert(s7[0] == s[33]);
    let s8 = s7.subrange(1, s7.len() as int);
    let count = s[33] as nat;
    let last = 34 + 8 * s[33];
    if s.len() > last {
        assert(s8 =~= s.subrange(34, s.len() as int));
        spans_are_read(s8, count);
        let s9 = s8.subrange(8 * count as int, s8.len() as int);
        first_byte_is_read(s9);
        assert(s9[0] == s[last]);
    }
}

proof fn spans_are_read(s: Seq<u8>, count: nat)
    requires
        s.len() >= 8 * count,
    ensures
        unordered_msg::read_intervals(s, count) matches Ok((_, rest)) && rest == s.subrange(
            8 * count as int,
            s.len() as int,
        ),
    decreases count,
{
    if count == 0 {
        assert(s.subrange(0, s.len() as int) =~= s);
    } else {
        let t = s.subrange(8, s.len() as int);
        let n = (count - 1) as nat;
        spans_are_read(t, n);
        assert(t.subrange(8 * n as int, t.len() as int) =~= s.subrange(
            8 * count as int,
            s.len() as int,
        ));
    }
}

/// A message with a field that is too long for its length is refused with the reason, and
/// every other message is written.
pub proof fn oversized_fields_are_refused(
    msg: UnorderedLinkMsg,
    writer: &mut Vec<u8>,
    r: Result<(), MsgError>,
)
    requires
        call_ensures(UnorderedLinkMsg::write, (&msg, writer), r),
    ensures
        match msg {
            UnorderedLinkMsg::Connect { user_data, .. } => match r {
                Ok(_) => user_data@.len() < 0x1_0000,
                Err(e) => user_data@.len() >= 0x1_0000 && e is UserDataTooLong,
            },
            UnorderedLinkMsg::Data { payload, .. } => match r {
                Ok(_) => payload@.len() < 0x1_0000_0000,
                Err(e) => payload@.len() >= 0x1_0000_0000 && e is PayloadTooLong,
            },
            UnorderedLinkMsg::Goodbye { reason } => match r {
                Ok(_) => utf8::encode_utf8(reason@).len() < 0x1_0000,
                Err(e) => utf8::encode_utf8(reason@).len() >= 0x1_0000 && e is ReasonTooLong,
            },
            _ => r is Ok,
        },
{
}

} // verus!
