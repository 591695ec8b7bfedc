//! Tables of sessions, kept in concurrent maps.
use crate::addr::{IpAddr, Ipv4Addr, Ipv6Addr, SocketAddr, SocketAddrV4, SocketAddrV6};
use dashmap::DashMap;
use vstd::prelude::*;

verus! {

/// A socket address as plain numbers: IP version, address, port, flow
/// information and scope.
pub type AddrKey = (u8, u128, u16, u32, u32);

/// A session as plain numbers: its identifier, when it was created and when it
/// was last used.
pub type SessionEntry = (u32, u64, u64);

/// The numbers that stand for a socket address.
pub open spec fn key_of(addr: SocketAddr) -> AddrKey {
    match addr {
        SocketAddr::V4(a) => (4, a.ip.bits as u128, a.port, 0, 0),
        SocketAddr::V6(a) => (6, a.ip.bits, a.port, a.flowinfo, a.scope_id),
    }
}

/// The socket address that numbers stand for.
pub open spec fn addr_of(key: AddrKey) -> SocketAddr {
    if key.0 == 4 {
        SocketAddr::V4(SocketAddrV4 { ip: Ipv4Addr { bits: key.1 as u32 }, port: key.2 })
    } else {
        SocketAddr::V6(
            SocketAddrV6 {
                ip: Ipv6Addr { bits: key.1 },
                port: key.2,
                flowinfo: key.3,
                scope_id: key.4,
            },
        )
    }
}

/// No two socket addresses have the same numbers.
pub proof fn key_round_trip(addr: SocketAddr)
    ensures
        addr_of(key_of(addr)) == addr,
{
}

/// Returns the numbers that stand for a socket address.
pub fn to_key(addr: SocketAddr) -> (key: AddrKey)
    ensures
        key == key_of(addr),
{
    match addr {
        SocketAddr::V4(a) => (4, a.ip.bits as u128, a.port, 0, 0),
        SocketAddr::V6(a) => (6, a.ip.bits, a.port, a.flowinfo, a.scope_id),
    }
}

/// Returns the socket address that numbers stand for.
pub fn from_key(key: AddrKey) -> (addr: SocketAddr)
    ensures
        addr == addr_of(key),
{
    if key.0 == 4 {
        SocketAddr::V4(SocketAddrV4 { ip: Ipv4Addr { bits: key.1 as u32 }, port: key.2 })
    } else {
        SocketAddr::V6(
            SocketAddrV6 {
                ip: Ipv6Addr { bits: key.1 },
                port: key.2,
                flowinfo: key.3,
                scope_id: key.4,
            },
        )
    }
}

/// `dashmap::DashMap`, a map that may be shared between threads.
#[verifier::external_type_specification]
#[verifier::external_body]
#[verifier::reject_recursive_types(K)]
#[verifier::reject_recursive_types(V)]
#[verifier::reject_recursive_types(S)]
pub struct ExDashMap<K, V, S>(DashMap<K, V, S>);

/// What a table of sessions by client address holds.
pub uninterp spec fn addr_table(table: DashMap<AddrKey, SessionEntry>) -> Map<AddrKey, SessionEntry>;

/// What a table of addresses by session holds.
pub uninterp spec fn id_table(table: DashMap<u32, AddrKey>) -> Map<u32, AddrKey>;

/// Creates a table of sessions.
///
/// Calls `DashMap::new`. Assumed: the new map holds nothing.
#[verifier::external_body]
pub(crate) fn new_addr_table() -> (table: DashMap<AddrKey, SessionEntry>)
    ensures
        forall|key: AddrKey| !addr_table(table).contains_key(key),
{
    DashMap::new()
}

/// Looks up a session by address.
///
/// Calls `DashMap::get`. Assumed: it gives the value stored under the key, and
/// nothing if there is none.
#[verifier::external_body]
pub(crate) fn get_session(table: &DashMap<AddrKey, SessionEntry>, key: AddrKey) -> (entry: Option<
    SessionEntry,
>)
    ensures
        entry == (if addr_table(*table).contains_key(key) {
            Some(addr_table(*table)[key])
        } else {
            None
        }),
{
    table.get(&key).map(|entry| *entry.value())
}

/// Stores a session under an address.
///
/// Calls `DashMap::insert`. Assumed: the key then has the new value, whether it
/// had one before or not, and all other keys keep theirs.
#[verifier::external_body]
pub(crate) fn put_session(
    table: &mut DashMap<AddrKey, SessionEntry>,
    key: AddrKey,
    entry: SessionEntry,
)
    ensures
        addr_table(*final(table)) == addr_table(*old(table)).insert(key, entry),
{
    table.insert(key, entry);
}

/// Lists all sessions.
///
/// Calls `DashMap::iter`. Assumed: it gives every key once, with its value, in
/// an order that is left open.
#[verifier::external_body]
pub(crate) fn list_sessions(table: &DashMap<AddrKey, SessionEntry>) -> (entries: Vec<
    (AddrKey, SessionEntry),
>)
    ensures
        lists(entries@, addr_table(*table)),
{
    table.iter().map(|entry| (*entry.key(), *entry.value())).collect()
}

/// A session that was last used at most `timeout` nanoseconds before `now`.
pub open spec fn alive(entry: SessionEntry, now: u64, timeout: u128) -> bool {
    now - entry.2 <= timeout
}

/// Returns whether a session was last used at most `timeout` nanoseconds before
/// `now`.
pub fn is_alive(entry: SessionEntry, now: u64, timeout: u128) -> (r: bool)
    ensures
        r == alive(entry, now, timeout),
{
    now <= entry.2 || (now - entry.2) as u128 <= timeout
}

/// Drops the sessions that are not alive.
///
/// Calls `DashMap::retain`. Assumed: exactly the entries for which the given
/// function, here `is_alive`, returns true stay, with their values.
#[verifier::external_body]
pub(crate) fn keep_alive_sessions(
    table: &mut DashMap<AddrKey, SessionEntry>,
    now: u64,
    timeout: u128,
)
    ensures
        forall|key: AddrKey|
            #![trigger addr_table(*final(table)).contains_key(key)]
            addr_table(*final(table)).contains_key(key) <==> addr_table(*old(table)).contains_key(
                key,
            ) && alive(addr_table(*old(table))[key], now, timeout),
        forall|key: AddrKey|
            addr_table(*final(table)).contains_key(key) ==> #[trigger] addr_table(
                *final(table),
            )[key] == addr_table(*old(table))[key],
{
    table.retain(|_, entry| is_alive(*entry, now, timeout));
}

/// `entries` holds every key of `table` once, with its value.
pub open spec fn lists<K, V>(entries: Seq<(K, V)>, table: Map<K, V>) -> bool {
    &&& forall|i: int, j: int|
        0 <= i < j < entries.len() ==> (#[trigger] entries[i]).0 != (#[trigger] entries[j]).0
    &&& forall|i: int|
        0 <= i < entries.len() ==> table.contains_pair(
            (#[trigger] entries[i]).0,
            entries[i].1,
        )
    &&& forall|k: K| #[trigger]
        table.contains_key(k) ==> exists|i: int|
            0 <= i < entries.len() && (#[trigger] entries[i]).0 == k
}

/// Creates a table of addresses.
///
/// Calls `DashMap::new`. Assumed: the new map holds nothing.
#[verifier::external_body]
pub(crate) fn new_id_table() -> (table: DashMap<u32, AddrKey>)
    ensures
        forall|id: u32| !id_table(table).contains_key(id),
{
    DashMap::new()
}

/// Looks up an address by session.
///
/// Calls `DashMap::get`. Assumed: it gives the value stored under the key, and
/// nothing if there is none.
#[verifier::external_body]
pub(crate) fn get_addr(table: &DashMap<u32, AddrKey>, id: u32) -> (key: Option<AddrKey>)
    ensures
        key == (if id_table(*table).contains_key(id) {
            Some(id_table(*table)[id])
        } else {
            None
        }),
{
    table.get(&id).map(|entry| *entry.value())
}

/// Stores an address under a session.
///
/// Calls `DashMap::insert`. Assumed: the key then has the new value, whether it
/// had one before or not, and all other keys keep theirs.
#[verifier::external_body]
pub(crate) fn put_addr(table: &mut DashMap<u32, AddrKey>, id: u32, key: AddrKey)
    ensures
        id_table(*final(table)) == id_table(*old(table)).insert(id, key),
{
    table.insert(id, key);
}

/// Removes what is stored under a session.
///
/// Calls `DashMap::remove`. Assumed: the key is no longer there, and all other
/// keys keep their values.
#[verifier::external_body]
pub(crate) fn remove_addr(table: &mut DashMap<u32, AddrKey>, id: u32)
    ensures
        id_table(*final(table)) == id_table(*old(table)).remove(id),
{
    table.remove(&id);
}

/// Returns the number of sessions that have an address.
///
/// Calls `DashMap::len`. Assumed: it gives the number of keys.
#[verifier::external_body]
pub(crate) fn count_addrs(table: &DashMap<u32, AddrKey>) -> (n: usize)
    ensures
        n == id_table(*table).len(),
{
    table.len()
}

/// Lists all sessions with their addresses.
///
/// Calls `DashMap::iter`. Assumed: it gives every key once, with its value, in
/// an order that is left open.
#[verifier::external_body]
pub(crate) fn list_addrs(table: &DashMap<u32, AddrKey>) -> (entries: Vec<(u32, AddrKey)>)
    ensures
        lists(entries@, id_table(*table)),
{
    table.iter().map(|entry| (*entry.key(), *entry.value())).collect()
}

} // verus!
