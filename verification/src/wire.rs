//! Big-endian integers on the wire, and a cursor over received bytes.
use byteorder::{ReadBytesExt, WriteBytesExt, BE};
use vstd::prelude::*;
use vstd::slice::{slice_subrange, slice_to_vec};

verus! {

/// The reason why a message could not be encoded or decoded.
#[derive(Debug, Clone, Copy, PartialEq, Eq, Structural)]
pub enum MsgError {
    /// The input ended before the field was complete.
    UnexpectedEof,
    /// The protocol marker is not the expected one.
    InvalidMagic,
    /// The peer speaks another protocol version.
    UnsupportedVersion,
    /// The first byte names no message.
    UnknownMessageType,
    /// An address is neither IPv4 nor IPv6.
    UnknownAddressType,
    /// The goodbye reason is not UTF-8.
    InvalidUtf8,
    /// The code names no refusal reason.
    UnknownRefusedReason,
    /// The code names no link status.
    UnknownLinkStatus,
    /// The send queue length is zero.
    InvalidSendQueue,
    /// The receive queue length is zero.
    InvalidRecvQueue,
    /// The code names no load balancing strategy.
    UnknownStrategy,
    /// The connect queue length is zero.
    InvalidConnectQueue,
    /// The code names no node role.
    InvalidNodeRole,
    /// The user data does not fit its length field.
    UserDataTooLong,
    /// The payload does not fit its length field.
    PayloadTooLong,
    /// The goodbye reason does not fit its length field.
    ReasonTooLong,
}

/// Class of an error, as seen by input and output code.
#[derive(Debug, Clone, Copy, PartialEq, Eq, Structural)]
pub enum MsgErrorKind {
    /// The input is too short.
    UnexpectedEof,
    /// The data itself is not acceptable.
    InvalidData,
}

impl MsgError {
    /// The class of this error.
    pub fn kind(&self) -> (kind: MsgErrorKind)
        ensures
            kind == (if *self is UnexpectedEof {
                MsgErrorKind::UnexpectedEof
            } else {
                MsgErrorKind::InvalidData
            }),
    {
        match self {
            MsgError::UnexpectedEof => MsgErrorKind::UnexpectedEof,
            _ => MsgErrorKind::InvalidData,
        }
    }

    /// The text shown for this error.
    pub open spec fn text(self) -> Seq<char> {
        match self {
            MsgError::UnexpectedEof => "failed to fill whole buffer"@,
            MsgError::InvalidMagic => "invalid magic"@,
            MsgError::UnsupportedVersion => "unsupported version"@,
            MsgError::UnknownMessageType => "unknown message type"@,
            MsgError::UnknownAddressType => "unknown address type"@,
            MsgError::InvalidUtf8 => "invalid UTF-8 in reason"@,
            MsgError::UnknownRefusedReason => "unknown refused reason"@,
            MsgError::UnknownLinkStatus => "unknown link status"@,
            MsgError::InvalidSendQueue => "invalid send_queue"@,
            MsgError::InvalidRecvQueue => "invalid recv_queue"@,
            MsgError::UnknownStrategy => "unknown load balance strategy"@,
            MsgError::InvalidConnectQueue => "invalid connect_queue"@,
            MsgError::InvalidNodeRole => "invalid node_role"@,
            MsgError::UserDataTooLong => "user data too long"@,
            MsgError::PayloadTooLong => "payload too long"@,
            MsgError::ReasonTooLong => "reason too long"@,
        }
    }

    /// Returns the text shown for this error.
    pub fn message(&self) -> (text: &'static str)
        ensures
            text@ == self.text(),
    {
        match self {
            MsgError::UnexpectedEof => "failed to fill whole buffer",
            MsgError::InvalidMagic => "invalid magic",
            MsgError::UnsupportedVersion => "unsupported version",
            MsgError::UnknownMessageType => "unknown message type",
            MsgError::UnknownAddressType => "unknown address type",
            MsgError::InvalidUtf8 => "invalid UTF-8 in reason",
            MsgError::UnknownRefusedReason => "unknown refused reason",
            MsgError::UnknownLinkStatus => "unknown link status",
            MsgError::InvalidSendQueue => "invalid send_queue",
            MsgError::InvalidRecvQueue => "invalid recv_queue",
            MsgError::UnknownStrategy => "unknown load balance strategy",
            MsgError::InvalidConnectQueue => "invalid connect_queue",
            MsgError::InvalidNodeRole => "invalid node_role",
            MsgError::UserDataTooLong => "user data too long",
            MsgError::PayloadTooLong => "payload too long",
            MsgError::ReasonTooLong => "reason too long",
        }
    }
}

/// `256` to the power `n`: how many values fit in `n` bytes.
pub open spec fn pow256(n: nat) -> nat
    decreases n,
{
    if n == 0 {
        1
    } else {
        256 * pow256((n - 1) as nat)
    }
}

/// The `n` low-order bytes of `v`, most significant first.
#[verifier::opaque]
pub open spec fn be_bytes(v: nat, n: nat) -> Seq<u8>
    decreases n,
{
    if n == 0 {
        Seq::empty()
    } else {
        be_bytes(v / 256, (n - 1) as nat).push((v % 256) as u8)
    }
}

/// The number that `s` stands for, most significant byte first.
#[verifier::opaque]
pub open spec fn be_value(s: Seq<u8>) -> nat
    decreases s.len(),
{
    if s.len() == 0 {
        0
    } else {
        be_value(s.drop_last()) * 256 + s.last() as nat
    }
}

/// Encoding takes exactly as many bytes as asked for.
pub proof fn be_bytes_len(v: nat, n: nat)
    ensures
        be_bytes(v, n).len() == n,
    decreases n,
{
    reveal(be_bytes);
    if n > 0 {
        be_bytes_len(v / 256, (n - 1) as nat);
    }
}

/// One byte is the number itself.
pub proof fn be_bytes_one(v: nat)
    ensures
        be_bytes(v, 1) == seq![(v % 256) as u8],
{
    reveal_with_fuel(be_bytes, 2);
}

/// Only the low-order bytes count.
pub proof fn be_bytes_low(v: nat, n: nat)
    ensures
        be_bytes(v % pow256(n), n) == be_bytes(v, n),
        pow256(n) > 0,
    decreases n,
{
    reveal(be_bytes);
    if n > 0 {
        let p = pow256((n - 1) as nat);
        be_bytes_low(v / 256, (n - 1) as nat);
        vstd::arithmetic::div_mod::lemma_mod_breakdown(v as int, 256, p as int);
        assert(v % (256 * p) == 256 * ((v / 256) % p) + v % 256);
        assert((v % pow256(n)) / 256 == (v / 256) % p);
        assert((v % pow256(n)) % 256 == v % 256);
    }
}

/// A number is less than `256` to the power of the number of its bytes.
pub proof fn be_value_bound(s: Seq<u8>)
    ensures
        be_value(s) < pow256(s.len()),
    decreases s.len(),
{
    reveal(be_value);
    if s.len() > 0 {
        be_value_bound(s.drop_last());
    }
}

/// Decoding undoes encoding for every number that fits.
pub proof fn be_round_trip(v: nat, n: nat)
    requires
        v < pow256(n),
    ensures
        be_bytes(v, n).len() == n,
        be_value(be_bytes(v, n)) == v,
    decreases n,
{
    reveal(be_bytes);
    reveal(be_value);
    be_bytes_len(v, n);
    if n > 0 {
        assert(v / 256 < pow256((n - 1) as nat)) by (nonlinear_arith)
            requires
                v < 256 * pow256((n - 1) as nat),
        ;
        be_round_trip(v / 256, (n - 1) as nat);
        assert(be_bytes(v, n).drop_last() =~= be_bytes(v / 256, (n - 1) as nat));
    }
}

/// Encoding undoes decoding.
pub proof fn be_round_trip_bytes(s: Seq<u8>)
    ensures
        be_bytes(be_value(s), s.len()) == s,
    decreases s.len(),
{
    reveal(be_bytes);
    reveal(be_value);
    if s.len() > 0 {
        let v = be_value(s);
        be_round_trip_bytes(s.drop_last());
        assert(v / 256 == be_value(s.drop_last()) && v % 256 == s.last());
        assert(be_bytes(v, s.len()) =~= s);
    } else {
        assert(s =~= Seq::empty());
    }
}

/// The sizes of the integer widths in use.
pub proof fn pow256_values()
    ensures
        pow256(1) == 0x100,
        pow256(2) == 0x1_0000,
        pow256(4) == 0x1_0000_0000,
        pow256(8) == 0x1_0000_0000_0000_0000,
        pow256(16) == 0x1_0000_0000_0000_0000_0000_0000_0000_0000,
{
    reveal_with_fuel(pow256, 17);
}

/// Appends `v` in big-endian order.
///
/// Calls `byteorder::WriteBytesExt::write_u16` on a vector. Assumed: the two
/// bytes of `v`, most significant first, are appended, and writing to a
/// vector does not fail.
#[verifier::external_body]
pub(crate) fn write_be_u16(buf: &mut Vec<u8>, v: u16)
    ensures
        final(buf)@ == old(buf)@ + be_bytes(v as nat, 2),
{
    buf.write_u16::<BE>(v).expect("writing to a vector does not fail")
}

/// Appends `v` in big-endian order.
///
/// Calls `byteorder::WriteBytesExt::write_u32` on a vector. Assumed: the four
/// bytes of `v`, most significant first, are appended, and writing to a
/// vector does not fail.
#[verifier::external_body]
pub(crate) fn write_be_u32(buf: &mut Vec<u8>, v: u32)
    ensures
        final(buf)@ == old(buf)@ + be_bytes(v as nat, 4),
{
    buf.write_u32::<BE>(v).expect("writing to a vector does not fail")
}

/// Appends `v` in big-endian order.
///
/// Calls `byteorder::WriteBytesExt::write_u64` on a vector. Assumed: the eight
/// bytes of `v`, most significant first, are appended, and writing to a
/// vector does not fail.
#[verifier::external_body]
pub(crate) fn write_be_u64(buf: &mut Vec<u8>, v: u64)
    ensures
        final(buf)@ == old(buf)@ + be_bytes(v as nat, 8),
{
    buf.write_u64::<BE>(v).expect("writing to a vector does not fail")
}

/// Appends `v` in big-endian order.
///
/// Calls `byteorder::WriteBytesExt::write_u128` on a vector. Assumed: the
/// sixteen bytes of `v`, most significant first, are appended, and writing to
/// a vector does not fail.
#[verifier::external_body]
pub(crate) fn write_be_u128(buf: &mut Vec<u8>, v: u128)
    ensures
        final(buf)@ == old(buf)@ + be_bytes(v as nat, 16),
{
    buf.write_u128::<BE>(v).expect("writing to a vector does not fail")
}

/// Appends the byte `v`.
pub(crate) fn write_u8(buf: &mut Vec<u8>, v: u8)
    ensures
        final(buf)@ == old(buf)@ + be_bytes(v as nat, 1),
{
    proof {
        be_bytes_one(v as nat);
    }
    buf.push(v);
}

/// The `n` low-order bytes of `v`, least significant first.
pub open spec fn le_bytes(v: nat, n: nat) -> Seq<u8>
    decreases n,
{
    if n == 0 {
        Seq::empty()
    } else {
        seq![(v % 256) as u8] + le_bytes(v / 256, (n - 1) as nat)
    }
}

/// Returns the `n` low-order bytes of `v`, least significant first.
pub fn to_le_bytes(v: u64, n: usize) -> (bytes: Vec<u8>)
    ensures
        bytes@ == le_bytes(v as nat, n as nat),
{
    let mut bytes: Vec<u8> = Vec::new();
    let mut rest: u64 = v;
    let mut i: usize = 0;
    while i < n
        invariant
            i <= n,
            bytes@ + le_bytes(rest as nat, (n - i) as nat) == le_bytes(v as nat, n as nat),
        decreases n - i,
    {
        let ghost before = bytes@;
        let ghost tail = le_bytes(rest as nat / 256, (n - i - 1) as nat);
        bytes.push((rest % 256) as u8);
        assert(bytes@ + tail =~= before + (seq![(rest % 256) as u8] + tail));
        rest = rest / 256;
        i = i + 1;
    }
    assert(bytes@ + Seq::empty() =~= bytes@);
    bytes
}

/// Reads a big-endian number from the front of `bytes`.
///
/// Calls `byteorder::ReadBytesExt::read_u16` on a slice. Assumed: it fails
/// exactly when fewer than two bytes are there, and else yields the number
/// that the first two bytes stand for.
#[verifier::external_body]
fn read_be_u16(bytes: &[u8]) -> (v: Option<u16>)
    ensures
        bytes@.len() < 2 ==> v is None,
        bytes@.len() >= 2 ==> v is Some && v->0 as nat == be_value(bytes@.subrange(0, 2)),
{
    let mut rest = bytes;
    rest.read_u16::<BE>().ok()
}

/// Reads a big-endian number from the front of `bytes`.
///
/// Calls `byteorder::ReadBytesExt::read_u32` on a slice. Assumed: it fails
/// exactly when fewer than four bytes are there, and else yields the number
/// that the first four bytes stand for.
#[verifier::external_body]
fn read_be_u32(bytes: &[u8]) -> (v: Option<u32>)
    ensures
        bytes@.len() < 4 ==> v is None,
        bytes@.len() >= 4 ==> v is Some && v->0 as nat == be_value(bytes@.subrange(0, 4)),
{
    let mut rest = bytes;
    rest.read_u32::<BE>().ok()
}

/// Reads a big-endian number from the front of `bytes`.
///
/// Calls `byteorder::ReadBytesExt::read_u64` on a slice. Assumed: it fails
/// exactly when fewer than eight bytes are there, and else yields the number
/// that the first eight bytes stand for.
#[verifier::external_body]
fn read_be_u64(bytes: &[u8]) -> (v: Option<u64>)
    ensures
        bytes@.len() < 8 ==> v is None,
        bytes@.len() >= 8 ==> v is Some && v->0 as nat == be_value(bytes@.subrange(0, 8)),
{
    let mut rest = bytes;
    rest.read_u64::<BE>().ok()
}

/// Reads a big-endian number from the front of `bytes`.
///
/// Calls `byteorder::ReadBytesExt::read_u128` on a slice. Assumed: it fails
/// exactly when fewer than sixteen bytes are there, and else yields the number
/// that the first sixteen bytes stand for.
#[verifier::external_body]
fn read_be_u128(bytes: &[u8]) -> (v: Option<u128>)
    ensures
        bytes@.len() < 16 ==> v is None,
        bytes@.len() >= 16 ==> v is Some && v->0 as nat == be_value(bytes@.subrange(0, 16)),
{
    let mut rest = bytes;
    rest.read_u128::<BE>().ok()
}

/// What reading `n` bytes off the front of `s` gives: those bytes and the rest.
pub open spec fn take_bytes(s: Seq<u8>, n: nat) -> Result<(Seq<u8>, Seq<u8>), MsgError> {
    if s.len() < n {
        Err(MsgError::UnexpectedEof)
    } else {
        Ok((s.subrange(0, n as int), s.subrange(n as int, s.len() as int)))
    }
}

/// What reading an `n`-byte number off the front of `s` gives: the number and
/// the rest.
pub open spec fn take_int(s: Seq<u8>, n: nat) -> Result<(nat, Seq<u8>), MsgError> {
    match take_bytes(s, n) {
        Ok((front, rest)) => Ok((be_value(front), rest)),
        Err(e) => Err(e),
    }
}

/// Reading back bytes that were just put in front of `rest`.
pub proof fn take_bytes_of_concat(front: Seq<u8>, rest: Seq<u8>)
    ensures
        take_bytes(front + rest, front.len()) == Ok::<(Seq<u8>, Seq<u8>), MsgError>((front, rest)),
{
    assert((front + rest).subrange(0, front.len() as int) =~= front);
    assert((front + rest).subrange(front.len() as int, (front + rest).len() as int) =~= rest);
}

/// Reading back a number that was just put in front of `rest`.
pub proof fn take_int_of_concat(v: nat, n: nat, rest: Seq<u8>)
    requires
        v < pow256(n),
    ensures
        take_int(be_bytes(v, n) + rest, n) == Ok::<(nat, Seq<u8>), MsgError>((v, rest)),
{
    be_round_trip(v, n);
    take_bytes_of_concat(be_bytes(v, n), rest);
}

/// What was read is what stands in front of the rest.
pub proof fn take_int_inverse(s: Seq<u8>, n: nat)
    requires
        take_int(s, n) is Ok,
    ensures
        s == be_bytes(take_int(s, n)->Ok_0.0, n) + take_int(s, n)->Ok_0.1,
        take_int(s, n)->Ok_0.0 < pow256(n),
{
    let front = s.subrange(0, n as int);
    be_round_trip_bytes(front);
    be_value_bound(front);
    assert(s =~= front + s.subrange(n as int, s.len() as int));
}

/// Reads fields one after the other from received bytes.
pub struct Cursor<'a> {
    data: &'a [u8],
    pos: usize,
}

impl<'a> Cursor<'a> {
    #[verifier::type_invariant]
    spec fn within(self) -> bool {
        self.pos <= self.data@.len()
    }

    /// All bytes, read or not.
    pub closed spec fn whole(&self) -> Seq<u8> {
        self.data@
    }

    /// The bytes that are still to be read.
    pub closed spec fn rest(&self) -> Seq<u8> {
        self.data@.subrange(self.pos as int, self.data@.len() as int)
    }

    /// Starts reading at the first byte of `data`.
    pub fn new(data: &'a [u8]) -> (cursor: Cursor<'a>)
        ensures
            cursor.whole() == data@,
            cursor.rest() == data@,
    {
        let cursor = Cursor { data, pos: 0 };
        assert(cursor.rest() =~= data@);
        cursor
    }

    /// Number of bytes read so far.
    pub fn position(&self) -> (pos: usize)
        ensures
            pos + self.rest().len() == self.whole().len(),
            self.rest() == self.whole().subrange(pos as int, self.whole().len() as int),
    {
        proof {
            use_type_invariant(self);
        }
        self.pos
    }

    fn remaining(&self) -> (bytes: &'a [u8])
        ensures
            bytes@ == self.rest(),
    {
        proof {
            use_type_invariant(self);
        }
        slice_subrange(self.data, self.pos, self.data.len())
    }

    fn advance(&mut self, n: usize)
        requires
            n <= old(self).rest().len(),
        ensures
            final(self).whole() == old(self).whole(),
            final(self).rest() == old(self).rest().subrange(
                n as int,
                old(self).rest().len() as int,
            ),
    {
        proof {
            use_type_invariant(&*self);
        }
        assert(self.pos + n <= self.data.len());
        let pos: usize = self.pos + n;
        *self = Cursor { data: self.data, pos };
        assert(self.rest() =~= old(self).rest().subrange(n as int, old(self).rest().len() as int));
    }

    /// Reads one byte.
    pub fn read_u8(&mut self) -> (r: Result<u8, MsgError>)
        ensures
            final(self).whole() == old(self).whole(),
            read_result(old(self).rest(), 1, r, final(self).rest()),
    {
        let rest = self.remaining();
        if rest.len() == 0 {
            return Err(MsgError::UnexpectedEof);
        }
        let v: u8 = rest[0];
        proof {
            reveal_with_fuel(be_value, 2);
            assert(rest@.subrange(0, 1).drop_last() =~= Seq::empty());
        }
        self.advance(1);
        Ok(v)
    }

    /// Reads a 16-bit number.
    pub fn read_u16(&mut self) -> (r: Result<u16, MsgError>)
        ensures
            final(self).whole() == old(self).whole(),
            read_result(old(self).rest(), 2, r, final(self).rest()),
    {
        match read_be_u16(self.remaining()) {
            Some(v) => {
                self.advance(2);
                Ok(v)
            },
            None => Err(MsgError::UnexpectedEof),
        }
    }

    /// Reads a 32-bit number.
    pub fn read_u32(&mut self) -> (r: Result<u32, MsgError>)
        ensures
            final(self).whole() == old(self).whole(),
            read_result(old(self).rest(), 4, r, final(self).rest()),
    {
        match read_be_u32(self.remaining()) {
            Some(v) => {
                self.advance(4);
                Ok(v)
            },
            None => Err(MsgError::UnexpectedEof),
        }
    }

    /// Reads a 64-bit number.
    pub fn read_u64(&mut self) -> (r: Result<u64, MsgError>)
        ensures
            final(self).whole() == old(self).whole(),
            read_result(old(self).rest(), 8, r, final(self).rest()),
    {
        match read_be_u64(self.remaining()) {
            Some(v) => {
                self.advance(8);
                Ok(v)
            },
            None => Err(MsgError::UnexpectedEof),
        }
    }

    /// Reads a 128-bit number.
    pub fn read_u128(&mut self) -> (r: Result<u128, MsgError>)
        ensures
            final(self).whole() == old(self).whole(),
            read_result(old(self).rest(), 16, r, final(self).rest()),
    {
        match read_be_u128(self.remaining()) {
            Some(v) => {
                self.advance(16);
                Ok(v)
            },
            None => Err(MsgError::UnexpectedEof),
        }
    }

    /// Reads exactly `n` bytes.
    pub fn read_exact(&mut self, n: usize) -> (r: Result<Vec<u8>, MsgError>)
        ensures
            final(self).whole() == old(self).whole(),
            match (take_bytes(old(self).rest(), n as nat), r) {
                (Ok((front, rest)), Ok(bytes)) => bytes@ == front && final(self).rest() == rest,
                (Err(e), Err(f)) => e == f && final(self).rest() == old(self).rest(),
                _ => false,
            },
    {
        let rest = self.remaining();
        if rest.len() < n {
            return Err(MsgError::UnexpectedEof);
        }
        let bytes = slice_to_vec(slice_subrange(rest, 0, n));
        self.advance(n);
        Ok(bytes)
    }
}

/// An integer the width of which is one of those read from the wire.
pub trait WireInt: Sized {
    /// The number itself.
    spec fn number(self) -> nat;
}

impl WireInt for u8 {
    open spec fn number(self) -> nat {
        self as nat
    }
}

impl WireInt for u16 {
    open spec fn number(self) -> nat {
        self as nat
    }
}

impl WireInt for u32 {
    open spec fn number(self) -> nat {
        self as nat
    }
}

impl WireInt for u64 {
    open spec fn number(self) -> nat {
        self as nat
    }
}

impl WireInt for u128 {
    open spec fn number(self) -> nat {
        self as nat
    }
}

/// `r` is what reading an `n`-byte number from `before` gives, and `after` is
/// what is left to read. A failed read leaves the cursor where it was.
pub open spec fn read_result<T: WireInt>(
    before: Seq<u8>,
    n: nat,
    r: Result<T, MsgError>,
    after: Seq<u8>,
) -> bool {
    match (take_int(before, n), r) {
        (Ok((v, rest)), Ok(t)) => t.number() == v && after == rest,
        (Err(e), Err(f)) => e == f && after == before,
        _ => false,
    }
}

} // verus!
