//! Session identifiers derived from data.
use crate::wire;
use std::collections::hash_map::DefaultHasher;
use std::hash::Hasher;
use vstd::prelude::*;
use vstd::std_specs::hash::DefaultHasherAdditionalSpecFns;

verus! {

/// What is hashed of a list of bytes: its length in eight bytes, least
/// significant first on every machine, then the bytes.
pub open spec fn hashed_bytes(data: Seq<u8>) -> Seq<Seq<u8>> {
    seq![wire::le_bytes(data.len(), 8), data]
}

/// The session that data without a session of its own is given.
pub open spec fn session_of(data: Seq<u8>) -> u64 {
    DefaultHasher::spec_finish(hashed_bytes(data))
}

/// Feeds a list of bytes to a hasher.
pub(crate) fn hash_bytes(hasher: &mut DefaultHasher, data: &[u8])
    ensures
        final(hasher)@ == old(hasher)@ + hashed_bytes(data@),
{
    let len = wire::to_le_bytes(data.len() as u64, 8);
    hasher.write(len.as_slice());
    hasher.write(data);
    assert(hasher@ =~= old(hasher)@ + hashed_bytes(data@));
}

/// Derives a session from data: equal data gives the same session.
pub fn data_session_id(data: &[u8]) -> (id: u64)
    ensures
        id == session_of(data@),
{
    let mut hasher = DefaultHasher::new();
    hash_bytes(&mut hasher, data);
    assert(hasher@ =~= hashed_bytes(data@));
    hasher.finish()
}

} // verus!
