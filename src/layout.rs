//! The bit layout of an identifier, from the most significant bit down:
//! one unused sign bit, the timestamp, the datacenter id, the worker id and
//! the sequence number.
use vstd::prelude::*;

verus! {

/// Width of the per-millisecond sequence number.
pub const SEQUENCE_BITS: u64 = 12;

/// Width of the worker id.
pub const WORKER_ID_BITS: u64 = 5;

/// Width of the datacenter id.
pub const DATACENTER_ID_BITS: u64 = 5;

/// Width of the timestamp; with the three fields below it and the sign bit
/// it fills the 64 bits.
pub const TIMESTAMP_BITS: u64 = 41;

pub const WORKER_ID_SHIFT: u64 = SEQUENCE_BITS;

pub const DATACENTER_ID_SHIFT: u64 = SEQUENCE_BITS + WORKER_ID_BITS;

pub const TIMESTAMP_SHIFT: u64 = SEQUENCE_BITS + WORKER_ID_BITS + DATACENTER_ID_BITS;

/// Largest sequence number, `2^SEQUENCE_BITS - 1`.
pub const MAX_SEQUENCE: u64 = 4095;

/// Largest worker id, `2^WORKER_ID_BITS - 1`.
pub const MAX_WORKER_ID: u64 = 31;

/// Largest datacenter id, `2^DATACENTER_ID_BITS - 1`.
pub const MAX_DATACENTER_ID: u64 = 31;

/// Largest timestamp, `2^TIMESTAMP_BITS - 1` milliseconds.
pub const MAX_TIMESTAMP: u64 = 2199023255551;

/// The four fields of an identifier.
#[derive(Debug, Clone, Copy, PartialEq, Eq, Structural)]
pub struct IdParts {
    pub timestamp: u64,
    pub datacenter_id: u64,
    pub worker_id: u64,
    pub sequence: u64,
}

impl IdParts {
    /// Every field fits its width.
    pub open spec fn fits(self) -> bool {
        &&& self.timestamp <= MAX_TIMESTAMP
        &&& self.datacenter_id <= MAX_DATACENTER_ID
        &&& self.worker_id <= MAX_WORKER_ID
        &&& self.sequence <= MAX_SEQUENCE
    }
}

/// The identifier of the given fields, each shifted into place.
pub open spec fn pack(timestamp: u64, datacenter_id: u64, worker_id: u64, sequence: u64) -> u64 {
    (timestamp << TIMESTAMP_SHIFT) | (datacenter_id << DATACENTER_ID_SHIFT) | (worker_id
        << WORKER_ID_SHIFT) | sequence
}

pub open spec fn pack_parts(p: IdParts) -> u64 {
    pack(p.timestamp, p.datacenter_id, p.worker_id, p.sequence)
}

/// The fields read back from the bits of an identifier; the sign bit is ignored.
pub open spec fn unpack(bits: u64) -> IdParts {
    IdParts {
        timestamp: (bits >> TIMESTAMP_SHIFT) & MAX_TIMESTAMP,
        datacenter_id: (bits >> DATACENTER_ID_SHIFT) & MAX_DATACENTER_ID,
        worker_id: (bits >> WORKER_ID_SHIFT) & MAX_WORKER_ID,
        sequence: bits & MAX_SEQUENCE,
    }
}

/// With fields that fit, the shifted fields do not overlap, so the identifier
/// is their weighted sum and stays below the sign bit.
pub proof fn lemma_pack_is_sum(timestamp: u64, datacenter_id: u64, worker_id: u64, sequence: u64)
    requires
        timestamp <= MAX_TIMESTAMP,
        datacenter_id <= MAX_DATACENTER_ID,
        worker_id <= MAX_WORKER_ID,
        sequence <= MAX_SEQUENCE,
    ensures
        pack(timestamp, datacenter_id, worker_id, sequence) == timestamp * 4194304
            + datacenter_id * 131072 + worker_id * 4096 + sequence,
        pack(timestamp, datacenter_id, worker_id, sequence) <= i64::MAX,
{
    assert(((timestamp << 22u64) | (datacenter_id << 17u64) | (worker_id << 12u64) | sequence)
        == timestamp * 4194304 + datacenter_id * 131072 + worker_id * 4096 + sequence
        && timestamp * 4194304 + datacenter_id * 131072 + worker_id * 4096 + sequence
        <= 0x7fff_ffff_ffff_ffff) by (bit_vector)
        requires
            timestamp <= 2199023255551u64,
            datacenter_id <= 31u64,
            worker_id <= 31u64,
            sequence <= 4095u64,
    ;
}

/// Packing fields that fit and unpacking the result gives the fields back.
pub proof fn lemma_round_trip(p: IdParts)
    requires
        p.fits(),
    ensures
        unpack(pack_parts(p)) == p,
{
    let t: u64 = p.timestamp;
    let d: u64 = p.datacenter_id;
    let w: u64 = p.worker_id;
    let s: u64 = p.sequence;
    let x: u64 = pack(t, d, w, s);
    assert(((x >> 22u64) & 2199023255551u64) == t && ((x >> 17u64) & 31u64) == d && ((x >> 12u64)
        & 31u64) == w && (x & 4095u64) == s) by (bit_vector)
        requires
            x == ((t << 22u64) | (d << 17u64) | (w << 12u64) | s),
            t <= 2199023255551u64,
            d <= 31u64,
            w <= 31u64,
            s <= 4095u64,
    ;
}

/// Within one generator identity, identifiers order as their
/// (timestamp, sequence) pairs do.
pub proof fn lemma_pack_order(
    datacenter_id: u64,
    worker_id: u64,
    t1: u64,
    s1: u64,
    t2: u64,
    s2: u64,
)
    requires
        datacenter_id <= MAX_DATACENTER_ID,
        worker_id <= MAX_WORKER_ID,
        t1 <= MAX_TIMESTAMP,
        t2 <= MAX_TIMESTAMP,
        s1 <= MAX_SEQUENCE,
        s2 <= MAX_SEQUENCE,
        t1 < t2 || (t1 == t2 && s1 < s2),
    ensures
        pack(t1, datacenter_id, worker_id, s1) < pack(t2, datacenter_id, worker_id, s2),
{
    lemma_pack_is_sum(t1, datacenter_id, worker_id, s1);
    lemma_pack_is_sum(t2, datacenter_id, worker_id, s2);
}

/// Packs the fields into an identifier.
pub fn compose(parts: IdParts) -> (id: i64)
    requires
        parts.fits(),
    ensures
        id >= 0,
        id as u64 == pack_parts(parts),
{
    proof {
        lemma_pack_is_sum(parts.timestamp, parts.datacenter_id, parts.worker_id, parts.sequence);
    }
    let bits: u64 = (parts.timestamp << TIMESTAMP_SHIFT) | (parts.datacenter_id
        << DATACENTER_ID_SHIFT) | (parts.worker_id << WORKER_ID_SHIFT) | parts.sequence;
    bits as i64
}

/// Reads the fields of an identifier back from its bits.
pub fn decompose(id: i64) -> (parts: IdParts)
    ensures
        parts == unpack(id as u64),
        parts.fits(),
{
    let bits: u64 = id as u64;
    let parts = IdParts {
        timestamp: (bits >> TIMESTAMP_SHIFT) & MAX_TIMESTAMP,
        datacenter_id: (bits >> DATACENTER_ID_SHIFT) & MAX_DATACENTER_ID,
        worker_id: (bits >> WORKER_ID_SHIFT) & MAX_WORKER_ID,
        sequence: bits & MAX_SEQUENCE,
    };
    assert(((bits >> 22u64) & 2199023255551u64) <= 2199023255551u64 && ((bits >> 17u64) & 31u64)
        <= 31u64 && ((bits >> 12u64) & 31u64) <= 31u64 && (bits & 4095u64) <= 4095u64)
        by (bit_vector);
    parts
}

} // verus!
