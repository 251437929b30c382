//! The identifier codec.
//!
//! An entry identifier is a 64-bit value packing two 32-bit fields: the
//! *primary* component (a process id, or 0 for the connection root) in the
//! low half and the *secondary* component (a per-process module-instance
//! ordinal, 0 for the process folder itself) in the high half. The pair is
//! the sole source of uniqueness within one tree; callers must never rely
//! on any other property of the bit layout.

use vstd::prelude::*;

verus! {

/// The packed identifier holding `primary` in its low 32 bits and
/// `secondary` in its high 32 bits.
pub open spec fn spec_encode(primary: u32, secondary: u32) -> u64 {
    (primary as u64) | ((secondary as u64) << 32)
}

/// The primary (process) component of a packed identifier.
pub open spec fn spec_primary_of(id: u64) -> u32 {
    (id & 0xffff_ffff) as u32
}

/// The secondary (module-instance) component of a packed identifier.
pub open spec fn spec_secondary_of(id: u64) -> u32 {
    (id >> 32) as u32
}

/// Packs a primary and a secondary component into one identifier.
pub fn encode(primary: u32, secondary: u32) -> (id: u64)
    ensures
        id == spec_encode(primary, secondary),
{
    (primary as u64) | ((secondary as u64) << 32)
}

/// Extracts the primary component of an identifier.
pub fn primary_of(id: u64) -> (primary: u32)
    ensures
        primary == spec_primary_of(id),
{
    proof {
        assert(id & 0xffff_ffff < 0x1_0000_0000) by (bit_vector);
    }
    (id & 0xffff_ffff) as u32
}

/// Extracts the secondary component of an identifier.
pub fn secondary_of(id: u64) -> (secondary: u32)
    ensures
        secondary == spec_secondary_of(id),
{
    proof {
        assert(id >> 32 < 0x1_0000_0000) by (bit_vector);
    }
    (id >> 32) as u32
}

/// Replaces the secondary component of an identifier, keeping the primary.
pub fn with_secondary(id: u64, secondary: u32) -> (out: u64)
    ensures
        out == spec_encode(spec_primary_of(id), secondary),
{
    encode(primary_of(id), secondary)
}

/// Law: the two component readers are exact inverses of `encode`, for every
/// 32-bit pair.
pub proof fn lemma_identifier_round_trip(primary: u32, secondary: u32)
    ensures
        spec_primary_of(spec_encode(primary, secondary)) == primary,
        spec_secondary_of(spec_encode(primary, secondary)) == secondary,
{
    let p = primary;
    let s = secondary;
    assert((((p as u64) | ((s as u64) << 32)) & 0xffff_ffff) == p as u64) by (bit_vector);
    assert((((p as u64) | ((s as u64) << 32)) >> 32) == s as u64) by (bit_vector);
}

/// Re-encoding an identifier's own components yields the identifier back:
/// the two components carry all 64 bits.
pub broadcast proof fn lemma_components_encode(id: u64)
    ensures
        #[trigger] spec_encode(spec_primary_of(id), spec_secondary_of(id)) == id,
{
    assert((((id & 0xffff_ffff) as u32) as u64) | ((((id >> 32) as u32) as u64) << 32) == id)
        by (bit_vector);
}

/// Law: `encode` is injective, so two entries formed from different
/// component pairs never share an identifier.
pub proof fn lemma_encode_injective(p1: u32, s1: u32, p2: u32, s2: u32)
    requires
        spec_encode(p1, s1) == spec_encode(p2, s2),
    ensures
        p1 == p2 && s1 == s2,
{
    lemma_identifier_round_trip(p1, s1);
    lemma_identifier_round_trip(p2, s2);
}

/// An identifier whose secondary component is below the 32-bit maximum is
/// itself below the 64-bit maximum, so the external off-by-one offset can
/// always be added to it.
pub proof fn lemma_bounded_secondary_bounds_id(id: u64)
    requires
        spec_secondary_of(id) < 0xffff_ffffu32,
    ensures
        id < u64::MAX,
{
    assert(((id >> 32) as u32) < 0xffff_ffffu32 ==> id < 0xffff_ffff_ffff_ffffu64)
        by (bit_vector);
    assert(u64::MAX == 0xffff_ffff_ffff_ffffu64) by (bit_vector);
}

} // verus!
