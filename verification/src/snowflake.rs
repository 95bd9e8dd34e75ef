use vstd::prelude::*;
use vstd::utf8::encode_utf8;
use crate::hashing::{fnv1a_hash64, spec_fnv1a};

verus! {

/// Milliseconds since the Unix epoch at which identifiers start counting
/// (2025-01-01T00:00:00Z).
pub const EPOCH_MS: u64 = 1735689600000;

/// Mask of the ten machine-id bits.
pub const MACHINE_MASK: u64 = 0x3FF;

/// The machine name used when none is configured.
pub open spec fn default_machine_name() -> Seq<char> {
    seq!['d', 'e', 'f', 'a', 'u', 'l', 't']
}

/// The machine name that an identifier is made with.
pub open spec fn machine_name_of(configured: Option<&str>) -> Seq<char> {
    match configured {
        Some(name) => name@,
        None => default_machine_name(),
    }
}

/// The ten-bit machine id of a machine name.
pub open spec fn machine_id_of(name: Seq<char>) -> u64 {
    spec_fnv1a(encode_utf8(name)) & MACHINE_MASK
}

/// The identifier made at `now_ms` on machine `machine_id`: the milliseconds
/// since the epoch shifted above 22 bits, the machine id in bits 12..22 and a
/// zero sequence number in the low 12 bits.
pub open spec fn snowflake_of(now_ms: u64, machine_id: u64) -> u64
    recommends
        now_ms >= EPOCH_MS,
{
    (((now_ms - EPOCH_MS) as u64) << 22u64) | (machine_id << 12u64)
}

proof fn lemma_snowflake_fields(elapsed: u64, machine: u64)
    requires
        machine <= 0x3FF,
    ensures
        ((elapsed << 22u64) | (machine << 12u64)) >> 22u64 == elapsed % 0x400_0000_0000,
        (((elapsed << 22u64) | (machine << 12u64)) >> 12u64) & 0x3FF == machine,
        ((elapsed << 22u64) | (machine << 12u64)) & 0xFFF == 0,
{
    assert(((elapsed << 22u64) | (machine << 12u64)) >> 22u64 == elapsed % 0x400_0000_0000)
        by (bit_vector)
        requires
            machine <= 0x3FF,
    ;
    assert((((elapsed << 22u64) | (machine << 12u64)) >> 12u64) & 0x3FF == machine) by (bit_vector)
        requires
            machine <= 0x3FF,
    ;
    assert(((elapsed << 22u64) | (machine << 12u64)) & 0xFFF == 0) by (bit_vector)
        requires
            machine <= 0x3FF,
    ;
}

/// Makes a time-ordered 64-bit identifier from the current time in
/// milliseconds and the configured machine name ("default" when none is set).
/// The identifier carries the elapsed milliseconds since `EPOCH_MS` (modulo
/// 2^42) in its top 42 bits, the machine id in the next ten and zero below.
pub fn generate_snowflake(now_ms: u64, machine_name: Option<&str>) -> (id: u64)
    requires
        now_ms >= EPOCH_MS,
    ensures
        id == snowflake_of(now_ms, machine_id_of(machine_name_of(machine_name))),
        id >> 22u64 == (now_ms - EPOCH_MS) % 0x400_0000_0000,
        (id >> 12u64) & 0x3FF == machine_id_of(machine_name_of(machine_name)),
        id & 0xFFF == 0,
{
    let epoch: u64 = EPOCH_MS;
    let machine_hash = match machine_name {
        Some(name) => fnv1a_hash64(name),
        None => {
            let name = "default";
            proof {
                reveal_strlit("default");
                assert(name@ =~= default_machine_name());
            }
            fnv1a_hash64(name)
        },
    };
    let machine_id = machine_hash & MACHINE_MASK;
    assert(machine_id <= 0x3FF) by (bit_vector)
        requires
            machine_id == machine_hash & 0x3FF,
    ;
    // the sequence number is kept at zero
    let sequence: u64 = 0;
    let elapsed = now_ms - epoch;
    proof {
        lemma_snowflake_fields(elapsed, machine_id);
        assert((elapsed << 22u64) | (machine_id << 12u64) | sequence == (elapsed << 22u64) | (
        machine_id << 12u64)) by (bit_vector)
            requires
                sequence == 0,
        ;
    }
    (elapsed << 22) | (machine_id << 12) | sequence
}

/// Identifiers are ordered by time: within the 2^42 milliseconds (about 139
/// years) after `EPOCH_MS`, one made earlier is smaller than one made later,
/// whatever machines made them.
pub proof fn lemma_snowflake_time_ordered(earlier_ms: u64, later_ms: u64, machine_a: u64, machine_b: u64)
    requires
        EPOCH_MS <= earlier_ms < later_ms,
        later_ms - EPOCH_MS < 0x400_0000_0000,
        machine_a <= MACHINE_MASK,
        machine_b <= MACHINE_MASK,
    ensures
        snowflake_of(earlier_ms, machine_a) < snowflake_of(later_ms, machine_b),
{
    let a = (earlier_ms - EPOCH_MS) as u64;
    let b = (later_ms - EPOCH_MS) as u64;
    assert(((a << 22u64) | (machine_a << 12u64)) < ((b << 22u64) | (machine_b << 12u64)))
        by (bit_vector)
        requires
            a < b,
            b < 0x400_0000_0000,
            machine_a <= 0x3FF,
            machine_b <= 0x3FF,
    ;
}

/// The layout of an identifier made at `now_ms` with the configured machine
/// name (the name "default" when none is set): the elapsed milliseconds since
/// `EPOCH_MS` (modulo 2^42) above bit 22, the low ten bits of the FNV-1a hash
/// of the name's UTF-8 bytes in bits 12..22, and zero below.
pub proof fn lemma_snowflake_layout(now_ms: u64, machine_name: Option<&str>)
    requires
        now_ms >= EPOCH_MS,
    ensures
        ({
            let id = snowflake_of(now_ms, machine_id_of(machine_name_of(machine_name)));
            let name = match machine_name {
                Some(s) => s@,
                None => seq!['d', 'e', 'f', 'a', 'u', 'l', 't'],
            };
            &&& id >> 22u64 == (now_ms - 1735689600000u64) % 0x400_0000_0000
            &&& (id >> 12u64) & 0x3FF == spec_fnv1a(encode_utf8(name)) & 0x3FF
            &&& id & 0xFFF == 0
        }),
{
    let m = machine_id_of(machine_name_of(machine_name));
    let h = spec_fnv1a(encode_utf8(machine_name_of(machine_name)));
    assert(m <= 0x3FF) by (bit_vector)
        requires
            m == h & 0x3FF,
    ;
    lemma_snowflake_fields((now_ms - EPOCH_MS) as u64, m);
}

} // verus!
