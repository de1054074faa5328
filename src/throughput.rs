//! Byte totals and throughput figures of a bandwidth trial.
use vstd::prelude::*;

verus! {

/// Payloads shorter than this are reported in decimal megabytes per second.
pub const UNIT_THRESHOLD: usize = 1024;

/// Bytes in a decimal megabyte.
pub const DECIMAL_MEGABYTE: u64 = 1_000_000;

/// Bytes in a binary mebibyte.
pub const BINARY_MEBIBYTE: u64 = 1_048_576;

/// Nanoseconds in a second.
pub const NANOS_PER_SECOND: u128 = 1_000_000_000;

/// Throughput is reported in hundredths of a unit per second.
pub const HUNDREDTHS: u128 = 100;

/// The unit divisor for a payload of `payload_len` bytes.
pub open spec fn divisor_spec(payload_len: nat) -> nat {
    if payload_len < UNIT_THRESHOLD as nat {
        DECIMAL_MEGABYTE as nat
    } else {
        BINARY_MEBIBYTE as nat
    }
}

/// Throughput in hundredths of a unit per second, rounded down:
/// `bytes / seconds / divisor`, with seconds given in nanoseconds.
pub open spec fn hundredths_spec(bytes: nat, elapsed_nanos: nat, divisor: nat) -> nat
    recommends
        elapsed_nanos > 0,
        divisor > 0,
{
    (bytes * NANOS_PER_SECOND as nat * HUNDREDTHS as nat) / (elapsed_nanos * divisor)
}

/// Whether the scaled byte count of `hundredths_spec` fits the machine word
/// used to compute it.
pub open spec fn scaled_fits(bytes: nat) -> bool {
    bytes * NANOS_PER_SECOND as nat * HUNDREDTHS as nat <= u128::MAX as nat
}

/// The divisor that turns bytes per second into the reporting unit: a decimal
/// megabyte for payloads under 1024 bytes, a binary mebibyte otherwise.
pub fn throughput_divisor(payload_len: usize) -> (r: u64)
    ensures
        r as nat == divisor_spec(payload_len as nat),
        r > 0,
{
    if payload_len < UNIT_THRESHOLD {
        DECIMAL_MEGABYTE
    } else {
        BINARY_MEBIBYTE
    }
}

/// The bytes moved by a trial of `count` messages of `payload_len` bytes each.
pub fn total_bytes(payload_len: usize, count: usize) -> (r: u128)
    ensures
        r as nat == payload_len as nat * count as nat,
{
    assert(payload_len as nat * count as nat <= u128::MAX as nat) by (nonlinear_arith)
        requires
            payload_len <= usize::MAX,
            count <= usize::MAX,
            usize::MAX <= u64::MAX,
    ;
    (payload_len as u128) * (count as u128)
}

/// Throughput in hundredths of a unit per second, rounded down.
///
/// `None` when no time has elapsed, or when the scaled byte count does not fit
/// in 128 bits.
pub fn throughput_hundredths(bytes: u128, elapsed_nanos: u64, divisor: u64) -> (r: Option<u128>)
    requires
        divisor > 0,
    ensures
        r is Some <==> (elapsed_nanos > 0 && scaled_fits(bytes as nat)),
        r matches Some(v) ==> v as nat == hundredths_spec(
            bytes as nat,
            elapsed_nanos as nat,
            divisor as nat,
        ),
{
    if elapsed_nanos == 0 {
        return None;
    }
    let scale: u128 = NANOS_PER_SECOND * HUNDREDTHS;
    if bytes > u128::MAX / scale {
        proof {
            assert(bytes * scale > u128::MAX) by (nonlinear_arith)
                requires
                    bytes > u128::MAX / scale,
                    scale > 0,
            ;
        }
        return None;
    }
    proof {
        assert(bytes * scale <= u128::MAX) by (nonlinear_arith)
            requires
                bytes <= u128::MAX / scale,
                scale > 0,
        ;
        assert((elapsed_nanos as nat) * (divisor as nat) <= u128::MAX as nat) by (nonlinear_arith)
            requires
                elapsed_nanos <= u64::MAX,
                divisor <= u64::MAX,
        ;
        assert((elapsed_nanos as nat) * (divisor as nat) > 0) by (nonlinear_arith)
            requires
                elapsed_nanos > 0,
                divisor > 0,
        ;
    }
    let scaled: u128 = bytes * scale;
    let per: u128 = (elapsed_nanos as u128) * (divisor as u128);
    assert(scaled as nat == bytes as nat * NANOS_PER_SECOND as nat * HUNDREDTHS as nat) by (nonlinear_arith)
        requires
            scaled == bytes * scale,
            scale == NANOS_PER_SECOND * HUNDREDTHS,
    ;
    Some(scaled / per)
}

/// The throughput of a trial of `count` messages of `payload_len` bytes that
/// took `elapsed_nanos` nanoseconds, in hundredths of a unit per second. The
/// unit depends on the payload length alone.
pub fn trial_throughput(payload_len: usize, count: usize, elapsed_nanos: u64) -> (r: Option<u128>)
    ensures
        r is Some <==> (elapsed_nanos > 0 && scaled_fits(payload_len as nat * count as nat)),
        r matches Some(v) ==> v as nat == hundredths_spec(
            payload_len as nat * count as nat,
            elapsed_nanos as nat,
            divisor_spec(payload_len as nat),
        ),
{
    let bytes = total_bytes(payload_len, count);
    let divisor = throughput_divisor(payload_len);
    throughput_hundredths(bytes, elapsed_nanos, divisor)
}

/// Throughput is bytes over seconds over a divisor, and the divisor is chosen by
/// payload length alone: a decimal megabyte below 1024 bytes, a binary mebibyte
/// from 1024 bytes on. Two trials with payloads of equal length and equal
/// totals over equal times report the same figure, whatever their counts.
pub proof fn lemma_divisor_by_length(len_a: nat, count_a: nat, len_b: nat, count_b: nat, nanos: nat)
    requires
        len_a == len_b,
        len_a * count_a == len_b * count_b,
    ensures
        divisor_spec(len_a) == divisor_spec(len_b),
        len_a < 1024 ==> divisor_spec(len_a) == 1_000_000,
        len_a >= 1024 ==> divisor_spec(len_a) == 1_048_576,
        hundredths_spec(len_a * count_a, nanos, divisor_spec(len_a)) == hundredths_spec(
            len_b * count_b,
            nanos,
            divisor_spec(len_b),
        ),
{
}

} // verus!
