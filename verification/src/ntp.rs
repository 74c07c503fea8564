use vstd::prelude::*;

verus! {

use crate::units::{Frames, SampleRate};
use crate::wire::{spec_u32_be, spec_u32_from_be, push_u32_be, read_u32_be};
use vstd::arithmetic::power2::{pow2, lemma2_to64, lemma2_to64_rest};
use vstd::bits::{
    lemma_u64_shr_is_div,
    lemma_u64_shl_is_mul,
    lemma_u64_low_bits_mask_is_mod,
    lemma_low_bits_mask_values,
};
use vstd::arithmetic::div_mod::{lemma_fundamental_div_mod, lemma_add_mod_noop};

/// A 64-bit NTP timestamp: whole seconds counted from 1900-01-01 UTC and a
/// 32-bit binary fraction of a second.
#[derive(Clone, Copy, PartialEq, Eq, Structural, Debug)]
pub struct NtpTime {
    pub seconds: u32,
    pub fraction: u32,
}

/// The combined 64-bit value `seconds << 32 | fraction`.
pub open spec fn ntp64(t: NtpTime) -> int {
    t.seconds * 0x1_0000_0000 + t.fraction
}

/// Milliseconds of a timestamp, truncated to 32 bits: `((ntp >> 10) * 1000) >> 22`.
pub open spec fn spec_millis(t: NtpTime) -> int {
    (((ntp64(t) / 0x400) * 1000) / 0x400000) % 0x1_0000_0000
}

/// Sample frames at `rate` for a timestamp: `((ntp >> 16) * rate) >> 16`.
pub open spec fn spec_into_timestamp(t: NtpTime, rate: SampleRate) -> int {
    ((ntp64(t) / 0x10000) * rate.0) / 0x10000
}

/// The 64-bit NTP value of a frame count at `rate`: `((ts << 16) / rate) << 16`.
pub open spec fn spec_from_timestamp(ts: Frames, rate: SampleRate) -> int {
    ((ts.0 * 0x10000) / rate.0 as int) * 0x10000
}

/// The timestamp of a Unix wall-clock reading: seconds shifted to the 1900
/// epoch (truncated to 32 bits), microseconds as a binary fraction.
pub open spec fn spec_from_unix(s: u64, m: u32) -> NtpTime {
    NtpTime {
        seconds: ((s + 0x83AA_7E80) % 0x1_0000_0000) as u32,
        fraction: ((m * 0x1_0000_0000) / 1_000_000) as u32,
    }
}

/// The eight big-endian wire bytes of a timestamp: seconds then fraction.
pub open spec fn spec_ntp_bytes(t: NtpTime) -> Seq<u8> {
    spec_u32_be(t.seconds) + spec_u32_be(t.fraction)
}

/// Relies on std::time::SystemTime::now and duration_since: seconds and
/// sub-second microseconds of the wall clock since the Unix epoch. The
/// microsecond part is documented to be below one million. A clock set
/// before 1970 reads as (0, 0) rather than panicking.
#[verifier::external_body]
fn unix_now() -> (r: (u64, u32))
    ensures
        r.1 < 1_000_000,
{
    let d = std::time::SystemTime::now().duration_since(std::time::SystemTime::UNIX_EPOCH)
        .unwrap_or(std::time::Duration::ZERO);
    (d.as_secs(), d.subsec_micros())
}

impl NtpTime {
    pub fn new(seconds: u32, fraction: u32) -> (r: NtpTime)
        ensures
            r.seconds == seconds,
            r.fraction == fraction,
    {
        NtpTime { seconds, fraction }
    }

    pub fn zero() -> (r: NtpTime)
        ensures
            r.seconds == 0,
            r.fraction == 0,
    {
        NtpTime { seconds: 0, fraction: 0 }
    }

    /// The combined 64-bit value.
    fn combine(self) -> (r: u64)
        ensures
            r == ntp64(self),
    {
        let s: u64 = self.seconds as u64;
        let f: u64 = self.fraction as u64;
        proof {
            assert((s << 32) | f == s * 0x1_0000_0000 + f) by (bit_vector)
                requires
                    s <= 0xffff_ffffu64 && f <= 0xffff_ffffu64,
            ;
        }
        (s << 32) | f
    }

    /// The timestamp whose combined 64-bit value is `ntp`.
    fn split(ntp: u64) -> (r: NtpTime)
        ensures
            ntp64(r) == ntp,
    {
        proof {
            lemma_u64_shr_is_div(ntp, 32);
            lemma_u64_low_bits_mask_is_mod(ntp, 32);
            lemma_low_bits_mask_values();
            lemma2_to64();
            lemma2_to64_rest();
            lemma_fundamental_div_mod(ntp as int, 0x1_0000_0000);
        }
        let seconds: u32 = (ntp >> 32) as u32;
        let fraction: u32 = (ntp & 0xffff_ffff) as u32;
        NtpTime { seconds, fraction }
    }

    /// The current wall-clock time as an NTP timestamp: the `from_unix`
    /// image of some clock reading. Which reading it is cannot be promised.
    pub fn now() -> (r: NtpTime)
        ensures
            exists|s: u64, m: u32| m < 1_000_000 && r == #[trigger] spec_from_unix(s, m),
    {
        let (secs, micros) = unix_now();
        let r = NtpTime::from_unix(secs, micros);
        proof {
            assert(r == spec_from_unix(secs, micros));
        }
        r
    }

    /// The NTP timestamp of a Unix wall-clock reading: the seconds are shifted
    /// to the 1900 epoch (truncated to 32 bits), the microseconds become a
    /// binary fraction.
    pub fn from_unix(secs: u64, micros: u32) -> (r: NtpTime)
        requires
            micros < 1_000_000,
        ensures
            r == spec_from_unix(secs, micros),
            r.seconds == (secs + 0x83AA_7E80) % 0x1_0000_0000,
            r.fraction == (micros * 0x1_0000_0000) / 1_000_000,
    {
        proof {
            lemma_u64_low_bits_mask_is_mod(secs, 32);
            lemma_low_bits_mask_values();
            lemma2_to64();
            lemma2_to64_rest();
            lemma_add_mod_noop(secs as int, 0x83AA_7E80, 0x1_0000_0000);
        }
        let low: u64 = secs & 0xffff_ffff;
        let sum: u64 = low + 0x83AA_7E80;
        proof {
            lemma_u64_low_bits_mask_is_mod(sum, 32);
        }
        let seconds: u32 = (sum & 0xffff_ffff) as u32;
        let m: u64 = micros as u64;
        proof {
            lemma_u64_shl_is_mul(m, 32);
        }
        let fraction: u32 = ((m << 32) / 1_000_000) as u32;
        NtpTime { seconds, fraction }
    }

    /// Milliseconds, truncated to 32 bits.
    pub fn millis(self) -> (r: u32)
        ensures
            r == spec_millis(self),
    {
        let ntp = self.combine();
        proof {
            lemma_u64_shr_is_div(ntp, 10);
            lemma2_to64();
            lemma2_to64_rest();
        }
        let a: u64 = ntp >> 10;
        let b: u64 = a * 1000;
        proof {
            lemma_u64_shr_is_div(b, 22);
            lemma_u64_low_bits_mask_is_mod(b >> 22, 32);
            lemma_low_bits_mask_values();
        }
        ((b >> 22) & 0xffff_ffff) as u32
    }

    /// The sample-frame count this timestamp corresponds to at `sample_rate`.
    pub fn into_timestamp(self, sample_rate: SampleRate) -> (r: Frames)
        requires
            (ntp64(self) / 0x10000) * sample_rate.0 <= u64::MAX,
        ensures
            r.0 == spec_into_timestamp(self, sample_rate),
    {
        let ntp = self.combine();
        proof {
            lemma_u64_shr_is_div(ntp, 16);
            lemma2_to64();
            lemma2_to64_rest();
        }
        let a: u64 = ntp >> 16;
        let b: u64 = a * (sample_rate.0 as u64);
        proof {
            lemma_u64_shr_is_div(b, 16);
        }
        Frames(b >> 16)
    }

    /// The NTP timestamp of a sample-frame count at `sample_rate`.
    pub fn from_timestamp(ts: Frames, sample_rate: SampleRate) -> (r: NtpTime)
        requires
            sample_rate.0 > 0,
            ts.0 < 0x1_0000_0000_0000,
            spec_from_timestamp(ts, sample_rate) <= u64::MAX,
        ensures
            ntp64(r) == spec_from_timestamp(ts, sample_rate),
    {
        proof {
            lemma2_to64();
            lemma2_to64_rest();
            lemma_u64_shl_is_mul(ts.0, 16);
        }
        let shifted: u64 = ts.0 << 16;
        let divided: u64 = shifted / (sample_rate.0 as u64);
        proof {
            lemma_u64_shl_is_mul(divided, 16);
        }
        let ntp: u64 = divided << 16;
        NtpTime::split(ntp)
    }

    /// The difference of two timestamps; defined only when `self` is not
    /// earlier than `other`.
    pub fn sub(self, other: NtpTime) -> (r: NtpTime)
        requires
            ntp64(other) <= ntp64(self),
        ensures
            ntp64(r) == ntp64(self) - ntp64(other),
    {
        let a = self.combine();
        let b = other.combine();
        NtpTime::split(a - b)
    }

    /// The eight wire bytes, big-endian seconds then big-endian fraction.
    pub fn serialize(&self) -> (r: Vec<u8>)
        ensures
            r@ == spec_ntp_bytes(*self),
    {
        let mut v: Vec<u8> = Vec::new();
        push_u32_be(&mut v, self.seconds);
        push_u32_be(&mut v, self.fraction);
        v
    }

    /// The timestamp read from eight big-endian bytes at `off`.
    pub fn deserialize(v: &Vec<u8>, off: usize) -> (r: NtpTime)
        requires
            off + 8 <= v@.len(),
        ensures
            r.seconds == spec_u32_from_be(
                v@[off as int],
                v@[off as int + 1],
                v@[off as int + 2],
                v@[off as int + 3],
            ),
            r.fraction == spec_u32_from_be(
                v@[off as int + 4],
                v@[off as int + 5],
                v@[off as int + 6],
                v@[off as int + 7],
            ),
    {
        let n = v.len();
        let seconds = read_u32_be(v, off);
        let fraction = read_u32_be(v, off + 4);
        NtpTime { seconds, fraction }
    }
}

/// Serializing a timestamp gives eight bytes that read back as the same
/// timestamp.
pub proof fn lemma_ntp_bytes_round_trip(t: NtpTime)
    ensures
        spec_ntp_bytes(t).len() == 8,
        spec_u32_from_be(
            spec_ntp_bytes(t)[0],
            spec_ntp_bytes(t)[1],
            spec_ntp_bytes(t)[2],
            spec_ntp_bytes(t)[3],
        ) == t.seconds,
        spec_u32_from_be(
            spec_ntp_bytes(t)[4],
            spec_ntp_bytes(t)[5],
            spec_ntp_bytes(t)[6],
            spec_ntp_bytes(t)[7],
        ) == t.fraction,
{
    crate::wire::lemma_u32_be_round_trip(t.seconds);
    crate::wire::lemma_u32_be_round_trip(t.fraction);
}


/// Converting a timestamp to frames at `rate` and converting those frames
/// back reproduces the timestamp to within a small multiple of one 2^-16
/// fraction of a second: the reproduced value is never later, and the loss
/// is below `0x10000 * (2 + 0x10000 / rate)` NTP units.
pub proof fn lemma_timestamp_round_trip(t: NtpTime, rate: SampleRate)
    requires
        rate.0 > 0,
    ensures
        ({
            let frames = spec_into_timestamp(t, rate);
            let back = ((frames * 0x10000) / rate.0 as int) * 0x10000;
            &&& 0 <= frames
            &&& back <= ntp64(t)
            &&& ntp64(t) - back <= 0x10000 * (2int + 0x10000int / rate.0 as int)
            &&& frames <= u64::MAX ==> back == spec_from_timestamp(
                Frames(frames as u64),
                rate,
            )
        }),
{
    let n = ntp64(t);
    let r_val = rate.0 as int;
    let a = n / 0x10000;
    let r0 = n % 0x10000;
    let f = (a * r_val) / 0x10000;
    let r1 = (a * r_val) % 0x10000;
    let g = (f * 0x10000) / r_val;
    let r2 = (f * 0x10000) % r_val;
    let back = g * 0x10000;

    vstd::arithmetic::div_mod::lemma_fundamental_div_mod(n, 0x10000);
    vstd::arithmetic::div_mod::lemma_mod_bound(n, 0x10000);
    vstd::arithmetic::div_mod::lemma_fundamental_div_mod(a * r_val, 0x10000);
    vstd::arithmetic::div_mod::lemma_mod_bound(a * r_val, 0x10000);
    vstd::arithmetic::div_mod::lemma_fundamental_div_mod(f * 0x10000, r_val);
    vstd::arithmetic::div_mod::lemma_mod_bound(f * 0x10000, r_val);

    assert(a >= 0) by {
        vstd::arithmetic::div_mod::lemma_div_pos_is_pos(n, 0x10000);
    };
    assert(a * r_val >= 0) by (nonlinear_arith)
        requires
            a >= 0 && r_val > 0,
    ;
    assert(f >= 0) by {
        vstd::arithmetic::div_mod::lemma_div_pos_is_pos(a * r_val, 0x10000);
    };
    assert(g >= 0) by {
        vstd::arithmetic::div_mod::lemma_div_pos_is_pos(f * 0x10000, r_val);
    };

    assert(f * 0x10000 == a * r_val - r1);
    assert(g <= a) by {
        vstd::arithmetic::div_mod::lemma_div_is_ordered(f * 0x10000, a * r_val, r_val);
        vstd::arithmetic::div_mod::lemma_div_by_multiple(a, r_val);
        assert((a * r_val) / r_val == a);
    };
    assert(back <= a * 0x10000);
    assert(a * 0x10000 <= n);

    assert((a - g) * r_val == r1 + r2) by (nonlinear_arith)
        requires
            a * r_val - r1 == r_val * g + r2,
    ;
    assert(r1 + r2 < 0x10000 + r_val);
    if a - g - 1 > 0 {
        let x = a - g - 1;
        assert(x * r_val == r1 + r2 - r_val) by (nonlinear_arith)
            requires
                (a - g) * r_val == r1 + r2 && x == a - g - 1,
        ;
        assert(x * r_val <= 0x10000 - 1);
        assert(x <= (0x10000 - 1) / r_val) by {
            vstd::arithmetic::div_mod::lemma_div_is_ordered(x * r_val, 0x10000 - 1, r_val);
            vstd::arithmetic::div_mod::lemma_div_by_multiple(x, r_val);
        };
        assert((0x10000int - 1) / r_val <= 0x10000int / r_val) by {
            vstd::arithmetic::div_mod::lemma_div_is_ordered(0x10000int - 1, 0x10000int, r_val);
        };
    }
    assert(a - g <= 0x10000int / r_val + 1) by {
        vstd::arithmetic::div_mod::lemma_div_pos_is_pos(0x10000int, r_val);
    };

    assert(n - back == (a - g) * 0x10000 + r0) by (nonlinear_arith)
        requires
            n == 0x10000 * a + r0 && back == g * 0x10000,
    ;
    assert((a - g) * 0x10000 <= (0x10000int / r_val + 1) * 0x10000) by (nonlinear_arith)
        requires
            a - g <= 0x10000int / r_val + 1,
    ;
    assert(n - back <= 0x10000 * (2int + 0x10000int / r_val)) by (nonlinear_arith)
        requires
            n - back == (a - g) * 0x10000 + r0 && (a - g) * 0x10000 <= (0x10000int / r_val + 1)
                * 0x10000 && r0 < 0x10000,
    ;
}

} // verus!
