use vstd::prelude::*;

verus! {

use crate::ntp::{NtpTime, spec_ntp_bytes};
use crate::units::Frames;
use vstd::bits::{lemma_u64_low_bits_mask_is_mod, lemma_low_bits_mask_values};
use vstd::arithmetic::power2::{lemma2_to64, lemma2_to64_rest};
use crate::wire::{
    spec_u16_be,
    spec_u32_be,
    spec_u16_from_be,
    spec_u32_from_be,
    push_u16_be,
    push_u32_be,
    read_u16_be,
    read_u32_be,
    push_bytes,
};

/// Why a received packet was rejected: it was shorter than the fixed wire
/// size, or its well-known flag bytes did not match.
#[derive(Clone, Copy, PartialEq, Eq, Structural, Debug)]
pub enum WireDecodeError {
    BadLength,
    BadFlags,
}

/// An RTP audio packet: a 12-byte big-endian header followed by the payload.
/// The marker is set on the first packet of a stream.
#[derive(PartialEq, Eq, Debug)]
pub struct RtpAudioPacket {
    pub marker: bool,
    pub seq_number: u16,
    pub timestamp: u32,
    pub ssrc: u32,
    pub payload: Vec<u8>,
}

/// The wire bytes of an audio packet.
pub open spec fn spec_audio_bytes(
    marker: bool,
    seq_number: u16,
    timestamp: u32,
    ssrc: u32,
    payload: Seq<u8>,
) -> Seq<u8> {
    seq![0x80u8, if marker { 0xe0u8 } else { 0x60u8 }] + spec_u16_be(seq_number) + spec_u32_be(
        timestamp,
    ) + spec_u32_be(ssrc) + payload
}

impl RtpAudioPacket {
    pub fn as_bytes(&self) -> (r: Vec<u8>)
        ensures
            r@ == spec_audio_bytes(
                self.marker,
                self.seq_number,
                self.timestamp,
                self.ssrc,
                self.payload@,
            ),
    {
        let mut v: Vec<u8> = Vec::new();
        v.push(0x80u8);
        v.push(if self.marker { 0xe0u8 } else { 0x60u8 });
        push_u16_be(&mut v, self.seq_number);
        push_u32_be(&mut v, self.timestamp);
        push_u32_be(&mut v, self.ssrc);
        push_bytes(&mut v, self.payload.as_slice());
        proof {
            assert(v@ =~= spec_audio_bytes(
                self.marker,
                self.seq_number,
                self.timestamp,
                self.ssrc,
                self.payload@,
            ));
        }
        v
    }

    pub fn deserialize(v: &Vec<u8>) -> (r: Result<RtpAudioPacket, WireDecodeError>)
        ensures
            r is Ok <==> (v@.len() >= 12 && v@[0] == 0x80u8 && (v@[1] == 0x60u8 || v@[1]
                == 0xe0u8)),
            r matches Ok(p) ==> {
                &&& p.marker == (v@[1] == 0xe0u8)
                &&& p.seq_number == spec_u16_from_be(v@[2], v@[3])
                &&& p.timestamp == spec_u32_from_be(v@[4], v@[5], v@[6], v@[7])
                &&& p.ssrc == spec_u32_from_be(v@[8], v@[9], v@[10], v@[11])
                &&& p.payload@ == v@.subrange(12, v@.len() as int)
            },
            r matches Err(e) ==> (e == WireDecodeError::BadLength <==> v@.len() < 12),
    {
        let n = v.len();
        if n < 12 {
            return Err(WireDecodeError::BadLength);
        }
        if v[0] != 0x80u8 || (v[1] != 0x60u8 && v[1] != 0xe0u8) {
            return Err(WireDecodeError::BadFlags);
        }
        let marker = v[1] == 0xe0u8;
        let seq_number = read_u16_be(v, 2);
        let timestamp = read_u32_be(v, 4);
        let ssrc = read_u32_be(v, 8);
        let mut payload: Vec<u8> = Vec::new();
        let mut i: usize = 12;
        while i < n
            invariant
                12 <= i <= n,
                n == v@.len(),
                payload@ == v@.subrange(12, i as int),
            decreases n - i,
        {
            payload.push(v[i]);
            i = i + 1;
            proof {
                assert(payload@ =~= v@.subrange(12, i as int));
            }
        }
        Ok(RtpAudioPacket { marker, seq_number, timestamp, ssrc, payload })
    }
}

/// An audio packet's bytes parse back to its fields.
pub proof fn lemma_audio_bytes_round_trip(
    marker: bool,
    seq_number: u16,
    timestamp: u32,
    ssrc: u32,
    payload: Seq<u8>,
)
    ensures
        ({
            let s = spec_audio_bytes(marker, seq_number, timestamp, ssrc, payload);
            &&& s.len() == 12 + payload.len()
            &&& s[0] == 0x80u8
            &&& s[1] == (if marker {
                0xe0u8
            } else {
                0x60u8
            })
            &&& spec_u16_from_be(s[2], s[3]) == seq_number
            &&& spec_u32_from_be(s[4], s[5], s[6], s[7]) == timestamp
            &&& spec_u32_from_be(s[8], s[9], s[10], s[11]) == ssrc
            &&& s.subrange(12, s.len() as int) == payload
        }),
{
    let s = spec_audio_bytes(marker, seq_number, timestamp, ssrc, payload);
    crate::wire::lemma_u16_be_round_trip(seq_number);
    crate::wire::lemma_u32_be_round_trip(timestamp);
    crate::wire::lemma_u32_be_round_trip(ssrc);
    assert(s.subrange(12, s.len() as int) =~= payload);
}

/// A 20-byte SYNC packet: the receiver's playback point (current timestamp
/// less latency), the sender's clock, and the current timestamp.
#[derive(Clone, Copy, PartialEq, Eq, Structural, Debug)]
pub struct RtpSyncPacket {
    pub first: bool,
    pub rtp_timestamp_latency: u32,
    pub curr_time: NtpTime,
    pub rtp_timestamp: u32,
}

/// The wire bytes of a SYNC packet.
pub open spec fn spec_sync_bytes(p: RtpSyncPacket) -> Seq<u8> {
    seq![if p.first { 0x84u8 } else { 0x80u8 }, 0x54u8, 0u8, 0u8] + spec_u32_be(
        p.rtp_timestamp_latency,
    ) + spec_ntp_bytes(p.curr_time) + spec_u32_be(p.rtp_timestamp)
}

impl RtpSyncPacket {
    /// A SYNC announcement for the given head timestamp: the reference point
    /// is the head less the receiver latency, the clock field is the caller's
    /// current wall-clock reading.
    pub fn build(head_ts: Frames, curr_time: NtpTime, latency: Frames, first: bool) -> (r:
        RtpSyncPacket)
        requires
            latency.0 <= head_ts.0,
        ensures
            r.first == first,
            r.rtp_timestamp_latency == ((head_ts.0 - latency.0) % 0x1_0000_0000) as u32,
            r.curr_time == curr_time,
            r.rtp_timestamp == (head_ts.0 % 0x1_0000_0000) as u32,
    {
        proof {
            lemma_u64_low_bits_mask_is_mod((head_ts.0 - latency.0) as u64, 32);
            lemma_u64_low_bits_mask_is_mod(head_ts.0, 32);
            lemma_low_bits_mask_values();
            lemma2_to64();
            lemma2_to64_rest();
        }
        let rtp_timestamp_latency: u32 = ((head_ts.0 - latency.0) & 0xffff_ffff) as u32;
        let rtp_timestamp: u32 = (head_ts.0 & 0xffff_ffff) as u32;
        RtpSyncPacket { first, rtp_timestamp_latency, curr_time, rtp_timestamp }
    }

    pub fn as_bytes(&self) -> (r: Vec<u8>)
        ensures
            r@ == spec_sync_bytes(*self),
    {
        let mut v: Vec<u8> = Vec::new();
        v.push(if self.first { 0x84u8 } else { 0x80u8 });
        v.push(0x54u8);
        v.push(0u8);
        v.push(0u8);
        push_u32_be(&mut v, self.rtp_timestamp_latency);
        push_u32_be(&mut v, self.curr_time.seconds);
        push_u32_be(&mut v, self.curr_time.fraction);
        push_u32_be(&mut v, self.rtp_timestamp);
        proof {
            assert(v@ =~= spec_sync_bytes(*self));
        }
        v
    }

    pub fn deserialize(v: &Vec<u8>) -> (r: Result<RtpSyncPacket, WireDecodeError>)
        ensures
            r is Ok <==> (v@.len() == 20 && (v@[0] == 0x80u8 || v@[0] == 0x84u8) && v@[1]
                == 0x54u8),
            r matches Ok(p) ==> {
                &&& p.first == (v@[0] == 0x84u8)
                &&& p.rtp_timestamp_latency == spec_u32_from_be(v@[4], v@[5], v@[6], v@[7])
                &&& p.curr_time.seconds == spec_u32_from_be(v@[8], v@[9], v@[10], v@[11])
                &&& p.curr_time.fraction == spec_u32_from_be(v@[12], v@[13], v@[14], v@[15])
                &&& p.rtp_timestamp == spec_u32_from_be(v@[16], v@[17], v@[18], v@[19])
            },
            r matches Err(e) ==> (e == WireDecodeError::BadLength <==> v@.len() != 20),
    {
        let n = v.len();
        if n != 20 {
            return Err(WireDecodeError::BadLength);
        }
        if (v[0] != 0x80u8 && v[0] != 0x84u8) || v[1] != 0x54u8 {
            return Err(WireDecodeError::BadFlags);
        }
        let first = v[0] == 0x84u8;
        let rtp_timestamp_latency = read_u32_be(v, 4);
        let curr_time = NtpTime::deserialize(v, 8);
        let rtp_timestamp = read_u32_be(v, 16);
        Ok(RtpSyncPacket { first, rtp_timestamp_latency, curr_time, rtp_timestamp })
    }
}

/// A SYNC packet's bytes parse back to its fields.
pub proof fn lemma_sync_bytes_round_trip(p: RtpSyncPacket)
    ensures
        ({
            let s = spec_sync_bytes(p);
            &&& s.len() == 20
            &&& s[0] == (if p.first {
                0x84u8
            } else {
                0x80u8
            })
            &&& s[1] == 0x54u8
            &&& spec_u32_from_be(s[4], s[5], s[6], s[7]) == p.rtp_timestamp_latency
            &&& spec_u32_from_be(s[8], s[9], s[10], s[11]) == p.curr_time.seconds
            &&& spec_u32_from_be(s[12], s[13], s[14], s[15]) == p.curr_time.fraction
            &&& spec_u32_from_be(s[16], s[17], s[18], s[19]) == p.rtp_timestamp
        }),
{
    crate::wire::lemma_u32_be_round_trip(p.rtp_timestamp_latency);
    crate::wire::lemma_u32_be_round_trip(p.curr_time.seconds);
    crate::wire::lemma_u32_be_round_trip(p.curr_time.fraction);
    crate::wire::lemma_u32_be_round_trip(p.rtp_timestamp);
}

/// A 32-byte timing packet: request or response, with origin, receive and
/// transmit timestamps.
#[derive(Clone, Copy, PartialEq, Eq, Structural, Debug)]
pub struct RtpTimingPacket {
    pub response: bool,
    pub origin: NtpTime,
    pub receive: NtpTime,
    pub transmit: NtpTime,
}

/// The wire bytes of a timing packet.
pub open spec fn spec_timing_bytes(p: RtpTimingPacket) -> Seq<u8> {
    seq![0x80u8, if p.response { 0x53u8 } else { 0x52u8 }, 0u8, 0u8, 0u8, 0u8, 0u8, 0u8]
        + spec_ntp_bytes(p.origin) + spec_ntp_bytes(p.receive) + spec_ntp_bytes(p.transmit)
}

impl RtpTimingPacket {
    pub fn as_bytes(&self) -> (r: Vec<u8>)
        ensures
            r@ == spec_timing_bytes(*self),
    {
        let mut v: Vec<u8> = Vec::new();
        v.push(0x80u8);
        v.push(if self.response { 0x53u8 } else { 0x52u8 });
        let mut i: usize = 0;
        while i < 6
            invariant
                i <= 6,
                v@ == seq![
                    0x80u8,
                    if self.response { 0x53u8 } else { 0x52u8 },
                ] + Seq::new(i as nat, |j: int| 0u8),
            decreases 6 - i,
        {
            v.push(0u8);
            i = i + 1;
            proof {
                assert(v@ =~= seq![
                    0x80u8,
                    if self.response { 0x53u8 } else { 0x52u8 },
                ] + Seq::new(i as nat, |j: int| 0u8));
            }
        }
        push_u32_be(&mut v, self.origin.seconds);
        push_u32_be(&mut v, self.origin.fraction);
        push_u32_be(&mut v, self.receive.seconds);
        push_u32_be(&mut v, self.receive.fraction);
        push_u32_be(&mut v, self.transmit.seconds);
        push_u32_be(&mut v, self.transmit.fraction);
        proof {
            assert(v@ =~= spec_timing_bytes(*self));
        }
        v
    }

    pub fn deserialize(v: &Vec<u8>) -> (r: Result<RtpTimingPacket, WireDecodeError>)
        ensures
            r is Ok <==> (v@.len() == 32 && v@[0] == 0x80u8 && (v@[1] == 0x52u8 || v@[1]
                == 0x53u8)),
            r matches Ok(p) ==> {
                &&& p.response == (v@[1] == 0x53u8)
                &&& p.origin.seconds == spec_u32_from_be(v@[8], v@[9], v@[10], v@[11])
                &&& p.origin.fraction == spec_u32_from_be(v@[12], v@[13], v@[14], v@[15])
                &&& p.receive.seconds == spec_u32_from_be(v@[16], v@[17], v@[18], v@[19])
                &&& p.receive.fraction == spec_u32_from_be(v@[20], v@[21], v@[22], v@[23])
                &&& p.transmit.seconds == spec_u32_from_be(v@[24], v@[25], v@[26], v@[27])
                &&& p.transmit.fraction == spec_u32_from_be(v@[28], v@[29], v@[30], v@[31])
            },
            r matches Err(e) ==> (e == WireDecodeError::BadLength <==> v@.len() != 32),
    {
        let n = v.len();
        if n != 32 {
            return Err(WireDecodeError::BadLength);
        }
        if v[0] != 0x80u8 || (v[1] != 0x52u8 && v[1] != 0x53u8) {
            return Err(WireDecodeError::BadFlags);
        }
        let response = v[1] == 0x53u8;
        let origin = NtpTime::deserialize(v, 8);
        let receive = NtpTime::deserialize(v, 16);
        let transmit = NtpTime::deserialize(v, 24);
        Ok(RtpTimingPacket { response, origin, receive, transmit })
    }
}

/// A timing packet's bytes parse back to its fields.
pub proof fn lemma_timing_bytes_round_trip(p: RtpTimingPacket)
    ensures
        ({
            let s = spec_timing_bytes(p);
            &&& s.len() == 32
            &&& s[0] == 0x80u8
            &&& s[1] == (if p.response {
                0x53u8
            } else {
                0x52u8
            })
            &&& spec_u32_from_be(s[8], s[9], s[10], s[11]) == p.origin.seconds
            &&& spec_u32_from_be(s[12], s[13], s[14], s[15]) == p.origin.fraction
            &&& spec_u32_from_be(s[16], s[17], s[18], s[19]) == p.receive.seconds
            &&& spec_u32_from_be(s[20], s[21], s[22], s[23]) == p.receive.fraction
            &&& spec_u32_from_be(s[24], s[25], s[26], s[27]) == p.transmit.seconds
            &&& spec_u32_from_be(s[28], s[29], s[30], s[31]) == p.transmit.fraction
        }),
{
    crate::wire::lemma_u32_be_round_trip(p.origin.seconds);
    crate::wire::lemma_u32_be_round_trip(p.origin.fraction);
    crate::wire::lemma_u32_be_round_trip(p.receive.seconds);
    crate::wire::lemma_u32_be_round_trip(p.receive.fraction);
    crate::wire::lemma_u32_be_round_trip(p.transmit.seconds);
    crate::wire::lemma_u32_be_round_trip(p.transmit.fraction);
}

/// An 8-byte lost-packet request: the first missing sequence number and how
/// many packets are missing.
#[derive(Clone, Copy, PartialEq, Eq, Structural, Debug)]
pub struct RtpLostPacket {
    pub seq_number: u16,
    pub n: u16,
}

/// The wire bytes of a lost-packet request.
pub open spec fn spec_lost_bytes(p: RtpLostPacket) -> Seq<u8> {
    seq![0x80u8, 0x55u8, 0u8, 0u8] + spec_u16_be(p.seq_number) + spec_u16_be(p.n)
}

impl RtpLostPacket {
    pub fn as_bytes(&self) -> (r: Vec<u8>)
        ensures
            r@ == spec_lost_bytes(*self),
    {
        let mut v: Vec<u8> = Vec::new();
        v.push(0x80u8);
        v.push(0x55u8);
        v.push(0u8);
        v.push(0u8);
        push_u16_be(&mut v, self.seq_number);
        push_u16_be(&mut v, self.n);
        proof {
            assert(v@ =~= spec_lost_bytes(*self));
        }
        v
    }

    pub fn deserialize(v: &Vec<u8>) -> (r: Result<RtpLostPacket, WireDecodeError>)
        ensures
            r is Ok <==> (v@.len() == 8 && v@[0] == 0x80u8 && v@[1] == 0x55u8),
            r matches Ok(p) ==> {
                &&& p.seq_number == spec_u16_from_be(v@[4], v@[5])
                &&& p.n == spec_u16_from_be(v@[6], v@[7])
            },
            r matches Err(e) ==> (e == WireDecodeError::BadLength <==> v@.len() != 8),
    {
        let n = v.len();
        if n != 8 {
            return Err(WireDecodeError::BadLength);
        }
        if v[0] != 0x80u8 || v[1] != 0x55u8 {
            return Err(WireDecodeError::BadFlags);
        }
        let seq_number = read_u16_be(v, 4);
        let count = read_u16_be(v, 6);
        Ok(RtpLostPacket { seq_number, n: count })
    }
}

/// A lost-packet request's bytes parse back to its fields.
pub proof fn lemma_lost_bytes_round_trip(p: RtpLostPacket)
    ensures
        ({
            let s = spec_lost_bytes(p);
            &&& s.len() == 8
            &&& s[0] == 0x80u8
            &&& s[1] == 0x55u8
            &&& spec_u16_from_be(s[4], s[5]) == p.seq_number
            &&& spec_u16_from_be(s[6], s[7]) == p.n
        }),
{
    crate::wire::lemma_u16_be_round_trip(p.seq_number);
    crate::wire::lemma_u16_be_round_trip(p.n);
}

/// The retransmission envelope: a 4-byte header in front of the stored audio
/// packet bytes.
pub open spec fn spec_retransmission_bytes(packet: Seq<u8>) -> Seq<u8> {
    seq![0x80u8, 0x56u8, 0u8, 0u8] + packet
}

/// Wraps stored audio packet bytes in the retransmission envelope.
pub fn wrap_retransmission(packet: &Vec<u8>) -> (r: Vec<u8>)
    ensures
        r@ == spec_retransmission_bytes(packet@),
{
    let mut v: Vec<u8> = Vec::new();
    v.push(0x80u8);
    v.push(0x56u8);
    v.push(0u8);
    v.push(0u8);
    push_bytes(&mut v, packet.as_slice());
    proof {
        assert(v@ =~= spec_retransmission_bytes(packet@));
    }
    v
}

} // verus!
