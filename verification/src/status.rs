use vstd::prelude::*;

verus! {

use crate::units::Frames;
use crate::rtp::{RtpAudioPacket, spec_audio_bytes};
use crate::wire::copy_bytes;
use vstd::bits::{lemma_u64_low_bits_mask_is_mod, lemma_low_bits_mask_values};
use vstd::arithmetic::power2::{lemma2_to64, lemma2_to64_rest};

/// Capacity of the retransmission ring; a power of two.
pub const MAX_BACKLOG: usize = 512;

/// One slot of the retransmission ring: the sequence number and timestamp a
/// packet was sent with, and the exact bytes that went on the wire.
#[derive(PartialEq, Eq, Debug)]
pub struct BacklogEntry {
    pub seq_number: u16,
    pub ts: Frames,
    pub packet: Vec<u8>,
}

/// The streamer's shared state: the head timestamp and sequence number of the
/// audio stream, and the ring of recently sent packets.
pub struct Status {
    pub head_ts: Frames,
    pub seq_number: u16,
    pub first_ts: Frames,
    pub pause_ts: Frames,
    pub playing: bool,
    pub backlog: Vec<Option<BacklogEntry>>,
}

impl Status {
    /// The ring always has `MAX_BACKLOG` slots, and a filled slot sits at the
    /// index its sequence number maps to.
    pub open spec fn wf(self) -> bool {
        &&& self.backlog@.len() == MAX_BACKLOG
        &&& forall|i: int|
            0 <= i < MAX_BACKLOG ==> (#[trigger] self.backlog@[i] matches Some(e) ==> e.seq_number
                as int % (MAX_BACKLOG as int) == i)
    }

    /// Fresh state: every slot of the ring empty, head and first timestamp at
    /// the starting point.
    pub fn new(start_seq: u16, start_ts: Frames) -> (r: Status)
        ensures
            r.wf(),
            r.head_ts == start_ts,
            r.seq_number == start_seq,
            r.first_ts == start_ts,
            r.pause_ts == start_ts,
            !r.playing,
            forall|i: int| 0 <= i < MAX_BACKLOG ==> r.backlog@[i] is None,
    {
        let mut backlog: Vec<Option<BacklogEntry>> = Vec::new();
        while backlog.len() < MAX_BACKLOG
            invariant
                backlog@.len() <= MAX_BACKLOG,
                forall|i: int| 0 <= i < backlog@.len() ==> backlog@[i] is None,
            decreases MAX_BACKLOG - backlog@.len(),
        {
            backlog.push(None);
        }
        Status {
            head_ts: start_ts,
            seq_number: start_seq,
            first_ts: start_ts,
            pause_ts: start_ts,
            playing: false,
            backlog,
        }
    }

    /// Builds the next audio packet: sequence number and timestamp are taken
    /// from the current head, the marker is set on the first packet of a run,
    /// the finished bytes are stored in the ring slot `seq % MAX_BACKLOG`
    /// before they are handed out, and head and sequence number advance.
    pub fn next_packet(&mut self, payload: Vec<u8>, frames_per_chunk: u64, ssrc: u32) -> (r: Vec<
        u8,
    >)
        requires
            old(self).wf(),
            old(self).head_ts.0 + frames_per_chunk <= u64::MAX,
        ensures
            final(self).wf(),
            final(self).seq_number == (old(self).seq_number + 1) % 0x10000,
            final(self).head_ts.0 == old(self).head_ts.0 + frames_per_chunk,
            final(self).first_ts == old(self).first_ts,
            final(self).pause_ts == old(self).pause_ts,
            final(self).playing,
            r@ == spec_audio_bytes(
                !old(self).playing,
                old(self).seq_number,
                (old(self).head_ts.0 % 0x1_0000_0000) as u32,
                ssrc,
                payload@,
            ),
            ({
                let idx = old(self).seq_number as int % (MAX_BACKLOG as int);
                &&& final(self).backlog@[idx] matches Some(e) && e.seq_number == old(
                    self,
                ).seq_number && e.ts == old(self).head_ts && e.packet@ == r@
                &&& forall|i: int|
                    0 <= i < MAX_BACKLOG && i != idx ==> final(self).backlog@[i] == old(
                        self,
                    ).backlog@[i]
            }),
    {
        proof {
            lemma_u64_low_bits_mask_is_mod(self.head_ts.0, 32);
            lemma_low_bits_mask_values();
            lemma2_to64();
            lemma2_to64_rest();
        }
        let marker = !self.playing;
        let timestamp: u32 = (self.head_ts.0 & 0xffff_ffff) as u32;
        let packet = RtpAudioPacket {
            marker,
            seq_number: self.seq_number,
            timestamp,
            ssrc,
            payload,
        };
        let bytes = packet.as_bytes();
        let stored = copy_bytes(&bytes);
        let idx: usize = (self.seq_number as usize) % MAX_BACKLOG;
        let entry = BacklogEntry { seq_number: self.seq_number, ts: self.head_ts, packet: stored };
        self.backlog[idx] = Some(entry);
        let prev = self.seq_number;
        self.seq_number = if prev == 0xffff {
            0
        } else {
            prev + 1
        };
        self.head_ts = Frames(self.head_ts.0 + frames_per_chunk);
        self.playing = true;
        bytes
    }

    /// Empties every slot of the ring and records the head timestamp as the
    /// pause point; the next packet sent will carry the marker again.
    pub fn flush_backlog(&mut self)
        requires
            old(self).wf(),
        ensures
            final(self).wf(),
            final(self).head_ts == old(self).head_ts,
            final(self).seq_number == old(self).seq_number,
            final(self).first_ts == old(self).first_ts,
            final(self).pause_ts == old(self).head_ts,
            !final(self).playing,
            forall|i: int| 0 <= i < MAX_BACKLOG ==> final(self).backlog@[i] is None,
    {
        let mut i: usize = 0;
        while i < MAX_BACKLOG
            invariant
                i <= MAX_BACKLOG,
                self.backlog@.len() == MAX_BACKLOG,
                forall|j: int| 0 <= j < i ==> self.backlog@[j] is None,
                forall|j: int|
                    i <= j < MAX_BACKLOG ==> (#[trigger] self.backlog@[j] matches Some(e)
                        ==> e.seq_number as int % (MAX_BACKLOG as int) == j),
                self.head_ts == old(self).head_ts,
                self.seq_number == old(self).seq_number,
                self.first_ts == old(self).first_ts,
                self.pause_ts == old(self).pause_ts,
                self.playing == old(self).playing,
            decreases MAX_BACKLOG - i,
        {
            self.backlog[i] = None;
            i = i + 1;
        }
        self.pause_ts = self.head_ts;
        self.playing = false;
    }
}

/// Health counters: each counts consecutive malformed inputs on its channel
/// and is zeroed on success.
#[derive(Clone, Copy, PartialEq, Eq, Structural, Debug)]
pub struct Sane {
    pub ctrl: u32,
    pub audio: u32,
    pub timing: u32,
}

impl Sane {
    pub fn new() -> (r: Sane)
        ensures
            r.ctrl == 0,
            r.audio == 0,
            r.timing == 0,
    {
        Sane { ctrl: 0, audio: 0, timing: 0 }
    }

    /// Records the outcome of one control-channel read: reset on success,
    /// count (saturating) on a malformed input.
    pub fn note_ctrl(&mut self, ok: bool)
        ensures
            final(self).ctrl == if ok {
                0
            } else if old(self).ctrl < u32::MAX {
                old(self).ctrl + 1
            } else {
                u32::MAX as int
            },
            final(self).audio == old(self).audio,
            final(self).timing == old(self).timing,
    {
        if ok {
            self.ctrl = 0;
        } else {
            self.ctrl = self.ctrl.saturating_add(1);
        }
    }

    /// Records the outcome of one timing-channel read, as `note_ctrl` does for
    /// the control channel.
    pub fn note_timing(&mut self, ok: bool)
        ensures
            final(self).timing == if ok {
                0
            } else if old(self).timing < u32::MAX {
                old(self).timing + 1
            } else {
                u32::MAX as int
            },
            final(self).audio == old(self).audio,
            final(self).ctrl == old(self).ctrl,
    {
        if ok {
            self.timing = 0;
        } else {
            self.timing = self.timing.saturating_add(1);
        }
    }

    /// Whether any channel has seen at least `threshold` consecutive bad
    /// inputs.
    pub fn is_unhealthy(&self, threshold: u32) -> (r: bool)
        ensures
            r == (self.ctrl > threshold || self.audio > threshold || self.timing > threshold),
    {
        self.ctrl > threshold || self.audio > threshold || self.timing > threshold
    }
}

} // verus!
