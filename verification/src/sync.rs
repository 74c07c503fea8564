use vstd::prelude::*;

verus! {

use crate::ntp::NtpTime;
use crate::rtp::{
    RtpLostPacket,
    RtpTimingPacket,
    spec_retransmission_bytes,
    wrap_retransmission,
};
use crate::status::{BacklogEntry, MAX_BACKLOG, Sane, Status};

/// The requested sequence numbers are `first + i` for `i < k`, wrapping at
/// 2^16. This gives the wire bytes served for the first `k` of them, in
/// request order: a slot is served when it still holds the packet with the
/// requested sequence number.
pub open spec fn spec_retransmits(backlog: Seq<Option<BacklogEntry>>, first: u16, k: nat) -> Seq<
    Seq<u8>,
>
    decreases k,
{
    if k == 0 {
        Seq::empty()
    } else {
        let s = ((first + k - 1) % 0x10000) as u16;
        let prev = spec_retransmits(backlog, first, (k - 1) as nat);
        match backlog[s as int % (MAX_BACKLOG as int)] {
            Some(e) => if e.seq_number == s {
                prev.push(spec_retransmission_bytes(e.packet@))
            } else {
                prev
            },
            None => prev,
        }
    }
}

/// How many of the first `k` requested sequence numbers hit an empty slot.
pub open spec fn spec_missed(backlog: Seq<Option<BacklogEntry>>, first: u16, k: nat) -> int
    decreases k,
{
    if k == 0 {
        0
    } else {
        let s = ((first + k - 1) % 0x10000) as u16;
        spec_missed(backlog, first, (k - 1) as nat) + match backlog[s as int % (
        MAX_BACKLOG as int)] {
            Some(e) => 0int,
            None => 1,
        }
    }
}

/// How many of the first `k` requested sequence numbers hit a slot that has
/// since been overwritten by a later packet.
pub open spec fn spec_out_of_backlog(backlog: Seq<Option<BacklogEntry>>, first: u16, k: nat) -> int
    decreases k,
{
    if k == 0 {
        0
    } else {
        let s = ((first + k - 1) % 0x10000) as u16;
        spec_out_of_backlog(backlog, first, (k - 1) as nat) + match backlog[s as int % (
        MAX_BACKLOG as int)] {
            Some(e) => if e.seq_number == s {
                0int
            } else {
                1int
            },
            None => 0,
        }
    }
}

/// What one lost-packet request produced: the retransmission datagrams to
/// send, and how many requested packets were already released or outside the
/// ring.
pub struct RetransmitReply {
    pub packets: Vec<Vec<u8>>,
    pub missed: u32,
    pub out_of_backlog: u32,
}

/// Serves a lost-packet request from the ring: for each requested sequence
/// number in order, the slot it maps to is served exactly when it still holds
/// that packet, wrapped in the retransmission envelope.
pub fn handle_lost_request(status: &Status, lost: &RtpLostPacket) -> (r: RetransmitReply)
    requires
        status.wf(),
    ensures
        r.packets.deep_view() == spec_retransmits(status.backlog@, lost.seq_number, lost.n as nat),
        r.missed == spec_missed(status.backlog@, lost.seq_number, lost.n as nat),
        r.out_of_backlog == spec_out_of_backlog(status.backlog@, lost.seq_number, lost.n as nat),
{
    let mut packets: Vec<Vec<u8>> = Vec::new();
    let mut missed: u32 = 0;
    let mut out_of_backlog: u32 = 0;
    let mut i: u16 = 0;
    while i < lost.n
        invariant
            i <= lost.n,
            status.wf(),
            packets.deep_view() == spec_retransmits(status.backlog@, lost.seq_number, i as nat),
            missed == spec_missed(status.backlog@, lost.seq_number, i as nat),
            out_of_backlog == spec_out_of_backlog(status.backlog@, lost.seq_number, i as nat),
            missed <= i,
            out_of_backlog <= i,
        decreases lost.n - i,
    {
        let s32: u32 = (lost.seq_number as u32 + i as u32) % 0x10000;
        let s: u16 = s32 as u16;
        let idx: usize = (s as usize) % MAX_BACKLOG;
        match &status.backlog[idx] {
            Some(e) => {
                if e.seq_number == s {
                    let wrapped = wrap_retransmission(&e.packet);
                    packets.push(wrapped);
                } else {
                    out_of_backlog = out_of_backlog + 1;
                }
            },
            None => {
                missed = missed + 1;
            },
        }
        i = i + 1;
        proof {
            assert(packets.deep_view() =~~= spec_retransmits(
                status.backlog@,
                lost.seq_number,
                i as nat,
            ));
        }
    }
    RetransmitReply { packets, missed, out_of_backlog }
}

/// One pass of the control-channel responder: parse the datagram, note the
/// outcome in the health counters, and on success serve the request from the
/// ring.
pub fn process_control_datagram(status: &Status, sane: &mut Sane, datagram: &Vec<u8>) -> (r:
    Option<RetransmitReply>)
    requires
        status.wf(),
    ensures
        r is Some <==> (datagram@.len() == 8 && datagram@[0] == 0x80u8 && datagram@[1] == 0x55u8),
        final(sane).ctrl == if r is Some {
            0int
        } else if old(sane).ctrl < u32::MAX {
            old(sane).ctrl + 1
        } else {
            u32::MAX as int
        },
        final(sane).audio == old(sane).audio,
        final(sane).timing == old(sane).timing,
        r matches Some(rep) ==> {
            let first = crate::wire::spec_u16_from_be(datagram@[4], datagram@[5]);
            let n = crate::wire::spec_u16_from_be(datagram@[6], datagram@[7]);
            &&& rep.packets.deep_view() == spec_retransmits(status.backlog@, first, n as nat)
            &&& rep.missed == spec_missed(status.backlog@, first, n as nat)
            &&& rep.out_of_backlog == spec_out_of_backlog(status.backlog@, first, n as nat)
        },
{
    match RtpLostPacket::deserialize(datagram) {
        Ok(lost) => {
            sane.note_ctrl(true);
            Some(handle_lost_request(status, &lost))
        },
        Err(_) => {
            sane.note_ctrl(false);
            None
        },
    }
}

/// The reply to a timing request: its transmit time becomes the origin, and
/// the caller supplies the receive and transmit clock readings.
pub fn timing_response(request: &RtpTimingPacket, receive: NtpTime, transmit: NtpTime) -> (r:
    RtpTimingPacket)
    ensures
        r.response,
        r.origin == request.transmit,
        r.receive == receive,
        r.transmit == transmit,
{
    RtpTimingPacket { response: true, origin: request.transmit, receive, transmit }
}

/// One pass of the timing responder: parse the datagram, note the outcome in
/// the health counters, and on success build the reply.
pub fn process_timing_datagram(sane: &mut Sane, datagram: &Vec<u8>, receive: NtpTime,
    transmit: NtpTime) -> (r: Option<RtpTimingPacket>)
    ensures
        r is Some <==> (datagram@.len() == 32 && datagram@[0] == 0x80u8 && (datagram@[1] == 0x52u8
            || datagram@[1] == 0x53u8)),
        final(sane).timing == if r is Some {
            0int
        } else if old(sane).timing < u32::MAX {
            old(sane).timing + 1
        } else {
            u32::MAX as int
        },
        final(sane).audio == old(sane).audio,
        final(sane).ctrl == old(sane).ctrl,
        r matches Some(resp) ==> {
            &&& resp.response
            &&& resp.origin.seconds == crate::wire::spec_u32_from_be(
                datagram@[24],
                datagram@[25],
                datagram@[26],
                datagram@[27],
            )
            &&& resp.origin.fraction == crate::wire::spec_u32_from_be(
                datagram@[28],
                datagram@[29],
                datagram@[30],
                datagram@[31],
            )
            &&& resp.receive == receive
            &&& resp.transmit == transmit
        },
{
    match RtpTimingPacket::deserialize(datagram) {
        Ok(request) => {
            sane.note_timing(true);
            Some(timing_response(&request, receive, transmit))
        },
        Err(_) => {
            sane.note_timing(false);
            None
        },
    }
}

} // verus!
