use vstd::prelude::*;

verus! {

use crate::wire::{push_bytes, push_lit, copy_bytes, copy_range};
use vstd::string::StringSliceAdditionalSpecFns;

/// Why an RTSP exchange failed: the peer answered with a status other than
/// 200 (the code and the reason phrase are carried), a response line could
/// not be parsed, or a SETUP response carried no session token.
#[derive(Clone, PartialEq, Eq, Debug)]
pub enum RtspError {
    ProtocolFailure { code: u32, reason: Vec<u8> },
    MalformedResponse,
    MissingSession,
}

/// The body of a request: textual, binary, or absent. Text and binary bodies
/// are written the same way; the tag records what the content is.
pub enum RtspBody {
    TextBody { content_type: Vec<u8>, content: Vec<u8> },
    BlobBody { content_type: Vec<u8>, content: Vec<u8> },
    NoBody,
}

/// The decimal digits of a non-negative number, most significant first.
pub open spec fn spec_dec(n: int) -> Seq<u8>
    recommends
        n >= 0,
    decreases n,
{
    if n < 10 {
        seq![(48 + n) as u8]
    } else {
        spec_dec(n / 10) + seq![(48 + n % 10) as u8]
    }
}

/// Appends the decimal digits of `n`.
pub fn push_dec(v: &mut Vec<u8>, n: u64)
    ensures
        final(v)@ == old(v)@ + spec_dec(n as int),
    decreases n,
{
    if n < 10 {
        v.push(48 + (n as u8));
        proof {
            assert(v@ =~= old(v)@ + spec_dec(n as int));
        }
    } else {
        push_dec(v, n / 10);
        v.push(48 + ((n % 10) as u8));
        proof {
            assert(v@ =~= old(v)@ + spec_dec(n as int));
        }
    }
}

/// One `Key: Value` line, CRLF-terminated, for each header in order.
pub open spec fn spec_header_lines(h: Seq<(Seq<u8>, Seq<u8>)>) -> Seq<u8>
    decreases h.len(),
{
    if h.len() == 0 {
        Seq::empty()
    } else {
        spec_header_lines(h.drop_last()) + h.last().0 + ": ".spec_bytes() + h.last().1
            + "\r\n".spec_bytes()
    }
}

/// The `Content-Type` and `Content-Length` lines for a body of type `ct`
/// and byte count `n`.
pub open spec fn spec_content_lines(ct: Seq<u8>, n: int) -> Seq<u8> {
    "Content-Type: ".spec_bytes() + ct + "\r\n".spec_bytes() + "Content-Length: ".spec_bytes()
        + spec_dec(n) + "\r\n".spec_bytes()
}

/// The `Content-Type` and `Content-Length` lines a body adds, if any.
pub open spec fn spec_content_headers(body: RtspBody) -> Seq<u8> {
    match body {
        RtspBody::TextBody { content_type, content } => spec_content_lines(
            content_type@,
            content@.len() as int,
        ),
        RtspBody::BlobBody { content_type, content } => spec_content_lines(
            content_type@,
            content@.len() as int,
        ),
        RtspBody::NoBody => Seq::empty(),
    }
}

/// The raw bytes a body appends after the blank line.
pub open spec fn spec_body_bytes(body: RtspBody) -> Seq<u8> {
    match body {
        RtspBody::TextBody { content_type, content } => content@,
        RtspBody::BlobBody { content_type, content } => content@,
        RtspBody::NoBody => Seq::empty(),
    }
}

/// The `Session: <token>` line when a token is held, nothing before SETUP.
pub open spec fn spec_session_line(session: Option<Seq<u8>>) -> Seq<u8> {
    match session {
        Some(s) => "Session: ".spec_bytes() + s + "\r\n".spec_bytes(),
        None => Seq::empty(),
    }
}

/// A whole request from its parts: request line, caller headers, body
/// headers, CSeq, User-Agent, persistent headers, session line, blank line,
/// body.
pub open spec fn spec_request_bytes(
    cmd: Seq<u8>,
    url: Seq<u8>,
    extra: Seq<(Seq<u8>, Seq<u8>)>,
    content_headers: Seq<u8>,
    cseq: int,
    user_agent: Seq<u8>,
    persistent: Seq<(Seq<u8>, Seq<u8>)>,
    session: Option<Seq<u8>>,
    body_bytes: Seq<u8>,
) -> Seq<u8> {
    cmd + " ".spec_bytes() + url + " RTSP/1.0\r\n".spec_bytes() + spec_header_lines(extra)
        + content_headers + "CSeq: ".spec_bytes() + spec_dec(cseq) + "\r\n".spec_bytes()
        + "User-Agent: ".spec_bytes() + user_agent + "\r\n".spec_bytes() + spec_header_lines(
        persistent,
    ) + spec_session_line(session) + "\r\n".spec_bytes() + body_bytes
}

/// A whole request for a tagged body value.
pub open spec fn spec_request(
    cmd: Seq<u8>,
    url: Seq<u8>,
    extra: Seq<(Seq<u8>, Seq<u8>)>,
    body: RtspBody,
    cseq: int,
    user_agent: Seq<u8>,
    persistent: Seq<(Seq<u8>, Seq<u8>)>,
    session: Option<Seq<u8>>,
) -> Seq<u8> {
    spec_request_bytes(
        cmd,
        url,
        extra,
        spec_content_headers(body),
        cseq,
        user_agent,
        persistent,
        session,
        spec_body_bytes(body),
    )
}

/// The view of a held session token.
pub open spec fn spec_session_view(session: Option<Vec<u8>>) -> Option<Seq<u8>> {
    match session {
        Some(s) => Some(s@),
        None => None,
    }
}

/// The `Transport` header value of a SETUP request.
pub open spec fn spec_transport(control_port: int, timing_port: int) -> Seq<u8> {
    "RTP/AVP/UDP;unicast;interleaved=0-1;mode=record;control_port=".spec_bytes() + spec_dec(
        control_port,
    ) + ";timing_port=".spec_bytes() + spec_dec(timing_port)
}

/// The `RTP-Info` header value naming a sequence number and timestamp.
pub open spec fn spec_rtp_info(seq: int, ts: int) -> Seq<u8> {
    "seq=".spec_bytes() + spec_dec(seq) + ";rtptime=".spec_bytes() + spec_dec(ts)
}

/// The `RTP-Info` header value naming a timestamp alone.
pub open spec fn spec_rtptime(ts: int) -> Seq<u8> {
    "rtptime=".spec_bytes() + spec_dec(ts)
}

/// Everything of a session except the request counter is the same.
pub open spec fn same_but_cseq(a: RtspSession, b: RtspSession) -> bool {
    &&& a.url == b.url
    &&& a.headers == b.headers
    &&& a.session == b.session
    &&& a.user_agent == b.user_agent
}

/// The views of a header list: each key and value as its byte sequence.
pub open spec fn header_views(h: Seq<(Vec<u8>, Vec<u8>)>) -> Seq<(Seq<u8>, Seq<u8>)> {
    Seq::new(h.len(), |i: int| (h[i].0@, h[i].1@))
}

/// Appends one `Key: Value` CRLF line for each header, in order.
fn push_header_lines(v: &mut Vec<u8>, headers: &Vec<(Vec<u8>, Vec<u8>)>)
    ensures
        final(v)@ == old(v)@ + spec_header_lines(header_views(headers@)),
{
    let mut i: usize = 0;
    while i < headers.len()
        invariant
            i <= headers@.len(),
            v@ == old(v)@ + spec_header_lines(header_views(headers@).take(i as int)),
        decreases headers@.len() - i,
    {
        let pair = &headers[i];
        push_bytes(v, pair.0.as_slice());
        push_lit(v, ": ");
        push_bytes(v, pair.1.as_slice());
        push_lit(v, "\r\n");
        i = i + 1;
        proof {
            let h = header_views(headers@);
            assert(h.take(i as int).drop_last() =~= h.take(i as int - 1));
            assert(h.take(i as int).last() == h[i as int - 1]);
            assert(v@ =~= old(v)@ + spec_header_lines(h.take(i as int)));
        }
    }
    proof {
        assert(header_views(headers@).take(headers@.len() as int) =~= header_views(headers@));
    }
}


/// Appends the `Content-Type` and `Content-Length` lines of a body.
fn push_content_headers(v: &mut Vec<u8>, body: &RtspBody)
    ensures
        final(v)@ == old(v)@ + spec_content_headers(*body),
{
    match body {
        RtspBody::TextBody { content_type, content } => {
            push_lit(v, "Content-Type: ");
            push_bytes(v, content_type.as_slice());
            push_lit(v, "\r\n");
            push_lit(v, "Content-Length: ");
            push_dec(v, content.len() as u64);
            push_lit(v, "\r\n");
            proof {
                assert(v@ =~= old(v)@ + spec_content_headers(*body));
            }
        },
        RtspBody::BlobBody { content_type, content } => {
            push_lit(v, "Content-Type: ");
            push_bytes(v, content_type.as_slice());
            push_lit(v, "\r\n");
            push_lit(v, "Content-Length: ");
            push_dec(v, content.len() as u64);
            push_lit(v, "\r\n");
            proof {
                assert(v@ =~= old(v)@ + spec_content_headers(*body));
            }
        },
        RtspBody::NoBody => {
            proof {
                assert(v@ =~= old(v)@ + spec_content_headers(*body));
            }
        },
    }
}

/// Appends the raw body bytes, if any.
fn push_body_bytes(v: &mut Vec<u8>, body: &RtspBody)
    ensures
        final(v)@ == old(v)@ + spec_body_bytes(*body),
{
    match body {
        RtspBody::TextBody { content_type, content } => {
            push_bytes(v, content.as_slice());
        },
        RtspBody::BlobBody { content_type, content } => {
            push_bytes(v, content.as_slice());
        },
        RtspBody::NoBody => {
            proof {
                assert(v@ =~= old(v)@ + spec_body_bytes(*body));
            }
        },
    }
}

/// Appends the `Session` line when a token is held.
fn push_session_line(v: &mut Vec<u8>, session: &Option<Vec<u8>>)
    ensures
        final(v)@ == old(v)@ + spec_session_line(spec_session_view(*session)),
{
    match session {
        Some(s) => {
            push_lit(v, "Session: ");
            push_bytes(v, s.as_slice());
            push_lit(v, "\r\n");
            proof {
                assert(v@ =~= old(v)@ + spec_session_line(spec_session_view(*session)));
            }
        },
        None => {
            proof {
                assert(v@ =~= old(v)@ + spec_session_line(spec_session_view(*session)));
            }
        },
    }
}

/// The RTSP side of a session: the session URL, the request counter, the
/// persistent headers, the session token once SETUP succeeded, and the
/// user-agent string.
pub struct RtspSession {
    pub url: Vec<u8>,
    pub cseq: u64,
    pub headers: Vec<(Vec<u8>, Vec<u8>)>,
    pub session: Option<Vec<u8>>,
    pub user_agent: Vec<u8>,
}

impl RtspSession {
    /// Fresh state for a connection to `peer_ip`: the session URL is
    /// `rtsp://<peer-ip>/<sid>`, the counter starts at zero, no token is held.
    pub fn new(peer_ip: &Vec<u8>, sid: &Vec<u8>, user_agent: &Vec<u8>, headers: Vec<(Vec<u8>, Vec<
        u8,
    >)>) -> (r: RtspSession)
        ensures
            r.url@ == "rtsp://".spec_bytes() + peer_ip@ + "/".spec_bytes() + sid@,
            r.cseq == 0,
            r.headers == headers,
            r.session is None,
            r.user_agent@ == user_agent@,
    {
        let mut url: Vec<u8> = Vec::new();
        push_lit(&mut url, "rtsp://");
        push_bytes(&mut url, peer_ip.as_slice());
        push_lit(&mut url, "/");
        push_bytes(&mut url, sid.as_slice());
        RtspSession {
            url,
            cseq: 0,
            headers,
            session: None,
            user_agent: copy_bytes(user_agent),
        }
    }

    /// Encodes one request and advances the counter: the emitted `CSeq` is
    /// the new counter value, one more than on any earlier request of this
    /// session; the `Session` line is present exactly when a token is held.
    #[verifier::rlimit(100)]
    pub fn encode_request(&mut self, cmd: &str, body: &RtspBody, extra: &Vec<(Vec<u8>, Vec<u8>)>,
        url: Option<&str>) -> (r: Vec<u8>)
        requires
            old(self).cseq < u64::MAX,
        ensures
            final(self).cseq == old(self).cseq + 1,
            final(self).url == old(self).url,
            final(self).headers == old(self).headers,
            final(self).session == old(self).session,
            final(self).user_agent == old(self).user_agent,
            r@ == spec_request(
                cmd.spec_bytes(),
                match url {
                    Some(u) => u.spec_bytes(),
                    None => old(self).url@,
                },
                header_views(extra@),
                *body,
                old(self).cseq + 1,
                old(self).user_agent@,
                header_views(old(self).headers@),
                spec_session_view(old(self).session),
            ),
    {
        let mut req: Vec<u8> = Vec::new();
        push_lit(&mut req, cmd);
        push_lit(&mut req, " ");
        match url {
            Some(u) => push_lit(&mut req, u),
            None => push_bytes(&mut req, self.url.as_slice()),
        }
        push_lit(&mut req, " RTSP/1.0\r\n");
        push_header_lines(&mut req, extra);
        push_content_headers(&mut req, body);
        self.cseq = self.cseq + 1;
        push_lit(&mut req, "CSeq: ");
        push_dec(&mut req, self.cseq);
        push_lit(&mut req, "\r\n");
        push_lit(&mut req, "User-Agent: ");
        push_bytes(&mut req, self.user_agent.as_slice());
        push_lit(&mut req, "\r\n");
        let persistent = &self.headers;
        push_header_lines(&mut req, persistent);
        push_session_line(&mut req, &self.session);
        push_lit(&mut req, "\r\n");
        push_body_bytes(&mut req, body);
        proof {
            assert(Seq::<u8>::empty() + cmd.spec_bytes() =~= cmd.spec_bytes());
            assert(req@ == spec_request(
                cmd.spec_bytes(),
                match url {
                    Some(u) => u.spec_bytes(),
                    None => old(self).url@,
                },
                header_views(extra@),
                *body,
                old(self).cseq + 1,
                old(self).user_agent@,
                header_views(old(self).headers@),
                spec_session_view(old(self).session),
            ));
        }
        req
    }


    /// The OPTIONS request; its URL is `*`.
    pub fn options(&mut self, headers: &Vec<(Vec<u8>, Vec<u8>)>) -> (r: Vec<u8>)
        requires
            old(self).cseq < u64::MAX,
        ensures
            final(self).cseq == old(self).cseq + 1,
            same_but_cseq(*final(self), *old(self)),
            r@ == spec_request_bytes(
                "OPTIONS".spec_bytes(),
                "*".spec_bytes(),
                header_views(headers@),
                Seq::empty(),
                old(self).cseq + 1,
                old(self).user_agent@,
                header_views(old(self).headers@),
                spec_session_view(old(self).session),
                Seq::empty(),
            ),
    {
        self.encode_request("OPTIONS", &RtspBody::NoBody, headers, Some("*"))
    }

    /// The ANNOUNCE request carrying an SDP text body.
    pub fn announce_sdp(&mut self, sdp: &Vec<u8>) -> (r: Vec<u8>)
        requires
            old(self).cseq < u64::MAX,
        ensures
            final(self).cseq == old(self).cseq + 1,
            same_but_cseq(*final(self), *old(self)),
            r@ == spec_request_bytes(
                "ANNOUNCE".spec_bytes(),
                old(self).url@,
                Seq::empty(),
                spec_content_lines("application/sdp".spec_bytes(), sdp@.len() as int),
                old(self).cseq + 1,
                old(self).user_agent@,
                header_views(old(self).headers@),
                spec_session_view(old(self).session),
                sdp@,
            ),
    {
        let mut ct: Vec<u8> = Vec::new();
        push_lit(&mut ct, "application/sdp");
        let body = RtspBody::TextBody { content_type: ct, content: copy_bytes(sdp) };
        let extra: Vec<(Vec<u8>, Vec<u8>)> = Vec::new();
        let r = self.encode_request("ANNOUNCE", &body, &extra, None);
        proof {
            assert(header_views(extra@) =~= Seq::<(Seq<u8>, Seq<u8>)>::empty());
        }
        r
    }

    /// The SETUP request announcing the local control and timing ports.
    pub fn setup(&mut self, control_port: u16, timing_port: u16) -> (r: Vec<u8>)
        requires
            old(self).cseq < u64::MAX,
        ensures
            final(self).cseq == old(self).cseq + 1,
            same_but_cseq(*final(self), *old(self)),
            r@ == spec_request_bytes(
                "SETUP".spec_bytes(),
                old(self).url@,
                seq![
                    (
                        "Transport".spec_bytes(),
                        spec_transport(control_port as int, timing_port as int),
                    ),
                ],
                Seq::empty(),
                old(self).cseq + 1,
                old(self).user_agent@,
                header_views(old(self).headers@),
                spec_session_view(old(self).session),
                Seq::empty(),
            ),
    {
        let mut t: Vec<u8> = Vec::new();
        push_lit(&mut t, "RTP/AVP/UDP;unicast;interleaved=0-1;mode=record;control_port=");
        push_dec(&mut t, control_port as u64);
        push_lit(&mut t, ";timing_port=");
        push_dec(&mut t, timing_port as u64);
        let mut key: Vec<u8> = Vec::new();
        push_lit(&mut key, "Transport");
        let mut extra: Vec<(Vec<u8>, Vec<u8>)> = Vec::new();
        extra.push((key, t));
        let r = self.encode_request("SETUP", &RtspBody::NoBody, &extra, None);
        proof {
            assert(header_views(extra@) =~= seq![
                (
                    "Transport".spec_bytes(),
                    spec_transport(control_port as int, timing_port as int),
                ),
            ]);
        }
        r
    }

    /// The RECORD request; sent only while a session token is held.
    pub fn record(&mut self, start_seq: u16, start_ts: u64) -> (r: Vec<u8>)
        requires
            old(self).cseq < u64::MAX,
            old(self).session is Some,
        ensures
            final(self).cseq == old(self).cseq + 1,
            same_but_cseq(*final(self), *old(self)),
            r@ == spec_request_bytes(
                "RECORD".spec_bytes(),
                old(self).url@,
                seq![
                    ("Range".spec_bytes(), "npt=0-".spec_bytes()),
                    (
                        "RTP-Info".spec_bytes(),
                        spec_rtp_info(start_seq as int, start_ts as int),
                    ),
                ],
                Seq::empty(),
                old(self).cseq + 1,
                old(self).user_agent@,
                header_views(old(self).headers@),
                spec_session_view(old(self).session),
                Seq::empty(),
            ),
    {
        let mut info: Vec<u8> = Vec::new();
        push_lit(&mut info, "seq=");
        push_dec(&mut info, start_seq as u64);
        push_lit(&mut info, ";rtptime=");
        push_dec(&mut info, start_ts);
        let mut range_key: Vec<u8> = Vec::new();
        push_lit(&mut range_key, "Range");
        let mut range_val: Vec<u8> = Vec::new();
        push_lit(&mut range_val, "npt=0-");
        let mut info_key: Vec<u8> = Vec::new();
        push_lit(&mut info_key, "RTP-Info");
        let mut extra: Vec<(Vec<u8>, Vec<u8>)> = Vec::new();
        extra.push((range_key, range_val));
        extra.push((info_key, info));
        let r = self.encode_request("RECORD", &RtspBody::NoBody, &extra, None);
        proof {
            assert(header_views(extra@) =~= seq![
                ("Range".spec_bytes(), "npt=0-".spec_bytes()),
                ("RTP-Info".spec_bytes(), spec_rtp_info(start_seq as int, start_ts as int)),
            ]);
        }
        r
    }

    /// The SET_PARAMETER request with a textual parameter body.
    pub fn set_parameter(&mut self, param: &Vec<u8>) -> (r: Vec<u8>)
        requires
            old(self).cseq < u64::MAX,
        ensures
            final(self).cseq == old(self).cseq + 1,
            same_but_cseq(*final(self), *old(self)),
            r@ == spec_request_bytes(
                "SET_PARAMETER".spec_bytes(),
                old(self).url@,
                Seq::empty(),
                spec_content_lines("text/parameters".spec_bytes(), param@.len() as int),
                old(self).cseq + 1,
                old(self).user_agent@,
                header_views(old(self).headers@),
                spec_session_view(old(self).session),
                param@,
            ),
    {
        let mut ct: Vec<u8> = Vec::new();
        push_lit(&mut ct, "text/parameters");
        let body = RtspBody::TextBody { content_type: ct, content: copy_bytes(param) };
        let extra: Vec<(Vec<u8>, Vec<u8>)> = Vec::new();
        let r = self.encode_request("SET_PARAMETER", &body, &extra, None);
        proof {
            assert(header_views(extra@) =~= Seq::<(Seq<u8>, Seq<u8>)>::empty());
        }
        r
    }

    /// The SET_PARAMETER request carrying a DMAP metadata blob for the given
    /// timestamp.
    pub fn set_meta_data(&mut self, timestamp: u64, meta_data: &Vec<u8>) -> (r: Vec<u8>)
        requires
            old(self).cseq < u64::MAX,
        ensures
            final(self).cseq == old(self).cseq + 1,
            same_but_cseq(*final(self), *old(self)),
            r@ == spec_request_bytes(
                "SET_PARAMETER".spec_bytes(),
                old(self).url@,
                seq![("RTP-Info".spec_bytes(), spec_rtptime(timestamp as int))],
                spec_content_lines(
                    "application/x-dmap-tagged".spec_bytes(),
                    meta_data@.len() as int,
                ),
                old(self).cseq + 1,
                old(self).user_agent@,
                header_views(old(self).headers@),
                spec_session_view(old(self).session),
                meta_data@,
            ),
    {
        let mut info: Vec<u8> = Vec::new();
        push_lit(&mut info, "rtptime=");
        push_dec(&mut info, timestamp);
        let mut info_key: Vec<u8> = Vec::new();
        push_lit(&mut info_key, "RTP-Info");
        let mut extra: Vec<(Vec<u8>, Vec<u8>)> = Vec::new();
        extra.push((info_key, info));
        let mut ct: Vec<u8> = Vec::new();
        push_lit(&mut ct, "application/x-dmap-tagged");
        let body = RtspBody::BlobBody { content_type: ct, content: copy_bytes(meta_data) };
        let r = self.encode_request("SET_PARAMETER", &body, &extra, None);
        proof {
            assert(header_views(extra@) =~= seq![
                ("RTP-Info".spec_bytes(), spec_rtptime(timestamp as int)),
            ]);
        }
        r
    }

    /// The FLUSH request naming the first flushed sequence number and
    /// timestamp.
    pub fn flush(&mut self, seq_number: u16, timestamp: u64) -> (r: Vec<u8>)
        requires
            old(self).cseq < u64::MAX,
        ensures
            final(self).cseq == old(self).cseq + 1,
            same_but_cseq(*final(self), *old(self)),
            r@ == spec_request_bytes(
                "FLUSH".spec_bytes(),
                old(self).url@,
                seq![
                    (
                        "RTP-Info".spec_bytes(),
                        spec_rtp_info(seq_number as int, timestamp as int),
                    ),
                ],
                Seq::empty(),
                old(self).cseq + 1,
                old(self).user_agent@,
                header_views(old(self).headers@),
                spec_session_view(old(self).session),
                Seq::empty(),
            ),
    {
        let mut info: Vec<u8> = Vec::new();
        push_lit(&mut info, "seq=");
        push_dec(&mut info, seq_number as u64);
        push_lit(&mut info, ";rtptime=");
        push_dec(&mut info, timestamp);
        let mut info_key: Vec<u8> = Vec::new();
        push_lit(&mut info_key, "RTP-Info");
        let mut extra: Vec<(Vec<u8>, Vec<u8>)> = Vec::new();
        extra.push((info_key, info));
        let r = self.encode_request("FLUSH", &RtspBody::NoBody, &extra, None);
        proof {
            assert(header_views(extra@) =~= seq![
                ("RTP-Info".spec_bytes(), spec_rtp_info(seq_number as int, timestamp as int)),
            ]);
        }
        r
    }

    /// The TEARDOWN request that ends the session.
    pub fn teardown(&mut self) -> (r: Vec<u8>)
        requires
            old(self).cseq < u64::MAX,
        ensures
            final(self).cseq == old(self).cseq + 1,
            same_but_cseq(*final(self), *old(self)),
            r@ == spec_request_bytes(
                "TEARDOWN".spec_bytes(),
                old(self).url@,
                Seq::empty(),
                Seq::empty(),
                old(self).cseq + 1,
                old(self).user_agent@,
                header_views(old(self).headers@),
                spec_session_view(old(self).session),
                Seq::empty(),
            ),
    {
        let extra: Vec<(Vec<u8>, Vec<u8>)> = Vec::new();
        let r = self.encode_request("TEARDOWN", &RtspBody::NoBody, &extra, None);
        proof {
            assert(header_views(extra@) =~= Seq::<(Seq<u8>, Seq<u8>)>::empty());
        }
        r
    }

    /// A POST of a binary body to an override path, as the pairing handshake
    /// uses.
    pub fn post(&mut self, path: &str, content: &Vec<u8>) -> (r: Vec<u8>)
        requires
            old(self).cseq < u64::MAX,
        ensures
            final(self).cseq == old(self).cseq + 1,
            same_but_cseq(*final(self), *old(self)),
            r@ == spec_request_bytes(
                "POST".spec_bytes(),
                path.spec_bytes(),
                Seq::empty(),
                spec_content_lines(
                    "application/octet-stream".spec_bytes(),
                    content@.len() as int,
                ),
                old(self).cseq + 1,
                old(self).user_agent@,
                header_views(old(self).headers@),
                spec_session_view(old(self).session),
                content@,
            ),
    {
        let mut ct: Vec<u8> = Vec::new();
        push_lit(&mut ct, "application/octet-stream");
        let body = RtspBody::BlobBody { content_type: ct, content: copy_bytes(content) };
        let extra: Vec<(Vec<u8>, Vec<u8>)> = Vec::new();
        let r = self.encode_request("POST", &body, &extra, Some(path));
        proof {
            assert(header_views(extra@) =~= Seq::<(Seq<u8>, Seq<u8>)>::empty());
        }
        r
    }

    /// Appends a persistent header carried on every later request.
    pub fn add_exthds(&mut self, key: Vec<u8>, data: Vec<u8>)
        ensures
            final(self).headers@ == old(self).headers@.push((key, data)),
            final(self).url == old(self).url,
            final(self).cseq == old(self).cseq,
            final(self).session == old(self).session,
            final(self).user_agent == old(self).user_agent,
    {
        self.headers.push((key, data));
    }

    /// Removes every persistent header whose key equals `key`.
    pub fn mark_del_exthds(&mut self, key: &Vec<u8>)
        ensures
            header_views(final(self).headers@) == spec_remove_headers(
                header_views(old(self).headers@),
                key@,
            ),
            final(self).url == old(self).url,
            final(self).cseq == old(self).cseq,
            final(self).session == old(self).session,
            final(self).user_agent == old(self).user_agent,
    {
        let mut kept: Vec<(Vec<u8>, Vec<u8>)> = Vec::new();
        let mut i: usize = 0;
        while i < self.headers.len()
            invariant
                i <= self.headers@.len(),
                self.headers == old(self).headers,
                header_views(kept@) == spec_remove_headers(
                    header_views(self.headers@).take(i as int),
                    key@,
                ),
            decreases self.headers@.len() - i,
        {
            let pair = &self.headers[i];
            if !bytes_eq(&pair.0, key) {
                let k = copy_bytes(&pair.0);
                let d = copy_bytes(&pair.1);
                kept.push((k, d));
            }
            i = i + 1;
            proof {
                let h = header_views(self.headers@);
                assert(h.take(i as int).drop_last() =~= h.take(i as int - 1));
                assert(h.take(i as int).last() == h[i as int - 1]);
                assert(header_views(kept@) =~= spec_remove_headers(h.take(i as int), key@));
            }
        }
        proof {
            assert(header_views(self.headers@).take(self.headers@.len() as int)
                =~= header_views(self.headers@));
        }
        self.headers = kept;
    }
}

/// The headers with every entry whose key equals `key` removed, order kept.
pub open spec fn spec_remove_headers(h: Seq<(Seq<u8>, Seq<u8>)>, key: Seq<u8>) -> Seq<(Seq<u8>, Seq<
    u8,
>)>
    decreases h.len(),
{
    if h.len() == 0 {
        Seq::empty()
    } else {
        spec_remove_headers(h.drop_last(), key) + if h.last().0 == key {
            Seq::empty()
        } else {
            seq![h.last()]
        }
    }
}

/// Whether two byte vectors hold the same bytes.
pub fn bytes_eq(a: &Vec<u8>, b: &Vec<u8>) -> (r: bool)
    ensures
        r == (a@ == b@),
{
    if a.len() != b.len() {
        proof {
            assert(a@ != b@);
        }
        return false;
    }
    let mut i: usize = 0;
    while i < a.len()
        invariant
            i <= a@.len(),
            a@.len() == b@.len(),
            forall|j: int| 0 <= j < i ==> a@[j] == b@[j],
        decreases a@.len() - i,
    {
        if a[i] != b[i] {
            return false;
        }
        i = i + 1;
    }
    proof {
        assert(a@ =~= b@);
    }
    true
}

/// An ASCII upper-case letter lowered; any other byte unchanged.
pub open spec fn lower_byte(b: u8) -> u8 {
    if 65 <= b && b <= 90 {
        (b + 32) as u8
    } else {
        b
    }
}

/// Every byte lowered, for case-insensitive header names.
pub open spec fn lower_bytes(s: Seq<u8>) -> Seq<u8> {
    s.map_values(|b: u8| lower_byte(b))
}

/// The index of the first occurrence of `b` at or after `from`, if any.
pub open spec fn spec_find_byte(s: Seq<u8>, from: int, b: u8) -> Option<int>
    decreases s.len() - from,
{
    if from < 0 || from >= s.len() {
        None
    } else if s[from] == b {
        Some(from)
    } else {
        spec_find_byte(s, from + 1, b)
    }
}

/// The end of a token starting at `from`: the first space, CR or LF at or
/// after it, or the end of the line.
pub open spec fn spec_token_end(s: Seq<u8>, from: int) -> int
    decreases s.len() - from,
{
    if from < 0 || from >= s.len() {
        s.len() as int
    } else if s[from] == 32 || s[from] == 13 || s[from] == 10 {
        from
    } else {
        spec_token_end(s, from + 1)
    }
}

/// An ASCII decimal digit.
pub open spec fn is_dec_digit(b: u8) -> bool {
    48 <= b && b <= 57
}

/// Every byte a decimal digit.
pub open spec fn all_digits(s: Seq<u8>) -> bool {
    forall|i: int| 0 <= i < s.len() ==> is_dec_digit(#[trigger] s[i])
}

/// The number the digit string denotes, most significant digit first.
pub open spec fn spec_dec_value(s: Seq<u8>) -> int
    decreases s.len(),
{
    if s.len() == 0 {
        0
    } else {
        spec_dec_value(s.drop_last()) * 10 + (s.last() - 48)
    }
}

/// Ten to the `n`.
pub open spec fn pow10(n: nat) -> int
    decreases n,
{
    if n == 0 {
        1
    } else {
        10 * pow10((n - 1) as nat)
    }
}

/// A digit string of length `l` denotes a value below ten to the `l`.
pub proof fn lemma_dec_value_bound(s: Seq<u8>)
    requires
        all_digits(s),
    ensures
        0 <= spec_dec_value(s) < pow10(s.len()),
    decreases s.len(),
{
    if s.len() > 0 {
        lemma_dec_value_bound(s.drop_last());
    }
}

/// Linear whitespace stripped from header values.
pub open spec fn is_lws(b: u8) -> bool {
    b == 32 || b == 9 || b == 13 || b == 10
}

/// The first index at or after `from` holding a non-whitespace byte.
pub open spec fn spec_skip_ws(s: Seq<u8>, from: int) -> int
    decreases s.len() - from,
{
    if from < 0 || from >= s.len() {
        s.len() as int
    } else if is_lws(s[from]) {
        spec_skip_ws(s, from + 1)
    } else {
        from
    }
}

/// The end of `s` with trailing whitespace before `to` stripped.
pub open spec fn spec_rskip_ws(s: Seq<u8>, to: int) -> int
    decreases to,
{
    if to <= 0 {
        0
    } else if is_lws(s[to - 1]) {
        spec_rskip_ws(s, to - 1)
    } else {
        to
    }
}

/// Stripping trailing whitespace never moves the end forward.
proof fn lemma_rskip_ws_le(s: Seq<u8>, to: int)
    requires
        to >= 0,
    ensures
        spec_rskip_ws(s, to) <= to,
    decreases to,
{
    if to > 0 && is_lws(s[to - 1]) {
        lemma_rskip_ws_le(s, to - 1);
    }
}

/// The bytes with leading and trailing whitespace removed.
pub open spec fn spec_trim(s: Seq<u8>) -> Seq<u8> {
    let start = spec_skip_ws(s, 0);
    let end = spec_rskip_ws(s, s.len() as int);
    if start <= end {
        s.subrange(start, end)
    } else {
        Seq::empty()
    }
}

/// The status-code token of a status line: the bytes between the first space
/// and the next separator.
pub open spec fn spec_status_token(s: Seq<u8>) -> Seq<u8> {
    match spec_find_byte(s, 0, 32) {
        Some(i) => s.subrange(i + 1, spec_token_end(s, i + 1)),
        None => Seq::empty(),
    }
}

/// Whether a status line has a parsable numeric code.
pub open spec fn spec_status_ok_shape(s: Seq<u8>) -> bool {
    &&& spec_find_byte(s, 0, 32) is Some
    &&& 1 <= spec_status_token(s).len() <= 9
    &&& all_digits(spec_status_token(s))
}

/// The reason phrase of a status line: whatever follows the code token,
/// trimmed of whitespace and the line ending.
pub open spec fn spec_status_reason(s: Seq<u8>) -> Seq<u8> {
    match spec_find_byte(s, 0, 32) {
        Some(i) => spec_trim(s.subrange(spec_token_end(s, i + 1), s.len() as int)),
        None => Seq::empty(),
    }
}

/// The value of a digit string, when it is one of at most 19 digits.
pub fn parse_decimal(v: &Vec<u8>) -> (r: Option<u64>)
    ensures
        r is Some <==> (1 <= v@.len() <= 19 && all_digits(v@)),
        r matches Some(x) ==> x == spec_dec_value(v@),
{
    let n = v.len();
    if n == 0 || n > 19 {
        return None;
    }
    let mut value: u64 = 0;
    let mut i: usize = 0;
    while i < n
        invariant
            i <= n,
            n == v@.len(),
            1 <= n <= 19,
            all_digits(v@.take(i as int)),
            value == spec_dec_value(v@.take(i as int)),
        decreases n - i,
    {
        let b = v[i];
        if b < 48 || b > 57 {
            proof {
                assert(!is_dec_digit(v@[i as int]));
            }
            return None;
        }
        proof {
            lemma_dec_value_bound(v@.take(i as int));
            reveal_with_fuel(pow10, 20);
        }
        value = value * 10 + ((b - 48) as u64);
        i = i + 1;
        proof {
            assert(v@.take(i as int).drop_last() =~= v@.take(i as int - 1));
            assert(all_digits(v@.take(i as int)));
        }
    }
    proof {
        assert(v@.take(n as int) =~= v@);
    }
    Some(value)
}

/// The numeric code and reason phrase of an RTSP status line such as
/// `RTSP/1.0 200 OK`.
pub fn parse_status_line(line: &Vec<u8>) -> (r: Result<(u32, Vec<u8>), RtspError>)
    ensures
        r is Ok <==> spec_status_ok_shape(line@),
        r matches Ok(c) ==> c.0 == spec_dec_value(spec_status_token(line@)) && c.1@
            == spec_status_reason(line@),
        r matches Err(e) ==> e == RtspError::MalformedResponse,
{
    let n = line.len();
    let mut i: usize = 0;
    while i < n && line[i] != 32
        invariant
            i <= n,
            n == line@.len(),
            spec_find_byte(line@, 0, 32) == spec_find_byte(line@, i as int, 32),
        decreases n - i,
    {
        i = i + 1;
    }
    if i == n {
        return Err(RtspError::MalformedResponse);
    }
    let start = i + 1;
    let mut j: usize = start;
    while j < n && line[j] != 32 && line[j] != 13 && line[j] != 10
        invariant
            start <= j <= n,
            n == line@.len(),
            spec_token_end(line@, start as int) == spec_token_end(line@, j as int),
        decreases n - j,
    {
        j = j + 1;
    }
    proof {
        assert(spec_find_byte(line@, 0, 32) == Some(i as int));
        assert(spec_token_end(line@, start as int) == j as int);
    }
    let tok = copy_range(line, start, j);
    if j - start > 9 {
        return Err(RtspError::MalformedResponse);
    }
    match parse_decimal(&tok) {
        Some(x) => {
            proof {
                lemma_dec_value_bound(tok@);
                reveal_with_fuel(pow10, 10);
            }
            let tail = copy_range(line, j, n);
            let reason = trim_bytes(&tail);
            Ok((x as u32, reason))
        },
        None => Err(RtspError::MalformedResponse),
    }
}

/// The rule a status line is held to: a request succeeds exactly on code
/// 200; any other code fails the request with that code and its reason
/// phrase.
pub fn check_status(code: u32, reason: &Vec<u8>) -> (r: Result<(), RtspError>)
    ensures
        r is Ok <==> code == 200,
        r matches Err(e) ==> e matches RtspError::ProtocolFailure { code: c, reason: m } && c
            == code && m@ == reason@,
{
    if code == 200 {
        Ok(())
    } else {
        Err(RtspError::ProtocolFailure { code, reason: copy_bytes(reason) })
    }
}

/// Trailing and leading whitespace removed.
pub fn trim_bytes(v: &Vec<u8>) -> (r: Vec<u8>)
    ensures
        r@ == spec_trim(v@),
{
    let n = v.len();
    let mut s: usize = 0;
    while s < n && (v[s] == 32 || v[s] == 9 || v[s] == 13 || v[s] == 10)
        invariant
            s <= n,
            n == v@.len(),
            forall|j: int| 0 <= j < s ==> is_lws(#[trigger] v@[j]),
            spec_skip_ws(v@, 0) == spec_skip_ws(v@, s as int),
        decreases n - s,
    {
        s = s + 1;
    }
    if s == n {
        proof {
            assert(spec_skip_ws(v@, 0) == n as int);
            if n > 0 {
                assert(is_lws(v@[n as int - 1]));
                assert(spec_rskip_ws(v@, n as int) == spec_rskip_ws(v@, n as int - 1));
                lemma_rskip_ws_le(v@, n as int - 1);
            }
        }
        return Vec::new();
    }
    let mut e: usize = n;
    while e > s && (v[e - 1] == 32 || v[e - 1] == 9 || v[e - 1] == 13 || v[e - 1] == 10)
        invariant
            s < e <= n,
            n == v@.len(),
            s < n,
            !is_lws(v@[s as int]),
            spec_skip_ws(v@, 0) == s as int,
            spec_rskip_ws(v@, n as int) == spec_rskip_ws(v@, e as int),
        decreases e,
    {
        e = e - 1;
    }
    proof {
        assert(!is_lws(v@[e as int - 1]));
        assert(spec_rskip_ws(v@, n as int) == e as int);
    }
    copy_range(v, s, e)
}

/// Splits a header line at its first colon; both sides are trimmed. A line
/// with no colon is malformed.
pub fn parse_header_line(line: &Vec<u8>) -> (r: Option<(Vec<u8>, Vec<u8>)>)
    ensures
        r is Some <==> spec_find_byte(line@, 0, 58) is Some,
        r matches Some(kv) ==> spec_find_byte(line@, 0, 58) matches Some(i) && kv.0@ == spec_trim(
            line@.subrange(0, i),
        ) && kv.1@ == spec_trim(line@.subrange(i + 1, line@.len() as int)),
{
    let n = line.len();
    let mut i: usize = 0;
    while i < n && line[i] != 58
        invariant
            i <= n,
            n == line@.len(),
            spec_find_byte(line@, 0, 58) == spec_find_byte(line@, i as int, 58),
        decreases n - i,
    {
        i = i + 1;
    }
    if i == n {
        return None;
    }
    proof {
        assert(spec_find_byte(line@, 0, 58) == Some(i as int));
    }
    let head = copy_range(line, 0, i);
    let tail = copy_range(line, i + 1, n);
    let key = trim_bytes(&head);
    let value = trim_bytes(&tail);
    Some((key, value))
}

/// Lowers one byte, as `lower_byte` describes.
fn lower_b(b: u8) -> (r: u8)
    ensures
        r == lower_byte(b),
{
    if b >= 65 && b <= 90 {
        b + 32
    } else {
        b
    }
}

/// Whether a header key equals `name`, compared case-insensitively.
pub fn key_is(key: &Vec<u8>, name: &str) -> (r: bool)
    ensures
        r == (lower_bytes(key@) == lower_bytes(name.spec_bytes())),
{
    let nb = name.as_bytes();
    if key.len() != nb.len() {
        proof {
            assert(lower_bytes(key@).len() != lower_bytes(name.spec_bytes()).len());
        }
        return false;
    }
    let n = key.len();
    let mut i: usize = 0;
    while i < n
        invariant
            i <= n,
            n == key@.len(),
            n == nb@.len(),
            nb@ == name.spec_bytes(),
            forall|j: int|
                0 <= j < i ==> lower_bytes(key@)[j] == lower_bytes(name.spec_bytes())[j],
        decreases n - i,
    {
        if lower_b(key[i]) != lower_b(nb[i]) {
            proof {
                assert(lower_bytes(key@)[i as int] != lower_bytes(name.spec_bytes())[i as int]);
            }
            return false;
        }
        i = i + 1;
    }
    proof {
        assert(lower_bytes(key@) =~= lower_bytes(name.spec_bytes()));
    }
    true
}

/// The value of the first header whose key is `session`, case-insensitively.
pub open spec fn spec_find_session(h: Seq<(Seq<u8>, Seq<u8>)>) -> Option<Seq<u8>>
    decreases h.len(),
{
    if h.len() == 0 {
        None
    } else if lower_bytes(h[0].0) == lower_bytes("session".spec_bytes()) {
        Some(h[0].1)
    } else {
        spec_find_session(h.drop_first())
    }
}

/// The value of the first header whose key is `content-length`,
/// case-insensitively, if there is one.
pub open spec fn spec_find_content_length(h: Seq<(Seq<u8>, Seq<u8>)>) -> Option<Seq<u8>>
    decreases h.len(),
{
    if h.len() == 0 {
        None
    } else if lower_bytes(h[0].0) == lower_bytes("content-length".spec_bytes()) {
        Some(h[0].1)
    } else {
        spec_find_content_length(h.drop_first())
    }
}

/// The first `Content-Length` header's value parsed as a decimal byte count:
/// present exactly when such a header exists and its value is a digit string
/// the counter can hold.
pub fn find_content_length(headers: &Vec<(Vec<u8>, Vec<u8>)>) -> (r: Option<u64>)
    ensures
        r is Some <==> (spec_find_content_length(header_views(headers@)) matches Some(v) && 1
            <= v.len() <= 19 && all_digits(v)),
        r matches Some(x) ==> spec_find_content_length(header_views(headers@)) matches Some(v)
            && x == spec_dec_value(v),
{
    let n = headers.len();
    let h = Ghost(header_views(headers@));
    proof {
        assert(h@.skip(0) =~= h@);
    }
    let mut i: usize = 0;
    while i < n
        invariant
            i <= n,
            n == headers@.len(),
            h@ == header_views(headers@),
            spec_find_content_length(h@) == spec_find_content_length(h@.skip(i as int)),
        decreases n - i,
    {
        let pair = &headers[i];
        if key_is(&pair.0, "content-length") {
            proof {
                assert(h@.skip(i as int)[0] == h@[i as int]);
            }
            return parse_decimal(&pair.1);
        }
        i = i + 1;
        proof {
            assert(h@.skip(i as int - 1).drop_first() =~= h@.skip(i as int));
            assert(h@.skip(i as int - 1)[0] == h@[i as int - 1]);
        }
    }
    proof {
        assert(h@.skip(n as int) =~= Seq::<(Seq<u8>, Seq<u8>)>::empty());
    }
    None
}

impl RtspSession {
    /// Applies a SETUP response: the value of its `Session` header becomes
    /// the session token; a response without one is a hard failure and
    /// changes nothing.
    pub fn setup_apply(&mut self, response_headers: &Vec<(Vec<u8>, Vec<u8>)>) -> (r: Result<
        (),
        RtspError,
    >)
        ensures
            r is Ok <==> spec_find_session(header_views(response_headers@)) is Some,
            r is Ok ==> spec_session_view(final(self).session) == spec_find_session(
                header_views(response_headers@),
            ),
            r matches Err(e) ==> final(self).session == old(self).session && e
                == RtspError::MissingSession,
            final(self).cseq == old(self).cseq,
            final(self).url == old(self).url,
            final(self).headers == old(self).headers,
            final(self).user_agent == old(self).user_agent,
    {
        let n = response_headers.len();
        let h = Ghost(header_views(response_headers@));
        proof {
            assert(h@.skip(0) =~= h@);
        }
        let mut i: usize = 0;
        while i < n
            invariant
                i <= n,
                n == response_headers@.len(),
                h@ == header_views(response_headers@),
                spec_find_session(h@) == spec_find_session(h@.skip(i as int)),
                self == old(self),
            decreases n - i,
        {
            let pair = &response_headers[i];
            if key_is(&pair.0, "session") {
                proof {
                    assert(h@.skip(i as int)[0] == h@[i as int]);
                }
                self.session = Some(copy_bytes(&pair.1));
                return Ok(());
            }
            i = i + 1;
            proof {
                assert(h@.skip(i as int - 1).drop_first() =~= h@.skip(i as int));
                assert(h@.skip(i as int - 1)[0] == h@[i as int - 1]);
            }
        }
        proof {
            assert(h@.skip(n as int) =~= Seq::<(Seq<u8>, Seq<u8>)>::empty());
        }
        Err(RtspError::MissingSession)
    }
}


/// A request encoded while a session token is held carries the session
/// header: the bytes `Session: <token>CRLF` appear whole inside it, just
/// before the blank line.
pub proof fn lemma_request_carries_session(
    cmd: Seq<u8>,
    url: Seq<u8>,
    extra: Seq<(Seq<u8>, Seq<u8>)>,
    content_headers: Seq<u8>,
    cseq: int,
    user_agent: Seq<u8>,
    persistent: Seq<(Seq<u8>, Seq<u8>)>,
    token: Seq<u8>,
    body_bytes: Seq<u8>,
)
    ensures
        ({
            let req = spec_request_bytes(
                cmd,
                url,
                extra,
                content_headers,
                cseq,
                user_agent,
                persistent,
                Some(token),
                body_bytes,
            );
            let line = "Session: ".spec_bytes() + token + "\r\n".spec_bytes();
            exists|i: int|
                0 <= i && i + line.len() <= req.len() && #[trigger] req.subrange(
                    i,
                    i + line.len(),
                ) == line
        }),
{
    let req = spec_request_bytes(
        cmd,
        url,
        extra,
        content_headers,
        cseq,
        user_agent,
        persistent,
        Some(token),
        body_bytes,
    );
    let line = "Session: ".spec_bytes() + token + "\r\n".spec_bytes();
    let pre = cmd + " ".spec_bytes() + url + " RTSP/1.0\r\n".spec_bytes() + spec_header_lines(
        extra,
    ) + content_headers + "CSeq: ".spec_bytes() + spec_dec(cseq) + "\r\n".spec_bytes()
        + "User-Agent: ".spec_bytes() + user_agent + "\r\n".spec_bytes() + spec_header_lines(
        persistent,
    );
    let i = pre.len() as int;
    assert(req.subrange(i, i + line.len()) =~= line);
}

} // verus!
