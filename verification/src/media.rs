//! The fixed media policy: the codecs every room's router is configured
//! with, and the transport policy every session's transports are created
//! with.

use vstd::prelude::*;

verus! {

/// One RTCP feedback mechanism a codec declares.
#[derive(Debug, PartialEq, Eq)]
pub struct RtcpFeedback {
    pub typ: String,
    pub parameter: String,
}

/// One codec the SFU router is configured with. A plain description: the
/// edge turns it into the SFU engine's own parameter type.
#[derive(Debug, PartialEq, Eq)]
pub struct CodecParameters {
    pub mime_type: String,
    pub clock_rate: u32,
    pub channels: u16,
    pub sdp_fmtp_line: String,
    pub rtcp_feedback: Vec<RtcpFeedback>,
    pub payload_type: u8,
}

/// The audio policy: Opus, payload type 111, 48 kHz stereo, with a
/// minimum packet time of 10 ms and in-band forward error correction.
pub fn audio_codecs() -> (r: Vec<CodecParameters>)
    ensures
        r@.len() == 1,
        r@[0].mime_type@ == "audio/opus"@,
        r@[0].clock_rate == 48000,
        r@[0].channels == 2,
        r@[0].sdp_fmtp_line@ == "minptime=10;useinbandfec=1"@,
        r@[0].rtcp_feedback@.len() == 0,
        r@[0].payload_type == 111,
{
    let mut r: Vec<CodecParameters> = Vec::new();
    r.push(
        CodecParameters {
            mime_type: String::from_str("audio/opus"),
            clock_rate: 48000,
            channels: 2,
            sdp_fmtp_line: String::from_str("minptime=10;useinbandfec=1"),
            rtcp_feedback: Vec::new(),
            payload_type: 111,
        },
    );
    r
}

/// The video policy: H.264 constrained baseline, payload type 102,
/// 90 kHz, packetization mode 1, with the `goog-remb`, `ccm fir`, `nack`
/// and `nack pli` feedback mechanisms.
pub fn video_codecs() -> (r: Vec<CodecParameters>)
    ensures
        r@.len() == 1,
        r@[0].mime_type@ == "video/H264"@,
        r@[0].clock_rate == 90000,
        r@[0].channels == 0,
        r@[0].sdp_fmtp_line@
            == "level-asymmetry-allowed=1;packetization-mode=1;profile-level-id=42001f"@,
        r@[0].payload_type == 102,
        r@[0].rtcp_feedback@.len() == 4,
        r@[0].rtcp_feedback@[0].typ@ == "goog-remb"@,
        r@[0].rtcp_feedback@[0].parameter@ == ""@,
        r@[0].rtcp_feedback@[1].typ@ == "ccm"@,
        r@[0].rtcp_feedback@[1].parameter@ == "fir"@,
        r@[0].rtcp_feedback@[2].typ@ == "nack"@,
        r@[0].rtcp_feedback@[2].parameter@ == ""@,
        r@[0].rtcp_feedback@[3].typ@ == "nack"@,
        r@[0].rtcp_feedback@[3].parameter@ == "pli"@,
{
    let mut feedback: Vec<RtcpFeedback> = Vec::new();
    feedback.push(
        RtcpFeedback { typ: String::from_str("goog-remb"), parameter: String::from_str("") },
    );
    feedback.push(
        RtcpFeedback { typ: String::from_str("ccm"), parameter: String::from_str("fir") },
    );
    feedback.push(
        RtcpFeedback { typ: String::from_str("nack"), parameter: String::from_str("") },
    );
    feedback.push(
        RtcpFeedback { typ: String::from_str("nack"), parameter: String::from_str("pli") },
    );
    let mut r: Vec<CodecParameters> = Vec::new();
    r.push(
        CodecParameters {
            mime_type: String::from_str("video/H264"),
            clock_rate: 90000,
            channels: 0,
            sdp_fmtp_line: String::from_str(
                "level-asymmetry-allowed=1;packetization-mode=1;profile-level-id=42001f",
            ),
            rtcp_feedback: feedback,
            payload_type: 102,
        },
    );
    r
}

/// The policy every session's transports are created with.
#[derive(PartialEq, Eq, Structural, Clone, Copy, Debug)]
pub struct TransportPolicy {
    /// Only relay (TURN) candidates are used: direct paths showed
    /// unstable DTLS handshakes with the SFU engine in use, so every
    /// connection goes through the relay.
    pub relay_only: bool,
    /// IPv4 only, UDP and TCP.
    pub ipv4_only: bool,
    pub ice_disconnected_timeout_secs: u64,
    pub ice_failed_timeout_secs: u64,
    pub ice_keep_alive_interval_secs: u64,
}

/// The fixed transport policy: relay-only candidates, IPv4 only, a 30 s
/// disconnect timeout, a 60 s failure timeout and a 2 s keepalive.
pub fn transport_policy() -> (r: TransportPolicy)
    ensures
        r == (TransportPolicy {
            relay_only: true,
            ipv4_only: true,
            ice_disconnected_timeout_secs: 30,
            ice_failed_timeout_secs: 60,
            ice_keep_alive_interval_secs: 2,
        }),
{
    TransportPolicy {
        relay_only: true,
        ipv4_only: true,
        ice_disconnected_timeout_secs: 30,
        ice_failed_timeout_secs: 60,
        ice_keep_alive_interval_secs: 2,
    }
}

} // verus!
