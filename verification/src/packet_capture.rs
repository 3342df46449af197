use vstd::prelude::*;

verus! {

/// RTP payload type that the capture path accepts.
pub const RTP_PAYLOAD_TYPE: u8 = 96;

/// True when `payload` starts with the RTP payload type byte that the
/// capture path is looking for.
pub fn is_rtp_packet(payload: &[u8]) -> (r: bool)
    ensures
        r == (payload@.len() > 0 && payload@[0] == RTP_PAYLOAD_TYPE),
{
    !payload.is_empty() && payload[0] == RTP_PAYLOAD_TYPE
}

/// The IPv4 destination address that the capture path listens for.
pub const TARGET_IP: [u8; 4] = [192, 168, 1, 1];

/// The UDP destination port that the capture path listens for.
pub const TARGET_PORT: u16 = 1234;

/// True when a captured datagram is kept as an RTP packet: it is UDP, sent
/// to `TARGET_IP`:`TARGET_PORT`, and its payload starts with the RTP
/// payload type byte.
pub fn is_target_rtp(is_udp: bool, dst_ip: [u8; 4], dst_port: u16, payload: &[u8]) -> (r: bool)
    ensures
        r == (is_udp && dst_port == TARGET_PORT && dst_ip@ == TARGET_IP@ && payload@.len() > 0
            && payload@[0] == RTP_PAYLOAD_TYPE),
{
    if is_udp {
        if dst_port == TARGET_PORT && dst_ip[0] == 192 && dst_ip[1] == 168 && dst_ip[2] == 1
            && dst_ip[3] == 1 {
            if is_rtp_packet(payload) {
                assert(dst_ip@ =~= TARGET_IP@);
                return true;
            }
        }
    }
    false
}

} // verus!
