//! Routing-socket message layouts, the address-presence bitmask and the
//! decoding of raw notification buffers.

use vstd::prelude::*;
use crate::bytes::{copy_range, le_i32, le_u16, le_u32, read_i32, read_u16, read_u32};

verus! {

/// Message type of an interface status notification.
pub const RTM_IFINFO: i32 = 0xe;

/// Message type of a route-add notification.
pub const RTM_ADD: i32 = 0x1;

/// Message type of a route-delete notification.
pub const RTM_DELETE: i32 = 0x2;

/// Size of the short header that every routing message starts with.
pub const RT_MSGHDR_SHORT_SIZE: usize = 4;

/// Size of `rt_msghdr`, the header of route messages.
pub const RT_MSGHDR_SIZE: usize = 92;

/// Size of `if_msghdr`, the header of interface messages.
pub const IF_MSGHDR_SIZE: usize = 112;

/// Size of the generic socket-address header: length, family, padding.
pub const SOCKADDR_HDR_SIZE: usize = 4;

/// Address family of link-layer socket addresses.
pub const AF_LINK: u8 = 18;

/// Offset of the interface name inside a link-layer socket address.
pub const SDL_DATA_OFFSET: usize = 8;

/// Smallest socket-address length that carries a family.
pub const SOCKADDR_MIN_LEN: u8 = 2;

/// Largest socket address that fits in socket-address storage.
pub const SOCKADDR_STORAGE_SIZE: u8 = 128;

/// Destination socket address present
pub const RTA_DST: i32 = 0x1;

/// Gateway socket address present
pub const RTA_GATEWAY: i32 = 0x2;

/// Netmask socket address present
pub const RTA_NETMASK: i32 = 0x4;

/// Cloning mask socket address present
pub const RTA_GENMASK: i32 = 0x8;

/// Interface name socket address present
pub const RTA_IFP: i32 = 0x10;

/// Interface address socket address present
pub const RTA_IFA: i32 = 0x20;

/// Socket address of the author of a redirect present
pub const RTA_AUTHOR: i32 = 0x40;

/// Broadcast or point-to-point destination address present
pub const RTA_BRD: i32 = 0x80;

#[derive(Debug, PartialEq, Eq)]
pub enum Error {
    /// Payload buffer didn't match the reported message size in header
    InvalidBuffer(usize, usize),
    /// Buffer too small for specific message type
    BufferTooSmall(&'static str, usize),
    /// Unrecognized message
    UnknownMessageType(u8),
    /// Unrecognized address flag
    UnknownAddressFlag(AddressFlag),
}

/// Bitmask of the socket addresses that follow a route header.
///
/// The single-bit values are enumerated in ascending order, from
/// `RTA_DST` (0x01) to `RTA_BRD` (0x80).
#[derive(Debug, Clone, Copy, PartialEq, Eq, Hash)]
pub struct AddressFlag {
    pub bits: i32,
}

/// The `k`-th single-bit address flag, `k` in `0..8`.
pub open spec fn flag_bit(k: int) -> i32 {
    if k == 0 {
        0x1
    } else if k == 1 {
        0x2
    } else if k == 2 {
        0x4
    } else if k == 3 {
        0x8
    } else if k == 4 {
        0x10
    } else if k == 5 {
        0x20
    } else if k == 6 {
        0x40
    } else {
        0x80
    }
}

/// `bits` is exactly one of the eight defined flags.
pub open spec fn is_single_flag(bits: i32) -> bool {
    bits == RTA_DST || bits == RTA_GATEWAY || bits == RTA_NETMASK || bits == RTA_GENMASK || bits
        == RTA_IFP || bits == RTA_IFA || bits == RTA_AUTHOR || bits == RTA_BRD
}

/// The name of the single-bit flag `bits`, if it is one.
pub open spec fn flag_name(bits: i32) -> Option<&'static str> {
    if bits == RTA_DST {
        Some("RTA_DST")
    } else if bits == RTA_GATEWAY {
        Some("RTA_GATEWAY")
    } else if bits == RTA_NETMASK {
        Some("RTA_NETMASK")
    } else if bits == RTA_GENMASK {
        Some("RTA_GENMASK")
    } else if bits == RTA_IFP {
        Some("RTA_IFP")
    } else if bits == RTA_IFA {
        Some("RTA_IFA")
    } else if bits == RTA_AUTHOR {
        Some("RTA_AUTHOR")
    } else if bits == RTA_BRD {
        Some("RTA_BRD")
    } else {
        None
    }
}

impl AddressFlag {
    pub fn empty() -> (r: AddressFlag)
        ensures
            r.bits == 0,
    {
        AddressFlag { bits: 0 }
    }

    /// The flags of `bits`, if it sets no bit outside the eight defined ones.
    pub fn from_bits(bits: i32) -> (r: Option<AddressFlag>)
        ensures
            r == (if 0 <= bits <= 0xff {
                Some(AddressFlag { bits })
            } else {
                None
            }),
    {
        if 0 <= bits && bits <= 0xff {
            Some(AddressFlag { bits })
        } else {
            None
        }
    }

    pub fn bits(&self) -> (r: i32)
        ensures
            r == self.bits,
    {
        self.bits
    }

    pub fn contains(&self, other: AddressFlag) -> (r: bool)
        ensures
            r == (self.bits & other.bits == other.bits),
    {
        self.bits & other.bits == other.bits
    }

    /// The name of a single-bit flag.
    pub fn name(&self) -> (r: Option<&'static str>)
        ensures
            r == flag_name(self.bits),
    {
        if self.bits == RTA_DST {
            Some("RTA_DST")
        } else if self.bits == RTA_GATEWAY {
            Some("RTA_GATEWAY")
        } else if self.bits == RTA_NETMASK {
            Some("RTA_NETMASK")
        } else if self.bits == RTA_GENMASK {
            Some("RTA_GENMASK")
        } else if self.bits == RTA_IFP {
            Some("RTA_IFP")
        } else if self.bits == RTA_IFA {
            Some("RTA_IFA")
        } else if self.bits == RTA_AUTHOR {
            Some("RTA_AUTHOR")
        } else if self.bits == RTA_BRD {
            Some("RTA_BRD")
        } else {
            None
        }
    }

    /// The `k`-th single-bit flag, in ascending order.
    pub fn nth(k: usize) -> (r: AddressFlag)
        requires
            k < 8,
        ensures
            r.bits == flag_bit(k as int),
    {
        if k == 0 {
            AddressFlag { bits: RTA_DST }
        } else if k == 1 {
            AddressFlag { bits: RTA_GATEWAY }
        } else if k == 2 {
            AddressFlag { bits: RTA_NETMASK }
        } else if k == 3 {
            AddressFlag { bits: RTA_GENMASK }
        } else if k == 4 {
            AddressFlag { bits: RTA_IFP }
        } else if k == 5 {
            AddressFlag { bits: RTA_IFA }
        } else if k == 6 {
            AddressFlag { bits: RTA_AUTHOR }
        } else {
            AddressFlag { bits: RTA_BRD }
        }
    }
}

/// `n` rounded up to a multiple of 4; an empty slot still takes 4 bytes.
pub open spec fn align4(n: int) -> int {
    if n == 0 {
        4
    } else {
        ((n + 3) / 4) * 4
    }
}

pub fn align_to_nearest_u32(idx: usize) -> (r: usize)
    requires
        idx <= usize::MAX - 3,
    ensures
        r as int == align4(idx as int),
{
    if idx > 0 {
        let p: usize = idx - 1;
        let m: usize = p | 3;
        assert(m % 4 == 3 && m >= p && m <= p + 3) by (bit_vector)
            requires
                m == p | 3,
        ;
        1 + m
    } else {
        4
    }
}

/// Metrics of a route, as embedded in `rt_msghdr`.
#[allow(non_camel_case_types)]
#[derive(Debug, Clone, Copy)]
pub struct rt_metrics {
    pub rmx_locks: u32,
    pub rmx_mtu: u32,
    pub rmx_hopcount: u32,
    pub rmx_expire: i32,
    pub rmx_recvpipe: u32,
    pub rmx_sendpipe: u32,
    pub rmx_ssthresh: u32,
    pub rmx_rtt: u32,
    pub rmx_rttvar: u32,
    pub rmx_pksent: u32,
    pub rmx_state: u32,
    pub rmx_filler: [u32; 3],
}

impl rt_metrics {
    /// The fields hold the metrics block of the route header at the start of `b`.
    pub open spec fn decodes(&self, b: Seq<u8>) -> bool {
        &&& self.rmx_locks as int == le_u32(b, 36)
        &&& self.rmx_mtu as int == le_u32(b, 40)
        &&& self.rmx_hopcount as int == le_u32(b, 44)
        &&& self.rmx_expire as int == le_i32(b, 48)
        &&& self.rmx_recvpipe as int == le_u32(b, 52)
        &&& self.rmx_sendpipe as int == le_u32(b, 56)
        &&& self.rmx_ssthresh as int == le_u32(b, 60)
        &&& self.rmx_rtt as int == le_u32(b, 64)
        &&& self.rmx_rttvar as int == le_u32(b, 68)
        &&& self.rmx_pksent as int == le_u32(b, 72)
        &&& self.rmx_state as int == le_u32(b, 76)
        &&& self.rmx_filler@[0] as int == le_u32(b, 80)
        &&& self.rmx_filler@[1] as int == le_u32(b, 84)
        &&& self.rmx_filler@[2] as int == le_u32(b, 88)
    }

    fn from_header_bytes(buf: &[u8]) -> (r: rt_metrics)
        requires
            RT_MSGHDR_SIZE <= buf@.len(),
        ensures
            r.decodes(buf@),
    {
        let r = rt_metrics {
            rmx_locks: read_u32(buf, 36),
            rmx_mtu: read_u32(buf, 40),
            rmx_hopcount: read_u32(buf, 44),
            rmx_expire: read_i32(buf, 48),
            rmx_recvpipe: read_u32(buf, 52),
            rmx_sendpipe: read_u32(buf, 56),
            rmx_ssthresh: read_u32(buf, 60),
            rmx_rtt: read_u32(buf, 64),
            rmx_rttvar: read_u32(buf, 68),
            rmx_pksent: read_u32(buf, 72),
            rmx_state: read_u32(buf, 76),
            rmx_filler: [read_u32(buf, 80), read_u32(buf, 84), read_u32(buf, 88)],
        };
        r
    }
}

/// Header of route messages (add, delete and the like), in host order.
#[allow(non_camel_case_types)]
#[derive(Debug, Clone, Copy)]
pub struct rt_msghdr {
    pub rtm_msglen: u16,
    pub rtm_version: u8,
    pub rtm_type: u8,
    pub rtm_index: u16,
    pub rtm_flags: i32,
    pub rtm_addrs: i32,
    pub rtm_pid: i32,
    pub rtm_seq: i32,
    pub rtm_errno: i32,
    pub rtm_use: i32,
    pub rtm_inits: u32,
    pub rtm_rmx: rt_metrics,
}

impl rt_msghdr {
    /// The fields hold the header at the start of `b`.
    pub open spec fn decodes(&self, b: Seq<u8>) -> bool {
        &&& self.rtm_msglen as int == le_u16(b, 0)
        &&& self.rtm_version as int == b[2] as int
        &&& self.rtm_type as int == b[3] as int
        &&& self.rtm_index as int == le_u16(b, 4)
        &&& self.rtm_flags as int == le_i32(b, 8)
        &&& self.rtm_addrs as int == le_i32(b, 12)
        &&& self.rtm_pid as int == le_i32(b, 16)
        &&& self.rtm_seq as int == le_i32(b, 20)
        &&& self.rtm_errno as int == le_i32(b, 24)
        &&& self.rtm_use as int == le_i32(b, 28)
        &&& self.rtm_inits as int == le_u32(b, 32)
        &&& self.rtm_rmx.decodes(b)
    }

    pub fn from_bytes(buf: &[u8]) -> (r: Option<rt_msghdr>)
        ensures
            buf@.len() >= RT_MSGHDR_SIZE <==> r is Some,
            r matches Some(h) ==> h.decodes(buf@),
    {
        if buf.len() >= RT_MSGHDR_SIZE {
            let h = rt_msghdr {
                rtm_msglen: read_u16(buf, 0),
                rtm_version: buf[2],
                rtm_type: buf[3],
                rtm_index: read_u16(buf, 4),
                rtm_flags: read_i32(buf, 8),
                rtm_addrs: read_i32(buf, 12),
                rtm_pid: read_i32(buf, 16),
                rtm_seq: read_i32(buf, 20),
                rtm_errno: read_i32(buf, 24),
                rtm_use: read_i32(buf, 28),
                rtm_inits: read_u32(buf, 32),
                rtm_rmx: rt_metrics::from_header_bytes(buf),
            };
            Some(h)
        } else {
            None
        }
    }
}


/// Shorter rt_msghdr version that matches all routing messages
#[allow(non_camel_case_types)]
#[derive(Debug, Clone, Copy)]
pub struct rt_msghdr_short {
    pub rtm_msglen: u16,
    pub rtm_version: u8,
    pub rtm_type: u8,
}

impl rt_msghdr_short {
    /// The fields hold the short header at the start of `b`.
    pub open spec fn decodes(&self, b: Seq<u8>) -> bool {
        &&& self.rtm_msglen as int == le_u16(b, 0)
        &&& self.rtm_version == b[2]
        &&& self.rtm_type == b[3]
    }

    pub open spec fn has_type(&self, expected_type: i32) -> bool {
        0 <= expected_type <= 255 && self.rtm_type as int == expected_type as int
    }

    pub fn is_one_of(&self, expected_types: &[i32]) -> (r: bool)
        ensures
            r == (exists|i: int|
                0 <= i < expected_types@.len() && self.has_type(#[trigger] expected_types@[i])),
    {
        let mut i: usize = 0;
        while i < expected_types.len()
            invariant
                i <= expected_types@.len(),
                forall|j: int| 0 <= j < i ==> !self.has_type(#[trigger] expected_types@[j]),
            decreases expected_types@.len() - i,
        {
            if self.is_type(expected_types[i]) {
                return true;
            }
            i = i + 1;
        }
        false
    }

    pub fn is_type(&self, expected_type: i32) -> (r: bool)
        ensures
            r == self.has_type(expected_type),
    {
        if 0 <= expected_type && expected_type <= 255 {
            self.rtm_type == expected_type as u8
        } else {
            false
        }
    }

    pub fn from_bytes(buf: &[u8]) -> (r: Option<rt_msghdr_short>)
        ensures
            buf@.len() >= RT_MSGHDR_SHORT_SIZE <==> r is Some,
            r matches Some(h) ==> h.decodes(buf@),
    {
        if buf.len() >= RT_MSGHDR_SHORT_SIZE {
            Some(rt_msghdr_short { rtm_msglen: read_u16(buf, 0), rtm_version: buf[2], rtm_type: buf[3] })
        } else {
            None
        }
    }
}

/// Seconds and microseconds of a timestamp, 32 bits each.
#[allow(non_camel_case_types)]
#[derive(Debug, Clone, Copy)]
pub struct timeval32 {
    pub tv_sec: i32,
    pub tv_usec: i32,
}

/// Interface statistics, as embedded in `if_msghdr`.
#[allow(non_camel_case_types)]
#[derive(Debug, Clone, Copy)]
pub struct if_data {
    pub ifi_type: u8,
    pub ifi_typelen: u8,
    pub ifi_physical: u8,
    pub ifi_addrlen: u8,
    pub ifi_hdrlen: u8,
    pub ifi_recvquota: u8,
    pub ifi_xmitquota: u8,
    pub ifi_unused1: u8,
    pub ifi_mtu: u32,
    pub ifi_metric: u32,
    pub ifi_baudrate: u32,
    pub ifi_ipackets: u32,
    pub ifi_ierrors: u32,
    pub ifi_opackets: u32,
    pub ifi_oerrors: u32,
    pub ifi_collisions: u32,
    pub ifi_ibytes: u32,
    pub ifi_obytes: u32,
    pub ifi_imcasts: u32,
    pub ifi_omcasts: u32,
    pub ifi_iqdrops: u32,
    pub ifi_noproto: u32,
    pub ifi_recvtiming: u32,
    pub ifi_xmittiming: u32,
    pub ifi_lastchange: timeval32,
    pub ifi_unused2: u32,
    pub ifi_hwassist: u32,
    pub ifi_reserved1: u32,
    pub ifi_reserved2: u32,
}

impl if_data {
    /// The fields hold the statistics block of the interface header at the
    /// start of `b`.
    pub open spec fn decodes(&self, b: Seq<u8>) -> bool {
        &&& self.ifi_type as int == b[16] as int
        &&& self.ifi_typelen as int == b[17] as int
        &&& self.ifi_physical as int == b[18] as int
        &&& self.ifi_addrlen as int == b[19] as int
        &&& self.ifi_hdrlen as int == b[20] as int
        &&& self.ifi_recvquota as int == b[21] as int
        &&& self.ifi_xmitquota as int == b[22] as int
        &&& self.ifi_unused1 as int == b[23] as int
        &&& self.ifi_mtu as int == le_u32(b, 24)
        &&& self.ifi_metric as int == le_u32(b, 28)
        &&& self.ifi_baudrate as int == le_u32(b, 32)
        &&& self.ifi_ipackets as int == le_u32(b, 36)
        &&& self.ifi_ierrors as int == le_u32(b, 40)
        &&& self.ifi_opackets as int == le_u32(b, 44)
        &&& self.ifi_oerrors as int == le_u32(b, 48)
        &&& self.ifi_collisions as int == le_u32(b, 52)
        &&& self.ifi_ibytes as int == le_u32(b, 56)
        &&& self.ifi_obytes as int == le_u32(b, 60)
        &&& self.ifi_imcasts as int == le_u32(b, 64)
        &&& self.ifi_omcasts as int == le_u32(b, 68)
        &&& self.ifi_iqdrops as int == le_u32(b, 72)
        &&& self.ifi_noproto as int == le_u32(b, 76)
        &&& self.ifi_recvtiming as int == le_u32(b, 80)
        &&& self.ifi_xmittiming as int == le_u32(b, 84)
        &&& self.ifi_lastchange.tv_sec as int == le_i32(b, 88)
        &&& self.ifi_lastchange.tv_usec as int == le_i32(b, 92)
        &&& self.ifi_unused2 as int == le_u32(b, 96)
        &&& self.ifi_hwassist as int == le_u32(b, 100)
        &&& self.ifi_reserved1 as int == le_u32(b, 104)
        &&& self.ifi_reserved2 as int == le_u32(b, 108)
    }

    fn from_header_bytes(buf: &[u8]) -> (r: if_data)
        requires
            IF_MSGHDR_SIZE <= buf@.len(),
        ensures
            r.decodes(buf@),
    {
        let r = if_data {
            ifi_type: buf[16],
            ifi_typelen: buf[17],
            ifi_physical: buf[18],
            ifi_addrlen: buf[19],
            ifi_hdrlen: buf[20],
            ifi_recvquota: buf[21],
            ifi_xmitquota: buf[22],
            ifi_unused1: buf[23],
            ifi_mtu: read_u32(buf, 24),
            ifi_metric: read_u32(buf, 28),
            ifi_baudrate: read_u32(buf, 32),
            ifi_ipackets: read_u32(buf, 36),
            ifi_ierrors: read_u32(buf, 40),
            ifi_opackets: read_u32(buf, 44),
            ifi_oerrors: read_u32(buf, 48),
            ifi_collisions: read_u32(buf, 52),
            ifi_ibytes: read_u32(buf, 56),
            ifi_obytes: read_u32(buf, 60),
            ifi_imcasts: read_u32(buf, 64),
            ifi_omcasts: read_u32(buf, 68),
            ifi_iqdrops: read_u32(buf, 72),
            ifi_noproto: read_u32(buf, 76),
            ifi_recvtiming: read_u32(buf, 80),
            ifi_xmittiming: read_u32(buf, 84),
            ifi_lastchange: timeval32 { tv_sec: read_i32(buf, 88), tv_usec: read_i32(buf, 92) },
            ifi_unused2: read_u32(buf, 96),
            ifi_hwassist: read_u32(buf, 100),
            ifi_reserved1: read_u32(buf, 104),
            ifi_reserved2: read_u32(buf, 108),
        };
        r
    }
}

/// Header of interface messages, in host order.
#[allow(non_camel_case_types)]
#[derive(Debug, Clone, Copy)]
pub struct if_msghdr {
    pub ifm_msglen: u16,
    pub ifm_version: u8,
    pub ifm_type: u8,
    pub ifm_addrs: i32,
    pub ifm_flags: i32,
    pub ifm_index: u16,
    pub ifm_data: if_data,
}

impl if_msghdr {
    /// The fields hold the header at the start of `b`.
    pub open spec fn decodes(&self, b: Seq<u8>) -> bool {
        &&& self.ifm_msglen as int == le_u16(b, 0)
        &&& self.ifm_version == b[2]
        &&& self.ifm_type == b[3]
        &&& self.ifm_addrs as int == le_i32(b, 4)
        &&& self.ifm_flags as int == le_i32(b, 8)
        &&& self.ifm_index as int == le_u16(b, 12)
        &&& self.ifm_data.decodes(b)
    }

    pub fn from_bytes(buf: &[u8]) -> (r: Option<if_msghdr>)
        ensures
            buf@.len() >= IF_MSGHDR_SIZE <==> r is Some,
            r matches Some(h) ==> h.decodes(buf@),
    {
        if buf.len() >= IF_MSGHDR_SIZE {
            Some(
                if_msghdr {
                    ifm_msglen: read_u16(buf, 0),
                    ifm_version: buf[2],
                    ifm_type: buf[3],
                    ifm_addrs: read_i32(buf, 4),
                    ifm_flags: read_i32(buf, 8),
                    ifm_index: read_u16(buf, 12),
                    ifm_data: if_data::from_header_bytes(buf),
                },
            )
        } else {
            None
        }
    }
}

/// A socket address detached from the message it was read from: the bytes
/// of the record, starting with its length and family bytes.
#[derive(Debug, Clone, PartialEq, Eq)]
pub struct SocketAddress {
    bytes: Vec<u8>,
}

impl View for SocketAddress {
    type V = Seq<u8>;

    closed spec fn view(&self) -> Seq<u8> {
        self.bytes@
    }
}

impl SocketAddress {
    /// The record's own length byte.
    pub fn sa_len(&self) -> (r: u8)
        ensures
            r == (if self@.len() > 0 { self@[0] } else { 0 }),
    {
        if self.bytes.len() > 0 {
            self.bytes[0]
        } else {
            0
        }
    }

    /// The record's address family byte.
    pub fn sa_family(&self) -> (r: u8)
        ensures
            r == (if self@.len() > 1 { self@[1] } else { 0 }),
    {
        if self.bytes.len() > 1 {
            self.bytes[1]
        } else {
            0
        }
    }

    pub fn as_bytes(&self) -> (r: &[u8])
        ensures
            r@ == self@,
    {
        self.bytes.as_slice()
    }

    /// The interface index of a link-layer address.
    pub fn link_index(&self) -> (r: Option<u16>)
        ensures
            r == (if is_link_addr(self@) {
                Some(le_u16(self@, 2) as u16)
            } else {
                None
            }),
    {
        if self.bytes.len() >= SOCKADDR_HDR_SIZE && self.bytes[1] == AF_LINK {
            Some(read_u16(self.bytes.as_slice(), 2))
        } else {
            None
        }
    }

    /// The interface name bytes of a link-layer address, where the record
    /// holds all of them.
    pub fn link_name(&self) -> (r: Option<Vec<u8>>)
        ensures
            match r {
                Some(name) => link_name_fits(self@) && name@ == self@.subrange(
                    SDL_DATA_OFFSET as int,
                    SDL_DATA_OFFSET + self@[5],
                ),
                None => !link_name_fits(self@),
            },
    {
        if self.bytes.len() >= SDL_DATA_OFFSET && self.bytes[1] == AF_LINK {
            let end = SDL_DATA_OFFSET + self.bytes[5] as usize;
            if end <= self.bytes.len() {
                return Some(copy_range(self.bytes.as_slice(), SDL_DATA_OFFSET, end));
            }
        }
        None
    }
}

/// `b` is a link-layer address record with room for its interface index.
pub open spec fn is_link_addr(b: Seq<u8>) -> bool {
    b.len() >= SOCKADDR_HDR_SIZE && b[1] == AF_LINK
}

/// `b` is a link-layer address record that holds its whole interface name,
/// whose length is the byte at offset 5.
pub open spec fn link_name_fits(b: Seq<u8>) -> bool {
    b.len() >= SDL_DATA_OFFSET && b[1] == AF_LINK && SDL_DATA_OFFSET + b[5] <= b.len()
}

/// Whether a socket address of length `sa_len` can be decoded: it must
/// reach past the family byte and fit in socket-address storage.
pub open spec fn sockaddr_len_decodes(sa_len: u8) -> bool {
    SOCKADDR_MIN_LEN <= sa_len <= SOCKADDR_STORAGE_SIZE
}

/// The decoded socket address at the front of `b`, if any.
pub open spec fn decoded_sockaddr(b: Seq<u8>) -> Option<Seq<u8>> {
    if b.len() > 0 && sockaddr_len_decodes(b[0]) {
        Some(b.take(vstd::math::min(b[0] as int, b.len() as int)))
    } else {
        None
    }
}

/// Decodes the socket address at the front of `buf`, given its length byte.
fn decode_sockaddr(buf: &[u8], start: usize, sa_len: u8) -> (r: Option<SocketAddress>)
    requires
        start < buf@.len(),
        buf@[start as int] == sa_len,
    ensures
        r matches Some(a) ==> decoded_sockaddr(buf@.skip(start as int)) == Some(a@),
        r is None ==> decoded_sockaddr(buf@.skip(start as int)) is None,
{
    if sa_len < SOCKADDR_MIN_LEN || sa_len > SOCKADDR_STORAGE_SIZE {
        return None;
    }
    let rest = buf.len() - start;
    let take: usize = if (sa_len as usize) < rest { sa_len as usize } else { rest };
    let bytes = copy_range(buf, start, start + take);
    assert(bytes@ =~= buf@.skip(start as int).take(take as int));
    Some(SocketAddress { bytes })
}


/// A socket address of a route message, tagged with the role its flag gives it.
#[derive(Debug, Clone, PartialEq, Eq)]
pub enum RouteSockAddress {
    /// Corresponds to RTA_DST
    Destination(Option<SocketAddress>),
    /// RTA_GATEWAY
    Gateway(Option<SocketAddress>),
    /// RTA_NETMASK
    Netmask(Option<SocketAddress>),
    /// RTA_GENMASK
    CloningMask(Option<SocketAddress>),
    /// RTA_IFP
    IfName(Option<SocketAddress>),
    /// RTA_IFA
    IfSockaddr(Option<SocketAddress>),
    /// RTA_AUTHOR
    RedirectAuthor(Option<SocketAddress>),
    /// RTA_BRD
    Broadcast(Option<SocketAddress>),
}

impl RouteSockAddress {
    /// The flag bit that names this variant.
    pub open spec fn flag_bits(&self) -> i32 {
        match self {
            RouteSockAddress::Destination(_) => RTA_DST,
            RouteSockAddress::Gateway(_) => RTA_GATEWAY,
            RouteSockAddress::Netmask(_) => RTA_NETMASK,
            RouteSockAddress::CloningMask(_) => RTA_GENMASK,
            RouteSockAddress::IfName(_) => RTA_IFP,
            RouteSockAddress::IfSockaddr(_) => RTA_IFA,
            RouteSockAddress::RedirectAuthor(_) => RTA_AUTHOR,
            RouteSockAddress::Broadcast(_) => RTA_BRD,
        }
    }

    pub open spec fn address(&self) -> Option<SocketAddress> {
        match self {
            RouteSockAddress::Destination(a) => *a,
            RouteSockAddress::Gateway(a) => *a,
            RouteSockAddress::Netmask(a) => *a,
            RouteSockAddress::CloningMask(a) => *a,
            RouteSockAddress::IfName(a) => *a,
            RouteSockAddress::IfSockaddr(a) => *a,
            RouteSockAddress::RedirectAuthor(a) => *a,
            RouteSockAddress::Broadcast(a) => *a,
        }
    }

    /// The socket address at the front of `buf`, tagged by `flag`, with the
    /// number of bytes its record takes. A zero length byte marks an empty
    /// 4-byte slot.
    pub fn new(flag: AddressFlag, buf: &[u8]) -> (r: Result<(Self, usize), Error>)
        ensures
            buf@.len() < SOCKADDR_HDR_SIZE ==> r == Err::<(Self, usize), Error>(
                Error::BufferTooSmall("sockaddr buffer too small", buf@.len() as usize),
            ),
            buf@.len() >= SOCKADDR_HDR_SIZE && !is_single_flag(flag.bits) && buf@[0] as int
                <= buf@.len() ==> r == Err::<(Self, usize), Error>(Error::UnknownAddressFlag(flag)),
            buf@.len() >= SOCKADDR_HDR_SIZE && buf@[0] as int > buf@.len() ==> r == Err::<
                (Self, usize),
                Error,
            >(Error::InvalidBuffer(buf@[0] as usize, buf@.len() as usize)),
            buf@.len() >= SOCKADDR_HDR_SIZE && is_single_flag(flag.bits) && buf@[0] as int
                <= buf@.len() ==> (r matches Ok((a, n)) && a.flag_bits() == flag.bits && (if buf@[0]
                == 0 {
                a.address() is None && n == 4
            } else {
                n == buf@[0] as usize && match a.address() {
                    Some(x) => decoded_sockaddr(buf@) == Some(x@),
                    None => decoded_sockaddr(buf@) is None,
                }
            })),
    {
        if buf.len() < SOCKADDR_HDR_SIZE {
            return Err(Error::BufferTooSmall("sockaddr buffer too small", buf.len()));
        }
        let saddr_len = buf[0];
        if saddr_len == 0 {
            let a = RouteSockAddress::with_sockaddr(flag, None)?;
            return Ok((a, align_to_nearest_u32(0)));
        }
        if saddr_len as usize > buf.len() {
            return Err(Error::InvalidBuffer(saddr_len as usize, buf.len()));
        }
        let saddr = decode_sockaddr(buf, 0, saddr_len);
        assert(buf@.skip(0) =~= buf@);
        let a = RouteSockAddress::with_sockaddr(flag, saddr)?;
        Ok((a, saddr_len as usize))
    }

    /// The variant that `flag` names, holding `sockaddr`.
    pub fn with_sockaddr(flag: AddressFlag, sockaddr: Option<SocketAddress>) -> (r: Result<Self, Error>)
        ensures
            is_single_flag(flag.bits) <==> r is Ok,
            r matches Ok(a) ==> a.flag_bits() == flag.bits && a.address() == sockaddr,
            r is Err ==> r == Err::<Self, Error>(Error::UnknownAddressFlag(flag)),
    {
        if flag.bits == RTA_DST {
            Ok(RouteSockAddress::Destination(sockaddr))
        } else if flag.bits == RTA_GATEWAY {
            Ok(RouteSockAddress::Gateway(sockaddr))
        } else if flag.bits == RTA_NETMASK {
            Ok(RouteSockAddress::Netmask(sockaddr))
        } else if flag.bits == RTA_GENMASK {
            Ok(RouteSockAddress::CloningMask(sockaddr))
        } else if flag.bits == RTA_IFP {
            Ok(RouteSockAddress::IfName(sockaddr))
        } else if flag.bits == RTA_IFA {
            Ok(RouteSockAddress::IfSockaddr(sockaddr))
        } else if flag.bits == RTA_AUTHOR {
            Ok(RouteSockAddress::RedirectAuthor(sockaddr))
        } else if flag.bits == RTA_BRD {
            Ok(RouteSockAddress::Broadcast(sockaddr))
        } else {
            Err(Error::UnknownAddressFlag(flag))
        }
    }
}


/// An address as the iterator yields it: the record's bytes and its flag bit.
pub open spec fn item_view(item: (SocketAddress, AddressFlag)) -> (Seq<u8>, i32) {
    (item.0@, item.1.bits)
}

/// The addresses that remain to be read from `rest` when the flags of `wanted`
/// from the `k`-th on are still to be probed, in ascending flag order.
///
/// A flag that `wanted` lacks takes no bytes. The sequence ends early where
/// fewer bytes than a socket-address header remain, or where the record in
/// front cannot be decoded (a zero length among them). A record is followed
/// by the padding that brings its length to a multiple of 4.
pub open spec fn addr_entries(rest: Seq<u8>, wanted: i32, k: int) -> Seq<(Seq<u8>, i32)>
    decreases 8 - k,
{
    if k < 0 || k >= 8 {
        seq![]
    } else if wanted & flag_bit(k) != flag_bit(k) {
        addr_entries(rest, wanted, k + 1)
    } else if rest.len() < SOCKADDR_HDR_SIZE {
        seq![]
    } else {
        match decoded_sockaddr(rest) {
            None => seq![],
            Some(record) => seq![(record, flag_bit(k))].add(
                addr_entries(
                    rest.skip(vstd::math::min(rest.len() as int, align4(rest[0] as int))),
                    wanted,
                    k + 1,
                ),
            ),
        }
    }
}

/// Walks the socket addresses of a route message's payload, one flag at a
/// time. `cursor` is the index of the next flag bit to probe: the probe value
/// is `1 << cursor`, and once it passes 0x80 nothing more is produced.
pub struct SockAddrIterator {
    buffer: Vec<u8>,
    pos: usize,
    flags: AddressFlag,
    cursor: usize,
}

impl SockAddrIterator {
    pub closed spec fn wf(&self) -> bool {
        self.pos <= self.buffer@.len() && self.cursor <= 8
    }

    /// The bytes not consumed yet.
    pub closed spec fn rest(&self) -> Seq<u8> {
        self.buffer@.subrange(self.pos as int, self.buffer@.len() as int)
    }

    pub closed spec fn wanted(&self) -> i32 {
        self.flags.bits
    }

    pub closed spec fn probe_index(&self) -> int {
        self.cursor as int
    }

    /// What the iterator has left to produce.
    pub open spec fn entries(&self) -> Seq<(Seq<u8>, i32)> {
        addr_entries(self.rest(), self.wanted(), self.probe_index())
    }

    pub fn new(buffer: &[u8], flags: AddressFlag) -> (r: Self)
        ensures
            r.wf(),
            r.rest() == buffer@,
            r.wanted() == flags.bits,
            r.probe_index() == 0,
    {
        let buffer = copy_range(buffer, 0, buffer.len());
        let r = SockAddrIterator { buffer, pos: 0, flags, cursor: 0 };
        assert(r.rest() =~= r.buffer@);
        r
    }

    /// Bytes from the start of a record of length `saddr_len` to the next one.
    fn next_offset(&self, saddr_len: u8) -> (r: usize)
        ensures
            r as int == align4(saddr_len as int),
    {
        align_to_nearest_u32(saddr_len as usize)
    }

    /// The next address and its flag, or `None` when the sequence is over.
    /// After `None` the iterator stays exhausted. A sequence cut short by a
    /// record that does not decode ends the same way as one that ran out of
    /// flags: callers cannot tell the two apart.
    pub fn next(&mut self) -> (r: Option<(SocketAddress, AddressFlag)>)
        requires
            old(self).wf(),
        ensures
            final(self).wf(),
            old(self).entries() == (match r {
                Some(item) => seq![item_view(item)].add(final(self).entries()),
                None => seq![],
            }),
            r is None ==> final(self).entries() == Seq::<(Seq<u8>, i32)>::empty(),
            old(self).probe_index() >= 8 ==> r is None && *final(self) == *old(self),
            final(self).wanted() == old(self).wanted(),
            final(self).probe_index() >= old(self).probe_index(),
            final(self).rest().len() <= old(self).rest().len(),
            final(self).rest() == old(self).rest().skip(
                old(self).rest().len() - final(self).rest().len(),
            ),
            r is None ==> final(self).rest() == old(self).rest() && final(self).probe_index() == 8,
            r matches Some(item) ==> {
                &&& old(self).rest().len() >= SOCKADDR_HDR_SIZE
                &&& final(self).rest() == old(self).rest().skip(
                    vstd::math::min(
                        old(self).rest().len() as int,
                        align4(old(self).rest()[0] as int),
                    ),
                )
                &&& 0 < final(self).probe_index() <= 8
                &&& item.1.bits == flag_bit(final(self).probe_index() - 1)
                &&& final(self).probe_index() > old(self).probe_index()
            },
    {
        let ghost start = self.entries();
        let ghost start_index = self.probe_index();
        loop
            invariant
                self.wf(),
                self.entries() == start,
                start == old(self).entries(),
                start_index == old(self).probe_index(),
                self.probe_index() >= start_index,
                self.buffer == old(self).buffer,
                self.pos == old(self).pos,
                self.flags == old(self).flags,
            decreases 8 - self.cursor,
        {
            if self.cursor >= 8 {
                assert(self.entries() =~= Seq::<(Seq<u8>, i32)>::empty());
                assert(self.rest() =~= self.rest().skip(0));
                return None;
            }
            let k = self.cursor;
            let current_flag = AddressFlag::nth(k);
            self.cursor = k + 1;
            if !self.flags.contains(current_flag) {
                continue;
            }
            let remaining = self.buffer.len() - self.pos;
            if remaining < SOCKADDR_HDR_SIZE {
                assert(start =~= Seq::<(Seq<u8>, i32)>::empty());
                assert(self.rest() =~= self.rest().skip(0));
                self.cursor = 8;
                return None;
            }
            let sockaddr_len = self.buffer[self.pos];
            let next_offset = self.next_offset(sockaddr_len);
            assert(self.buffer@.skip(self.pos as int) =~= self.rest());
            match decode_sockaddr(&self.buffer, self.pos, sockaddr_len) {
                Some(addr) => {
                    let ghost old_rest = self.rest();
                    let step = if remaining < next_offset {
                        remaining
                    } else {
                        next_offset
                    };
                    self.pos = self.pos + step;
                    assert(self.rest() =~= old_rest.skip(step as int));
                    assert(self.rest() =~= old_rest.skip(old_rest.len() - self.rest().len()));
                    return Some((addr, current_flag));
                },
                None => {
                    assert(start =~= Seq::<(Seq<u8>, i32)>::empty());
                    assert(self.rest() =~= self.rest().skip(0));
                    self.cursor = 8;
                    return None;
                },
            }
        }
    }

    /// All the addresses that remain, in order.
    pub fn collect_addrs(&mut self) -> (r: Vec<(SocketAddress, AddressFlag)>)
        requires
            old(self).wf(),
        ensures
            final(self).wf(),
            r@.map_values(|item: (SocketAddress, AddressFlag)| item_view(item)) == old(self).entries(),
    {
        let mut r: Vec<(SocketAddress, AddressFlag)> = Vec::new();
        loop
            invariant
                self.wf(),
                r@.map_values(|item: (SocketAddress, AddressFlag)| item_view(item)).add(self.entries())
                    == old(self).entries(),
            decreases 8 - self.probe_index(),
        {
            let ghost before = r@;
            match self.next() {
                Some(item) => {
                    r.push(item);
                    assert(r@.map_values(|item: (SocketAddress, AddressFlag)| item_view(item)) =~= before.map_values(
                        |item: (SocketAddress, AddressFlag)| item_view(item),
                    ).push(item_view(item)));
                },
                None => {
                    assert(r@.map_values(|item: (SocketAddress, AddressFlag)| item_view(item)).add(
                        Seq::<(Seq<u8>, i32)>::empty(),
                    ) =~= r@.map_values(|item: (SocketAddress, AddressFlag)| item_view(item)));
                    return r;
                },
            }
        }
    }
}


/// An interface status notification: its header and the bytes that follow
/// it. The length the header reports must be that of the whole buffer.
#[derive(Debug)]
pub struct Interface {
    header: if_msghdr,
    payload: Vec<u8>,
}

impl Interface {
    pub closed spec fn spec_header(&self) -> if_msghdr {
        self.header
    }

    pub closed spec fn spec_payload(&self) -> Seq<u8> {
        self.payload@
    }

    pub fn header(&self) -> (r: &if_msghdr)
        ensures
            *r == self.spec_header(),
    {
        &self.header
    }

    pub fn payload(&self) -> (r: &[u8])
        ensures
            r@ == self.spec_payload(),
    {
        self.payload.as_slice()
    }

    pub fn from_byte_buffer(buffer: &[u8]) -> (r: Result<Self, Error>)
        ensures
            buffer@.len() < IF_MSGHDR_SIZE ==> r == Err::<Self, Error>(
                Error::BufferTooSmall("if_msghdr", IF_MSGHDR_SIZE),
            ),
            buffer@.len() >= IF_MSGHDR_SIZE ==> {
                let msglen = le_u16(buffer@, 0);
                if msglen != buffer@.len() {
                    r == Err::<Self, Error>(
                        Error::InvalidBuffer(msglen as usize, buffer@.len() as usize),
                    )
                } else {
                    r matches Ok(i) && i.spec_header().decodes(buffer@) && i.spec_payload()
                        == buffer@.subrange(IF_MSGHDR_SIZE as int, msglen) && IF_MSGHDR_SIZE
                        + i.spec_payload().len() == buffer@.len()
                }
            },
    {
        let header = match if_msghdr::from_bytes(buffer) {
            Some(h) => h,
            None => {
                return Err(Error::BufferTooSmall("if_msghdr", IF_MSGHDR_SIZE));
            },
        };
        let msglen = header.ifm_msglen as usize;
        if msglen != buffer.len() {
            return Err(Error::InvalidBuffer(msglen, buffer.len()));
        }
        let payload = copy_range(buffer, IF_MSGHDR_SIZE, msglen);
        Ok(Interface { header, payload })
    }
}

/// A route add or delete notification: its header and the socket
/// addresses that follow it.
#[derive(Debug)]
pub struct Route {
    header: rt_msghdr,
    payload: Vec<u8>,
}

/// The addresses of a route message whose address bitmask is `addrs`; a
/// bitmask with bits outside the eight defined flags gives none.
pub open spec fn route_entries(addrs: i32, payload: Seq<u8>) -> Seq<(Seq<u8>, i32)> {
    if 0 <= addrs <= 0xff {
        addr_entries(payload, addrs, 0)
    } else {
        seq![]
    }
}

impl Route {
    pub closed spec fn spec_header(&self) -> rt_msghdr {
        self.header
    }

    pub closed spec fn spec_payload(&self) -> Seq<u8> {
        self.payload@
    }

    pub fn header(&self) -> (r: &rt_msghdr)
        ensures
            *r == self.spec_header(),
    {
        &self.header
    }

    pub fn payload(&self) -> (r: &[u8])
        ensures
            r@ == self.spec_payload(),
    {
        self.payload.as_slice()
    }

    /// Decodes a route message that fills `buffer` exactly.
    pub fn from_byte_buffer(buffer: &[u8]) -> (r: Result<Self, Error>)
        ensures
            buffer@.len() < RT_MSGHDR_SIZE ==> r == Err::<Self, Error>(
                Error::BufferTooSmall("rt_msghdr", RT_MSGHDR_SIZE),
            ),
            buffer@.len() >= RT_MSGHDR_SIZE ==> {
                let msglen = le_u16(buffer@, 0);
                if msglen != buffer@.len() {
                    r == Err::<Self, Error>(
                        Error::InvalidBuffer(msglen as usize, buffer@.len() as usize),
                    )
                } else {
                    r matches Ok(rt) && rt.spec_header().decodes(buffer@) && rt.spec_payload()
                        == buffer@.subrange(RT_MSGHDR_SIZE as int, msglen) && RT_MSGHDR_SIZE
                        + rt.spec_payload().len() == buffer@.len()
                }
            },
    {
        let header = match rt_msghdr::from_bytes(buffer) {
            Some(h) => h,
            None => {
                return Err(Error::BufferTooSmall("rt_msghdr", RT_MSGHDR_SIZE));
            },
        };
        let msglen = header.rtm_msglen as usize;
        if msglen != buffer.len() {
            return Err(Error::InvalidBuffer(msglen, buffer.len()));
        }
        let payload = copy_range(buffer, RT_MSGHDR_SIZE, msglen);
        Ok(Route { header, payload })
    }

    /// The socket addresses of this route, in ascending flag order.
    pub fn route_addrs(&self) -> (r: SockAddrIterator)
        ensures
            r.wf(),
            r.entries() == route_entries(self.spec_header().rtm_addrs, self.spec_payload()),
            r.probe_index() == 0,
            0 <= self.spec_header().rtm_addrs <= 0xff ==> r.rest() == self.spec_payload()
                && r.wanted() == self.spec_header().rtm_addrs,
            !(0 <= self.spec_header().rtm_addrs <= 0xff) ==> r.rest().len() == 0 && r.wanted()
                == 0,
    {
        match AddressFlag::from_bits(self.header.rtm_addrs) {
            Some(flags) => SockAddrIterator::new(self.payload.as_slice(), flags),
            None => {
                let r = SockAddrIterator::new(&[], AddressFlag::empty());
                assert(r.rest().len() == 0);
                assert(r.entries() =~= Seq::<(Seq<u8>, i32)>::empty()) by {
                    lemma_no_wanted_no_entries(r.rest(), 0);
                }
                r
            },
        }
    }

    pub fn is_add(&self) -> (r: bool)
        ensures
            r == (self.spec_header().rtm_type as int == RTM_ADD as int),
    {
        self.header.rtm_type as i32 == RTM_ADD
    }

    pub fn is_remove(&self) -> (r: bool)
        ensures
            r == (self.spec_header().rtm_type as int == RTM_DELETE as int),
    {
        self.header.rtm_type as i32 == RTM_DELETE
    }
}

proof fn lemma_no_wanted_no_entries(rest: Seq<u8>, k: int)
    requires
        rest.len() == 0,
    ensures
        addr_entries(rest, 0, k) == Seq::<(Seq<u8>, i32)>::empty(),
    decreases 8 - k,
{
    if 0 <= k < 8 {
        assert(0i32 & flag_bit(k) == 0) by (bit_vector);
        lemma_no_wanted_no_entries(rest, k + 1);
    }
}


/// A routing-socket notification, classified by its message type.
#[derive(Debug)]
pub enum RouteMessage {
    Interface(Interface),
    DeleteRoute(Route),
    AddRoute(Route),
    Other { header: rt_msghdr_short, payload: Vec<u8> },
}

/// The message type byte of `b`.
pub open spec fn msg_type(b: Seq<u8>) -> int {
    b[3] as int
}

impl RouteMessage {
    /// Classifies and decodes one notification.
    ///
    /// Interface and route messages must report the length of the whole
    /// buffer, and keep the bytes after their header; any other type keeps
    /// the whole buffer.
    pub fn parse_message(buffer: &[u8]) -> (r: Result<Self, Error>)
        ensures
            buffer@.len() < RT_MSGHDR_SHORT_SIZE ==> r == Err::<Self, Error>(
                Error::BufferTooSmall("rt_msghdr_short", RT_MSGHDR_SHORT_SIZE),
            ),
            buffer@.len() >= RT_MSGHDR_SHORT_SIZE && msg_type(buffer@) == RTM_IFINFO ==> {
                if buffer@.len() < IF_MSGHDR_SIZE {
                    r == Err::<Self, Error>(Error::BufferTooSmall("if_msghdr", IF_MSGHDR_SIZE))
                } else if le_u16(buffer@, 0) != buffer@.len() {
                    r == Err::<Self, Error>(
                        Error::InvalidBuffer(le_u16(buffer@, 0) as usize, buffer@.len() as usize),
                    )
                } else {
                    r matches Ok(RouteMessage::Interface(i)) && i.spec_header().decodes(buffer@)
                        && i.spec_payload() == buffer@.subrange(
                        IF_MSGHDR_SIZE as int,
                        le_u16(buffer@, 0),
                    )
                }
            },
            buffer@.len() >= RT_MSGHDR_SHORT_SIZE && (msg_type(buffer@) == RTM_ADD || msg_type(
                buffer@,
            ) == RTM_DELETE) ==> {
                if buffer@.len() < RT_MSGHDR_SIZE {
                    r == Err::<Self, Error>(Error::BufferTooSmall("rt_msghdr", RT_MSGHDR_SIZE))
                } else if le_u16(buffer@, 0) != buffer@.len() {
                    r == Err::<Self, Error>(
                        Error::InvalidBuffer(le_u16(buffer@, 0) as usize, buffer@.len() as usize),
                    )
                } else if msg_type(buffer@) == RTM_ADD {
                    r matches Ok(RouteMessage::AddRoute(rt)) && rt.spec_header().decodes(buffer@)
                        && rt.spec_payload() == buffer@.subrange(
                        RT_MSGHDR_SIZE as int,
                        buffer@.len() as int,
                    )
                } else {
                    r matches Ok(RouteMessage::DeleteRoute(rt)) && rt.spec_header().decodes(
                        buffer@,
                    ) && rt.spec_payload() == buffer@.subrange(
                        RT_MSGHDR_SIZE as int,
                        buffer@.len() as int,
                    )
                }
            },
            buffer@.len() >= RT_MSGHDR_SHORT_SIZE && msg_type(buffer@) != RTM_IFINFO && msg_type(
                buffer@,
            ) != RTM_ADD && msg_type(buffer@) != RTM_DELETE ==> (r matches Ok(
                RouteMessage::Other { header, payload },
            ) && header.decodes(buffer@) && payload@ == buffer@),
            r matches Ok(RouteMessage::Interface(i)) ==> IF_MSGHDR_SIZE + i.spec_payload().len()
                == buffer@.len(),
            r matches Ok(RouteMessage::AddRoute(rt)) ==> RT_MSGHDR_SIZE + rt.spec_payload().len()
                == buffer@.len(),
            r matches Ok(RouteMessage::DeleteRoute(rt)) ==> RT_MSGHDR_SIZE
                + rt.spec_payload().len() == buffer@.len(),
    {
        match rt_msghdr_short::from_bytes(buffer) {
            Some(header) => {
                if header.is_type(RTM_IFINFO) {
                    Ok(RouteMessage::Interface(Interface::from_byte_buffer(buffer)?))
                } else if header.is_one_of(&[RTM_ADD, RTM_DELETE]) {
                    let route = Route::from_byte_buffer(buffer)?;
                    if route.is_add() {
                        Ok(RouteMessage::AddRoute(route))
                    } else {
                        Ok(RouteMessage::DeleteRoute(route))
                    }
                } else {
                    let payload = copy_range(buffer, 0, buffer.len());
                    assert(payload@ =~= buffer@);
                    Ok(RouteMessage::Other { header, payload })
                }
            },
            None => Err(Error::BufferTooSmall("rt_msghdr_short", RT_MSGHDR_SHORT_SIZE)),
        }
    }
}

} // verus!
