//! Handling of the notifications read from a routing socket.

use vstd::prelude::*;
use crate::bytes::{le_i32, le_u16};
use crate::data::{
    addr_entries, decoded_sockaddr, item_view, route_entries, msg_type, AddressFlag, Error, RouteMessage,
    SocketAddress, IF_MSGHDR_SIZE, RTM_ADD, RTM_DELETE, RTM_IFINFO, RT_MSGHDR_SHORT_SIZE,
    RT_MSGHDR_SIZE,
};

verus! {

/// A captured route-delete notification: a destination and a gateway, both
/// IPv4, on interface "en0".
pub open spec fn remove_route_msg_bytes() -> Seq<u8> {
    seq![
        164u8, 0, 5, 2, 11, 0, 0, 0, 66, 8, 1, 67, 55, 0, 0, 0,
        64, 1, 0, 0, 71, 8, 0, 0, 0, 0, 0, 0, 0, 0, 0, 0,
        0, 0, 0, 0, 0, 0, 0, 0, 220, 5, 0, 0, 0, 0, 0, 0,
        0, 0, 0, 0, 0, 0, 0, 0, 0, 0, 0, 0, 0, 0, 0, 0,
        0, 0, 0, 0, 0, 0, 0, 0, 0, 0, 0, 0, 0, 0, 0, 0,
        0, 0, 0, 0, 0, 0, 0, 0, 0, 0, 0, 0, 16, 2, 0, 0,
        0, 0, 0, 0, 0, 0, 0, 0, 0, 0, 0, 0, 16, 2, 0, 0,
        192, 168, 185, 1, 11, 0, 0, 0, 0, 0, 0, 0, 0, 0, 0, 0,
        20, 18, 11, 0, 6, 3, 6, 0, 101, 110, 48, 60, 6, 48, 3, 54,
        249, 0, 0, 0, 16, 2, 0, 0, 192, 168, 185, 116, 0, 0, 0, 0,
        0, 0, 0, 0,
    ]
}

pub fn remove_route_msg() -> (r: Vec<u8>)
    ensures
        r@ == remove_route_msg_bytes(),
{
    let r: Vec<u8> = vec![
        164u8, 0, 5, 2, 11, 0, 0, 0, 66, 8, 1, 67, 55, 0, 0, 0,
        64, 1, 0, 0, 71, 8, 0, 0, 0, 0, 0, 0, 0, 0, 0, 0,
        0, 0, 0, 0, 0, 0, 0, 0, 220, 5, 0, 0, 0, 0, 0, 0,
        0, 0, 0, 0, 0, 0, 0, 0, 0, 0, 0, 0, 0, 0, 0, 0,
        0, 0, 0, 0, 0, 0, 0, 0, 0, 0, 0, 0, 0, 0, 0, 0,
        0, 0, 0, 0, 0, 0, 0, 0, 0, 0, 0, 0, 16, 2, 0, 0,
        0, 0, 0, 0, 0, 0, 0, 0, 0, 0, 0, 0, 16, 2, 0, 0,
        192, 168, 185, 1, 11, 0, 0, 0, 0, 0, 0, 0, 0, 0, 0, 0,
        20, 18, 11, 0, 6, 3, 6, 0, 101, 110, 48, 60, 6, 48, 3, 54,
        249, 0, 0, 0, 16, 2, 0, 0, 192, 168, 185, 116, 0, 0, 0, 0,
        0, 0, 0, 0,
    ];
    assert(r@ =~= remove_route_msg_bytes());
    r
}

/// The error that decoding `b` fails with, if it fails.
pub open spec fn parse_error(b: Seq<u8>) -> Option<Error> {
    if b.len() < RT_MSGHDR_SHORT_SIZE {
        Some(Error::BufferTooSmall("rt_msghdr_short", RT_MSGHDR_SHORT_SIZE))
    } else if msg_type(b) == RTM_IFINFO {
        if b.len() < IF_MSGHDR_SIZE {
            Some(Error::BufferTooSmall("if_msghdr", IF_MSGHDR_SIZE))
        } else if le_u16(b, 0) != b.len() {
            Some(Error::InvalidBuffer(le_u16(b, 0) as usize, b.len() as usize))
        } else {
            None
        }
    } else if msg_type(b) == RTM_ADD || msg_type(b) == RTM_DELETE {
        if b.len() < RT_MSGHDR_SIZE {
            Some(Error::BufferTooSmall("rt_msghdr", RT_MSGHDR_SIZE))
        } else if le_u16(b, 0) != b.len() {
            Some(Error::InvalidBuffer(le_u16(b, 0) as usize, b.len() as usize))
        } else {
            None
        }
    } else {
        None
    }
}

/// `b` decodes as a route message of type `kind`.
pub open spec fn is_route_of_type(b: Seq<u8>, kind: i32) -> bool {
    parse_error(b) is None && b.len() >= RT_MSGHDR_SHORT_SIZE && msg_type(b) == kind as int
}

/// The addresses of the route message `b`.
pub open spec fn route_msg_entries(b: Seq<u8>) -> Seq<(Seq<u8>, i32)> {
    route_entries(le_i32(b, 12) as i32, b.subrange(RT_MSGHDR_SIZE as int, b.len() as int))
}

/// What the watcher reports of one notification.
#[derive(Debug)]
pub enum MessageReport {
    /// A route was added; these are its addresses.
    AddRoute(Vec<(SocketAddress, AddressFlag)>),
    /// A route was deleted; these are its addresses.
    DeleteRoute(Vec<(SocketAddress, AddressFlag)>),
    /// The notification could not be decoded.
    Failed(Error),
    /// Interface and other notifications are not acted upon.
    Ignored,
}

/// Decides what to report of the notification `buf`. Never fails: a buffer
/// that does not decode is reported with its error.
pub fn parse_msg(buf: &[u8]) -> (r: MessageReport)
    ensures
        r is Failed <==> parse_error(buf@) is Some,
        r matches MessageReport::Failed(e) ==> parse_error(buf@) == Some(e),
        r is AddRoute <==> is_route_of_type(buf@, RTM_ADD),
        r is DeleteRoute <==> is_route_of_type(buf@, RTM_DELETE),
        r matches MessageReport::AddRoute(addrs) ==> addrs@.map_values(
            |item: (SocketAddress, AddressFlag)| item_view(item),
        ) == route_msg_entries(buf@),
        r matches MessageReport::DeleteRoute(addrs) ==> addrs@.map_values(
            |item: (SocketAddress, AddressFlag)| item_view(item),
        ) == route_msg_entries(buf@),
{
    match RouteMessage::parse_message(buf) {
        Ok(RouteMessage::AddRoute(route)) => {
            let mut it = route.route_addrs();
            MessageReport::AddRoute(it.collect_addrs())
        },
        Ok(RouteMessage::DeleteRoute(route)) => {
            let mut it = route.route_addrs();
            MessageReport::DeleteRoute(it.collect_addrs())
        },
        Err(err) => MessageReport::Failed(err),
        Ok(_) => MessageReport::Ignored,
    }
}

/// Whether the captured notification decodes as a route delete carrying
/// exactly two addresses.
pub fn test_remove_route_inner() -> (r: bool)
    ensures
        r == (is_route_of_type(remove_route_msg_bytes(), RTM_DELETE) && route_msg_entries(
            remove_route_msg_bytes(),
        ).len() == 2),
        r,
{
    let msg = remove_route_msg();
    proof {
        lemma_remove_route_msg_addresses();
    }
    match parse_msg(msg.as_slice()) {
        MessageReport::DeleteRoute(addrs) => addrs.len() == 2,
        _ => false,
    }
}


/// The captured notification is a route delete whose addresses are its
/// destination and its gateway, in that order.
pub proof fn lemma_remove_route_msg_addresses()
    ensures
        is_route_of_type(remove_route_msg_bytes(), RTM_DELETE),
        route_msg_entries(remove_route_msg_bytes()).len() == 2,
        route_msg_entries(remove_route_msg_bytes())[0].1 == crate::data::RTA_DST,
        route_msg_entries(remove_route_msg_bytes())[1].1 == crate::data::RTA_GATEWAY,
{
    let b = remove_route_msg_bytes();
    assert(b.len() == 164);
    assert(le_u16(b, 0) == 164);
    assert(le_i32(b, 12) == 55);
    let p0 = b.subrange(RT_MSGHDR_SIZE as int, b.len() as int);
    assert(p0.len() == 72);
    assert(p0[0] == 16);
    assert(55i32 & 1i32 == 1i32) by (bit_vector);
    assert(55i32 & 2i32 == 2i32) by (bit_vector);
    assert(55i32 & 4i32 == 4i32) by (bit_vector);
    let p1 = p0.skip(16);
    assert(p1[0] == 16);
    let p2 = p1.skip(16);
    assert(p2[0] == 0);
    assert(decoded_sockaddr(p2) is None);
    assert(addr_entries(p2, 55, 2) =~= Seq::<(Seq<u8>, i32)>::empty());
    assert(addr_entries(p1, 55, 1).len() == 1);
    assert(addr_entries(p0, 55, 0).len() == 2);
}


/// What a read from the routing socket came back with.
#[derive(Debug, Clone, Copy, PartialEq, Eq)]
pub enum ReadOutcome {
    /// This many bytes were read; none means the socket reached its end.
    Data(usize),
    /// The socket was closed.
    Closed,
    /// The read was interrupted by a signal.
    Interrupted,
    /// No message was ready yet.
    WouldBlock,
    /// Any other failure, with its error number.
    Failed(i32),
}

/// What the watch loop does next.
#[derive(Debug, Clone, Copy, PartialEq, Eq)]
pub enum WatchAction {
    /// Handle the first this-many bytes of the read buffer, then read again.
    Dispatch(usize),
    /// Read again.
    Retry,
    /// Stop watching and report the failure.
    Stop,
}

/// Decides what follows a read: data is handled, an interrupted or not yet
/// ready read is retried, and the end of the socket or any other failure
/// stops the loop.
pub fn on_read(outcome: ReadOutcome) -> (a: WatchAction)
    ensures
        a == (match outcome {
            ReadOutcome::Data(n) => if n > 0 {
                WatchAction::Dispatch(n)
            } else {
                WatchAction::Stop
            },
            ReadOutcome::Interrupted => WatchAction::Retry,
            ReadOutcome::WouldBlock => WatchAction::Retry,
            ReadOutcome::Closed => WatchAction::Stop,
            ReadOutcome::Failed(_) => WatchAction::Stop,
        }),
{
    match outcome {
        ReadOutcome::Data(n) => if n > 0 {
            WatchAction::Dispatch(n)
        } else {
            WatchAction::Stop
        },
        ReadOutcome::Interrupted => WatchAction::Retry,
        ReadOutcome::WouldBlock => WatchAction::Retry,
        ReadOutcome::Closed => WatchAction::Stop,
        ReadOutcome::Failed(_) => WatchAction::Stop,
    }
}

} // verus!
