//! Decoding of BSD routing-socket notifications: headers, message
//! classification and the socket addresses that route messages carry.

pub mod bytes;
pub mod data;
pub mod watch;
