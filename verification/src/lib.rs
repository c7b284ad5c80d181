//! Decoders for the byte layout that the Linux `AF_PACKET` ring writes in its
//! `TPACKET_V3` form: the block descriptor, the block header, the per-packet
//! header and its variant-1 trailer, with the ring's request and statistics
//! records.
//!
//! Every decoder is a pure function from a byte window to a value and the
//! unread rest of the window, and its contract gives both as functions of the
//! bytes alone.

pub mod tpacket3;
pub mod wire;
