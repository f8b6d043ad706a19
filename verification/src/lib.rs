//! A minimal user-space network stack over raw link-layer frames: packet
//! buffers with layered header views, the Ethernet, ARP and IPv4 wire
//! formats, an ARP cache with ageing and eviction, and the frame dispatch of a
//! single network device.

pub mod arp;
pub mod arp_handler;
pub mod clock;
pub mod dev;
pub mod echo;
pub mod error;
pub mod eth;
pub mod header;
pub mod ip;
pub mod ping;
pub mod rawbuf;
pub mod scan;
pub mod skbuff;
pub mod wire;
