//! Core of a user-space TCP/IPv4 stack, with its behaviour stated as Verus
//! contracts: Ethernet, IPv4 and TCP header codecs and checksums,
//! sequence-number arithmetic, initial sequence numbers, passive open, the
//! send and receive state of a connection, retransmission timing,
//! congestion control, delayed ACKs and ARP resolution.

pub mod fail;
pub mod wire;
pub mod checksum;
pub mod ethernet;
pub mod ipv4;
pub mod seq_number;
pub mod tcp;
pub mod tcp_codec;
pub mod isn_generator;
pub mod passive_open;
pub mod active_open;
pub mod sender;
pub mod receiver;
pub mod rto;
pub mod congestion_control;
pub mod acknowledger;
pub mod state;
pub mod established;
pub mod arp;
pub mod arp_packet;
pub mod operations;
pub mod test_helpers;
