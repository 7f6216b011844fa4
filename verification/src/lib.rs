//! Wake-on-LAN magic packets: hardware-address parsing and packet
//! construction, with verified contracts. Transmission over UDP is left
//! to the caller, who hands the finished 102-byte payload to a socket.

pub mod mac;
pub mod packet;

pub use mac::Mac;
pub use mac::ParseError;
pub use mac::parse_mac;
pub use packet::WolError;
pub use packet::build_packet;
