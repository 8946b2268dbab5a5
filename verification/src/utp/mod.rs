pub mod conn;
pub mod endian;
pub mod event;
pub mod inter;
pub mod legacy;
pub mod packet;
pub mod udp;
pub mod utp_packet;
pub mod utp_state;
pub mod utp_type;
pub mod utp_types;
