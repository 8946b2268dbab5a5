pub mod old2;
pub mod utp_socket;
