pub mod utp_state;
pub mod utp_type;
