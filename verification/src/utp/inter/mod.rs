pub mod utp_types;
