pub mod utp_stream;
