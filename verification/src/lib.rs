pub mod archive;
pub mod utils;
pub mod utp;
