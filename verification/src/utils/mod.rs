pub mod clock;
pub mod io_error;
pub mod random;
