pub mod old2;
