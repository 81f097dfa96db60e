//! What the operations of the service are for, said of what goes into them and what comes out.
pub mod access;
pub mod board;
pub mod memory;
pub mod money;
pub mod outcome;
pub mod upload;
pub mod words;
pub mod work;
