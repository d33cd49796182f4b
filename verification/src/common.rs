//! Pieces shared by the connection pipeline.

pub mod io;
