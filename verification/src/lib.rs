//! A buffer pool for a page-based database: arenas of fixed-size slots, with temporary buffers to
//! fall back on.

pub mod arena;
pub mod bitmap;
pub mod buffer;
pub mod error;
pub mod file;
pub mod generic;
pub mod io;
pub mod laws;
pub mod pool;
