pub mod config;
pub mod format;
pub mod heap;
pub mod rpc;
pub mod sort;
pub mod state;
pub mod stats;
pub mod table;
pub mod text;
pub mod torrent;
pub mod tree;
pub mod worker;
