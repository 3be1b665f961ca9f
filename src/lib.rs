//! Key-value storage over three embedded engines, and the module loader that
//! caches remote script sources in one of them.
pub mod configure;
pub mod kv;
pub mod loader;
pub mod lmdb;
pub mod redb_store;
pub mod persy_store;
pub mod selector;
pub mod specifier;
pub mod system_info;
