//! The logic of a manga sync service: reading a manga's page, merging it with the
//! saved state, planning page scans and chapter archives, and choosing what to sync.


pub mod chapter;
pub mod laws;
pub mod manga;
pub mod scrape;
pub mod synclist;
pub mod text;
pub mod volume;

