//! A verified core for a catalog of game levels: a level-id codec, row
//! normalization for heterogeneous upstream feeds, a blocklist gate, a
//! transactional catalog store, and a filter-driven random selection engine.
pub mod csv_feed;
pub mod dates;
pub mod id_codec;
pub mod normalize;
pub mod numbers;
pub mod query;
pub mod requests;
pub mod selection;
pub mod settings;
pub mod smm1_level;
pub mod smm2_level;
pub mod store;
pub mod taxonomy;
pub mod text;
pub mod tpl_helpers;
pub mod vite_assets;
pub mod webhook;
