pub mod clock;
pub mod constants;
pub mod digest;
pub mod slots;
pub mod text;
pub mod beatmap;
pub mod metadata_cache;
pub mod parsed_cache;
pub mod api_pool;
pub mod resolver;
pub mod calculator;
pub mod recalc;
pub mod settings;
pub mod files;
pub mod caches;
